//! DFU protocol sequence: START, INIT, DATA, STOP.
//!
//! The whole upload is laid out in advance as a list of steps: packets to
//! send (each acknowledged by the device), pauses that give the device time
//! to erase or write flash, and progress reports. The serial transport
//! carries out the steps one by one. Opcodes and payload formats are those
//! of the legacy Nordic serial DFU.
use vstd::prelude::*;
use crate::infrastructure::sensor::dfu::init_packet::{
    build_init_packet, init_packet_spec, u32_le,
};

verus! {

/// DFU packet opcodes (prepended as a little-endian u32 to every payload).
pub const DFU_INIT_PACKET: u32 = 1;

pub const DFU_START_PACKET: u32 = 3;

pub const DFU_DATA_PACKET: u32 = 4;

pub const DFU_STOP_DATA_PACKET: u32 = 5;

/// Application-only update mode for the START command.
pub const DFU_UPDATE_MODE_APP: u32 = 4;

/// Firmware bytes per DATA packet.
pub const DATA_CHUNK_SIZE: usize = 512;

/// DATA packets per flash page; the device writes a page after this many.
pub const CHUNKS_PER_FLASH_PAGE: usize = 8;

/// Pause after each full flash page, in milliseconds.
pub const FLASH_PAGE_DELAY_MS: u64 = 102;

/// Erase time per 4 KiB flash page on the nRF52840, in milliseconds.
pub const ERASE_MS_PER_PAGE: u64 = 90;

pub const FLASH_PAGE_SIZE: usize = 4096;

/// Shortest wait for the flash erase after START, in milliseconds.
pub const MIN_ERASE_DELAY_MS: u64 = 500;

/// Wait after STOP while the device validates the image, in milliseconds.
pub const STOP_DELAY_MS: u64 = 190;

/// START: opcode, update mode, SoftDevice size 0, bootloader size 0, and
/// the application size (as a u32).
pub open spec fn start_payload_spec(app_size: usize) -> Seq<u8> {
    u32_le(DFU_START_PACKET) + u32_le(DFU_UPDATE_MODE_APP) + u32_le(0) + u32_le(0) + u32_le(
        app_size as u32,
    )
}

/// INIT: opcode, the 14-byte init packet, two bytes of padding.
pub open spec fn init_payload_spec(firmware: Seq<u8>) -> Seq<u8> {
    u32_le(DFU_INIT_PACKET) + init_packet_spec(firmware) + seq![0u8, 0u8]
}

/// DATA: opcode and a chunk of the firmware.
pub open spec fn data_payload_spec(chunk: Seq<u8>) -> Seq<u8> {
    u32_le(DFU_DATA_PACKET) + chunk
}

/// STOP: the opcode alone.
pub open spec fn stop_payload_spec() -> Seq<u8> {
    u32_le(DFU_STOP_DATA_PACKET)
}

/// Time to wait after START for the flash erase: 90 ms for each 4 KiB page
/// the application may touch (one more than whole pages), at least 500 ms.
pub open spec fn erase_delay_spec(app_size: usize) -> int {
    let d = (app_size / 4096 + 1) * 90;
    if d > 500 {
        d
    } else {
        500
    }
}

/// Number of DATA packets: the firmware length divided by 512, rounded up.
pub open spec fn chunk_count_spec(len: nat) -> nat {
    ((len + 511) / 512) as nat
}

/// Chunk `i` of the firmware.
pub open spec fn chunk_spec(firmware: Seq<u8>, i: nat) -> Seq<u8> {
    let start: int = (i * 512) as int;
    let end: int = if start + 512 <= firmware.len() {
        start + 512
    } else {
        firmware.len() as int
    };
    firmware.subrange(start, end)
}

/// The first `n` chunks, joined.
pub open spec fn chunks_joined(firmware: Seq<u8>, n: nat) -> Seq<u8>
    decreases n,
{
    if n == 0 {
        Seq::empty()
    } else {
        chunks_joined(firmware, (n - 1) as nat) + chunk_spec(firmware, (n - 1) as nat)
    }
}

proof fn lemma_chunks_prefix(firmware: Seq<u8>, n: nat)
    requires
        n <= chunk_count_spec(firmware.len()),
    ensures
        chunks_joined(firmware, n) == firmware.subrange(
            0,
            if n * 512 <= firmware.len() {
                (n * 512) as int
            } else {
                firmware.len() as int
            },
        ),
    decreases n,
{
    let len = firmware.len();
    if n == 0 {
        assert(firmware.subrange(0, 0) =~= Seq::<u8>::empty());
    } else {
        let m = (n - 1) as nat;
        lemma_chunks_prefix(firmware, m);
        assert(m * 512 < len) by (nonlinear_arith)
            requires
                n <= (len + 511) / 512,
                m + 1 == n,
        ;
        assert(m * 512 + 512 == n * 512) by (nonlinear_arith)
            requires
                m + 1 == n,
        ;
        let end: int = if n * 512 <= len {
            (n * 512) as int
        } else {
            len as int
        };
        assert(chunk_spec(firmware, m) =~= firmware.subrange((m * 512) as int, end));
        assert(firmware.subrange(0, (m * 512) as int) + firmware.subrange((m * 512) as int, end)
            =~= firmware.subrange(0, end));
    }
}

/// The DATA packets carry the whole firmware, in order: joined, the chunks
/// are the firmware, and each holds between 1 and 512 bytes.
pub proof fn law_data_chunks_cover_firmware(firmware: Seq<u8>)
    ensures
        chunks_joined(firmware, chunk_count_spec(firmware.len())) == firmware,
        forall|i: nat|
            i < chunk_count_spec(firmware.len()) ==> 0 < #[trigger] chunk_spec(firmware, i).len()
                <= 512,
{
    let len = firmware.len();
    let count = chunk_count_spec(len);
    lemma_chunks_prefix(firmware, count);
    assert(count * 512 >= len) by (nonlinear_arith)
        requires
            count == (len + 511) / 512,
    ;
    assert(firmware.subrange(0, len as int) =~= firmware);
    assert forall|i: nat| i < count implies 0 < #[trigger] chunk_spec(firmware, i).len() <= 512 by {
        assert(i * 512 < len) by (nonlinear_arith)
            requires
                i < (len + 511) / 512,
        ;
    }
}

/// Progress is reported every `max(total / 10, 1)` chunks.
pub open spec fn log_interval_spec(total: nat) -> nat {
    if total / 10 > 1 {
        (total / 10) as nat
    } else {
        1
    }
}

/// After chunk `i` (counting from 0) progress is reported when the number
/// of chunks sent is a multiple of the interval, and after the last one.
pub open spec fn reports_after(i: nat, total: nat) -> bool {
    (i + 1) % log_interval_spec(total) == 0 || i + 1 == total
}

/// After chunk `i` the upload pauses when a flash page is full.
pub open spec fn pauses_after(i: nat) -> bool {
    (i + 1) % 8 == 0
}

/// One step of an upload, as a value.
pub enum DfuAction {
    /// Report 0% progress.
    Begin,
    /// Send a packet and wait for its acknowledgement.
    Send(Seq<u8>),
    /// Wait this many milliseconds.
    Sleep(u64),
    /// Report that `done` of `total` DATA packets are sent.
    Report(nat, nat),
    /// Report 100% progress.
    Finished,
}

/// One step of an upload.
pub enum DfuStep {
    Begin,
    Send(Vec<u8>),
    Sleep(u64),
    Report { chunks_done: usize, total_chunks: usize },
    Finished,
}

pub open spec fn step_action(s: DfuStep) -> DfuAction {
    match s {
        DfuStep::Begin => DfuAction::Begin,
        DfuStep::Send(p) => DfuAction::Send(p@),
        DfuStep::Sleep(ms) => DfuAction::Sleep(ms),
        DfuStep::Report { chunks_done, total_chunks } => DfuAction::Report(
            chunks_done as nat,
            total_chunks as nat,
        ),
        DfuStep::Finished => DfuAction::Finished,
    }
}

pub open spec fn steps_view(s: Seq<DfuStep>) -> Seq<DfuAction> {
    s.map_values(|x: DfuStep| step_action(x))
}

/// The steps for DATA chunk `i`: send it, pause if a flash page is full,
/// report progress if due.
pub open spec fn chunk_steps(firmware: Seq<u8>, i: nat) -> Seq<DfuAction> {
    let total = chunk_count_spec(firmware.len());
    seq![DfuAction::Send(data_payload_spec(chunk_spec(firmware, i)))] + (if pauses_after(i) {
        seq![DfuAction::Sleep(FLASH_PAGE_DELAY_MS)]
    } else {
        Seq::empty()
    }) + (if reports_after(i, total) {
        seq![DfuAction::Report(i + 1, total)]
    } else {
        Seq::empty()
    })
}

/// The steps for the first `n` DATA chunks.
pub open spec fn data_steps(firmware: Seq<u8>, n: nat) -> Seq<DfuAction>
    decreases n,
{
    if n == 0 {
        Seq::empty()
    } else {
        data_steps(firmware, (n - 1) as nat) + chunk_steps(firmware, (n - 1) as nat)
    }
}

/// The whole upload: report 0%, START, wait for the erase, INIT, the DATA
/// chunks, STOP, wait for validation, report 100%.
pub open spec fn upload_steps(firmware: Seq<u8>) -> Seq<DfuAction> {
    seq![
        DfuAction::Begin,
        DfuAction::Send(start_payload_spec(firmware.len() as usize)),
        DfuAction::Sleep(erase_delay_spec(firmware.len() as usize) as u64),
        DfuAction::Send(init_payload_spec(firmware)),
    ] + data_steps(firmware, chunk_count_spec(firmware.len())) + seq![
        DfuAction::Send(stop_payload_spec()),
        DfuAction::Sleep(STOP_DELAY_MS),
        DfuAction::Finished,
    ]
}

fn push_u32_le(out: &mut Vec<u8>, v: u32)
    ensures
        final(out)@ == old(out)@ + u32_le(v),
{
    out.push((v % 0x100) as u8);
    out.push(((v / 0x100) % 0x100) as u8);
    out.push(((v / 0x10000) % 0x100) as u8);
    out.push((v / 0x1000000) as u8);
    assert(final(out)@ =~= old(out)@ + u32_le(v));
}

/// The START payload for an application of `app_size` bytes.
pub fn start_payload(app_size: usize) -> (p: Vec<u8>)
    ensures
        p@ == start_payload_spec(app_size),
        p@.len() == 20,
{
    let mut p: Vec<u8> = Vec::new();
    push_u32_le(&mut p, DFU_START_PACKET);
    push_u32_le(&mut p, DFU_UPDATE_MODE_APP);
    push_u32_le(&mut p, 0);
    push_u32_le(&mut p, 0);
    push_u32_le(&mut p, app_size as u32);
    assert(p@ =~= start_payload_spec(app_size));
    p
}

/// The INIT payload for a firmware image.
pub fn init_payload(firmware: &[u8]) -> (p: Vec<u8>)
    ensures
        p@ == init_payload_spec(firmware@),
        p@.len() == 20,
{
    let mut p: Vec<u8> = Vec::new();
    push_u32_le(&mut p, DFU_INIT_PACKET);
    let init_pkt = build_init_packet(firmware);
    let ghost head = p@;
    let mut i: usize = 0;
    while i < 14
        invariant
            i <= 14,
            init_pkt@.len() == 14,
            p@ == head + init_pkt@.subrange(0, i as int),
        decreases 14 - i,
    {
        p.push(init_pkt[i]);
        assert(p@ =~= head + init_pkt@.subrange(0, i as int + 1));
        i = i + 1;
    }
    p.push(0);
    p.push(0);
    assert(p@ =~= init_payload_spec(firmware@));
    p
}

/// The DATA payload for firmware bytes `start..end`.
pub fn data_payload(firmware: &[u8], start: usize, end: usize) -> (p: Vec<u8>)
    requires
        start <= end <= firmware@.len(),
    ensures
        p@ == data_payload_spec(firmware@.subrange(start as int, end as int)),
{
    let mut p: Vec<u8> = Vec::new();
    push_u32_le(&mut p, DFU_DATA_PACKET);
    let ghost head = p@;
    let mut i = start;
    while i < end
        invariant
            start <= i <= end,
            end <= firmware@.len(),
            p@ == head + firmware@.subrange(start as int, i as int),
        decreases end - i,
    {
        p.push(firmware[i]);
        assert(p@ =~= head + firmware@.subrange(start as int, i as int + 1));
        i = i + 1;
    }
    p
}

/// The STOP payload.
pub fn stop_payload() -> (p: Vec<u8>)
    ensures
        p@ == stop_payload_spec(),
{
    let mut p: Vec<u8> = Vec::new();
    push_u32_le(&mut p, DFU_STOP_DATA_PACKET);
    p
}

/// Milliseconds to wait for the flash erase after START.
pub fn erase_delay_ms(app_size: usize) -> (ms: u64)
    ensures
        ms == erase_delay_spec(app_size),
{
    let pages = (app_size / FLASH_PAGE_SIZE + 1) as u64;
    let d = pages * ERASE_MS_PER_PAGE;
    if d > MIN_ERASE_DELAY_MS {
        d
    } else {
        MIN_ERASE_DELAY_MS
    }
}

proof fn lemma_chunk_start(i: nat, len: nat)
    requires
        i < chunk_count_spec(len),
    ensures
        i * 512 < len,
{
    assert(i * 512 < len) by (nonlinear_arith)
        requires
            i < (len + 511) / 512,
    ;
}

/// Append the steps of DATA chunk `i`.
fn push_chunk_steps(
    steps: &mut Vec<DfuStep>,
    firmware: &[u8],
    i: usize,
    total: usize,
    interval: usize,
)
    requires
        total == chunk_count_spec(firmware@.len()),
        interval == log_interval_spec(total as nat),
        i < total,
    ensures
        steps_view(final(steps)@) == steps_view(old(steps)@) + chunk_steps(firmware@, i as nat),
{
    let len = firmware.len();
    proof {
        lemma_chunk_start(i as nat, len as nat);
    }
    let start = i * DATA_CHUNK_SIZE;
    let end = if len - start >= DATA_CHUNK_SIZE {
        start + DATA_CHUNK_SIZE
    } else {
        len
    };
    steps.push(DfuStep::Send(data_payload(firmware, start, end)));
    if (i + 1) % CHUNKS_PER_FLASH_PAGE == 0 {
        steps.push(DfuStep::Sleep(FLASH_PAGE_DELAY_MS));
    }
    if (i + 1) % interval == 0 || i + 1 == total {
        steps.push(DfuStep::Report { chunks_done: i + 1, total_chunks: total });
    }
    assert(steps_view(final(steps)@) =~= steps_view(old(steps)@) + chunk_steps(
        firmware@,
        i as nat,
    ));
}

/// The steps of uploading `firmware`, in order.
pub fn upload_steps_for(firmware: &[u8]) -> (steps: Vec<DfuStep>)
    ensures
        steps_view(steps@) == upload_steps(firmware@),
{
    let len = firmware.len();
    let mut steps: Vec<DfuStep> = Vec::new();
    steps.push(DfuStep::Begin);
    steps.push(DfuStep::Send(start_payload(len)));
    steps.push(DfuStep::Sleep(erase_delay_ms(len)));
    steps.push(DfuStep::Send(init_payload(firmware)));
    let ghost head = steps_view(steps@);
    let total = len / DATA_CHUNK_SIZE + if len % DATA_CHUNK_SIZE == 0 {
        0
    } else {
        1
    };
    assert(total == chunk_count_spec(len as nat));
    let interval = if total / 10 > 1 {
        total / 10
    } else {
        1
    };
    let mut i: usize = 0;
    assert(steps_view(steps@) =~= head + data_steps(firmware@, 0));
    while i < total
        invariant
            len == firmware@.len(),
            total == chunk_count_spec(len as nat),
            interval == log_interval_spec(total as nat),
            i <= total,
            steps_view(steps@) == head + data_steps(firmware@, i as nat),
        decreases total - i,
    {
        push_chunk_steps(&mut steps, firmware, i, total, interval);
        assert(head + data_steps(firmware@, (i + 1) as nat) =~= head + data_steps(
            firmware@,
            i as nat,
        ) + chunk_steps(firmware@, i as nat));
        i = i + 1;
    }
    let ghost middle = steps_view(steps@);
    steps.push(DfuStep::Send(stop_payload()));
    steps.push(DfuStep::Sleep(STOP_DELAY_MS));
    steps.push(DfuStep::Finished);
    assert(steps_view(steps@) =~= middle + seq![
        DfuAction::Send(stop_payload_spec()),
        DfuAction::Sleep(STOP_DELAY_MS),
        DfuAction::Finished,
    ]);
    assert(head =~= seq![
        DfuAction::Begin,
        DfuAction::Send(start_payload_spec(firmware@.len() as usize)),
        DfuAction::Sleep(erase_delay_spec(firmware@.len() as usize) as u64),
        DfuAction::Send(init_payload_spec(firmware@)),
    ]);
    assert(steps_view(steps@) =~= upload_steps(firmware@));
    steps
}

} // verus!
