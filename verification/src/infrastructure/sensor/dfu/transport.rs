//! Reading acknowledgements of the serial DFU transport: the device
//! answers each packet with one SLIP frame, the bytes between two 0xC0
//! delimiters.
use vstd::prelude::*;
use crate::infrastructure::sensor::dfu::slip::{
    lemma_slip_encode_has_no_end,
    lemma_slip_roundtrip,
    slip_decode,
    slip_decode_spec,
    slip_encode_spec,
    SLIP_END,
};
use crate::infrastructure::sensor::dfu::hci::{hci_body, hci_packet_spec};
use crate::infrastructure::sensor::SensorError;
use crate::infrastructure::sensor::detector::{
    XiaoDetector,
    XiaoMode,
    XiaoPort,
    ports_in_mode,
    ports_view,
};

verus! {

/// Baud rate of the DFU link.
pub const DFU_BAUD_RATE: u32 = 115200;

/// Baud rate whose opening makes the board reset into its bootloader.
pub const TOUCH_BAUD_RATE: u32 = 1200;

/// How long to look for the bootloader after the touch, in nanoseconds
/// (10 s).
pub const BOOTLOADER_SCAN_TIMEOUT_NANOS: u128 = 10_000_000_000;

/// Pause between two scans for the bootloader, in milliseconds.
pub const BOOTLOADER_SCAN_INTERVAL_MS: u64 = 250;

/// The outcome of one scan for the bootloader after the 1200-baud touch.
#[derive(Debug)]
pub enum BootloaderPoll {
    /// A board in bootloader mode is on this port.
    Found(String),
    /// None appeared in time.
    TimedOut(SensorError),
    /// Scan again after this many milliseconds.
    WaitMs(u64),
}

/// The error when no bootloader appeared in time.
pub open spec fn bootloader_timeout_text() -> Seq<char> {
    "Bootloader device did not appear after 1200-baud touch (10s timeout)"@
}

/// Decide after one scan: the first board in bootloader mode is taken;
/// with none, the scan is repeated until more than the timeout has passed
/// since the touch.
pub fn bootloader_poll(detected: Vec<XiaoPort>, elapsed_nanos: u128) -> (res: BootloaderPoll)
    ensures
        ports_in_mode(ports_view(detected@), XiaoMode::Bootloader).len() > 0 ==> (res matches BootloaderPoll::Found(p)
            && p@ == ports_in_mode(ports_view(detected@), XiaoMode::Bootloader)[0]),
        ports_in_mode(ports_view(detected@), XiaoMode::Bootloader).len() == 0
            && elapsed_nanos > BOOTLOADER_SCAN_TIMEOUT_NANOS ==> (res matches BootloaderPoll::TimedOut(e)
            && e matches SensorError::UploadFailed(m) && m@ == bootloader_timeout_text()),
        ports_in_mode(ports_view(detected@), XiaoMode::Bootloader).len() == 0
            && elapsed_nanos <= BOOTLOADER_SCAN_TIMEOUT_NANOS ==> res == BootloaderPoll::WaitMs(
            BOOTLOADER_SCAN_INTERVAL_MS,
        ),
{
    match XiaoDetector::find_bootloader(detected) {
        Some(p) => BootloaderPoll::Found(p.port),
        None => {
            if elapsed_nanos > BOOTLOADER_SCAN_TIMEOUT_NANOS {
                let m = "Bootloader device did not appear after 1200-baud touch (10s timeout)".to_owned();
                proof {
                    reveal_strlit("Bootloader device did not appear after 1200-baud touch (10s timeout)");
                }
                BootloaderPoll::TimedOut(SensorError::UploadFailed(m))
            } else {
                BootloaderPoll::WaitMs(BOOTLOADER_SCAN_INTERVAL_MS)
            }
        },
    }
}

/// State of the frame reader: whether the opening delimiter was seen, and
/// the frame bytes read since.
pub struct FrameState {
    pub in_frame: bool,
    pub raw: Seq<u8>,
}

/// The idle state: waiting for an opening delimiter.
pub open spec fn idle() -> FrameState {
    FrameState { in_frame: false, raw: Seq::empty() }
}

/// One byte read: bytes before the opening delimiter are skipped; the
/// closing delimiter completes the frame, which is SLIP-decoded, and the
/// reader waits for the next opening delimiter.
pub open spec fn frame_step(st: FrameState, b: u8) -> (FrameState, Option<Seq<u8>>) {
    if !st.in_frame {
        if b == SLIP_END {
            (FrameState { in_frame: true, raw: Seq::empty() }, None)
        } else {
            (st, None)
        }
    } else if b == SLIP_END {
        (idle(), Some(slip_decode_spec(st.raw)))
    } else {
        (FrameState { in_frame: true, raw: st.raw.push(b) }, None)
    }
}

/// The state after reading `bytes`, and the frames completed on the way.
pub open spec fn frame_feed(st: FrameState, bytes: Seq<u8>) -> (FrameState, Seq<Seq<u8>>)
    decreases bytes.len(),
{
    if bytes.len() == 0 {
        (st, Seq::empty())
    } else {
        let (mid, outs) = frame_feed(st, bytes.drop_last());
        let (end, out) = frame_step(mid, bytes.last());
        (
            end,
            match out {
                Some(f) => outs.push(f),
                None => outs,
            },
        )
    }
}

/// Collects one SLIP frame at a time from a byte stream.
pub struct SlipFrameReader {
    in_frame: bool,
    raw: Vec<u8>,
}

impl View for SlipFrameReader {
    type V = FrameState;

    closed spec fn view(&self) -> FrameState {
        FrameState { in_frame: self.in_frame, raw: self.raw@ }
    }
}

impl SlipFrameReader {
    pub fn new() -> (r: Self)
        ensures
            r@ == idle(),
    {
        let r = SlipFrameReader { in_frame: false, raw: Vec::new() };
        assert(r@.raw =~= Seq::<u8>::empty());
        r
    }

    /// Take one byte; a completed frame is returned decoded.
    pub fn push(&mut self, b: u8) -> (res: Option<Vec<u8>>)
        ensures
            (final(self)@, match res {
                Some(f) => Some(f@),
                None => None,
            }) == frame_step(old(self)@, b),
    {
        if !self.in_frame {
            if b == SLIP_END {
                self.in_frame = true;
                self.raw = Vec::new();
                assert(self@.raw =~= Seq::<u8>::empty());
            }
            None
        } else if b == SLIP_END {
            let frame = slip_decode(self.raw.as_slice());
            self.in_frame = false;
            self.raw = Vec::new();
            assert(self@ =~= idle());
            Some(frame)
        } else {
            self.raw.push(b);
            None
        }
    }
}

proof fn lemma_feed_append(st: FrameState, a: Seq<u8>, b: Seq<u8>)
    ensures
        frame_feed(st, a + b).0 == frame_feed(frame_feed(st, a).0, b).0,
        frame_feed(st, a + b).1 == frame_feed(st, a).1 + frame_feed(frame_feed(st, a).0, b).1,
    decreases b.len(),
{
    if b.len() == 0 {
        assert(a + b =~= a);
    } else {
        assert((a + b).drop_last() =~= a + b.drop_last());
        lemma_feed_append(st, a, b.drop_last());
        let (mid, outs) = frame_feed(frame_feed(st, a).0, b.drop_last());
        assert(frame_feed(st, a).1 + outs.push(slip_decode_spec(mid.raw)) =~= (frame_feed(st, a).1
            + outs).push(slip_decode_spec(mid.raw)));
    }
}

proof fn lemma_feed_one(st: FrameState, b: u8)
    ensures
        frame_feed(st, seq![b]).0 == frame_step(st, b).0,
        frame_feed(st, seq![b]).1 == match frame_step(st, b).1 {
            Some(f) => seq![f],
            None => Seq::<Seq<u8>>::empty(),
        },
{
    let one = seq![b];
    assert(one.drop_last() =~= Seq::<u8>::empty());
    assert(one.last() == b);
    assert(frame_feed(st, one.drop_last()) == (st, Seq::<Seq<u8>>::empty()));
    match frame_step(st, b).1 {
        Some(f) => {
            assert(Seq::<Seq<u8>>::empty().push(f) =~= seq![f]);
        },
        None => {},
    }
}

proof fn lemma_skip_junk(junk: Seq<u8>)
    requires
        !junk.contains(SLIP_END),
    ensures
        frame_feed(idle(), junk) == (idle(), Seq::<Seq<u8>>::empty()),
    decreases junk.len(),
{
    if junk.len() > 0 {
        assert(junk.drop_last().contains(SLIP_END) ==> junk.contains(SLIP_END)) by {
            if junk.drop_last().contains(SLIP_END) {
                let i = choose|i: int| 0 <= i < junk.drop_last().len() && junk.drop_last()[i] == SLIP_END;
                assert(junk[i] == SLIP_END);
            }
        }
        lemma_skip_junk(junk.drop_last());
        assert(junk[junk.len() - 1] != SLIP_END);
    }
}

proof fn lemma_collect_body(body: Seq<u8>)
    requires
        !body.contains(SLIP_END),
    ensures
        frame_feed(FrameState { in_frame: true, raw: Seq::empty() }, body) == (
            FrameState { in_frame: true, raw: body },
            Seq::<Seq<u8>>::empty(),
        ),
    decreases body.len(),
{
    if body.len() > 0 {
        assert(body.drop_last().contains(SLIP_END) ==> body.contains(SLIP_END)) by {
            if body.drop_last().contains(SLIP_END) {
                let i = choose|i: int| 0 <= i < body.drop_last().len() && body.drop_last()[i] == SLIP_END;
                assert(body[i] == SLIP_END);
            }
        }
        lemma_collect_body(body.drop_last());
        assert(body[body.len() - 1] != SLIP_END);
        assert(body.drop_last().push(body.last()) =~= body);
    } else {
        assert(body =~= Seq::<u8>::empty());
    }
}

/// A reply `junk, END, body, END` (no delimiter inside `junk` or `body`)
/// read from the idle state yields exactly one frame, the decoded body, and
/// leaves the reader idle.
pub proof fn lemma_reply_frame(junk: Seq<u8>, body: Seq<u8>)
    requires
        !junk.contains(SLIP_END),
        !body.contains(SLIP_END),
    ensures
        frame_feed(idle(), junk + seq![SLIP_END] + body + seq![SLIP_END]) == (
            idle(),
            seq![slip_decode_spec(body)],
        ),
{
    lemma_skip_junk(junk);
    lemma_feed_one(idle(), SLIP_END);
    lemma_feed_append(idle(), junk, seq![SLIP_END]);
    lemma_collect_body(body);
    lemma_feed_append(idle(), junk + seq![SLIP_END], body);
    let collected = FrameState { in_frame: true, raw: body };
    lemma_feed_one(collected, SLIP_END);
    lemma_feed_append(idle(), junk + seq![SLIP_END] + body, seq![SLIP_END]);
    assert(Seq::<Seq<u8>>::empty() + Seq::<Seq<u8>>::empty() + seq![slip_decode_spec(body)]
        =~= seq![slip_decode_spec(body)]);
}

/// Any junk without a delimiter and then an HCI packet, read from the
/// idle state, yield exactly one frame: the packet's header, payload and
/// CRC as they were before SLIP encoding; the reader is idle again.
pub proof fn law_packet_reads_back(junk: Seq<u8>, seq: u8, payload: Seq<u8>)
    requires
        !junk.contains(SLIP_END),
    ensures
        frame_feed(idle(), junk + hci_packet_spec(seq, payload)) == (
            idle(),
            seq![hci_body(seq, payload)],
        ),
{
    let body = slip_encode_spec(hci_body(seq, payload));
    lemma_slip_encode_has_no_end(hci_body(seq, payload));
    lemma_reply_frame(junk, body);
    lemma_slip_roundtrip(hci_body(seq, payload));
    assert(junk + hci_packet_spec(seq, payload) =~= junk + seq![SLIP_END] + body + seq![SLIP_END]);
}

} // verus!
