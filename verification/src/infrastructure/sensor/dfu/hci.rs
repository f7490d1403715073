//! HCI packet framing for Nordic DFU serial transport.
//!
//! Each packet has a 4-byte header, a payload, and a 2-byte CRC16,
//! all SLIP-encoded and wrapped with 0xC0 delimiters.
use vstd::prelude::*;
use crate::infrastructure::sensor::dfu::crc16::{calc_crc16, crc16_spec};
use crate::infrastructure::sensor::dfu::slip::{slip_encode, slip_encode_spec, SLIP_END};

verus! {

/// Packet type carried in the header (reliable vendor-specific packet).
pub const HCI_PACKET_TYPE: u8 = 14;

/// First header byte: sequence number, acknowledgement number (the next
/// sequence number), data-integrity flag and reliable flag.
pub open spec fn hci_byte0(seq: u8) -> int {
    seq + 8 * ((seq + 1) % 8) + 64 + 128
}

/// Second header byte: packet type and the low four bits of the length.
pub open spec fn hci_byte1(len: nat) -> int {
    HCI_PACKET_TYPE + 16 * (len % 16)
}

/// Third header byte: bits 4 to 11 of the length.
pub open spec fn hci_byte2(len: nat) -> int {
    ((len % 4096) / 16) as int
}

/// Fourth header byte: the two's complement of the sum of the first three.
pub open spec fn hci_byte3(seq: u8, len: nat) -> int {
    (256 - (hci_byte0(seq) + hci_byte1(len) + hci_byte2(len)) % 256) % 256
}

/// The four header bytes for a packet with sequence number `seq` and a
/// payload of `len` bytes.
pub open spec fn hci_header(seq: u8, len: nat) -> Seq<u8> {
    seq![
        hci_byte0(seq) as u8,
        hci_byte1(len) as u8,
        hci_byte2(len) as u8,
        hci_byte3(seq, len) as u8,
    ]
}

/// A 16-bit value in little-endian byte order.
pub open spec fn u16_le(v: u16) -> Seq<u8> {
    seq![(v % 256) as u8, (v / 256) as u8]
}

/// Header and payload followed by the CRC16 of both, little-endian.
pub open spec fn hci_body(seq: u8, payload: Seq<u8>) -> Seq<u8> {
    let framed = hci_header(seq, payload.len()) + payload;
    framed + u16_le(crc16_spec(framed))
}

/// The wire form of a packet: the SLIP-encoded body between two delimiters.
pub open spec fn hci_packet_spec(seq: u8, payload: Seq<u8>) -> Seq<u8> {
    seq![SLIP_END] + slip_encode_spec(hci_body(seq, payload)) + seq![SLIP_END]
}

/// The sequence number that follows `seq`.
pub open spec fn next_seq(seq: u8) -> u8 {
    ((seq + 1) % 8) as u8
}

/// Sequence numbering for outgoing HCI packets (always below 8).
pub struct HciSequence {
    seq: u8,
}

impl HciSequence {
    #[verifier::type_invariant]
    spec fn inv(self) -> bool {
        self.seq < 8
    }

    /// The sequence number of the packet built last (0 before any).
    pub closed spec fn current(self) -> u8 {
        self.seq
    }

    pub fn new() -> (s: Self)
        ensures
            s.current() == 0,
    {
        HciSequence { seq: 0 }
    }

    /// The sequence number of the packet built last.
    pub fn seq(&self) -> (s: u8)
        ensures
            s == self.current(),
            s < 8,
    {
        proof {
            use_type_invariant(self);
        }
        self.seq
    }

    /// Build a complete wire-ready HCI packet with SLIP framing.
    ///
    /// The sequence number is advanced before building, so the first packet
    /// uses seq 1 and the numbers run 1..7, 0, 1, ...
    pub fn build_packet(&mut self, payload: &[u8]) -> (packet: Vec<u8>)
        ensures
            final(self).current() == next_seq(old(self).current()),
            packet@ == hci_packet_spec(final(self).current(), payload@),
    {
        proof {
            use_type_invariant(&*self);
        }
        self.seq = (self.seq + 1) % 8;
        let seq = self.seq;
        let len = payload.len();
        let byte0: u8 = seq + ((seq + 1) % 8) * 8 + 64 + 128;
        let byte1: u8 = HCI_PACKET_TYPE + ((len % 16) as u8) * 16;
        let byte2: u8 = ((len % 4096) / 16) as u8;
        let sum: u16 = (byte0 as u16 + byte1 as u16 + byte2 as u16) % 256;
        let byte3: u8 = ((256 - sum) % 256) as u8;
        let ghost header = hci_header(seq, payload@.len());

        let mut crc_data: Vec<u8> = Vec::new();
        crc_data.push(byte0);
        crc_data.push(byte1);
        crc_data.push(byte2);
        crc_data.push(byte3);
        let mut i: usize = 0;
        while i < payload.len()
            invariant
                i <= payload@.len(),
                crc_data@ == header + payload@.subrange(0, i as int),
            decreases payload@.len() - i,
        {
            crc_data.push(payload[i]);
            assert(payload@.subrange(0, i as int + 1) =~= payload@.subrange(0, i as int).push(
                payload@[i as int],
            ));
            assert(crc_data@ =~= header + payload@.subrange(0, i as int + 1));
            i = i + 1;
        }
        assert(payload@.subrange(0, payload@.len() as int) =~= payload@);
        let crc = calc_crc16(crc_data.as_slice());
        let mut raw = crc_data;
        raw.push((crc % 256) as u8);
        raw.push((crc / 256) as u8);
        assert(raw@ =~= hci_body(seq, payload@));

        let slip_body = slip_encode(raw.as_slice());
        let mut packet: Vec<u8> = Vec::new();
        packet.push(SLIP_END);
        let mut j: usize = 0;
        while j < slip_body.len()
            invariant
                j <= slip_body@.len(),
                packet@ == seq![SLIP_END] + slip_body@.subrange(0, j as int),
            decreases slip_body@.len() - j,
        {
            packet.push(slip_body[j]);
            assert(slip_body@.subrange(0, j as int + 1) =~= slip_body@.subrange(0, j as int).push(
                slip_body@[j as int],
            ));
            assert(packet@ =~= seq![SLIP_END] + slip_body@.subrange(0, j as int + 1));
            j = j + 1;
        }
        assert(slip_body@.subrange(0, slip_body@.len() as int) =~= slip_body@);
        packet.push(SLIP_END);
        assert(packet@ =~= hci_packet_spec(seq, payload@));
        packet
    }
}

/// The four header bytes sum to zero modulo 256.
pub proof fn lemma_header_checksum(seq: u8, len: nat)
    requires
        seq < 8,
    ensures
        (hci_header(seq, len)[0] + hci_header(seq, len)[1] + hci_header(seq, len)[2]
            + hci_header(seq, len)[3]) % 256 == 0,
{
    let h = hci_header(seq, len);
    assert(h[0] == hci_byte0(seq));
    assert(h[1] == hci_byte1(len));
    assert(h[2] == hci_byte2(len));
    assert(h[3] == hci_byte3(seq, len));
}

/// A packet starts and ends with the frame delimiter, and the delimiter
/// occurs nowhere in between.
pub proof fn lemma_packet_delimited(seq: u8, payload: Seq<u8>)
    ensures
        hci_packet_spec(seq, payload)[0] == SLIP_END,
        hci_packet_spec(seq, payload).last() == SLIP_END,
        forall|j: int|
            0 < j < hci_packet_spec(seq, payload).len() - 1 ==> hci_packet_spec(seq, payload)[j]
                != SLIP_END,
{
    let body = slip_encode_spec(hci_body(seq, payload));
    crate::infrastructure::sensor::dfu::slip::lemma_slip_encode_has_no_end(hci_body(seq, payload));
    let p = hci_packet_spec(seq, payload);
    assert forall|j: int| 0 < j < p.len() - 1 implies p[j] != SLIP_END by {
        assert(p[j] == body[j - 1]);
        assert(body.contains(body[j - 1]));
    }
}

/// The sequence number after `n` more packets.
pub open spec fn seq_after(seq: u8, n: nat) -> u8
    decreases n,
{
    if n == 0 {
        seq
    } else {
        next_seq(seq_after(seq, (n - 1) as nat))
    }
}

/// Sequence numbers stay below 8 and repeat every 8 packets.
pub proof fn law_sequence_wraps_at_8(seq: u8, n: nat)
    requires
        seq < 8,
    ensures
        seq_after(seq, n) < 8,
        seq_after(seq, n + 8) == seq_after(seq, n),
        seq_after(seq, n) == (seq + n) % 8,
{
    lemma_seq_after_mod(seq, n);
    lemma_seq_after_mod(seq, n + 8);
}

proof fn lemma_seq_after_mod(seq: u8, n: nat)
    requires
        seq < 8,
    ensures
        seq_after(seq, n) == (seq + n) % 8,
    decreases n,
{
    if n > 0 {
        lemma_seq_after_mod(seq, (n - 1) as nat);
    }
}

/// The receiver can read a packet's body back: the header carries the
/// sequence number in its low three bits, the packet type in the low four
/// bits of the second byte, and the payload length (modulo 4096) in the
/// high four bits of the second byte and the whole third byte; the payload
/// follows the header unchanged, and the body ends with the CRC of header
/// and payload, low byte first.
pub proof fn law_header_describes_payload(seq: u8, payload: Seq<u8>)
    requires
        seq < 8,
    ensures
        hci_body(seq, payload).len() == payload.len() + 6,
        hci_body(seq, payload)[0] % 8 == seq,
        hci_body(seq, payload)[1] % 16 == HCI_PACKET_TYPE,
        hci_body(seq, payload)[1] / 16 + 16 * hci_body(seq, payload)[2] == payload.len() % 4096,
        hci_body(seq, payload).subrange(4, payload.len() + 4int) == payload,
        hci_body(seq, payload)[payload.len() + 4int] + 256 * hci_body(seq, payload)[payload.len()
            + 5int] == crate::infrastructure::sensor::dfu::crc16::crc16_spec(
            hci_body(seq, payload).subrange(0, payload.len() + 4int),
        ),
{
    let body = hci_body(seq, payload);
    let len = payload.len();
    let h = hci_header(seq, len);
    assert(h[1] == hci_byte1(len));
    assert(h[2] == hci_byte2(len));
    assert(h[0] == hci_byte0(seq));
    assert(body[0] == h[0]);
    assert(body[1] == h[1]);
    assert(body[2] == h[2]);
    assert((len % 16) + 16 * ((len % 4096) / 16) == len % 4096) by (nonlinear_arith);
    assert(body.subrange(4, len + 4int) =~= payload);
    assert(body.subrange(0, len + 4int) =~= h + payload);
}

} // verus!
