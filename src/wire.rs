//! The packet codec: frames on the wire, and the packets they carry.
//!
//! A frame is laid out as
//! `[marker, len, incompat, compat, seq, sys, comp, id0, id1, id2, payload.., crc_lo, crc_hi, signature..]`,
//! where the signature (13 bytes) is present when bit 0 of `incompat` is set and the checksum
//! covers bytes `1 .. 10 + len` followed by the message id's CRC-extra byte.

use vstd::prelude::*;
use vstd::slice::{slice_subrange, slice_to_vec};
use mavlink::ardupilotmega::MavMessage;
use crate::dialect::{crc_extra, crc_extra_of, default_heartbeat, message_id, parse_payload, parses, serialize};
use crate::error::Error;

verus! {

/// Names the CRC-16/MCRF4XX checksum of a byte sequence.
pub uninterp spec fn mcrf4xx(data: Seq<u8>) -> u16;

/// Relies on `crc16::State::<MCRF4XX>::calculate`: the CRC-16/MCRF4XX of the bytes,
/// which depends on the bytes alone.
#[verifier::external_body]
fn checksum(data: &[u8]) -> (r: u16)
    ensures
        r == mcrf4xx(data@),
{
    crc16::State::<crc16::MCRF4XX>::calculate(data)
}

/// Start-of-frame marker.
pub const MAGIC: u8 = 0xFD;

/// Bit of the incompatibility flags that marks a signed frame.
pub const IFLAG_SIGNED: u8 = 0x01;

/// Number of bytes in a frame before its payload: marker and nine header bytes.
pub const HEADER_LEN: usize = 10;

/// Largest payload a frame can carry.
pub const MAX_PAYLOAD_LEN: usize = 255;

/// Message ids are 24-bit: every id is below this bound.
pub const MAX_MESSAGE_ID: u32 = 0x1000000;

/// Addressing and ordering data carried by every frame.
#[derive(Clone, Copy, Debug, PartialEq, Eq, Structural)]
pub struct Header {
    pub system_id: u8,
    pub component_id: u8,
    pub sequence: u8,
}

/// A dialect message as the codec sees it: its id and its serialized payload.
#[derive(Clone, Debug)]
pub struct RawMessage {
    pub id: u32,
    pub payload: Vec<u8>,
}

/// A header together with the message it carries.
#[derive(Clone, Debug)]
pub struct Packet {
    pub header: Header,
    pub message: RawMessage,
}

/// The mathematical content of a packet.
pub ghost struct PacketView {
    pub header: Header,
    pub id: u32,
    pub payload: Seq<u8>,
}

impl View for Packet {
    type V = PacketView;

    open spec fn view(&self) -> PacketView {
        PacketView { header: self.header, id: self.message.id, payload: self.message.payload@ }
    }
}

/// Size of a whole frame whose length byte is `len` and whose incompatibility flags are `flags`.
pub open spec fn frame_size(len: u8, flags: u8) -> int {
    12 + len + if flags % 2 == 1 { 13int } else { 0int }
}

/// Offset of the first marker byte in `buf`, or its length when there is none.
pub open spec fn sync_offset(buf: Seq<u8>) -> int
    decreases buf.len(),
{
    if buf.len() == 0 || buf[0] == MAGIC {
        0
    } else {
        1 + sync_offset(buf.drop_first())
    }
}

pub open spec fn le16(lo: u8, hi: u8) -> u16 {
    (lo + 256 * hi) as u16
}

pub open spec fn le24(b0: u8, b1: u8, b2: u8) -> u32 {
    (b0 + 256 * b1 + 65536 * b2) as u32
}

/// Message id of the frame that starts at the beginning of `f`.
pub open spec fn frame_id(f: Seq<u8>) -> u32 {
    le24(f[7], f[8], f[9])
}

/// Payload of the frame that starts at the beginning of `f`.
pub open spec fn frame_payload(f: Seq<u8>) -> Seq<u8> {
    f.subrange(10, 10 + f[1])
}

/// Checksum stored in the frame that starts at the beginning of `f`.
pub open spec fn frame_crc(f: Seq<u8>) -> u16 {
    le16(f[10 + f[1]], f[11 + f[1]])
}

/// The bytes the checksum of the frame at the beginning of `f` is computed over.
pub open spec fn checksum_input(f: Seq<u8>) -> Seq<u8> {
    f.subrange(1, 10 + f[1]).push(crc_extra_of(frame_id(f)))
}

/// The packet carried by the frame at the beginning of `f`.
pub open spec fn frame_packet(f: Seq<u8>) -> PacketView {
    PacketView {
        header: Header { system_id: f[5], component_id: f[6], sequence: f[4] },
        id: frame_id(f),
        payload: frame_payload(f),
    }
}

/// One decoding step on `buf`: how many bytes are taken off its front, and what is reported.
pub open spec fn decode_spec(buf: Seq<u8>) -> (int, Result<Option<PacketView>, Error>) {
    let skip = sync_offset(buf);
    let f = buf.subrange(skip, buf.len() as int);
    if f.len() < HEADER_LEN || f.len() < frame_size(f[1], f[2]) {
        (skip, Ok(None))
    } else {
        let end = skip + frame_size(f[1], f[2]);
        if mcrf4xx(checksum_input(f)) != frame_crc(f) {
            (end, Err(Error::InvalidCrc))
        } else if !parses(frame_id(f), frame_payload(f)) {
            (end, Err(Error::InvalidPayload))
        } else {
            (end, Ok(Some(frame_packet(f))))
        }
    }
}

pub open spec fn outcome_view(r: Result<Option<Packet>, Error>) -> Result<Option<PacketView>, Error> {
    match r {
        Ok(Some(p)) => Ok(Some(p@)),
        Ok(None) => Ok(None),
        Err(e) => Err(e),
    }
}

/// `p` without its trailing zero bytes, keeping at least one byte.
pub open spec fn trimmed(p: Seq<u8>) -> Seq<u8>
    decreases p.len(),
{
    if p.len() <= 1 || p.last() != 0 {
        p
    } else {
        trimmed(p.drop_last())
    }
}

/// Frame bytes from the length byte to the end of the payload.
pub open spec fn frame_body(h: Header, id: u32, payload: Seq<u8>) -> Seq<u8> {
    seq![
        payload.len() as u8,
        0u8,
        0u8,
        h.sequence,
        h.system_id,
        h.component_id,
        (id % 256) as u8,
        ((id / 256) % 256) as u8,
        ((id / 65536) % 256) as u8,
    ] + payload
}

/// The unsigned frame that carries `payload` as message `id` under header `h`.
pub open spec fn frame_bytes(h: Header, id: u32, payload: Seq<u8>) -> Seq<u8> {
    let body = frame_body(h, id, payload);
    let crc = mcrf4xx(body.push(crc_extra_of(id)));
    seq![MAGIC] + body + seq![(crc % 256) as u8, (crc / 256) as u8]
}

/// The frame the encoder writes for a packet.
pub open spec fn encode_spec(p: PacketView) -> Seq<u8> {
    frame_bytes(p.header, p.id, trimmed(p.payload))
}

proof fn lemma_sync_offset(buf: Seq<u8>, k: int)
    requires
        0 <= k <= buf.len(),
        forall|j: int| 0 <= j < k ==> buf[j] != MAGIC,
        k == buf.len() || buf[k] == MAGIC,
    ensures
        sync_offset(buf) == k,
    decreases k,
{
    if k > 0 {
        let rest = buf.drop_first();
        assert forall|j: int| 0 <= j < k - 1 implies rest[j] != MAGIC by {
            assert(rest[j] == buf[j + 1]);
        }
        if k < buf.len() {
            assert(rest[k - 1] == buf[k]);
        }
        lemma_sync_offset(rest, k - 1);
    }
}

proof fn lemma_sync_offset_bound(buf: Seq<u8>)
    ensures
        0 <= sync_offset(buf) <= buf.len(),
        sync_offset(buf) < buf.len() ==> buf[sync_offset(buf)] == MAGIC,
    decreases buf.len(),
{
    if buf.len() > 0 && buf[0] != MAGIC {
        lemma_sync_offset_bound(buf.drop_first());
        if sync_offset(buf) < buf.len() {
            assert(buf.drop_first()[sync_offset(buf.drop_first())] == buf[sync_offset(buf)]);
        }
    }
}

/// Both flag bytes of the frame at the beginning of `f` are zero.
pub open spec fn frame_flags_clear(f: Seq<u8>) -> bool {
    f.len() >= 4 && f[2] == 0 && f[3] == 0
}

proof fn lemma_trimmed_len(p: Seq<u8>)
    ensures
        trimmed(p).len() <= p.len(),
        p.len() >= 1 ==> trimmed(p).len() >= 1,
        trimmed(p) == p.subrange(0, trimmed(p).len() as int),
    decreases p.len(),
{
    if p.len() <= 1 || p.last() != 0 {
        assert(p == p.subrange(0, p.len() as int));
    } else {
        lemma_trimmed_len(p.drop_last());
        assert(trimmed(p) == p.subrange(0, trimmed(p).len() as int));
    }
}

fn frame_size_of(len: u8, flags: u8) -> (r: usize)
    ensures
        r == frame_size(len, flags),
{
    let signed: bool = (flags & IFLAG_SIGNED) == IFLAG_SIGNED;
    assert((flags & 1u8) == 1u8 <==> flags % 2 == 1) by (bit_vector);
    12 + len as usize + if signed { 13 } else { 0 }
}

/// Length of `p` once its trailing zero bytes are dropped, keeping at least one byte.
fn trimmed_len(p: &[u8]) -> (n: usize)
    ensures
        n <= p@.len(),
        trimmed(p@) == p@.subrange(0, n as int),
{
    let mut n: usize = p.len();
    assert(p@.subrange(0, n as int) == p@);
    while n > 1 && p[n - 1] == 0
        invariant
            n <= p@.len(),
            trimmed(p@) == trimmed(p@.subrange(0, n as int)),
        decreases n,
    {
        assert(p@.subrange(0, n as int).drop_last() == p@.subrange(0, n - 1));
        n = n - 1;
    }
    n
}

/// Looks for one frame at the front of `buf`; returns how many bytes to drop and what was found.
fn decode_front(buf: &[u8]) -> (r: (usize, Result<Option<Packet>, Error>))
    ensures
        r.0 <= buf@.len(),
        (r.0 as int, outcome_view(r.1)) == decode_spec(buf@),
{
    let len = buf.len();
    let mut skip: usize = 0;
    while skip < len && buf[skip] != MAGIC
        invariant
            skip <= len,
            len == buf@.len(),
            forall|j: int| 0 <= j < skip ==> buf@[j] != MAGIC,
        decreases len - skip,
    {
        skip = skip + 1;
    }
    proof {
        lemma_sync_offset(buf@, skip as int);
    }
    let f = slice_subrange(buf, skip, len);
    if f.len() < HEADER_LEN {
        return (skip, Ok(None));
    }
    let size = frame_size_of(f[1], f[2]);
    if f.len() < size {
        return (skip, Ok(None));
    }
    let l = f[1] as usize;
    let id: u32 = f[7] as u32 + 256 * (f[8] as u32) + 65536 * (f[9] as u32);
    let mut input = slice_to_vec(slice_subrange(f, 1, HEADER_LEN + l));
    input.push(crc_extra(id));
    assert(input@ == checksum_input(f@));
    let crc = checksum(input.as_slice());
    let stored: u16 = f[HEADER_LEN + l] as u16 + 256 * (f[HEADER_LEN + l + 1] as u16);
    let end = skip + size;
    if crc != stored {
        return (end, Err(Error::InvalidCrc));
    }
    let payload = slice_subrange(f, HEADER_LEN, HEADER_LEN + l);
    match parse_payload(id, payload) {
        Err(_) => (end, Err(Error::InvalidPayload)),
        Ok(_) => {
            let header = Header { system_id: f[5], component_id: f[6], sequence: f[4] };
            let message = RawMessage { id, payload: slice_to_vec(payload) };
            (end, Ok(Some(Packet { header, message })))
        },
    }
}

/// The packets that decoding steps over `buf` report, one step after another, until a
/// step finds no whole frame; frames with a bad checksum or payload are passed over.
pub open spec fn packets_in(buf: Seq<u8>) -> Seq<PacketView>
    decreases buf.len(),
{
    let step = decode_spec(buf);
    if step.1 == Ok::<Option<PacketView>, Error>(None) || step.0 <= 0 || step.0 > buf.len() {
        Seq::empty()
    } else {
        let rest = packets_in(buf.subrange(step.0, buf.len() as int));
        match step.1 {
            Ok(Some(p)) => seq![p] + rest,
            _ => rest,
        }
    }
}

pub open spec fn views(packets: Seq<Packet>) -> Seq<PacketView> {
    packets.map_values(|p: Packet| p@)
}

/// Encoder and decoder between packets and frames.
pub struct PacketCodec;

impl PacketCodec {
    /// Takes at most one frame off the front of `src`.
    ///
    /// Bytes before the first marker are dropped. With no whole frame in the buffer yet,
    /// nothing more is taken and `Ok(None)` comes back. Otherwise the whole frame is taken,
    /// and the result is its packet, or `InvalidCrc` / `InvalidPayload`.
    pub fn decode(&mut self, src: &mut Vec<u8>) -> (r: Result<Option<Packet>, Error>)
        ensures
            outcome_view(r) == decode_spec(old(src)@).1,
            final(src)@ == old(src)@.subrange(decode_spec(old(src)@).0, old(src)@.len() as int),
    {
        let (consumed, outcome) = decode_front(src.as_slice());
        let rest = src.split_off(consumed);
        *src = rest;
        outcome
    }

    /// Every packet in one datagram, in order; bad frames are passed over.
    pub fn decode_all(&mut self, datagram: &[u8]) -> (r: Vec<Packet>)
        ensures
            views(r@) == packets_in(datagram@),
    {
        let mut buf = slice_to_vec(datagram);
        let mut found: Vec<Packet> = Vec::new();
        assert(views(found@) + packets_in(buf@) == packets_in(datagram@));
        loop
            invariant
                views(found@) + packets_in(buf@) == packets_in(datagram@),
            decreases buf@.len(),
        {
            let ghost before = buf@;
            let (consumed, outcome) = decode_front(buf.as_slice());
            let stop = match &outcome {
                Ok(None) => true,
                _ => consumed == 0,
            };
            if stop {
                assert(packets_in(before) == Seq::<PacketView>::empty());
                assert(views(found@) == packets_in(datagram@));
                return found;
            }
            let rest = buf.split_off(consumed);
            let ghost old_found = found@;
            match outcome {
                Ok(Some(p)) => {
                    found.push(p);
                    assert(views(found@) == views(old_found).push(p@));
                    assert(packets_in(before) == seq![p@] + packets_in(rest@));
                    assert(views(found@) + packets_in(rest@) == views(old_found) + packets_in(before));
                },
                _ => {
                    assert(packets_in(before) == packets_in(rest@));
                },
            }
            buf = rest;
        }
    }

    /// Appends the frame of `packet` to `dst`, its payload stripped of trailing zero bytes.
    pub fn encode(&mut self, packet: Packet, dst: &mut Vec<u8>)
        requires
            packet.message.payload@.len() <= MAX_PAYLOAD_LEN,
            packet.message.id < MAX_MESSAGE_ID,
        ensures
            final(dst)@ == old(dst)@ + encode_spec(packet@),
    {
        let mut frame = frame_of(&packet);
        dst.append(&mut frame);
    }
}

/// The frame of `packet`.
pub fn frame_of(packet: &Packet) -> (r: Vec<u8>)
    requires
        packet.message.payload@.len() <= MAX_PAYLOAD_LEN,
        packet.message.id < MAX_MESSAGE_ID,
    ensures
        r@ == encode_spec(packet@),
{
    let full = packet.message.payload.as_slice();
    let n = trimmed_len(full);
    let payload = slice_subrange(full, 0, n);
    let id = packet.message.id;
    let h = packet.header;
    let mut frame: Vec<u8> = Vec::new();
    frame.push(MAGIC);
    frame.push(n as u8);
    frame.push(0u8);
    frame.push(0u8);
    frame.push(h.sequence);
    frame.push(h.system_id);
    frame.push(h.component_id);
    frame.push((id % 256) as u8);
    frame.push(((id / 256) % 256) as u8);
    frame.push(((id / 65536) % 256) as u8);
    let mut tail = slice_to_vec(payload);
    frame.append(&mut tail);
    let ghost body = frame_body(h, id, payload@);
    assert(frame@ == seq![MAGIC] + body);
    frame.push(crc_extra(id));
    let crc = checksum(slice_subrange(frame.as_slice(), 1, frame.len()));
    assert(frame@.subrange(1, frame@.len() as int) == body.push(crc_extra_of(id)));
    frame.pop();
    frame.push((crc % 256) as u8);
    frame.push((crc / 256) as u8);
    assert(frame@ == frame_bytes(h, id, payload@));
    frame
}

impl Default for Packet {
    /// A default HEARTBEAT from system 255, component 0, with sequence number 0.
    fn default() -> (r: Packet)
        ensures
            r.header == (Header { system_id: 255, component_id: 0, sequence: 0 }),
            r.message.payload@.len() <= MAX_PAYLOAD_LEN,
            r.message.id < MAX_MESSAGE_ID,
    {
        let header = Header { system_id: 255, component_id: 0, sequence: 0 };
        Packet { header, message: RawMessage::from_message(&default_heartbeat()) }
    }
}

impl RawMessage {
    /// The id and serialized payload of a dialect message; the payload carries no
    /// trailing zero bytes, so the encoder sends it unchanged.
    pub fn from_message(message: &MavMessage) -> (r: RawMessage)
        ensures
            r.payload@.len() <= MAX_PAYLOAD_LEN,
            trimmed(r.payload@) == r.payload@,
            r.id < MAX_MESSAGE_ID,
    {
        RawMessage { id: message_id(message), payload: serialize(message) }
    }

    /// Parses the payload as the dialect message with this id.
    pub fn parse(&self) -> (r: Result<MavMessage, Error>)
        ensures
            r.is_ok() == parses(self.id, self.payload@),
            r.is_err() ==> r == Err::<MavMessage, Error>(Error::InvalidPayload),
    {
        match parse_payload(self.id, self.payload.as_slice()) {
            Ok(m) => Ok(m),
            Err(_) => Err(Error::InvalidPayload),
        }
    }
}

proof fn lemma_id_bytes(id: u32)
    requires
        id < 0x1000000,
    ensures
        le24((id % 256) as u8, ((id / 256) % 256) as u8, ((id / 65536) % 256) as u8) == id,
{
    assert(((id % 256) + 256 * ((id / 256) % 256) + 65536 * ((id / 65536) % 256)) == id) by (nonlinear_arith)
        requires id < 0x1000000;
}

proof fn lemma_le24_bytes(b0: u8, b1: u8, b2: u8)
    ensures
        (le24(b0, b1, b2) % 256) as u8 == b0,
        ((le24(b0, b1, b2) / 256) % 256) as u8 == b1,
        ((le24(b0, b1, b2) / 65536) % 256) as u8 == b2,
{
    let v = b0 + 256 * b1 + 65536 * b2;
    assert(v % 256 == b0 && (v / 256) % 256 == b1 && (v / 65536) % 256 == b2) by (nonlinear_arith)
        requires v == b0 + 256 * b1 + 65536 * b2, b0 < 256, b1 < 256, b2 < 256;
}

proof fn lemma_crc_bytes(crc: u16)
    ensures
        le16((crc % 256) as u8, (crc / 256) as u8) == crc,
{
}

/// Round trip: decoding the frame that the encoder writes for a packet gives back that
/// packet, its payload stripped of trailing zero bytes, and takes the whole frame.
pub proof fn lemma_round_trip(p: PacketView)
    requires
        p.payload.len() <= MAX_PAYLOAD_LEN,
        p.id < MAX_MESSAGE_ID,
        parses(p.id, trimmed(p.payload)),
    ensures
        decode_spec(encode_spec(p)) == (
            encode_spec(p).len() as int,
            Ok::<Option<PacketView>, Error>(Some(PacketView { header: p.header, id: p.id, payload: trimmed(p.payload) })),
        ),
{
    let t = trimmed(p.payload);
    lemma_trimmed_len(p.payload);
    let f = encode_spec(p);
    let body = frame_body(p.header, p.id, t);
    let crc = mcrf4xx(body.push(crc_extra_of(p.id)));
    assert(f == seq![MAGIC] + body + seq![(crc % 256) as u8, (crc / 256) as u8]);
    assert(f.len() == 12 + t.len());
    lemma_sync_offset(f, 0);
    assert(f.subrange(0, f.len() as int) == f);
    assert(f[1] == t.len() as u8);
    assert(f[2] == 0);
    lemma_id_bytes(p.id);
    assert(frame_id(f) == p.id);
    assert(frame_payload(f) == t);
    assert(f.subrange(1, 10 + f[1]) == body);
    assert(checksum_input(f) == body.push(crc_extra_of(p.id)));
    lemma_crc_bytes(crc);
    assert(f[10 + f[1]] == (crc % 256) as u8);
    assert(f[11 + f[1]] == (crc / 256) as u8);
    assert(frame_crc(f) == crc);
    assert(frame_packet(f) == PacketView { header: p.header, id: p.id, payload: t });
}

/// Re-encoding a decoded packet reproduces the frame it came from, checksum included,
/// when that frame carries no flags and no trailing zero bytes in its payload.
pub proof fn lemma_reencode(buf: Seq<u8>)
    requires
        decode_spec(buf).1 is Ok,
        decode_spec(buf).1->Ok_0 is Some,
        frame_flags_clear(buf.subrange(sync_offset(buf), buf.len() as int)),
        trimmed(frame_payload(buf.subrange(sync_offset(buf), buf.len() as int)))
            == frame_payload(buf.subrange(sync_offset(buf), buf.len() as int)),
    ensures
        encode_spec(decode_spec(buf).1->Ok_0->Some_0) == buf.subrange(sync_offset(buf), decode_spec(buf).0),
        frame_crc(encode_spec(decode_spec(buf).1->Ok_0->Some_0)) == frame_crc(buf.subrange(sync_offset(buf), buf.len() as int)),
{
    let skip = sync_offset(buf);
    lemma_sync_offset_bound(buf);
    let g = buf.subrange(skip, buf.len() as int);
    let p = decode_spec(buf).1->Ok_0->Some_0;
    let f = buf.subrange(skip, decode_spec(buf).0);
    assert(g[2] == 0);
    let l = g[1];
    assert(f.len() == 12 + l);
    assert(p == frame_packet(g));
    let body = frame_body(p.header, p.id, p.payload);
    lemma_le24_bytes(g[7], g[8], g[9]);
    assert(body == g.subrange(1, 10 + l));
    assert(checksum_input(g) == body.push(crc_extra_of(p.id)));
    let crc = mcrf4xx(body.push(crc_extra_of(p.id)));
    assert(crc == frame_crc(g));
    assert((crc % 256) as u8 == g[10 + l] && (crc / 256) as u8 == g[11 + l]);
    let e = encode_spec(p);
    assert(e == seq![MAGIC] + body + seq![(crc % 256) as u8, (crc / 256) as u8]);
    assert(g[0] == MAGIC);
    assert(f == g.subrange(0, 12 + l));
    assert forall|i: int| 0 <= i < f.len() implies e[i] == f[i] by {
        if i == 0 {
        } else if i < 10 + l {
            assert(e[i] == body[i - 1]);
        } else {
        }
    }
    assert(e =~= f);
    assert(f[1] == g[1] && f[10 + l] == g[10 + l] && f[11 + l] == g[11 + l]);
}

/// A well-formed frame whose checksum matches and whose payload the dialect parses.
pub open spec fn valid_frame(f: Seq<u8>) -> bool {
    &&& f.len() >= HEADER_LEN
    &&& f[0] == MAGIC
    &&& f.len() == frame_size(f[1], f[2])
    &&& mcrf4xx(checksum_input(f)) == frame_crc(f)
    &&& parses(frame_id(f), frame_payload(f))
}

/// Feeding a valid frame to the decoder one byte at a time, with one decoding step per byte,
/// reports nothing and takes nothing until the last byte, and then reports the frame's packet
/// and takes the whole buffer.
pub proof fn lemma_bytewise_stream(f: Seq<u8>)
    requires
        valid_frame(f),
    ensures
        forall|k: int| 0 <= k < f.len() ==> #[trigger] decode_spec(f.subrange(0, k)) == (0int, Ok::<Option<PacketView>, Error>(None)),
        decode_spec(f) == (f.len() as int, Ok::<Option<PacketView>, Error>(Some(frame_packet(f)))),
{
    assert forall|k: int| 0 <= k < f.len() implies #[trigger] decode_spec(f.subrange(0, k)) == (0int, Ok::<Option<PacketView>, Error>(None)) by {
        let b = f.subrange(0, k);
        lemma_sync_offset(b, 0);
        assert(b.subrange(0, b.len() as int) == b);
        if k >= HEADER_LEN {
            assert(b[1] == f[1] && b[2] == f[2]);
        }
    }
    lemma_sync_offset(f, 0);
    assert(f.subrange(0, f.len() as int) == f);
}

} // verus!
