use vstd::prelude::*;

use crate::crc::{crc16_modbus, crc16_modbus_spec, lemma_crc16_modbus_check};

verus! {

/// Report ID byte plus the 32-byte HID report, as the device's report descriptor gives it.
pub const REPORT_SIZE: usize = 33;

/// Bytes of firmware carried by one data chunk.
pub const CHUNK_LEN: usize = 16;

/// HID report ID of every outgoing report.
pub const REPORT_ID: u8 = 0x05;

/// Fixed host-to-device framing bytes at offsets 5..9 of every report.
pub const MAGIC: [u8; 4] = [0x04, 0x52, 0x28, 0x00];

/// Opcode of the firmware-version query.
pub const OPCODE_VERSION: u16 = 0xFF00;

/// Opcode that starts an update (resets the device's OTA state).
pub const OPCODE_START: u16 = 0xFF01;

/// Opcode that finishes an update.
pub const OPCODE_FINISH: u16 = 0xFF02;

/// Offset of the payload inside a report.
pub const HEADER_LEN: usize = 9;

/// Little-endian bytes of a 16-bit value.
pub open spec fn le16(x: u16) -> Seq<u8> {
    seq![(x % 256) as u8, (x / 256) as u8]
}

/// The 16-bit value whose little-endian bytes are `lo`, `hi`.
pub open spec fn le16_value(lo: u8, hi: u8) -> int {
    lo as int + 256 * hi as int
}

/// The nine header bytes of a report whose payload has `len` bytes.
pub open spec fn report_header(len: nat) -> Seq<u8> {
    seq![
        REPORT_ID,
        (len + 9) as u8,
        0x01u8,
        (len + 7) as u8,
        (len + 3) as u8,
        0x04u8,
        0x52u8,
        0x28u8,
        0x00u8,
    ]
}

/// A full report: header, payload, then zero bytes up to `REPORT_SIZE`.
pub open spec fn report_of(payload: Seq<u8>) -> Seq<u8> {
    report_header(payload.len()) + payload + Seq::new(
        (REPORT_SIZE - HEADER_LEN - payload.len()) as nat,
        |i: int| 0u8,
    )
}

/// The 16-bit chunk address of a byte offset: `offset >> 4`, truncated to 16 bits.
pub open spec fn chunk_address(offset: u32) -> u16 {
    ((offset as int / 16) % 65536) as u16
}

/// Address field and firmware bytes of a data chunk: the window the CRC covers.
pub open spec fn chunk_window(offset: u32, data: Seq<u8>) -> Seq<u8> {
    le16(chunk_address(offset)) + data
}

/// Payload of a data chunk: the window, then its CRC-16/MODBUS, little-endian.
pub open spec fn chunk_payload(offset: u32, data: Seq<u8>) -> Seq<u8> {
    chunk_window(offset, data) + le16(crc16_modbus_spec(chunk_window(offset, data)))
}

/// Payload of the finish command: the last chunk's address, then its bitwise complement.
pub open spec fn finish_payload(last_chunk_offset: u32) -> Seq<u8> {
    let a = le16(chunk_address(last_chunk_offset));
    le16(OPCODE_FINISH) + a + seq![(255 - a[0]) as u8, (255 - a[1]) as u8]
}

/// Whether a chunk-write response acknowledges the chunk at `offset`: status byte 2 is 1
/// and bytes 9, 10 carry the next expected chunk index, one past the address just sent.
pub open spec fn ack_accepts(resp: Seq<u8>, offset: u32) -> bool {
    resp[2] == 1 && le16_value(resp[9], resp[10]) == chunk_address(offset) + 1
}

fn build_report(payload: &[u8]) -> (r: [u8; REPORT_SIZE])
    requires
        payload.len() + HEADER_LEN <= REPORT_SIZE,
    ensures
        r@ == report_of(payload@),
{
    let len = payload.len();
    let mut r = [0u8; REPORT_SIZE];
    r[0] = REPORT_ID;
    r[1] = (len + 9) as u8;
    r[2] = 0x01;
    r[3] = (len + 7) as u8;
    r[4] = (len + 3) as u8;
    r[5] = MAGIC[0];
    r[6] = MAGIC[1];
    r[7] = MAGIC[2];
    r[8] = MAGIC[3];
    let mut j: usize = 0;
    while j < len
        invariant
            len == payload.len(),
            len + HEADER_LEN <= REPORT_SIZE,
            j <= len,
            r@.len() == REPORT_SIZE,
            forall|k: int| 0 <= k < HEADER_LEN ==> r@[k] == report_header(len as nat)[k],
            forall|k: int| 0 <= k < j ==> r@[HEADER_LEN + k] == payload@[k],
            forall|k: int| HEADER_LEN + j <= k < REPORT_SIZE ==> r@[k] == 0,
        decreases len - j,
    {
        r[HEADER_LEN + j] = payload[j];
        j = j + 1;
    }
    assert(r@ =~= report_of(payload@));
    r
}

fn le16_bytes(x: u16) -> (b: (u8, u8))
    ensures
        seq![b.0, b.1] == le16(x),
{
    ((x % 256) as u8, (x / 256) as u8)
}

fn address_of(offset: u32) -> (a: u16)
    ensures
        a == chunk_address(offset),
{
    let a = (offset >> 4) as u16;
    assert((offset >> 4) as u16 == ((offset / 16) % 65536) as u16) by (bit_vector);
    a
}

/// Data chunk: 2-byte little-endian address (`offset >> 4`), the 16 firmware bytes,
/// and the CRC-16/MODBUS over those 18 bytes, little-endian, framed as a report.
pub fn chunk_packet(offset: u32, data: &[u8; CHUNK_LEN]) -> (r: [u8; REPORT_SIZE])
    ensures
        r@ == report_of(chunk_payload(offset, data@)),
{
    let addr = address_of(offset);
    let (lo, hi) = le16_bytes(addr);
    let mut payload: Vec<u8> = Vec::new();
    payload.push(lo);
    payload.push(hi);
    let mut j: usize = 0;
    while j < CHUNK_LEN
        invariant
            j <= CHUNK_LEN,
            payload@ == le16(addr) + data@.take(j as int),
        decreases CHUNK_LEN - j,
    {
        payload.push(data[j]);
        assert(data@.take(j + 1) =~= data@.take(j as int).push(data@[j as int]));
        j = j + 1;
    }
    assert(data@.take(CHUNK_LEN as int) =~= data@);
    let crc = crc16_modbus(payload.as_slice());
    let (clo, chi) = le16_bytes(crc);
    payload.push(clo);
    payload.push(chi);
    assert(payload@ =~= chunk_payload(offset, data@));
    build_report(payload.as_slice())
}

fn control_packet(opcode: u16, extra: &[u8]) -> (r: [u8; REPORT_SIZE])
    requires
        extra.len() + 2 + HEADER_LEN <= REPORT_SIZE,
    ensures
        r@ == report_of(le16(opcode) + extra@),
{
    let (lo, hi) = le16_bytes(opcode);
    let mut payload: Vec<u8> = Vec::new();
    payload.push(lo);
    payload.push(hi);
    let mut j: usize = 0;
    while j < extra.len()
        invariant
            j <= extra.len(),
            payload@ == le16(opcode) + extra@.take(j as int),
        decreases extra.len() - j,
    {
        payload.push(extra[j]);
        assert(extra@.take(j + 1) =~= extra@.take(j as int).push(extra@[j as int]));
        j = j + 1;
    }
    assert(extra@.take(extra.len() as int) =~= extra@);
    build_report(payload.as_slice())
}

/// The firmware-version query (opcode 0xFF00, no arguments).
pub fn version_packet() -> (r: [u8; REPORT_SIZE])
    ensures
        r@ == report_of(le16(OPCODE_VERSION)),
{
    let empty: [u8; 0] = [];
    let r = control_packet(OPCODE_VERSION, &empty);
    assert(le16(OPCODE_VERSION) + empty@ =~= le16(OPCODE_VERSION));
    r
}

/// The start command (opcode 0xFF01, no arguments).
pub fn start_packet() -> (r: [u8; REPORT_SIZE])
    ensures
        r@ == report_of(le16(OPCODE_START)),
{
    let empty: [u8; 0] = [];
    let r = control_packet(OPCODE_START, &empty);
    assert(le16(OPCODE_START) + empty@ =~= le16(OPCODE_START));
    r
}

/// The finish command (opcode 0xFF02): the last chunk's address, little-endian,
/// followed by the complement of each of its two bytes.
pub fn finish_packet(last_chunk_offset: u32) -> (r: [u8; REPORT_SIZE])
    ensures
        r@ == report_of(finish_payload(last_chunk_offset)),
{
    let addr = address_of(last_chunk_offset);
    let (lo, hi) = le16_bytes(addr);
    let nlo = !lo;
    let nhi = !hi;
    assert(!lo == 255 - lo) by (bit_vector);
    assert(!hi == 255 - hi) by (bit_vector);
    let extra: [u8; 4] = [lo, hi, nlo, nhi];
    let r = control_packet(OPCODE_FINISH, &extra);
    assert(le16(OPCODE_FINISH) + extra@ =~= finish_payload(last_chunk_offset));
    r
}

/// Whether a chunk-write response reports success for the chunk at `offset`: byte 2 is
/// 0x01 and bytes 9, 10 hold, little-endian, the next expected chunk index.
pub fn chunk_ack_ok(resp: &[u8; REPORT_SIZE], offset: u32) -> (ok: bool)
    requires
        chunk_address(offset) < 0xFFFF,
    ensures
        ok == ack_accepts(resp@, offset),
{
    let next_expected: u16 = address_of(offset) + 1;
    let got: u16 = resp[9] as u16 + (resp[10] as u16) * 256;
    resp[2] == 0x01 && got == next_expected
}

/// Reading back the address field of any chunk report gives the chunk's address, and the
/// 18-byte window at offsets 9..27 is followed by its own CRC-16/MODBUS, little-endian: the
/// documented layout (header, magic, address, 16 data bytes, CRC, zero padding).
pub proof fn lemma_chunk_report_layout(offset: u32, data: Seq<u8>)
    requires
        data.len() == CHUNK_LEN,
    ensures
        ({
            let r = report_of(chunk_payload(offset, data));
            &&& r.len() == REPORT_SIZE
            &&& r[0] == REPORT_ID
            &&& r[1] == 0x1D
            &&& r[2] == 0x01
            &&& r[3] == 0x1B
            &&& r[4] == 0x17
            &&& r.subrange(5, 9) == MAGIC@
            &&& le16_value(r[9], r[10]) == chunk_address(offset)
            &&& r.subrange(11, 27) == data
            &&& r.subrange(27, 29) == le16(crc16_modbus_spec(r.subrange(9, 27)))
            &&& forall|k: int| 29 <= k < REPORT_SIZE ==> r[k] == 0
        }),
{
    let r = report_of(chunk_payload(offset, data));
    let w = chunk_window(offset, data);
    assert(r.subrange(5, 9) =~= MAGIC@);
    assert(r.subrange(11, 27) =~= data);
    assert(r.subrange(9, 27) =~= w);
    assert(r.subrange(27, 29) =~= le16(crc16_modbus_spec(w)));
    lemma_le16_value(chunk_address(offset));
}

/// The documented framing of every report: byte 0 is the report ID 0x05, byte 1 is the
/// payload length plus 9, byte 2 is 0x01, byte 3 the length plus 7, byte 4 the length plus
/// 3, bytes 5..9 the magic `04 52 28 00`, then the payload, then zeros to 33 bytes.
pub proof fn lemma_report_layout(payload: Seq<u8>)
    requires
        payload.len() + HEADER_LEN <= REPORT_SIZE,
    ensures
        ({
            let r = report_of(payload);
            let n = payload.len() as int;
            &&& r.len() == 33
            &&& r[0] == 0x05
            &&& r[1] == n + 9
            &&& r[2] == 0x01
            &&& r[3] == n + 7
            &&& r[4] == n + 3
            &&& r[5] == 0x04 && r[6] == 0x52 && r[7] == 0x28 && r[8] == 0x00
            &&& r.subrange(9, 9 + n) == payload
            &&& forall|k: int| 9 + n <= k < 33 ==> #[trigger] r[k] == 0
        }),
{
    let r = report_of(payload);
    assert(r.subrange(9, 9 + payload.len() as int) =~= payload);
}

/// The 20-byte payload of every data chunk, checksummed with CRC-16/MODBUS as a whole
/// (window followed by its CRC), gives 0: the device's check over the window and the CRC
/// that follows it accepts every chunk this library builds.
pub proof fn lemma_chunk_payload_checks(offset: u32, data: Seq<u8>)
    ensures
        crc16_modbus_spec(chunk_payload(offset, data)) == 0,
{
    lemma_crc16_modbus_check(chunk_window(offset, data));
}

/// Decoding the little-endian bytes of `x` gives `x` back.
pub proof fn lemma_le16_value(x: u16)
    ensures
        le16(x).len() == 2,
        le16_value(le16(x)[0], le16(x)[1]) == x,
{
}

/// A control report carries its opcode, little-endian, in the address field (offsets 9, 10).
pub proof fn lemma_control_report_opcode(opcode: u16, extra: Seq<u8>)
    requires
        extra.len() + 2 + HEADER_LEN <= REPORT_SIZE,
    ensures
        ({
            let r = report_of(le16(opcode) + extra);
            &&& r.len() == REPORT_SIZE
            &&& le16_value(r[9], r[10]) == opcode
            &&& r.subrange(11, 11 + extra.len() as int) == extra
        }),
{
    let r = report_of(le16(opcode) + extra);
    assert(r.subrange(11, 11 + extra.len() as int) =~= extra);
    lemma_le16_value(opcode);
}

/// For every byte offset below 0xFF000 (so for any image up to 1020 KiB, 128 KiB images
/// included) the chunk address stays below 0xFF00, so no data chunk's address field can be
/// read as the version, start or finish opcode.
pub proof fn lemma_chunk_address_is_not_an_opcode(offset: u32)
    requires
        offset < 0xFF000,
    ensures
        chunk_address(offset) < OPCODE_VERSION,
        chunk_address(offset) != OPCODE_VERSION,
        chunk_address(offset) != OPCODE_START,
        chunk_address(offset) != OPCODE_FINISH,
{
}

/// The acknowledgement check in terms of the bytes themselves: a response is accepted
/// exactly when byte 2 is 1, byte 9 is the low byte and byte 10 the high byte of the chunk
/// index one past the chunk just sent.
pub proof fn lemma_ack_is_next_index_little_endian(resp: Seq<u8>, offset: u32)
    requires
        resp.len() == REPORT_SIZE,
        chunk_address(offset) < 0xFFFF,
    ensures
        ack_accepts(resp, offset) <==> {
            &&& resp[2] == 1
            &&& resp[9] == (chunk_address(offset) + 1) % 256
            &&& resp[10] == (chunk_address(offset) + 1) / 256
        },
{
}

/// The chunk address of a byte offset is the number of whole 16-byte chunks before it
/// (for offsets whose chunk number fits 16 bits).
pub proof fn lemma_chunk_address_counts_chunks(offset: u32)
    requires
        offset < 0x10_0000,
    ensures
        16 * chunk_address(offset) <= offset < 16 * chunk_address(offset) + 16,
{
}

/// The index a response must carry to acknowledge the chunk at `offset` is the address of
/// the following chunk, `offset + 16`.
pub proof fn lemma_ack_names_the_following_chunk(resp: Seq<u8>, offset: u32)
    requires
        resp.len() == REPORT_SIZE,
        offset < 0xF_FFF0,
    ensures
        ack_accepts(resp, offset) <==> (resp[2] == 1 && resp[9] as int + 256 * resp[10] as int
            == chunk_address((offset + 16) as u32)),
{
}

/// A response that merely echoes the address just sent is never taken for success.
pub proof fn lemma_ack_rejects_echo(resp: Seq<u8>, offset: u32)
    requires
        resp.len() == REPORT_SIZE,
        le16_value(resp[9], resp[10]) == chunk_address(offset),
    ensures
        !ack_accepts(resp, offset),
{
}

/// The finish payload carries the last chunk's address and, byte by byte, its complement.
pub proof fn lemma_finish_payload_complement(last_chunk_offset: u32)
    ensures
        ({
            let p = finish_payload(last_chunk_offset);
            &&& p.len() == 6
            &&& le16_value(p[0], p[1]) == OPCODE_FINISH
            &&& le16_value(p[2], p[3]) == chunk_address(last_chunk_offset)
            &&& p[2] + p[4] == 255
            &&& p[3] + p[5] == 255
        }),
{
    lemma_le16_value(chunk_address(last_chunk_offset));
    lemma_le16_value(OPCODE_FINISH);
}

} // verus!
