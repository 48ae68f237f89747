//! The gripper's register protocol: frames, checksums and payload packing.
//!
//! A frame is `[0xEB, 0x90, device, len, cmd, addr_lo, addr_hi, payload.., checksum]`
//! where the checksum is the wrapping 8-bit sum of every byte after the two
//! sync bytes.
use vstd::prelude::*;
use vstd::arithmetic::div_mod::lemma_add_mod_noop;

verus! {

/// The sum of all bytes of `s`, as a natural number.
pub open spec fn byte_sum(s: Seq<u8>) -> nat
    decreases s.len(),
{
    if s.len() == 0 {
        0
    } else {
        byte_sum(s.drop_last()) + s.last() as nat
    }
}

/// The 8-bit wrapping sum of all bytes of `s`.
pub open spec fn checksum_of(s: Seq<u8>) -> u8 {
    (byte_sum(s) % 256) as u8
}

/// Wrapping 8-bit sum of `bytes[from..]`.
pub fn checksum(bytes: &Vec<u8>, from: usize) -> (r: u8)
    requires
        from <= bytes@.len(),
    ensures
        r == checksum_of(bytes@.subrange(from as int, bytes@.len() as int)),
{
    let mut acc: u8 = 0;
    let mut i: usize = from;
    while i < bytes.len()
        invariant
            from <= i <= bytes@.len(),
            acc as nat == byte_sum(bytes@.subrange(from as int, i as int)) % 256,
        decreases bytes@.len() - i,
    {
        let b = bytes[i];
        proof {
            let s = bytes@.subrange(from as int, i as int + 1);
            assert(s.drop_last() =~= bytes@.subrange(from as int, i as int));
            assert(s.last() == b);
            lemma_add_mod_noop(byte_sum(s.drop_last()) as int, b as int, 256);
            assert((b as int) % 256 == b as int);
        }
        acc = acc.wrapping_add(b);
        i = i + 1;
    }
    acc
}


/// First sync byte of every frame.
pub const SYNC_0: u8 = 0xEB;

/// Second sync byte of every frame.
pub const SYNC_1: u8 = 0x90;

/// Command code of a register read request.
pub const CMD_READ: u8 = 0x11;

/// Command code of a register write.
pub const CMD_WRITE: u8 = 0x12;

/// The largest payload a write frame can carry: its length byte holds `payload + 3`.
pub const MAX_PAYLOAD: usize = 252;

/// Low byte of a little-endian 16-bit address.
pub open spec fn addr_lo(addr: u16) -> u8 {
    (addr % 256) as u8
}

/// High byte of a little-endian 16-bit address.
pub open spec fn addr_hi(addr: u16) -> u8 {
    (addr / 256) as u8
}

/// The bytes of a frame that the checksum covers: everything after the sync pair.
pub open spec fn frame_body(id: u8, len: u8, cmd: u8, addr: u16, payload: Seq<u8>) -> Seq<u8> {
    seq![id, len, cmd, addr_lo(addr), addr_hi(addr)] + payload
}

/// A complete frame: sync pair, body, checksum of the body.
pub open spec fn frame_of(id: u8, len: u8, cmd: u8, addr: u16, payload: Seq<u8>) -> Seq<u8> {
    let body = frame_body(id, len, cmd, addr, payload);
    seq![SYNC_0, SYNC_1] + body + seq![checksum_of(body)]
}

/// The frame that writes `payload` to the register at `addr` of device `id`.
pub open spec fn write_frame(id: u8, addr: u16, payload: Seq<u8>) -> Seq<u8> {
    frame_of(id, (payload.len() + 3) as u8, CMD_WRITE, addr, payload)
}

/// The frame that asks device `id` for `count` bytes from the register at `addr`.
pub open spec fn read_frame(id: u8, addr: u16, count: u8) -> Seq<u8> {
    frame_of(id, 4, CMD_READ, addr, seq![count])
}

/// Builds a frame from its fields, with the checksum appended.
fn encode_frame(id: u8, len: u8, cmd: u8, addr: u16, payload: &Vec<u8>) -> (r: Vec<u8>)
    requires
        payload@.len() <= MAX_PAYLOAD,
    ensures
        r@ == frame_of(id, len, cmd, addr, payload@),
{
    let mut bytes: Vec<u8> = Vec::new();
    bytes.push(SYNC_0);
    bytes.push(SYNC_1);
    bytes.push(id);
    bytes.push(len);
    bytes.push(cmd);
    bytes.push((addr % 256) as u8);
    bytes.push((addr / 256) as u8);
    let mut i: usize = 0;
    while i < payload.len()
        invariant
            i <= payload@.len() <= MAX_PAYLOAD,
            bytes@ == seq![SYNC_0, SYNC_1] + frame_body(id, len, cmd, addr, payload@.subrange(0, i as int)),
        decreases payload@.len() - i,
    {
        bytes.push(payload[i]);
        i = i + 1;
        proof {
            assert(payload@.subrange(0, i as int) =~= payload@.subrange(0, i - 1) + seq![payload@[i - 1]]);
        }
        assert(bytes@ =~= seq![SYNC_0, SYNC_1] + frame_body(id, len, cmd, addr, payload@.subrange(0, i as int)));
    }
    let ghost body = frame_body(id, len, cmd, addr, payload@);
    assert(payload@.subrange(0, i as int) =~= payload@);
    assert(bytes@.subrange(2, bytes@.len() as int) =~= body);
    let c = checksum(&bytes, 2);
    bytes.push(c);
    assert(bytes@ =~= frame_of(id, len, cmd, addr, payload@));
    bytes
}

/// Encodes the frame that writes `payload` to register `addr` of device `id`.
pub fn write_register_frame(id: u8, addr: u16, payload: &Vec<u8>) -> (r: Vec<u8>)
    requires
        payload@.len() <= MAX_PAYLOAD,
    ensures
        r@ == write_frame(id, addr, payload@),
{
    let len = (payload.len() + 3) as u8;
    encode_frame(id, len, CMD_WRITE, addr, payload)
}

/// Encodes the frame that asks device `id` for `count` bytes from register `addr`.
pub fn read_register_frame(id: u8, addr: u16, count: u8) -> (r: Vec<u8>)
    ensures
        r@ == read_frame(id, addr, count),
{
    let mut payload: Vec<u8> = Vec::new();
    payload.push(count);
    assert(payload@ =~= seq![count]);
    encode_frame(id, 4, CMD_READ, addr, &payload)
}


/// The last byte of every frame is the checksum of the bytes between the sync
/// pair and itself.
pub proof fn lemma_frame_checksum(id: u8, len: u8, cmd: u8, addr: u16, payload: Seq<u8>)
    ensures
        ({
            let f = frame_of(id, len, cmd, addr, payload);
            &&& f.len() == payload.len() + 8
            &&& f[0] == SYNC_0
            &&& f[1] == SYNC_1
            &&& f.last() == checksum_of(f.subrange(2, f.len() - 1))
        }),
{
    let f = frame_of(id, len, cmd, addr, payload);
    assert(f.subrange(2, f.len() - 1) =~= frame_body(id, len, cmd, addr, payload));
}

/// Every write frame, whatever the device, address and payload, ends with the
/// wrapping sum of all bytes after the sync pair.
pub proof fn lemma_write_frame_checksum(id: u8, addr: u16, payload: Seq<u8>)
    ensures
        ({
            let f = write_frame(id, addr, payload);
            f.last() == checksum_of(f.subrange(2, f.len() - 1))
        }),
{
    lemma_frame_checksum(id, (payload.len() + 3) as u8, CMD_WRITE, addr, payload);
}

/// Every read request, whatever the device, address and count, ends with the
/// wrapping sum of all bytes after the sync pair.
pub proof fn lemma_read_frame_checksum(id: u8, addr: u16, count: u8)
    ensures
        ({
            let f = read_frame(id, addr, count);
            f.last() == checksum_of(f.subrange(2, f.len() - 1))
        }),
{
    lemma_frame_checksum(id, 4, CMD_READ, addr, seq![count]);
}

/// Why a frame could not be built or understood.
#[derive(Debug, Clone, Copy, PartialEq, Eq, Structural)]
pub enum FrameError {
    /// The register name is not in the register dictionary.
    UnknownRegister,
    /// The device answered with fewer bytes than were asked for.
    NoData,
    /// The answer's length byte does not fit the bytes that arrived.
    Malformed,
}

/// The payload that a response carries, as its length byte declares it:
/// `len - 3` bytes from offset 7. An empty response carries an empty payload.
pub open spec fn response_payload(resp: Seq<u8>) -> Option<Seq<u8>> {
    if resp.len() == 0 {
        Some(Seq::empty())
    } else if resp.len() < 4 || resp[3] < 3 || resp.len() < resp[3] + 4 {
        None
    } else {
        Some(resp.subrange(7, resp[3] + 4))
    }
}

/// Extracts the payload of a response to a read request.
pub fn parse_read_response(resp: &Vec<u8>) -> (r: Result<Vec<u8>, FrameError>)
    ensures
        match response_payload(resp@) {
            Some(p) => r is Ok && r->Ok_0@ == p,
            None => r == Err::<Vec<u8>, FrameError>(FrameError::Malformed),
        },
{
    if resp.len() == 0 {
        return Ok(Vec::new());
    }
    if resp.len() < 4 || resp[3] < 3 || resp.len() < resp[3] as usize + 4 {
        return Err(FrameError::Malformed);
    }
    let end = resp[3] as usize + 4;
    let mut values: Vec<u8> = Vec::new();
    let mut i: usize = 7;
    while i < end
        invariant
            7 <= i <= end <= resp@.len(),
            values@ == resp@.subrange(7, i as int),
        decreases end - i,
    {
        values.push(resp[i]);
        i = i + 1;
        assert(values@ =~= resp@.subrange(7, i as int));
    }
    Ok(values)
}

/// Low byte of the 16-bit two's-complement form of `v`.
pub open spec fn low_byte(v: i32) -> u8 {
    (v & 0xff) as u8
}

/// High byte of the 16-bit two's-complement form of `v`.
pub open spec fn high_byte(v: i32) -> u8 {
    ((v >> 8) & 0xff) as u8
}

/// The signed 16-bit value whose little-endian bytes are `lo`, `hi`.
pub open spec fn le_i16(lo: u8, hi: u8) -> i32 {
    ((((hi as u16) << 8u16) | (lo as u16)) as i16) as i32
}

/// Six values as twelve bytes, each value little-endian in 16 bits.
pub open spec fn pack6(vals: Seq<i32>) -> Seq<u8> {
    Seq::new(12, |k: int| if k % 2 == 0 { low_byte(vals[k / 2]) } else { high_byte(vals[k / 2]) })
}

/// The six signed 16-bit little-endian values at the start of `bytes`.
pub open spec fn unpack6(bytes: Seq<u8>) -> Seq<i32> {
    Seq::new(6, |i: int| le_i16(bytes[2 * i], bytes[2 * i + 1]))
}

/// Packs six values into the twelve payload bytes of a six-value register.
pub fn pack_6(values: &[i32; 6]) -> (r: Vec<u8>)
    ensures
        r@ == pack6(values@),
{
    let mut out: Vec<u8> = Vec::new();
    let mut i: usize = 0;
    while i < 6
        invariant
            i <= 6,
            out@.len() == 2 * i,
            forall|k: int| 0 <= k < 2 * i ==> #[trigger] out@[k] == pack6(values@)[k],
        decreases 6 - i,
    {
        let v = values[i];
        out.push((v & 0xff) as u8);
        out.push(((v >> 8) & 0xff) as u8);
        i = i + 1;
    }
    assert(out@ =~= pack6(values@));
    out
}

/// Reads six signed 16-bit little-endian values from a register payload.
pub fn unpack_6(payload: &Vec<u8>) -> (r: Result<[i32; 6], FrameError>)
    ensures
        payload@.len() < 12 ==> r == Err::<[i32; 6], FrameError>(FrameError::NoData),
        payload@.len() >= 12 ==> r is Ok && r->Ok_0@ == unpack6(payload@),
{
    if payload.len() < 12 {
        return Err(FrameError::NoData);
    }
    let mut out: [i32; 6] = [0, 0, 0, 0, 0, 0];
    let mut i: usize = 0;
    while i < 6
        invariant
            i <= 6,
            payload@.len() >= 12,
            forall|k: int| 0 <= k < i ==> #[trigger] out@[k] == unpack6(payload@)[k],
        decreases 6 - i,
    {
        let lo = payload[2 * i];
        let hi = payload[2 * i + 1];
        let v = ((((hi as u16) << 8u16) | (lo as u16)) as i16) as i32;
        out[i] = v;
        i = i + 1;
    }
    assert(out@ =~= unpack6(payload@));
    Ok(out)
}


/// Splitting a signed 16-bit value into its two little-endian bytes and
/// joining them again gives the value back.
pub proof fn lemma_le_i16_round_trip(v: i32)
    requires
        -32768 <= v <= 32767,
    ensures
        le_i16(low_byte(v), high_byte(v)) == v,
{
    assert(((((((v >> 8) & 0xff) as u8) as u16) << 8u16 | ((((v & 0xff) as u8) as u16))) as i16) as i32 == v)
        by (bit_vector)
        requires
            -32768 <= v <= 32767,
    ;
}

/// Whether every value of `vals` fits in a signed 16-bit field.
pub open spec fn fits_i16(vals: Seq<i32>) -> bool {
    forall|i: int| 0 <= i < vals.len() ==> -32768 <= #[trigger] vals[i] <= 32767
}

/// A write frame carrying six 16-bit values, read back with the response
/// parser and unpacked, yields the six values.
pub proof fn lemma_write6_round_trip(id: u8, addr: u16, vals: Seq<i32>)
    requires
        vals.len() == 6,
        fits_i16(vals),
    ensures
        response_payload(write_frame(id, addr, pack6(vals))) == Some(pack6(vals)),
        unpack6(pack6(vals)) == vals,
{
    let p = pack6(vals);
    let f = write_frame(id, addr, p);
    assert(f[3] == 15);
    assert(f.subrange(7, 19) =~= p);
    assert forall|i: int| 0 <= i < 6 implies #[trigger] unpack6(p)[i] == vals[i] by {
        assert(p[2 * i] == low_byte(vals[i]));
        assert(p[2 * i + 1] == high_byte(vals[i]));
        lemma_le_i16_round_trip(vals[i]);
    }
    assert(unpack6(p) =~= vals);
}

} // verus!
