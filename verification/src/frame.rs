//! Frames: a four-byte little-endian length followed by that many bytes.

use vstd::prelude::*;

verus! {

/// Number of bytes of the length prefix.
pub const MSG_SIZE_BYTES: usize = 4;

/// The length prefix of a body of `len` bytes: the low 32 bits of `len`,
/// least significant byte first.
pub open spec fn header_bytes(len: nat) -> Seq<u8> {
    seq![
        (len % 0x100) as u8,
        (len / 0x100 % 0x100) as u8,
        (len / 0x1_0000 % 0x100) as u8,
        (len / 0x100_0000 % 0x100) as u8,
    ]
}

/// The number that a length prefix stands for.
pub open spec fn header_value(header: Seq<u8>) -> nat
    recommends
        header.len() == 4,
{
    (header[0] as nat) + 0x100 * (header[1] as nat) + 0x1_0000 * (header[2] as nat) + 0x100_0000
        * (header[3] as nat)
}

/// A body with its length prefix in front.
pub open spec fn framed(body: Seq<u8>) -> Seq<u8> {
    header_bytes(body.len()) + body
}

/// What `encode_bytes_to_buf` leaves in a buffer that held `before`: the
/// prefix is appended, then everything from the fifth byte on is replaced
/// by the body.
pub open spec fn framed_into(before: Seq<u8>, body: Seq<u8>) -> Seq<u8> {
    (before + header_bytes(body.len())).take(MSG_SIZE_BYTES as int) + body
}

proof fn lemma_header_of_u64(n: u64)
    ensures
        header_bytes(n as nat) == seq![
            (n & 0xff) as u8,
            ((n >> 8) & 0xff) as u8,
            ((n >> 16) & 0xff) as u8,
            ((n >> 24) & 0xff) as u8,
        ],
{
    assert(n & 0xff == n % 0x100) by (bit_vector);
    assert((n >> 8) & 0xff == n / 0x100 % 0x100) by (bit_vector);
    assert((n >> 16) & 0xff == n / 0x1_0000 % 0x100) by (bit_vector);
    assert((n >> 24) & 0xff == n / 0x100_0000 % 0x100) by (bit_vector);
}

/// Writes the frame of `bytes` into `buf`.
///
/// The four prefix bytes are pushed onto `buf`, and the body then takes the
/// place of whatever stands after the first four bytes of the buffer. On an
/// empty buffer this leaves exactly the frame.
pub fn encode_bytes_to_buf(bytes: Vec<u8>, buf: &mut Vec<u8>)
    ensures
        final(buf)@ == framed_into(old(buf)@, bytes@),
        old(buf)@.len() == 0 ==> final(buf)@ == framed(bytes@),
{
    let mut bytes = bytes;
    let msg_size: u64 = bytes.len() as u64;
    buf.push((msg_size & 0xff) as u8);
    buf.push(((msg_size >> 8) & 0xff) as u8);
    buf.push(((msg_size >> 16) & 0xff) as u8);
    buf.push(((msg_size >> 24) & 0xff) as u8);
    proof {
        lemma_header_of_u64(msg_size);
        assert(buf@ =~= old(buf)@ + header_bytes(bytes@.len()));
    }
    buf.truncate(MSG_SIZE_BYTES);
    buf.append(&mut bytes);
}

/// The frame of `bytes`: its length as four little-endian bytes, then the
/// bytes themselves.
pub fn encode_bytes(bytes: Vec<u8>) -> (frame: Vec<u8>)
    ensures
        frame@ == framed(bytes@),
{
    let mut buf: Vec<u8> = Vec::new();
    encode_bytes_to_buf(bytes, &mut buf);
    buf
}

/// Reads a length prefix: the first four bytes of `data`, least significant
/// first.
pub fn decode_header(data: &[u8]) -> (len: u32)
    requires
        data@.len() >= MSG_SIZE_BYTES,
    ensures
        len as nat == header_value(data@.take(MSG_SIZE_BYTES as int)),
{
    let b0: u32 = data[0] as u32;
    let b1: u32 = data[1] as u32;
    let b2: u32 = data[2] as u32;
    let b3: u32 = data[3] as u32;
    assert(b0 | (b1 << 8) | (b2 << 16) | (b3 << 24) == b0 + 0x100 * b1 + 0x1_0000 * b2
        + 0x100_0000 * b3) by (bit_vector)
        requires
            b0 < 256,
            b1 < 256,
            b2 < 256,
            b3 < 256,
    ;
    b0 | (b1 << 8) | (b2 << 16) | (b3 << 24)
}

/// Behind the prefix of a frame stands its body.
pub proof fn lemma_framed_body(body: Seq<u8>)
    ensures
        framed(body).len() == MSG_SIZE_BYTES + body.len(),
        framed(body).take(MSG_SIZE_BYTES as int) == header_bytes(body.len()),
        framed(body).skip(MSG_SIZE_BYTES as int) == body,
{
    assert(framed(body).take(MSG_SIZE_BYTES as int) =~= header_bytes(body.len()));
    assert(framed(body).skip(MSG_SIZE_BYTES as int) =~= body);
}

/// Reading back the prefix of a frame gives the length of its body, as long
/// as that length fits in 32 bits.
pub proof fn lemma_header_round_trip(body: Seq<u8>)
    requires
        body.len() <= u32::MAX,
    ensures
        header_value(framed(body).take(MSG_SIZE_BYTES as int)) == body.len(),
{
    let n = body.len();
    lemma_framed_body(body);
    assert(n == n % 0x100 + 0x100 * (n / 0x100 % 0x100) + 0x1_0000 * (n / 0x1_0000 % 0x100)
        + 0x100_0000 * (n / 0x100_0000 % 0x100)) by (nonlinear_arith)
        requires
            n <= 0xffff_ffff,
    ;
}

} // verus!
