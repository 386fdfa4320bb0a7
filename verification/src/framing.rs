use byteorder::{ByteOrder, LittleEndian};
use vstd::prelude::*;

verus! {

/// `byteorder::LittleEndian::write_u16`: writes `n` into the first two bytes
/// of `buf`, low byte first, and leaves the other bytes alone. The crate
/// panics when `buf` is shorter than two bytes.
#[verifier::external_body]
fn write_u16_le(buf: &mut [u8], n: u16)
    requires
        old(buf)@.len() >= 2,
    ensures
        final(buf)@ == old(buf)@.update(0, (n % 256) as u8).update(1, (n / 256) as u8),
{
    LittleEndian::write_u16(buf, n)
}

/// The four-byte header that announces a body of `len` bytes: `len`,
/// truncated to 16 bits, little-endian, then two zero bytes.
pub open spec fn frame_header(len: nat) -> Seq<u8> {
    seq![(len % 256) as u8, ((len / 256) % 256) as u8, 0u8, 0u8]
}

/// The message that carries the first `len` bytes of `buf`: the header
/// that announces them, followed by the bytes.
pub fn frame_message(buf: &[u8], len: usize) -> (message: Vec<u8>)
    requires
        len <= buf@.len(),
    ensures
        message@ == frame_header(len as nat) + buf@.subrange(0, len as int),
{
    let mut message: Vec<u8> = vec![0u8; 4];
    assert(message@ =~= seq![0u8, 0u8, 0u8, 0u8]);
    let n: u16 = (len % 65536) as u16;
    write_u16_le(message.as_mut_slice(), n);
    assert(message@ =~= frame_header(len as nat)) by {
        assert((n % 256) as u8 == (len % 256) as u8) by (nonlinear_arith)
            requires
                n == len % 65536,
        ;
        assert((n / 256) as u8 == ((len / 256) % 256) as u8) by (nonlinear_arith)
            requires
                n == len % 65536,
        ;
    }
    let ghost header = message@;
    let body = vstd::slice::slice_subrange(buf, 0, len);
    message.extend_from_slice(body);
    assert(message@ =~= header + buf@.subrange(0, len as int));
    message
}

/// Length of the body that a received header announces: the header's first
/// byte.
pub fn frame_body_len(header: &[u8]) -> (len: usize)
    requires
        header@.len() >= 1,
    ensures
        len == header@[0],
{
    header[0] as usize
}

/// A body shorter than 256 bytes comes back whole: the length that a
/// receiver reads from the header of a framed message is the length that
/// was framed, and the bytes after the header are the framed bytes.
pub proof fn lemma_frame_roundtrip(body: Seq<u8>)
    requires
        body.len() < 256,
    ensures
        ({
            let message = frame_header(body.len()) + body;
            &&& message[0] == body.len()
            &&& message.subrange(4, 4 + message[0]) == body
        }),
{
    let message = frame_header(body.len()) + body;
    assert(message.subrange(4, 4 + message[0]) =~= body);
}

/// Fills `dst` with the first `dst.len()` bytes of `data` and reports how
/// many bytes that is.
pub fn copy_prefix(data: &[u8], dst: &mut [u8]) -> (n: usize)
    requires
        old(dst)@.len() <= data@.len(),
    ensures
        n == old(dst)@.len(),
        final(dst)@ == data@.subrange(0, n as int),
{
    let n = dst.len();
    let mut i: usize = 0;
    while i < n
        invariant
            n == dst@.len(),
            n <= data@.len(),
            i <= n,
            forall|k: int| 0 <= k < i ==> dst@[k] == data@[k],
        decreases n - i,
    {
        dst[i] = data[i];
        i = i + 1;
    }
    assert(dst@ =~= data@.subrange(0, n as int));
    n
}

/// For every length, the header holds the length modulo 65536 in its first
/// two bytes, low byte first, and zeros in the other two.
pub proof fn lemma_frame_header_value(len: nat)
    ensures
        frame_header(len).len() == 4,
        frame_header(len)[0] + 256 * frame_header(len)[1] == len % 65536,
        frame_header(len)[2] == 0,
        frame_header(len)[3] == 0,
{
    let lo = len % 256;
    let hi = (len / 256) % 256;
    assert(lo + 256 * hi == len % 65536) by (nonlinear_arith)
        requires
            lo == len % 256,
            hi == (len / 256) % 256,
    {
        vstd::arithmetic::div_mod::lemma_breakdown(len as int, 256, 256);
    }
    assert(frame_header(len)[0] == lo);
    assert(frame_header(len)[1] == hi);
}

} // verus!
