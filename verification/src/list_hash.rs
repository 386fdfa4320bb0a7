use byteorder::{ByteOrder, LittleEndian};
use vstd::bytes::spec_u64_to_le_bytes;
use vstd::prelude::*;

verus! {

/// Tag byte that starts the hashed form of a list.
pub const LIST_TAG: u8 = 0x3;

/// Size of a hash digest.
pub const HASH_SIZE: usize = 32;

/// Size of the buffer that the array form hashes.
pub const TEST_HASH_SIZE: usize = 1000;

/// Padding that fills the array form up to `TEST_HASH_SIZE` bytes.
pub const HASH_PAD: usize = TEST_HASH_SIZE - HASH_SIZE - 9;

/// `byteorder::LittleEndian::write_u64`: writes `n` into the first eight
/// bytes of `buf`, low byte first, and leaves the other bytes alone. The
/// crate panics when `buf` is shorter than eight bytes.
#[verifier::external_body]
fn write_u64_le(buf: &mut [u8], n: u64)
    requires
        old(buf)@.len() >= 8,
    ensures
        final(buf)@ == spec_u64_to_le_bytes(n) + old(buf)@.subrange(8, old(buf)@.len() as int),
{
    LittleEndian::write_u64(buf, n)
}

/// The bytes whose hash is the hash of a list of `len` elements whose
/// root hash is `root`, followed by `padding`.
pub open spec fn list_hash_preimage(len: u64, root: Seq<u8>, padding: Seq<u8>) -> Seq<u8> {
    seq![LIST_TAG] + spec_u64_to_le_bytes(len) + root + padding
}

/// The eight bytes of `n`, low byte first.
fn u64_le_bytes(n: u64) -> (bytes: Vec<u8>)
    ensures
        bytes@ == spec_u64_to_le_bytes(n),
{
    let mut bytes: Vec<u8> = vec![0u8; 8];
    write_u64_le(bytes.as_mut_slice(), n);
    proof {
        vstd::bytes::lemma_auto_spec_u64_to_from_le_bytes();
    }
    assert(bytes@ =~= spec_u64_to_le_bytes(n));
    bytes
}

/// Copies `src` into `dst` at offset `at`.
fn copy_into(dst: &mut Vec<u8>, at: usize, src: &[u8])
    requires
        at + src@.len() <= old(dst)@.len(),
    ensures
        final(dst)@ == old(dst)@.subrange(0, at as int) + src@ + old(dst)@.subrange(
            at + src@.len(),
            old(dst)@.len() as int,
        ),
{
    let ghost orig = dst@;
    let n = dst.len();
    let mut i: usize = 0;
    while i < src.len()
        invariant
            at + src@.len() <= orig.len(),
            orig.len() == n,
            i <= src@.len(),
            dst@.len() == orig.len(),
            forall|k: int| 0 <= k < at ==> dst@[k] == orig[k],
            forall|k: int| 0 <= k < i ==> dst@[at + k] == src@[k],
            forall|k: int| at + i <= k < orig.len() ==> dst@[k] == orig[k],
        decreases src@.len() - i,
    {
        dst[at + i] = src[i];
        i = i + 1;
    }
    assert(dst@ =~= orig.subrange(0, at as int) + src@ + orig.subrange(
        at + src@.len(),
        orig.len() as int,
    ));
}

/// The buffer that the array form of the list hash hashes: a
/// `TEST_HASH_SIZE`-byte buffer that holds the tag, the length, the root
/// hash and the padding, one after the other.
pub fn list_hash_array_bytes(len: u64, root: &[u8], padding: &[u8]) -> (bytes: Vec<u8>)
    requires
        root@.len() == HASH_SIZE,
        padding@.len() == HASH_PAD,
    ensures
        bytes@ == list_hash_preimage(len, root@, padding@),
        bytes@.len() == TEST_HASH_SIZE,
{
    proof {
        vstd::bytes::lemma_auto_spec_u64_to_from_le_bytes();
    }
    let mut hash_bytes: Vec<u8> = vec![0u8; TEST_HASH_SIZE];
    hash_bytes[0] = LIST_TAG;
    let len_bytes = u64_le_bytes(len);
    copy_into(&mut hash_bytes, 1, len_bytes.as_slice());
    copy_into(&mut hash_bytes, 9, root);
    copy_into(&mut hash_bytes, 9 + HASH_SIZE, padding);
    assert(hash_bytes@ =~= list_hash_preimage(len, root@, padding@));
    hash_bytes
}

/// The chunks that the stream form of the list hash feeds to the hasher,
/// in order: the tag, the length, the root hash and the padding.
pub fn list_hash_stream_chunks(len: u64, root: &[u8], padding: &[u8]) -> (chunks: Vec<Vec<u8>>)
    ensures
        chunks@.len() == 4,
        chunks@[0]@ == seq![LIST_TAG],
        chunks@[1]@ == spec_u64_to_le_bytes(len),
        chunks@[2]@ == root@,
        chunks@[3]@ == padding@,
{
    let mut chunks: Vec<Vec<u8>> = Vec::new();
    let tag = vec![LIST_TAG];
    chunks.push(tag);
    chunks.push(u64_le_bytes(len));
    chunks.push(vstd::slice::slice_to_vec(root));
    chunks.push(vstd::slice::slice_to_vec(padding));
    chunks
}

/// The bytes that a hasher fed with `chunks`, one after the other, has seen.
pub open spec fn fed_bytes(chunks: Seq<Vec<u8>>) -> Seq<u8> {
    chunks.map_values(|c: Vec<u8>| c@).flatten()
}

/// Both forms of the list hash hash the same bytes whenever the padding
/// fills the array form exactly: the stream form then feeds the hasher the
/// array form's buffer.
pub proof fn lemma_stream_and_array_agree(
    len: u64,
    root: Seq<u8>,
    padding: Seq<u8>,
    chunks: Seq<Vec<u8>>,
)
    requires
        chunks.len() == 4,
        chunks[0]@ == seq![LIST_TAG],
        chunks[1]@ == spec_u64_to_le_bytes(len),
        chunks[2]@ == root,
        chunks[3]@ == padding,
    ensures
        fed_bytes(chunks) == list_hash_preimage(len, root, padding),
{
    let views = chunks.map_values(|c: Vec<u8>| c@);
    assert(views =~= seq![chunks[0]@, chunks[1]@, chunks[2]@, chunks[3]@]);
    assert(views.drop_last().drop_last().drop_last().drop_last() =~= Seq::<Seq<u8>>::empty());
    views.lemma_flatten_and_flatten_alt_are_equivalent();
    assert(views.flatten_alt() =~= list_hash_preimage(len, root, padding)) by {
        reveal_with_fuel(Seq::flatten_alt, 5);
        assert(views.drop_last() =~= seq![chunks[0]@, chunks[1]@, chunks[2]@]);
        assert(views.drop_last().drop_last() =~= seq![chunks[0]@, chunks[1]@]);
        assert(views.drop_last().drop_last().drop_last() =~= seq![chunks[0]@]);
    }
}

/// Layout of the hashed bytes: the tag byte, then the eight bytes of the
/// length low byte first, then the root hash, then the padding.
pub proof fn lemma_list_hash_preimage_layout(len: u64, root: Seq<u8>, padding: Seq<u8>)
    ensures
        ({
            let p = list_hash_preimage(len, root, padding);
            &&& p.len() == 9 + root.len() + padding.len()
            &&& p[0] == LIST_TAG
            &&& p.subrange(1, 9) == spec_u64_to_le_bytes(len)
            &&& p.subrange(9, 9 + root.len() as int) == root
            &&& p.subrange(9 + root.len() as int, p.len() as int) == padding
        }),
{
    vstd::bytes::lemma_auto_spec_u64_to_from_le_bytes();
    let p = list_hash_preimage(len, root, padding);
    assert(spec_u64_to_le_bytes(len).len() == 8);
    assert(p.subrange(1, 9) =~= spec_u64_to_le_bytes(len));
    assert(p.subrange(9, 9 + root.len() as int) =~= root);
    assert(p.subrange(9 + root.len() as int, p.len() as int) =~= padding);
}

} // verus!
