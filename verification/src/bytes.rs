use vstd::prelude::*;

verus! {

/// The four bytes of `v`, least significant first, as gzip stores its
/// trailer words.
pub open spec fn le32(v: u32) -> Seq<u8> {
    seq![
        (v & 0xff) as u8,
        ((v >> 8) & 0xff) as u8,
        ((v >> 16) & 0xff) as u8,
        ((v >> 24) & 0xff) as u8,
    ]
}

/// The value four little-endian bytes stand for.
pub open spec fn le32_val(s: Seq<u8>) -> u32
    recommends
        s.len() == 4,
{
    (s[0] as u32) | (s[1] as u32) << 8 | (s[2] as u32) << 16 | (s[3] as u32) << 24
}

/// Reading back the four bytes of a word yields the word.
pub proof fn lemma_le32_roundtrip(v: u32)
    ensures
        le32_val(le32(v)) == v,
{
    assert({
        &&& v & 0xff < 256
        &&& (v >> 8) & 0xff < 256
        &&& (v >> 16) & 0xff < 256
        &&& (v >> 24) & 0xff < 256
    }) by (bit_vector);
    assert(v == ((v & 0xff) | ((v >> 8) & 0xff) << 8 | ((v >> 16) & 0xff) << 16 | ((v >> 24)
        & 0xff) << 24)) by (bit_vector);
}

/// Appends the four little-endian bytes of `v` to `out`.
pub fn push_le32(out: &mut Vec<u8>, v: u32)
    ensures
        final(out)@ == old(out)@ + le32(v),
{
    out.push((v & 0xff) as u8);
    out.push(((v >> 8) & 0xff) as u8);
    out.push(((v >> 16) & 0xff) as u8);
    out.push(((v >> 24) & 0xff) as u8);
    assert(out@ =~= old(out)@ + le32(v));
}

/// Reads the little-endian word stored at `s[i .. i + 4]`.
pub fn read_le32(s: &[u8], i: usize) -> (r: u32)
    requires
        i + 4 <= s@.len(),
    ensures
        r == le32_val(s@.subrange(i as int, i + 4)),
{
    let n: usize = s.len();
    assert(i + 4 <= n);
    let b0 = *vstd::slice::slice_index_get(s, i);
    let b1 = *vstd::slice::slice_index_get(s, i + 1);
    let b2 = *vstd::slice::slice_index_get(s, i + 2);
    let b3 = *vstd::slice::slice_index_get(s, i + 3);
    let r = (b0 as u32) | (b1 as u32) << 8 | (b2 as u32) << 16 | (b3 as u32) << 24;
    proof {
        let t = s@.subrange(i as int, i + 4);
        assert(t[0] == b0 && t[1] == b1 && t[2] == b2 && t[3] == b3);
    }
    r
}

} // verus!
