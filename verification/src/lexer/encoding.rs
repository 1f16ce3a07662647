//! Facts about UTF-8 that connect positions counted in characters with
//! offsets counted in bytes, so that text can be sliced without copying.
use vstd::prelude::*;
use vstd::string::StringSliceAdditionalSpecFns;
use vstd::utf8::*;

verus! {

/// The number of bytes that the first `k` characters of `text` occupy.
pub open spec fn byte_offset(text: Seq<char>, k: int) -> nat {
    encode_utf8(text.take(k)).len()
}

/// The number of bytes in the encoding of `c`.
pub open spec fn width_of(c: char) -> nat {
    encode_scalar(c as u32).len()
}

/// The encoded width of a character, between one and four bytes.
pub fn utf8_width(c: char) -> (w: usize)
    ensures
        w == width_of(c),
        1 <= w <= 4,
{
    let v: u32 = c as u32;
    if v < 0x80 {
        1
    } else if v < 0x800 {
        2
    } else if v < 0x10000 {
        3
    } else {
        4
    }
}

/// Encoding distributes over concatenation.
pub proof fn lemma_encode_concat(a: Seq<char>, b: Seq<char>)
    ensures
        encode_utf8(a + b) =~= encode_utf8(a) + encode_utf8(b),
    decreases a.len(),
{
    if a.len() > 0 {
        assert((a + b).drop_first() =~= a.drop_first() + b);
        lemma_encode_concat(a.drop_first(), b);
    }
}

/// The encoding of a single character is the encoding of its scalar value.
pub proof fn lemma_encode_single(c: char)
    ensures
        encode_utf8(seq![c]) =~= encode_scalar(c as u32),
        1 <= width_of(c) <= 4,
{
    reveal_with_fuel(encode_utf8, 2);
}

/// Two texts with the same encoding are the same text.
pub proof fn lemma_encode_injective(a: Seq<char>, b: Seq<char>)
    requires
        encode_utf8(a) == encode_utf8(b),
    ensures
        a == b,
{
    encode_utf8_decode_utf8(a);
    encode_utf8_decode_utf8(b);
}

/// Splitting the text at character `k` splits its encoding at `byte_offset(text, k)`.
pub proof fn lemma_encode_split(text: Seq<char>, k: int)
    requires
        0 <= k <= text.len(),
    ensures
        byte_offset(text, k) <= encode_utf8(text).len(),
        encode_utf8(text).subrange(0, byte_offset(text, k) as int) =~= encode_utf8(text.take(k)),
        encode_utf8(text).subrange(byte_offset(text, k) as int, encode_utf8(text).len() as int)
            =~= encode_utf8(text.skip(k)),
{
    assert(text =~= text.take(k) + text.skip(k));
    lemma_encode_concat(text.take(k), text.skip(k));
}

/// Moving one character forward moves the byte offset by that character's width.
pub proof fn lemma_offset_step(text: Seq<char>, k: int)
    requires
        0 <= k < text.len(),
    ensures
        byte_offset(text, k + 1) == byte_offset(text, k) + width_of(text[k]),
        byte_offset(text, k + 1) <= encode_utf8(text).len(),
{
    assert(text.take(k + 1) =~= text.take(k) + seq![text[k]]);
    lemma_encode_concat(text.take(k), seq![text[k]]);
    lemma_encode_single(text[k]);
    lemma_encode_split(text, k + 1);
}

/// Byte offsets grow with character positions, at least one byte per character.
pub proof fn lemma_offset_monotonic(text: Seq<char>, j: int, k: int)
    requires
        0 <= j <= k <= text.len(),
    ensures
        byte_offset(text, j) + (k - j) <= byte_offset(text, k),
    decreases k - j,
{
    if j < k {
        lemma_offset_monotonic(text, j, k - 1);
        lemma_offset_step(text, k - 1);
    }
}

/// The offsets at both ends of the text.
pub proof fn lemma_offset_ends(text: Seq<char>)
    ensures
        byte_offset(text, 0) == 0,
        byte_offset(text, text.len() as int) == encode_utf8(text).len(),
        text.len() <= encode_utf8(text).len(),
{
    assert(text.take(text.len() as int) =~= text);
    lemma_offset_monotonic(text, 0, text.len() as int);
}

/// The offset of a prefix's position is the same in the prefix and in the whole text.
pub proof fn lemma_offset_in_prefix(text: Seq<char>, j: int, k: int)
    requires
        0 <= j <= k <= text.len(),
    ensures
        byte_offset(text.take(k), j) == byte_offset(text, j),
{
    assert(text.take(k).take(j) =~= text.take(j));
}

/// Every character position falls on a character boundary of the encoding.
pub proof fn lemma_offset_is_boundary(text: Seq<char>, k: int)
    requires
        0 <= k <= text.len(),
    ensures
        is_char_boundary(encode_utf8(text), byte_offset(text, k) as int),
    decreases k,
{
    let bytes = encode_utf8(text);
    encode_utf8_valid_utf8(text);
    if k > 0 {
        let rest = text.drop_first();
        encode_utf8_first_scalar(text);
        assert(pop_first_scalar(bytes) =~= encode_utf8(rest));
        assert(text.take(k) =~= seq![text[0]] + rest.take(k - 1));
        lemma_encode_concat(seq![text[0]], rest.take(k - 1));
        lemma_encode_single(text[0]);
        lemma_offset_is_boundary(rest, k - 1);
    }
}

/// Whether two texts hold the same characters, decided on their bytes.
pub fn same_text(a: &str, b: &str) -> (same: bool)
    ensures
        same == (a@ == b@),
{
    let x = a.as_bytes();
    let y = b.as_bytes();
    if x.len() != y.len() {
        return false;
    }
    let mut i: usize = 0;
    while i < x.len()
        invariant
            x@ == a.spec_bytes(),
            y@ == b.spec_bytes(),
            x@.len() == y@.len(),
            i <= x@.len(),
            forall|j: int| 0 <= j < i ==> x@[j] == y@[j],
        decreases x@.len() - i,
    {
        if x[i] != y[i] {
            return false;
        }
        i += 1;
    }
    proof {
        assert(x@ =~= y@);
        lemma_encode_injective(a@, b@);
    }
    true
}

} // verus!
