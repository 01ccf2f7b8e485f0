//! UTF-8 facts about source text: byte lengths of character prefixes,
//! character boundaries, and the string operations the rest of the crate
//! builds on.
use vstd::prelude::*;
use vstd::utf8::*;
use vstd::string::StringSliceAdditionalSpecFns;

verus! {

broadcast use vstd::string::group_string_axioms;

/// Number of UTF-8 bytes that encode `chars`.
pub open spec fn byte_len(chars: Seq<char>) -> nat {
    encode_utf8(chars).len()
}

/// Byte offset at which the character with index `k` starts.
pub open spec fn char_offset(chars: Seq<char>, k: int) -> nat {
    byte_len(chars.take(k))
}

/// The UTF-8 encoding of a concatenation is the concatenation of the encodings.
pub proof fn lemma_encode_concat(a: Seq<char>, b: Seq<char>)
    ensures
        encode_utf8(a + b) == encode_utf8(a) + encode_utf8(b),
    decreases a.len(),
{
    if a.len() == 0 {
        assert(a + b =~= b);
        assert(encode_utf8(a) =~= Seq::<u8>::empty());
        assert(encode_utf8(a) + encode_utf8(b) =~= encode_utf8(b));
    } else {
        assert((a + b).drop_first() =~= a.drop_first() + b);
        assert((a + b)[0] == a[0]);
        lemma_encode_concat(a.drop_first(), b);
        assert(encode_utf8(a + b) =~= encode_utf8(a) + encode_utf8(b));
    }
}

/// Two character sequences with the same encoding are equal.
pub proof fn lemma_encode_injective(a: Seq<char>, b: Seq<char>)
    requires
        encode_utf8(a) == encode_utf8(b),
    ensures
        a == b,
{
    encode_utf8_decode_utf8(a);
    encode_utf8_decode_utf8(b);
}

/// A single character is encoded by `encode_scalar`.
pub proof fn lemma_encode_single(c: char)
    ensures
        encode_utf8(seq![c]) == encode_scalar(c as u32),
        1 <= encode_scalar(c as u32).len() <= 4,
{
    assert(seq![c].drop_first() =~= Seq::<char>::empty());
    assert(encode_utf8(Seq::<char>::empty()) =~= Seq::<u8>::empty());
    assert(encode_scalar(c as u32) + Seq::<u8>::empty() =~= encode_scalar(c as u32));
}

/// Encoding of a prefix followed by the encoding of the rest.
pub proof fn lemma_encode_split(chars: Seq<char>, k: int)
    requires
        0 <= k <= chars.len(),
    ensures
        encode_utf8(chars) == encode_utf8(chars.take(k)) + encode_utf8(chars.skip(k)),
        char_offset(chars, k) <= encode_utf8(chars).len(),
        encode_utf8(chars).subrange(0, char_offset(chars, k) as int) == encode_utf8(chars.take(k)),
        encode_utf8(chars).subrange(char_offset(chars, k) as int, encode_utf8(chars).len() as int)
            == encode_utf8(chars.skip(k)),
{
    assert(chars.take(k) + chars.skip(k) =~= chars);
    lemma_encode_concat(chars.take(k), chars.skip(k));
    let e = encode_utf8(chars);
    assert(e.subrange(0, char_offset(chars, k) as int) =~= encode_utf8(chars.take(k)));
    assert(e.subrange(char_offset(chars, k) as int, e.len() as int) =~= encode_utf8(chars.skip(k)));
}

/// Encoding of a subrange of characters as a subrange of bytes.
pub proof fn lemma_encode_subrange(chars: Seq<char>, i: int, j: int)
    requires
        0 <= i <= j <= chars.len(),
    ensures
        char_offset(chars, i) <= char_offset(chars, j) <= encode_utf8(chars).len(),
        encode_utf8(chars).subrange(char_offset(chars, i) as int, char_offset(chars, j) as int)
            == encode_utf8(chars.subrange(i, j)),
{
    lemma_encode_split(chars, j);
    let pre = chars.take(j);
    lemma_encode_split(pre, i);
    assert(pre.take(i) =~= chars.take(i));
    assert(pre.skip(i) =~= chars.subrange(i, j));
    let e = encode_utf8(chars);
    let ep = encode_utf8(pre);
    assert(e.subrange(char_offset(chars, i) as int, char_offset(chars, j) as int)
        =~= ep.subrange(char_offset(pre, i) as int, ep.len() as int));
}

/// The offset of character `k + 1` is the offset of character `k` plus its width.
pub proof fn lemma_char_offset_step(chars: Seq<char>, k: int)
    requires
        0 <= k < chars.len(),
    ensures
        char_offset(chars, k + 1) == char_offset(chars, k) + encode_scalar(chars[k] as u32).len(),
        char_offset(chars, k) < char_offset(chars, k + 1),
{
    assert(chars.take(k + 1) =~= chars.take(k) + seq![chars[k]]);
    lemma_encode_concat(chars.take(k), seq![chars[k]]);
    lemma_encode_single(chars[k]);
}

/// Character offsets grow with the character index.
pub proof fn lemma_char_offset_monotone(chars: Seq<char>, i: int, j: int)
    requires
        0 <= i <= j <= chars.len(),
    ensures
        char_offset(chars, i) <= char_offset(chars, j),
        i < j ==> char_offset(chars, i) < char_offset(chars, j),
    decreases j - i,
{
    if i < j {
        lemma_char_offset_monotone(chars, i, j - 1);
        lemma_char_offset_step(chars, j - 1);
    }
}

/// The offset of the last character position is the full byte length.
pub proof fn lemma_char_offset_end(chars: Seq<char>)
    ensures
        char_offset(chars, chars.len() as int) == encode_utf8(chars).len(),
{
    assert(chars.take(chars.len() as int) =~= chars);
}

/// Every character offset is a character boundary of the encoding.
pub proof fn lemma_char_offset_is_boundary(chars: Seq<char>, k: int)
    requires
        0 <= k <= chars.len(),
    ensures
        is_char_boundary(encode_utf8(chars), char_offset(chars, k) as int),
    decreases k,
{
    let bytes = encode_utf8(chars);
    encode_utf8_valid_utf8(chars);
    if k == 0 {
        assert(chars.take(0) =~= Seq::<char>::empty());
        assert(encode_utf8(chars.take(0)) =~= Seq::<u8>::empty());
    } else {
        let rest = chars.drop_first();
        encode_utf8_first_scalar(chars);
        lemma_encode_split(chars, k);
        let w = encode_scalar(chars[0] as u32).len();
        assert(pop_first_scalar(bytes) =~= encode_utf8(rest));
        assert(chars.take(k) =~= seq![chars[0]] + rest.take(k - 1));
        lemma_encode_concat(seq![chars[0]], rest.take(k - 1));
        lemma_encode_single(chars[0]);
        assert(char_offset(chars, k) == w + char_offset(rest, k - 1));
        lemma_char_offset_is_boundary(rest, k - 1);
    }
}

/// A byte that is not a continuation byte starts a character.
pub proof fn lemma_boundary_at_non_continuation(chars: Seq<char>, i: int)
    requires
        0 <= i < encode_utf8(chars).len(),
        !is_continuation_byte(encode_utf8(chars)[i]),
    ensures
        is_char_boundary(encode_utf8(chars), i),
{
    encode_utf8_valid_utf8(chars);
    is_char_boundary_iff_not_is_continuation_byte(encode_utf8(chars), i);
}

/// Every character boundary is the offset of some character index.
pub proof fn lemma_boundary_is_char_offset(chars: Seq<char>, i: int) -> (k: int)
    requires
        is_char_boundary(encode_utf8(chars), i),
    ensures
        0 <= k <= chars.len(),
        char_offset(chars, k) == i,
    decreases chars.len(),
{
    let bytes = encode_utf8(chars);
    encode_utf8_valid_utf8(chars);
    if i == 0 {
        assert(chars.take(0) =~= Seq::<char>::empty());
        assert(encode_utf8(chars.take(0)) =~= Seq::<u8>::empty());
        0
    } else {
        let rest = chars.drop_first();
        assert(chars.len() > 0) by {
            if chars.len() == 0 {
                assert(bytes.len() == 0);
            }
        }
        encode_utf8_first_scalar(chars);
        let w = encode_scalar(chars[0] as u32).len();
        assert(pop_first_scalar(bytes) =~= encode_utf8(rest));
        let k1 = lemma_boundary_is_char_offset(rest, i - w);
        assert(chars.take(k1 + 1) =~= seq![chars[0]] + rest.take(k1));
        lemma_encode_concat(seq![chars[0]], rest.take(k1));
        lemma_encode_single(chars[0]);
        k1 + 1
    }
}

/// Every character takes at least one byte.
pub proof fn lemma_chars_le_bytes(chars: Seq<char>)
    ensures
        chars.len() <= encode_utf8(chars).len(),
    decreases chars.len(),
{
    if chars.len() > 0 {
        lemma_chars_le_bytes(chars.drop_first());
        lemma_encode_single(chars[0]);
    }
}

/// Number of bytes of the UTF-8 encoding of `c`.
pub fn utf8_width(c: char) -> (n: usize)
    ensures
        n == encode_scalar(c as u32).len(),
        1 <= n <= 4,
{
    proof { char_is_scalar(c); }
    let v = c as u32;
    if v <= 0x7f {
        1
    } else if v <= 0x7ff {
        2
    } else if v <= 0xffff {
        3
    } else {
        4
    }
}

/// The text from byte `start` to byte `end` (both character boundaries).
pub fn substr<'a>(text: &'a str, start: usize, end: usize) -> (r: &'a str)
    requires
        start <= end <= text.spec_bytes().len(),
        is_char_boundary(text.spec_bytes(), start as int),
        is_char_boundary(text.spec_bytes(), end as int),
    ensures
        r.spec_bytes() == text.spec_bytes().subrange(start as int, end as int),
{
    let ghost bytes = text.spec_bytes();
    let ghost ks = lemma_boundary_is_char_offset(text@, start as int);
    let ghost ke = lemma_boundary_is_char_offset(text@, end as int);
    proof {
        if ke < ks {
            lemma_char_offset_monotone(text@, ke, ks);
        }
        lemma_char_offset_monotone(text@, ks, ke);
        lemma_encode_split(text@, ks);
        lemma_encode_subrange(text@, ks, ke);
        assert(text@.skip(ks).take(ke - ks) =~= text@.subrange(ks, ke));
        assert(char_offset(text@.skip(ks), ke - ks) == end - start) by {
            lemma_encode_subrange(text@, ks, ke);
        }
        lemma_char_offset_is_boundary(text@.skip(ks), ke - ks);
    }
    let (_, tail) = text.split_at(start);
    proof {
        lemma_encode_injective(tail@, text@.skip(ks));
        assert(tail.spec_bytes() == encode_utf8(text@.skip(ks)));
    }
    let (piece, _) = tail.split_at(end - start);
    proof {
        assert(piece.spec_bytes() =~= bytes.subrange(start as int, end as int));
    }
    piece
}

/// The character that starts at byte `offset`, if any; `offset` is the
/// offset of character `k`.
pub fn char_at(text: &str, offset: usize, Ghost(k): Ghost<int>) -> (r: Option<char>)
    requires
        0 <= k <= text@.len(),
        offset == char_offset(text@, k),
    ensures
        r == (if k < text@.len() { Some(text@[k]) } else { None::<char> }),
{
    proof {
        lemma_char_offset_is_boundary(text@, k);
        lemma_encode_split(text@, k);
    }
    let (_, tail) = text.split_at(offset);
    proof {
        lemma_encode_injective(tail@, text@.skip(k));
    }
    let mut it = tail.chars();
    it.next()
}

/// Equality of two strings, decided byte by byte.
pub fn str_equal(a: &str, b: &str) -> (r: bool)
    ensures
        r == (a@ == b@),
{
    let ab = a.as_bytes();
    let bb = b.as_bytes();
    if ab.len() != bb.len() {
        proof {
            if a@ == b@ {
                assert(ab@ == bb@);
            }
        }
        return false;
    }
    let n = ab.len();
    let mut i: usize = 0;
    while i < n
        invariant
            n == ab@.len(),
            n == bb@.len(),
            ab@ == a.spec_bytes(),
            bb@ == b.spec_bytes(),
            i <= n,
            forall|j: int| 0 <= j < i ==> ab@[j] == bb@[j],
        decreases n - i,
    {
        if ab[i] != bb[i] {
            proof {
                if a@ == b@ {
                    assert(ab@ == bb@);
                }
            }
            return false;
        }
        i = i + 1;
    }
    proof {
        assert(ab@ =~= bb@);
        lemma_encode_injective(a@, b@);
    }
    true
}

} // verus!
