//! Source text with a table of line starts.
//!
//! Lines and columns are 1-based; offsets are UTF-8 byte offsets.
use vstd::prelude::*;
use vstd::utf8::*;
use vstd::string::StringSliceAdditionalSpecFns;
use vstd::string::StrSliceExecFns;
use std::ops::Range;
use crate::text::{
    lemma_boundary_at_non_continuation, lemma_boundary_is_char_offset,
    lemma_char_offset_end, lemma_char_offset_is_boundary, lemma_char_offset_step,
    lemma_chars_le_bytes, lemma_encode_single, lemma_encode_split, substr,
};

verus! {

/// Byte value of the line feed character.
pub open spec fn is_newline_byte(b: u8) -> bool {
    b == 10
}

/// Offsets at which lines start, considering only the first `n` bytes:
/// offset 0, then the offset just after every line feed.
pub open spec fn line_starts_upto(b: Seq<u8>, n: int) -> Seq<int>
    decreases n,
{
    if n <= 0 {
        seq![0int]
    } else if is_newline_byte(b[n - 1]) {
        line_starts_upto(b, n - 1).push(n)
    } else {
        line_starts_upto(b, n - 1)
    }
}

/// Offsets at which the lines of `b` start.
pub open spec fn line_starts_of(b: Seq<u8>) -> Seq<int> {
    line_starts_upto(b, b.len() as int)
}

/// Number of line feeds among the first `n` bytes.
pub open spec fn newline_count(b: Seq<u8>, n: int) -> nat
    decreases n,
{
    if n <= 0 {
        0
    } else {
        newline_count(b, n - 1) + if is_newline_byte(b[n - 1]) { 1nat } else { 0nat }
    }
}

/// Start of the line that contains offset `o`: just after the last line
/// feed before `o`, or 0.
pub open spec fn line_begin(b: Seq<u8>, o: int) -> int
    decreases o,
{
    if o <= 0 {
        0
    } else if is_newline_byte(b[o - 1]) {
        o
    } else {
        line_begin(b, o - 1)
    }
}

/// The offset just after the line with 0-based index `i`: the start of the
/// next line, or the end of the text for the last line.
pub open spec fn line_end_of(b: Seq<u8>, i: int) -> int {
    if i + 1 < line_starts_of(b).len() {
        line_starts_of(b)[i + 1]
    } else {
        b.len() as int
    }
}

/// The bytes that `line_text` returns for the line with 0-based index `i`.
pub open spec fn line_text_of(b: Seq<u8>, i: int) -> Seq<u8> {
    trim_line_end(b.subrange(line_starts_of(b)[i], line_end_of(b, i)))
}

/// `s` without its trailing carriage returns and line feeds.
pub open spec fn trim_line_end(s: Seq<u8>) -> Seq<u8>
    decreases s.len(),
{
    if s.len() > 0 && (s.last() == 10 || s.last() == 13) {
        trim_line_end(s.drop_last())
    } else {
        s
    }
}

/// The shape of the line table built from the first `n` bytes.
pub proof fn lemma_line_starts_shape(b: Seq<u8>, n: int)
    requires
        0 <= n <= b.len(),
    ensures
        line_starts_upto(b, n).len() == 1 + newline_count(b, n),
        line_starts_upto(b, n)[0] == 0,
        line_starts_upto(b, n).last() == line_begin(b, n),
        forall|i: int|
            0 < i < line_starts_upto(b, n).len() ==> 1 <= #[trigger] line_starts_upto(b, n)[i] <= n
                && is_newline_byte(b[line_starts_upto(b, n)[i] - 1]),
        forall|i: int, j: int|
            0 <= i < j < line_starts_upto(b, n).len() ==> line_starts_upto(b, n)[i]
                < line_starts_upto(b, n)[j],
        forall|i: int|
            0 <= i < line_starts_upto(b, n).len() ==> 0 <= #[trigger] line_starts_upto(b, n)[i]
                <= n,
    decreases n,
{
    if n > 0 {
        lemma_line_starts_shape(b, n - 1);
    }
}

/// The table built from a prefix is a prefix of the table, and the later
/// entries lie beyond that prefix.
pub proof fn lemma_line_starts_prefix(b: Seq<u8>, o: int, n: int)
    requires
        0 <= o <= n <= b.len(),
    ensures
        line_starts_upto(b, o).len() <= line_starts_upto(b, n).len(),
        forall|i: int|
            0 <= i < line_starts_upto(b, o).len() ==> #[trigger] line_starts_upto(b, n)[i]
                == line_starts_upto(b, o)[i],
        forall|i: int|
            line_starts_upto(b, o).len() <= i < line_starts_upto(b, n).len()
                ==> #[trigger] line_starts_upto(b, n)[i] > o,
    decreases n - o,
{
    if o < n {
        lemma_line_starts_prefix(b, o, n - 1);
    }
}

/// A byte below 0x80 is a whole character, so the next offset is a boundary.
pub proof fn lemma_after_ascii_byte_is_boundary(chars: Seq<char>, j: int)
    requires
        0 <= j < encode_utf8(chars).len(),
        encode_utf8(chars)[j] <= 0x7f,
    ensures
        is_char_boundary(encode_utf8(chars), j + 1),
{
    let b = encode_utf8(chars);
    lemma_boundary_at_non_continuation(chars, j);
    let k = lemma_boundary_is_char_offset(chars, j);
    lemma_char_offset_end(chars);
    if k == chars.len() {
        assert(false);
    }
    lemma_encode_split(chars, k);
    let rest = chars.skip(k);
    assert(rest[0] == chars[k]);
    encode_utf8_first_scalar(rest);
    assert(encode_utf8(rest)[0] == b[j]);
    lemma_char_offset_step(chars, k);
    lemma_char_offset_is_boundary(chars, k + 1);
}

/// Every entry of the line table is a character boundary.
pub proof fn lemma_line_starts_are_boundaries(chars: Seq<char>, i: int)
    requires
        0 <= i < line_starts_of(encode_utf8(chars)).len(),
    ensures
        is_char_boundary(encode_utf8(chars), line_starts_of(encode_utf8(chars))[i]),
{
    let b = encode_utf8(chars);
    lemma_line_starts_shape(b, b.len() as int);
    if i == 0 {
        lemma_char_offset_is_boundary(chars, 0);
        assert(chars.take(0) =~= Seq::<char>::empty());
        assert(encode_utf8(Seq::<char>::empty()) =~= Seq::<u8>::empty());
    } else {
        let s = line_starts_of(b)[i];
        assert(1 <= s <= b.len() && is_newline_byte(b[s - 1]));
        lemma_after_ascii_byte_is_boundary(chars, s - 1);
    }
}

/// Every line feed is followed by a line start.
proof fn lemma_newline_starts_line(b: Seq<u8>, n: int, j: int)
    requires
        0 <= j < n <= b.len(),
        is_newline_byte(b[j]),
    ensures
        exists|idx: int|
            0 <= idx < line_starts_upto(b, n).len() && #[trigger] line_starts_upto(b, n)[idx] == j
                + 1,
    decreases n,
{
    if j == n - 1 {
        let s = line_starts_upto(b, n);
        assert(s[s.len() - 1] == j + 1);
    } else {
        lemma_newline_starts_line(b, n - 1, j);
        lemma_line_starts_prefix(b, n - 1, n);
        let idx = choose|idx: int|
            0 <= idx < line_starts_upto(b, n - 1).len() && #[trigger] line_starts_upto(b, n - 1)[idx]
                == j + 1;
        assert(line_starts_upto(b, n)[idx] == j + 1);
    }
}

/// Trimming keeps a prefix, and removes a final line feed.
proof fn lemma_trim_line_end_prefix(s: Seq<u8>)
    ensures
        trim_line_end(s).len() <= s.len(),
        trim_line_end(s) == s.take(trim_line_end(s).len() as int),
        s.len() > 0 && s.last() == 10 ==> trim_line_end(s).len() < s.len(),
    decreases s.len(),
{
    if s.len() > 0 && (s.last() == 10 || s.last() == 13) {
        lemma_trim_line_end_prefix(s.drop_last());
        let t = trim_line_end(s.drop_last());
        assert(s.drop_last().take(t.len() as int) =~= s.take(t.len() as int));
    } else {
        assert(s.take(s.len() as int) =~= s);
    }
}

/// Trimming removes a suffix made only of carriage returns and line feeds,
/// and the longest one: what is left is empty or ends in another byte.
proof fn lemma_trim_line_end_suffix(s: Seq<u8>)
    ensures
        trim_line_end(s).len() <= s.len(),
        trim_line_end(s) == s.take(trim_line_end(s).len() as int),
        forall|x: int| trim_line_end(s).len() <= x < s.len() ==> s[x] == 10 || s[x] == 13,
        trim_line_end(s).len() == 0 || (trim_line_end(s).last() != 10 && trim_line_end(s).last()
            != 13),
    decreases s.len(),
{
    lemma_trim_line_end_prefix(s);
    if s.len() > 0 && (s.last() == 10 || s.last() == 13) {
        lemma_trim_line_end_suffix(s.drop_last());
        assert forall|x: int| trim_line_end(s).len() <= x < s.len() implies s[x] == 10 || s[x] == 13 by {
            if x < s.len() - 1 {
                assert(s.drop_last()[x] == s[x]);
            }
        }
    }
}

/// The text of a line is the line's bytes, from its start to the start of
/// the next line (or the end of the text), less the longest suffix made only
/// of carriage returns (13) and line feeds (10): nothing else is removed, so
/// trailing spaces and tabs stay.
pub proof fn law_line_text_drops_only_the_terminator(b: Seq<u8>, i: int)
    requires
        0 <= i < line_starts_of(b).len(),
    ensures
        ({
            let seg = b.subrange(line_starts_of(b)[i], line_end_of(b, i));
            let text = line_text_of(b, i);
            &&& line_starts_of(b)[i] <= line_end_of(b, i) <= b.len()
            &&& text.len() <= seg.len()
            &&& forall|x: int| 0 <= x < text.len() ==> #[trigger] text[x] == seg[x]
            &&& forall|x: int| text.len() <= x < seg.len() ==> #[trigger] seg[x] == 10 || seg[x] == 13
            &&& (text.len() == 0 || (text.last() != 10 && text.last() != 13))
        }),
{
    lemma_line_starts_shape(b, b.len() as int);
    let starts = line_starts_of(b);
    if i + 1 < starts.len() {
        assert(starts[i] < starts[i + 1]);
    }
    let seg = b.subrange(starts[i], line_end_of(b, i));
    lemma_trim_line_end_suffix(seg);
}

/// The line table, stated on its own: the first line starts at 0, the
/// starts increase, every later start follows a line feed, and every line
/// feed is followed by a start.
pub proof fn law_line_table_characterized(b: Seq<u8>)
    ensures
        line_starts_of(b).len() >= 1,
        line_starts_of(b)[0] == 0,
        forall|i: int, j: int|
            0 <= i < j < line_starts_of(b).len() ==> line_starts_of(b)[i] < line_starts_of(b)[j],
        forall|i: int|
            0 < i < line_starts_of(b).len() ==> 1 <= #[trigger] line_starts_of(b)[i] <= b.len()
                && b[line_starts_of(b)[i] - 1] == 10,
        forall|j: int|
            0 <= j < b.len() && #[trigger] b[j] == 10 ==> exists|i: int|
                0 <= i < line_starts_of(b).len() && #[trigger] line_starts_of(b)[i] == j + 1,
{
    lemma_line_starts_shape(b, b.len() as int);
    assert forall|j: int| 0 <= j < b.len() && #[trigger] b[j] == 10 implies exists|i: int|
        0 <= i < line_starts_of(b).len() && #[trigger] line_starts_of(b)[i] == j + 1 by {
        lemma_newline_starts_line(b, b.len() as int, j);
        let idx = choose|idx: int|
            0 <= idx < line_starts_upto(b, b.len() as int).len() && #[trigger] line_starts_upto(
                b,
                b.len() as int,
            )[idx] == j + 1;
        assert(line_starts_of(b)[idx] == j + 1);
    }
}

/// The line of an offset is one more than the number of line feeds before
/// it; that line starts at the last line start at or before the offset, so
/// `line_start(position.line)` never lies after `position.offset`, and the
/// next line, if any, starts after it.
pub proof fn law_position_line_start(b: Seq<u8>, offset: int)
    requires
        0 <= offset <= b.len(),
    ensures
        1 <= 1 + newline_count(b, offset) <= line_starts_of(b).len(),
        line_starts_of(b)[newline_count(b, offset) as int] == line_begin(b, offset),
        0 <= line_begin(b, offset) <= offset,
        1 + newline_count(b, offset) == line_starts_of(b).len() || line_starts_of(b)[1
            + newline_count(b, offset) as int] > offset,
{
    lemma_line_starts_shape(b, offset);
    lemma_line_starts_shape(b, b.len() as int);
    lemma_line_starts_prefix(b, offset, b.len() as int);
    let so = line_starts_upto(b, offset);
    assert(line_starts_of(b)[so.len() - 1] == so[so.len() - 1]);
}

/// A source has at least one line, and its first line starts at offset 0.
pub proof fn law_first_line_starts_at_zero(b: Seq<u8>)
    ensures
        line_starts_of(b).len() >= 1,
        line_starts_of(b)[0] == 0,
{
    lemma_line_starts_shape(b, b.len() as int);
}

/// The text of a line, as `line_text` returns it, holds no line feed.
pub proof fn law_line_text_has_no_line_feed(b: Seq<u8>, i: int)
    requires
        0 <= i < line_starts_of(b).len(),
    ensures
        forall|x: int|
            0 <= x < line_text_of(b, i).len() ==> !is_newline_byte(#[trigger] line_text_of(b, i)[x]),
{
    let n = b.len() as int;
    let starts = line_starts_of(b);
    lemma_line_starts_shape(b, n);
    let st = starts[i];
    let en = if i + 1 < starts.len() {
        starts[i + 1]
    } else {
        n
    };
    assert(st <= en);
    let seg = b.subrange(st, en);
    lemma_trim_line_end_prefix(seg);
    let tr = trim_line_end(seg);
    assert(tr == line_text_of(b, i));
    assert forall|x: int| 0 <= x < tr.len() implies !is_newline_byte(#[trigger] tr[x]) by {
        if is_newline_byte(tr[x]) {
            assert(tr[x] == seg[x]);
            let j = st + x;
            assert(b[j] == seg[x]);
            lemma_newline_starts_line(b, n, j);
            let idx = choose|idx: int|
                0 <= idx < line_starts_upto(b, n).len() && #[trigger] line_starts_upto(b, n)[idx]
                    == j + 1;
            assert(starts[idx] == j + 1);
            if idx <= i {
                if idx < i {
                    assert(starts[idx] < starts[i]);
                }
                assert(false);
            }
            if i + 1 < starts.len() {
                if idx > i + 1 {
                    assert(starts[i + 1] < starts[idx]);
                    assert(false);
                }
                assert(j + 1 == en);
                assert(seg.last() == b[j]);
                assert(false);
            } else {
                assert(false);
            }
        }
    }
}

/// The whole text is a slice: offset 0 and the byte length are boundaries.
pub proof fn law_whole_text_is_a_slice(t: Seq<char>)
    ensures
        is_char_boundary(encode_utf8(t), 0),
        is_char_boundary(encode_utf8(t), encode_utf8(t).len() as int),
{
    encode_utf8_valid_utf8(t);
    is_char_boundary_start_end_of_seq(encode_utf8(t));
}

/// A position in a source text: byte offset, 1-based line and 1-based column
/// (counted in characters).
#[derive(Debug, Clone, Copy, PartialEq, Eq, Structural)]
pub struct Position {
    pub offset: usize,
    pub line: usize,
    pub column: usize,
}

/// A named source text together with the offsets at which its lines start.
#[derive(Debug, PartialEq, Eq)]
pub struct SourceText {
    name: String,
    text: String,
    line_starts: Vec<usize>,
}

impl SourceText {
    #[verifier::type_invariant]
    spec fn line_table_matches(self) -> bool {
        self.line_starts@.map_values(|v: usize| v as int) == line_starts_of(encode_utf8(self.text@))
    }

    /// The logical name of the source.
    pub closed spec fn name_view(self) -> Seq<char> {
        self.name@
    }

    /// The characters of the source.
    pub closed spec fn text_view(self) -> Seq<char> {
        self.text@
    }

    /// The UTF-8 bytes of the source.
    pub open spec fn bytes(self) -> Seq<u8> {
        encode_utf8(self.text_view())
    }

    /// The offsets at which the lines start.
    pub open spec fn line_starts_view(self) -> Seq<int> {
        line_starts_of(self.bytes())
    }

    proof fn lemma_table(self)
        requires
            self.line_starts@.map_values(|v: usize| v as int) == line_starts_of(encode_utf8(self.text@)),
        ensures
            self.line_starts@.len() == self.line_starts_view().len(),
            forall|i: int| 0 <= i < self.line_starts@.len() ==> self.line_starts@[i] as int == #[trigger] self.line_starts_view()[i],
    {
        assert forall|i: int| 0 <= i < self.line_starts@.len() implies self.line_starts@[i] as int == #[trigger] self.line_starts_view()[i] by {
            assert(self.line_starts@.map_values(|v: usize| v as int)[i] == self.line_starts@[i] as int);
        }
    }

    /// Builds the source and its line table. The text is read as UTF-8 bytes.
    pub fn new(name: &str, text: &str) -> (r: SourceText)
        ensures
            r.name_view() == name@,
            r.text_view() == text@,
    {
        let line_starts = Self::compute_line_starts(text);
        SourceText { name: name.to_owned(), text: text.to_owned(), line_starts }
    }

    pub fn name(&self) -> (r: &str)
        ensures
            r@ == self.name_view(),
    {
        self.name.as_str()
    }

    pub fn text(&self) -> (r: &str)
        ensures
            r@ == self.text_view(),
    {
        self.text.as_str()
    }

    /// Length of the source in UTF-8 bytes.
    pub fn len_bytes(&self) -> (r: usize)
        ensures
            r == self.bytes().len(),
    {
        self.text.as_str().as_bytes().len()
    }

    /// True when the source holds no bytes.
    pub fn is_empty(&self) -> (r: bool)
        ensures
            r == (self.bytes().len() == 0),
    {
        let t = self.text.as_str();
        proof {
            lemma_chars_le_bytes(t@);
            if t@.len() > 0 {
                lemma_encode_single(t@[0]);
                lemma_encode_split(t@, 1);
            }
        }
        t.is_empty()
    }

    /// Number of logical lines: one more than the number of line feeds, so
    /// an empty source has one line.
    pub fn line_count(&self) -> (r: usize)
        ensures
            r == self.line_starts_view().len(),
            r == 1 + newline_count(self.bytes(), self.bytes().len() as int),
    {
        proof {
            use_type_invariant(self);
            self.lemma_table();
            lemma_line_starts_shape(self.bytes(), self.bytes().len() as int);
        }
        self.line_starts.len()
    }

    /// Offset at which the 1-based `line` starts.
    pub fn line_start(&self, line: usize) -> (r: Option<usize>)
        ensures
            r == (if 1 <= line <= self.line_starts_view().len() {
                Some(self.line_starts_view()[line - 1] as usize)
            } else {
                None::<usize>
            }),
    {
        proof {
            use_type_invariant(self);
            self.lemma_table();
        }
        let index = match line.checked_sub(1) {
            Some(i) => i,
            None => return None,
        };
        if index < self.line_starts.len() {
            Some(self.line_starts[index])
        } else {
            None
        }
    }

    /// Text of the 1-based `line` without its trailing carriage returns and
    /// line feeds.
    pub fn line_text(&self, line: usize) -> (r: Option<&str>)
        ensures
            r is Some <==> 1 <= line <= self.line_starts_view().len(),
            r matches Some(s) ==> s.spec_bytes() == line_text_of(self.bytes(), line - 1),
    {
        proof {
            use_type_invariant(self);
            self.lemma_table();
            lemma_line_starts_shape(self.bytes(), self.bytes().len() as int);
        }
        let index = match line.checked_sub(1) {
            Some(i) => i,
            None => return None,
        };
        if index >= self.line_starts.len() {
            return None;
        }
        let start = self.line_starts[index];
        let text = self.text.as_str();
        let end = if index + 1 < self.line_starts.len() {
            self.line_starts[index + 1]
        } else {
            text.as_bytes().len()
        };
        let bytes = text.as_bytes();
        let ghost b = self.bytes();
        proof {
            let v = self.line_starts_view();
            assert(v[index as int] <= b.len());
            if index + 1 < self.line_starts.len() {
                assert(v[index as int] < v[index + 1]);
                assert(v[index + 1] <= b.len());
            }
        }
        let mut stop = end;
        while stop > start && (bytes[stop - 1] == 10 || bytes[stop - 1] == 13)
            invariant
                bytes@ == b,
                start <= stop <= end <= b.len(),
                forall|x: int| stop <= x < end ==> b[x] == 10 || b[x] == 13,
                trim_line_end(b.subrange(start as int, end as int)) == trim_line_end(
                    b.subrange(start as int, stop as int),
                ),
            decreases stop,
        {
            proof {
                let cur = b.subrange(start as int, stop as int);
                assert(cur.drop_last() =~= b.subrange(start as int, stop - 1));
            }
            stop = stop - 1;
        }
        proof {
            lemma_line_starts_are_boundaries(self.text_view(), index as int);
            if index + 1 < self.line_starts.len() {
                lemma_line_starts_are_boundaries(self.text_view(), index + 1);
            } else {
                lemma_char_offset_end(self.text_view());
                lemma_char_offset_is_boundary(self.text_view(), self.text_view().len() as int);
            }
            if stop < end {
                lemma_boundary_at_non_continuation(self.text_view(), stop as int);
            }
        }
        Some(substr(text, start, stop))
    }

    /// The text between two byte offsets, when both are character
    /// boundaries within the source and the range is not reversed.
    pub fn slice(&self, range: Range<usize>) -> (r: Option<&str>)
        ensures
            r is Some <==> range.start <= range.end <= self.bytes().len() && is_char_boundary(
                self.bytes(),
                range.start as int,
            ) && is_char_boundary(self.bytes(), range.end as int),
            r matches Some(s) ==> s.spec_bytes() == self.bytes().subrange(
                range.start as int,
                range.end as int,
            ),
    {
        let text = self.text.as_str();
        if range.start > range.end || range.end > text.as_bytes().len() {
            return None;
        }
        if !text.is_char_boundary(range.start) || !text.is_char_boundary(range.end) {
            return None;
        }
        Some(substr(text, range.start, range.end))
    }

    /// The 1-based line and column of a byte offset, when the offset lies
    /// within the source and on a character boundary. The line is one more
    /// than the number of line feeds before the offset; the column is one
    /// more than the number of characters between the start of that line
    /// and the offset.
    pub fn position_of(&self, offset: usize) -> (r: Option<Position>)
        requires
            offset < usize::MAX || self.bytes().len() < usize::MAX,
        ensures
            r is Some <==> offset <= self.bytes().len() && is_char_boundary(
                self.bytes(),
                offset as int,
            ),
            r matches Some(p) ==> {
                &&& p.offset == offset
                &&& p.line == 1 + newline_count(self.bytes(), offset as int)
                &&& 1 <= p.line <= self.line_starts_view().len()
                &&& self.line_starts_view()[p.line - 1] == line_begin(self.bytes(), offset as int)
                &&& line_begin(self.bytes(), offset as int) <= offset
                &&& (p.line == self.line_starts_view().len() || self.line_starts_view()[p.line as int]
                    > offset)
                &&& p.column == 1 + decode_utf8(
                    self.bytes().subrange(line_begin(self.bytes(), offset as int), offset as int),
                ).len()
            },
    {
        proof {
            use_type_invariant(self);
            self.lemma_table();
        }
        let text = self.text.as_str();
        let bytes = text.as_bytes();
        if offset > bytes.len() || !text.is_char_boundary(offset) {
            return None;
        }
        let ghost b = self.bytes();
        let ghost v = self.line_starts_view();
        let ghost vo = line_starts_upto(b, offset as int);
        proof {
            lemma_line_starts_shape(b, b.len() as int);
            lemma_line_starts_shape(b, offset as int);
            lemma_line_starts_prefix(b, offset as int, b.len() as int);
        }
        let mut lo: usize = 0;
        let mut hi: usize = self.line_starts.len();
        while lo < hi
            invariant
                lo <= hi <= self.line_starts@.len(),
                self.line_starts@.len() == v.len(),
                forall|i: int| 0 <= i < v.len() ==> self.line_starts@[i] as int == #[trigger] v[i],
                forall|i: int, j: int| 0 <= i < j < v.len() ==> v[i] < v[j],
                forall|i: int| 0 <= i < lo ==> #[trigger] v[i] <= offset,
                forall|i: int| hi <= i < v.len() ==> #[trigger] v[i] > offset,
            decreases hi - lo,
        {
            let mid = lo + (hi - lo) / 2;
            if self.line_starts[mid] <= offset {
                proof {
                    assert forall|i: int| 0 <= i < mid + 1 implies #[trigger] v[i] <= offset by {
                        if i < mid {
                            assert(v[i] < v[mid as int]);
                        }
                    }
                }
                lo = mid + 1;
            } else {
                proof {
                    assert forall|i: int| mid <= i < v.len() implies #[trigger] v[i] > offset by {
                        if i > mid {
                            assert(v[mid as int] < v[i]);
                        }
                    }
                }
                hi = mid;
            }
        }
        proof {
            let p = vo.len() as int;
            assert(p >= 1);
            assert(v[0] == 0);
            if lo < p {
                assert(v[lo as int] == vo[lo as int]);
            }
            if lo > p {
                assert(v[p] > offset);
            }
            assert(lo == p);
            assert(v[p - 1] == vo[p - 1]);
        }
        let line_index = lo - 1;
        let line_start = self.line_starts[line_index];
        proof {
            lemma_line_starts_are_boundaries(self.text_view(), line_index as int);
        }
        let piece = substr(text, line_start, offset);
        let chars = piece.unicode_len();
        proof {
            encode_utf8_decode_utf8(piece@);
            lemma_chars_le_bytes(piece@);
        }
        Some(Position { offset, line: line_index + 1, column: chars + 1 })
    }

    /// Builds the line table of `text`: offset 0, then the offset after
    /// every line feed.
    fn compute_line_starts(text: &str) -> (r: Vec<usize>)
        ensures
            r@.map_values(|v: usize| v as int) == line_starts_of(text.spec_bytes()),
    {
        let bytes = text.as_bytes();
        let ghost b = text.spec_bytes();
        let mut starts: Vec<usize> = Vec::new();
        starts.push(0);
        let mut index: usize = 0;
        while index < bytes.len()
            invariant
                bytes@ == b,
                index <= b.len(),
                starts@.map_values(|v: usize| v as int) == line_starts_upto(b, index as int),
            decreases b.len() - index,
        {
            if bytes[index] == 10 {
                starts.push(index + 1);
            }
            index = index + 1;
        }
        starts
    }
}

impl Clone for SourceText {
    fn clone(&self) -> (r: SourceText)
        ensures
            r.name_view() == self.name_view(),
            r.text_view() == self.text_view(),
    {
        proof { use_type_invariant(self); }
        let line_starts = self.line_starts.clone();
        proof {
            assert(line_starts@ =~= self.line_starts@);
        }
        SourceText { name: self.name.clone(), text: self.text.clone(), line_starts }
    }
}

} // verus!
