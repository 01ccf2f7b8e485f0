//! Names of the match report files.
use vstd::prelude::*;
use vstd::utf8::*;
use vstd::string::StringExecFns;
use vstd::string::StringSliceAdditionalSpecFns;
use crate::text::{
    char_at, char_offset, lemma_char_offset_end, lemma_char_offset_is_boundary,
    lemma_char_offset_monotone, lemma_char_offset_step, lemma_encode_injective,
    lemma_encode_subrange, substr, utf8_width,
};

verus! {

/// What a team-name character becomes in a file name: separators become
/// `_`, a few accented letters lose their accent, apostrophes disappear.
pub open spec fn file_name_char(c: char) -> Seq<char> {
    if c == ' ' || c == '/' || c == '\\' || c == '-' {
        seq!['_']
    } else if c == 'ø' {
        seq!['o']
    } else if c == 'Ø' {
        seq!['O']
    } else if c == 'ñ' {
        seq!['n']
    } else if c == 'ç' {
        seq!['c']
    } else if c == '\'' {
        Seq::empty()
    } else {
        seq![c]
    }
}

/// A team name made fit for a file name, character by character.
pub open spec fn file_name_part(name: Seq<char>) -> Seq<char>
    decreases name.len(),
{
    if name.len() == 0 {
        Seq::empty()
    } else {
        file_name_part(name.drop_last()) + file_name_char(name.last())
    }
}

/// The report file name of a match.
pub open spec fn report_file_name_of(home: Seq<char>, away: Seq<char>) -> Seq<char> {
    "IFA_Report_"@ + file_name_part(home) + "_vs_"@ + file_name_part(away) + ".md"@
}

/// The characters that never appear in a cleaned team name.
pub open spec fn is_replaced_char(c: char) -> bool {
    c == ' ' || c == '/' || c == '\\' || c == '-' || c == 'ø' || c == 'Ø' || c == 'ñ' || c
        == 'ç' || c == '\''
}

/// Cleaning a name works character by character: the cleaned name of `a`
/// followed by `b` is the cleaned `a` followed by the cleaned `b`.
pub proof fn law_file_name_part_concat(a: Seq<char>, b: Seq<char>)
    ensures
        file_name_part(a + b) == file_name_part(a) + file_name_part(b),
    decreases b.len(),
{
    if b.len() == 0 {
        assert(a + b =~= a);
        assert(file_name_part(b) =~= Seq::<char>::empty());
        assert(file_name_part(a) + file_name_part(b) =~= file_name_part(a));
    } else {
        law_file_name_part_concat(a, b.drop_last());
        assert((a + b).drop_last() =~= a + b.drop_last());
        assert((a + b).last() == b.last());
        assert(file_name_part(a) + file_name_part(b) =~= file_name_part(a) + file_name_part(
            b.drop_last(),
        ) + file_name_char(b.last()));
    }
}

/// The replacement table, one character appended at a time: a space, `/`,
/// `\` or `-` becomes `_`; `ø`, `Ø`, `ñ`, `ç` become `o`, `O`, `n`, `c`; an
/// apostrophe is dropped; any other character is kept.
pub proof fn law_file_name_char_table(a: Seq<char>, c: char)
    ensures
        (c == ' ' || c == '/' || c == '\\' || c == '-') ==> file_name_part(a.push(c))
            == file_name_part(a).push('_'),
        c == 'ø' ==> file_name_part(a.push(c)) == file_name_part(a).push('o'),
        c == 'Ø' ==> file_name_part(a.push(c)) == file_name_part(a).push('O'),
        c == 'ñ' ==> file_name_part(a.push(c)) == file_name_part(a).push('n'),
        c == 'ç' ==> file_name_part(a.push(c)) == file_name_part(a).push('c'),
        c == '\'' ==> file_name_part(a.push(c)) == file_name_part(a),
        !is_replaced_char(c) ==> file_name_part(a.push(c)) == file_name_part(a).push(c),
{
    assert(a.push(c).drop_last() =~= a);
    assert(file_name_part(a) + Seq::<char>::empty() =~= file_name_part(a));
    assert(file_name_part(a) + seq!['_'] =~= file_name_part(a).push('_'));
    assert(file_name_part(a) + seq!['o'] =~= file_name_part(a).push('o'));
    assert(file_name_part(a) + seq!['O'] =~= file_name_part(a).push('O'));
    assert(file_name_part(a) + seq!['n'] =~= file_name_part(a).push('n'));
    assert(file_name_part(a) + seq!['c'] =~= file_name_part(a).push('c'));
    assert(file_name_part(a) + seq![c] =~= file_name_part(a).push(c));
}

/// A cleaned name holds none of the replaced characters, is no longer than
/// the name, and a name without them is left as it is.
pub proof fn law_file_name_part_is_clean(name: Seq<char>)
    ensures
        forall|x: int|
            0 <= x < file_name_part(name).len() ==> !is_replaced_char(
                #[trigger] file_name_part(name)[x],
            ),
        file_name_part(name).len() <= name.len(),
        (forall|x: int| 0 <= x < name.len() ==> !is_replaced_char(#[trigger] name[x]))
            ==> file_name_part(name) == name,
    decreases name.len(),
{
    if name.len() > 0 {
        let init = name.drop_last();
        law_file_name_part_is_clean(init);
        let p = file_name_part(init);
        let q = file_name_char(name.last());
        assert(file_name_part(name) == p + q);
        assert forall|x: int| 0 <= x < file_name_part(name).len() implies !is_replaced_char(
            #[trigger] file_name_part(name)[x],
        ) by {
            if x >= p.len() {
                assert(file_name_part(name)[x] == q[x - p.len()]);
            } else {
                assert(file_name_part(name)[x] == p[x]);
            }
        }
        if forall|x: int| 0 <= x < name.len() ==> !is_replaced_char(#[trigger] name[x]) {
            assert forall|x: int| 0 <= x < init.len() implies !is_replaced_char(
                #[trigger] init[x],
            ) by {
                assert(init[x] == name[x]);
            }
            assert(!is_replaced_char(name[name.len() - 1]));
            assert(name =~= init.push(name.last()));
            assert(p + q =~= name);
        }
    }
}

/// A report file name is `IFA_Report_`, the cleaned home team, `_vs_`, the
/// cleaned away team and `.md`.
pub proof fn law_report_file_name_shape(home: Seq<char>, away: Seq<char>)
    ensures
        report_file_name_of(home, away).subrange(0, 11) == "IFA_Report_"@,
        report_file_name_of(home, away).subrange(11, 11 + file_name_part(home).len() as int)
            == file_name_part(home),
        report_file_name_of(home, away).len() == 11 + file_name_part(home).len() + 4
            + file_name_part(away).len() + 3,
        report_file_name_of(home, away).subrange(
            report_file_name_of(home, away).len() - 3,
            report_file_name_of(home, away).len() as int,
        ) == ".md"@,
{
    reveal_strlit("IFA_Report_");
    reveal_strlit("_vs_");
    reveal_strlit(".md");
    let r = report_file_name_of(home, away);
    let hp = file_name_part(home);
    assert(r.subrange(0, 11) =~= "IFA_Report_"@);
    assert(r.subrange(11, 11 + hp.len() as int) =~= hp);
    assert(r.subrange(r.len() - 3, r.len() as int) =~= ".md"@);
}

/// `name` with separators turned into `_`, `ø`, `Ø`, `ñ`, `ç` turned into
/// `o`, `O`, `n`, `c`, and apostrophes removed.
pub fn clean_name(name: &str) -> (r: String)
    ensures
        r@ == file_name_part(name@),
{
    let ghost t = name@;
    let mut out = String::new();
    let mut offset: usize = 0;
    let ghost mut k: int = 0;
    let total = name.as_bytes().len();
    proof {
        assert(t.take(0) =~= Seq::<char>::empty());
        assert(encode_utf8(Seq::<char>::empty()) =~= Seq::<u8>::empty());
        assert(t.take(0) =~= Seq::<char>::empty());
        reveal_strlit("_");
        reveal_strlit("o");
        reveal_strlit("O");
        reveal_strlit("n");
        reveal_strlit("c");
    }
    loop
        invariant
            t == name@,
            0 <= k <= t.len(),
            offset == char_offset(t, k),
            total == encode_utf8(t).len(),
            out@ == file_name_part(t.take(k)),
            "_"@ == seq!['_'],
            "o"@ == seq!['o'],
            "O"@ == seq!['O'],
            "n"@ == seq!['n'],
            "c"@ == seq!['c'],
        ensures
            k == t.len(),
            out@ == file_name_part(t.take(k)),
        decreases t.len() - k,
    {
        let c = match char_at(name, offset, Ghost(k)) {
            Some(c) => c,
            None => break,
        };
        proof {
            lemma_char_offset_step(t, k);
            lemma_char_offset_monotone(t, k + 1, t.len() as int);
            lemma_char_offset_end(t);
            assert(t.take(k + 1).drop_last() =~= t.take(k));
            assert(t.take(k + 1).last() == c);
        }
        let next = offset + utf8_width(c);
        match c {
            ' ' | '/' | '\\' | '-' => out.append("_"),
            'ø' => out.append("o"),
            'Ø' => out.append("O"),
            'ñ' => out.append("n"),
            'ç' => out.append("c"),
            '\'' => {},
            _ => {
                proof {
                    lemma_char_offset_is_boundary(t, k);
                    lemma_char_offset_is_boundary(t, k + 1);
                    lemma_encode_subrange(t, k, k + 1);
                }
                let piece = substr(name, offset, next);
                proof {
                    lemma_encode_injective(piece@, t.subrange(k, k + 1));
                    assert(t.subrange(k, k + 1) =~= seq![c]);
                }
                out.append(piece);
            },
        }
        offset = next;
        proof {
            k = k + 1;
        }
    }
    proof {
        assert(t.take(k) =~= t);
    }
    out
}

/// The name of the report file of a match:
/// `IFA_Report_<home>_vs_<away>.md` with both names cleaned.
pub fn report_file_name(home_team: &str, away_team: &str) -> (r: String)
    ensures
        r@ == report_file_name_of(home_team@, away_team@),
{
    let mut name = String::from_str("IFA_Report_");
    let home = clean_name(home_team);
    name.append(home.as_str());
    name.append("_vs_");
    let away = clean_name(away_team);
    name.append(away.as_str());
    name.append(".md");
    name
}

/// `bytes` begins with `prefix`.
pub open spec fn bytes_start_with(bytes: Seq<u8>, prefix: Seq<u8>) -> bool {
    prefix.len() <= bytes.len() && bytes.subrange(0, prefix.len() as int) == prefix
}

/// `bytes` ends with `suffix`.
pub open spec fn bytes_end_with(bytes: Seq<u8>, suffix: Seq<u8>) -> bool {
    suffix.len() <= bytes.len() && bytes.subrange(bytes.len() - suffix.len(), bytes.len() as int)
        == suffix
}

/// A scenario file: its name begins with `scenario_` and ends with `.json`
/// (compared on the UTF-8 bytes, as `str::starts_with` does).
pub open spec fn is_scenario_file_name(name: Seq<char>) -> bool {
    bytes_start_with(encode_utf8(name), encode_utf8("scenario_"@)) && bytes_end_with(
        encode_utf8(name),
        encode_utf8(".json"@),
    )
}

fn starts_with_bytes(bytes: &[u8], prefix: &[u8]) -> (r: bool)
    ensures
        r == bytes_start_with(bytes@, prefix@),
{
    if prefix.len() > bytes.len() {
        return false;
    }
    let mut i: usize = 0;
    while i < prefix.len()
        invariant
            prefix@.len() <= bytes@.len(),
            i <= prefix@.len(),
            forall|j: int| 0 <= j < i ==> bytes@[j] == prefix@[j],
        decreases prefix@.len() - i,
    {
        if bytes[i] != prefix[i] {
            proof {
                assert(bytes@.subrange(0, prefix@.len() as int)[i as int] != prefix@[i as int]);
            }
            return false;
        }
        i = i + 1;
    }
    proof {
        assert(bytes@.subrange(0, prefix@.len() as int) =~= prefix@);
    }
    true
}

fn ends_with_bytes(bytes: &[u8], suffix: &[u8]) -> (r: bool)
    ensures
        r == bytes_end_with(bytes@, suffix@),
{
    if suffix.len() > bytes.len() {
        return false;
    }
    let total = bytes.len();
    let start = total - suffix.len();
    let mut i: usize = 0;
    while i < suffix.len()
        invariant
            suffix@.len() <= bytes@.len(),
            total == bytes@.len(),
            start == bytes@.len() - suffix@.len(),
            i <= suffix@.len(),
            forall|j: int| 0 <= j < i ==> bytes@[start + j] == suffix@[j],
        decreases suffix@.len() - i,
    {
        if bytes[start + i] != suffix[i] {
            proof {
                assert(bytes@.subrange(start as int, bytes@.len() as int)[i as int]
                    != suffix@[i as int]);
            }
            return false;
        }
        i = i + 1;
    }
    proof {
        assert(bytes@.subrange(start as int, bytes@.len() as int) =~= suffix@);
    }
    true
}

/// True for the file names of scenario inputs: `scenario_*.json`.
pub fn is_scenario_file(name: &str) -> (r: bool)
    ensures
        r == is_scenario_file_name(name@),
{
    starts_with_bytes(name.as_bytes(), "scenario_".as_bytes()) && ends_with_bytes(
        name.as_bytes(),
        ".json".as_bytes(),
    )
}

} // verus!
