//! Text helpers used when turning page fragments into event records.
use vstd::prelude::*;

verus! {

/// The characters with the Unicode property White_Space, which both
/// `str::trim` and the regex class `\s` treat as whitespace.
pub open spec fn is_white_space(c: char) -> bool {
    ('\u{9}' <= c && c <= '\u{d}') || c == ' ' || c == '\u{85}' || c == '\u{a0}' || c
        == '\u{1680}' || ('\u{2000}' <= c && c <= '\u{200a}') || c == '\u{2028}' || c
        == '\u{2029}' || c == '\u{202f}' || c == '\u{205f}' || c == '\u{3000}'
}

/// `s` without its leading whitespace.
pub open spec fn trim_start(s: Seq<char>) -> Seq<char>
    decreases s.len(),
{
    if s.len() > 0 && is_white_space(s[0]) {
        trim_start(s.drop_first())
    } else {
        s
    }
}

/// `s` without its trailing whitespace.
pub open spec fn trim_end(s: Seq<char>) -> Seq<char>
    decreases s.len(),
{
    if s.len() > 0 && is_white_space(s.last()) {
        trim_end(s.drop_last())
    } else {
        s
    }
}

/// `s` without its leading and trailing whitespace.
pub open spec fn trimmed(s: Seq<char>) -> Seq<char> {
    trim_end(trim_start(s))
}

/// `s` with each maximal run of whitespace replaced by one space.
pub open spec fn collapsed(s: Seq<char>) -> Seq<char>
    decreases s.len(),
{
    if s.len() == 0 {
        Seq::empty()
    } else if !is_white_space(s.last()) {
        collapsed(s.drop_last()).push(s.last())
    } else if s.len() > 1 && is_white_space(s.drop_last().last()) {
        collapsed(s.drop_last())
    } else {
        collapsed(s.drop_last()).push(' ')
    }
}

/// Relies on std's `str::trim`: strips leading and trailing characters with
/// the White_Space property.
#[verifier::external_body]
pub(crate) fn trim_text(s: &str) -> (r: String)
    ensures
        r@ == trimmed(s@),
{
    s.trim().to_string()
}

/// Relies on the `regex` crate's `Regex::replace_all` with the pattern `\s+`
/// (`\s` being White_Space) and the replacement `" "`: each maximal run of
/// whitespace becomes one space.
#[verifier::external_body]
pub(crate) fn collapse_whitespace(s: &str) -> (r: String)
    ensures
        r@ == collapsed(s@),
{
    regex::Regex::new(r"\s+").unwrap().replace_all(s, " ").into_owned()
}

/// Each newline turned into a space.
pub open spec fn newlines_to_spaces(s: Seq<char>) -> Seq<char> {
    s.map_values(|c: char| if c == '\n' { ' ' } else { c })
}

/// Turns every newline of `s` into a space.
pub fn replace_newlines(s: &str) -> (r: String)
    ensures
        r@ == newlines_to_spaces(s@),
{
    let n = s.unicode_len();
    let mut out = String::new();
    let mut start: usize = 0;
    let mut i: usize = 0;
    while i < n
        invariant
            n == s@.len(),
            start <= i <= n,
            out@ == newlines_to_spaces(s@.subrange(0, start as int)),
            forall|k: int| start <= k < i ==> s@[k] != '\n',
        decreases n - i,
    {
        if s.get_char(i) == '\n' {
            let ghost prev = out@;
            out.append(s.substring_char(start, i));
            out.append(" ");
            proof {
                reveal_strlit(" ");
                assert(out@ =~= newlines_to_spaces(s@.subrange(0, i as int + 1)));
            }
            start = i + 1;
        }
        i += 1;
    }
    out.append(s.substring_char(start, n));
    assert(out@ =~= newlines_to_spaces(s@));
    out
}

/// The text runs of a node joined with single spaces.
pub open spec fn joined(runs: Seq<Seq<char>>) -> Seq<char>
    decreases runs.len(),
{
    if runs.len() == 0 {
        Seq::empty()
    } else if runs.len() == 1 {
        runs[0]
    } else {
        joined(runs.drop_last()) + seq![' '] + runs.last()
    }
}

/// Joins text runs with a single space between consecutive runs.
pub fn join_runs(runs: &Vec<String>) -> (r: String)
    ensures
        r@ == joined(runs.deep_view()),
{
    let mut out = String::new();
    let mut i: usize = 0;
    while i < runs.len()
        invariant
            i <= runs.len(),
            out@ == joined(runs.deep_view().take(i as int)),
        decreases runs.len() - i,
    {
        proof {
            let s = runs.deep_view();
            assert(s.take(i as int + 1).drop_last() == s.take(i as int));
            assert(s.take(i as int + 1).last() == runs[i as int]@);
        }
        if i > 0 {
            out.append(" ");
            proof { reveal_strlit(" "); }
        }
        out.append(runs[i].as_str());
        i += 1;
    }
    assert(runs.deep_view().take(runs.len() as int) == runs.deep_view());
    out
}

/// The word that marks a placeholder event, in lower case.
pub open spec fn marker() -> Seq<char> {
    seq!['t', 'e', 's', 't']
}

/// The same word in upper case.
pub open spec fn marker_upper() -> Seq<char> {
    seq!['T', 'E', 'S', 'T']
}

/// `s` holds the marker word at position `i`, ignoring ASCII case.
pub open spec fn marker_at(s: Seq<char>, i: int) -> bool {
    0 <= i && i + 4 <= s.len() && forall|k: int|
        0 <= k < 4 ==> (#[trigger] s[i + k] == marker()[k] || s[i + k] == marker_upper()[k])
}

/// `s` contains "test" in any mix of upper and lower case.
pub open spec fn contains_marker(s: Seq<char>) -> bool {
    exists|i: int| marker_at(s, i)
}

/// Whether a title contains "test" in any mix of upper and lower case.
pub fn contains_test(s: &str) -> (r: bool)
    ensures
        r == contains_marker(s@),
{
    let n = s.unicode_len();
    if n < 4 {
        return false;
    }
    let mut i: usize = 0;
    while i <= n - 4
        invariant
            n == s@.len(),
            4 <= n,
            i <= n - 3,
            forall|j: int| 0 <= j < i ==> !marker_at(s@, j),
        decreases n - i,
    {
        let a = s.get_char(i);
        let b = s.get_char(i + 1);
        let c = s.get_char(i + 2);
        let d = s.get_char(i + 3);
        if (a == 't' || a == 'T') && (b == 'e' || b == 'E') && (c == 's' || c == 'S') && (d == 't'
            || d == 'T') {
            assert(marker_at(s@, i as int)) by {
                assert forall|k: int| 0 <= k < 4 implies (#[trigger] s@[i + k] == marker()[k]
                    || s@[i + k] == marker_upper()[k]) by {
                    assert(k == 0 || k == 1 || k == 2 || k == 3);
                }
            }
            return true;
        }
        proof {
            if marker_at(s@, i as int) {
                assert(s@[i + 0] == marker()[0] || s@[i + 0] == marker_upper()[0]);
                assert(s@[i + 1] == marker()[1] || s@[i + 1] == marker_upper()[1]);
                assert(s@[i + 2] == marker()[2] || s@[i + 2] == marker_upper()[2]);
                assert(s@[i + 3] == marker()[3] || s@[i + 3] == marker_upper()[3]);
            }
        }
        i += 1;
    }
    proof {
        assert forall|j: int| !marker_at(s@, j) by {
            if 0 <= j && j + 4 <= s@.len() {
                assert(j < i);
            }
        }
    }
    false
}

} // verus!
