//! Lines of text and the whitespace at their ends.

use vstd::prelude::*;

verus! {

/// The contents of a list of lines.
pub open spec fn texts(lines: Seq<String>) -> Seq<Seq<char>> {
    Seq::new(lines.len(), |i: int| lines[i]@)
}

/// Whether `c` is whitespace: one of the characters that Unicode classes as
/// White_Space.
pub open spec fn is_space(c: char) -> bool {
    let code = c as u32;
    ||| 0x09 <= code <= 0x0D
    ||| code == 0x20
    ||| code == 0x85
    ||| code == 0xA0
    ||| code == 0x1680
    ||| 0x2000 <= code <= 0x200A
    ||| code == 0x2028
    ||| code == 0x2029
    ||| code == 0x202F
    ||| code == 0x205F
    ||| code == 0x3000
}

/// `s` without the whitespace at its end.
pub open spec fn trim_end(s: Seq<char>) -> Seq<char>
    decreases s.len(),
{
    if s.len() > 0 && is_space(s.last()) {
        trim_end(s.drop_last())
    } else {
        s
    }
}

/// `s` without the whitespace at its start.
pub open spec fn trim_start(s: Seq<char>) -> Seq<char>
    decreases s.len(),
{
    if s.len() > 0 && is_space(s.first()) {
        trim_start(s.drop_first())
    } else {
        s
    }
}

/// `s` without the whitespace at either end.
pub open spec fn trim(s: Seq<char>) -> Seq<char> {
    trim_start(trim_end(s))
}

/// Where the text of `s` ends: just after its last character that is not
/// whitespace.
pub open spec fn is_text_end(s: Seq<char>, end: int) -> bool {
    &&& 0 <= end <= s.len()
    &&& end > 0 ==> !is_space(s[end - 1])
    &&& forall|i: int| end <= i < s.len() ==> is_space(s[i])
}

/// Where the text of `s` starts: at its first character that is not
/// whitespace.
pub open spec fn is_text_start(s: Seq<char>, start: int) -> bool {
    &&& 0 <= start <= s.len()
    &&& start < s.len() ==> !is_space(s[start])
    &&& forall|i: int| 0 <= i < start ==> is_space(s[i])
}

/// Trimming the end cuts at the end of the text.
proof fn lemma_trim_end_cuts(s: Seq<char>, end: int)
    requires
        is_text_end(s, end),
    ensures
        trim_end(s) == s.subrange(0, end),
    decreases s.len(),
{
    if s.len() > 0 && is_space(s.last()) {
        lemma_trim_end_cuts(s.drop_last(), end);
    }
}

/// Trimming the start cuts at the start of the text.
proof fn lemma_trim_start_cuts(s: Seq<char>, start: int)
    requires
        is_text_start(s, start),
    ensures
        trim_start(s) == s.subrange(start, s.len() as int),
    decreases s.len(),
{
    if s.len() > 0 && is_space(s.first()) {
        lemma_trim_start_cuts(s.drop_first(), start - 1);
    }
}

/// Trimmed text has no whitespace at either end, and trimming it again
/// changes nothing.
pub proof fn law_trim_is_idempotent(s: Seq<char>)
    ensures
        trim(s).len() > 0 ==> !is_space(trim(s).first()) && !is_space(trim(s).last()),
        trim(trim(s)) == trim(s),
        trim_end(trim_end(s)) == trim_end(s),
    decreases s.len(),
{
    lemma_trimmed_end(s);
    lemma_trimmed_start(trim_end(s));
}

/// Text trimmed at its end does not end in whitespace.
proof fn lemma_trimmed_end(s: Seq<char>)
    ensures
        trim_end(s).len() > 0 ==> !is_space(trim_end(s).last()),
        trim_end(trim_end(s)) == trim_end(s),
        trim_end(s).len() <= s.len(),
    decreases s.len(),
{
    if s.len() > 0 && is_space(s.last()) {
        lemma_trimmed_end(s.drop_last());
    }
}

/// Text trimmed at its start does not start with whitespace and ends as it
/// ended before.
proof fn lemma_trimmed_start(s: Seq<char>)
    ensures
        trim_start(s).len() > 0 ==> !is_space(trim_start(s).first()),
        trim_start(s).len() > 0 ==> trim_start(s).last() == s.last(),
        trim_start(trim_start(s)) == trim_start(s),
        trim_start(s).len() <= s.len(),
    decreases s.len(),
{
    if s.len() > 0 && is_space(s.first()) {
        lemma_trimmed_start(s.drop_first());
    }
}

/// Asks `char::is_whitespace` of the standard library, which says whether
/// Unicode classes the character as White_Space; the contract spells that
/// class out as the list of its code points.
#[verifier::external_body]
fn is_whitespace(c: char) -> (space: bool)
    ensures
        space == is_space(c),
{
    c.is_whitespace()
}

/// The two ends of the text of `s`: the position of its first character that
/// is not whitespace and the position just after its last one. Both are zero
/// when there is no such character.
fn text_bounds(s: &str) -> (bounds: (usize, usize))
    ensures
        is_text_end(s@, bounds.1 as int),
        is_text_start(s@.subrange(0, bounds.1 as int), bounds.0 as int),
        bounds.0 <= bounds.1 <= s@.len(),
{
    let total: usize = s.unicode_len();
    let mut at: usize = 0;
    let mut start: usize = 0;
    let mut end: usize = 0;
    for c in it: s.chars()
        invariant
            it.seq() == s@,
            at == it.index(),
            total == s@.len(),
            start <= end <= at,
            is_text_end(s@.subrange(0, at as int), end as int),
            end > 0 ==> is_text_start(s@.subrange(0, end as int), start as int) && start < end,
            end == 0 ==> start == 0,
    {
        if !is_whitespace(c) {
            if end == 0 {
                start = at;
            }
            end = at + 1;
            assert(is_text_start(s@.subrange(0, end as int), start as int));
        }
        assert(is_text_end(s@.subrange(0, at + 1), end as int));
        at = at + 1;
    }
    assert(s@.subrange(0, at as int) =~= s@);
    (start, end)
}

/// `s` without the whitespace at its end.
pub fn trimmed_end(s: &str) -> (out: String)
    ensures
        out@ == trim_end(s@),
{
    let (_, end) = text_bounds(s);
    proof {
        lemma_trim_end_cuts(s@, end as int);
    }
    String::from_str(s.substring_char(0, end))
}

/// `s` without the whitespace at either end.
pub fn trimmed(s: &str) -> (out: String)
    ensures
        out@ == trim(s@),
{
    let (start, end) = text_bounds(s);
    proof {
        lemma_trim_end_cuts(s@, end as int);
        lemma_trim_start_cuts(s@.subrange(0, end as int), start as int);
    }
    String::from_str(s.substring_char(start, end))
}

} // verus!
