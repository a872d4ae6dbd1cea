//! One physical line of the alias file, and the extraction of its optional
//! alias candidate.

use vstd::prelude::*;

use crate::alias::Alias;
use crate::alias::is_name_char;
use crate::alias::local_suffix;
use crate::alias::new_alias;
use crate::alias::valid_alias;
use crate::text::cleaned;
use crate::text::is_ws;
use crate::text::lemma_hash_idx_at;
use crate::text::lemma_ws_prefix_at;
use crate::text::lemma_ws_suffix_at;
use crate::text::no_newline;
use crate::text::strip_comment;

verus! {

/// A line's content, if it has any: everything from the first `'#'` on is
/// discarded, surrounding spaces and tabs are trimmed, and a line left empty
/// yields `None`.
pub fn clean_alias(raw_alias: &str) -> (r: Option<&str>)
    ensures
        r is Some <==> cleaned(raw_alias@).len() > 0,
        r matches Some(t) ==> t@ == cleaned(raw_alias@),
{
    let n = raw_alias.unicode_len();
    // Find the first '#', if any: content ends there.
    let mut h: usize = 0;
    while h < n && raw_alias.get_char(h) != '#'
        invariant
            n == raw_alias@.len(),
            0 <= h <= n,
            forall|j: int| 0 <= j < h ==> #[trigger] raw_alias@[j] != '#',
        decreases n - h,
    {
        h = h + 1;
    }
    proof {
        lemma_hash_idx_at(raw_alias@, h as int);
        assert(strip_comment(raw_alias@) =~= raw_alias@.subrange(0, h as int));
    }
    // Skip leading whitespace of the remaining content.
    let mut a: usize = 0;
    while a < h && is_ws_char(raw_alias.get_char(a))
        invariant
            n == raw_alias@.len(),
            0 <= a <= h <= n,
            forall|j: int| 0 <= j < a ==> is_ws(#[trigger] raw_alias@[j]),
        decreases h - a,
    {
        a = a + 1;
    }
    let ghost strip = strip_comment(raw_alias@);
    if a == h {
        // Nothing but whitespace (or nothing at all) before the comment.
        proof {
            assert(forall|j: int| 0 <= j < strip.len() ==> is_ws(#[trigger] strip[j]));
            lemma_ws_prefix_at(strip, strip.len() as int);
        }
        return None;
    }
    proof {
        assert(forall|j: int| 0 <= j < a ==> is_ws(#[trigger] strip[j]));
        assert(!is_ws(strip[a as int]));
        lemma_ws_prefix_at(strip, a as int);
    }
    // Drop trailing whitespace of the content.
    let mut b: usize = h;
    while b > a && is_ws_char(raw_alias.get_char(b - 1))
        invariant
            n == raw_alias@.len(),
            0 <= a < b <= h <= n,
            !is_ws(raw_alias@[a as int]),
            forall|j: int| b <= j < h ==> is_ws(#[trigger] raw_alias@[j]),
        decreases b,
    {
        b = b - 1;
    }
    proof {
        assert(forall|j: int| b <= j < strip.len() ==> is_ws(#[trigger] strip[j]));
        assert(!is_ws(strip[b - 1]));
        lemma_ws_suffix_at(strip, strip.len() - b);
        assert(strip.subrange(a as int, b as int) =~= raw_alias@.subrange(a as int, b as int));
    }
    Some(raw_alias.substring_char(a, b))
}

/// Decide whether a character is a space or a tab.
fn is_ws_char(c: char) -> (r: bool)
    ensures
        r == is_ws(c),
{
    c == ' ' || c == '\t'
}

/// One physical line of the alias file, kept verbatim.
#[derive(Debug)]
pub struct Line {
    line: String,
}

impl View for Line {
    type V = Seq<char>;

    closed spec fn view(&self) -> Seq<char> {
        self.line@
    }
}

/// The alias candidate a line yields, if any: its cleaned content.
pub open spec fn candidate_of(l: Seq<char>) -> Option<Seq<char>> {
    if cleaned(l).len() == 0 {
        None
    } else {
        Some(cleaned(l))
    }
}

impl Line {
    /// Wrap one raw line.
    pub fn new(line: String) -> (r: Line)
        ensures
            r@ == line@,
    {
        Line { line }
    }

    /// The line's alias candidate: `None` for a blank or comment-only line,
    /// otherwise the cleaned content classified against the grammar.
    pub fn alias(&self) -> (r: Option<Alias>)
        ensures
            r is Some <==> candidate_of(self@) is Some,
            r matches Some(Ok(a)) ==> candidate_of(self@) == Some(a@) && valid_alias(a@),
            r matches Some(Err(a)) ==> candidate_of(self@) == Some(a@) && !valid_alias(a@),
    {
        match clean_alias(self.line.as_str()) {
            None => None,
            Some(raw) => Some(new_alias(raw)),
        }
    }

    /// The raw text of the line, verbatim.
    pub fn text(&self) -> (r: &str)
        ensures
            r@ == self@,
    {
        self.line.as_str()
    }
}

/// A valid alias passes through line cleaning untouched: none of its
/// characters is a comment mark, whitespace, or a line break, so a line
/// holding exactly a valid alias yields that alias as its candidate.
pub proof fn lemma_valid_alias_cleaned(c: Seq<char>)
    requires
        valid_alias(c),
    ensures
        cleaned(c) == c,
        candidate_of(c) == Some(c),
        no_newline(c),
{
    assert forall|i: int| 0 <= i < c.len() implies c[i] != '#' && !is_ws(c[i]) && c[i]
        != '\n' by {
        if i < c.len() - 6 {
            let nm = c.subrange(0, c.len() - 6);
            assert(nm[i] == c[i]);
            assert(is_name_char(nm[i]));
        } else {
            let suf = c.subrange(c.len() - 6, c.len() as int);
            assert(suf == local_suffix());
            assert(suf[i - (c.len() - 6)] == c[i]);
        }
    }
    lemma_hash_idx_at(c, c.len() as int);
    assert(strip_comment(c) =~= c);
    lemma_ws_prefix_at(c, 0);
    lemma_ws_suffix_at(c, 0);
    assert(cleaned(c) =~= c);
}

} // verus!
