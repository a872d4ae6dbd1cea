//! One physical line of a canonical-names file.

use vstd::prelude::*;

use crate::line::candidate_of;
use crate::text::cleaned;

verus! {

/// A line's content, if it has any: comment stripped, whitespace trimmed,
/// `None` when nothing is left. Canonical names are not validated further.
pub fn clean_cname(raw_cname: &str) -> (r: Option<&str>)
    ensures
        r is Some <==> cleaned(raw_cname@).len() > 0,
        r matches Some(t) ==> t@ == cleaned(raw_cname@),
{
    crate::line::clean_alias(raw_cname)
}

/// One physical line of the canonical-names file, kept verbatim.
#[derive(Debug)]
pub struct Line {
    line: String,
}

impl View for Line {
    type V = Seq<char>;

    closed spec fn view(&self) -> Seq<char> {
        self.line@
    }
}

impl Line {
    /// Wrap one raw line.
    pub fn new(line: String) -> (r: Line)
        ensures
            r@ == line@,
    {
        Line { line }
    }

    /// The line's canonical-name candidate: its cleaned content, if any.
    pub fn cname(&self) -> (r: Option<&str>)
        ensures
            r is Some <==> candidate_of(self@) is Some,
            r matches Some(t) ==> candidate_of(self@) == Some(t@),
    {
        clean_cname(self.line.as_str())
    }

    /// The raw text of the line, verbatim.
    pub fn text(&self) -> (r: &str)
        ensures
            r@ == self@,
    {
        self.line.as_str()
    }
}

} // verus!
