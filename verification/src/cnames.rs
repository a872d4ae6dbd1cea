//! The in-memory image of a canonical-names file: like the alias file, but
//! its entries are kept without validation.

use vstd::prelude::*;

mod line;

pub use line::Line;
pub use line::clean_cname;

use crate::aliases_file::candidates_of;
use crate::aliases_file::contains_string;
use crate::aliases_file::join_all;
use crate::aliases_file::lemma_candidates_take_step;
use crate::aliases_file::lemma_take_skip_empty;
use crate::aliases_file::str_views;
use crate::line::candidate_of;
use crate::text::all_no_newline;
use crate::text::join_lines;
use crate::text::lemma_split_line_then;
use crate::text::lemma_split_no_newline;
use crate::text::no_newline;
use crate::text::split_lines;

verus! {

/// The views of a sequence of canonical-name lines.
pub open spec fn cname_lines_of(ls: Seq<Line>) -> Seq<Seq<char>> {
    ls.map_values(|l: Line| l@)
}

/// Whether a removal with the given names keeps a line: lines without a
/// candidate always stay, and a candidate goes exactly when it is named.
pub open spec fn cname_keep_line(l: Seq<char>, names: Seq<Seq<char>>) -> bool {
    match candidate_of(l) {
        None => true,
        Some(c) => !names.contains(c),
    }
}

/// The lines a removal with the given names retains, in file order.
pub open spec fn cname_retained_lines(lines: Seq<Seq<char>>, names: Seq<Seq<char>>) -> Seq<
    Seq<char>,
>
    decreases lines.len(),
{
    if lines.len() == 0 {
        Seq::empty()
    } else {
        let rest = cname_retained_lines(lines.drop_first(), names);
        if cname_keep_line(lines[0], names) {
            seq![lines[0]] + rest
        } else {
            rest
        }
    }
}

/// A canonical-names file held in memory: its name and its lines, in
/// on-disk order.
#[derive(Debug)]
pub struct CNamesFile {
    file_name: String,
    lines: Vec<Line>,
}

impl CNamesFile {
    /// The name of the backing file.
    pub closed spec fn file_name_spec(&self) -> Seq<char> {
        self.file_name@
    }

    /// The lines of the file, in on-disk order.
    pub closed spec fn lines_spec(&self) -> Seq<Seq<char>> {
        cname_lines_of(self.lines@)
    }

    /// Build the in-memory image of a canonical-names file from its name
    /// and its current contents.
    pub fn from_text(file_name: &str, text: &str) -> (r: CNamesFile)
        ensures
            r.file_name_spec() == file_name@,
            r.lines_spec() == split_lines(text@),
            all_no_newline(r.lines_spec()),
    {
        let n = text.unicode_len();
        let mut lines: Vec<Line> = Vec::new();
        let mut start: usize = 0;
        let mut i: usize = 0;
        proof {
            assert(text@.skip(0) =~= text@);
            assert(cname_lines_of(lines@) =~~= Seq::<Seq<char>>::empty());
            assert(cname_lines_of(lines@) + split_lines(text@.skip(0)) =~~= split_lines(text@));
        }
        while i < n
            invariant
                n == text@.len(),
                0 <= start <= i <= n,
                forall|j: int| start <= j < i ==> #[trigger] text@[j] != '\n',
                split_lines(text@) == cname_lines_of(lines@) + split_lines(
                    text@.skip(start as int),
                ),
                all_no_newline(cname_lines_of(lines@)),
            decreases n - i,
        {
            if text.get_char(i) == '\n' {
                let ghost prev = lines@;
                let ghost chunk = text@.subrange(start as int, i as int);
                let piece = text.substring_char(start, i);
                lines.push(Line::new(piece.to_owned()));
                proof {
                    assert(text@.skip(start as int) =~= chunk + seq!['\n'] + text@.skip(
                        i as int + 1));
                    lemma_split_line_then(chunk, text@.skip(i as int + 1));
                    assert(cname_lines_of(lines@) =~~= cname_lines_of(prev) + seq![chunk]);
                    assert(split_lines(text@) =~~= cname_lines_of(lines@) + split_lines(
                        text@.skip(i as int + 1)));
                    assert(no_newline(chunk));
                    assert forall|k: int|
                        0 <= k < cname_lines_of(lines@).len() implies no_newline(
                        cname_lines_of(lines@)[k]) by {
                        if k < cname_lines_of(prev).len() {
                            assert(cname_lines_of(lines@)[k] == cname_lines_of(prev)[k]);
                        } else {
                            assert(cname_lines_of(lines@)[k] == chunk);
                        }
                    }
                }
                start = i + 1;
            }
            i = i + 1;
        }
        if start < n {
            let ghost prev = lines@;
            let ghost chunk = text@.subrange(start as int, n as int);
            let piece = text.substring_char(start, n);
            lines.push(Line::new(piece.to_owned()));
            proof {
                assert(text@.skip(start as int) =~= chunk);
                assert(no_newline(chunk));
                lemma_split_no_newline(chunk);
                assert(cname_lines_of(lines@) =~~= cname_lines_of(prev) + seq![chunk]);
                assert(split_lines(text@) =~~= cname_lines_of(lines@));
                assert forall|k: int|
                    0 <= k < cname_lines_of(lines@).len() implies no_newline(
                    cname_lines_of(lines@)[k]) by {
                    if k < cname_lines_of(prev).len() {
                        assert(cname_lines_of(lines@)[k] == cname_lines_of(prev)[k]);
                    } else {
                        assert(cname_lines_of(lines@)[k] == chunk);
                    }
                }
            }
        } else {
            proof {
                assert(text@.skip(start as int).len() == 0);
                assert(split_lines(text@) =~~= cname_lines_of(lines@));
            }
        }
        CNamesFile { file_name: file_name.to_owned(), lines }
    }

    /// Every canonical-name candidate in the file, in file order.
    pub fn cnames(&self) -> (r: Vec<String>)
        ensures
            str_views(r@) == candidates_of(self.lines_spec()),
    {
        let ghost whole = cname_lines_of(self.lines@);
        let mut out: Vec<String> = Vec::new();
        let mut i: usize = 0;
        proof {
            lemma_take_skip_empty(whole);
            assert(str_views(out@) =~~= Seq::<Seq<char>>::empty());
        }
        while i < self.lines.len()
            invariant
                whole == cname_lines_of(self.lines@),
                0 <= i <= self.lines@.len(),
                str_views(out@) == candidates_of(whole.take(i as int)),
            decreases self.lines@.len() - i,
        {
            proof {
                lemma_candidates_take_step(whole, i as int);
            }
            let ghost prev = out@;
            match self.lines[i].cname() {
                Some(c) => {
                    out.push(c.to_owned());
                    proof {
                        assert(str_views(out@) =~~= str_views(prev) + seq![out@.last()@]);
                    }
                },
                None => {},
            }
            proof {
                assert(str_views(out@) =~~= candidates_of(whole.take(i as int + 1)));
            }
            i = i + 1;
        }
        proof {
            assert(whole.take(whole.len() as int) =~~= whole);
        }
        out
    }

    /// The text that appends a batch of canonical names to the backing
    /// file: each on its own line, in the order given.
    pub fn append(&self, cnames: &Vec<String>) -> (r: String)
        ensures
            r@ == join_lines(str_views(cnames@)),
    {
        join_all(cnames)
    }

    /// The whole text a truncating rewrite leaves in the backing file:
    /// every line whose candidate is named in the batch is dropped, every
    /// other line is kept verbatim, in original order.
    pub fn remove(&self, cnames: &Vec<String>) -> (r: String)
        ensures
            r@ == join_lines(cname_retained_lines(self.lines_spec(), str_views(cnames@))),
    {
        let ghost whole = cname_lines_of(self.lines@);
        let ghost names = str_views(cnames@);
        let mut out = String::new();
        let mut i: usize = 0;
        proof {
            assert(whole.skip(0) =~~= whole);
            assert(out@ + join_lines(cname_retained_lines(whole.skip(0), names)) =~= join_lines(
                cname_retained_lines(whole, names)));
        }
        while i < self.lines.len()
            invariant
                whole == cname_lines_of(self.lines@),
                names == str_views(cnames@),
                0 <= i <= self.lines@.len(),
                join_lines(cname_retained_lines(whole, names)) == out@ + join_lines(
                    cname_retained_lines(whole.skip(i as int), names),
                ),
            decreases self.lines@.len() - i,
        {
            let ghost rem = whole.skip(i as int);
            proof {
                assert(rem[0] == whole[i as int]);
                assert(rem.drop_first() =~~= whole.skip(i as int + 1));
            }
            let keep = match self.lines[i].cname() {
                None => true,
                Some(c) => !contains_string(cnames, &c.to_owned()),
            };
            proof {
                assert(keep == cname_keep_line(whole[i as int], names));
            }
            if keep {
                let ghost prev = out@;
                out.append(self.lines[i].text());
                out.append("\n");
                proof {
                    reveal_strlit("\n");
                    let kept = cname_retained_lines(whole.skip(i as int + 1), names);
                    assert((seq![rem[0]] + kept).drop_first() =~~= kept);
                    assert(join_lines(seq![rem[0]] + kept) =~= rem[0] + seq!['\n'] + join_lines(
                        kept));
                    assert(out@ =~= prev + whole[i as int] + seq!['\n']);
                    assert(out@ + join_lines(kept) =~= prev + join_lines(
                        cname_retained_lines(rem, names)));
                }
            }
            i = i + 1;
        }
        proof {
            assert(whole.skip(whole.len() as int).len() == 0);
            assert(out@ + join_lines(cname_retained_lines(whole.skip(whole.len() as int), names))
                =~= out@);
        }
        out
    }
}

} // verus!
