//! The in-memory image of an alias file: an ordered sequence of lines,
//! queries over the alias candidates they yield, and the computation of the
//! texts that the mutating operations write back to disk.
//!
//! Reading and writing the file itself is the caller's: loading parses the
//! file's contents, `append` returns the text to write in append mode, and
//! `remove` returns the full text for a truncating rewrite.

use vstd::prelude::*;

use crate::alias::Alias;
use crate::alias::all_valid;
use crate::alias::first_invalid;
use crate::alias::valid_alias;
use crate::alias::validate_aliases;
use crate::error::ErrorWrapper;
use crate::line::Line;
use crate::line::candidate_of;
use crate::line::lemma_valid_alias_cleaned;
use crate::text::all_no_newline;
use crate::text::no_newline;
use crate::text::join_lines;
use crate::text::lemma_split_line_then;
use crate::text::lemma_split_concat;
use crate::text::lemma_split_join;
use crate::text::lemma_split_no_newline;
use crate::text::split_lines;

verus! {

/// The views of a sequence of lines.
pub open spec fn lines_of(ls: Seq<Line>) -> Seq<Seq<char>> {
    ls.map_values(|l: Line| l@)
}

/// The views of a sequence of strings.
pub open spec fn str_views(ss: Seq<String>) -> Seq<Seq<char>> {
    ss.map_values(|s: String| s@)
}

/// Every alias candidate the lines yield, valid and invalid alike, in file
/// order.
pub open spec fn candidates_of(lines: Seq<Seq<char>>) -> Seq<Seq<char>>
    decreases lines.len(),
{
    if lines.len() == 0 {
        Seq::empty()
    } else {
        let rest = candidates_of(lines.drop_first());
        match candidate_of(lines[0]) {
            Some(c) => seq![c] + rest,
            None => rest,
        }
    }
}

/// The valid aliases the lines yield, in file order.
pub open spec fn valid_aliases_of(lines: Seq<Seq<char>>) -> Seq<Seq<char>>
    decreases lines.len(),
{
    if lines.len() == 0 {
        Seq::empty()
    } else {
        let rest = valid_aliases_of(lines.drop_first());
        match candidate_of(lines[0]) {
            Some(c) => if valid_alias(c) {
                seq![c] + rest
            } else {
                rest
            },
            None => rest,
        }
    }
}

/// The invalid alias candidates the lines yield, in file order.
pub open spec fn invalid_aliases_of(lines: Seq<Seq<char>>) -> Seq<Seq<char>>
    decreases lines.len(),
{
    if lines.len() == 0 {
        Seq::empty()
    } else {
        let rest = invalid_aliases_of(lines.drop_first());
        match candidate_of(lines[0]) {
            Some(c) => if !valid_alias(c) {
                seq![c] + rest
            } else {
                rest
            },
            None => rest,
        }
    }
}

/// Whether a removal with the given names keeps a line: blank and
/// comment-only lines always stay, invalid candidates always go, and a valid
/// alias goes exactly when it is named.
pub open spec fn keep_line(l: Seq<char>, names: Seq<Seq<char>>) -> bool {
    match candidate_of(l) {
        None => true,
        Some(c) => valid_alias(c) && !names.contains(c),
    }
}

/// The lines a removal with the given names retains, in file order.
pub open spec fn retained_lines(lines: Seq<Seq<char>>, names: Seq<Seq<char>>) -> Seq<Seq<char>>
    decreases lines.len(),
{
    if lines.len() == 0 {
        Seq::empty()
    } else {
        let rest = retained_lines(lines.drop_first(), names);
        if keep_line(lines[0], names) {
            seq![lines[0]] + rest
        } else {
            rest
        }
    }
}

/// An alias file held in memory: its name and its lines, in on-disk order.
#[derive(Debug)]
pub struct AliasesFile {
    file_name: String,
    lines: Vec<Line>,
}

impl AliasesFile {
    /// The name of the backing file.
    pub closed spec fn file_name_spec(&self) -> Seq<char> {
        self.file_name@
    }

    /// The lines of the file, in on-disk order.
    pub closed spec fn lines_spec(&self) -> Seq<Seq<char>> {
        lines_of(self.lines@)
    }

    /// No held line contains a line break: what loading from a split text
    /// guarantees.
    pub open spec fn wf(&self) -> bool {
        all_no_newline(self.lines_spec())
    }

    /// Build the in-memory image of an alias file from its name and its
    /// current contents. With `allow_invalid` false, a file whose lines
    /// yield any invalid candidate is rejected whole, naming the first
    /// invalid entry in file order.
    pub fn from_text(file_name: &str, text: &str, allow_invalid: bool) -> (r: Result<
        AliasesFile,
        ErrorWrapper,
    >)
        ensures
            r is Ok <==> (allow_invalid || invalid_aliases_of(split_lines(text@)).len() == 0),
            r matches Ok(f) ==> {
                &&& f.file_name_spec() == file_name@
                &&& f.lines_spec() == split_lines(text@)
                &&& f.wf()
            },
            r matches Err(e) ==> e matches ErrorWrapper::InvalidAliasFileError {
                file_name: fname,
                alias,
            } && fname@ == file_name@ && alias@ == invalid_aliases_of(split_lines(text@))[0],
    {
        let n = text.unicode_len();
        let mut lines: Vec<Line> = Vec::new();
        let mut start: usize = 0;
        let mut i: usize = 0;
        proof {
            assert(text@.skip(0) =~= text@);
            assert(lines_of(lines@) =~~= Seq::<Seq<char>>::empty());
            assert(lines_of(lines@) + split_lines(text@.skip(0)) =~~= split_lines(text@));
        }
        while i < n
            invariant
                n == text@.len(),
                0 <= start <= i <= n,
                forall|j: int| start <= j < i ==> #[trigger] text@[j] != '\n',
                split_lines(text@) == lines_of(lines@) + split_lines(text@.skip(start as int)),
                all_no_newline(lines_of(lines@)),
            decreases n - i,
        {
            if text.get_char(i) == '\n' {
                let ghost prev = lines@;
                let ghost chunk = text@.subrange(start as int, i as int);
                let piece = text.substring_char(start, i);
                lines.push(Line::new(piece.to_owned()));
                proof {
                    assert(text@.skip(start as int) =~= chunk + seq!['\n'] + text@.skip(
                        i as int + 1));
                    lemma_split_line_then(chunk, text@.skip(i as int + 1));
                    assert(lines_of(lines@) =~~= lines_of(prev) + seq![chunk]);
                    assert(split_lines(text@) =~~= lines_of(lines@) + split_lines(text@.skip(
                        i as int + 1)));
                    assert(no_newline(chunk));
                    assert forall|k: int|
                        0 <= k < lines_of(lines@).len() implies no_newline(
                        lines_of(lines@)[k]) by {
                        if k < lines_of(prev).len() {
                            assert(lines_of(lines@)[k] == lines_of(prev)[k]);
                        } else {
                            assert(lines_of(lines@)[k] == chunk);
                        }
                    }
                }
                start = i + 1;
            }
            i = i + 1;
        }
        if start < n {
            let ghost prev = lines@;
            let ghost chunk = text@.subrange(start as int, n as int);
            let piece = text.substring_char(start, n);
            lines.push(Line::new(piece.to_owned()));
            proof {
                assert(text@.skip(start as int) =~= chunk);
                assert(no_newline(chunk));
                lemma_split_no_newline(chunk);
                assert(lines_of(lines@) =~~= lines_of(prev) + seq![chunk]);
                assert(split_lines(text@) =~~= lines_of(lines@));
                assert forall|k: int|
                    0 <= k < lines_of(lines@).len() implies no_newline(
                    lines_of(lines@)[k]) by {
                    if k < lines_of(prev).len() {
                        assert(lines_of(lines@)[k] == lines_of(prev)[k]);
                    } else {
                        assert(lines_of(lines@)[k] == chunk);
                    }
                }
            }
        } else {
            proof {
                assert(text@.skip(start as int).len() == 0);
                assert(split_lines(text@) =~~= lines_of(lines@));
            }
        }
        let file = AliasesFile { file_name: file_name.to_owned(), lines };
        if allow_invalid || file.all_aliases_are_valid() {
            Ok(file)
        } else {
            let invalid = file.invalid_aliases();
            Err(ErrorWrapper::new_invalid_alias_file_error(file_name, invalid[0].as_str()))
        }
    }

    /// Every alias candidate in the file, valid and invalid alike, in file
    /// order.
    pub fn all_aliases(&self) -> (r: Vec<Alias>)
        ensures
            r@.len() == candidates_of(self.lines_spec()).len(),
            forall|i: int| 0 <= i < r@.len() ==> {
                let c = candidates_of(self.lines_spec())[i];
                &&& (#[trigger] r@[i]) is Ok <==> valid_alias(c)
                &&& (r@[i] matches Ok(a) ==> a@ == c)
                &&& (r@[i] matches Err(a) ==> a@ == c)
            },
    {
        let ghost whole = lines_of(self.lines@);
        let mut out: Vec<Alias> = Vec::new();
        let mut i: usize = 0;
        proof {
            lemma_take_skip_empty(whole);
        }
        while i < self.lines.len()
            invariant
                whole == lines_of(self.lines@),
                0 <= i <= self.lines@.len(),
                candidates_of(whole) == candidates_of(whole.take(i as int)) + candidates_of(
                    whole.skip(i as int)),
                out@.len() == candidates_of(whole.take(i as int)).len(),
                forall|k: int| 0 <= k < out@.len() ==> {
                    let c = candidates_of(whole.take(i as int))[k];
                    &&& (#[trigger] out@[k]) is Ok <==> valid_alias(c)
                    &&& (out@[k] matches Ok(a) ==> a@ == c)
                    &&& (out@[k] matches Err(a) ==> a@ == c)
                },
            decreases self.lines@.len() - i,
        {
            proof {
                lemma_candidates_take_step(whole, i as int);
            }
            match self.lines[i].alias() {
                None => {},
                Some(a) => {
                    out.push(a);
                },
            }
            i = i + 1;
        }
        proof {
            assert(whole.take(whole.len() as int) =~~= whole);
        }
        out
    }

    /// The valid aliases in the file, in file order.
    pub fn aliases(&self) -> (r: Vec<String>)
        ensures
            str_views(r@) == valid_aliases_of(self.lines_spec()),
    {
        let ghost whole = lines_of(self.lines@);
        let mut out: Vec<String> = Vec::new();
        let mut i: usize = 0;
        proof {
            lemma_take_skip_empty(whole);
            assert(str_views(out@) =~~= Seq::<Seq<char>>::empty());
        }
        while i < self.lines.len()
            invariant
                whole == lines_of(self.lines@),
                0 <= i <= self.lines@.len(),
                str_views(out@) == valid_aliases_of(whole.take(i as int)),
            decreases self.lines@.len() - i,
        {
            proof {
                lemma_candidates_take_step(whole, i as int);
            }
            let ghost prev = out@;
            match self.lines[i].alias() {
                Some(Ok(a)) => {
                    out.push(a);
                    proof {
                        assert(str_views(out@) =~~= str_views(prev) + seq![out@.last()@]);
                    }
                },
                _ => {},
            }
            proof {
                assert(str_views(out@) =~~= valid_aliases_of(whole.take(i as int + 1)));
            }
            i = i + 1;
        }
        proof {
            assert(whole.take(whole.len() as int) =~~= whole);
        }
        out
    }

    /// The invalid alias candidates in the file, in file order.
    pub fn invalid_aliases(&self) -> (r: Vec<String>)
        ensures
            str_views(r@) == invalid_aliases_of(self.lines_spec()),
    {
        let ghost whole = lines_of(self.lines@);
        let mut out: Vec<String> = Vec::new();
        let mut i: usize = 0;
        proof {
            lemma_take_skip_empty(whole);
            assert(str_views(out@) =~~= Seq::<Seq<char>>::empty());
        }
        while i < self.lines.len()
            invariant
                whole == lines_of(self.lines@),
                0 <= i <= self.lines@.len(),
                str_views(out@) == invalid_aliases_of(whole.take(i as int)),
            decreases self.lines@.len() - i,
        {
            proof {
                lemma_candidates_take_step(whole, i as int);
            }
            let ghost prev = out@;
            match self.lines[i].alias() {
                Some(Err(a)) => {
                    out.push(a);
                    proof {
                        assert(str_views(out@) =~~= str_views(prev) + seq![out@.last()@]);
                    }
                },
                _ => {},
            }
            proof {
                assert(str_views(out@) =~~= invalid_aliases_of(whole.take(i as int + 1)));
            }
            i = i + 1;
        }
        proof {
            assert(whole.take(whole.len() as int) =~~= whole);
        }
        out
    }

    /// The number of valid aliases in the file.
    pub fn alias_count(&self) -> (r: usize)
        ensures
            r == valid_aliases_of(self.lines_spec()).len(),
    {
        self.aliases().len()
    }

    /// True when no line yields an invalid candidate.
    pub fn all_aliases_are_valid(&self) -> (r: bool)
        ensures
            r == (invalid_aliases_of(self.lines_spec()).len() == 0),
    {
        self.invalid_aliases().is_empty()
    }

    /// The lines held, in on-disk order.
    pub fn lines(&self) -> (r: &Vec<Line>)
        ensures
            lines_of(r@) == self.lines_spec(),
    {
        &self.lines
    }

    /// The name of the backing file.
    pub fn file_name(&self) -> (r: &str)
        ensures
            r@ == self.file_name_spec(),
    {
        self.file_name.as_str()
    }

    /// Validate a batch of aliases and compute the text that appends them to
    /// the backing file: each alias on its own line, in the order given. If
    /// any alias is invalid, nothing is to be written and the first invalid
    /// one is reported; the in-memory line list is never patched - callers
    /// wanting a consistent view reload the file.
    pub fn append(&self, aliases: &Vec<String>) -> (r: Result<String, ErrorWrapper>)
        ensures
            r is Ok <==> all_valid(aliases@),
            r matches Ok(t) ==> t@ == join_lines(str_views(aliases@)),
            r matches Err(e) ==> e matches ErrorWrapper::InvalidAliasError { alias } && alias@
                == aliases@[first_invalid(aliases@)]@,
    {
        match validate_aliases(aliases) {
            Err(e) => {
                return Err(e);
            },
            Ok(_) => {},
        }
        Ok(join_all(aliases))
    }

    /// Validate the batch (unless forced) and compute the whole text that a
    /// truncating rewrite leaves in the backing file: every line whose
    /// candidate is an invalid alias is dropped, a valid alias is dropped
    /// exactly when named in the batch, and every other line - blank or
    /// comment-only - is kept verbatim, all in original order.
    pub fn remove(&self, aliases: &Vec<String>, force: bool) -> (r: Result<String, ErrorWrapper>)
        ensures
            r is Ok <==> (force || all_valid(aliases@)),
            r matches Ok(t) ==> t@ == join_lines(
                retained_lines(self.lines_spec(), str_views(aliases@)),
            ),
            r matches Err(e) ==> e matches ErrorWrapper::InvalidAliasError { alias } && alias@
                == aliases@[first_invalid(aliases@)]@,
    {
        if !force {
            match validate_aliases(aliases) {
                Err(e) => {
                    return Err(e);
                },
                Ok(_) => {},
            }
        }
        let ghost whole = lines_of(self.lines@);
        let ghost names = str_views(aliases@);
        let mut out = String::new();
        let mut i: usize = 0;
        proof {
            assert(whole.skip(0) =~~= whole);
            assert(out@ + join_lines(retained_lines(whole.skip(0), names)) =~= join_lines(
                retained_lines(whole, names)));
        }
        while i < self.lines.len()
            invariant
                whole == lines_of(self.lines@),
                names == str_views(aliases@),
                0 <= i <= self.lines@.len(),
                join_lines(retained_lines(whole, names)) == out@ + join_lines(
                    retained_lines(whole.skip(i as int), names),
                ),
            decreases self.lines@.len() - i,
        {
            let ghost rem = whole.skip(i as int);
            proof {
                assert(rem[0] == whole[i as int]);
                assert(rem.drop_first() =~~= whole.skip(i as int + 1));
            }
            let keep = match self.lines[i].alias() {
                None => true,
                Some(Err(_)) => false,
                Some(Ok(a)) => !contains_string(aliases, &a),
            };
            proof {
                assert(keep == keep_line(whole[i as int], names));
            }
            if keep {
                let ghost prev = out@;
                out.append(self.lines[i].text());
                out.append("\n");
                proof {
                    reveal_strlit("\n");
                    let kept = retained_lines(whole.skip(i as int + 1), names);
                    assert((seq![rem[0]] + kept).drop_first() =~~= kept);
                    assert(join_lines(seq![rem[0]] + kept) =~= rem[0] + seq!['\n'] + join_lines(
                        kept));
                    assert(out@ =~= prev + whole[i as int] + seq!['\n']);
                    assert(out@ + join_lines(kept) =~= prev + join_lines(
                        retained_lines(rem, names)));
                }
            }
            i = i + 1;
        }
        proof {
            assert(whole.skip(whole.len() as int).len() == 0);
            assert(out@ + join_lines(retained_lines(whole.skip(whole.len() as int), names)) =~= out@);
        }
        Ok(out)
    }
}

/// The text of a batch of lines to write: each string on its own line.
pub(crate) fn join_all(items: &Vec<String>) -> (r: String)
    ensures
        r@ == join_lines(str_views(items@)),
{
    let ghost vs = str_views(items@);
    let mut out = String::new();
    let mut i: usize = 0;
    proof {
        assert(vs.skip(0) =~~= vs);
        assert(out@ + join_lines(vs.skip(0)) =~= join_lines(vs));
    }
    while i < items.len()
        invariant
            vs == str_views(items@),
            0 <= i <= items@.len(),
            join_lines(vs) == out@ + join_lines(vs.skip(i as int)),
        decreases items@.len() - i,
    {
        let ghost prev = out@;
        out.append(items[i].as_str());
        out.append("\n");
        proof {
            reveal_strlit("\n");
            assert(vs.skip(i as int)[0] == vs[i as int]);
            assert(vs.skip(i as int).drop_first() =~~= vs.skip(i as int + 1));
            assert(out@ =~= prev + vs[i as int] + seq!['\n']);
            assert(out@ + join_lines(vs.skip(i as int + 1)) =~= prev + join_lines(
                vs.skip(i as int)));
        }
        i = i + 1;
    }
    proof {
        assert(vs.skip(vs.len() as int).len() == 0);
        assert(out@ + join_lines(vs.skip(vs.len() as int)) =~= out@);
    }
    out
}

/// Whether any string of the vector has the needle's text.
pub(crate) fn contains_string(haystack: &Vec<String>, needle: &String) -> (r: bool)
    ensures
        r == str_views(haystack@).contains(needle@),
{
    let mut i: usize = 0;
    while i < haystack.len()
        invariant
            0 <= i <= haystack@.len(),
            forall|j: int| 0 <= j < i ==> #[trigger] haystack@[j]@ != needle@,
        decreases haystack@.len() - i,
    {
        if haystack[i] == *needle {
            proof {
                assert(str_views(haystack@)[i as int] == needle@);
            }
            return true;
        }
        i = i + 1;
    }
    proof {
        assert(forall|j: int|
            0 <= j < str_views(haystack@).len() ==> #[trigger] str_views(haystack@)[j]
                != needle@);
    }
    false
}

/// At the start of a walk: the empty prefix yields empty candidate lists
/// and the remainder is the whole.
pub(crate) proof fn lemma_take_skip_empty(lines: Seq<Seq<char>>)
    ensures
        candidates_of(lines.take(0)) == Seq::<Seq<char>>::empty(),
        valid_aliases_of(lines.take(0)) == Seq::<Seq<char>>::empty(),
        invalid_aliases_of(lines.take(0)) == Seq::<Seq<char>>::empty(),
        candidates_of(lines) == candidates_of(lines.take(0)) + candidates_of(lines.skip(0)),
{
    assert(lines.take(0) =~~= Seq::<Seq<char>>::empty());
    assert(lines.skip(0) =~~= lines);
    assert(candidates_of(lines) =~~= candidates_of(lines.take(0)) + candidates_of(lines.skip(0)));
}

/// One step of walking the lines: the candidates (valid, invalid, and all)
/// of a one-longer prefix extend those of the prefix by the candidate of the
/// next line, and the prefix/remainder decomposition advances.
pub(crate) proof fn lemma_candidates_take_step(lines: Seq<Seq<char>>, i: int)
    requires
        0 <= i < lines.len(),
    ensures
        candidates_of(lines.take(i + 1)) == candidates_of(lines.take(i)) + (match candidate_of(
            lines[i],
        ) {
            Some(c) => seq![c],
            None => Seq::<Seq<char>>::empty(),
        }),
        valid_aliases_of(lines.take(i + 1)) == valid_aliases_of(lines.take(i)) + (
        match candidate_of(lines[i]) {
            Some(c) => if valid_alias(c) {
                seq![c]
            } else {
                Seq::<Seq<char>>::empty()
            },
            None => Seq::<Seq<char>>::empty(),
        }),
        invalid_aliases_of(lines.take(i + 1)) == invalid_aliases_of(lines.take(i)) + (
        match candidate_of(lines[i]) {
            Some(c) => if !valid_alias(c) {
                seq![c]
            } else {
                Seq::<Seq<char>>::empty()
            },
            None => Seq::<Seq<char>>::empty(),
        }),
        candidates_of(lines) == candidates_of(lines.take(i)) + candidates_of(lines.skip(i)),
        candidates_of(lines) == candidates_of(lines.take(i + 1)) + candidates_of(
            lines.skip(i + 1),
        ),
    decreases i,
{
    lemma_candidates_concat(lines.take(i), seq![lines[i]]);
    assert(lines.take(i) + seq![lines[i]] =~~= lines.take(i + 1));
    lemma_candidates_one(lines[i]);
    lemma_candidates_concat(lines.take(i), lines.skip(i));
    assert(lines.take(i) + lines.skip(i) =~~= lines);
    lemma_candidates_concat(lines.take(i + 1), lines.skip(i + 1));
    assert(lines.take(i + 1) + lines.skip(i + 1) =~~= lines);
}

/// The candidate lists of a single line.
proof fn lemma_candidates_one(l: Seq<char>)
    ensures
        candidates_of(seq![l]) == (match candidate_of(l) {
            Some(c) => seq![c],
            None => Seq::<Seq<char>>::empty(),
        }),
        valid_aliases_of(seq![l]) == (match candidate_of(l) {
            Some(c) => if valid_alias(c) {
                seq![c]
            } else {
                Seq::<Seq<char>>::empty()
            },
            None => Seq::<Seq<char>>::empty(),
        }),
        invalid_aliases_of(seq![l]) == (match candidate_of(l) {
            Some(c) => if !valid_alias(c) {
                seq![c]
            } else {
                Seq::<Seq<char>>::empty()
            },
            None => Seq::<Seq<char>>::empty(),
        }),
{
    let e = Seq::<Seq<char>>::empty();
    assert(seq![l].drop_first() =~~= e);
    assert(candidates_of(e) =~~= e);
    assert(valid_aliases_of(e) =~~= e);
    assert(invalid_aliases_of(e) =~~= e);
    assert(seq![l][0] == l);
    match candidate_of(l) {
        Some(c) => {
            assert(candidates_of(seq![l]) =~~= seq![c]);
            if valid_alias(c) {
                assert(valid_aliases_of(seq![l]) =~~= seq![c]);
                assert(invalid_aliases_of(seq![l]) =~~= e);
            } else {
                assert(valid_aliases_of(seq![l]) =~~= e);
                assert(invalid_aliases_of(seq![l]) =~~= seq![c]);
            }
        },
        None => {
            assert(candidates_of(seq![l]) =~~= e);
            assert(valid_aliases_of(seq![l]) =~~= e);
            assert(invalid_aliases_of(seq![l]) =~~= e);
        },
    }
}

/// Law: the classification is sound - every alias the valid list yields
/// satisfies the grammar, and every entry of the invalid list violates it.
pub proof fn lemma_alias_lists_sound(lines: Seq<Seq<char>>)
    ensures
        forall|i: int| 0 <= i < valid_aliases_of(lines).len() ==> valid_alias(
            #[trigger] valid_aliases_of(lines)[i],
        ),
        forall|i: int| 0 <= i < invalid_aliases_of(lines).len() ==> !valid_alias(
            #[trigger] invalid_aliases_of(lines)[i],
        ),
    decreases lines.len(),
{
    if lines.len() > 0 {
        lemma_alias_lists_sound(lines.drop_first());
        let vrest = valid_aliases_of(lines.drop_first());
        let irest = invalid_aliases_of(lines.drop_first());
        match candidate_of(lines[0]) {
            Some(c) => {
                if valid_alias(c) {
                    assert forall|i: int|
                        0 <= i < valid_aliases_of(lines).len() implies valid_alias(
                        valid_aliases_of(lines)[i]) by {
                        if i > 0 {
                            assert(valid_aliases_of(lines)[i] == vrest[i - 1]);
                        }
                    }
                } else {
                    assert forall|i: int|
                        0 <= i < invalid_aliases_of(lines).len() implies !valid_alias(
                        invalid_aliases_of(lines)[i]) by {
                        if i > 0 {
                            assert(invalid_aliases_of(lines)[i] == irest[i - 1]);
                        }
                    }
                }
            },
            None => {},
        }
    }
}

/// Law: a batch of valid aliases appended to a newline-terminated (or
/// empty) file reappears, on a fresh load, as new lines at the end, in the
/// order given, with every prior line unchanged - so the file's valid
/// aliases afterwards are the old ones followed by the batch.
pub proof fn lemma_append_then_reload(text: Seq<char>, entries: Seq<Seq<char>>)
    requires
        text.len() == 0 || text.last() == '\n',
        forall|i: int| 0 <= i < entries.len() ==> valid_alias(#[trigger] entries[i]),
    ensures
        split_lines(text + join_lines(entries)) == split_lines(text) + entries,
        valid_aliases_of(split_lines(text + join_lines(entries))) == valid_aliases_of(
            split_lines(text),
        ) + entries,
{
    assert forall|i: int| 0 <= i < entries.len() implies no_newline(#[trigger] entries[i]) by {
        lemma_valid_alias_cleaned(entries[i]);
    }
    lemma_split_concat(text, join_lines(entries));
    lemma_split_join(entries);
    lemma_candidates_concat(split_lines(text), entries);
    lemma_valid_aliases_of_valid(entries);
}

/// A sequence of valid aliases, taken as lines, yields exactly itself as
/// its valid alias list.
proof fn lemma_valid_aliases_of_valid(entries: Seq<Seq<char>>)
    requires
        forall|i: int| 0 <= i < entries.len() ==> valid_alias(#[trigger] entries[i]),
    ensures
        valid_aliases_of(entries) == entries,
    decreases entries.len(),
{
    if entries.len() == 0 {
        assert(valid_aliases_of(entries) =~~= entries);
    } else {
        lemma_valid_alias_cleaned(entries[0]);
        lemma_valid_aliases_of_valid(entries.drop_first());
        assert(valid_aliases_of(entries) =~~= entries);
    }
}

/// The valid aliases of `vs` that are not named.
pub open spec fn without_names(vs: Seq<Seq<char>>, names: Seq<Seq<char>>) -> Seq<Seq<char>>
    decreases vs.len(),
{
    if vs.len() == 0 {
        Seq::empty()
    } else {
        let rest = without_names(vs.drop_first(), names);
        if names.contains(vs[0]) {
            rest
        } else {
            seq![vs[0]] + rest
        }
    }
}

/// Law: rewriting a file from its retained lines and loading the result
/// yields exactly those lines back; the reloaded file holds no invalid
/// candidate, its valid aliases are the old ones less the named ones, in
/// original order, and every blank or comment-only line is still there.
pub proof fn lemma_remove_then_reload(lines: Seq<Seq<char>>, names: Seq<Seq<char>>)
    requires
        all_no_newline(lines),
    ensures
        split_lines(join_lines(retained_lines(lines, names))) == retained_lines(lines, names),
        invalid_aliases_of(retained_lines(lines, names)).len() == 0,
        valid_aliases_of(retained_lines(lines, names)) == without_names(
            valid_aliases_of(lines),
            names,
        ),
        forall|i: int|
            0 <= i < lines.len() && candidate_of(#[trigger] lines[i]) is None
                ==> retained_lines(lines, names).contains(lines[i]),
{
    lemma_retained_props(lines, names);
    assert(all_no_newline(retained_lines(lines, names))) by {
        lemma_retained_no_newline(lines, names);
    }
    lemma_split_join(retained_lines(lines, names));
}

/// Retained lines inherit the absence of line breaks.
proof fn lemma_retained_no_newline(lines: Seq<Seq<char>>, names: Seq<Seq<char>>)
    requires
        all_no_newline(lines),
    ensures
        all_no_newline(retained_lines(lines, names)),
    decreases lines.len(),
{
    if lines.len() > 0 {
        assert(all_no_newline(lines.drop_first())) by {
            assert(forall|k: int|
                0 <= k < lines.drop_first().len() ==> lines.drop_first()[k] == #[trigger] lines[k
                    + 1]);
        }
        lemma_retained_no_newline(lines.drop_first(), names);
        let rest = retained_lines(lines.drop_first(), names);
        if keep_line(lines[0], names) {
            assert forall|k: int|
                0 <= k < retained_lines(lines, names).len() implies no_newline(
                retained_lines(lines, names)[k]) by {
                if k == 0 {
                    assert(retained_lines(lines, names)[k] == lines[0]);
                } else {
                    assert(retained_lines(lines, names)[k] == rest[k - 1]);
                }
            }
        }
    }
}

/// The retained lines hold no invalid candidate, keep exactly the unnamed
/// valid aliases in order, and keep every candidate-less line.
proof fn lemma_retained_props(lines: Seq<Seq<char>>, names: Seq<Seq<char>>)
    ensures
        invalid_aliases_of(retained_lines(lines, names)).len() == 0,
        valid_aliases_of(retained_lines(lines, names)) == without_names(
            valid_aliases_of(lines),
            names,
        ),
        forall|i: int|
            0 <= i < lines.len() && candidate_of(#[trigger] lines[i]) is None
                ==> retained_lines(lines, names).contains(lines[i]),
    decreases lines.len(),
{
    let r = retained_lines(lines, names);
    if lines.len() == 0 {
        assert(valid_aliases_of(r) =~~= without_names(valid_aliases_of(lines), names));
    } else {
        let l = lines[0];
        let tail = lines.drop_first();
        lemma_retained_props(tail, names);
        let rt = retained_lines(tail, names);
        if keep_line(l, names) {
            assert(r == seq![l] + rt);
            assert(r[0] == l);
            assert(r.drop_first() =~~= rt);
            match candidate_of(l) {
                None => {
                    assert(valid_aliases_of(r) == valid_aliases_of(rt));
                    assert(valid_aliases_of(lines) == valid_aliases_of(tail));
                    assert(invalid_aliases_of(r) == invalid_aliases_of(rt));
                },
                Some(c) => {
                    assert(valid_alias(c) && !names.contains(c));
                    assert(valid_aliases_of(r) == seq![c] + valid_aliases_of(rt));
                    assert(valid_aliases_of(lines) == seq![c] + valid_aliases_of(tail));
                    lemma_without_names_cons(c, valid_aliases_of(tail), names);
                    assert(valid_aliases_of(r) =~~= without_names(
                        valid_aliases_of(lines),
                        names,
                    ));
                    assert(invalid_aliases_of(r) == invalid_aliases_of(rt));
                },
            }
        } else {
            assert(r == rt);
            match candidate_of(l) {
                None => {
                    assert(false);
                },
                Some(c) => {
                    if valid_alias(c) {
                        assert(names.contains(c));
                        assert(valid_aliases_of(lines) == seq![c] + valid_aliases_of(tail));
                        lemma_without_names_cons(c, valid_aliases_of(tail), names);
                        assert(valid_aliases_of(r) =~~= without_names(
                            valid_aliases_of(lines),
                            names,
                        ));
                    } else {
                        assert(valid_aliases_of(lines) == valid_aliases_of(tail));
                    }
                },
            }
        }
        assert forall|i: int|
            0 <= i < lines.len() && candidate_of(#[trigger] lines[i]) is None implies r.contains(
            lines[i]) by {
            if i == 0 {
                assert(keep_line(l, names));
                assert(r[0] == lines[i]);
            } else {
                assert(lines[i] == tail[i - 1]);
                assert(rt.contains(tail[i - 1]));
                let k = choose|k: int| 0 <= k < rt.len() && rt[k] == tail[i - 1];
                if keep_line(l, names) {
                    assert(r[k + 1] == rt[k]);
                } else {
                    assert(r[k] == rt[k]);
                }
            }
        }
    }
}

/// Unfolding `without_names` over a one-element prefix.
proof fn lemma_without_names_cons(c: Seq<char>, rest: Seq<Seq<char>>, names: Seq<Seq<char>>)
    ensures
        without_names(seq![c] + rest, names) == (if names.contains(c) {
            without_names(rest, names)
        } else {
            seq![c] + without_names(rest, names)
        }),
{
    assert((seq![c] + rest)[0] == c);
    assert((seq![c] + rest).drop_first() =~~= rest);
}

/// The candidate lists distribute over concatenation of line sequences.
pub proof fn lemma_candidates_concat(l1: Seq<Seq<char>>, l2: Seq<Seq<char>>)
    ensures
        candidates_of(l1 + l2) == candidates_of(l1) + candidates_of(l2),
        valid_aliases_of(l1 + l2) == valid_aliases_of(l1) + valid_aliases_of(l2),
        invalid_aliases_of(l1 + l2) == invalid_aliases_of(l1) + invalid_aliases_of(l2),
    decreases l1.len(),
{
    if l1.len() == 0 {
        assert(l1 + l2 =~~= l2);
        assert(candidates_of(l1 + l2) =~~= candidates_of(l1) + candidates_of(l2));
        assert(valid_aliases_of(l1 + l2) =~~= valid_aliases_of(l1) + valid_aliases_of(l2));
        assert(invalid_aliases_of(l1 + l2) =~~= invalid_aliases_of(l1) + invalid_aliases_of(l2));
    } else {
        assert((l1 + l2)[0] == l1[0]);
        assert((l1 + l2).drop_first() =~~= l1.drop_first() + l2);
        lemma_candidates_concat(l1.drop_first(), l2);
        assert(candidates_of(l1 + l2) =~~= candidates_of(l1) + candidates_of(l2));
        assert(valid_aliases_of(l1 + l2) =~~= valid_aliases_of(l1) + valid_aliases_of(l2));
        assert(invalid_aliases_of(l1 + l2) =~~= invalid_aliases_of(l1) + invalid_aliases_of(l2));
    }
}

} // verus!
