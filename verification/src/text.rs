//! Line-oriented text primitives: splitting a file's contents into physical
//! lines, joining lines back into a file, and cleaning one line of its
//! comment and surrounding whitespace.

use vstd::prelude::*;

verus! {

/// A space or tab: the whitespace trimmed around a line's content.
pub open spec fn is_ws(c: char) -> bool {
    c == ' ' || c == '\t'
}

/// No character of the line is a line break.
pub open spec fn no_newline(l: Seq<char>) -> bool {
    forall|i: int| 0 <= i < l.len() ==> #[trigger] l[i] != '\n'
}

/// No line of the sequence contains a line break.
pub open spec fn all_no_newline(lines: Seq<Seq<char>>) -> bool {
    forall|i: int| 0 <= i < lines.len() ==> no_newline(#[trigger] lines[i])
}

/// The physical lines of a text: pieces separated by `'\n'`; the final line
/// needs no terminator, and a trailing `'\n'` adds no empty final line.
pub open spec fn split_lines(s: Seq<char>) -> Seq<Seq<char>>
    decreases s.len(),
{
    if s.len() == 0 {
        Seq::empty()
    } else if s[0] == '\n' {
        seq![Seq::<char>::empty()] + split_lines(s.drop_first())
    } else {
        let rest = split_lines(s.drop_first());
        if rest.len() == 0 {
            seq![s]
        } else {
            seq![seq![s[0]] + rest[0]] + rest.drop_first()
        }
    }
}

/// The text written for a sequence of lines: each line followed by `'\n'`.
pub open spec fn join_lines(lines: Seq<Seq<char>>) -> Seq<char>
    decreases lines.len(),
{
    if lines.len() == 0 {
        Seq::empty()
    } else {
        lines[0] + seq!['\n'] + join_lines(lines.drop_first())
    }
}

/// A text without line breaks splits into at most one line: none when it is
/// empty, itself otherwise.
pub proof fn lemma_split_no_newline(c: Seq<char>)
    requires
        no_newline(c),
    ensures
        c.len() == 0 ==> split_lines(c) == Seq::<Seq<char>>::empty(),
        c.len() > 0 ==> split_lines(c) == seq![c],
    decreases c.len(),
{
    if c.len() > 0 {
        lemma_split_no_newline(c.drop_first());
        if c.len() > 1 {
            assert(seq![seq![c[0]] + c.drop_first()] + split_lines(c.drop_first()).drop_first()
                =~~= seq![c]);
        }
    }
}

/// Splitting a line, its terminator, and a remainder yields the line
/// followed by the remainder's lines.
pub proof fn lemma_split_line_then(c: Seq<char>, t: Seq<char>)
    requires
        no_newline(c),
    ensures
        split_lines(c + seq!['\n'] + t) == seq![c] + split_lines(t),
    decreases c.len(),
{
    let s = c + seq!['\n'] + t;
    if c.len() == 0 {
        assert(s[0] == '\n');
        assert(s.drop_first() =~= t);
        assert(split_lines(s) =~~= seq![c] + split_lines(t));
    } else {
        assert(s[0] == c[0]);
        assert(s.drop_first() =~= c.drop_first() + seq!['\n'] + t);
        lemma_split_line_then(c.drop_first(), t);
        let rest = split_lines(s.drop_first());
        assert(rest == seq![c.drop_first()] + split_lines(t));
        assert(rest[0] == c.drop_first());
        assert(seq![c[0]] + rest[0] =~= c);
        assert(rest.drop_first() =~= split_lines(t));
        assert(split_lines(s) =~~= seq![c] + split_lines(t));
    }
}

/// Splitting the text written for a sequence of break-free lines recovers
/// exactly those lines.
pub proof fn lemma_split_join(lines: Seq<Seq<char>>)
    requires
        all_no_newline(lines),
    ensures
        split_lines(join_lines(lines)) == lines,
    decreases lines.len(),
{
    if lines.len() == 0 {
        assert(split_lines(join_lines(lines)) =~~= lines);
    } else {
        lemma_split_line_then(lines[0], join_lines(lines.drop_first()));
        lemma_split_join(lines.drop_first());
        assert(seq![lines[0]] + lines.drop_first() =~= lines);
    }
}

/// A nonempty text splits into at least one line.
pub proof fn lemma_split_len_pos(s: Seq<char>)
    requires
        s.len() > 0,
    ensures
        split_lines(s).len() >= 1,
{
}

/// Splitting distributes over concatenation when the first part is empty or
/// ends with a line terminator.
pub proof fn lemma_split_concat(a: Seq<char>, b: Seq<char>)
    requires
        a.len() == 0 || a.last() == '\n',
    ensures
        split_lines(a + b) == split_lines(a) + split_lines(b),
    decreases a.len(),
{
    if a.len() == 0 {
        assert(a + b =~= b);
        assert(split_lines(a + b) =~~= split_lines(a) + split_lines(b));
    } else if a[0] == '\n' {
        if a.len() == 1 {
            assert((a + b).drop_first() =~= b);
            assert(a.drop_first().len() == 0);
            assert(split_lines(a.drop_first()) =~~= Seq::<Seq<char>>::empty());
            assert(split_lines(a) =~~= seq![Seq::<char>::empty()]);
            assert(split_lines(a + b) =~~= split_lines(a) + split_lines(b));
        } else {
            assert((a + b).drop_first() =~= a.drop_first() + b);
            assert(a.drop_first().last() == '\n');
            lemma_split_concat(a.drop_first(), b);
            assert(split_lines(a + b) =~~= split_lines(a) + split_lines(b));
        }
    } else {
        assert(a.len() >= 2);
        assert((a + b).drop_first() =~= a.drop_first() + b);
        assert(a.drop_first().last() == '\n');
        lemma_split_concat(a.drop_first(), b);
        let ra = split_lines(a.drop_first());
        lemma_split_len_pos(a.drop_first());
        let rab = split_lines(a.drop_first() + b);
        assert(rab == ra + split_lines(b));
        assert(rab[0] == ra[0]);
        assert(rab.drop_first() =~= ra.drop_first() + split_lines(b));
        assert(split_lines(a + b) =~~= split_lines(a) + split_lines(b));
    }
}

/// The index of the first `'#'`, or the length when there is none.
pub open spec fn hash_idx(s: Seq<char>) -> int
    decreases s.len(),
{
    if s.len() == 0 || s[0] == '#' {
        0
    } else {
        1 + hash_idx(s.drop_first())
    }
}

/// The first `i` characters are not `'#'` and character `i` (if any) is:
/// then `i` is the index of the first `'#'`.
pub proof fn lemma_hash_idx_at(s: Seq<char>, i: int)
    requires
        0 <= i <= s.len(),
        forall|j: int| 0 <= j < i ==> #[trigger] s[j] != '#',
        i < s.len() ==> s[i] == '#',
    ensures
        hash_idx(s) == i,
    decreases s.len(),
{
    if s.len() == 0 {
    } else if i == 0 {
    } else {
        lemma_hash_idx_at(s.drop_first(), i - 1);
    }
}

/// The number of leading whitespace characters.
pub open spec fn ws_prefix(s: Seq<char>) -> int
    decreases s.len(),
{
    if s.len() == 0 || !is_ws(s[0]) {
        0
    } else {
        1 + ws_prefix(s.drop_first())
    }
}

/// The first `i` characters are whitespace and character `i` (if any) is
/// not: then the whitespace prefix has length `i`.
pub proof fn lemma_ws_prefix_at(s: Seq<char>, i: int)
    requires
        0 <= i <= s.len(),
        forall|j: int| 0 <= j < i ==> is_ws(#[trigger] s[j]),
        i < s.len() ==> !is_ws(s[i]),
    ensures
        ws_prefix(s) == i,
    decreases s.len(),
{
    if s.len() == 0 {
    } else if i == 0 {
    } else {
        lemma_ws_prefix_at(s.drop_first(), i - 1);
    }
}

/// The number of trailing whitespace characters.
pub open spec fn ws_suffix(s: Seq<char>) -> int
    decreases s.len(),
{
    if s.len() == 0 || !is_ws(s.last()) {
        0
    } else {
        1 + ws_suffix(s.drop_last())
    }
}

/// The last `q` characters are whitespace and the one before them (if any)
/// is not: then the whitespace suffix has length `q`.
pub proof fn lemma_ws_suffix_at(s: Seq<char>, q: int)
    requires
        0 <= q <= s.len(),
        forall|j: int| s.len() - q <= j < s.len() ==> is_ws(#[trigger] s[j]),
        q < s.len() ==> !is_ws(s[s.len() - q - 1]),
    ensures
        ws_suffix(s) == q,
    decreases q,
{
    if q > 0 {
        assert(is_ws(s.last()));
        lemma_ws_suffix_at(s.drop_last(), q - 1);
    }
}

/// The line's content up to its first `'#'`: comment stripping.
pub open spec fn strip_comment(s: Seq<char>) -> Seq<char> {
    s.take(hash_idx(s))
}

/// The line with leading and trailing whitespace removed.
pub open spec fn trimmed(s: Seq<char>) -> Seq<char> {
    if ws_prefix(s) == s.len() {
        Seq::empty()
    } else {
        s.subrange(ws_prefix(s), s.len() - ws_suffix(s))
    }
}

/// A line's content: the text before any comment, trimmed of surrounding
/// whitespace.
pub open spec fn cleaned(s: Seq<char>) -> Seq<char> {
    trimmed(strip_comment(s))
}

} // verus!
