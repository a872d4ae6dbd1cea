//! The alias grammar and the classification of candidate aliases.
//!
//! A valid alias is a name of lowercase letters, digits and interior
//! hyphens - beginning and ending with a letter or digit - followed by the
//! literal suffix `.local`.

use vstd::prelude::*;

use crate::error::ErrorWrapper;

verus! {

/// The classification of one candidate alias: `Ok` holds a valid alias,
/// `Err` holds the raw text of an invalid one.
pub type Alias = Result<String, String>;

/// A lowercase letter or digit: the characters that may begin or end the
/// name part of an alias.
pub open spec fn is_alnum(c: char) -> bool {
    ||| ('a' as u32) <= (c as u32) && (c as u32) <= ('z' as u32)
    ||| ('0' as u32) <= (c as u32) && (c as u32) <= ('9' as u32)
}

/// Any character allowed inside the name part of an alias.
pub open spec fn is_name_char(c: char) -> bool {
    is_alnum(c) || c == '-'
}

/// The fixed `.local` suffix that every alias carries.
pub open spec fn local_suffix() -> Seq<char> {
    seq!['.', 'l', 'o', 'c', 'a', 'l']
}

/// A well-formed name part: nonempty, a letter or digit at both ends, and
/// name characters throughout.
pub open spec fn valid_name(n: Seq<char>) -> bool {
    &&& n.len() >= 1
    &&& is_alnum(n[0])
    &&& is_alnum(n[n.len() - 1])
    &&& forall|i: int| 0 <= i < n.len() ==> is_name_char(#[trigger] n[i])
}

/// The alias grammar: a well-formed name followed by `.local`.
pub open spec fn valid_alias(s: Seq<char>) -> bool {
    &&& s.len() >= 7
    &&& s.subrange(s.len() - 6, s.len() as int) == local_suffix()
    &&& valid_name(s.subrange(0, s.len() - 6))
}

/// Decide whether a candidate string satisfies the alias grammar.
pub fn is_valid_alias(alias: &str) -> (r: bool)
    ensures
        r == valid_alias(alias@),
{
    let n = alias.unicode_len();
    if n < 7 {
        return false;
    }
    let suffix_ok = alias.get_char(n - 6) == '.' && alias.get_char(n - 5) == 'l'
        && alias.get_char(n - 4) == 'o' && alias.get_char(n - 3) == 'c'
        && alias.get_char(n - 2) == 'a' && alias.get_char(n - 1) == 'l';
    if !suffix_ok {
        proof {
            assert(alias@.subrange(alias@.len() - 6, alias@.len() as int) != local_suffix()) by {
                if alias@.subrange(alias@.len() - 6, alias@.len() as int) == local_suffix() {
                    assert(forall|i: int| 0 <= i < 6 ==>
                        alias@[alias@.len() - 6 + i]
                            == #[trigger] alias@.subrange(alias@.len() - 6, alias@.len() as int)[i]);
                }
            }
        }
        return false;
    }
    proof {
        assert(alias@.subrange(alias@.len() - 6, alias@.len() as int) =~= local_suffix());
    }
    if !char_is_alnum(alias.get_char(0)) {
        proof {
            assert(alias@.subrange(0, alias@.len() - 6)[0] == alias@[0]);
        }
        return false;
    }
    if !char_is_alnum(alias.get_char(n - 7)) {
        proof {
            assert(alias@.subrange(0, alias@.len() - 6)[alias@.len() - 7] == alias@[alias@.len() - 7]);
        }
        return false;
    }
    let mut i: usize = 0;
    while i < n - 6
        invariant
            7 <= n == alias@.len(),
            0 <= i <= n - 6,
            forall|j: int| 0 <= j < i ==> is_name_char(#[trigger] alias@[j]),
        decreases n - 6 - i,
    {
        let c = alias.get_char(i);
        if !(char_is_alnum(c) || c == '-') {
            proof {
                assert(alias@.subrange(0, alias@.len() - 6)[i as int] == alias@[i as int]);
            }
            return false;
        }
        i = i + 1;
    }
    proof {
        let nm = alias@.subrange(0, alias@.len() - 6);
        assert(forall|j: int| 0 <= j < nm.len() ==> nm[j] == alias@[j]);
        assert(forall|j: int| 0 <= j < nm.len() ==> is_name_char(#[trigger] nm[j]));
        assert(nm[0] == alias@[0]);
        assert(nm[nm.len() - 1] == alias@[alias@.len() - 7]);
    }
    true
}

/// Decide whether a character is a lowercase letter or a digit.
fn char_is_alnum(c: char) -> (r: bool)
    ensures
        r == is_alnum(c),
{
    let u = c as u32;
    (('a' as u32) <= u && u <= ('z' as u32)) || (('0' as u32) <= u && u <= ('9' as u32))
}

/// Classify a candidate alias: `Ok` when it satisfies the grammar, `Err`
/// otherwise; either way the result carries the candidate verbatim.
pub fn new_alias(alias: &str) -> (r: Alias)
    ensures
        r is Ok <==> valid_alias(alias@),
        r matches Ok(a) ==> a@ == alias@,
        r matches Err(a) ==> a@ == alias@,
{
    if is_valid_alias(alias) {
        Ok(alias.to_owned())
    } else {
        Err(alias.to_owned())
    }
}

/// Every candidate in the sequence satisfies the alias grammar.
pub open spec fn all_valid(aliases: Seq<String>) -> bool {
    forall|i: int| 0 <= i < aliases.len() ==> valid_alias(#[trigger] aliases[i]@)
}

/// The index of the first invalid candidate, or the length when all are
/// valid.
pub open spec fn first_invalid(aliases: Seq<String>) -> int
    decreases aliases.len(),
{
    if aliases.len() == 0 || !valid_alias(aliases[0]@) {
        0
    } else {
        1 + first_invalid(aliases.drop_first())
    }
}

/// The first `i` candidates are valid and candidate `i` (if any) is not:
/// then `i` is the index of the first invalid candidate.
proof fn lemma_first_invalid_at(aliases: Seq<String>, i: int)
    requires
        0 <= i <= aliases.len(),
        forall|j: int| 0 <= j < i ==> valid_alias(#[trigger] aliases[j]@),
        i < aliases.len() ==> !valid_alias(aliases[i]@),
    ensures
        first_invalid(aliases) == i,
    decreases aliases.len(),
{
    if aliases.len() == 0 {
    } else if i == 0 {
    } else {
        lemma_first_invalid_at(aliases.drop_first(), i - 1);
    }
}

/// Check a whole collection of candidate aliases: `Ok` when every one
/// satisfies the grammar, otherwise the first invalid candidate's error.
pub fn validate_aliases(aliases: &Vec<String>) -> (r: Result<(), ErrorWrapper>)
    ensures
        r is Ok <==> all_valid(aliases@),
        r matches Err(e) ==> e matches ErrorWrapper::InvalidAliasError { alias } && alias@
            == aliases@[first_invalid(aliases@)]@,
{
    let n = aliases.len();
    let mut i: usize = 0;
    while i < n
        invariant
            n == aliases@.len(),
            0 <= i <= n,
            forall|j: int| 0 <= j < i ==> valid_alias(#[trigger] aliases@[j]@),
        decreases n - i,
    {
        if !is_valid_alias(aliases[i].as_str()) {
            proof {
                lemma_first_invalid_at(aliases@, i as int);
            }
            return Err(ErrorWrapper::new_invalid_alias_error(aliases[i].as_str()));
        }
        i = i + 1;
    }
    Ok(())
}

} // verus!
