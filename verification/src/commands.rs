//! The computations behind the command-line tool's subcommands: partitioning
//! requested aliases against the file's, and rendering the listing.

use vstd::prelude::*;

use crate::alias::valid_alias;
use crate::aliases_file::AliasesFile;
use crate::aliases_file::candidates_of;
use crate::aliases_file::contains_string;
use crate::aliases_file::str_views;

verus! {

/// The arguments that name aliases already present in the file, in order.
pub open spec fn present_args(args: Seq<Seq<char>>, names: Seq<Seq<char>>) -> Seq<Seq<char>>
    decreases args.len(),
{
    if args.len() == 0 {
        Seq::empty()
    } else {
        let rest = present_args(args.drop_first(), names);
        if names.contains(args[0]) {
            seq![args[0]] + rest
        } else {
            rest
        }
    }
}

/// The arguments that name aliases not present in the file, in order.
pub open spec fn absent_args(args: Seq<Seq<char>>, names: Seq<Seq<char>>) -> Seq<Seq<char>>
    decreases args.len(),
{
    if args.len() == 0 {
        Seq::empty()
    } else {
        let rest = absent_args(args.drop_first(), names);
        if names.contains(args[0]) {
            rest
        } else {
            seq![args[0]] + rest
        }
    }
}

/// Partition requested aliases by presence in the file: first those already
/// there, then the new ones, each half in the order given.
pub fn split_aliases(file_aliases: &Vec<String>, arg_aliases: &Vec<String>) -> (r: (
    Vec<String>,
    Vec<String>,
))
    ensures
        str_views(r.0@) == present_args(str_views(arg_aliases@), str_views(file_aliases@)),
        str_views(r.1@) == absent_args(str_views(arg_aliases@), str_views(file_aliases@)),
{
    let ghost args = str_views(arg_aliases@);
    let ghost names = str_views(file_aliases@);
    let mut extant: Vec<String> = Vec::new();
    let mut fresh: Vec<String> = Vec::new();
    let mut i: usize = 0;
    proof {
        assert(args.skip(0) =~~= args);
        assert(str_views(extant@) =~~= Seq::<Seq<char>>::empty());
        assert(str_views(fresh@) =~~= Seq::<Seq<char>>::empty());
        assert(str_views(extant@) + present_args(args.skip(0), names) =~~= present_args(
            args,
            names,
        ));
        assert(str_views(fresh@) + absent_args(args.skip(0), names) =~~= absent_args(
            args,
            names,
        ));
    }
    while i < arg_aliases.len()
        invariant
            args == str_views(arg_aliases@),
            names == str_views(file_aliases@),
            0 <= i <= arg_aliases@.len(),
            present_args(args, names) == str_views(extant@) + present_args(
                args.skip(i as int),
                names,
            ),
            absent_args(args, names) == str_views(fresh@) + absent_args(
                args.skip(i as int),
                names,
            ),
        decreases arg_aliases@.len() - i,
    {
        proof {
            assert(args.skip(i as int)[0] == args[i as int]);
            assert(args.skip(i as int).drop_first() =~~= args.skip(i as int + 1));
        }
        let ghost prev_extant = extant@;
        let ghost prev_fresh = fresh@;
        if contains_string(file_aliases, &arg_aliases[i]) {
            extant.push(arg_aliases[i].clone());
            proof {
                assert(str_views(extant@) =~~= str_views(prev_extant) + seq![args[i as int]]);
            }
        } else {
            fresh.push(arg_aliases[i].clone());
            proof {
                assert(str_views(fresh@) =~~= str_views(prev_fresh) + seq![args[i as int]]);
            }
        }
        i = i + 1;
    }
    proof {
        assert(args.skip(args.len() as int).len() == 0);
        assert(str_views(extant@) =~~= present_args(args, names));
        assert(str_views(fresh@) =~~= absent_args(args, names));
    }
    (extant, fresh)
}

/// The lines the listing prints: a valid alias verbatim, an invalid one
/// flagged distinctly.
pub fn list_lines(file: &AliasesFile) -> (r: Vec<String>)
    ensures
        r@.len() == candidates_of(file.lines_spec()).len(),
        forall|i: int| 0 <= i < r@.len() ==> {
            let c = candidates_of(file.lines_spec())[i];
            (#[trigger] r@[i])@ == (if valid_alias(c) {
                c
            } else {
                "ERROR: invalid alias \""@ + c + "\""@
            })
        },
{
    let cands = file.all_aliases();
    let mut out: Vec<String> = Vec::new();
    let mut i: usize = 0;
    while i < cands.len()
        invariant
            cands@.len() == candidates_of(file.lines_spec()).len(),
            forall|k: int| 0 <= k < cands@.len() ==> {
                let c = candidates_of(file.lines_spec())[k];
                &&& ((#[trigger] cands@[k]) is Ok <==> valid_alias(c))
                &&& (cands@[k] matches Ok(a) ==> a@ == c)
                &&& (cands@[k] matches Err(a) ==> a@ == c)
            },
            0 <= i <= cands@.len(),
            out@.len() == i,
            forall|k: int| 0 <= k < i ==> {
                let c = candidates_of(file.lines_spec())[k];
                (#[trigger] out@[k])@ == (if valid_alias(c) {
                    c
                } else {
                    "ERROR: invalid alias \""@ + c + "\""@
                })
            },
        decreases cands@.len() - i,
    {
        match &cands[i] {
            Ok(a) => {
                out.push(a.clone());
            },
            Err(a) => {
                let mut s: String = "ERROR: invalid alias \"".to_owned();
                s.append(a.as_str());
                s.append("\"");
                proof {
                    assert(s@ =~= "ERROR: invalid alias \""@ + a@ + "\""@);
                }
                out.push(s);
            },
        }
        i = i + 1;
    }
    out
}

} // verus!
