//! Encoding of a fully-qualified name as the record payload the discovery
//! service expects: each nonempty dot-separated label as a length byte
//! followed by its bytes, closed by a zero byte.

use vstd::prelude::*;
use vstd::string::StringSliceAdditionalSpecFns;

verus! {

/// The dot that separates the labels of a name, as a byte.
pub open spec fn is_dot(b: u8) -> bool {
    b == 46
}

/// No byte of the label is a dot.
pub open spec fn no_dot(p: Seq<u8>) -> bool {
    forall|i: int| 0 <= i < p.len() ==> !is_dot(#[trigger] p[i])
}

/// The dot-separated labels of a name's bytes.
pub open spec fn split_dots(b: Seq<u8>) -> Seq<Seq<u8>>
    decreases b.len(),
{
    if b.len() == 0 {
        Seq::empty()
    } else if is_dot(b[0]) {
        seq![Seq::<u8>::empty()] + split_dots(b.drop_first())
    } else {
        let rest = split_dots(b.drop_first());
        if rest.len() == 0 {
            seq![b]
        } else {
            seq![seq![b[0]] + rest[0]] + rest.drop_first()
        }
    }
}

/// The encoding of one label: nothing for an empty label, else its length
/// (reduced to a byte) followed by its bytes.
pub open spec fn encode_one(p: Seq<u8>) -> Seq<u8> {
    if p.len() == 0 {
        Seq::empty()
    } else {
        seq![(p.len() % 256) as u8] + p
    }
}

/// The encodings of a sequence of labels, concatenated.
pub open spec fn encode_parts(parts: Seq<Seq<u8>>) -> Seq<u8>
    decreases parts.len(),
{
    if parts.len() == 0 {
        Seq::empty()
    } else {
        encode_one(parts[0]) + encode_parts(parts.drop_first())
    }
}

/// The record payload for a name's bytes: its labels encoded, then a zero.
pub open spec fn encode_rdata_spec(b: Seq<u8>) -> Seq<u8> {
    encode_parts(split_dots(b)) + seq![0u8]
}

/// A dot-free byte sequence splits into at most one label: none when it is
/// empty, itself otherwise.
proof fn lemma_split_dots_no_dot(c: Seq<u8>)
    requires
        no_dot(c),
    ensures
        c.len() == 0 ==> split_dots(c) == Seq::<Seq<u8>>::empty(),
        c.len() > 0 ==> split_dots(c) == seq![c],
    decreases c.len(),
{
    if c.len() > 0 {
        lemma_split_dots_no_dot(c.drop_first());
        if c.len() > 1 {
            assert(seq![seq![c[0]] + c.drop_first()] + split_dots(c.drop_first()).drop_first()
                =~~= seq![c]);
        }
    }
}

/// The labels' encodings of a dot-free byte sequence.
proof fn lemma_encode_no_dot(c: Seq<u8>)
    requires
        no_dot(c),
    ensures
        encode_parts(split_dots(c)) == encode_one(c),
{
    lemma_split_dots_no_dot(c);
    if c.len() > 0 {
        assert(seq![c].drop_first() =~~= Seq::<Seq<u8>>::empty());
        assert(encode_parts(Seq::<Seq<u8>>::empty()) =~= Seq::<u8>::empty());
        assert(seq![c][0] == c);
        assert(encode_parts(seq![c]) =~= encode_one(c));
    }
}

/// Peeling one label off the front: a dot-free label, a dot, and a
/// remainder encode as the label's encoding followed by the remainder's.
proof fn lemma_encode_label_then(c: Seq<u8>, t: Seq<u8>)
    requires
        no_dot(c),
    ensures
        encode_parts(split_dots(c + seq![46u8] + t)) == encode_one(c) + encode_parts(
            split_dots(t),
        ),
{
    lemma_split_dots_head(c, t);
    let parts = seq![c] + split_dots(t);
    assert(parts[0] == c);
    assert(parts.drop_first() =~~= split_dots(t));
    assert(encode_parts(parts) =~= encode_one(c) + encode_parts(split_dots(t)));
}

/// For dot-free `c`, the split of `c + "." + t` is `c` followed by the
/// split of `t`.
proof fn lemma_split_dots_head(c: Seq<u8>, t: Seq<u8>)
    requires
        no_dot(c),
    ensures
        split_dots(c + seq![46u8] + t) == seq![c] + split_dots(t),
    decreases c.len(),
{
    let s = c + seq![46u8] + t;
    if c.len() == 0 {
        assert(s.drop_first() =~= t);
        assert(split_dots(s) =~~= seq![c] + split_dots(t));
    } else {
        assert(s.drop_first() =~= c.drop_first() + seq![46u8] + t);
        lemma_split_dots_head(c.drop_first(), t);
        let rest = split_dots(s.drop_first());
        assert(rest == seq![c.drop_first()] + split_dots(t));
        assert(rest[0] == c.drop_first());
        assert(seq![s[0]] + rest[0] =~= c);
        assert(rest.drop_first() =~~= split_dots(t));
        assert(split_dots(s) =~~= seq![c] + split_dots(t));
    }
}

/// Append one label's encoding: a length byte and the label's bytes, or
/// nothing for an empty label.
fn emit_part(out: &mut Vec<u8>, bytes: &Vec<u8>, start: usize, end: usize)
    requires
        start <= end <= old(out).len() + bytes@.len(),
        end <= bytes@.len(),
    ensures
        final(out)@ == old(out)@ + encode_one(bytes@.subrange(start as int, end as int)),
{
    let ghost part = bytes@.subrange(start as int, end as int);
    if start == end {
        proof {
            assert(final(out)@ =~= old(out)@ + encode_one(part));
        }
        return ;
    }
    let len_byte = ((end - start) % 256) as u8;
    out.push(len_byte);
    let mut j = start;
    while j < end
        invariant
            start <= j <= end <= bytes@.len(),
            out@ == old(out)@ + seq![(part.len() % 256) as u8] + bytes@.subrange(
                start as int,
                j as int,
            ),
            part == bytes@.subrange(start as int, end as int),
        decreases end - j,
    {
        let ghost before = out@;
        out.push(bytes[j]);
        proof {
            assert(out@ =~= before + seq![bytes@[j as int]]);
            assert(bytes@.subrange(start as int, j as int + 1) =~= bytes@.subrange(
                start as int,
                j as int,
            ) + seq![bytes@[j as int]]);
        }
        j = j + 1;
    }
    proof {
        assert(out@ =~= old(out)@ + encode_one(part));
    }
}

/// Encode a fully-qualified name for publication: each nonempty label of
/// its UTF-8 bytes as a length byte followed by the label, closed by a
/// zero byte.
pub fn encode_rdata(name: &str) -> (r: Vec<u8>)
    ensures
        r@ == encode_rdata_spec(name.spec_bytes()),
{
    let bytes = name.as_bytes_vec();
    let n = bytes.len();
    let mut out: Vec<u8> = Vec::new();
    let mut start: usize = 0;
    let mut i: usize = 0;
    proof {
        assert(bytes@.skip(0) =~= bytes@);
        assert(out@ + encode_parts(split_dots(bytes@.skip(0))) =~= encode_parts(
            split_dots(bytes@)));
    }
    while i < n
        invariant
            n == bytes@.len(),
            bytes@ == name.spec_bytes(),
            0 <= start <= i <= n,
            forall|j: int| start <= j < i ==> !is_dot(#[trigger] bytes@[j]),
            encode_parts(split_dots(bytes@)) == out@ + encode_parts(
                split_dots(bytes@.skip(start as int)),
            ),
        decreases n - i,
    {
        if bytes[i] == 46 {
            let ghost chunk = bytes@.subrange(start as int, i as int);
            let ghost before = out@;
            emit_part(&mut out, &bytes, start, i);
            proof {
                assert(bytes@.skip(start as int) =~= chunk + seq![46u8] + bytes@.skip(
                    i as int + 1));
                lemma_encode_label_then(chunk, bytes@.skip(i as int + 1));
                assert(out@ + encode_parts(split_dots(bytes@.skip(i as int + 1))) =~= before
                    + encode_parts(split_dots(bytes@.skip(start as int))));
            }
            start = i + 1;
        }
        i = i + 1;
    }
    let ghost chunk = bytes@.subrange(start as int, n as int);
    let ghost before = out@;
    emit_part(&mut out, &bytes, start, n);
    proof {
        assert(bytes@.skip(start as int) =~= chunk);
        lemma_encode_no_dot(chunk);
        assert(out@ =~= before + encode_parts(split_dots(bytes@.skip(start as int))));
    }
    let ghost almost = out@;
    out.push(0u8);
    proof {
        assert(out@ =~= almost + seq![0u8]);
        assert(out@ =~= encode_rdata_spec(name.spec_bytes()));
    }
    out
}

/// Prepare a name for encoding. Internationalised names are currently
/// passed through unchanged.
pub fn to_ascii(idna_name: &str) -> (r: String)
    ensures
        r@ == idna_name@,
{
    idna_name.to_owned()
}

} // verus!
