//! Parameter codec: canonical serialization of structured query parameters.
//!
//! Multi-valued parameters are flattened to a single comma-joined value per
//! key; `key=value` pairs are joined by `&`. The codec is encoding-agnostic:
//! percent-encoding of reserved characters is layered on top by the caller.

use vstd::prelude::*;

verus! {

/// The elements of `elems` in order, with a single `sep` between adjacent
/// elements. The join of an empty sequence is the empty string.
pub open spec fn join_spec(elems: Seq<Seq<char>>, sep: char) -> Seq<char>
    decreases elems.len(),
{
    if elems.len() == 0 {
        Seq::empty()
    } else if elems.len() == 1 {
        elems[0]
    } else {
        elems[0] + seq![sep] + join_spec(elems.drop_first(), sep)
    }
}

/// Splitting on `sep` undoes joining: `split_spec` cuts `s` at every
/// occurrence of `sep`, so a string without separators stays whole and an
/// empty string yields one empty field, as the standard split does.
pub open spec fn split_spec(s: Seq<char>, sep: char) -> Seq<Seq<char>>
    decreases s.len(),
{
    if s.len() == 0 {
        seq![Seq::<char>::empty()]
    } else if s[0] == sep {
        seq![Seq::<char>::empty()] + split_spec(s.drop_first(), sep)
    } else {
        let rest = split_spec(s.drop_first(), sep);
        seq![seq![s[0]] + rest[0]] + rest.drop_first()
    }
}

/// Appending one more element extends the join by one separator and the
/// element itself.
pub proof fn lemma_join_push(elems: Seq<Seq<char>>, x: Seq<char>, sep: char)
    requires
        elems.len() >= 1,
    ensures
        join_spec(elems.push(x), sep) == join_spec(elems, sep) + seq![sep] + x,
    decreases elems.len(),
{
    let pushed = elems.push(x);
    if elems.len() == 1 {
        assert(pushed.drop_first() =~= seq![x]);
        assert(join_spec(seq![x], sep) == x);
        assert(pushed[0] == elems[0]);
        assert(join_spec(pushed, sep) == elems[0] + seq![sep] + x);
        assert(join_spec(elems, sep) == elems[0]);
    } else {
        assert(pushed.drop_first() =~= elems.drop_first().push(x));
        lemma_join_push(elems.drop_first(), x, sep);
        assert(pushed[0] == elems[0]);
        assert(join_spec(pushed, sep) == elems[0] + seq![sep] + join_spec(
            elems.drop_first().push(x),
            sep,
        ));
        assert(join_spec(elems, sep) + seq![sep] + x =~= elems[0] + seq![sep] + (join_spec(
            elems.drop_first(),
            sep,
        ) + seq![sep] + x));
    }
}

/// A string without separators splits to exactly one field: itself.
proof fn lemma_split_whole(s: Seq<char>, sep: char)
    requires
        !s.contains(sep),
    ensures
        split_spec(s, sep) == seq![s],
    decreases s.len(),
{
    if s.len() == 0 {
        assert(s =~= Seq::<char>::empty());
        assert(split_spec(s, sep) =~= seq![s]);
    } else {
        assert(s[0] != sep);
        assert(!s.drop_first().contains(sep)) by {
            if s.drop_first().contains(sep) {
                let i = choose|i: int|
                    0 <= i < s.drop_first().len() && s.drop_first()[i] == sep;
                assert(s[i + 1] == sep);
            }
        }
        lemma_split_whole(s.drop_first(), sep);
        let rest = split_spec(s.drop_first(), sep);
        assert(rest[0] == s.drop_first());
        assert(rest.drop_first() =~= Seq::<Seq<char>>::empty());
        assert(seq![s[0]] + s.drop_first() =~= s);
        assert(split_spec(s, sep) =~= seq![s]);
    }
}

/// Splitting a string that begins with a separator-free field `x` followed by
/// a separator peels off exactly that field.
proof fn lemma_split_peel(x: Seq<char>, rest: Seq<char>, sep: char)
    requires
        !x.contains(sep),
    ensures
        split_spec(x + seq![sep] + rest, sep) == seq![x] + split_spec(rest, sep),
    decreases x.len(),
{
    let s = x + seq![sep] + rest;
    if x.len() == 0 {
        assert(x =~= Seq::<char>::empty());
        assert(s[0] == sep);
        assert(s.drop_first() =~= rest);
        assert(split_spec(s, sep) =~= seq![x] + split_spec(rest, sep));
    } else {
        assert(s[0] == x[0]);
        assert(x.contains(sep) <== x[0] == sep);
        assert(s[0] != sep);
        assert(!x.drop_first().contains(sep)) by {
            if x.drop_first().contains(sep) {
                let i = choose|i: int|
                    0 <= i < x.drop_first().len() && x.drop_first()[i] == sep;
                assert(x[i + 1] == sep);
            }
        }
        assert(s.drop_first() =~= x.drop_first() + seq![sep] + rest);
        lemma_split_peel(x.drop_first(), rest, sep);
        let inner = split_spec(s.drop_first(), sep);
        assert(inner == seq![x.drop_first()] + split_spec(rest, sep));
        assert(inner[0] == x.drop_first());
        assert(inner.drop_first() =~= split_spec(rest, sep));
        assert(seq![x[0]] + x.drop_first() =~= x);
        assert(split_spec(s, sep) =~= seq![x] + split_spec(rest, sep));
    }
}

/// Round trip: for every non-empty sequence of separator-free fields, the
/// joined output, split on the separator, reproduces the original sequence
/// exactly.
pub proof fn lemma_join_split_round_trip(elems: Seq<Seq<char>>, sep: char)
    requires
        elems.len() >= 1,
        forall|i: int| 0 <= i < elems.len() ==> !(#[trigger] elems[i]).contains(sep),
    ensures
        split_spec(join_spec(elems, sep), sep) == elems,
    decreases elems.len(),
{
    if elems.len() == 1 {
        lemma_split_whole(elems[0], sep);
        assert(seq![elems[0]] =~= elems);
    } else {
        let tail = elems.drop_first();
        assert(forall|i: int| 0 <= i < tail.len() ==> !(#[trigger] tail[i]).contains(sep))
            by {
            assert(forall|i: int|
                0 <= i < tail.len() ==> tail[i] == #[trigger] elems[i + 1]);
        }
        lemma_join_split_round_trip(tail, sep);
        lemma_split_peel(elems[0], join_spec(tail, sep), sep);
        assert(seq![elems[0]] + tail =~= elems);
    }
}

/// Joins the values with a comma between adjacent values, in input order.
///
/// This is the canonical flattening of a multi-valued query parameter into
/// the single value that stands after `key=` in the query string.
pub fn join_comma(values: &Vec<String>) -> (r: String)
    ensures
        r@ == join_spec(values.deep_view(), ','),
{
    let mut out = String::new();
    let mut i: usize = 0;
    proof {
        assert(values.deep_view().take(0) =~= Seq::<Seq<char>>::empty());
    }
    while i < values.len()
        invariant
            i <= values.len(),
            out@ == join_spec(values.deep_view().take(i as int), ','),
        decreases values.len() - i,
    {
        proof {
            reveal_strlit(",");
            assert(","@ =~= seq![',']);
            assert(values.deep_view().take(i + 1) =~= values.deep_view().take(i as int).push(
                values.deep_view()[i as int],
            ));
            if i >= 1 {
                lemma_join_push(
                    values.deep_view().take(i as int),
                    values.deep_view()[i as int],
                    ',',
                );
            } else {
                assert(join_spec(seq![values.deep_view()[0]], ',') == values.deep_view()[0]);
            }
        }
        if i > 0 {
            out.append(",");
        }
        out.append(values[i].as_str());
        proof {
            if i == 0 {
                assert(out@ =~= values.deep_view()[0]);
                assert(values.deep_view().take(1) =~= seq![values.deep_view()[0]]);
            }
        }
        i += 1;
    }
    proof {
        assert(values.deep_view().take(values.len() as int) =~= values.deep_view());
    }
    out
}

/// The comma-joined value of a parameter whose value was required. A `None`
/// here is a programming error in the caller — correctly generated callers
/// never pass one — so the precondition excludes it outright.
pub fn join_comma_required(values: &Option<Vec<String>>) -> (r: String)
    requires
        values is Some,
    ensures
        r@ == join_spec(values->0.deep_view(), ','),
{
    match values {
        Option::Some(v) => join_comma(v),
        Option::None => vstd::pervasive::unreached(),
    }
}

/// The canonical `key=value` pair of one parameter: the values flattened to
/// a single comma-joined value.
pub open spec fn pair_spec(key: Seq<char>, values: Seq<Seq<char>>) -> Seq<char> {
    key + seq!['='] + join_spec(values, ',')
}

/// The parameter list as the sequence of `key=value` pairs that stand in
/// the query string, in input order.
pub open spec fn pairs_of(params: Seq<(String, Vec<String>)>) -> Seq<Seq<char>> {
    params.map_values(|p: (String, Vec<String>)| pair_spec(p.0@, p.1.deep_view()))
}

/// Serializes the parameters into the canonical query string: `key=value`
/// pairs joined by `&`, each multi-valued parameter flattened to one
/// comma-joined value.
pub fn encode_query(params: &Vec<(String, Vec<String>)>) -> (r: String)
    ensures
        r@ == join_spec(pairs_of(params@), '&'),
{
    let mut out = String::new();
    let mut i: usize = 0;
    proof {
        assert(pairs_of(params@).take(0) =~= Seq::<Seq<char>>::empty());
    }
    while i < params.len()
        invariant
            i <= params@.len(),
            out@ == join_spec(pairs_of(params@).take(i as int), '&'),
        decreases params@.len() - i,
    {
        proof {
            reveal_strlit("&");
            reveal_strlit("=");
            assert("&"@ =~= seq!['&']);
            assert("="@ =~= seq!['=']);
            assert(pairs_of(params@).take(i + 1) =~= pairs_of(params@).take(i as int).push(
                pairs_of(params@)[i as int],
            ));
            if i >= 1 {
                lemma_join_push(pairs_of(params@).take(i as int), pairs_of(params@)[i as int], '&');
            }
        }
        if i > 0 {
            out.append("&");
        }
        let ghost before = out@;
        let p = &params[i];
        out.append(p.0.as_str());
        out.append("=");
        let joined = join_comma(&p.1);
        out.append(joined.as_str());
        proof {
            assert(out@ =~= before + pairs_of(params@)[i as int]);
            if i == 0 {
                assert(out@ =~= pairs_of(params@)[0]);
                assert(pairs_of(params@).take(1) =~= seq![pairs_of(params@)[0]]);
                assert(join_spec(seq![pairs_of(params@)[0]], '&') == pairs_of(params@)[0]);
            }
        }
        i += 1;
    }
    proof {
        assert(pairs_of(params@).take(params@.len() as int) =~= pairs_of(params@));
    }
    out
}

} // verus!
