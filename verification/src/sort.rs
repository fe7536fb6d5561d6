use crate::encounter::all_species_in;
use crate::encounter::Encounter;
use crate::order::lemma_lex_le_total;
use crate::order::lemma_lex_le_trans;
use crate::order::lex_le;
use crate::order::lex_le_bytes;
use crate::order::lex_lt;
use vstd::prelude::*;

verus! {

/// The display names of a species-name lookup, one byte string per species.
pub open spec fn name_table(names: Seq<Vec<u8>>) -> Seq<Seq<u8>> {
    names.map(|i: int, n: Vec<u8>| n@)
}

/// The sort key of a row: the display name of its species.
pub open spec fn key_of(names: Seq<Seq<u8>>, e: Encounter) -> Seq<u8> {
    names[e.species as int]
}

/// The rows of `s` appear in species-display-name order.
pub open spec fn sorted_by_name(names: Seq<Seq<u8>>, s: Seq<Encounter>) -> bool {
    forall|i: int, j: int|
        0 <= i < j < s.len() ==> lex_le(key_of(names, s[i]), key_of(names, s[j]))
}

/// `e` placed before the first row of `s` whose key is strictly above
/// `e`'s, so rows with equal keys keep their order: the sort is stable.
pub open spec fn insert_sorted(names: Seq<Seq<u8>>, e: Encounter, s: Seq<Encounter>) -> Seq<
    Encounter,
>
    decreases s.len(),
{
    if s.len() == 0 {
        seq![e]
    } else if lex_lt(key_of(names, e), key_of(names, s[0])) {
        seq![e] + s
    } else {
        seq![s[0]] + insert_sorted(names, e, s.skip(1))
    }
}

/// Insertion sort of `s` by species display name.
pub open spec fn sort_by_name(names: Seq<Seq<u8>>, s: Seq<Encounter>) -> Seq<Encounter>
    decreases s.len(),
{
    if s.len() == 0 {
        Seq::empty()
    } else {
        insert_sorted(names, s.last(), sort_by_name(names, s.drop_last()))
    }
}

/// Inserting one row grows the sequence by one and adds exactly that row.
pub proof fn lemma_insert_sorted_multiset(names: Seq<Seq<u8>>, e: Encounter, s: Seq<Encounter>)
    ensures
        insert_sorted(names, e, s).to_multiset() == s.to_multiset().insert(e),
        insert_sorted(names, e, s).len() == s.len() + 1,
    decreases s.len(),
{
    broadcast use vstd::seq_lib::group_to_multiset_ensures;

    if s.len() == 0 {
        assert(seq![e] =~= Seq::<Encounter>::empty().push(e));
    } else if lex_lt(key_of(names, e), key_of(names, s[0])) {
        assert(seq![e] + s =~= (seq![e] + s.drop_last()).push(s.last()));
        lemma_insert_prefix_multiset(e, s);
    } else {
        lemma_insert_sorted_multiset(names, e, s.skip(1));
        assert(seq![s[0]] + insert_sorted(names, e, s.skip(1)) =~= insert_sorted(
            names,
            e,
            s.skip(1),
        ).insert(0, s[0]));
        lemma_multiset_insert_front(insert_sorted(names, e, s.skip(1)), s[0]);
        assert(s =~= s.skip(1).insert(0, s[0]));
        lemma_multiset_insert_front(s.skip(1), s[0]);
        assert(insert_sorted(names, e, s).to_multiset() =~= s.to_multiset().insert(e));
    }
}

proof fn lemma_insert_prefix_multiset(e: Encounter, s: Seq<Encounter>)
    ensures
        (seq![e] + s).to_multiset() == s.to_multiset().insert(e),
        (seq![e] + s).len() == s.len() + 1,
    decreases s.len(),
{
    broadcast use vstd::seq_lib::group_to_multiset_ensures;

    if s.len() == 0 {
        assert(seq![e] + s =~= Seq::<Encounter>::empty().push(e));
    } else {
        lemma_insert_prefix_multiset(e, s.drop_last());
        assert(seq![e] + s =~= (seq![e] + s.drop_last()).push(s.last()));
        assert(s =~= s.drop_last().push(s.last()));
        assert((seq![e] + s).to_multiset() =~= s.to_multiset().insert(e));
    }
}

/// A lower bound on every key of `s` and on `e`'s key bounds the insertion too.
proof fn lemma_insert_sorted_bounded(names: Seq<Seq<u8>>, lo: Seq<u8>, e: Encounter, s: Seq<
    Encounter,
>)
    requires
        lex_le(lo, key_of(names, e)),
        forall|k: int| 0 <= k < s.len() ==> lex_le(lo, key_of(names, #[trigger] s[k])),
    ensures
        forall|k: int|
            0 <= k < insert_sorted(names, e, s).len() ==> lex_le(
                lo,
                key_of(names, #[trigger] insert_sorted(names, e, s)[k]),
            ),
    decreases s.len(),
{
    let r = insert_sorted(names, e, s);
    if s.len() == 0 {
        assert(r[0] == e);
    } else if lex_lt(key_of(names, e), key_of(names, s[0])) {
        assert forall|k: int| 0 <= k < r.len() implies lex_le(lo, key_of(names, r[k])) by {
            if k == 0 {
                assert(r[k] == e);
            } else {
                assert(r[k] == s[k - 1]);
            }
        }
    } else {
        assert(forall|k: int|
            0 <= k < s.skip(1).len() ==> lex_le(lo, key_of(names, #[trigger] s.skip(1)[k])));
        lemma_insert_sorted_bounded(names, lo, e, s.skip(1));
        let t = insert_sorted(names, e, s.skip(1));
        assert forall|k: int| 0 <= k < r.len() implies lex_le(lo, key_of(names, r[k])) by {
            if k == 0 {
                assert(r[k] == s[0]);
            } else {
                assert(r[k] == t[k - 1]);
            }
        }
    }
}

/// Inserting a row keeps the sequence sorted by species display name.
pub proof fn lemma_insert_sorted_preserves(names: Seq<Seq<u8>>, e: Encounter, s: Seq<Encounter>)
    requires
        sorted_by_name(names, s),
    ensures
        sorted_by_name(names, insert_sorted(names, e, s)),
    decreases s.len(),
{
    if s.len() == 0 {
    } else if lex_lt(key_of(names, e), key_of(names, s[0])) {
        lemma_lex_le_total(key_of(names, e), key_of(names, s[0]));
        let r = seq![e] + s;
        assert forall|i: int, j: int| 0 <= i < j < r.len() implies lex_le(
            key_of(names, r[i]),
            key_of(names, r[j]),
        ) by {
            if i == 0 {
                if j > 1 {
                    lemma_lex_le_trans(
                        key_of(names, e),
                        key_of(names, s[0]),
                        key_of(names, s[j - 1]),
                    );
                }
            }
        }
    } else {
        assert(forall|i: int, j: int|
            0 <= i < j < s.skip(1).len() ==> lex_le(
                key_of(names, #[trigger] s.skip(1)[i]),
                key_of(names, #[trigger] s.skip(1)[j]),
            ));
        lemma_insert_sorted_preserves(names, e, s.skip(1));
        assert(forall|k: int|
            0 <= k < s.skip(1).len() ==> lex_le(
                key_of(names, s[0]),
                key_of(names, #[trigger] s.skip(1)[k]),
            ));
        lemma_insert_sorted_bounded(names, key_of(names, s[0]), e, s.skip(1));
        let t = insert_sorted(names, e, s.skip(1));
        let r = seq![s[0]] + t;
        assert forall|i: int, j: int| 0 <= i < j < r.len() implies lex_le(
            key_of(names, r[i]),
            key_of(names, r[j]),
        ) by {
            if i > 0 {
                assert(r[i] == t[i - 1] && r[j] == t[j - 1]);
            } else {
                assert(r[j] == t[j - 1]);
            }
        }
    }
}

/// The sort returns the same rows, in species-display-name order.
pub proof fn lemma_sort_by_name_correct(names: Seq<Seq<u8>>, s: Seq<Encounter>)
    ensures
        sorted_by_name(names, sort_by_name(names, s)),
        sort_by_name(names, s).to_multiset() == s.to_multiset(),
        sort_by_name(names, s).len() == s.len(),
    decreases s.len(),
{
    broadcast use vstd::seq_lib::group_to_multiset_ensures;

    if s.len() == 0 {
    } else {
        lemma_sort_by_name_correct(names, s.drop_last());
        lemma_insert_sorted_preserves(names, s.last(), sort_by_name(names, s.drop_last()));
        lemma_insert_sorted_multiset(names, s.last(), sort_by_name(names, s.drop_last()));
        assert(s =~= s.drop_last().push(s.last()));
        assert(sort_by_name(names, s).to_multiset() =~= s.to_multiset());
    }
}

proof fn lemma_multiset_insert_front(s: Seq<Encounter>, e: Encounter)
    ensures
        s.insert(0, e).to_multiset() == s.to_multiset().insert(e),
{
    broadcast use vstd::seq_lib::group_to_multiset_ensures;

    assert(s.insert(0, e) =~= seq![e] + s);
    lemma_insert_prefix_multiset(e, s);
}

/// Selects the rows whose sort key is exactly `k`.
pub open spec fn has_key(names: Seq<Seq<u8>>, k: Seq<u8>) -> spec_fn(Encounter) -> bool {
    |e: Encounter| key_of(names, e) == k
}

/// Every key of `t` is strictly above `e`'s key, so no row of `t` carries it.
proof fn lemma_all_above_filter_empty(names: Seq<Seq<u8>>, e: Encounter, t: Seq<Encounter>)
    requires
        sorted_by_name(names, t),
        t.len() > 0 ==> lex_lt(key_of(names, e), key_of(names, t[0])),
    ensures
        t.filter(has_key(names, key_of(names, e))) == Seq::<Encounter>::empty(),
    decreases t.len(),
{
    reveal(Seq::filter);
    let p = has_key(names, key_of(names, e));
    if t.len() > 0 {
        assert(forall|i: int, j: int|
            0 <= i < j < t.drop_last().len() ==> lex_le(
                key_of(names, #[trigger] t.drop_last()[i]),
                key_of(names, #[trigger] t.drop_last()[j]),
            ));
        lemma_all_above_filter_empty(names, e, t.drop_last());
        if key_of(names, t.last()) == key_of(names, e) {
            if t.len() == 1 {
                lemma_lex_le_total(key_of(names, e), key_of(names, e));
            } else {
                assert(lex_le(key_of(names, t[0]), key_of(names, t.last())));
            }
            assert(false);
        }
        assert(!p(t.last()));
        assert(t.filter(p) =~= Seq::<Encounter>::empty());
    }
}

/// Inserting `e` into a sorted sequence appends it after every row that
/// shares its key and moves no other row of that key.
proof fn lemma_insert_sorted_filter(names: Seq<Seq<u8>>, e: Encounter, t: Seq<Encounter>, k: Seq<
    u8,
>)
    requires
        sorted_by_name(names, t),
    ensures
        insert_sorted(names, e, t).filter(has_key(names, k)) == if key_of(names, e) == k {
            t.filter(has_key(names, k)).push(e)
        } else {
            t.filter(has_key(names, k))
        },
    decreases t.len(),
{
    reveal(Seq::filter);
    let p = has_key(names, k);
    assert(p(e) == (key_of(names, e) == k));
    assert(Seq::<Encounter>::empty().filter(p) =~= Seq::<Encounter>::empty());
    assert(seq![e].drop_last() =~= Seq::<Encounter>::empty());
    assert(seq![e].last() == e);
    if t.len() == 0 {
        if key_of(names, e) == k {
            assert(seq![e].filter(p) =~= Seq::<Encounter>::empty().push(e));
        } else {
            assert(seq![e].filter(p) =~= Seq::<Encounter>::empty());
        }
    } else if lex_lt(key_of(names, e), key_of(names, t[0])) {
        Seq::filter_distributes_over_add(seq![e], t, p);
        if key_of(names, e) == k {
            lemma_all_above_filter_empty(names, e, t);
            assert(seq![e].filter(p) =~= Seq::<Encounter>::empty().push(e));
            assert(seq![e] + t == insert_sorted(names, e, t));
            assert((seq![e] + t).filter(p) =~= t.filter(p).push(e));
        } else {
            assert(seq![e].filter(p) =~= Seq::<Encounter>::empty());
            assert((seq![e] + t).filter(p) =~= t.filter(p));
        }
    } else {
        assert(forall|i: int, j: int|
            0 <= i < j < t.skip(1).len() ==> lex_le(
                key_of(names, #[trigger] t.skip(1)[i]),
                key_of(names, #[trigger] t.skip(1)[j]),
            ));
        lemma_insert_sorted_filter(names, e, t.skip(1), k);
        Seq::filter_distributes_over_add(seq![t[0]], insert_sorted(names, e, t.skip(1)), p);
        Seq::filter_distributes_over_add(seq![t[0]], t.skip(1), p);
        assert(t =~= seq![t[0]] + t.skip(1));
        if key_of(names, e) == k {
            assert(seq![t[0]].filter(p) + t.skip(1).filter(p).push(e) =~= (seq![t[0]].filter(p)
                + t.skip(1).filter(p)).push(e));
        }
    }
}

/// Stability: the rows carrying any one display name appear in the sorted
/// result in exactly their input order.
pub proof fn lemma_sort_by_name_stable(names: Seq<Seq<u8>>, s: Seq<Encounter>, k: Seq<u8>)
    ensures
        sort_by_name(names, s).filter(has_key(names, k)) == s.filter(has_key(names, k)),
    decreases s.len(),
{
    reveal(Seq::filter);
    let p = has_key(names, k);
    if s.len() > 0 {
        lemma_sort_by_name_stable(names, s.drop_last(), k);
        lemma_sort_by_name_correct(names, s.drop_last());
        lemma_insert_sorted_filter(names, s.last(), sort_by_name(names, s.drop_last()), k);
        if key_of(names, s.last()) == k {
            assert(s.filter(p) == s.drop_last().filter(p).push(s.last()));
        } else {
            assert(s.filter(p) == s.drop_last().filter(p));
        }
    }
}

/// `insert_sorted` places `e` exactly at the first position whose key is
/// strictly above `e`'s key.
proof fn lemma_insert_sorted_position(names: Seq<Seq<u8>>, e: Encounter, s: Seq<Encounter>, j: int)
    requires
        0 <= j <= s.len(),
        forall|k: int| 0 <= k < j ==> !lex_lt(key_of(names, e), key_of(names, #[trigger] s[k])),
        j < s.len() ==> lex_lt(key_of(names, e), key_of(names, s[j])),
    ensures
        insert_sorted(names, e, s) == s.insert(j, e),
    decreases j,
{
    if j == 0 {
        assert(s.insert(0, e) =~= seq![e] + s);
        if s.len() == 0 {
            assert(seq![e] =~= seq![e] + s);
        }
    } else {
        assert(!lex_lt(key_of(names, e), key_of(names, s[0])));
        assert(forall|k: int|
            0 <= k < j - 1 ==> !lex_lt(key_of(names, e), key_of(names, #[trigger] s.skip(1)[k])));
        assert(j - 1 < s.skip(1).len() ==> lex_lt(key_of(names, e), key_of(names, s.skip(1)[j - 1])));
        lemma_insert_sorted_position(names, e, s.skip(1), j - 1);
        assert(s.insert(j, e) =~= seq![s[0]] + s.skip(1).insert(j - 1, e));
    }
}

/// Places `row` into `out`, kept sorted by species display name.
fn insert_by_key(names: &Vec<Vec<u8>>, out: &mut Vec<Encounter>, row: Encounter)
    requires
        row.species < names@.len(),
        all_species_in(old(out)@, names@.len()),
    ensures
        final(out)@ == insert_sorted(name_table(names@), row, old(out)@),
        all_species_in(final(out)@, names@.len()),
{
    let nt = Ghost(name_table(names@));
    let mut j: usize = 0;
    loop
        invariant
            0 <= j <= out.len(),
            nt@ == name_table(names@),
            row.species < names@.len(),
            all_species_in(out@, names@.len()),
            out@ == old(out)@,
            forall|k: int|
                0 <= k < j ==> !lex_lt(key_of(nt@, row), key_of(nt@, #[trigger] out@[k])),
        ensures
            0 <= j <= out.len(),
            out@ == old(out)@,
            forall|k: int|
                0 <= k < j ==> !lex_lt(key_of(nt@, row), key_of(nt@, #[trigger] out@[k])),
            j < out.len() ==> lex_lt(key_of(nt@, row), key_of(nt@, out@[j as int])),
        decreases out.len() - j,
    {
        if j == out.len() {
            break ;
        }
        let s = out[j].species;
        assert(key_of(nt@, row) == names@[row.species as int]@);
        assert(key_of(nt@, out@[j as int]) == names@[s as int]@);
        if !lex_le_bytes(&names[s as usize], &names[row.species as usize]) {
            break ;
        }
        j = j + 1;
    }
    proof {
        lemma_insert_sorted_position(nt@, row, out@, j as int);
    }
    out.insert(j, row);
    proof {
        assert forall|i: int| 0 <= i < out@.len() implies (#[trigger] out@[i]).species
            < names@.len() by {
            if i < j {
                assert(out@[i] == old(out)@[i]);
            } else if i > j {
                assert(out@[i] == old(out)@[i - 1]);
            }
        }
    }
}

/// Sorts an encounter table by species display name: the result is exactly
/// the insertion sort of the input under the byte-wise name order.
#[verifier::rlimit(30)]
pub fn sort_encounters(names: &Vec<Vec<u8>>, table: Vec<Encounter>) -> (r: Vec<Encounter>)
    requires
        all_species_in(table@, names@.len()),
    ensures
        r@ == sort_by_name(name_table(names@), table@),
        sorted_by_name(name_table(names@), r@),
        r@.to_multiset() == table@.to_multiset(),
        r@.len() == table@.len(),
        all_species_in(r@, names@.len()),
{
    let ghost orig = table@;
    let mut rest = table;
    let mut out: Vec<Encounter> = Vec::new();
    while rest.len() > 0
        invariant
            all_species_in(rest@, names@.len()),
            all_species_in(out@, names@.len()),
            orig == orig.take(orig.len() - rest@.len()) + rest@,
            rest@.len() <= orig.len(),
            out@ == sort_by_name(name_table(names@), orig.take(orig.len() - rest@.len())),
        decreases rest@.len(),
    {
        let ghost done = orig.len() - rest@.len();
        let ghost prev = rest@;
        let row = rest.remove(0);
        assert(row.species < names@.len()) by {
            assert(prev[0] == row);
        }
        assert(forall|i: int| 0 <= i < rest@.len() ==> (#[trigger] rest@[i]).species < names@.len())
            by {
            assert(forall|i: int| 0 <= i < rest@.len() ==> rest@[i] == prev[i + 1]);
        }
        insert_by_key(names, &mut out, row);
        proof {
            assert(orig.take(done + 1) =~= orig.take(done).push(orig[done]));
            assert(orig[done] == row);
            assert(orig.take(done + 1).drop_last() =~= orig.take(done));
            assert(orig =~= orig.take(done + 1) + rest@);
        }
    }
    proof {
        assert(orig.take(orig.len() as int) =~= orig);
        lemma_sort_by_name_correct(name_table(names@), orig);
    }
    out
}

} // verus!
