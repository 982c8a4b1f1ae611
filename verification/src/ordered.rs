//! Sets of node identifiers in ascending order.
use std::collections::BTreeSet;
use vstd::prelude::*;
use vstd::std_specs::btree::increasing_seq;
use vstd::std_specs::btree::key_obeys_cmp_spec;
use vstd::std_specs::btree::spec_btree_keys_iter;
use vstd::std_specs::cmp::OrdSpec;
use vstd::std_specs::iter::IteratorSpec;

verus! {

/// Each element is smaller than every later one.
pub open spec fn ascends(xs: Seq<u64>) -> bool {
    forall|i: int, j: int| 0 <= i < j < xs.len() ==> xs[i] < xs[j]
}

/// `xs` holds the members of `s`, each once, smallest first.
pub open spec fn lists(xs: Seq<u64>, s: Set<u64>) -> bool {
    ascends(xs) && xs.to_set() == s
}

/// The members of a finite set, smallest first.
pub open spec fn ascending(s: Set<u64>) -> Seq<u64> {
    choose|xs: Seq<u64>| lists(xs, s)
}

/// A set has at most one ascending listing.
pub proof fn lemma_listing_unique(xs: Seq<u64>, ys: Seq<u64>, s: Set<u64>)
    requires
        lists(xs, s),
        lists(ys, s),
    ensures
        xs == ys,
    decreases xs.len(),
{
    if xs.len() == 0 {
        if ys.len() > 0 {
            assert(ys.to_set().contains(ys[0]));
        }
    } else {
        let top = xs.last();
        assert(xs.to_set().contains(top));
        let k = choose|k: int| 0 <= k < ys.len() && ys[k] == top;
        if k != ys.len() - 1 {
            let other = ys.last();
            assert(ys.to_set().contains(other));
        }
        let xs0 = xs.drop_last();
        let ys0 = ys.drop_last();
        let s0 = s.remove(top);
        assert(xs0.to_set() =~= s0) by {
            assert forall|x: u64| xs0.to_set().contains(x) <==> s0.contains(x) by {
                if xs0.to_set().contains(x) {
                    let i = choose|i: int| 0 <= i < xs0.len() && xs0[i] == x;
                }
                if s0.contains(x) {
                    let i = choose|i: int| 0 <= i < xs.len() && xs[i] == x;
                    assert(xs0[i] == x);
                }
            }
        }
        assert(ys0.to_set() =~= s0) by {
            assert forall|x: u64| ys0.to_set().contains(x) <==> s0.contains(x) by {
                if ys0.to_set().contains(x) {
                    let i = choose|i: int| 0 <= i < ys0.len() && ys0[i] == x;
                }
                if s0.contains(x) {
                    let i = choose|i: int| 0 <= i < ys.len() && ys[i] == x;
                    assert(ys0[i] == x);
                }
            }
        }
        lemma_listing_unique(xs0, ys0, s0);
        assert(xs =~= xs0.push(top));
    }
}

/// An ascending listing of a set is the one that `ascending` names.
pub proof fn lemma_ascending_is(xs: Seq<u64>, s: Set<u64>)
    requires
        lists(xs, s),
    ensures
        ascending(s) == xs,
        lists(ascending(s), s),
{
    lemma_listing_unique(ascending(s), xs, s);
}

spec fn precedes<K: Ord>(a: K, b: K) -> bool {
    a.cmp_spec(&b) is Less
}

/// The keys that an iterator over `set` yields come in ascending order.
pub proof fn lemma_keys_ascend(set: &BTreeSet<u64>)
    ensures
        key_obeys_cmp_spec::<u64>(),
        forall|i: int, j: int|
            0 <= i < j < spec_btree_keys_iter(set).remaining().len() ==> *spec_btree_keys_iter(
                set,
            ).remaining()[i] < *spec_btree_keys_iter(set).remaining()[j],
{
    let keys = spec_btree_keys_iter(set).remaining();
    vstd::std_specs::btree::axiom_increasing_seq_meaning::<&u64>(keys);
    assert forall|i: int, j: int| 0 <= i < j < keys.len() implies *keys[i] < *keys[j] by {
        assert(precedes::<&u64>(keys[i], keys[j]));
    }
}

/// The members of `set`, smallest first.
pub(crate) fn listing(set: &BTreeSet<u64>) -> (r: Vec<u64>)
    ensures
        r@ == ascending(set@),
        lists(r@, set@),
{
    let mut out: Vec<u64> = Vec::new();
    proof {
        lemma_keys_ascend(set);
    }
    let iter = set.iter();
    for x in it: iter
        invariant
            out@ == it.seq().take(it.index() as int).map_values(|k: &u64| *k),
    {
        out.push(*x);
    }
    proof {
        let keys = spec_btree_keys_iter(set).remaining();
        assert(out@ =~= keys.unref());
        lemma_ascending_is(out@, set@);
    }
    out
}

/// `BTreeSet::pop_first` of the standard library: takes the smallest member
/// out of the set and returns it; `None` for an empty set.
#[verifier::external_body]
pub(crate) fn pop_first(set: &mut BTreeSet<u64>) -> (r: Option<u64>)
    ensures
        match r {
            Some(least) => {
                &&& old(set)@.contains(least)
                &&& forall|x: u64| old(set)@.contains(x) ==> least <= x
                &&& final(set)@ == old(set)@.remove(least)
            },
            None => old(set)@.is_empty() && final(set)@ == old(set)@,
        },
{
    set.pop_first()
}

/// The members of `a` that `b` lacks, smallest first.
pub(crate) fn listing_without(a: &BTreeSet<u64>, b: &BTreeSet<u64>) -> (r: Vec<u64>)
    ensures
        r@ == ascending(a@.difference(b@)),
        lists(r@, a@.difference(b@)),
{
    let all = listing(a);
    let mut out: Vec<u64> = Vec::new();
    let mut i: usize = 0;
    while i < all.len()
        invariant
            i <= all.len(),
            lists(all@, a@),
            ascends(out@),
            forall|k: int, j: int| 0 <= k < out.len() && i <= j < all.len() ==> out[k] < all[j],
            forall|x: u64| out@.contains(x) <==> all@.take(i as int).contains(x) && !b@.contains(x),
        decreases all.len() - i,
    {
        let x = all[i];
        let ghost shorter = all@.take(i as int);
        let ghost longer = all@.take(i + 1);
        let ghost prior = out@;
        proof {
            assert(longer =~= shorter.push(x));
            assert forall|y: u64| longer.contains(y) <==> shorter.contains(y) || y == x by {
                vstd::seq_lib::lemma_seq_contains_after_push(shorter, x, y);
            }
        }
        if !b.contains(&x) {
            out.push(x);
            proof {
                assert forall|y: u64| out@.contains(y) <==> prior.contains(y) || y == x by {
                    vstd::seq_lib::lemma_seq_contains_after_push(prior, x, y);
                }
            }
        }
        proof {
            assert forall|y: u64| out@.contains(y) <==> longer.contains(y) && !b@.contains(y) by {
                assert(prior.contains(y) <==> shorter.contains(y) && !b@.contains(y));
            }
        }
        i += 1;
    }
    proof {
        assert(all@.take(i as int) =~= all@);
        assert(out@.to_set() =~= a@.difference(b@));
        lemma_ascending_is(out@, a@.difference(b@));
    }
    out
}

/// The set of the elements of `ids`.
pub(crate) fn collect(ids: &[u64]) -> (r: BTreeSet<u64>)
    ensures
        r@ == ids@.to_set(),
{
    let mut out: BTreeSet<u64> = BTreeSet::new();
    let mut i: usize = 0;
    while i < ids.len()
        invariant
            i <= ids.len(),
            out@ == ids@.take(i as int).to_set(),
        decreases ids.len() - i,
    {
        out.insert(ids[i]);
        proof {
            assert(ids@.take(i + 1) =~= ids@.take(i as int).push(ids@[i as int]));
            vstd::seq_lib::lemma_seq_contains_after_push(
                ids@.take(i as int),
                ids@[i as int],
                ids@[i as int],
            );
            assert(ids@.take(i + 1).to_set() =~= ids@.take(i as int).to_set().insert(
                ids@[i as int],
            )) by {
                assert forall|x: u64|
                    ids@.take(i + 1).to_set().contains(x) <==> ids@.take(i as int).to_set().insert(
                        ids@[i as int],
                    ).contains(x) by {
                    vstd::seq_lib::lemma_seq_contains_after_push(
                        ids@.take(i as int),
                        ids@[i as int],
                        x,
                    );
                }
            }
        }
        i += 1;
    }
    proof {
        assert(ids@.take(i as int) =~= ids@);
    }
    out
}

/// A finite set with a member has a greatest one.
pub proof fn lemma_greatest(s: Set<u64>) -> (m: u64)
    requires
        s.finite(),
        s.len() > 0,
    ensures
        s.contains(m),
        forall|x: u64| s.contains(x) ==> x <= m,
    decreases s.len(),
{
    let x = s.choose();
    let rest = s.remove(x);
    if rest.len() == 0 {
        assert forall|y: u64| s.contains(y) implies y <= x by {
        }
        x
    } else {
        let m = lemma_greatest(rest);
        if x > m {
            assert forall|y: u64| s.contains(y) implies y <= x by {
            }
            x
        } else {
            assert forall|y: u64| s.contains(y) implies y <= m by {
            }
            m
        }
    }
}

/// Every finite set has an ascending listing, the one that `ascending` names.
pub proof fn lemma_listing_exists(s: Set<u64>)
    requires
        s.finite(),
    ensures
        lists(ascending(s), s),
    decreases s.len(),
{
    if s.len() == 0 {
        s.lemma_len0_is_empty();
        assert(Seq::<u64>::empty().to_set() =~= Set::<u64>::empty());
        lemma_ascending_is(Seq::<u64>::empty(), s);
    } else {
        let m = lemma_greatest(s);
        let rest = s.remove(m);
        lemma_listing_exists(rest);
        let shorter = ascending(rest);
        let xs = shorter.push(m);
        assert forall|i: int, j: int| 0 <= i < j < xs.len() implies xs[i] < xs[j] by {
            assert(shorter.to_set().contains(shorter[i]));
        }
        assert forall|x: u64| xs.to_set().contains(x) <==> s.contains(x) by {
            vstd::seq_lib::lemma_seq_contains_after_push(shorter, m, x);
        }
        assert(xs.to_set() =~= s);
        lemma_ascending_is(xs, s);
    }
}

/// The empty set has the empty listing.
pub proof fn lemma_ascending_empty()
    ensures
        ascending(Set::<u64>::empty()) == Seq::<u64>::empty(),
{
    assert(Seq::<u64>::empty().to_set() =~= Set::<u64>::empty());
    lemma_ascending_is(Seq::<u64>::empty(), Set::<u64>::empty());
}

} // verus!
