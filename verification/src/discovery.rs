//! Selection of the addresses a relay should listen on.
//!
//! Given every address found on the machine's interfaces, `discover` keeps
//! exactly the globally routable ones, drops duplicates, and returns them
//! in a fixed deterministic order (family first, numeric within a family).

use vstd::prelude::*;

use crate::addr::{lemma_global_not_loopback_or_link_local, spec_is_global, spec_is_link_local,
    spec_is_loopback, spec_lt, IpAddress};

verus! {

/// Strictly ascending under the family-then-numeric order; in particular,
/// free of duplicates.
pub open spec fn sorted_strict(s: Seq<IpAddress>) -> bool {
    forall|i: int, j: int| 0 <= i < j < s.len() ==> spec_lt(#[trigger] s[i], #[trigger] s[j])
}

proof fn lemma_lt_trans(a: IpAddress, b: IpAddress, c: IpAddress)
    requires
        spec_lt(a, b),
        spec_lt(b, c),
    ensures
        spec_lt(a, c),
{
}

proof fn lemma_lt_total(a: IpAddress, b: IpAddress)
    requires
        !spec_lt(a, b),
        a != b,
    ensures
        spec_lt(b, a),
{
}

/// The index at which `a` belongs in a strictly sorted vector: everything
/// before it is strictly smaller, and the element standing there, if any,
/// is not smaller.
fn lower_bound(v: &Vec<IpAddress>, a: IpAddress) -> (i: usize)
    requires
        sorted_strict(v@),
    ensures
        0 <= i <= v@.len(),
        forall|j: int| 0 <= j < i ==> spec_lt(#[trigger] v@[j], a),
        i < v@.len() ==> !spec_lt(v@[i as int], a),
{
    let mut i: usize = 0;
    while i < v.len()
        invariant
            0 <= i <= v@.len(),
            forall|j: int| 0 <= j < i ==> spec_lt(#[trigger] v@[j], a),
        decreases v@.len() - i,
    {
        if !v[i].lt(&a) {
            return i;
        }
        i += 1;
    }
    i
}

/// Inserts an address into a strictly sorted vector, keeping it strictly
/// sorted; an address already present is not inserted twice.
fn insert_sorted(v: &mut Vec<IpAddress>, a: IpAddress)
    requires
        sorted_strict(old(v)@),
    ensures
        sorted_strict(final(v)@),
        forall|x: IpAddress| final(v)@.contains(x) <==> (old(v)@.contains(x) || x == a),
{
    let i = lower_bound(v, a);
    if i < v.len() && v[i] == a {
        proof {
            assert(v@.contains(a));
        }
        return ;
    }
    proof {
        if i < v@.len() {
            lemma_lt_total(v@[i as int], a);
        }
        // `a` is nowhere in the old vector: smaller entries stand before
        // the insertion point, larger ones after it.
        assert forall|j: int| i <= j < v@.len() implies spec_lt(a, #[trigger] v@[j]) by {
            if j > i {
                lemma_lt_trans(a, v@[i as int], v@[j]);
            }
        }
        assert(!v@.contains(a));
    }
    let ghost before = v@;
    v.insert(i, a);
    proof {
        before.insert_ensures(i as int, a);
        assert forall|p: int, q: int| 0 <= p < q < v@.len() implies spec_lt(
            #[trigger] v@[p],
            #[trigger] v@[q],
        ) by {
            if q < i {
            } else if p < i && q == i {
            } else if p == i {
            } else if p < i {
                lemma_lt_trans(v@[p], a, v@[q]);
            }
        }
        assert forall|x: IpAddress| v@.contains(x) <==> (before.contains(x) || x == a) by {
            assert(v@[i as int] == a);
            if before.contains(x) {
                let j = choose|j: int| 0 <= j < before.len() && before[j] == x;
                if j < i {
                    assert(v@[j] == x);
                } else {
                    assert(v@[j + 1] == x);
                }
            }
            if v@.contains(x) && x != a {
                let j = choose|j: int| 0 <= j < v@.len() && v@[j] == x;
                if j < i {
                    assert(before[j] == x);
                } else {
                    assert(before[j - 1] == x);
                }
            }
        }
    }
}

/// What `discover` hands back is clean: no entry appears twice, and no
/// entry is a loopback or link-local address.
pub proof fn lemma_discovery_output_clean(s: Seq<IpAddress>)
    requires
        sorted_strict(s),
        forall|i: int| 0 <= i < s.len() ==> spec_is_global(#[trigger] s[i]),
    ensures
        forall|i: int, j: int| 0 <= i < j < s.len() ==> s[i] != s[j],
        forall|i: int|
            0 <= i < s.len() ==> !spec_is_loopback(#[trigger] s[i]) && !spec_is_link_local(s[i]),
{
    assert forall|i: int, j: int| 0 <= i < j < s.len() implies s[i] != s[j] by {
        assert(spec_lt(s[i], s[j]));
    }
    assert forall|i: int|
        0 <= i < s.len() implies !spec_is_loopback(#[trigger] s[i]) && !spec_is_link_local(
        s[i],
    ) by {
        lemma_global_not_loopback_or_link_local(s[i]);
    }
}

/// Keeps exactly the globally routable addresses among the candidates,
/// without duplicates, in a deterministic order. The candidate list is
/// every address seen on the machine's interfaces, in any order.
pub fn discover(candidates: &Vec<IpAddress>) -> (r: Vec<IpAddress>)
    ensures
        sorted_strict(r@),
        forall|i: int|
            0 <= i < r@.len() ==> spec_is_global(#[trigger] r@[i]) && candidates@.contains(r@[i]),
        forall|a: IpAddress| candidates@.contains(a) && spec_is_global(a) ==> r@.contains(a),
{
    let mut out: Vec<IpAddress> = Vec::new();
    let mut k: usize = 0;
    while k < candidates.len()
        invariant
            0 <= k <= candidates@.len(),
            sorted_strict(out@),
            forall|i: int|
                0 <= i < out@.len() ==> spec_is_global(#[trigger] out@[i]) && candidates@.contains(
                    out@[i],
                ),
            forall|j: int|
                0 <= j < k && spec_is_global(#[trigger] candidates@[j]) ==> out@.contains(
                    candidates@[j],
                ),
        decreases candidates@.len() - k,
    {
        let c = candidates[k];
        if c.is_global() {
            let ghost prev = out@;
            insert_sorted(&mut out, c);
            proof {
                assert(candidates@.contains(c)) by {
                    assert(candidates@[k as int] == c);
                }
                assert forall|i: int|
                    0 <= i < out@.len() implies spec_is_global(#[trigger] out@[i])
                    && candidates@.contains(out@[i]) by {
                    let x = out@[i];
                    assert(out@.contains(x));
                    if x != c {
                        assert(prev.contains(x));
                        let j = choose|j: int| 0 <= j < prev.len() && prev[j] == x;
                        assert(spec_is_global(prev[j]) && candidates@.contains(prev[j]));
                    }
                }
            }
        }
        k += 1;
    }
    proof {
        assert forall|a: IpAddress| candidates@.contains(a) && spec_is_global(a) implies
            out@.contains(a) by {
            let j = choose|j: int| 0 <= j < candidates@.len() && candidates@[j] == a;
            assert(out@.contains(candidates@[j]));
        }
    }
    out
}

} // verus!
