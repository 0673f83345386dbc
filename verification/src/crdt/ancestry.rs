//! Why a bounded walk from parent to parent finds every ancestor: a way up
//! that is longer than the number of nodes passes some node twice, and can
//! be cut short.
use crate::crdt::document::{is_ancestor, reaches, Nodes};
use crate::crdt::uw_map::lookup;
use vstd::prelude::*;

verus! {

/// The node `i` steps above `b`, if the way up through live nodes is that
/// long.
pub open spec fn up(nodes: Nodes, b: Seq<char>, i: nat) -> Option<Seq<char>>
    decreases i,
{
    if i == 0 {
        Some(b)
    } else {
        match lookup(nodes, b) {
            Some(r) => match r.parent_id.val {
                Some(p) => up(nodes, p, (i - 1) as nat),
                None => None,
            },
            None => None,
        }
    }
}

/// Going up `j` steps and then `k` more is going up `j + k` steps.
proof fn lemma_up_compose(nodes: Nodes, b: Seq<char>, j: nat, k: nat)
    ensures
        up(nodes, b, j + k) == match up(nodes, b, j) {
            Some(x) => up(nodes, x, k),
            None => None,
        },
    decreases j,
{
    if j > 0 {
        match lookup(nodes, b) {
            Some(r) => match r.parent_id.val {
                Some(p) => {
                    lemma_up_compose(nodes, p, (j - 1) as nat, k);
                    assert(up(nodes, b, j + k) == up(nodes, p, (j + k - 1) as nat));
                },
                None => {},
            },
            None => {},
        }
    }
}

/// `a` is among the first `fuel` ancestors of `b` exactly when it stands
/// some steps above `b`, at least one and at most `fuel`.
proof fn lemma_reaches_is_up(nodes: Nodes, a: Seq<char>, b: Seq<char>, fuel: nat)
    ensures
        reaches(nodes, a, b, fuel) <==> exists|i: nat|
            1 <= i <= fuel && #[trigger] up(nodes, b, i) == Some(a),
    decreases fuel,
{
    if fuel > 0 {
        match lookup(nodes, b) {
            Some(r) => match r.parent_id.val {
                Some(p) => {
                    lemma_reaches_is_up(nodes, a, p, (fuel - 1) as nat);
                    if reaches(nodes, a, b, fuel) {
                        if p == a {
                            assert(up(nodes, b, 1) == Some(a)) by {
                                assert(up(nodes, p, 0) == Some(p));
                            }
                        } else {
                            let j = choose|j: nat|
                                1 <= j <= fuel - 1 && #[trigger] up(nodes, p, j) == Some(a);
                            assert(up(nodes, b, j + 1) == Some(a));
                        }
                    }
                    if exists|i: nat| 1 <= i <= fuel && #[trigger] up(nodes, b, i) == Some(a) {
                        let i = choose|i: nat|
                            1 <= i <= fuel && #[trigger] up(nodes, b, i) == Some(a);
                        if i == 1 {
                            assert(up(nodes, p, 0) == Some(p));
                        } else {
                            assert(up(nodes, p, (i - 1) as nat) == Some(a));
                        }
                    }
                },
                None => {
                    assert forall|i: nat| 1 <= i <= fuel implies #[trigger] up(nodes, b, i)
                        != Some(a) by {}
                },
            },
            None => {
                assert forall|i: nat| 1 <= i <= fuel implies #[trigger] up(nodes, b, i) != Some(
                    a,
                ) by {}
            },
        }
    } else {
        assert forall|i: nat| 1 <= i <= fuel implies #[trigger] up(nodes, b, i) != Some(a) by {}
    }
}

/// The nodes on the way up from `b`, `count` of them, `b` first.
pub open spec fn way_up(nodes: Nodes, b: Seq<char>, count: nat) -> Seq<Seq<char>> {
    Seq::new(count, |j: int| up(nodes, b, j as nat)->0)
}

/// A node that stands above `b` stands at most as many steps above it as
/// there are nodes stored.
proof fn lemma_way_up_is_short(nodes: Nodes, a: Seq<char>, b: Seq<char>, i: nat)
    requires
        nodes.kv.dom().finite(),
        i >= 1,
        up(nodes, b, i) == Some(a),
    ensures
        exists|k: nat| 1 <= k <= nodes.kv.dom().len() && #[trigger] up(nodes, b, k) == Some(a),
    decreases i,
{
    let n = nodes.kv.dom().len();
    if i > n {
        let xs = way_up(nodes, b, i);
        assert forall|j: int| 0 <= j < i implies up(nodes, b, j as nat) is Some && nodes.kv.dom().contains(
            #[trigger] xs[j],
        ) by {
            lemma_up_compose(nodes, b, j as nat, (i - j) as nat);
        }
        if xs.no_duplicates() {
            xs.unique_seq_to_set();
            assert(xs.to_set().subset_of(nodes.kv.dom())) by {
                assert forall|x: Seq<char>| xs.to_set().contains(x) implies nodes.kv.dom().contains(
                    x,
                ) by {
                    let j = xs.index_of(x);
                    assert(nodes.kv.dom().contains(xs[j]));
                }
            }
            vstd::set_lib::lemma_len_subset(xs.to_set(), nodes.kv.dom());
        }
        let (p, q) = choose|p: int, q: int|
            0 <= p < xs.len() && 0 <= q < xs.len() && p != q && xs[p] == xs[q];
        let (lo, hi) = if p < q {
            (p, q)
        } else {
            (q, p)
        };
        lemma_up_compose(nodes, b, hi as nat, (i - hi) as nat);
        lemma_up_compose(nodes, b, lo as nat, (i - hi) as nat);
        assert(xs[lo] == xs[hi]);
        let shorter = (lo + i - hi) as nat;
        assert(up(nodes, b, shorter) == Some(a));
        lemma_way_up_is_short(nodes, a, b, shorter);
    }
}

/// The bounded walk misses no ancestor: `a` is an ancestor of `b` exactly
/// when it is found some number of steps above `b`, whatever the number.
pub proof fn lemma_is_ancestor_is_complete(nodes: Nodes, a: Seq<char>, b: Seq<char>)
    requires
        nodes.kv.dom().finite(),
    ensures
        is_ancestor(nodes, a, b) <==> exists|fuel: nat| reaches(nodes, a, b, fuel),
        is_ancestor(nodes, a, b) <==> exists|i: nat| i >= 1 && #[trigger] up(nodes, b, i) == Some(a),
{
    let n = nodes.kv.dom().len();
    lemma_reaches_is_up(nodes, a, b, n);
    if exists|fuel: nat| reaches(nodes, a, b, fuel) {
        let fuel = choose|fuel: nat| reaches(nodes, a, b, fuel);
        lemma_reaches_is_up(nodes, a, b, fuel);
    }
    if exists|i: nat| i >= 1 && #[trigger] up(nodes, b, i) == Some(a) {
        let i = choose|i: nat| i >= 1 && #[trigger] up(nodes, b, i) == Some(a);
        lemma_way_up_is_short(nodes, a, b, i);
        let k = choose|k: nat| 1 <= k <= n && #[trigger] up(nodes, b, k) == Some(a);
        lemma_reaches_is_up(nodes, a, b, k);
    }
    if is_ancestor(nodes, a, b) {
        assert(reaches(nodes, a, b, n));
    }
}

} // verus!
