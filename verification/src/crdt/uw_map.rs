//! The update-wins map: a keyed store in which a concurrent update survives a
//! removal.
use crate::crdt::assoc::AssocList;
use crate::crdt::vtime::{
    bumped, count_of, joined, lemma_bumped_is_after, lemma_joined_associative,
    lemma_joined_commutative, lemma_joined_idempotent, strictly_before, Clock, VTime,
};
use crate::utility::{HashableItem, ReplicaId, UWMapItem};
use vstd::prelude::*;

verus! {

/// A value that two replicas may have changed apart, with the rule that
/// brings the two versions together.
pub trait Mergeable: UWMapItem {
    /// What the merge of two values stands for.
    spec fn merged(a: <Self as DeepView>::V, b: <Self as DeepView>::V) -> <Self as DeepView>::V;

    fn merge(&self, other: &Self) -> (m: Self)
        ensures
            m.deep_view() == Self::merged(self.deep_view(), other.deep_view()),
    ;
}

/// What can serve as a key of the map.
pub trait UWMapKey: HashableItem {

}

impl<T: HashableItem> UWMapKey for T {

}

impl Mergeable for VTime {
    open spec fn merged(a: Clock, b: Clock) -> Clock {
        joined(a, b)
    }

    fn merge(&self, other: &Self) -> (m: Self) {
        VTime::merge(self, other)
    }
}

/// What an update-wins map stands for: the stored values, and for each key
/// the version vector of its last update and of its last removal.
#[verifier::reject_recursive_types(KM)]
#[verifier::reject_recursive_types(VM)]
pub struct UWMapModel<KM, VM> {
    pub removed: Map<KM, Clock>,
    pub updated: Map<KM, Clock>,
    pub kv: Map<KM, VM>,
}

/// The map that holds nothing.
pub open spec fn empty_model<KM, VM>() -> UWMapModel<KM, VM> {
    UWMapModel { removed: Map::empty(), updated: Map::empty(), kv: Map::empty() }
}

/// Whether `lower` and `upper` both speak of `k`, and `upper` strictly later.
pub open spec fn outdated<KM>(lower: Map<KM, Clock>, upper: Map<KM, Clock>, k: KM) -> bool {
    lower.contains_key(k) && upper.contains_key(k) && strictly_before(lower[k], upper[k])
}

/// A key is live when it has been updated and that update is not strictly
/// before its removal.
pub open spec fn is_live<KM, VM>(m: UWMapModel<KM, VM>, k: KM) -> bool {
    m.updated.contains_key(k) && !outdated(m.updated, m.removed, k)
}

/// The value of `k`, if `k` is live.
pub open spec fn lookup<KM, VM>(m: UWMapModel<KM, VM>, k: KM) -> Option<VM> {
    if is_live(m, k) && m.kv.contains_key(k) {
        Some(m.kv[k])
    } else {
        None
    }
}

/// The live keys with their values.
pub open spec fn snapshot<KM, VM>(m: UWMapModel<KM, VM>) -> Map<KM, VM> {
    Map::new(|k: KM| is_live(m, k) && m.kv.contains_key(k), |k: KM| m.kv[k])
}

/// The version vector that the next write to `k` starts from: that of its
/// update, else that of its removal, else zero.
pub open spec fn clock_at<KM, VM>(m: UWMapModel<KM, VM>, k: KM) -> Clock {
    if m.updated.contains_key(k) {
        m.updated[k]
    } else if m.removed.contains_key(k) {
        m.removed[k]
    } else {
        Map::empty()
    }
}

/// Whether `replica` can still write to `k`: its counter there is below the
/// largest number a counter can hold.
pub open spec fn writable<KM, VM>(m: UWMapModel<KM, VM>, replica: Seq<char>, k: KM) -> bool {
    count_of(clock_at(m, k), replica) < u64::MAX
}

/// The map after `replica` has written `v` to `k`.
pub open spec fn after_insert<KM, VM>(
    m: UWMapModel<KM, VM>,
    replica: Seq<char>,
    k: KM,
    v: VM,
) -> UWMapModel<KM, VM> {
    UWMapModel {
        removed: m.removed.remove(k),
        updated: m.updated.insert(k, bumped(clock_at(m, k), replica)),
        kv: m.kv.insert(k, v),
    }
}

/// The map after `replica` has removed `k`.
pub open spec fn after_remove<KM, VM>(
    m: UWMapModel<KM, VM>,
    replica: Seq<char>,
    k: KM,
) -> UWMapModel<KM, VM> {
    UWMapModel {
        removed: m.removed.insert(k, bumped(clock_at(m, k), replica)),
        updated: m.updated.remove(k),
        kv: m.kv.remove(k),
    }
}

/// The map after the value of `k` has been rewritten, the version vectors
/// left as they are.
pub open spec fn after_rewrite<KM, VM>(m: UWMapModel<KM, VM>, k: KM, v: VM) -> UWMapModel<
    KM,
    VM,
> {
    UWMapModel { removed: m.removed, updated: m.updated, kv: m.kv.insert(k, v) }
}

/// The map after `replica` has raised the version vector of `k`: the value
/// stays and `k` counts as updated. Where no value is stored, the key is
/// forgotten altogether.
pub open spec fn after_inc<KM, VM>(
    m: UWMapModel<KM, VM>,
    replica: Seq<char>,
    k: KM,
) -> UWMapModel<KM, VM> {
    if m.kv.contains_key(k) {
        after_insert(m, replica, k, m.kv[k])
    } else {
        UWMapModel { removed: m.removed.remove(k), updated: m.updated.remove(k), kv: m.kv }
    }
}

/// The union of two maps; a key of both gets the merge of its two values.
pub open spec fn union_merged<KM, X: Mergeable>(a: Map<KM, X::V>, b: Map<KM, X::V>) -> Map<
    KM,
    X::V,
> {
    Map::new(
        |k: KM| a.contains_key(k) || b.contains_key(k),
        |k: KM|
            if a.contains_key(k) && b.contains_key(k) {
                X::merged(a[k], b[k])
            } else if a.contains_key(k) {
                a[k]
            } else {
                b[k]
            },
    )
}

/// The entries of `src` whose key is not outdated.
pub open spec fn current_part<KM, A>(
    src: Map<KM, A>,
    lower: Map<KM, Clock>,
    upper: Map<KM, Clock>,
) -> Map<KM, A> {
    Map::new(|k: KM| src.contains_key(k) && !outdated(lower, upper, k), |k: KM| src[k])
}

/// The merge of two maps. Values and version vectors are united key by key.
/// Then an update that is strictly before the removal of its key is dropped
/// with its value, and a removal that is strictly before the update of its
/// key is dropped.
pub open spec fn merged_model<KM, V: Mergeable>(
    a: UWMapModel<KM, V::V>,
    b: UWMapModel<KM, V::V>,
) -> UWMapModel<KM, V::V> {
    let u = union_merged::<KM, VTime>(a.updated, b.updated);
    let r = union_merged::<KM, VTime>(a.removed, b.removed);
    let v = union_merged::<KM, V>(a.kv, b.kv);
    UWMapModel {
        removed: current_part(r, r, u),
        updated: current_part(u, u, r),
        kv: current_part(v, u, r),
    }
}

/// No key carries an update beside a strictly later removal, nor a removal
/// beside a strictly later update. Every map made from the empty one by
/// writes, removals, rewrites and merges is settled.
pub open spec fn settled<KM, VM>(m: UWMapModel<KM, VM>) -> bool {
    forall|k: KM|
        #![trigger m.updated.contains_key(k)]
        #![trigger m.removed.contains_key(k)]
        !outdated(m.updated, m.removed, k) && !outdated(m.removed, m.updated, k)
}

/// Merging `a` and `b` drops nothing: the united version vectors leave no key
/// outdated.
pub open spec fn quiet<KM, VM>(a: UWMapModel<KM, VM>, b: UWMapModel<KM, VM>) -> bool {
    let u = union_merged::<KM, VTime>(a.updated, b.updated);
    let r = union_merged::<KM, VTime>(a.removed, b.removed);
    forall|k: KM|
        #![trigger u.contains_key(k)]
        #![trigger r.contains_key(k)]
        !outdated(u, r, k) && !outdated(r, u, k)
}

/// The empty map is settled, and so is every map after a write, a removal, a
/// rewrite or a merge.
pub proof fn lemma_settled_is_kept<KM, V: Mergeable>(
    m: UWMapModel<KM, V::V>,
    other: UWMapModel<KM, V::V>,
    replica: Seq<char>,
    k: KM,
    v: V::V,
)
    ensures
        settled(empty_model::<KM, V::V>()),
        settled(merged_model::<KM, V>(m, other)),
        settled(m) ==> settled(after_insert(m, replica, k, v)),
        settled(m) ==> settled(after_remove(m, replica, k)),
        settled(m) ==> settled(after_rewrite(m, k, v)),
        settled(m) ==> settled(after_inc(m, replica, k)),
{
    if settled(m) {
        let i = after_insert(m, replica, k, v);
        assert forall|x: KM|
            !outdated(i.updated, i.removed, x) && !outdated(i.removed, i.updated, x) by {
            if x != k {
                assert(!outdated(m.updated, m.removed, x) && !outdated(m.removed, m.updated, x));
            }
        }
        let r = after_remove(m, replica, k);
        assert forall|x: KM|
            !outdated(r.updated, r.removed, x) && !outdated(r.removed, r.updated, x) by {
            if x != k {
                assert(!outdated(m.updated, m.removed, x) && !outdated(m.removed, m.updated, x));
            }
        }
        let c = after_inc(m, replica, k);
        assert forall|x: KM|
            !outdated(c.updated, c.removed, x) && !outdated(c.removed, c.updated, x) by {
            if x != k {
                assert(!outdated(m.updated, m.removed, x) && !outdated(m.removed, m.updated, x));
            }
        }
    }
}

/// `merge(a, b) == merge(b, a)`, where the values of the keys that both hold
/// merge the same way round.
pub proof fn lemma_merge_commutative<KM, V: Mergeable>(
    a: UWMapModel<KM, V::V>,
    b: UWMapModel<KM, V::V>,
)
    requires
        forall|k: KM|
            a.kv.contains_key(k) && b.kv.contains_key(k) ==> V::merged(a.kv[k], b.kv[k])
                == V::merged(b.kv[k], a.kv[k]),
    ensures
        merged_model::<KM, V>(a, b) == merged_model::<KM, V>(b, a),
{
    assert forall|k: KM| a.updated.contains_key(k) && b.updated.contains_key(k) implies joined(
        a.updated[k],
        b.updated[k],
    ) == joined(b.updated[k], a.updated[k]) by {
        lemma_joined_commutative(a.updated[k], b.updated[k]);
    }
    assert forall|k: KM| a.removed.contains_key(k) && b.removed.contains_key(k) implies joined(
        a.removed[k],
        b.removed[k],
    ) == joined(b.removed[k], a.removed[k]) by {
        lemma_joined_commutative(a.removed[k], b.removed[k]);
    }
    assert(union_merged::<KM, VTime>(a.updated, b.updated) =~= union_merged::<KM, VTime>(
        b.updated,
        a.updated,
    ));
    assert(union_merged::<KM, VTime>(a.removed, b.removed) =~= union_merged::<KM, VTime>(
        b.removed,
        a.removed,
    ));
    assert(union_merged::<KM, V>(a.kv, b.kv) =~= union_merged::<KM, V>(b.kv, a.kv));
}

/// `merge(a, a) == a`, for a settled map whose values merge with themselves
/// into themselves.
pub proof fn lemma_merge_idempotent<KM, V: Mergeable>(a: UWMapModel<KM, V::V>)
    requires
        settled(a),
        forall|k: KM| a.kv.contains_key(k) ==> V::merged(a.kv[k], a.kv[k]) == a.kv[k],
    ensures
        merged_model::<KM, V>(a, a) == a,
{
    assert forall|k: KM| a.updated.contains_key(k) implies joined(a.updated[k], a.updated[k])
        == a.updated[k] by {
        lemma_joined_idempotent(a.updated[k]);
    }
    assert forall|k: KM| a.removed.contains_key(k) implies joined(a.removed[k], a.removed[k])
        == a.removed[k] by {
        lemma_joined_idempotent(a.removed[k]);
    }
    let u = union_merged::<KM, VTime>(a.updated, a.updated);
    let r = union_merged::<KM, VTime>(a.removed, a.removed);
    let v = union_merged::<KM, V>(a.kv, a.kv);
    assert(u =~= a.updated);
    assert(r =~= a.removed);
    assert(v =~= a.kv);
    let m = merged_model::<KM, V>(a, a);
    assert forall|k: KM| !outdated(u, r, k) && !outdated(r, u, k) by {
        assert(!outdated(a.updated, a.removed, k) && !outdated(a.removed, a.updated, k));
    }
    assert(m.updated =~= a.updated);
    assert(m.removed =~= a.removed);
    assert(m.kv =~= a.kv);
}

/// Without anything dropped, a merge is the plain union.
pub proof fn lemma_quiet_merge_is_union<KM, V: Mergeable>(
    a: UWMapModel<KM, V::V>,
    b: UWMapModel<KM, V::V>,
)
    requires
        quiet(a, b),
    ensures
        merged_model::<KM, V>(a, b).updated == union_merged::<KM, VTime>(a.updated, b.updated),
        merged_model::<KM, V>(a, b).removed == union_merged::<KM, VTime>(a.removed, b.removed),
        merged_model::<KM, V>(a, b).kv == union_merged::<KM, V>(a.kv, b.kv),
{
    let u = union_merged::<KM, VTime>(a.updated, b.updated);
    let r = union_merged::<KM, VTime>(a.removed, b.removed);
    let v = union_merged::<KM, V>(a.kv, b.kv);
    let m = merged_model::<KM, V>(a, b);
    assert forall|k: KM| !outdated(u, r, k) && !outdated(r, u, k) by {
        assert(u.contains_key(k) || !u.contains_key(k));
    }
    assert(m.updated =~= u);
    assert(m.removed =~= r);
    assert(m.kv =~= v);
}

/// `merge(merge(a, b), c) == merge(a, merge(b, c))`, where the two inner
/// merges drop nothing and the values of the keys that all three hold merge
/// the same way in either grouping.
pub proof fn lemma_merge_associative<KM, V: Mergeable>(
    a: UWMapModel<KM, V::V>,
    b: UWMapModel<KM, V::V>,
    c: UWMapModel<KM, V::V>,
)
    requires
        quiet(a, b),
        quiet(b, c),
        forall|k: KM|
            a.kv.contains_key(k) && b.kv.contains_key(k) && c.kv.contains_key(k) ==> V::merged(
                V::merged(a.kv[k], b.kv[k]),
                c.kv[k],
            ) == V::merged(a.kv[k], V::merged(b.kv[k], c.kv[k])),
    ensures
        merged_model::<KM, V>(merged_model::<KM, V>(a, b), c) == merged_model::<KM, V>(
            a,
            merged_model::<KM, V>(b, c),
        ),
{
    lemma_quiet_merge_is_union::<KM, V>(a, b);
    lemma_quiet_merge_is_union::<KM, V>(b, c);
    let ab = merged_model::<KM, V>(a, b);
    let bc = merged_model::<KM, V>(b, c);
    assert forall|k: KM|
        a.updated.contains_key(k) && b.updated.contains_key(k) && c.updated.contains_key(
            k,
        ) implies joined(joined(a.updated[k], b.updated[k]), c.updated[k]) == joined(
        a.updated[k],
        joined(b.updated[k], c.updated[k]),
    ) by {
        lemma_joined_associative(a.updated[k], b.updated[k], c.updated[k]);
    }
    assert forall|k: KM|
        a.removed.contains_key(k) && b.removed.contains_key(k) && c.removed.contains_key(
            k,
        ) implies joined(joined(a.removed[k], b.removed[k]), c.removed[k]) == joined(
        a.removed[k],
        joined(b.removed[k], c.removed[k]),
    ) by {
        lemma_joined_associative(a.removed[k], b.removed[k], c.removed[k]);
    }
    assert(union_merged::<KM, VTime>(ab.updated, c.updated) =~= union_merged::<KM, VTime>(
        a.updated,
        bc.updated,
    ));
    assert(union_merged::<KM, VTime>(ab.removed, c.removed) =~= union_merged::<KM, VTime>(
        a.removed,
        bc.removed,
    ));
    assert(union_merged::<KM, V>(ab.kv, c.kv) =~= union_merged::<KM, V>(a.kv, bc.kv));
}

/// After a merge a key is live exactly when some side had updated it and the
/// united removals are not strictly later than the united updates: a removal
/// wins only where its version vector strictly dominates.
pub proof fn lemma_merge_keeps_update<KM, V: Mergeable>(
    a: UWMapModel<KM, V::V>,
    b: UWMapModel<KM, V::V>,
    k: KM,
)
    ensures
        is_live(merged_model::<KM, V>(a, b), k) <==> {
            let u = union_merged::<KM, VTime>(a.updated, b.updated);
            let r = union_merged::<KM, VTime>(a.removed, b.removed);
            u.contains_key(k) && !(r.contains_key(k) && strictly_before(u[k], r[k]))
        },
        is_live(merged_model::<KM, V>(a, b), k) && (a.kv.contains_key(k) || b.kv.contains_key(k))
            ==> lookup(merged_model::<KM, V>(a, b), k) == Some(
            union_merged::<KM, V>(a.kv, b.kv)[k],
        ),
{
}

/// A key that one replica removed and another then wrote again is live, and
/// holds what was written. The same is true after the two states are merged,
/// in either order.
pub proof fn lemma_insert_after_remove_is_live<KM, V: Mergeable>(
    m: UWMapModel<KM, V::V>,
    remover: Seq<char>,
    writer: Seq<char>,
    k: KM,
    v: V::V,
)
    requires
        writable(m, remover, k),
        writable(after_remove(m, remover, k), writer, k),
    ensures
        lookup(after_insert(after_remove(m, remover, k), writer, k, v), k) == Some(v),
        lookup(
            merged_model::<KM, V>(
                after_remove(m, remover, k),
                after_insert(after_remove(m, remover, k), writer, k, v),
            ),
            k,
        ) == Some(v),
        lookup(
            merged_model::<KM, V>(
                after_insert(after_remove(m, remover, k), writer, k, v),
                after_remove(m, remover, k),
            ),
            k,
        ) == Some(v),
{
    let gone = after_remove(m, remover, k);
    let back = after_insert(gone, writer, k, v);
    lemma_bumped_is_after(clock_at(gone, k), writer);
    let one = merged_model::<KM, V>(gone, back);
    let two = merged_model::<KM, V>(back, gone);
    assert(union_merged::<KM, VTime>(gone.updated, back.updated)[k] == back.updated[k]);
    assert(union_merged::<KM, VTime>(gone.removed, back.removed)[k] == gone.removed[k]);
    assert(union_merged::<KM, VTime>(back.updated, gone.updated)[k] == back.updated[k]);
    assert(union_merged::<KM, VTime>(back.removed, gone.removed)[k] == gone.removed[k]);
    assert(is_live(one, k));
    assert(is_live(two, k));
}

/// What the operations do to what is seen: a write shows the key with the
/// value written, a removal hides it, and a rewrite changes the value of a
/// key that is live and shows nothing new.
pub proof fn lemma_snapshot_follows<KM, VM>(
    m: UWMapModel<KM, VM>,
    replica: Seq<char>,
    k: KM,
    v: VM,
)
    ensures
        snapshot(after_insert(m, replica, k, v)) == snapshot(m).insert(k, v),
        snapshot(after_remove(m, replica, k)) == snapshot(m).remove(k),
        snapshot(after_rewrite(m, k, v)) == if is_live(m, k) {
            snapshot(m).insert(k, v)
        } else {
            snapshot(m)
        },
        snapshot(empty_model::<KM, VM>()) == Map::<KM, VM>::empty(),
{
    assert(snapshot(after_insert(m, replica, k, v)) =~= snapshot(m).insert(k, v));
    assert(snapshot(after_remove(m, replica, k)) =~= snapshot(m).remove(k));
    if is_live(m, k) {
        assert(snapshot(after_rewrite(m, k, v)) =~= snapshot(m).insert(k, v));
    } else {
        assert(snapshot(after_rewrite(m, k, v)) =~= snapshot(m));
    }
    assert(snapshot(empty_model::<KM, VM>()) =~= Map::<KM, VM>::empty());
}

/// What a prefix of the keys of a list says of `k` while a loop walks the
/// list.
pub open spec fn walked<KM>(keys: Seq<KM>, i: int, k: KM) -> bool {
    keys.take(i).contains(k)
}

pub proof fn lemma_walked_step<KM>(keys: Seq<KM>, i: int)
    requires
        0 <= i < keys.len(),
        keys.no_duplicates(),
    ensures
        !walked(keys, i, keys[i]),
        forall|k: KM| #[trigger] walked(keys, i + 1, k) <==> (walked(keys, i, k) || k == keys[i]),
{
    let before = keys.take(i);
    let after = keys.take(i + 1);
    assert(after =~= before.push(keys[i]));
    assert forall|k: KM| #[trigger] walked(keys, i + 1, k) <==> (walked(keys, i, k) || k
        == keys[i]) by {
        if before.contains(k) {
            let j = before.index_of(k);
            assert(after[j] == k);
        }
        if k == keys[i] {
            assert(after[i] == k);
        }
        if after.contains(k) {
            let j = after.index_of(k);
            if j < i {
                assert(before[j] == k);
            }
        }
    }
    if before.contains(keys[i]) {
        let j = before.index_of(keys[i]);
        assert(keys[j] == keys[i]);
    }
}

pub proof fn lemma_walked_all<KM>(keys: Seq<KM>)
    ensures
        forall|k: KM| #[trigger] walked(keys, keys.len() as int, k) <==> keys.contains(k),
        forall|k: KM| !#[trigger] walked(keys, 0, k),
{
    assert(keys.take(keys.len() as int) =~= keys);
    assert(keys.take(0) =~= Seq::empty());
}

/// Unites two lists; a key of both gets the merge of its two values.
fn union_lists<K: UWMapKey, X: Mergeable>(a: &AssocList<K, X>, b: &AssocList<K, X>) -> (out:
    AssocList<K, X>)
    ensures
        out.deep_view() == union_merged::<K::V, X>(a.deep_view(), b.deep_view()),
{
    let mut out = a.replicate();
    let n = b.len();
    let mut i: usize = 0;
    proof {
        lemma_walked_all(b.keys());
    }
    while i < n
        invariant
            i <= n,
            n == b.keys().len(),
            b.keys().no_duplicates(),
            forall|k: K::V|
                #![trigger out.deep_view().contains_key(k)]
                out.deep_view().contains_key(k) <==> (a.deep_view().contains_key(k) || walked(
                    b.keys(),
                    i as int,
                    k,
                )),
            forall|k: K::V|
                #![trigger out.deep_view().contains_key(k)]
                out.deep_view().contains_key(k) ==> out.deep_view()[k] == if walked(
                    b.keys(),
                    i as int,
                    k,
                ) {
                    union_merged::<K::V, X>(a.deep_view(), b.deep_view())[k]
                } else {
                    a.deep_view()[k]
                },
        decreases n - i,
    {
        let key = b.key_at(i);
        let theirs = b.value_at(i);
        proof {
            lemma_walked_step(b.keys(), i as int);
        }
        let ghost out0 = out.deep_view();
        match a.get(key) {
            Some(mine) => {
                out.insert(key.replicate(), mine.merge(theirs));
            },
            None => {
                out.insert(key.replicate(), theirs.replicate());
            },
        }
        assert forall|k: K::V|
            #![trigger out.deep_view().contains_key(k)]
            out.deep_view().contains_key(k) implies out.deep_view()[k] == if walked(
            b.keys(),
            i + 1,
            k,
        ) {
            union_merged::<K::V, X>(a.deep_view(), b.deep_view())[k]
        } else {
            a.deep_view()[k]
        } by {
            if k != key.deep_view() {
                assert(out0.contains_key(k));
            }
        }
        i += 1;
    }
    proof {
        lemma_walked_all(b.keys());
        assert forall|k: K::V| b.keys().contains(k) <==> b.deep_view().contains_key(k) by {}
        assert forall|k: K::V|
            out.deep_view().contains_key(k) implies out.deep_view()[k] == union_merged::<K::V, X>(
            a.deep_view(),
            b.deep_view(),
        )[k] by {
            if !walked(b.keys(), n as int, k) {
                assert(!b.deep_view().contains_key(k));
            }
        }
        assert(out.deep_view() =~= union_merged::<K::V, X>(a.deep_view(), b.deep_view()));
    }
    out
}

/// Copies the entries of `src` whose key is not outdated.
fn keep_current<K: UWMapKey, X: UWMapItem>(
    src: &AssocList<K, X>,
    lower: &AssocList<K, VTime>,
    upper: &AssocList<K, VTime>,
) -> (out: AssocList<K, X>)
    ensures
        out.deep_view() == current_part(src.deep_view(), lower.deep_view(), upper.deep_view()),
{
    let mut out: AssocList<K, X> = AssocList::new();
    let n = src.len();
    let mut i: usize = 0;
    proof {
        lemma_walked_all(src.keys());
    }
    while i < n
        invariant
            i <= n,
            n == src.keys().len(),
            src.keys().no_duplicates(),
            forall|k: K::V|
                #![trigger out.deep_view().contains_key(k)]
                out.deep_view().contains_key(k) <==> (walked(src.keys(), i as int, k) && !outdated(
                    lower.deep_view(),
                    upper.deep_view(),
                    k,
                )),
            forall|k: K::V|
                #![trigger out.deep_view().contains_key(k)]
                out.deep_view().contains_key(k) ==> src.deep_view().contains_key(k)
                    && out.deep_view()[k] == src.deep_view()[k],
        decreases n - i,
    {
        let key = src.key_at(i);
        proof {
            lemma_walked_step(src.keys(), i as int);
        }
        let ghost out0 = out.deep_view();
        let stale = match lower.get(key) {
            Some(l) => match upper.get(key) {
                Some(u) => l.precedes(u),
                None => false,
            },
            None => false,
        };
        if !stale {
            out.insert(key.replicate(), src.value_at(i).replicate());
        }
        assert forall|k: K::V|
            #![trigger out.deep_view().contains_key(k)]
            out.deep_view().contains_key(k) implies src.deep_view().contains_key(k)
            && out.deep_view()[k] == src.deep_view()[k] by {
            if k != key.deep_view() {
                assert(out0.contains_key(k));
            }
        }
        i += 1;
    }
    proof {
        lemma_walked_all(src.keys());
        assert forall|k: K::V| src.keys().contains(k) <==> src.deep_view().contains_key(k) by {}
        assert(out.deep_view() =~= current_part(
            src.deep_view(),
            lower.deep_view(),
            upper.deep_view(),
        ));
    }
    out
}

/// An update-wins map from `K` to `V`.
pub struct UWMap<K: UWMapKey, V: UWMapItem + Mergeable> {
    removed: AssocList<K, VTime>,
    updated: AssocList<K, VTime>,
    kv: AssocList<K, V>,
}

impl<K: UWMapKey, V: UWMapItem + Mergeable> DeepView for UWMap<K, V> {
    type V = UWMapModel<K::V, V::V>;

    closed spec fn deep_view(&self) -> UWMapModel<K::V, V::V> {
        UWMapModel {
            removed: self.removed.deep_view(),
            updated: self.updated.deep_view(),
            kv: self.kv.deep_view(),
        }
    }
}

impl<K: UWMapKey, V: UWMapItem + Mergeable> UWMapItem for UWMap<K, V> {
    fn replicate(&self) -> (copy: Self) {
        UWMap {
            removed: self.removed.replicate(),
            updated: self.updated.replicate(),
            kv: self.kv.replicate(),
        }
    }
}

impl<K: UWMapKey, V: UWMapItem + Mergeable> Clone for UWMap<K, V> {
    fn clone(&self) -> (copy: Self)
        ensures
            copy@ == self@,
    {
        self.replicate()
    }
}

impl<K: UWMapKey, V: UWMapItem + Mergeable> View for UWMap<K, V> {
    type V = UWMapModel<K::V, V::V>;

    open spec fn view(&self) -> UWMapModel<K::V, V::V> {
        self.deep_view()
    }
}

impl<K: UWMapKey, V: UWMapItem + Mergeable> UWMap<K, V> {
    pub fn new() -> (m: UWMap<K, V>)
        ensures
            m@ == empty_model::<K::V, V::V>(),
    {
        UWMap { removed: AssocList::new(), updated: AssocList::new(), kv: AssocList::new() }
    }

    /// The value of `key`, if `key` is live.
    pub fn get(&self, key: &K) -> (found: Option<&V>)
        ensures
            match found {
                Some(v) => lookup(self@, key.deep_view()) == Some(v.deep_view()),
                None => lookup(self@, key.deep_view()) is None,
            },
    {
        let updated_vtime = match self.updated.get(key) {
            Some(t) => t,
            None => {
                return None;
            },
        };
        if let Some(removed_vtime) = self.removed.get(key) {
            if updated_vtime.precedes(removed_vtime) {
                return None;
            }
        }
        self.kv.get(key)
    }

    /// The map with the given removals, updates and values.
    pub fn from_parts(
        removed: AssocList<K, VTime>,
        updated: AssocList<K, VTime>,
        kv: AssocList<K, V>,
    ) -> (m: UWMap<K, V>)
        ensures
            m@ == (UWMapModel {
                removed: removed.deep_view(),
                updated: updated.deep_view(),
                kv: kv.deep_view(),
            }),
    {
        UWMap { removed, updated, kv }
    }

    /// The version vector of the last removal of each key that has one.
    pub fn removed(&self) -> (r: &AssocList<K, VTime>)
        ensures
            r.deep_view() == self@.removed,
    {
        &self.removed
    }

    /// The version vector of the last update of each key that has one.
    pub fn updated(&self) -> (u: &AssocList<K, VTime>)
        ensures
            u.deep_view() == self@.updated,
    {
        &self.updated
    }

    /// The values that are stored, live or not.
    pub fn kv(&self) -> (v: &AssocList<K, V>)
        ensures
            v.deep_view() == self@.kv,
    {
        &self.kv
    }

    /// How many keys have a value stored, live or not.
    pub fn stored(&self) -> (n: usize)
        ensures
            self@.kv.dom().finite(),
            n == self@.kv.dom().len(),
    {
        self.kv.len()
    }

    /// Whether `key` is live, with or without a value.
    pub fn is_live(&self, key: &K) -> (b: bool)
        ensures
            b == is_live(self@, key.deep_view()),
    {
        match self.updated.get(key) {
            Some(u) => match self.removed.get(key) {
                Some(r) => !u.precedes(r),
                None => true,
            },
            None => false,
        }
    }

    /// A copy of the live keys with their values.
    pub fn value(&self) -> (live: AssocList<K, V>)
        ensures
            live.deep_view() == snapshot(self@),
    {
        let mut live: AssocList<K, V> = AssocList::new();
        let n = self.kv.len();
        let mut i: usize = 0;
        while i < n
            invariant
                i <= n,
                n == self.kv.keys().len(),
                self.kv.keys().no_duplicates(),
                forall|k: K::V|
                    #![trigger live.deep_view().contains_key(k)]
                    live.deep_view().contains_key(k) <==> (self.kv.keys().take(i as int).contains(
                        k,
                    ) && is_live(self@, k)),
                forall|k: K::V|
                    #![trigger live.deep_view().contains_key(k)]
                    live.deep_view().contains_key(k) ==> self@.kv.contains_key(k)
                        && live.deep_view()[k] == self@.kv[k],
            decreases n - i,
        {
            let key = self.kv.key_at(i);
            let ghost before = self.kv.keys().take(i as int);
            let ghost after = self.kv.keys().take(i + 1);
            assert(after =~= before.push(key.deep_view()));
            assert forall|x: K::V| after.contains(x) <==> (before.contains(x) || x
                == key.deep_view()) by {
                if before.contains(x) {
                    let j = before.index_of(x);
                    assert(after[j] == x);
                }
                if x == key.deep_view() {
                    assert(after[i as int] == x);
                }
                if after.contains(x) {
                    let j = after.index_of(x);
                    if j < i {
                        assert(before[j] == x);
                    }
                }
            }
            let ghost live0 = live.deep_view();
            if self.is_live(key) {
                live.insert(key.replicate(), self.kv.value_at(i).replicate());
            }
            assert forall|k: K::V|
                live.deep_view().contains_key(k) <==> (after.contains(k) && is_live(
                    self@,
                    k,
                )) by {
                assert(live0.contains_key(k) <==> (before.contains(k) && is_live(self@, k)));
                assert(after.contains(k) <==> (before.contains(k) || k == key.deep_view()));
            }
            assert forall|k: K::V|
                live.deep_view().contains_key(k) implies self@.kv.contains_key(k)
                && live.deep_view()[k] == self@.kv[k] by {
                if k != key.deep_view() {
                    assert(live0.contains_key(k));
                }
            }
            i += 1;
        }
        assert(self.kv.keys().take(n as int) =~= self.kv.keys());
        assert forall|k: K::V| self.kv.keys().contains(k) <==> self@.kv.contains_key(k) by {}
        assert forall|k: K::V|
            live.deep_view().contains_key(k) <==> snapshot(self@).contains_key(k) by {
            assert(live.deep_view().contains_key(k) <==> (self.kv.keys().take(n as int).contains(k)
                && is_live(self@, k)));
        }
        assert(live.deep_view() =~= snapshot(self@));
        live
    }

    /// Whether `replica_id` can still write to `key`.
    pub fn can_write(&self, replica_id: &ReplicaId, key: &K) -> (b: bool)
        ensures
            b == writable(self@, replica_id@, key.deep_view()),
    {
        match self.updated.get(key) {
            Some(t) => t.can_inc(replica_id),
            None => match self.removed.get(key) {
                Some(t) => t.can_inc(replica_id),
                None => true,
            },
        }
    }

    /// The version vector that the next write to `key` starts from.
    fn take_clock(&mut self, key: &K) -> (t: VTime)
        ensures
            t@ == clock_at(old(self)@, key.deep_view()),
            final(self)@.updated == old(self)@.updated.remove(key.deep_view()),
            final(self)@.removed == old(self)@.removed.remove(key.deep_view()),
            final(self)@.kv == old(self)@.kv,
    {
        let update_vtime = self.updated.remove(key);
        let remove_vtime = self.removed.remove(key);
        match (update_vtime, remove_vtime) {
            (Some(vtime), _) => vtime,
            (_, Some(vtime)) => vtime,
            (_, _) => VTime::zero(),
        }
    }

    /// Rewrites the value of `key` and leaves its version vectors alone.
    pub fn insert_novtime_update(&mut self, key: K, value: V)
        ensures
            final(self)@ == after_rewrite(old(self)@, key.deep_view(), value.deep_view()),
    {
        self.kv.insert(key, value);
    }

    /// Writes `value` to `key` in the name of `replica_id`: the key's version
    /// vector is raised and the key is live afterwards.
    pub fn insert(&mut self, replica_id: ReplicaId, key: K, value: V)
        requires
            writable(old(self)@, replica_id@, key.deep_view()),
        ensures
            final(self)@ == after_insert(
                old(self)@,
                replica_id@,
                key.deep_view(),
                value.deep_view(),
            ),
    {
        let mut vtime = self.take_clock(&key);
        vtime.inc(replica_id);
        self.updated.insert(key.replicate(), vtime);
        self.kv.insert(key, value);
        assert(self@.updated =~= after_insert(
            old(self)@,
            replica_id@,
            key.deep_view(),
            value.deep_view(),
        ).updated);
    }

    /// Raises the version vector of `key` in the name of `replica_id`.
    pub fn inc_vtime(&mut self, replica_id: ReplicaId, key: K)
        requires
            writable(old(self)@, replica_id@, key.deep_view()),
        ensures
            final(self)@ == after_inc(old(self)@, replica_id@, key.deep_view()),
    {
        let mut vtime = self.take_clock(&key);
        let value = match self.kv.remove(&key) {
            Some(v) => v,
            None => {
                assert(self@.kv =~= old(self)@.kv);
                return ;
            },
        };
        vtime.inc(replica_id);
        self.updated.insert(key.replicate(), vtime);
        self.kv.insert(key, value);
        assert(self@.updated =~= after_inc(old(self)@, replica_id@, key.deep_view()).updated);
        assert(self@.kv =~= after_inc(old(self)@, replica_id@, key.deep_view()).kv);
    }

    /// Brings two maps together.
    pub fn merge(a: &Self, b: &Self) -> (m: UWMap<K, V>)
        ensures
            m@ == merged_model::<K::V, V>(a@, b@),
    {
        let kv = union_lists(&a.kv, &b.kv);
        let all_updated = union_lists(&a.updated, &b.updated);
        let all_removed = union_lists(&a.removed, &b.removed);
        let updated = keep_current(&all_updated, &all_updated, &all_removed);
        let removed = keep_current(&all_removed, &all_removed, &all_updated);
        let kv = keep_current(&kv, &all_updated, &all_removed);
        UWMap { removed, updated, kv }
    }

    /// Removes `key` in the name of `replica_id`: the key's version vector is
    /// raised and kept as that of the removal, and the value is dropped.
    pub fn remove(&mut self, replica_id: ReplicaId, key: K)
        requires
            writable(old(self)@, replica_id@, key.deep_view()),
        ensures
            final(self)@ == after_remove(old(self)@, replica_id@, key.deep_view()),
    {
        let mut vtime = self.take_clock(&key);
        vtime.inc(replica_id);
        let _ = self.kv.remove(&key);
        self.removed.insert(key, vtime);
        assert(self@.removed =~= after_remove(old(self)@, replica_id@, key.deep_view()).removed);
    }
}

} // verus!
