use vstd::prelude::*;
use crate::components::{Component, ComponentType};
use crate::entity::EntityModel;
use crate::ecs::{
    add_entity, has_uid, hits, live, resolve_world, resolved, scan, signature, uids_unique,
    WorldModel,
};

verus! {

/// Every id of `ids` names a stored entity.
pub open spec fn all_stored(ids: Seq<u128>, ents: Seq<EntityModel>) -> bool {
    forall|i: int| 0 <= i < ids.len() ==> has_uid(ents, #[trigger] ids[i])
}

proof fn lemma_live_all(ids: Seq<u128>, ents: Seq<EntityModel>)
    requires
        all_stored(ids, ents),
    ensures
        live(ids, ents) == ids,
    decreases ids.len(),
{
    if ids.len() > 0 {
        let p = ids.drop_last();
        assert forall|i: int| 0 <= i < p.len() implies has_uid(ents, #[trigger] p[i]) by {
            assert(p[i] == ids[i]);
        }
        lemma_live_all(p, ents);
        assert(has_uid(ents, ids[ids.len() - 1]));
        assert(p.push(ids.last()) =~= ids);
    }
}

proof fn lemma_scan_stored(ents: Seq<EntityModel>, types: Seq<ComponentType>)
    ensures
        all_stored(scan(ents, types), ents),
    decreases ents.len(),
{
    if ents.len() > 0 {
        let p = ents.drop_last();
        lemma_scan_stored(p, types);
        let s = scan(ents, types);
        let sp = scan(p, types);
        assert forall|i: int| 0 <= i < s.len() implies has_uid(ents, #[trigger] s[i]) by {
            if i < sp.len() {
                assert(s[i] == sp[i]);
                assert(has_uid(p, sp[i]));
                let k = choose|k: int| 0 <= k < p.len() && (#[trigger] p[k]).uid == sp[i];
                assert(ents[k] == p[k]);
            } else {
                assert(s[i] == ents.last().uid);
                assert(ents[ents.len() - 1].uid == s[i]);
            }
        }
    }
}

proof fn lemma_hits_positive(cs: Seq<Component>, types: Seq<ComponentType>)
    ensures
        hits(cs, types) > 0 <==> exists|i: int|
            0 <= i < cs.len() && types.contains((#[trigger] cs[i]).kind()),
    decreases cs.len(),
{
    if cs.len() > 0 {
        let p = cs.drop_last();
        lemma_hits_positive(p, types);
        if hits(p, types) > 0 {
            let i = choose|i: int| 0 <= i < p.len() && types.contains((#[trigger] p[i]).kind());
            assert(cs[i] == p[i]);
        }
        if exists|i: int| 0 <= i < cs.len() && types.contains((#[trigger] cs[i]).kind()) {
            let i = choose|i: int| 0 <= i < cs.len() && types.contains((#[trigger] cs[i]).kind());
            if i < p.len() {
                assert(cs[i] == p[i]);
            }
        }
    }
}

proof fn lemma_scan_contains(ents: Seq<EntityModel>, types: Seq<ComponentType>, k: int)
    requires
        uids_unique(ents),
        0 <= k < ents.len(),
    ensures
        scan(ents, types).contains(ents[k].uid) <==> hits(ents[k].components, types) > 0,
    decreases ents.len(),
{
    let p = ents.drop_last();
    let s = scan(ents, types);
    let sp = scan(p, types);
    let n = hits(ents.last().components, types);
    assert(s == sp + Seq::new(n, |_i: int| ents.last().uid));
    assert(uids_unique(p)) by {
        assert forall|i: int, j: int|
            0 <= i < p.len() && 0 <= j < p.len() && i != j implies (#[trigger] p[i]).uid != (
            #[trigger] p[j]).uid by {
            assert(p[i] == ents[i] && p[j] == ents[j]);
        }
    }
    lemma_scan_stored(p, types);
    if k < p.len() {
        lemma_scan_contains(p, types, k);
        assert(p[k] == ents[k]);
        assert(ents[k].uid != ents.last().uid) by {
            assert(ents[ents.len() - 1] == ents.last());
        }
        if s.contains(ents[k].uid) {
            let i = choose|i: int| 0 <= i < s.len() && s[i] == ents[k].uid;
            if i >= sp.len() {
                assert(s[i] == ents.last().uid);
            }
            assert(sp[i] == s[i]);
        }
        if sp.contains(ents[k].uid) {
            let i = choose|i: int| 0 <= i < sp.len() && sp[i] == ents[k].uid;
            assert(s[i] == sp[i]);
        }
    } else {
        assert(ents[k] == ents.last());
        if n > 0 {
            assert(s[sp.len() as int] == ents.last().uid);
        }
        if s.contains(ents[k].uid) {
            let i = choose|i: int| 0 <= i < s.len() && s[i] == ents[k].uid;
            if i < sp.len() {
                assert(sp[i] == s[i]);
                assert(has_uid(p, sp[i]));
                let j = choose|j: int| 0 <= j < p.len() && (#[trigger] p[j]).uid == sp[i];
                assert(ents[j] == p[j]);
                assert(false);
            }
        }
    }
}

/// Requesting two lists that hold the same kinds, in any order, gives the
/// same cache key; so the second request is answered from the entry that the
/// first one made, with the same ids, and leaves the world as it was.
pub proof fn lemma_key_order_independent(
    w: WorldModel,
    a: Seq<ComponentType>,
    b: Seq<ComponentType>,
)
    requires
        a.to_multiset() == b.to_multiset(),
    ensures
        signature(a) == signature(b),
        resolve_world(resolve_world(w, a), b) == resolve_world(w, a),
        resolved(resolve_world(w, a), b) == resolved(resolve_world(w, a), a),
{
}

/// On a first request, an entity is returned if and only if at least one of
/// its components is of a requested kind (any kind, not all of them).
pub proof fn lemma_any_kind_matches(w: WorldModel, types: Seq<ComponentType>, k: int)
    requires
        uids_unique(w.entities),
        !w.cache.contains_key(signature(types)),
        0 <= k < w.entities.len(),
    ensures
        resolved(resolve_world(w, types), types).contains(w.entities[k].uid) <==> exists|i: int|
            0 <= i < w.entities[k].components.len() && types.contains(
                (#[trigger] w.entities[k].components[i]).kind(),
            ),
{
    lemma_scan_stored(w.entities, types);
    lemma_live_all(scan(w.entities, types), w.entities);
    lemma_scan_contains(w.entities, types, k);
    lemma_hits_positive(w.entities[k].components, types);
}

/// Once a request has filled the cache, an entity created afterwards is not
/// returned by the same request: the result stays what it was.
pub proof fn lemma_cache_not_invalidated(
    w: WorldModel,
    types: Seq<ComponentType>,
    e: EntityModel,
)
    requires
        !w.cache.contains_key(signature(types)),
    ensures
        resolve_world(add_entity(resolve_world(w, types), e), types) == add_entity(
            resolve_world(w, types),
            e,
        ),
        resolved(add_entity(resolve_world(w, types), e), types) == resolved(
            resolve_world(w, types),
            types,
        ),
        !has_uid(w.entities, e.uid) ==> !resolved(
            add_entity(resolve_world(w, types), e),
            types,
        ).contains(e.uid),
{
    let w1 = resolve_world(w, types);
    let w2 = add_entity(w1, e);
    let ids = scan(w.entities, types);
    lemma_scan_stored(w.entities, types);
    lemma_live_all(ids, w.entities);
    assert(all_stored(ids, w2.entities)) by {
        assert forall|i: int| 0 <= i < ids.len() implies has_uid(w2.entities, #[trigger] ids[i]) by {
            let j = choose|j: int| 0 <= j < w.entities.len() && (#[trigger] w.entities[j]).uid == ids[i];
            assert(w2.entities[j] == w.entities[j]);
        }
    }
    lemma_live_all(ids, w2.entities);
    if !has_uid(w.entities, e.uid) && ids.contains(e.uid) {
        let i = choose|i: int| 0 <= i < ids.len() && ids[i] == e.uid;
        assert(has_uid(w.entities, ids[i]));
    }
}

/// A request returns exactly the cached ids that name a stored entity, in
/// cache order: ids of entities that are gone are skipped, not reported.
pub proof fn lemma_dangling_ids_skipped(ids: Seq<u128>, ents: Seq<EntityModel>)
    ensures
        forall|x: u128| #[trigger] live(ids, ents).contains(x) <==> (ids.contains(x) && has_uid(ents, x)),
        live(ids, ents).len() <= ids.len(),
    decreases ids.len(),
{
    if ids.len() > 0 {
        let p = ids.drop_last();
        lemma_dangling_ids_skipped(p, ents);
        let l = live(ids, ents);
        let lp = live(p, ents);
        assert forall|x: u128| #[trigger] l.contains(x) <==> (ids.contains(x) && has_uid(ents, x)) by {
            if l.contains(x) {
                let i = choose|i: int| 0 <= i < l.len() && l[i] == x;
                if i < lp.len() {
                    assert(lp[i] == l[i]);
                    assert(lp.contains(x));
                    let j = choose|j: int| 0 <= j < p.len() && p[j] == x;
                    assert(ids[j] == p[j]);
                } else {
                    assert(x == ids[ids.len() - 1]);
                }
            }
            if ids.contains(x) && has_uid(ents, x) {
                let j = choose|j: int| 0 <= j < ids.len() && ids[j] == x;
                if j < p.len() {
                    assert(p[j] == ids[j]);
                    assert(lp.contains(x));
                    let i = choose|i: int| 0 <= i < lp.len() && lp[i] == x;
                    assert(l[i] == lp[i]);
                } else {
                    assert(l[l.len() - 1] == x);
                }
            }
        }
    }
}

} // verus!
