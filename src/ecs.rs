use vstd::prelude::*;
use vstd::multiset::Multiset;
use vstd::string::StringExecFns;
use crate::components::{Component, ComponentType, KIND_COUNT};
use crate::entity::{dedup_kinds, Entity, EntityModel};

verus! {

broadcast use vstd::seq_lib::group_to_multiset_ensures;

/// `n` copies of the name of `t`.
pub open spec fn repeat_name(t: ComponentType, n: nat) -> Seq<Seq<char>> {
    Seq::new(n, |_i: int| t.spec_name())
}

/// The names of the tags in `m` of rank below `r`, in alphabetical order,
/// each as often as `m` holds it.
pub open spec fn names_below(m: Multiset<ComponentType>, r: nat) -> Seq<Seq<char>>
    decreases r,
{
    if r == 0 {
        seq![]
    } else {
        let t = ComponentType::spec_of_rank((r - 1) as nat);
        names_below(m, (r - 1) as nat) + repeat_name(t, m.count(t))
    }
}

/// The parts joined with `_` between neighbours.
pub open spec fn join_parts(parts: Seq<Seq<char>>) -> Seq<char>
    decreases parts.len(),
{
    if parts.len() == 0 {
        seq![]
    } else if parts.len() == 1 {
        parts[0]
    } else {
        join_parts(parts.drop_last()) + "_"@ + parts.last()
    }
}

/// Cache key of a request: the names of the requested tags sorted
/// alphabetically (duplicates kept) and joined with `_`.
pub open spec fn signature(types: Seq<ComponentType>) -> Seq<char> {
    join_parts(names_below(types.to_multiset(), KIND_COUNT as nat))
}

/// Number of components in `cs` whose kind is requested.
pub open spec fn hits(cs: Seq<Component>, types: Seq<ComponentType>) -> nat
    decreases cs.len(),
{
    if cs.len() == 0 {
        0
    } else {
        hits(cs.drop_last(), types) + if types.contains(cs.last().kind()) {
            1nat
        } else {
            0nat
        }
    }
}

/// Result of a full scan: for each entity in order, its id once per
/// component whose kind is requested.
pub open spec fn scan(ents: Seq<EntityModel>, types: Seq<ComponentType>) -> Seq<u128>
    decreases ents.len(),
{
    if ents.len() == 0 {
        seq![]
    } else {
        scan(ents.drop_last(), types) + Seq::new(
            hits(ents.last().components, types),
            |_i: int| ents.last().uid,
        )
    }
}

/// Whether some entity has id `u`.
pub open spec fn has_uid(ents: Seq<EntityModel>, u: u128) -> bool {
    exists|i: int| 0 <= i < ents.len() && (#[trigger] ents[i]).uid == u
}

/// The ids of `ids` that name a stored entity, in order.
pub open spec fn live(ids: Seq<u128>, ents: Seq<EntityModel>) -> Seq<u128>
    decreases ids.len(),
{
    if ids.len() == 0 {
        seq![]
    } else if has_uid(ents, ids.last()) {
        live(ids.drop_last(), ents).push(ids.last())
    } else {
        live(ids.drop_last(), ents)
    }
}

/// The cache after a request for `types`: unchanged if the key is present,
/// else extended by a full scan.
pub open spec fn cache_after(
    c: Map<Seq<char>, Seq<u128>>,
    ents: Seq<EntityModel>,
    types: Seq<ComponentType>,
) -> Map<Seq<char>, Seq<u128>> {
    let k = signature(types);
    if c.contains_key(k) {
        c
    } else {
        c.insert(k, scan(ents, types))
    }
}

pub open spec fn models(ents: Seq<Entity>) -> Seq<EntityModel> {
    Seq::new(ents.len(), |i: int| ents[i].view())
}

/// No two entities share an id.
pub open spec fn uids_unique(ents: Seq<EntityModel>) -> bool {
    forall|i: int, j: int|
        0 <= i < ents.len() && 0 <= j < ents.len() && i != j ==> (#[trigger] ents[i]).uid != (
        #[trigger] ents[j]).uid
}

proof fn lemma_join_push(parts: Seq<Seq<char>>, x: Seq<char>)
    ensures
        join_parts(parts.push(x)) == if parts.len() == 0 {
            x
        } else {
            join_parts(parts) + "_"@ + x
        },
{
    assert(parts.push(x).drop_last() =~= parts);
}

/// Cache key of a request: the tags' names sorted alphabetically and joined with `_`.
pub fn signature_key(types: &Vec<ComponentType>) -> (r: String)
    ensures
        r@ == signature(types@),
{
    let ghost m = types@.to_multiset();
    let mut counts: Vec<usize> = vec![0, 0, 0, 0, 0, 0, 0, 0, 0, 0];
    let mut i: usize = 0;
    while i < types.len()
        invariant
            0 <= i <= types@.len(),
            counts@.len() == KIND_COUNT,
            forall|r: int|
                0 <= r < KIND_COUNT ==> #[trigger] counts@[r] == types@.subrange(
                    0,
                    i as int,
                ).to_multiset().count(ComponentType::spec_of_rank(r as nat)),
            forall|r: int| 0 <= r < KIND_COUNT ==> #[trigger] counts@[r] <= i,
        decreases types@.len() - i,
    {
        let t = types[i];
        let k = t.rank_of();
        proof {
            assert(types@.subrange(0, i as int + 1) =~= types@.subrange(0, i as int).push(t));
        }
        let c = counts[k];
        counts.set(k, c + 1);
        i += 1;
    }
    assert(types@.subrange(0, types@.len() as int) =~= types@);
    let mut key = String::new();
    let mut first = true;
    let ghost mut parts: Seq<Seq<char>> = seq![];
    let mut r: usize = 0;
    while r < KIND_COUNT
        invariant
            0 <= r <= KIND_COUNT,
            counts@.len() == KIND_COUNT,
            forall|q: int|
                0 <= q < KIND_COUNT ==> #[trigger] counts@[q] == m.count(
                    ComponentType::spec_of_rank(q as nat),
                ),
            parts == names_below(m, r as nat),
            key@ == join_parts(parts),
            first == (parts.len() == 0),
        decreases KIND_COUNT - r,
    {
        let t = ComponentType::of_rank(r);
        let name = t.name();
        let n = counts[r];
        let mut k: usize = 0;
        while k < n
            invariant
                0 <= k <= n,
                n == m.count(t),
                parts == names_below(m, r as nat) + repeat_name(t, k as nat),
                key@ == join_parts(parts),
                first == (parts.len() == 0),
                name@ == t.spec_name(),
            decreases n - k,
        {
            proof {
                lemma_join_push(parts, name@);
                assert(repeat_name(t, (k + 1) as nat) =~= repeat_name(t, k as nat).push(name@));
                assert(names_below(m, r as nat) + repeat_name(t, (k + 1) as nat) =~= (names_below(
                    m,
                    r as nat,
                ) + repeat_name(t, k as nat)).push(name@));
            }
            if !first {
                key.append("_");
            }
            key.append(name);
            first = false;
            proof {
                parts = parts.push(name@);
            }
            k += 1;
        }
        r += 1;
    }
    key
}

/// One cached query result: a key and the ids found for it.
#[derive(Clone, Debug)]
pub struct CacheEntry {
    pub key: String,
    pub ids: Vec<u128>,
}

/// Query cache: keys are signatures, values are lists of entity ids.
#[derive(Clone, Debug)]
pub struct QueryCache {
    pub entries: Vec<CacheEntry>,
}

pub open spec fn entries_map(es: Seq<CacheEntry>) -> Map<Seq<char>, Seq<u128>>
    decreases es.len(),
{
    if es.len() == 0 {
        Map::empty()
    } else {
        entries_map(es.drop_last()).insert(es.last().key@, es.last().ids@)
    }
}

pub open spec fn keys_unique(es: Seq<CacheEntry>) -> bool {
    forall|i: int, j: int|
        0 <= i < es.len() && 0 <= j < es.len() && i != j ==> (#[trigger] es[i]).key@ != (
        #[trigger] es[j]).key@
}

proof fn lemma_entries_map(es: Seq<CacheEntry>)
    requires
        keys_unique(es),
    ensures
        forall|k: Seq<char>|
            #[trigger] entries_map(es).contains_key(k) <==> exists|i: int|
                0 <= i < es.len() && (#[trigger] es[i]).key@ == k,
        forall|i: int| 0 <= i < es.len() ==> entries_map(es)[(#[trigger] es[i]).key@] == es[i].ids@,
    decreases es.len(),
{
    if es.len() > 0 {
        let p = es.drop_last();
        assert(keys_unique(p)) by {
            assert forall|i: int, j: int|
                0 <= i < p.len() && 0 <= j < p.len() && i != j implies (#[trigger] p[i]).key@ != (
                #[trigger] p[j]).key@ by {
                assert(p[i] == es[i] && p[j] == es[j]);
            }
        }
        lemma_entries_map(p);
        assert forall|k: Seq<char>|
            #[trigger] entries_map(es).contains_key(k) implies exists|i: int|
                0 <= i < es.len() && (#[trigger] es[i]).key@ == k by {
            assert(entries_map(es) == entries_map(p).insert(es.last().key@, es.last().ids@));
            if k != es.last().key@ {
                assert(entries_map(p).contains_key(k));
                let i = choose|i: int| 0 <= i < p.len() && (#[trigger] p[i]).key@ == k;
                assert(es[i] == p[i]);
            } else {
                assert(es[es.len() - 1].key@ == k);
            }
        }
        assert forall|k: Seq<char>|
            (exists|i: int| 0 <= i < es.len() && (#[trigger] es[i]).key@ == k) implies #[trigger] entries_map(
            es,
        ).contains_key(k) by {
            let i = choose|i: int| 0 <= i < es.len() && (#[trigger] es[i]).key@ == k;
            if i < es.len() - 1 {
                assert(p[i] == es[i]);
                assert(entries_map(p).contains_key(k));
            }
        }
        assert forall|i: int| 0 <= i < es.len() implies entries_map(es)[(#[trigger] es[i]).key@]
            == es[i].ids@ by {
            if i < es.len() - 1 {
                assert(p[i] == es[i]);
                assert(es[i].key@ != es.last().key@);
            }
        }
    }
}

impl QueryCache {
    pub open spec fn view(&self) -> Map<Seq<char>, Seq<u128>> {
        entries_map(self.entries@)
    }

    /// Keys are distinct.
    pub open spec fn wf(&self) -> bool {
        keys_unique(self.entries@)
    }

    pub fn new() -> (r: QueryCache)
        ensures
            r@ == Map::<Seq<char>, Seq<u128>>::empty(),
            r.wf(),
    {
        QueryCache { entries: Vec::new() }
    }

    /// Position of the entry for `key`, if cached.
    pub fn find(&self, key: &String) -> (r: Option<usize>)
        requires
            self.wf(),
        ensures
            r.is_none() <==> !self@.contains_key(key@),
            r.is_some() ==> r.unwrap() < self.entries@.len() && self.entries@[r.unwrap() as int].key@
                == key@ && self@[key@] == self.entries@[r.unwrap() as int].ids@,
    {
        proof {
            lemma_entries_map(self.entries@);
        }
        let mut i: usize = 0;
        while i < self.entries.len()
            invariant
                0 <= i <= self.entries@.len(),
                self.wf(),
                forall|k: int| 0 <= k < i ==> (#[trigger] self.entries@[k]).key@ != key@,
            decreases self.entries@.len() - i,
        {
            if self.entries[i].key == *key {
                proof {
                    lemma_entries_map(self.entries@);
                }
                assert(self.entries@[i as int].key@ == key@);
                return Some(i);
            }
            i += 1;
        }
        None
    }

    /// The cached ids for `key`, if any.
    pub fn get(&self, key: &String) -> (r: Option<&Vec<u128>>)
        requires
            self.wf(),
        ensures
            r.is_none() <==> !self@.contains_key(key@),
            r.is_some() ==> r.unwrap()@ == self@[key@],
    {
        match self.find(key) {
            Some(i) => Some(&self.entries[i].ids),
            None => None,
        }
    }

    /// Stores `ids` under `key` unless the key is already cached.
    pub fn insert_if_absent(&mut self, key: String, ids: Vec<u128>)
        requires
            old(self).wf(),
        ensures
            final(self).wf(),
            final(self)@ == if old(self)@.contains_key(key@) {
                old(self)@
            } else {
                old(self)@.insert(key@, ids@)
            },
    {
        if self.find(&key).is_none() {
            proof {
                lemma_entries_map(self.entries@);
            }
            let ghost before = self.entries@;
            self.entries.push(CacheEntry { key, ids });
            proof {
                assert(self.entries@.drop_last() =~= before);
                assert forall|i: int, j: int|
                    0 <= i < self.entries@.len() && 0 <= j < self.entries@.len() && i != j implies (
                    #[trigger] self.entries@[i]).key@ != (#[trigger] self.entries@[j]).key@ by {
                    if i < before.len() && j < before.len() {
                        assert(self.entries@[i] == before[i] && self.entries@[j] == before[j]);
                    } else if i < before.len() {
                        assert(self.entries@[i] == before[i]);
                    } else {
                        assert(self.entries@[j] == before[j]);
                    }
                }
            }
        }
    }
}

/// Whether `t` is one of `types`.
fn contains_type(types: &Vec<ComponentType>, t: ComponentType) -> (r: bool)
    ensures
        r == types@.contains(t),
{
    let mut i: usize = 0;
    while i < types.len()
        invariant
            0 <= i <= types@.len(),
            forall|k: int| 0 <= k < i ==> types@[k] != t,
        decreases types@.len() - i,
    {
        if types[i] == t {
            return true;
        }
        i += 1;
    }
    false
}

/// Full scan of the stored entities for a request.
fn scan_entities(entities: &Vec<Entity>, types: &Vec<ComponentType>) -> (r: Vec<u128>)
    ensures
        r@ == scan(models(entities@), types@),
{
    let ghost all = models(entities@);
    let mut out: Vec<u128> = Vec::new();
    let mut i: usize = 0;
    while i < entities.len()
        invariant
            0 <= i <= entities@.len(),
            all == models(entities@),
            out@ == scan(all.subrange(0, i as int), types@),
        decreases entities@.len() - i,
    {
        let e = &entities[i];
        let ghost base = out@;
        let ghost cs = e.components@;
        let mut j: usize = 0;
        while j < e.components.len()
            invariant
                0 <= j <= cs.len(),
                cs == e.components@,
                out@ == base + Seq::new(hits(cs.subrange(0, j as int), types@), |_k: int| e.uid),
            decreases cs.len() - j,
        {
            proof {
                assert(cs.subrange(0, j as int + 1).drop_last() =~= cs.subrange(0, j as int));
            }
            if contains_type(types, e.components[j].get_type()) {
                out.push(e.uid);
            }
            proof {
                assert(out@ =~= base + Seq::new(
                    hits(cs.subrange(0, j as int + 1), types@),
                    |_k: int| e.uid,
                ));
            }
            j += 1;
        }
        proof {
            let s = all.subrange(0, i as int + 1);
            assert(s.drop_last() =~= all.subrange(0, i as int));
            assert(s.last() == e.view());
            assert(cs.subrange(0, cs.len() as int) =~= cs);
        }
        i += 1;
    }
    assert(all.subrange(0, entities@.len() as int) =~= all);
    out
}

/// Index of the entity with id `uid`, if stored.
pub fn find_entity(entities: &Vec<Entity>, uid: u128) -> (r: Option<usize>)
    ensures
        r.is_none() <==> !has_uid(models(entities@), uid),
        r.is_some() ==> r.unwrap() < entities@.len() && entities@[r.unwrap() as int].uid == uid,
{
    let ghost all = models(entities@);
    let mut i: usize = 0;
    while i < entities.len()
        invariant
            0 <= i <= entities@.len(),
            all == models(entities@),
            forall|k: int| 0 <= k < i ==> (#[trigger] entities@[k]).uid != uid,
        decreases entities@.len() - i,
    {
        if entities[i].uid == uid {
            assert(all[i as int].uid == uid);
            return Some(i);
        }
        i += 1;
    }
    proof {
        if has_uid(all, uid) {
            let k = choose|k: int| 0 <= k < all.len() && (#[trigger] all[k]).uid == uid;
            assert(entities@[k].uid == uid);
        }
    }
    None
}

/// The ids of `ids` that name a stored entity, in order.
pub fn live_ids(entities: &Vec<Entity>, ids: &Vec<u128>) -> (r: Vec<u128>)
    ensures
        r@ == live(ids@, models(entities@)),
{
    let mut out: Vec<u128> = Vec::new();
    let mut i: usize = 0;
    while i < ids.len()
        invariant
            0 <= i <= ids@.len(),
            out@ == live(ids@.subrange(0, i as int), models(entities@)),
        decreases ids@.len() - i,
    {
        proof {
            let s = ids@.subrange(0, i as int + 1);
            assert(s.drop_last() =~= ids@.subrange(0, i as int));
        }
        if find_entity(entities, ids[i]).is_some() {
            out.push(ids[i]);
        }
        i += 1;
    }
    assert(ids@.subrange(0, ids@.len() as int) =~= ids@);
    out
}

/// Entities that have any of the requested component kinds, through the
/// cache: on a missing key the scan result is stored first; then the cached
/// ids that still name a stored entity are returned in cache order.
pub fn get_entities_from(
    entities: &Vec<Entity>,
    cached_entities: &mut QueryCache,
    component_types: &Vec<ComponentType>,
) -> (r: Vec<u128>)
    requires
        old(cached_entities).wf(),
    ensures
        final(cached_entities).wf(),
        final(cached_entities)@ == cache_after(
            old(cached_entities)@,
            models(entities@),
            component_types@,
        ),
        r@ == live(final(cached_entities)@[signature(component_types@)], models(entities@)),
{
    let key = signature_key(component_types);
    if cached_entities.find(&key).is_none() {
        let found = scan_entities(entities, component_types);
        cached_entities.insert_if_absent(key.clone(), found);
    }
    match cached_entities.get(&key) {
        Some(uids) => live_ids(entities, uids),
        None => Vec::new(),
    }
}

/// Mathematical model of the world: entities in storage order and the cache.
pub struct WorldModel {
    pub entities: Seq<EntityModel>,
    pub cache: Map<Seq<char>, Seq<u128>>,
}

/// The world after a request for `types` (the cache may gain the key).
pub open spec fn resolve_world(w: WorldModel, types: Seq<ComponentType>) -> WorldModel {
    WorldModel { entities: w.entities, cache: cache_after(w.cache, w.entities, types) }
}

/// What a request for `types` returns on a world that already holds its key.
pub open spec fn resolved(w: WorldModel, types: Seq<ComponentType>) -> Seq<u128> {
    live(w.cache[signature(types)], w.entities)
}

/// The world after storing `e`: unchanged if its id is taken.
pub open spec fn add_entity(w: WorldModel, e: EntityModel) -> WorldModel {
    if has_uid(w.entities, e.uid) {
        w
    } else {
        WorldModel { entities: w.entities.push(e), cache: w.cache }
    }
}

/// The entity store and its query cache.
#[derive(Clone, Debug)]
pub struct Ecs {
    pub entities: Vec<Entity>,
    pub cached_entities: QueryCache,
}

impl Ecs {
    pub open spec fn view(&self) -> WorldModel {
        WorldModel { entities: models(self.entities@), cache: self.cached_entities@ }
    }

    /// Ids are unique and cache keys are unique.
    pub open spec fn wf(&self) -> bool {
        uids_unique(models(self.entities@)) && self.cached_entities.wf()
    }

    /// An empty world with an empty cache.
    pub fn new() -> (r: Ecs)
        ensures
            r.wf(),
            r@.entities == Seq::<EntityModel>::empty(),
            r@.cache == Map::<Seq<char>, Seq<u128>>::empty(),
    {
        let r = Ecs { entities: Vec::new(), cached_entities: QueryCache::new() };
        assert(models(r.entities@) =~= Seq::<EntityModel>::empty());
        r
    }

    /// Stores `entity` unless an entity with its id is present.
    pub fn insert_entity(&mut self, entity: Entity)
        requires
            old(self).wf(),
        ensures
            final(self).wf(),
            final(self)@ == add_entity(old(self)@, entity@),
    {
        if find_entity(&self.entities, entity.uid).is_none() {
            let ghost before = models(self.entities@);
            let ghost m = entity@;
            self.entities.push(entity);
            proof {
                assert(models(self.entities@) =~= before.push(m));
                let now = models(self.entities@);
                assert forall|i: int, j: int|
                    0 <= i < now.len() && 0 <= j < now.len() && i != j implies (
                    #[trigger] now[i]).uid != (#[trigger] now[j]).uid by {
                    if i < before.len() && j < before.len() {
                        assert(now[i] == before[i] && now[j] == before[j]);
                    } else if i < before.len() {
                        assert(now[i] == before[i]);
                    } else {
                        assert(now[j] == before[j]);
                    }
                }
            }
        }
    }

    /// Builds an entity with a fresh id from `components` (first of each kind
    /// kept) and stores it unless its id is taken.
    pub fn create_entity(&mut self, components: Vec<Component>)
        requires
            old(self).wf(),
        ensures
            final(self).wf(),
            exists|u: u128|
                final(self)@ == add_entity(
                    old(self)@,
                    EntityModel { uid: u, components: dedup_kinds(components@) },
                ),
    {
        let ghost cs = components@;
        let e = Entity::new(components);
        let ghost u = e.uid;
        self.insert_entity(e);
        assert(final(self)@ == add_entity(old(self)@, EntityModel { uid: u, components: dedup_kinds(cs) }));
    }

    /// Entities with any of `component_types`, through the query cache.
    pub fn resolve(&mut self, component_types: &Vec<ComponentType>) -> (r: Vec<u128>)
        requires
            old(self).wf(),
        ensures
            final(self).wf(),
            final(self)@ == resolve_world(old(self)@, component_types@),
            r@ == resolved(final(self)@, component_types@),
    {
        get_entities_from(&self.entities, &mut self.cached_entities, component_types)
    }

    /// The stored entity with id `uid`, if any.
    pub fn entity(&self, uid: u128) -> (r: Option<&Entity>)
        ensures
            r.is_none() <==> !has_uid(self@.entities, uid),
            r.is_some() ==> r.unwrap().uid == uid && exists|i: int|
                0 <= i < self@.entities.len() && self@.entities[i] == r.unwrap()@,
    {
        match find_entity(&self.entities, uid) {
            Some(i) => {
                assert(self@.entities[i as int] == self.entities@[i as int]@);
                Some(&self.entities[i])
            },
            None => None,
        }
    }
}

} // verus!
