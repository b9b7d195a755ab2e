use vstd::prelude::*;
use crate::components::{Component, ComponentType};

verus! {

/// Relies on uuid::Uuid::new_v4 (a random version-4 id) and Uuid::as_u128
/// (its 128 bits as an integer). Nothing is promised of the value.
#[verifier::external_body]
fn fresh_uid() -> (r: u128) {
    uuid::Uuid::new_v4().as_u128()
}

/// Whether some component of `cs` reports kind `t`.
pub open spec fn has_kind(cs: Seq<Component>, t: ComponentType) -> bool {
    exists|i: int| 0 <= i < cs.len() && (#[trigger] cs[i]).kind() == t
}

/// Adds `c` unless a component of its kind is already present.
pub open spec fn insert_if_absent(cs: Seq<Component>, c: Component) -> Seq<Component> {
    if has_kind(cs, c.kind()) {
        cs
    } else {
        cs.push(c)
    }
}

/// The components in order, each kept only if no earlier one has its kind.
pub open spec fn dedup_kinds(cs: Seq<Component>) -> Seq<Component>
    decreases cs.len(),
{
    if cs.len() == 0 {
        cs
    } else {
        insert_if_absent(dedup_kinds(cs.drop_last()), cs.last())
    }
}

/// No two components share a kind.
pub open spec fn kinds_unique(cs: Seq<Component>) -> bool {
    forall|i: int, j: int|
        0 <= i < cs.len() && 0 <= j < cs.len() && i != j ==> (#[trigger] cs[i]).kind() != (
        #[trigger] cs[j]).kind()
}

/// The first component of kind `t`, if any.
pub open spec fn find_kind(cs: Seq<Component>, t: ComponentType) -> Option<Component>
    decreases cs.len(),
{
    if cs.len() == 0 {
        None
    } else if cs[0].kind() == t {
        Some(cs[0])
    } else {
        find_kind(cs.drop_first(), t)
    }
}

/// Mathematical model of an entity: its id and its components in storage order.
pub struct EntityModel {
    pub uid: u128,
    pub components: Seq<Component>,
}

/// A game object: a unique id and at most one component per kind.
#[derive(Clone, Debug)]
pub struct Entity {
    pub uid: u128,
    pub components: Vec<Component>,
}

proof fn lemma_insert_keeps_unique(cs: Seq<Component>, c: Component)
    requires
        kinds_unique(cs),
    ensures
        kinds_unique(insert_if_absent(cs, c)),
        has_kind(insert_if_absent(cs, c), c.kind()),
{
    if !has_kind(cs, c.kind()) {
        let r = cs.push(c);
        assert(r[cs.len() as int].kind() == c.kind());
        assert forall|i: int, j: int|
            0 <= i < r.len() && 0 <= j < r.len() && i != j implies (#[trigger] r[i]).kind() != (
            #[trigger] r[j]).kind() by {
            if i < cs.len() && j < cs.len() {
                assert(r[i] == cs[i] && r[j] == cs[j]);
            } else if i < cs.len() {
                assert(r[i] == cs[i]);
            } else {
                assert(r[j] == cs[j]);
            }
        }
    } else {
        let i = choose|i: int| 0 <= i < cs.len() && (#[trigger] cs[i]).kind() == c.kind();
        assert(cs[i].kind() == c.kind());
    }
}

/// Adding a component of a kind already present leaves the entity's
/// components, and so the values of the present one, unchanged.
pub proof fn lemma_insert_if_absent_keeps_original(cs: Seq<Component>, c: Component)
    requires
        has_kind(cs, c.kind()),
    ensures
        insert_if_absent(cs, c) == cs,
        find_kind(insert_if_absent(cs, c), c.kind()) == find_kind(cs, c.kind()),
{
}

impl Entity {
    pub open spec fn view(&self) -> EntityModel {
        EntityModel { uid: self.uid, components: self.components@ }
    }

    /// At most one component per kind.
    pub open spec fn wf(&self) -> bool {
        kinds_unique(self.components@)
    }

    /// An entity with the given id and the given components, deduplicated by
    /// kind with the first of each kind kept.
    pub fn with_uid(uid: u128, components: Vec<Component>) -> (r: Entity)
        ensures
            r.uid == uid,
            r.components@ == dedup_kinds(components@),
            r.wf(),
    {
        let ghost all = components@;
        let mut rest = components;
        let mut e = Entity { uid, components: Vec::new() };
        let ghost mut i: int = 0;
        while rest.len() > 0
            invariant
                0 <= i <= all.len(),
                rest@ == all.subrange(i, all.len() as int),
                e.uid == uid,
                e.components@ == dedup_kinds(all.subrange(0, i)),
                e.wf(),
            decreases rest@.len(),
        {
            proof {
                let s = all.subrange(0, i + 1);
                assert(s.drop_last() =~= all.subrange(0, i));
                assert(s.last() == all[i]);
            }
            let c = rest.remove(0);
            e.add_component(c);
            proof {
                i = i + 1;
                assert(rest@ =~= all.subrange(i, all.len() as int));
            }
        }
        assert(all.subrange(0, all.len() as int) =~= all);
        e
    }

    /// A new entity with a fresh random id; components as in `with_uid`.
    pub fn new(components: Vec<Component>) -> (r: Entity)
        ensures
            r.components@ == dedup_kinds(components@),
            r.wf(),
    {
        Entity::with_uid(fresh_uid(), components)
    }

    /// Inserts `component` unless one of its kind is present (no overwrite).
    pub fn add_component(&mut self, component: Component)
        requires
            old(self).wf(),
        ensures
            final(self).uid == old(self).uid,
            final(self).components@ == insert_if_absent(old(self).components@, component),
            final(self).wf(),
    {
        proof {
            lemma_insert_keeps_unique(self.components@, component);
        }
        if self.index_of(component.get_type()).is_none() {
            self.components.push(component);
        }
    }

    /// Index of the component of kind `t`, if present.
    pub fn index_of(&self, t: ComponentType) -> (r: Option<usize>)
        ensures
            r.is_none() <==> !has_kind(self.components@, t),
            r.is_none() ==> find_kind(self.components@, t).is_none(),
            r.is_some() ==> r.unwrap() < self.components@.len() && self.components@[r.unwrap() as int].kind() == t
                && find_kind(self.components@, t) == Some(self.components@[r.unwrap() as int]),
    {
        let mut i: usize = 0;
        assert(self.components@.subrange(0, self.components@.len() as int) =~= self.components@);
        while i < self.components.len()
            invariant
                0 <= i <= self.components@.len(),
                forall|k: int| 0 <= k < i ==> (#[trigger] self.components@[k]).kind() != t,
                find_kind(self.components@, t) == find_kind(self.components@.subrange(i as int, self.components@.len() as int), t),
            decreases self.components@.len() - i,
        {
            proof {
                let s = self.components@.subrange(i as int, self.components@.len() as int);
                assert(s.drop_first() =~= self.components@.subrange(i as int + 1, self.components@.len() as int));
                assert(s[0] == self.components@[i as int]);
            }
            if self.components[i].get_type() == t {
                return Some(i);
            }
            i += 1;
        }
        assert(self.components@.subrange(i as int, self.components@.len() as int).len() == 0);
        None
    }

    /// The component of kind `t`, if present, for changing in place.
    pub fn get_mut_component(&mut self, t: &ComponentType) -> (r: Option<&mut Component>)
        ensures
            final(self).uid == old(self).uid,
            r.is_none() ==> !has_kind(old(self).components@, *t) && final(self).components@ == old(self).components@,
            r.is_some() ==> find_kind(old(self).components@, *t) == Some(*r.unwrap()) && exists|i: int|
                0 <= i < old(self).components@.len() && old(self).components@[i] == *r.unwrap()
                && final(self).components@ == old(self).components@.update(i, *final(r.unwrap())),
    {
        match self.index_of(*t) {
            Some(i) => Some(&mut self.components[i]),
            None => None,
        }
    }

    /// All components, in storage order.
    pub fn get_components(&self) -> (r: &Vec<Component>)
        ensures
            r@ == self.components@,
    {
        &self.components
    }

    /// The component of kind `t`, if present.
    pub fn get_component(&self, t: &ComponentType) -> (r: Option<&Component>)
        ensures
            r.is_some() == find_kind(self.components@, *t).is_some(),
            r.is_some() ==> *r.unwrap() == find_kind(self.components@, *t).unwrap(),
    {
        match self.index_of(*t) {
            Some(i) => Some(&self.components[i]),
            None => None,
        }
    }
}

} // verus!
