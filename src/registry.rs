//! The entity registry: entities in insertion order, each with its optional
//! components, and a queue of deferred creations and destructions that is
//! applied once all systems of a tick have run.
use vstd::prelude::*;
use crate::components::Components;

verus! {

/// An entity: its identifier and the components attached to it.
#[derive(Clone, Debug)]
pub struct Entity {
    pub id: u64,
    pub parts: Components,
}

pub struct World {
    /// Live entities, in the order they were created.
    pub entities: Vec<Entity>,
    /// Identifier that the next created entity receives.
    pub next_id: u64,
    /// Entities to create at the next commit.
    pub pending_create: Vec<Components>,
    /// Identifiers of entities to remove at the next commit.
    pub pending_destroy: Vec<u64>,
}

/// The entities that a commit keeps: those not queued for removal, in order.
pub open spec fn survivors(es: Seq<Entity>, doomed: Seq<u64>) -> Seq<Entity> {
    es.filter(|e: Entity| !doomed.contains(e.id))
}

/// The entities that a commit creates, numbered from `start` in queue order.
pub open spec fn spawned(parts: Seq<Components>, start: u64) -> Seq<Entity> {
    Seq::new(parts.len(), |i: int| Entity { id: (start + i) as u64, parts: parts[i] })
}

/// Whether `id` occurs in `ids`.
pub fn contains_id(ids: &Vec<u64>, id: u64) -> (r: bool)
    ensures
        r == ids@.contains(id),
{
    let mut i: usize = 0;
    while i < ids.len()
        invariant
            i <= ids@.len(),
            forall|k: int| 0 <= k < i ==> ids@[k] != id,
        decreases ids@.len() - i,
    {
        if ids[i] == id {
            return true;
        }
        i = i + 1;
    }
    false
}

impl World {
    pub fn new() -> (r: World)
        ensures
            r.entities@.len() == 0,
            r.next_id == 0,
            r.pending_create@.len() == 0,
            r.pending_destroy@.len() == 0,
    {
        World {
            entities: Vec::new(),
            next_id: 0,
            pending_create: Vec::new(),
            pending_destroy: Vec::new(),
        }
    }

    /// Creates an entity at once, at the end of the registry.
    pub fn create(&mut self, parts: Components) -> (id: u64)
        requires
            old(self).next_id < u64::MAX,
        ensures
            id == old(self).next_id,
            final(self).next_id == old(self).next_id + 1,
            final(self).entities@ == old(self).entities@.push(Entity { id, parts }),
            final(self).pending_create@ == old(self).pending_create@,
            final(self).pending_destroy@ == old(self).pending_destroy@,
    {
        let id = self.next_id;
        self.entities.push(Entity { id, parts });
        self.next_id = self.next_id + 1;
        id
    }

    /// Queues an entity to be created at the next commit.
    pub fn defer_create(&mut self, parts: Components)
        ensures
            final(self).pending_create@ == old(self).pending_create@.push(parts),
            final(self).entities@ == old(self).entities@,
            final(self).next_id == old(self).next_id,
            final(self).pending_destroy@ == old(self).pending_destroy@,
    {
        self.pending_create.push(parts);
    }

    /// Queues an entity to be removed at the next commit.
    pub fn defer_destroy(&mut self, id: u64)
        ensures
            final(self).pending_destroy@ == old(self).pending_destroy@.push(id),
            final(self).entities@ == old(self).entities@,
            final(self).next_id == old(self).next_id,
            final(self).pending_create@ == old(self).pending_create@,
    {
        self.pending_destroy.push(id);
    }

    /// Applies the queued mutations: removes the entities queued for
    /// removal, then appends the queued creations with fresh identifiers,
    /// and empties both queues.
    pub fn maintain(&mut self)
        requires
            old(self).next_id + old(self).pending_create@.len() <= u64::MAX,
        ensures
            final(self).entities@ == survivors(old(self).entities@, old(self).pending_destroy@)
                + spawned(old(self).pending_create@, old(self).next_id),
            final(self).next_id == old(self).next_id + old(self).pending_create@.len(),
            final(self).pending_create@.len() == 0,
            final(self).pending_destroy@.len() == 0,
    {
        let ghost es = self.entities@;
        let ghost doomed = self.pending_destroy@;
        let ghost pred = |e: Entity| !doomed.contains(e.id);
        let n: usize = self.entities.len();
        let mut i: usize = 0;
        let mut k: usize = 0;
        while k < n
            invariant
                n == es.len(),
                doomed == self.pending_destroy@,
                pred == (|e: Entity| !doomed.contains(e.id)),
                k <= es.len(),
                i == es.take(k as int).filter(pred).len(),
                self.entities@ == es.take(k as int).filter(pred) + es.skip(k as int),
                self.next_id == old(self).next_id,
                self.pending_create@ == old(self).pending_create@,
            decreases es.len() - k,
        {
            assert(es.take(k as int + 1).drop_last() =~= es.take(k as int));
            assert(es.take(k as int + 1).last() == es[k as int]);
            let ghost before = es.take(k as int).filter(pred);
            proof {
                let t = es.take(k as int + 1);
                assert(t.len() > 0);
                reveal_with_fuel(Seq::filter, 1);
                assert(t.filter(pred) == if pred(t.last()) {
                    t.drop_last().filter(pred).push(t.last())
                } else {
                    t.drop_last().filter(pred)
                });
            }
            assert(es.take(k as int + 1).filter(pred) == if pred(es[k as int]) {
                before.push(es[k as int])
            } else {
                before
            });
            assert(self.entities@[i as int] == es[k as int]);
            if contains_id(&self.pending_destroy, self.entities[i].id) {
                self.entities.remove(i);
                assert(self.entities@ =~= es.take(k as int + 1).filter(pred) + es.skip(k as int + 1));
            } else {
                i = i + 1;
                assert(self.entities@ =~= es.take(k as int + 1).filter(pred) + es.skip(k as int + 1));
            }
            k = k + 1;
        }
        assert(es.take(es.len() as int) =~= es);
        assert(es.skip(es.len() as int) =~= Seq::<Entity>::empty());
        assert(self.entities@ == survivors(es, doomed));
        let ghost kept = self.entities@;
        let ghost start = self.next_id;
        let ghost parts = self.pending_create@;
        let m: usize = self.pending_create.len();
        let mut j: usize = 0;
        while j < m
            invariant
                m == parts.len(),
                j <= parts.len(),
                start == old(self).next_id,
                start + parts.len() <= u64::MAX,
                self.next_id == start + j,
                self.pending_create@ == parts.skip(j as int),
                self.entities@ == kept + spawned(parts, start).take(j as int),
            decreases parts.len() - j,
        {
            let c = self.pending_create.remove(0);
            let id = self.next_id;
            self.entities.push(Entity { id, parts: c });
            self.next_id = self.next_id + 1;
            assert(spawned(parts, start).take(j as int + 1) =~= spawned(parts, start).take(
                j as int,
            ).push(Entity { id, parts: c }));
            assert(self.pending_create@ =~= parts.skip(j as int + 1));
            j = j + 1;
        }
        assert(spawned(parts, start).take(parts.len() as int) =~= spawned(parts, start));
        self.pending_destroy.clear();
    }
}

} // verus!
