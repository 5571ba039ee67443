//! The entity registry.
//!
//! Creatures and food sources share one monotonically increasing id
//! space. Entries are kept in insertion order, so ids appear in strictly
//! ascending order and iteration order is deterministic — ascending id.
//! Ids are never reused.

use vstd::prelude::*;
use crate::math::Vec2i;
use crate::entities::Bounds;
use crate::entities::Creature;
use crate::entities::FoodSource;
use crate::entities::Params;
use crate::entities::Target;

verus! {

/// The first entry whose id is `id`, if any.
pub open spec fn lookup_seq<T>(s: Seq<(usize, T)>, id: usize) -> Option<T>
    decreases s.len(),
{
    if s.len() == 0 {
        None
    } else if s[0].0 == id {
        Some(s[0].1)
    } else {
        lookup_seq(s.drop_first(), id)
    }
}

/// Ids appear in strictly ascending order.
pub open spec fn ids_ascending<T>(s: Seq<(usize, T)>) -> bool {
    forall|i: int, j: int|
        0 <= i < j < s.len() ==> #[trigger] s[i].0 < #[trigger] s[j].0
}

/// Restricting the search to a suffix that still holds every entry with
/// id `id` does not change the result.
proof fn lemma_lookup_skip<T>(s: Seq<(usize, T)>, id: usize, i: int)
    requires
        0 <= i < s.len(),
        s[i].0 != id,
        lookup_seq(s, id) == lookup_seq(s.subrange(i, s.len() as int), id),
    ensures
        lookup_seq(s, id) == lookup_seq(s.subrange(i + 1, s.len() as int), id),
{
    let suf = s.subrange(i, s.len() as int);
    assert(suf[0] == s[i]);
    assert(suf.drop_first() =~= s.subrange(i + 1, s.len() as int));
}

/// If `id` sits at index `i` and nowhere earlier, the lookup finds it.
pub proof fn lemma_lookup_at<T>(s: Seq<(usize, T)>, id: usize, i: int)
    requires
        0 <= i < s.len(),
        s[i].0 == id,
        forall|j: int| 0 <= j < i ==> (#[trigger] s[j]).0 != id,
    ensures
        lookup_seq(s, id) == Some(s[i].1),
    decreases i,
{
    if i == 0 {
    } else {
        assert(s.drop_first() =~= s.subrange(1, s.len() as int));
        lemma_lookup_at(s.drop_first(), id, i - 1);
    }
}

/// If no entry has id `id`, the lookup fails.
pub proof fn lemma_lookup_absent<T>(s: Seq<(usize, T)>, id: usize)
    requires
        forall|j: int| 0 <= j < s.len() ==> (#[trigger] s[j]).0 != id,
    ensures
        lookup_seq(s, id) is None,
    decreases s.len(),
{
    if s.len() > 0 {
        assert(s.drop_first() =~= s.subrange(1, s.len() as int));
        lemma_lookup_absent(s.drop_first(), id);
    }
}

/// A successful lookup names an entry of the sequence.
pub proof fn lemma_lookup_mem<T>(s: Seq<(usize, T)>, id: usize)
    requires
        lookup_seq(s, id) is Some,
    ensures
        exists|i: int|
            0 <= i < s.len() && #[trigger] s[i] == (id, lookup_seq(s, id)->Some_0),
    decreases s.len(),
{
    if s[0].0 == id {
        assert(s[0] == (id, lookup_seq(s, id)->Some_0));
    } else {
        lemma_lookup_mem(s.drop_first(), id);
        let i = choose|i: int|
            0 <= i < s.drop_first().len()
                && #[trigger] s.drop_first()[i] == (id, lookup_seq(s.drop_first(), id)->Some_0);
        assert(s[i + 1] == (id, lookup_seq(s, id)->Some_0));
    }
}

/// The registry: owns every creature and food source, keyed by a shared,
/// monotonically increasing id counter.
pub struct World {
    pub next_id: usize,
    pub creatures: Vec<(usize, Creature)>,
    pub food_sources: Vec<(usize, FoodSource)>,
    pub params: Params,
    pub bounds: Bounds,
}

impl World {
    pub open spec fn lookup_creature(self, id: usize) -> Option<Creature> {
        lookup_seq(self.creatures@, id)
    }

    pub open spec fn lookup_food(self, id: usize) -> Option<FoodSource> {
        lookup_seq(self.food_sources@, id)
    }

    pub open spec fn wf(self) -> bool {
        &&& self.params.wf()
        &&& self.bounds.wf()
        &&& ids_ascending(self.creatures@)
        &&& ids_ascending(self.food_sources@)
        &&& forall|i: int|
            0 <= i < self.creatures@.len()
                ==> (#[trigger] self.creatures@[i]).0 < self.next_id
                    && self.creatures@[i].1.wf()
        &&& forall|i: int|
            0 <= i < self.food_sources@.len()
                ==> (#[trigger] self.food_sources@[i]).0 < self.next_id
                    && self.food_sources@[i].1.wf()
    }

    /// Look a creature up by id.
    pub fn get_creature(&self, id: usize) -> (r: Option<Creature>)
        ensures
            r == self.lookup_creature(id),
    {
        let n = self.creatures.len();
        let mut i: usize = 0;
        proof {
            assert(self.creatures@.subrange(0, n as int) =~= self.creatures@);
        }
        while i < n
            invariant
                0 <= i <= n,
                n == self.creatures@.len(),
                lookup_seq(self.creatures@, id)
                    == lookup_seq(self.creatures@.subrange(i as int, n as int), id),
            decreases n - i,
        {
            let entry = self.creatures[i];
            proof {
                assert(self.creatures@.subrange(i as int, n as int)[0] == self.creatures@[i as int]);
            }
            if entry.0 == id {
                return Some(entry.1);
            }
            proof {
                lemma_lookup_skip(self.creatures@, id, i as int);
            }
            i = i + 1;
        }
        proof {
            assert(self.creatures@.subrange(n as int, n as int).len() == 0);
        }
        None
    }

    /// Look a food source up by id.
    pub fn get_food(&self, id: usize) -> (r: Option<FoodSource>)
        ensures
            r == self.lookup_food(id),
    {
        let n = self.food_sources.len();
        let mut i: usize = 0;
        proof {
            assert(self.food_sources@.subrange(0, n as int) =~= self.food_sources@);
        }
        while i < n
            invariant
                0 <= i <= n,
                n == self.food_sources@.len(),
                lookup_seq(self.food_sources@, id)
                    == lookup_seq(self.food_sources@.subrange(i as int, n as int), id),
            decreases n - i,
        {
            let entry = self.food_sources[i];
            proof {
                assert(self.food_sources@.subrange(i as int, n as int)[0]
                    == self.food_sources@[i as int]);
            }
            if entry.0 == id {
                return Some(entry.1);
            }
            proof {
                lemma_lookup_skip(self.food_sources@, id, i as int);
            }
            i = i + 1;
        }
        proof {
            assert(self.food_sources@.subrange(n as int, n as int).len() == 0);
        }
        None
    }

    /// Insert a creature under the next free id.
    pub fn add_creature(&mut self, creature: Creature) -> (id: usize)
        requires
            old(self).wf(),
            creature.wf(),
            old(self).next_id < usize::MAX,
        ensures
            final(self).wf(),
            id == old(self).next_id,
            final(self).next_id == old(self).next_id + 1,
            final(self).creatures@ == old(self).creatures@.push((id, creature)),
            final(self).food_sources@ == old(self).food_sources@,
            final(self).params == old(self).params,
            final(self).bounds == old(self).bounds,
            old(self).lookup_creature(id) is None,
            old(self).lookup_food(id) is None,
            final(self).lookup_creature(id) == Some(creature),
    {
        let id = self.next_id;
        proof {
            lemma_lookup_absent(self.creatures@, id);
            lemma_lookup_absent(self.food_sources@, id);
        }
        self.next_id = self.next_id + 1;
        self.creatures.push((id, creature));
        proof {
            lemma_lookup_at(self.creatures@, id, self.creatures@.len() - 1);
        }
        id
    }

    /// Insert a food source under the next free id.
    pub fn add_food_source(&mut self, food_source: FoodSource) -> (id: usize)
        requires
            old(self).wf(),
            food_source.wf(),
            old(self).next_id < usize::MAX,
        ensures
            final(self).wf(),
            id == old(self).next_id,
            final(self).next_id == old(self).next_id + 1,
            final(self).food_sources@ == old(self).food_sources@.push((id, food_source)),
            final(self).creatures@ == old(self).creatures@,
            final(self).params == old(self).params,
            final(self).bounds == old(self).bounds,
            old(self).lookup_creature(id) is None,
            old(self).lookup_food(id) is None,
            final(self).lookup_food(id) == Some(food_source),
    {
        let id = self.next_id;
        proof {
            lemma_lookup_absent(self.creatures@, id);
            lemma_lookup_absent(self.food_sources@, id);
        }
        self.next_id = self.next_id + 1;
        self.food_sources.push((id, food_source));
        proof {
            lemma_lookup_at(self.food_sources@, id, self.food_sources@.len() - 1);
        }
        id
    }

    /// Build a world from initial entity lists, assigning ids in list
    /// order: creatures first, then food sources. Misconfigured input —
    /// ill-formed parameters, bounds or entities — is rejected.
    pub fn new(
        creatures: Vec<Creature>,
        food_sources: Vec<FoodSource>,
        params: Params,
        bounds: Bounds,
    ) -> (r: Option<World>)
        ensures
            r is Some <==> {
                &&& params.wf()
                &&& bounds.wf()
                &&& forall|i: int|
                    0 <= i < creatures@.len() ==> (#[trigger] creatures@[i]).wf()
                &&& forall|i: int|
                    0 <= i < food_sources@.len() ==> (#[trigger] food_sources@[i]).wf()
                &&& creatures@.len() + food_sources@.len() <= usize::MAX
            },
            r matches Some(w) ==> {
                &&& w.wf()
                &&& w.params == params
                &&& w.bounds == bounds
                &&& w.creatures@.len() == creatures@.len()
                &&& w.food_sources@.len() == food_sources@.len()
                &&& forall|i: int|
                    0 <= i < creatures@.len()
                        ==> #[trigger] w.creatures@[i] == (i as usize, creatures@[i])
                &&& forall|i: int|
                    0 <= i < food_sources@.len()
                        ==> #[trigger] w.food_sources@[i]
                            == ((creatures@.len() + i) as usize, food_sources@[i])
                &&& w.next_id == creatures@.len() + food_sources@.len()
            },
    {
        if !params.is_well_formed() || !bounds.is_well_formed() {
            return None;
        }
        let n_c = creatures.len();
        let n_f = food_sources.len();
        if usize::MAX - n_c < n_f {
            return None;
        }
        let mut i: usize = 0;
        while i < n_c
            invariant
                0 <= i <= n_c,
                n_c == creatures@.len(),
                forall|j: int| 0 <= j < i ==> (#[trigger] creatures@[j]).wf(),
            decreases n_c - i,
        {
            if !creatures[i].is_well_formed() {
                return None;
            }
            i = i + 1;
        }
        let mut i: usize = 0;
        while i < n_f
            invariant
                0 <= i <= n_f,
                n_f == food_sources@.len(),
                forall|j: int| 0 <= j < i ==> (#[trigger] food_sources@[j]).wf(),
            decreases n_f - i,
        {
            if !food_sources[i].is_well_formed() {
                return None;
            }
            i = i + 1;
        }
        let mut world = World {
            next_id: 0,
            creatures: Vec::new(),
            food_sources: Vec::new(),
            params,
            bounds,
        };
        let mut i: usize = 0;
        while i < n_c
            invariant
                0 <= i <= n_c,
                n_c == creatures@.len(),
                n_c + n_f <= usize::MAX,
                forall|j: int| 0 <= j < n_c ==> (#[trigger] creatures@[j]).wf(),
                world.wf(),
                world.next_id == i,
                world.creatures@.len() == i,
                world.food_sources@.len() == 0,
                world.params == params,
                world.bounds == bounds,
                forall|j: int|
                    0 <= j < i ==> #[trigger] world.creatures@[j] == (j as usize, creatures@[j]),
            decreases n_c - i,
        {
            world.add_creature(creatures[i]);
            i = i + 1;
        }
        let mut i: usize = 0;
        while i < n_f
            invariant
                0 <= i <= n_f,
                n_f == food_sources@.len(),
                n_c == creatures@.len(),
                n_c + n_f <= usize::MAX,
                forall|j: int| 0 <= j < n_f ==> (#[trigger] food_sources@[j]).wf(),
                world.wf(),
                world.next_id == n_c + i,
                world.creatures@.len() == n_c,
                world.food_sources@.len() == i,
                world.params == params,
                world.bounds == bounds,
                forall|j: int|
                    0 <= j < n_c ==> #[trigger] world.creatures@[j] == (j as usize, creatures@[j]),
                forall|j: int|
                    0 <= j < i
                        ==> #[trigger] world.food_sources@[j]
                            == ((n_c + j) as usize, food_sources@[j]),
            decreases n_f - i,
        {
            world.add_food_source(food_sources[i]);
            i = i + 1;
        }
        Some(world)
    }
}

impl Target {
    /// The point this target stands for right now: a fixed point always
    /// resolves, an id resolves to the entity's current position if the
    /// entity is still registered, and dangles otherwise.
    pub open spec fn resolve_spec(self, w: World) -> Option<Vec2i> {
        match self {
            Target::Creature(id) => match w.lookup_creature(id) {
                Some(c) => Some(c.position),
                None => None,
            },
            Target::Food(id) => match w.lookup_food(id) {
                Some(f) => Some(f.position),
                None => None,
            },
            Target::Position(p) => Some(p),
        }
    }

    /// Resolve this target against the registry.
    pub fn position(&self, world: &World) -> (r: Option<Vec2i>)
        ensures
            r == self.resolve_spec(*world),
    {
        match self {
            Target::Creature(id) => match world.get_creature(*id) {
                Some(c) => Some(c.position),
                None => None,
            },
            Target::Food(id) => match world.get_food(*id) {
                Some(f) => Some(f.position),
                None => None,
            },
            Target::Position(p) => Some(*p),
        }
    }
}

/// A resolved position of a well-formed world lies in the coordinate
/// range, provided any fixed-point target does.
pub proof fn lemma_resolved_bounded(t: Target, w: World)
    requires
        w.wf(),
        (t matches Target::Position(p) ==> p.bounded(crate::math::COORD_LIMIT as int)),
        t.resolve_spec(w) is Some,
    ensures
        t.resolve_spec(w)->Some_0.bounded(crate::math::COORD_LIMIT as int),
{
    match t {
        Target::Creature(id) => {
            lemma_lookup_mem(w.creatures@, id);
        }
        Target::Food(id) => {
            lemma_lookup_mem(w.food_sources@, id);
        }
        Target::Position(_p) => {}
    }
}

} // verus!
