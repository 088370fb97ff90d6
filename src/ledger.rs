use vstd::prelude::*;
use crate::stakes::{
    contribution, lemma_stake_sum_absent, lemma_stake_sum_insert, lemma_stake_sum_member,
    lemma_stake_sum_update, stake_sum,
};
use crate::types::{
    legal_transition, Arena, ArenaError, ArenaStatus, ArenaView, Message, Operation, Owner,
    Prediction, Query, QueryResponse,
};

verus! {

/// Whether `p` is the record of owner `o` on arena `a`.
pub open spec fn holds_key(p: Prediction, a: u64, o: Owner) -> bool {
    p.arena_id == a && p.owner == o
}

/// The order of prediction keys: by arena id, then by owner.
pub open spec fn key_lt(a1: u64, o1: Owner, a2: u64, o2: Owner) -> bool {
    ||| a1 < a2
    ||| (a1 == a2 && o1.high < o2.high)
    ||| (a1 == a2 && o1.high == o2.high && o1.low < o2.low)
}

/// Whether the key of `p` comes before the key of `q`.
pub open spec fn pred_lt(p: Prediction, q: Prediction) -> bool {
    key_lt(p.arena_id, p.owner, q.arena_id, q.owner)
}

/// Whether a record of owner `o` on arena `a` belongs at position `i` of the
/// key-ordered records `ps`.
pub open spec fn is_insertion_point(ps: Seq<Prediction>, a: u64, o: Owner, i: int) -> bool {
    &&& 0 <= i <= ps.len()
    &&& forall|j: int| 0 <= j < i ==> key_lt((#[trigger] ps[j]).arena_id, ps[j].owner, a, o)
    &&& forall|j: int| i <= j < ps.len() ==> key_lt(a, o, (#[trigger] ps[j]).arena_id, ps[j].owner)
}

/// The position at which a record of owner `o` on arena `a` belongs in `ps`.
pub open spec fn insertion_index(ps: Seq<Prediction>, a: u64, o: Owner) -> int {
    choose|i: int| is_insertion_point(ps, a, o, i)
}

/// Whether `ps` holds a record of owner `o` on arena `a`.
pub open spec fn has_prediction(ps: Seq<Prediction>, a: u64, o: Owner) -> bool {
    exists|j: int| 0 <= j < ps.len() && holds_key(#[trigger] ps[j], a, o)
}

/// The position of the record of owner `o` on arena `a`, where there is one.
pub open spec fn prediction_index(ps: Seq<Prediction>, a: u64, o: Owner) -> int {
    choose|j: int| 0 <= j < ps.len() && holds_key(#[trigger] ps[j], a, o)
}

/// What the existing record of owner `o` on arena `a`, if any, adds to outcome `k`.
pub open spec fn prior_contribution(ps: Seq<Prediction>, a: u64, o: Owner, k: int) -> int {
    if has_prediction(ps, a, o) {
        contribution(ps[prediction_index(ps, a, o)], a, k)
    } else {
        0
    }
}

/// Whether a status passes an optional status filter.
pub open spec fn status_matches(s: ArenaStatus, filter: Option<ArenaStatus>) -> bool {
    match filter {
        Some(t) => s == t,
        None => true,
    }
}

/// The values of a sequence of arenas.
pub open spec fn arena_views(s: Seq<Arena>) -> Seq<ArenaView> {
    s.map_values(|a: Arena| a@)
}

/// The arenas of `s` whose status passes `filter`, in their order in `s`.
pub open spec fn arenas_matching(s: Seq<ArenaView>, filter: Option<ArenaStatus>) -> Seq<ArenaView>
    decreases s.len(),
{
    if s.len() == 0 {
        Seq::empty()
    } else {
        let rest = arenas_matching(s.drop_last(), filter);
        if status_matches(s.last().status, filter) {
            rest.push(s.last())
        } else {
            rest
        }
    }
}

/// The records of `ps` that belong to owner `o`, in their order in `ps`.
pub open spec fn predictions_of_owner(ps: Seq<Prediction>, o: Owner) -> Seq<Prediction>
    decreases ps.len(),
{
    if ps.len() == 0 {
        Seq::empty()
    } else {
        let rest = predictions_of_owner(ps.drop_last(), o);
        if ps.last().owner == o {
            rest.push(ps.last())
        } else {
            rest
        }
    }
}

/// The records of `ps` on arena `a`, in their order in `ps`.
pub open spec fn predictions_on_arena(ps: Seq<Prediction>, a: u64) -> Seq<Prediction>
    decreases ps.len(),
{
    if ps.len() == 0 {
        Seq::empty()
    } else {
        let rest = predictions_on_arena(ps.drop_last(), a);
        if ps.last().arena_id == a {
            rest.push(ps.last())
        } else {
            rest
        }
    }
}

/// Whether a status passes an optional status filter.
pub fn status_matches_exec(s: ArenaStatus, filter: Option<ArenaStatus>) -> (r: bool)
    ensures
        r == status_matches(s, filter),
{
    match filter {
        Some(t) => s == t,
        None => true,
    }
}

/// The ledger: every arena, indexed by its id, and every prediction, one per
/// (arena, owner) pair, ordered by that pair.
pub struct AetherArena {
    pub arenas: Vec<Arena>,
    pub predictions: Vec<Prediction>,
    pub next_arena_id: u64,
}

impl AetherArena {
    /// Arena `a` carries its own id, one stake total per outcome, a resolution inside
    /// its outcome list, and stake totals equal to the sums over its predictions.
    pub open spec fn arena_wf(&self, a: int) -> bool {
        let v = self.arenas@[a]@;
        &&& v.id == a
        &&& v.total_stakes.len() == v.outcomes.len()
        &&& (v.resolution_outcome matches Some(w) ==> w < v.outcomes.len())
        &&& forall|k: int|
            0 <= k < v.outcomes.len() ==> #[trigger] self.arenas@[a].total_stakes@[k]
                == stake_sum(self.predictions@, a as u64, k)
    }

    pub open spec fn wf(&self) -> bool {
        &&& self.arenas@.len() == self.next_arena_id
        &&& forall|a: int| 0 <= a < self.arenas@.len() ==> #[trigger] self.arena_wf(a)
        &&& forall|j: int|
            0 <= j < self.predictions@.len() ==> {
                let p = #[trigger] self.predictions@[j];
                &&& p.arena_id < self.next_arena_id
                &&& p.outcome_index < self.arenas@[p.arena_id as int].outcomes@.len()
            }
        &&& forall|i: int, j: int|
            0 <= i < j < self.predictions@.len() ==> pred_lt(
                #[trigger] self.predictions@[i],
                #[trigger] self.predictions@[j],
            )
    }

    /// `after` is `before` with one arena appended, built from the given values.
    pub open spec fn arena_created(
        before: &AetherArena,
        after: &AetherArena,
        question: Seq<char>,
        outcomes: Seq<Seq<char>>,
        creator: Owner,
        now: u64,
    ) -> bool {
        let id = before.next_arena_id;
        &&& after.next_arena_id == id + 1
        &&& after.predictions@ == before.predictions@
        &&& after.arenas@.len() == before.arenas@.len() + 1
        &&& forall|b: int| 0 <= b < before.arenas@.len() ==> after.arenas@[b] == before.arenas@[b]
        &&& after.arenas@[id as int]@ == (ArenaView {
            id,
            question,
            outcomes,
            status: ArenaStatus::Open,
            total_stakes: Seq::new(outcomes.len(), |i: int| 0u64),
            creator,
            created_at: now,
            resolution_outcome: None,
        })
    }

    /// Adds an arena with the given question and outcomes, in status `Open`, with
    /// every stake total zero and no resolution; returns its id.
    pub fn create_arena(
        &mut self,
        question: String,
        outcomes: Vec<String>,
        creator: Owner,
        now: u64,
    ) -> (id: u64)
        requires
            old(self).wf(),
            old(self).next_arena_id < u64::MAX,
        ensures
            final(self).wf(),
            id == old(self).next_arena_id,
            Self::arena_created(
                old(self),
                final(self),
                question@,
                outcomes@.map_values(|s: String| s@),
                creator,
                now,
            ),
    {
        let id = self.next_arena_id;
        let n = outcomes.len();
        let mut stakes: Vec<u64> = Vec::new();
        let mut i: usize = 0;
        while i < n
            invariant
                i <= n,
                stakes@ == Seq::new(i as nat, |j: int| 0u64),
            decreases n - i,
        {
            stakes.push(0);
            i = i + 1;
            assert(stakes@ =~= Seq::new(i as nat, |j: int| 0u64));
        }
        let arena = Arena {
            id,
            question,
            outcomes,
            status: ArenaStatus::Open,
            total_stakes: stakes,
            creator,
            created_at: now,
            resolution_outcome: None,
        };
        let ghost old_self = *self;
        self.arenas.push(arena);
        self.next_arena_id = id + 1;
        proof {
            assert forall|a: int| 0 <= a < self.arenas@.len() implies #[trigger] self.arena_wf(a) by {
                if a < old_self.arenas@.len() {
                    assert(old_self.arena_wf(a));
                } else {
                    assert forall|k: int| 0 <= k < n implies stake_sum(self.predictions@, id, k) == 0 by {
                        lemma_stake_sum_absent(self.predictions@, id, k);
                    }
                }
            }
        }
        id
    }

    /// Which outcome a prediction request has on this ledger.
    pub open spec fn place_prediction_result(
        &self,
        arena_id: u64,
        outcome_index: usize,
        amount: u64,
        owner: Owner,
    ) -> Result<(), ArenaError> {
        if arena_id >= self.arenas@.len() {
            Err(ArenaError::NotFound)
        } else if self.arenas@[arena_id as int].status != ArenaStatus::Open {
            Err(ArenaError::InvalidState)
        } else if outcome_index >= self.arenas@[arena_id as int].outcomes@.len() {
            Err(ArenaError::InvalidArgument)
        } else if self.arenas@[arena_id as int].total_stakes@[outcome_index as int] - prior_contribution(
            self.predictions@,
            arena_id,
            owner,
            outcome_index as int,
        ) + amount > u64::MAX {
            Err(ArenaError::Overflow)
        } else {
            Ok(())
        }
    }

    /// `after` is `before` where the record of `owner` on arena `arena_id` holds the new
    /// stake, replacing any earlier one, and the arena's totals moved with it.
    pub open spec fn prediction_placed(
        before: &AetherArena,
        after: &AetherArena,
        arena_id: u64,
        outcome_index: usize,
        amount: u64,
        owner: Owner,
        now: u64,
    ) -> bool {
        let p = Prediction { arena_id, owner, outcome_index, amount, placed_at: now };
        let a = arena_id as int;
        &&& after.next_arena_id == before.next_arena_id
        &&& after.arenas@.len() == before.arenas@.len()
        &&& forall|b: int| 0 <= b < before.arenas@.len() && b != a ==> after.arenas@[b] == before.arenas@[b]
        &&& after.arenas@[a]@ == (ArenaView { total_stakes: after.arenas@[a]@.total_stakes, ..before.arenas@[a]@ })
        &&& after.arenas@[a].total_stakes@.len() == before.arenas@[a].total_stakes@.len()
        &&& forall|k: int| 0 <= k < before.arenas@[a].total_stakes@.len() ==>
            #[trigger] after.arenas@[a].total_stakes@[k] == before.arenas@[a].total_stakes@[k]
                - prior_contribution(before.predictions@, arena_id, owner, k) + contribution(p, arena_id, k)
        &&& if has_prediction(before.predictions@, arena_id, owner) {
            after.predictions@ == before.predictions@.update(
                prediction_index(before.predictions@, arena_id, owner),
                p,
            )
        } else {
            after.predictions@ == before.predictions@.insert(
                insertion_index(before.predictions@, arena_id, owner),
                p,
            )
        }
    }

    /// The position of the record of `owner` on arena `arena_id`, or, where there
    /// is none, the position at which it belongs.
    pub fn find_prediction(&self, arena_id: u64, owner: Owner) -> (r: Result<usize, usize>)
        requires
            self.wf(),
        ensures
            match r {
                Ok(j) => j < self.predictions@.len() && holds_key(self.predictions@[j as int], arena_id, owner),
                Err(i) => !has_prediction(self.predictions@, arena_id, owner)
                    && is_insertion_point(self.predictions@, arena_id, owner, i as int),
            },
    {
        let ghost ps = self.predictions@;
        let mut i: usize = 0;
        while i < self.predictions.len()
            invariant
                self.wf(),
                ps == self.predictions@,
                i <= ps.len(),
                forall|j: int| 0 <= j < i ==> key_lt((#[trigger] ps[j]).arena_id, ps[j].owner, arena_id, owner),
            decreases ps.len() - i,
        {
            let p = self.predictions[i];
            let before = p.arena_id < arena_id || (p.arena_id == arena_id && (p.owner.high < owner.high
                || (p.owner.high == owner.high && p.owner.low < owner.low)));
            if !before {
                if p.arena_id == arena_id && p.owner == owner {
                    return Ok(i);
                }
                proof {
                    assert forall|j: int| i <= j < ps.len() implies key_lt(arena_id, owner, (#[trigger] ps[j]).arena_id, ps[j].owner) by {
                        if j > i {
                            assert(pred_lt(ps[i as int], ps[j]));
                        }
                    }
                    assert forall|j: int| 0 <= j < ps.len() implies !holds_key(#[trigger] ps[j], arena_id, owner) by {
                        if j < i {
                            assert(key_lt(ps[j].arena_id, ps[j].owner, arena_id, owner));
                        } else {
                            assert(key_lt(arena_id, owner, ps[j].arena_id, ps[j].owner));
                        }
                    }
                }
                return Err(i);
            }
            i = i + 1;
        }
        proof {
            assert forall|j: int| 0 <= j < ps.len() implies !holds_key(#[trigger] ps[j], arena_id, owner) by {
                assert(key_lt(ps[j].arena_id, ps[j].owner, arena_id, owner));
            }
        }
        Err(i)
    }

    /// Records `owner`'s stake of `amount` on outcome `outcome_index` of arena
    /// `arena_id`. An earlier record of the same owner on the same arena is
    /// replaced, and its amount taken out of the totals before the new one is added,
    /// so each total stays the sum over the current records.
    pub fn place_prediction(
        &mut self,
        arena_id: u64,
        outcome_index: usize,
        amount: u64,
        owner: Owner,
        now: u64,
    ) -> (r: Result<(), ArenaError>)
        requires
            old(self).wf(),
        ensures
            final(self).wf(),
            r == old(self).place_prediction_result(arena_id, outcome_index, amount, owner),
            r is Ok ==> Self::prediction_placed(
                old(self),
                final(self),
                arena_id,
                outcome_index,
                amount,
                owner,
                now,
            ),
            r is Err ==> *final(self) == *old(self),
    {
        if arena_id >= self.arenas.len() as u64 {
            return Err(ArenaError::NotFound);
        }
        let ai = arena_id as usize;
        if self.arenas[ai].status != ArenaStatus::Open {
            return Err(ArenaError::InvalidState);
        }
        if outcome_index >= self.arenas[ai].outcomes.len() {
            return Err(ArenaError::InvalidArgument);
        }
        let ghost old_self = *self;
        let ghost ps = self.predictions@;
        let p = Prediction { arena_id, owner, outcome_index, amount, placed_at: now };
        proof {
            assert(self.arena_wf(ai as int));
        }
        match self.find_prediction(arena_id, owner) {
            Ok(j) => {
                let prior = self.predictions[j];
                proof {
                    let pj = prediction_index(ps, arena_id, owner);
                    assert(holds_key(ps[pj], arena_id, owner));
                    if pj < j {
                        assert(pred_lt(ps[pj], ps[j as int]));
                    } else if pj > j {
                        assert(pred_lt(ps[j as int], ps[pj]));
                    }
                    assert(pj == j);
                    assert(0 <= j < ps.len());
                    lemma_stake_sum_member(ps, j as int, arena_id, prior.outcome_index as int);
                }
                let current = self.arenas[ai].total_stakes[outcome_index];
                let base: u64 = if prior.outcome_index == outcome_index {
                    current - prior.amount
                } else {
                    current
                };
                if base > u64::MAX - amount {
                    return Err(ArenaError::Overflow);
                }
                let mut arena = self.arenas.remove(ai);
                let old_total = arena.total_stakes[prior.outcome_index];
                arena.total_stakes.set(prior.outcome_index, old_total - prior.amount);
                arena.total_stakes.set(outcome_index, base + amount);
                self.arenas.insert(ai, arena);
                self.predictions.set(j, p);
                proof {
                    assert forall|x: int, y: int| 0 <= x < y < self.predictions@.len() implies pred_lt(
                        #[trigger] self.predictions@[x],
                        #[trigger] self.predictions@[y],
                    ) by {
                        assert(pred_lt(ps[x], ps[y]));
                    }
                    assert forall|b: int, k: int| 0 <= b < self.arenas@.len() && 0 <= k implies
                        #[trigger] stake_sum(self.predictions@, b as u64, k) == stake_sum(ps, b as u64, k)
                            - contribution(prior, b as u64, k) + contribution(p, b as u64, k) by {
                        lemma_stake_sum_update(ps, j as int, p, b as u64, k);
                    }
                }
            },
            Err(pos) => {
                if self.arenas[ai].total_stakes[outcome_index] > u64::MAX - amount {
                    return Err(ArenaError::Overflow);
                }
                let mut arena = self.arenas.remove(ai);
                let old_total = arena.total_stakes[outcome_index];
                arena.total_stakes.set(outcome_index, old_total + amount);
                self.arenas.insert(ai, arena);
                self.predictions.insert(pos, p);
                proof {
                    let c = insertion_index(ps, arena_id, owner);
                    assert(is_insertion_point(ps, arena_id, owner, c));
                    if c < pos {
                        assert(key_lt(ps[c].arena_id, ps[c].owner, arena_id, owner));
                        assert(key_lt(arena_id, owner, ps[c].arena_id, ps[c].owner));
                    } else if c > pos {
                        assert(key_lt(ps[pos as int].arena_id, ps[pos as int].owner, arena_id, owner));
                        assert(key_lt(arena_id, owner, ps[pos as int].arena_id, ps[pos as int].owner));
                    }
                    assert(c == pos);
                    let qs = self.predictions@;
                    assert forall|x: int, y: int| 0 <= x < y < qs.len() implies pred_lt(#[trigger] qs[x], #[trigger] qs[y]) by {
                        if y < pos {
                            assert(pred_lt(ps[x], ps[y]));
                        } else if y == pos {
                            assert(key_lt(ps[x].arena_id, ps[x].owner, arena_id, owner));
                        } else if x < pos {
                            assert(key_lt(ps[x].arena_id, ps[x].owner, arena_id, owner));
                            assert(key_lt(arena_id, owner, ps[y - 1].arena_id, ps[y - 1].owner));
                        } else if x == pos {
                            assert(key_lt(arena_id, owner, ps[y - 1].arena_id, ps[y - 1].owner));
                        } else {
                            assert(pred_lt(ps[x - 1], ps[y - 1]));
                        }
                    }
                    assert forall|b: int, k: int| 0 <= b < self.arenas@.len() && 0 <= k implies
                        #[trigger] stake_sum(self.predictions@, b as u64, k) == stake_sum(ps, b as u64, k)
                            + contribution(p, b as u64, k) by {
                        lemma_stake_sum_insert(ps, pos as int, p, b as u64, k);
                    }
                }
            },
        }
        proof {
            assert forall|b: int| 0 <= b < self.arenas@.len() implies #[trigger] self.arena_wf(b) by {
                assert(old_self.arena_wf(b));
            }
        }
        Ok(())
    }

    /// `after` is `before` with arena `arena_id` replaced by `v` and nothing else changed.
    pub open spec fn arena_replaced(before: &AetherArena, after: &AetherArena, arena_id: u64, v: ArenaView) -> bool {
        &&& after.next_arena_id == before.next_arena_id
        &&& after.predictions@ == before.predictions@
        &&& after.arenas@.len() == before.arenas@.len()
        &&& forall|b: int| 0 <= b < before.arenas@.len() && b != arena_id ==> after.arenas@[b] == before.arenas@[b]
        &&& after.arenas@[arena_id as int]@ == v
    }

    /// Which outcome a resolution request has on this ledger.
    pub open spec fn resolve_arena_result(&self, arena_id: u64, winning_outcome: usize) -> Result<(), ArenaError> {
        if arena_id >= self.arenas@.len() {
            Err(ArenaError::NotFound)
        } else if winning_outcome >= self.arenas@[arena_id as int].outcomes@.len() {
            Err(ArenaError::InvalidArgument)
        } else {
            Ok(())
        }
    }

    /// Which outcome a status change request has on this ledger.
    pub open spec fn update_arena_status_result(&self, arena_id: u64, new_status: ArenaStatus) -> Result<(), ArenaError> {
        if arena_id >= self.arenas@.len() {
            Err(ArenaError::NotFound)
        } else if !legal_transition(self.arenas@[arena_id as int].status, new_status) {
            Err(ArenaError::InvalidState)
        } else {
            Ok(())
        }
    }

    /// Closes arena `arena_id` with `winning_outcome` as its resolution, whatever
    /// its status was. A second resolution replaces the first.
    pub fn resolve_arena(&mut self, arena_id: u64, winning_outcome: usize) -> (r: Result<(), ArenaError>)
        requires
            old(self).wf(),
        ensures
            final(self).wf(),
            r == old(self).resolve_arena_result(arena_id, winning_outcome),
            r is Ok ==> Self::arena_replaced(
                old(self),
                final(self),
                arena_id,
                ArenaView {
                    status: ArenaStatus::Closed,
                    resolution_outcome: Some(winning_outcome),
                    ..old(self).arenas@[arena_id as int]@
                },
            ),
            r is Err ==> *final(self) == *old(self),
    {
        if arena_id >= self.arenas.len() as u64 {
            return Err(ArenaError::NotFound);
        }
        let ai = arena_id as usize;
        if winning_outcome >= self.arenas[ai].outcomes.len() {
            return Err(ArenaError::InvalidArgument);
        }
        let ghost old_self = *self;
        let mut arena = self.arenas.remove(ai);
        arena.status = ArenaStatus::Closed;
        arena.resolution_outcome = Some(winning_outcome);
        self.arenas.insert(ai, arena);
        proof {
            assert forall|b: int| 0 <= b < self.arenas@.len() implies #[trigger] self.arena_wf(b) by {
                assert(old_self.arena_wf(b));
            }
        }
        Ok(())
    }

    /// Moves arena `arena_id` to `new_status`, which must be the single legal
    /// successor of its current status.
    pub fn update_arena_status(&mut self, arena_id: u64, new_status: ArenaStatus) -> (r: Result<(), ArenaError>)
        requires
            old(self).wf(),
        ensures
            final(self).wf(),
            r == old(self).update_arena_status_result(arena_id, new_status),
            r is Ok ==> Self::arena_replaced(
                old(self),
                final(self),
                arena_id,
                ArenaView { status: new_status, ..old(self).arenas@[arena_id as int]@ },
            ),
            r is Err ==> *final(self) == *old(self),
    {
        if arena_id >= self.arenas.len() as u64 {
            return Err(ArenaError::NotFound);
        }
        let ai = arena_id as usize;
        let legal = match (self.arenas[ai].status, new_status) {
            (ArenaStatus::Open, ArenaStatus::Live) => true,
            (ArenaStatus::Live, ArenaStatus::Resolving) => true,
            (ArenaStatus::Resolving, ArenaStatus::Closed) => true,
            _ => false,
        };
        if !legal {
            return Err(ArenaError::InvalidState);
        }
        let ghost old_self = *self;
        let mut arena = self.arenas.remove(ai);
        arena.status = new_status;
        self.arenas.insert(ai, arena);
        proof {
            assert forall|b: int| 0 <= b < self.arenas@.len() implies #[trigger] self.arena_wf(b) by {
                assert(old_self.arena_wf(b));
            }
        }
        Ok(())
    }

    /// A copy of arena `arena_id`, or `None` where there is no such arena.
    pub fn get_arena(&self, arena_id: u64) -> (r: Option<Arena>)
        ensures
            r is Some <==> arena_id < self.arenas@.len(),
            r matches Some(a) ==> a@ == self.arenas@[arena_id as int]@,
    {
        if arena_id < self.arenas.len() as u64 {
            Some(self.arenas[arena_id as usize].duplicate())
        } else {
            None
        }
    }

    /// Copies of the arenas whose status passes `status_filter`, in id order.
    pub fn get_arenas(&self, status_filter: Option<ArenaStatus>) -> (r: Vec<Arena>)
        ensures
            arena_views(r@) == arenas_matching(arena_views(self.arenas@), status_filter),
    {
        let mut r: Vec<Arena> = Vec::new();
        let mut i: usize = 0;
        while i < self.arenas.len()
            invariant
                i <= self.arenas@.len(),
                arena_views(r@) == arenas_matching(arena_views(self.arenas@.subrange(0, i as int)), status_filter),
            decreases self.arenas@.len() - i,
        {
            let ghost before = r@;
            assert(arena_views(self.arenas@.subrange(0, i + 1)).drop_last()
                =~= arena_views(self.arenas@.subrange(0, i as int)));
            if status_matches_exec(self.arenas[i].status, status_filter) {
                r.push(self.arenas[i].duplicate());
                assert(arena_views(r@) =~= arena_views(before).push(self.arenas@[i as int]@));
            }
            i = i + 1;
        }
        assert(self.arenas@.subrange(0, i as int) =~= self.arenas@);
        r
    }

    /// The records of `user`, over all arenas.
    pub fn get_user_predictions(&self, user: Owner) -> (r: Vec<Prediction>)
        ensures
            r@ == predictions_of_owner(self.predictions@, user),
    {
        let mut r: Vec<Prediction> = Vec::new();
        let mut i: usize = 0;
        while i < self.predictions.len()
            invariant
                i <= self.predictions@.len(),
                r@ == predictions_of_owner(self.predictions@.subrange(0, i as int), user),
            decreases self.predictions@.len() - i,
        {
            assert(self.predictions@.subrange(0, i + 1).drop_last() =~= self.predictions@.subrange(0, i as int));
            let p = self.predictions[i];
            if p.owner == user {
                r.push(p);
            }
            i = i + 1;
        }
        assert(self.predictions@.subrange(0, i as int) =~= self.predictions@);
        r
    }

    /// The records on arena `arena_id`.
    pub fn get_arena_predictions(&self, arena_id: u64) -> (r: Vec<Prediction>)
        ensures
            r@ == predictions_on_arena(self.predictions@, arena_id),
    {
        let mut r: Vec<Prediction> = Vec::new();
        let mut i: usize = 0;
        while i < self.predictions.len()
            invariant
                i <= self.predictions@.len(),
                r@ == predictions_on_arena(self.predictions@.subrange(0, i as int), arena_id),
            decreases self.predictions@.len() - i,
        {
            assert(self.predictions@.subrange(0, i + 1).drop_last() =~= self.predictions@.subrange(0, i as int));
            let p = self.predictions[i];
            if p.arena_id == arena_id {
                r.push(p);
            }
            i = i + 1;
        }
        assert(self.predictions@.subrange(0, i as int) =~= self.predictions@);
        r
    }

    /// Answers a query; the ledger is not changed.
    pub fn handle_query(&self, query: Query) -> (r: QueryResponse)
        ensures
            match query {
                Query::GetArena { arena_id } => match r {
                    QueryResponse::Arena(found) => {
                        &&& found is Some <==> arena_id < self.arenas@.len()
                        &&& found matches Some(a) ==> a@ == self.arenas@[arena_id as int]@
                    },
                    _ => false,
                },
                Query::GetArenas { status_filter } => match r {
                    QueryResponse::Arenas(v) => arena_views(v@) == arenas_matching(arena_views(self.arenas@), status_filter),
                    _ => false,
                },
                Query::GetUserPredictions { user } => match r {
                    QueryResponse::Predictions(v) => v@ == predictions_of_owner(self.predictions@, user),
                    _ => false,
                },
                Query::GetArenaPredictions { arena_id } => match r {
                    QueryResponse::Predictions(v) => v@ == predictions_on_arena(self.predictions@, arena_id),
                    _ => false,
                },
            },
    {
        match query {
            Query::GetArena { arena_id } => QueryResponse::Arena(self.get_arena(arena_id)),
            Query::GetArenas { status_filter } => QueryResponse::Arenas(self.get_arenas(status_filter)),
            Query::GetUserPredictions { user } => QueryResponse::Predictions(self.get_user_predictions(user)),
            Query::GetArenaPredictions { arena_id } => QueryResponse::Predictions(self.get_arena_predictions(arena_id)),
        }
    }

    /// Applies an operation of `caller` at time `now`. Creation answers the new
    /// arena's id; the other operations answer `None`. A refused operation returns
    /// its error and leaves the ledger unchanged.
    pub fn execute_operation(&mut self, operation: Operation, caller: Owner, now: u64) -> (r: Result<Option<u64>, ArenaError>)
        requires
            old(self).wf(),
        ensures
            final(self).wf(),
            r is Err ==> *final(self) == *old(self),
            match operation {
                Operation::CreateArena { question, outcomes } => if old(self).next_arena_id < u64::MAX {
                    &&& r == Ok::<Option<u64>, ArenaError>(Some(old(self).next_arena_id))
                    &&& Self::arena_created(old(self), final(self), question@, outcomes@.map_values(|s: String| s@), caller, now)
                } else {
                    r == Err::<Option<u64>, ArenaError>(ArenaError::Overflow)
                },
                Operation::PlacePrediction { arena_id, outcome_index, amount } =>
                    match old(self).place_prediction_result(arena_id, outcome_index, amount, caller) {
                        Ok(_) => r == Ok::<Option<u64>, ArenaError>(None)
                            && Self::prediction_placed(old(self), final(self), arena_id, outcome_index, amount, caller, now),
                        Err(e) => r == Err::<Option<u64>, ArenaError>(e),
                    },
                Operation::ResolveArena { arena_id, winning_outcome } =>
                    match old(self).resolve_arena_result(arena_id, winning_outcome) {
                        Ok(_) => r == Ok::<Option<u64>, ArenaError>(None) && Self::arena_replaced(
                            old(self),
                            final(self),
                            arena_id,
                            ArenaView {
                                status: ArenaStatus::Closed,
                                resolution_outcome: Some(winning_outcome),
                                ..old(self).arenas@[arena_id as int]@
                            },
                        ),
                        Err(e) => r == Err::<Option<u64>, ArenaError>(e),
                    },
                Operation::UpdateArenaStatus { arena_id, new_status } =>
                    match old(self).update_arena_status_result(arena_id, new_status) {
                        Ok(_) => r == Ok::<Option<u64>, ArenaError>(None) && Self::arena_replaced(
                            old(self),
                            final(self),
                            arena_id,
                            ArenaView { status: new_status, ..old(self).arenas@[arena_id as int]@ },
                        ),
                        Err(e) => r == Err::<Option<u64>, ArenaError>(e),
                    },
            },
    {
        match operation {
            Operation::CreateArena { question, outcomes } => {
                if self.next_arena_id == u64::MAX {
                    return Err(ArenaError::Overflow);
                }
                let id = self.create_arena(question, outcomes, caller, now);
                Ok(Some(id))
            },
            Operation::PlacePrediction { arena_id, outcome_index, amount } => {
                match self.place_prediction(arena_id, outcome_index, amount, caller, now) {
                    Ok(()) => Ok(None),
                    Err(e) => Err(e),
                }
            },
            Operation::ResolveArena { arena_id, winning_outcome } => {
                match self.resolve_arena(arena_id, winning_outcome) {
                    Ok(()) => Ok(None),
                    Err(e) => Err(e),
                }
            },
            Operation::UpdateArenaStatus { arena_id, new_status } => {
                match self.update_arena_status(arena_id, new_status) {
                    Ok(()) => Ok(None),
                    Err(e) => Err(e),
                }
            },
        }
    }

    /// Applies a message from `sender` at time `now`. The outcome is that of the
    /// matching operation, except that a refusal is not reported: the ledger is
    /// then left unchanged.
    pub fn execute_message(&mut self, message: Message, sender: Owner, now: u64)
        requires
            old(self).wf(),
        ensures
            final(self).wf(),
            match message {
                Message::PlacePrediction { arena_id, outcome_index, amount } =>
                    if old(self).place_prediction_result(arena_id, outcome_index, amount, sender) is Ok {
                        Self::prediction_placed(old(self), final(self), arena_id, outcome_index, amount, sender, now)
                    } else {
                        *final(self) == *old(self)
                    },
                Message::ResolveArena { arena_id, winning_outcome } =>
                    if old(self).resolve_arena_result(arena_id, winning_outcome) is Ok {
                        Self::arena_replaced(
                            old(self),
                            final(self),
                            arena_id,
                            ArenaView {
                                status: ArenaStatus::Closed,
                                resolution_outcome: Some(winning_outcome),
                                ..old(self).arenas@[arena_id as int]@
                            },
                        )
                    } else {
                        *final(self) == *old(self)
                    },
            },
    {
        match message {
            Message::PlacePrediction { arena_id, outcome_index, amount } => {
                let _ = self.place_prediction(arena_id, outcome_index, amount, sender, now);
            },
            Message::ResolveArena { arena_id, winning_outcome } => {
                let _ = self.resolve_arena(arena_id, winning_outcome);
            },
        }
    }
}

impl Default for AetherArena {
    fn default() -> (r: Self)
        ensures
            r.wf(),
            r.arenas@.len() == 0,
            r.predictions@.len() == 0,
            r.next_arena_id == 0,
    {
        AetherArena { arenas: Vec::new(), predictions: Vec::new(), next_arena_id: 0 }
    }
}

} // verus!
