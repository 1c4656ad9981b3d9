//! The transfer-session registry: the one piece of shared mutable state
//! in the pipeline.
//!
//! The registry maps the engine's content identifier to the state of the
//! transfer it named, with keys unique.  Starting a transfer whose
//! content identifier is already registered is a no-op that answers with
//! the existing entry (idempotent start).  The caller serialises calls
//! into one registry value (the original holds it behind an exclusive
//! lock and never holds that lock across a suspension point), so every
//! check-then-insert below is one atomic critical section.
//!
//! The engine itself lives outside the library.  Each engine answer
//! comes in as a plain [`EngineAddOutcome`]; the contracts here state
//! what the registry does with every possible answer.

use vstd::prelude::*;
use crate::errors::SessionError;
use crate::text::str_eq;

verus! {

/// The lifecycle of one transfer: `Running` from registration on, then
/// exactly one of `Completed` or `Failed`, written by the completion
/// watcher.  Terminal states remain queryable for the rest of the
/// process lifetime.
#[derive(Clone, Copy, Debug, PartialEq, Eq, Structural)]
pub enum TransferState {
    Running,
    Completed,
    Failed,
}

/// What the engine answered when asked to add one transfer: either the
/// content identifier it filed the transfer under, or a rejection
/// (malformed identifier, incompatible duplicate, destination error).
pub enum EngineAddOutcome {
    Added { content_id: String },
    Rejected,
}

/// How a registration ended: a fresh entry was added at `index`, or the
/// content identifier was already registered at `index`.
#[derive(Clone, Copy, Debug, PartialEq, Eq, Structural)]
pub enum RegisterOutcome {
    Added { index: usize },
    Existing { index: usize },
}

impl RegisterOutcome {
    /// The registry index the outcome points at; both a fresh and an
    /// existing registration answer with the entry for the identifier.
    pub fn index(&self) -> (i: usize)
        ensures
            *self matches RegisterOutcome::Added { index } ==> i == index,
            *self matches RegisterOutcome::Existing { index } ==> i == index,
    {
        match self {
            RegisterOutcome::Added { index } => *index,
            RegisterOutcome::Existing { index } => *index,
        }
    }
}

/// One row of the status view: the content identifier and the state its
/// transfer was in when the snapshot was taken.
#[derive(Clone, Debug)]
pub struct StatusSnapshot {
    pub content_id: String,
    pub state: TransferState,
}

struct RegistryEntry {
    content_id: String,
    state: TransferState,
}

/// The registry of transfer sessions, keyed by content identifier.
pub struct Registry {
    entries: Vec<RegistryEntry>,
}

/// True when the registry view holds an entry for the identifier.
pub open spec fn contains_id(v: Seq<(Seq<char>, TransferState)>, id: Seq<char>) -> bool {
    exists|i: int| 0 <= i < v.len() && v[i].0 == id
}

/// The registry invariant: a content identifier is registered at most
/// once.
pub open spec fn registry_wf(v: Seq<(Seq<char>, TransferState)>) -> bool {
    forall|i: int, j: int| 0 <= i < j < v.len() ==> v[i].0 != v[j].0
}

/// What one registration does to the registry view: nothing when the
/// identifier is already present, else one new `Running` entry at the
/// end.
pub open spec fn register_model(v: Seq<(Seq<char>, TransferState)>, id: Seq<char>) -> Seq<
    (Seq<char>, TransferState),
> {
    if contains_id(v, id) {
        v
    } else {
        v.push((id, TransferState::Running))
    }
}

/// What one engine answer does to the registry view.
pub open spec fn outcome_step(
    v: Seq<(Seq<char>, TransferState)>,
    o: EngineAddOutcome,
) -> Seq<(Seq<char>, TransferState)> {
    match o {
        EngineAddOutcome::Added { content_id } => register_model(v, content_id@),
        EngineAddOutcome::Rejected => v,
    }
}

/// What a whole resume pass does to the registry view.
pub open spec fn apply_outcomes(
    v: Seq<(Seq<char>, TransferState)>,
    os: Seq<EngineAddOutcome>,
) -> Seq<(Seq<char>, TransferState)>
    decreases os.len(),
{
    if os.len() == 0 {
        v
    } else {
        apply_outcomes(outcome_step(v, os[0]), os.drop_first())
    }
}

/// How many of the engine answers started a transfer: every `Added`
/// counts, a repeated identifier included, because an idempotent start
/// that answers with the existing entry is a success.
pub open spec fn count_started(os: Seq<EngineAddOutcome>) -> int
    decreases os.len(),
{
    if os.len() == 0 {
        0
    } else {
        (if os[0] is Added {
            1int
        } else {
            0int
        }) + count_started(os.drop_first())
    }
}

impl View for Registry {
    type V = Seq<(Seq<char>, TransferState)>;

    closed spec fn view(&self) -> Seq<(Seq<char>, TransferState)> {
        self.entries@.map_values(|e: RegistryEntry| (e.content_id@, e.state))
    }
}

impl Registry {
    /// An empty registry.  Each orchestrator constructs its own, so no
    /// state leaks between instances.
    pub fn new() -> (r: Registry)
        ensures
            r@ == Seq::<(Seq<char>, TransferState)>::empty(),
            registry_wf(r@),
    {
        let r = Registry { entries: Vec::new() };
        proof {
            assert(r@ =~= Seq::<(Seq<char>, TransferState)>::empty());
        }
        r
    }

    /// The number of registered transfers.
    pub fn len(&self) -> (n: usize)
        ensures
            n == self@.len(),
    {
        self.entries.len()
    }

    /// Looks the identifier up: the index of its entry, or `None` when
    /// it was never registered.
    pub fn find(&self, content_id: &str) -> (r: Option<usize>)
        ensures
            match r {
                Some(i) => i < self@.len() && self@[i as int].0 == content_id@,
                None => !contains_id(self@, content_id@),
            },
    {
        let mut i: usize = 0;
        while i < self.entries.len()
            invariant
                i <= self.entries@.len(),
                forall|j: int| 0 <= j < i ==> self@[j].0 != content_id@,
            decreases self.entries@.len() - i,
        {
            if str_eq(self.entries[i].content_id.as_str(), content_id) {
                proof {
                    assert(self@[i as int].0 == content_id@);
                }
                return Some(i);
            }
            proof {
                assert(self@[i as int].0 == self.entries@[i as int].content_id@);
            }
            i += 1;
        }
        None
    }

    /// The state of the transfer registered at `index`.
    pub fn state_of(&self, index: usize) -> (s: TransferState)
        requires
            index < self@.len(),
        ensures
            s == self@[index as int].1,
    {
        self.entries[index].state
    }

    /// The atomic check-then-insert at the heart of `start`: answers
    /// with the existing entry when the content identifier is already
    /// registered, else appends a fresh `Running` entry.
    pub fn register(&mut self, content_id: String) -> (r: RegisterOutcome)
        requires
            registry_wf(old(self)@),
        ensures
            registry_wf(final(self)@),
            final(self)@ == register_model(old(self)@, content_id@),
            match r {
                RegisterOutcome::Existing { index } => {
                    &&& contains_id(old(self)@, content_id@)
                    &&& final(self)@ == old(self)@
                    &&& index < old(self)@.len()
                    &&& old(self)@[index as int].0 == content_id@
                },
                RegisterOutcome::Added { index } => {
                    &&& !contains_id(old(self)@, content_id@)
                    &&& index == old(self)@.len()
                    &&& final(self)@ == old(self)@.push((content_id@, TransferState::Running))
                },
            },
    {
        match self.find(content_id.as_str()) {
            Some(index) => RegisterOutcome::Existing { index },
            None => {
                let index = self.entries.len();
                let ghost pre = self@;
                self.entries.push(RegistryEntry { content_id, state: TransferState::Running });
                proof {
                    assert(self@ =~= pre.push((content_id@, TransferState::Running)));
                    assert forall|i: int, j: int| 0 <= i < j < self@.len() implies self@[i].0
                        != self@[j].0 by {
                        if j == pre.len() as int {
                            assert(!contains_id(pre, content_id@));
                            assert(pre[i].0 != content_id@);
                        }
                    }
                }
                RegisterOutcome::Added { index }
            },
        }
    }

    /// The decision half of `start`: files what the engine answered.  A
    /// rejection surfaces as `EngineAddFailed` and changes nothing; an
    /// accepted transfer is registered idempotently and the call answers
    /// with its registry index.
    pub fn start(&mut self, outcome: EngineAddOutcome) -> (r: Result<RegisterOutcome, SessionError>)
        requires
            registry_wf(old(self)@),
        ensures
            registry_wf(final(self)@),
            final(self)@ == outcome_step(old(self)@, outcome),
            outcome is Rejected ==> final(self)@ == old(self)@ && r == Err::<
                RegisterOutcome,
                SessionError,
            >(SessionError::EngineAddFailed),
            outcome matches EngineAddOutcome::Added { content_id } ==> {
                &&& r matches Ok(ro)
                &&& match ro {
                    RegisterOutcome::Existing { index } => {
                        &&& contains_id(old(self)@, content_id@)
                        &&& final(self)@ == old(self)@
                        &&& index < old(self)@.len()
                        &&& old(self)@[index as int].0 == content_id@
                    },
                    RegisterOutcome::Added { index } => {
                        &&& !contains_id(old(self)@, content_id@)
                        &&& index == old(self)@.len()
                        &&& final(self)@ == old(self)@.push((content_id@, TransferState::Running))
                    },
                }
            },
    {
        match outcome {
            EngineAddOutcome::Added { content_id } => Ok(self.register(content_id)),
            EngineAddOutcome::Rejected => Err(SessionError::EngineAddFailed),
        }
    }

    /// The completion watcher's success report: the transfer at `index`
    /// leaves `Running` for `Completed`.  Nothing else changes, so a
    /// terminal state is never overwritten.
    pub fn mark_completed(&mut self, index: usize)
        requires
            index < old(self)@.len(),
            old(self)@[index as int].1 is Running,
        ensures
            registry_wf(old(self)@) ==> registry_wf(final(self)@),
            final(self)@ == old(self)@.update(
                index as int,
                (old(self)@[index as int].0, TransferState::Completed),
            ),
    {
        self.entries[index].state = TransferState::Completed;
        proof {
            assert(self@ =~= old(self)@.update(
                index as int,
                (old(self)@[index as int].0, TransferState::Completed),
            ));
        }
    }

    /// The completion watcher's failure report: the transfer at `index`
    /// leaves `Running` for `Failed`.  The failure is recorded, not
    /// propagated — the caller of `start` has long returned.
    pub fn mark_failed(&mut self, index: usize)
        requires
            index < old(self)@.len(),
            old(self)@[index as int].1 is Running,
        ensures
            registry_wf(old(self)@) ==> registry_wf(final(self)@),
            final(self)@ == old(self)@.update(
                index as int,
                (old(self)@[index as int].0, TransferState::Failed),
            ),
    {
        self.entries[index].state = TransferState::Failed;
        proof {
            assert(self@ =~= old(self)@.update(
                index as int,
                (old(self)@[index as int].0, TransferState::Failed),
            ));
        }
    }

    /// One status snapshot per registered transfer, in registry order
    /// (the order is not a contract callers may lean on across calls).
    /// The snapshot list is built from a single pass over the entries;
    /// the caller queries live engine statistics afterwards, outside any
    /// lock.
    pub fn status_all(&self) -> (snaps: Vec<StatusSnapshot>)
        ensures
            snaps@.len() == self@.len(),
            forall|i: int|
                0 <= i < self@.len() ==> (#[trigger] snaps@[i]).content_id@ == self@[i].0
                    && snaps@[i].state == self@[i].1,
    {
        let mut snaps: Vec<StatusSnapshot> = Vec::new();
        let mut i: usize = 0;
        while i < self.entries.len()
            invariant
                i <= self.entries@.len(),
                snaps@.len() == i,
                forall|j: int|
                    0 <= j < i ==> (#[trigger] snaps@[j]).content_id@ == self@[j].0
                        && snaps@[j].state == self@[j].1,
            decreases self.entries@.len() - i,
        {
            snaps.push(
                StatusSnapshot {
                    content_id: self.entries[i].content_id.clone(),
                    state: self.entries[i].state,
                },
            );
            i += 1;
        }
        snaps
    }

    /// The resume pass that replays the ledger at process start: one
    /// engine answer per persisted record, in order.  Every accepted
    /// transfer is registered idempotently; every rejection is skipped,
    /// so one stale record never blocks the others.  Answers with how
    /// many transfers started.
    pub fn resume_all(&mut self, outcomes: &Vec<EngineAddOutcome>) -> (count: usize)
        requires
            registry_wf(old(self)@),
        ensures
            registry_wf(final(self)@),
            final(self)@ == apply_outcomes(old(self)@, outcomes@),
            count == count_started(outcomes@),
    {
        let mut count: usize = 0;
        let mut i: usize = 0;
        while i < outcomes.len()
            invariant
                i <= outcomes@.len(),
                count <= i,
                registry_wf(self@),
                self@ == apply_outcomes(old(self)@, outcomes@.subrange(0, i as int)),
                count == count_started(outcomes@.subrange(0, i as int)),
            decreases outcomes@.len() - i,
        {
            let ghost pre = self@;
            match &outcomes[i] {
                EngineAddOutcome::Added { content_id } => {
                    let _ = self.register(content_id.clone());
                    count += 1;
                },
                EngineAddOutcome::Rejected => {},
            }
            proof {
                lemma_apply_outcomes_push(
                    old(self)@,
                    outcomes@.subrange(0, i as int),
                    outcomes@[i as int],
                );
                lemma_count_started_push(outcomes@.subrange(0, i as int), outcomes@[i as int]);
                assert(outcomes@.subrange(0, i + 1) =~= outcomes@.subrange(0, i as int).push(
                    outcomes@[i as int],
                ));
            }
            i += 1;
        }
        proof {
            assert(outcomes@.subrange(0, outcomes@.len() as int) =~= outcomes@);
        }
        count
    }
}

proof fn lemma_apply_outcomes_push(
    v: Seq<(Seq<char>, TransferState)>,
    os: Seq<EngineAddOutcome>,
    o: EngineAddOutcome,
)
    ensures
        apply_outcomes(v, os.push(o)) == outcome_step(apply_outcomes(v, os), o),
    decreases os.len(),
{
    if os.len() == 0 {
        assert(os.push(o)[0] == o);
        assert(os.push(o).drop_first() =~= os);
        assert(apply_outcomes(v, os.push(o)) == apply_outcomes(outcome_step(v, o), os));
    } else {
        assert(os.push(o)[0] == os[0]);
        assert(os.push(o).drop_first() =~= os.drop_first().push(o));
        lemma_apply_outcomes_push(outcome_step(v, os[0]), os.drop_first(), o);
        assert(apply_outcomes(v, os.push(o)) == apply_outcomes(
            outcome_step(v, os[0]),
            os.drop_first().push(o),
        ));
    }
}

/// Law: starting the same content identifier twice is idempotent.
/// After the first registration the identifier is present, the second
/// registration leaves the registry unchanged, and — the registry
/// invariant holding — there is exactly one entry for the identifier,
/// so both calls answer with the same underlying transfer.
pub proof fn lemma_start_idempotent(v: Seq<(Seq<char>, TransferState)>, id: Seq<char>)
    requires
        registry_wf(v),
    ensures
        contains_id(register_model(v, id), id),
        register_model(register_model(v, id), id) == register_model(v, id),
        registry_wf(register_model(v, id)),
{
    if contains_id(v, id) {
    } else {
        let w = v.push((id, TransferState::Running));
        assert(w[v.len() as int].0 == id);
        assert forall|i: int, j: int| 0 <= i < j < w.len() implies w[i].0 != w[j].0 by {
            if j == v.len() as int {
                assert(v[i].0 != id);
            }
        }
    }
}

proof fn lemma_outcome_step_preserves_contains(
    v: Seq<(Seq<char>, TransferState)>,
    o: EngineAddOutcome,
    id: Seq<char>,
)
    requires
        contains_id(v, id),
    ensures
        contains_id(outcome_step(v, o), id),
{
    let i = choose|i: int| 0 <= i < v.len() && v[i].0 == id;
    assert(outcome_step(v, o)[i].0 == id);
}

proof fn lemma_apply_outcomes_preserves_contains(
    v: Seq<(Seq<char>, TransferState)>,
    os: Seq<EngineAddOutcome>,
    id: Seq<char>,
)
    requires
        contains_id(v, id),
    ensures
        contains_id(apply_outcomes(v, os), id),
    decreases os.len(),
{
    if os.len() == 0 {
    } else {
        lemma_outcome_step_preserves_contains(v, os[0], id);
        lemma_apply_outcomes_preserves_contains(outcome_step(v, os[0]), os.drop_first(), id);
    }
}

/// Law: a batch of starts whose content identifiers are distinct and
/// fresh adds exactly one entry per start — none lost to a race, none
/// duplicated — and every started identifier is registered afterwards.
/// Each check-then-insert runs under the registry's exclusive lock, so
/// concurrent starts interleave as some serial order of registrations;
/// this law holds for every such order.
pub proof fn lemma_distinct_starts(v: Seq<(Seq<char>, TransferState)>, os: Seq<EngineAddOutcome>)
    requires
        registry_wf(v),
        forall|i: int| 0 <= i < os.len() ==> (#[trigger] os[i]) is Added,
        forall|i: int, j: int|
            0 <= i < j < os.len() ==> (#[trigger] os[i])->content_id@ != (
            #[trigger] os[j])->content_id@,
        forall|i: int| 0 <= i < os.len() ==> !contains_id(v, (#[trigger] os[i])->content_id@),
    ensures
        apply_outcomes(v, os) == v + os.map_values(
            |o: EngineAddOutcome| (o->content_id@, TransferState::Running),
        ),
        apply_outcomes(v, os).len() == v.len() + os.len(),
        registry_wf(apply_outcomes(v, os)),
        forall|i: int|
            0 <= i < os.len() ==> contains_id(
                apply_outcomes(v, os),
                (#[trigger] os[i])->content_id@,
            ),
    decreases os.len(),
{
    let entry_of = |o: EngineAddOutcome| (o->content_id@, TransferState::Running);
    if os.len() == 0 {
        assert(apply_outcomes(v, os) =~= v + os.map_values(entry_of));
    } else {
        let id0 = os[0]->content_id@;
        let w = register_model(v, id0);
        lemma_start_idempotent(v, id0);
        assert(w == v.push((id0, TransferState::Running)));
        assert(outcome_step(v, os[0]) == w);
        let rest = os.drop_first();
        assert forall|i: int| 0 <= i < rest.len() implies !contains_id(
            w,
            (#[trigger] rest[i])->content_id@,
        ) by {
            assert(rest[i] == os[i + 1]);
            let id = rest[i]->content_id@;
            assert(id != id0);
            assert(!contains_id(v, id));
            if contains_id(w, id) {
                let k = choose|k: int| 0 <= k < w.len() && w[k].0 == id;
                if k < v.len() {
                    assert(v[k].0 == id);
                } else {
                    assert(w[k].0 == id0);
                }
            }
        }
        assert forall|i: int, j: int| 0 <= i < j < rest.len() implies (
        #[trigger] rest[i])->content_id@ != (#[trigger] rest[j])->content_id@ by {
            assert(rest[i] == os[i + 1]);
            assert(rest[j] == os[j + 1]);
        }
        assert forall|i: int| 0 <= i < rest.len() implies (#[trigger] rest[i]) is Added by {
            assert(rest[i] == os[i + 1]);
        }
        lemma_distinct_starts(w, rest);
        lemma_apply_outcomes_preserves_contains(w, rest, id0);
        assert(apply_outcomes(v, os) == apply_outcomes(w, rest));
        assert(apply_outcomes(v, os) =~= v + os.map_values(entry_of)) by {
            assert(apply_outcomes(w, rest) == w + rest.map_values(
                |o: EngineAddOutcome| (o->content_id@, TransferState::Running),
            ));
            assert forall|k: int| 0 <= k < os.len() implies os.map_values(entry_of)[k] == (
            if k == 0 {
                (id0, TransferState::Running)
            } else {
                rest.map_values(
                    |o: EngineAddOutcome| (o->content_id@, TransferState::Running),
                )[k - 1]
            }) by {
                if k > 0 {
                    assert(rest[k - 1] == os[k]);
                }
            }
        }
        assert forall|i: int| 0 <= i < os.len() implies contains_id(
            apply_outcomes(v, os),
            (#[trigger] os[i])->content_id@,
        ) by {
            if i > 0 {
                assert(os[i] == rest[i - 1]);
            }
        }
    }
}

proof fn lemma_count_all_added(os: Seq<EngineAddOutcome>)
    requires
        forall|i: int| 0 <= i < os.len() ==> (#[trigger] os[i]) is Added,
    ensures
        count_started(os) == os.len(),
    decreases os.len(),
{
    if os.len() == 0 {
    } else {
        assert forall|i: int| 0 <= i < os.drop_first().len() implies (
        #[trigger] os.drop_first()[i]) is Added by {
            assert(os.drop_first()[i] == os[i + 1]);
        }
        lemma_count_all_added(os.drop_first());
    }
}

/// Law: a resume pass over a ledger of records where exactly one engine
/// add is rejected starts all the others: the count is the record count
/// less one, so the single stale record is skipped without costing any
/// other record its start.
pub proof fn lemma_resume_one_failure(os: Seq<EngineAddOutcome>, k: int)
    requires
        0 <= k < os.len(),
        os[k] is Rejected,
        forall|i: int| 0 <= i < os.len() && i != k ==> (#[trigger] os[i]) is Added,
    ensures
        count_started(os) == os.len() - 1,
    decreases os.len(),
{
    let rest = os.drop_first();
    if k == 0 {
        assert forall|i: int| 0 <= i < rest.len() implies (#[trigger] rest[i]) is Added by {
            assert(rest[i] == os[i + 1]);
        }
        lemma_count_all_added(rest);
    } else {
        assert(os[0] is Added);
        assert(rest[k - 1] == os[k]);
        assert forall|i: int| 0 <= i < rest.len() && i != k - 1 implies (
        #[trigger] rest[i]) is Added by {
            assert(rest[i] == os[i + 1]);
        }
        lemma_resume_one_failure(rest, k - 1);
    }
}

/// Law: immediately after a fresh content identifier starts, the new
/// entry stands at the end of the registry in state `Running`, and
/// `status_all` copies that state verbatim into its snapshot, so a
/// status query right after `start` reports the transfer as running.
pub proof fn lemma_fresh_start_running(v: Seq<(Seq<char>, TransferState)>, id: Seq<char>)
    requires
        !contains_id(v, id),
    ensures
        register_model(v, id).len() == v.len() + 1,
        register_model(v, id)[v.len() as int] == (id, TransferState::Running),
{
}

proof fn lemma_count_started_push(os: Seq<EngineAddOutcome>, o: EngineAddOutcome)
    ensures
        count_started(os.push(o)) == count_started(os) + (if o is Added {
            1int
        } else {
            0int
        }),
    decreases os.len(),
{
    if os.len() == 0 {
        assert(os.push(o).drop_first() =~= os);
    } else {
        assert(os.push(o).drop_first() =~= os.drop_first().push(o));
        lemma_count_started_push(os.drop_first(), o);
    }
}

} // verus!
