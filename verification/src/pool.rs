use vstd::prelude::*;
use crate::descriptor::{DescriptorModel, ExtractError};
use crate::search::{
    crack, document_outcome, lemma_tried_from_bounds, search_from, search_outcome, tried,
    tried_from, CandidateSource, Cursor, DocumentTask, Outcome, OutcomeModel, Step,
};

verus! {

/// What a worker receives from the task queue.
#[derive(Clone, Debug)]
pub enum Message {
    /// A document to work on.
    PdfPath(String),
    /// The request to stop.
    Shutdown,
}

/// Where a worker stands.
#[derive(Clone, Copy, Debug, PartialEq, Eq, Structural)]
pub enum WorkerState {
    /// Waiting for a task.
    Idle,
    /// Trying candidates on a document.
    Validating,
    /// On its way out; it takes no further task.
    Draining,
}

/// What can happen to a worker.
#[derive(Clone, Copy, Debug, PartialEq, Eq, Structural)]
pub enum WorkerEvent {
    /// It pulled a task from the queue.
    TaskClaimed,
    /// The queue is closed and empty.
    QueueClosed,
    /// The document it worked on has its outcome.
    TaskFinished,
    /// Shutdown was requested.
    ShutdownRequested,
}

/// The event that a receive on the task queue stands for; `None` is a
/// closed and empty queue.
pub open spec fn event_of(received: Option<Message>) -> WorkerEvent {
    match received {
        None => WorkerEvent::QueueClosed,
        Some(Message::Shutdown) => WorkerEvent::ShutdownRequested,
        Some(Message::PdfPath(_)) => WorkerEvent::TaskClaimed,
    }
}

/// The state that follows `state` on `event`. A draining worker stays
/// draining; a shutdown request drains a worker from any state; an event
/// that cannot occur in a state leaves it as it is.
pub open spec fn next_state(state: WorkerState, event: WorkerEvent) -> WorkerState {
    match (state, event) {
        (WorkerState::Draining, _) => WorkerState::Draining,
        (_, WorkerEvent::ShutdownRequested) => WorkerState::Draining,
        (WorkerState::Idle, WorkerEvent::TaskClaimed) => WorkerState::Validating,
        (WorkerState::Idle, WorkerEvent::QueueClosed) => WorkerState::Draining,
        (WorkerState::Validating, WorkerEvent::TaskFinished) => WorkerState::Idle,
        (s, _) => s,
    }
}

/// Tells which event a receive on the task queue stands for.
pub fn classify(received: &Option<Message>) -> (event: WorkerEvent)
    ensures
        event == event_of(*received),
{
    match received {
        None => WorkerEvent::QueueClosed,
        Some(Message::Shutdown) => WorkerEvent::ShutdownRequested,
        Some(Message::PdfPath(_)) => WorkerEvent::TaskClaimed,
    }
}

/// Moves a worker from `state` on `event`.
pub fn transition(state: WorkerState, event: WorkerEvent) -> (next: WorkerState)
    ensures
        next == next_state(state, event),
{
    match state {
        WorkerState::Draining => WorkerState::Draining,
        WorkerState::Idle => match event {
            WorkerEvent::ShutdownRequested => WorkerState::Draining,
            WorkerEvent::TaskClaimed => WorkerState::Validating,
            WorkerEvent::QueueClosed => WorkerState::Draining,
            WorkerEvent::TaskFinished => WorkerState::Idle,
        },
        WorkerState::Validating => match event {
            WorkerEvent::ShutdownRequested => WorkerState::Draining,
            WorkerEvent::TaskFinished => WorkerState::Idle,
            WorkerEvent::TaskClaimed => WorkerState::Validating,
            WorkerEvent::QueueClosed => WorkerState::Validating,
        },
    }
}

/// Once a worker drains, no event brings it back.
pub proof fn lemma_draining_is_final(event: WorkerEvent)
    ensures
        next_state(WorkerState::Draining, event) == WorkerState::Draining,
{
}

/// The content of one slot of the aggregator.
pub open spec fn slot_model(slot: Option<Outcome>) -> Option<OutcomeModel> {
    match slot {
        Some(o) => Some(o@),
        None => None,
    }
}

/// How many of the first `n` slots hold an outcome.
pub open spec fn recorded(slots: Seq<Option<OutcomeModel>>, n: nat) -> nat
    decreases n,
{
    if n == 0 {
        0
    } else {
        recorded(slots, (n - 1) as nat) + if slots[n - 1] is Some {
            1nat
        } else {
            0nat
        }
    }
}

/// Whether every slot holds an outcome.
pub open spec fn all_recorded(slots: Seq<Option<OutcomeModel>>) -> bool {
    forall|i: int| 0 <= i < slots.len() ==> (#[trigger] slots[i]) is Some
}

/// At most `n` of the first `n` slots hold an outcome, and exactly `n` do
/// when each of them does.
pub proof fn lemma_recorded_full(slots: Seq<Option<OutcomeModel>>, n: nat)
    requires
        n <= slots.len(),
    ensures
        recorded(slots, n) <= n,
        recorded(slots, n) == n <==> forall|i: int| 0 <= i < n ==> (#[trigger] slots[i]) is Some,
    decreases n,
{
    if n > 0 {
        lemma_recorded_full(slots, (n - 1) as nat);
    }
}

/// Filling an empty slot raises the count by one where the slot is counted.
pub proof fn lemma_recorded_update(
    slots: Seq<Option<OutcomeModel>>,
    i: int,
    o: OutcomeModel,
    n: nat,
)
    requires
        0 <= i < slots.len(),
        slots[i] is None,
        n <= slots.len(),
    ensures
        recorded(slots.update(i, Some(o)), n) == recorded(slots, n) + if i < n {
            1nat
        } else {
            0nat
        },
    decreases n,
{
    if n > 0 {
        lemma_recorded_update(slots, i, o, (n - 1) as nat);
    }
}

/// Collects the outcomes of the submitted tasks, one slot per task.
#[derive(Debug)]
pub struct Aggregator {
    slots: Vec<Option<Outcome>>,
    received: usize,
}

impl View for Aggregator {
    type V = Seq<Option<OutcomeModel>>;

    closed spec fn view(&self) -> Seq<Option<OutcomeModel>> {
        Seq::new(self.slots@.len(), |i: int| slot_model(self.slots@[i]))
    }
}

impl Aggregator {
    /// The count of received outcomes is the number of slots that are filled.
    pub closed spec fn wf(&self) -> bool {
        self.received == recorded(self@, self@.len())
    }

    /// The count of received outcomes.
    pub closed spec fn received_count(&self) -> nat {
        self.received as nat
    }

    /// An aggregator for `submitted` tasks, none of which has an outcome yet.
    pub fn new(submitted: usize) -> (agg: Aggregator)
        ensures
            agg.wf(),
            agg@.len() == submitted,
            forall|i: int| 0 <= i < submitted ==> agg@[i] is None,
            agg.received_count() == 0,
    {
        let mut slots: Vec<Option<Outcome>> = Vec::new();
        let mut i: usize = 0;
        while i < submitted
            invariant
                i <= submitted,
                slots.len() == i,
                forall|k: int| 0 <= k < i ==> slots@[k] is None,
            decreases submitted - i,
        {
            slots.push(None);
            i += 1;
        }
        let agg = Aggregator { slots, received: 0 };
        proof {
            lemma_recorded_full(agg@, agg@.len());
            lemma_none_recorded(agg@, agg@.len());
        }
        agg
    }

    /// Records the outcome of task `task`, unless the task has one already
    /// or was never submitted: a recorded outcome is never overwritten.
    pub fn record(&mut self, task: usize, outcome: Outcome) -> (fresh: bool)
        requires
            old(self).wf(),
        ensures
            final(self).wf(),
            fresh == (task < old(self)@.len() && old(self)@[task as int] is None),
            fresh ==> final(self)@ == old(self)@.update(task as int, Some(outcome@)),
            fresh ==> final(self).received_count() == old(self).received_count() + 1,
            !fresh ==> final(self)@ == old(self)@,
            !fresh ==> final(self).received_count() == old(self).received_count(),
    {
        if task >= self.slots.len() {
            return false;
        }
        if self.slots[task].is_some() {
            return false;
        }
        let ghost before = self@;
        proof {
            lemma_recorded_update(before, task as int, outcome@, before.len());
            lemma_recorded_full(before.update(task as int, Some(outcome@)), before.len());
        }
        self.slots.set(task, Some(outcome));
        self.received = self.received + 1;
        assert(self@ =~= before.update(task as int, Some(outcome@)));
        true
    }

    /// The number of submitted tasks.
    pub fn submitted(&self) -> (n: usize)
        ensures
            n == self@.len(),
    {
        self.slots.len()
    }

    /// The number of outcomes received so far.
    pub fn received(&self) -> (n: usize)
        requires
            self.wf(),
        ensures
            n == self.received_count(),
            n == recorded(self@, self@.len()),
            n <= self@.len(),
    {
        proof {
            lemma_recorded_full(self@, self@.len());
        }
        self.received
    }

    /// Whether as many outcomes were received as tasks were submitted, that
    /// is, whether every task has its outcome.
    pub fn is_complete(&self) -> (done: bool)
        requires
            self.wf(),
        ensures
            done == (self.received_count() == self@.len()),
            done == all_recorded(self@),
    {
        proof {
            lemma_recorded_full(self@, self@.len());
        }
        self.received == self.slots.len()
    }

    /// The outcome recorded for task `task`, if any.
    pub fn outcome(&self, task: usize) -> (slot: &Option<Outcome>)
        requires
            task < self@.len(),
        ensures
            slot_model(*slot) == self@[task as int],
    {
        &self.slots[task]
    }
}

/// Where no slot is filled, the count is zero.
pub proof fn lemma_none_recorded(slots: Seq<Option<OutcomeModel>>, n: nat)
    requires
        n <= slots.len(),
        forall|i: int| 0 <= i < n ==> slots[i] is None,
    ensures
        recorded(slots, n) == 0,
    decreases n,
{
    if n > 0 {
        lemma_none_recorded(slots, (n - 1) as nat);
    }
}

/// What reading each document of a sequence of tasks gave: a task holds a
/// descriptor.
pub open spec fn documents(tasks: Seq<DocumentTask>) -> Seq<Result<DescriptorModel, ExtractError>> {
    Seq::new(tasks.len(), |i: int| Ok(tasks[i].descriptor@))
}

/// Whether a set of slots is what some run over `docs` with the dictionary
/// `dict` may have recorded: one slot per document, and each filled slot
/// holds the outcome of its document.
pub open spec fn faithful(
    slots: Seq<Option<OutcomeModel>>,
    docs: Seq<Result<DescriptorModel, ExtractError>>,
    dict: Seq<Seq<char>>,
) -> bool {
    &&& slots.len() == docs.len()
    &&& forall|i: int|
        0 <= i < slots.len() && (#[trigger] slots[i]) is Some ==> slots[i] == Some(
            document_outcome(docs[i], dict),
        )
}

/// Works through the tasks one after the other and records each outcome.
pub fn run_sequential(tasks: &Vec<DocumentTask>, source: &CandidateSource) -> (agg: Aggregator)
    ensures
        agg.wf(),
        agg@.len() == tasks.len(),
        all_recorded(agg@),
        faithful(agg@, documents(tasks@), source@),
        forall|i: int|
            0 <= i < tasks.len() ==> agg@[i] == Some(
                search_outcome(tasks@[i].descriptor@, source@),
            ),
{
    let mut agg = Aggregator::new(tasks.len());
    let mut i: usize = 0;
    while i < tasks.len()
        invariant
            i <= tasks.len(),
            agg.wf(),
            agg@.len() == tasks.len(),
            forall|k: int| i <= k < tasks.len() ==> agg@[k] is None,
            forall|k: int|
                0 <= k < i ==> agg@[k] == Some(search_outcome(tasks@[k].descriptor@, source@)),
        decreases tasks.len() - i,
    {
        let out = crack(&tasks[i].descriptor, source);
        let fresh = agg.record(i, out);
        assert(fresh);
        i += 1;
    }
    agg
}

/// Runs the tasks as `workers` workers that take them from the queue in
/// turn, and records the outcomes worker by worker, so that they arrive in
/// another order than the tasks were submitted in. With at least one worker
/// every task gets the outcome of its search, whatever the number of
/// workers; without a worker nothing is recorded.
pub fn run_with_workers(
    tasks: &Vec<DocumentTask>,
    source: &CandidateSource,
    workers: usize,
) -> (agg: Aggregator)
    ensures
        agg.wf(),
        agg@.len() == tasks.len(),
        faithful(agg@, documents(tasks@), source@),
        workers > 0 ==> all_recorded(agg@),
        forall|i: int|
            0 <= i < tasks.len() ==> agg@[i] == if workers > 0 {
                Some(search_outcome(tasks@[i].descriptor@, source@))
            } else {
                None
            },
{
    let n: usize = tasks.len();
    let mut owner: Vec<usize> = Vec::new();
    let mut turn: usize = 0;
    let mut t: usize = 0;
    while t < n && workers > 0
        invariant
            t <= n,
            owner.len() == t,
            workers > 0 ==> turn < workers,
            turn <= t,
            forall|k: int| 0 <= k < t ==> owner@[k] < workers && owner@[k] <= k,
        decreases n - t,
    {
        owner.push(turn);
        turn = if turn + 1 == workers {
            0
        } else {
            turn + 1
        };
        t += 1;
    }
    let active: usize = if workers < n {
        workers
    } else {
        n
    };
    let mut agg = Aggregator::new(n);
    let mut w: usize = 0;
    while w < active
        invariant
            w <= active,
            active <= n,
            active <= workers,
            n == tasks.len(),
            agg.wf(),
            agg@.len() == n,
            workers > 0 ==> owner.len() == n,
            forall|k: int| 0 <= k < owner.len() ==> owner@[k] < workers && owner@[k] <= k,
            forall|k: int|
                0 <= k < n ==> agg@[k] == if workers > 0 && owner@[k] < w {
                    Some(search_outcome(tasks@[k].descriptor@, source@))
                } else {
                    None
                },
        decreases active - w,
    {
        let mut t: usize = 0;
        while t < n
            invariant
                t <= n,
                w < active,
                active <= workers,
                n == tasks.len(),
                agg.wf(),
                agg@.len() == n,
                owner.len() == n,
                forall|k: int|
                    0 <= k < n ==> agg@[k] == if owner@[k] < w || (owner@[k] == w && k < t) {
                        Some(search_outcome(tasks@[k].descriptor@, source@))
                    } else {
                        None
                    },
            decreases n - t,
        {
            if owner[t] == w {
                let out = crack(&tasks[t].descriptor, source);
                let fresh = agg.record(t, out);
                assert(fresh);
            }
            t += 1;
        }
        w += 1;
    }
    agg
}

/// How many documents are finished when document `i` is started with `left`
/// failed tries to go before shutdown: a document is finished only while
/// more tries are left than it fails, and those are then used up.
pub open spec fn finished(tasks: Seq<DocumentTask>, dict: Seq<Seq<char>>, left: nat, i: nat) -> nat
    decreases tasks.len() - i,
{
    if i >= tasks.len() || left <= tried(tasks[i as int].descriptor@, dict) {
        i
    } else {
        finished(
            tasks,
            dict,
            (left - tried(tasks[i as int].descriptor@, dict)) as nat,
            i + 1,
        )
    }
}

/// Works through the tasks one after the other until shutdown is
/// requested, which here happens once `budget` candidates were tried
/// without a match. The document at hand is then abandoned without an
/// outcome, and no further document is started. The documents finished
/// before that have their outcome, the same that the full run records; the
/// others have none. Returns the aggregator and the number of documents
/// finished.
pub fn run_until_shutdown(
    tasks: &Vec<DocumentTask>,
    source: &CandidateSource,
    budget: usize,
) -> (r: (Aggregator, usize))
    ensures
        r.0.wf(),
        r.0@.len() == tasks.len(),
        faithful(r.0@, documents(tasks@), source@),
        r.1 == finished(tasks@, source@, budget as nat, 0),
        r.1 <= tasks.len(),
        forall|i: int|
            0 <= i < tasks.len() ==> r.0@[i] == if i < r.1 {
                Some(search_outcome(tasks@[i].descriptor@, source@))
            } else {
                None
            },
{
    let n: usize = tasks.len();
    let mut agg = Aggregator::new(n);
    let mut left: usize = budget;
    let mut i: usize = 0;
    while i < n
        invariant_except_break
            finished(tasks@, source@, budget as nat, 0) == finished(
                tasks@,
                source@,
                left as nat,
                i as nat,
            ),
        invariant
            i <= n,
            n == tasks.len(),
            agg.wf(),
            agg@.len() == n,
            forall|k: int|
                0 <= k < n ==> agg@[k] == if k < i {
                    Some(search_outcome(tasks@[k].descriptor@, source@))
                } else {
                    None
                },
        ensures
            finished(tasks@, source@, budget as nat, 0) == i,
        decreases n - i,
    {
        let mut cursor = Cursor::new();
        let ghost d = tasks@[i as int].descriptor@;
        let ghost before = left;
        let mut found: Option<Outcome> = None;
        let mut stopped: bool = false;
        loop
            invariant_except_break
                found is None,
                !stopped,
                cursor.next <= source@.len(),
                search_outcome(d, source@) == search_from(d, source@, cursor.next as nat),
                tried(d, source@) == tried_from(d, source@, cursor.next as nat),
                before == left + cursor.next,
            invariant
                i < n,
                n == tasks.len(),
                d == tasks@[i as int].descriptor@,
            ensures
                stopped ==> found is None && before <= tried(d, source@),
                !stopped ==> slot_model(found) == Some(search_outcome(d, source@)),
                !stopped ==> before > tried(d, source@) && left == before - tried(d, source@),
            decreases source@.len() - cursor.next,
        {
            proof {
                lemma_tried_from_bounds(d, source@, cursor.next as nat);
            }
            match cursor.advance(&tasks[i].descriptor, source, left == 0) {
                Step::Finished(o) => {
                    found = Some(o);
                    break;
                },
                Step::Abandoned => {
                    stopped = true;
                    break;
                },
                Step::Continue => {
                    left = left - 1;
                },
            }
        }
        match found {
            Some(o) => {
                let fresh = agg.record(i, o);
                assert(fresh);
                i += 1;
            },
            None => {
                break;
            },
        }
    }
    (agg, i)
}

/// Recording the outcome of a document keeps a run faithful, whether
/// the slot was still empty or not.
pub proof fn lemma_record_keeps_faithful(
    slots: Seq<Option<OutcomeModel>>,
    docs: Seq<Result<DescriptorModel, ExtractError>>,
    dict: Seq<Seq<char>>,
    task: int,
)
    requires
        faithful(slots, docs, dict),
        0 <= task < slots.len(),
    ensures
        faithful(
            if slots[task] is None {
                slots.update(task, Some(document_outcome(docs[task], dict)))
            } else {
                slots
            },
            docs,
            dict,
        ),
{
}

/// Two complete runs over the same documents and dictionary recorded the same
/// outcome for every document, whatever the number of workers and the order
/// in which the outcomes arrived.
pub proof fn lemma_complete_runs_agree(
    a: Seq<Option<OutcomeModel>>,
    b: Seq<Option<OutcomeModel>>,
    docs: Seq<Result<DescriptorModel, ExtractError>>,
    dict: Seq<Seq<char>>,
)
    requires
        faithful(a, docs, dict),
        faithful(b, docs, dict),
        all_recorded(a),
        all_recorded(b),
    ensures
        a == b,
{
    assert(a =~= b);
}

/// What a run that was shut down early recorded is part of what the full
/// run records: each outcome it holds is the full run's outcome for that
/// document, and the other documents have none.
pub proof fn lemma_cancelled_run_is_subset(
    partial: Seq<Option<OutcomeModel>>,
    full: Seq<Option<OutcomeModel>>,
    docs: Seq<Result<DescriptorModel, ExtractError>>,
    dict: Seq<Seq<char>>,
)
    requires
        faithful(partial, docs, dict),
        faithful(full, docs, dict),
        all_recorded(full),
    ensures
        forall|i: int|
            0 <= i < partial.len() ==> (#[trigger] partial[i]) is None || partial[i] == full[i],
{
}

} // verus!
