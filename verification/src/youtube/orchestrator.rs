//! The batch run: one download task per record, all of them awaited, the
//! records then parted by outcome.
//!
//! The orchestrator performs no download itself. It says what to do next
//! ([`Action`]) and is told what happened; whoever drives it launches the
//! tasks and waits for them.

use crate::youtube::song::{song_views, Song, SongView};
use vstd::prelude::*;

verus! {

/// Where the task of one record stands.
#[derive(Clone, Copy, Debug, PartialEq, Eq, Structural)]
pub enum TaskState {
    /// Not launched yet.
    Waiting,
    /// Launched, outcome not known yet.
    Running,
    /// Completed, the download succeeded.
    Succeeded,
    /// Completed, the download failed.
    Failed,
}

/// What the driver of a run has to do next.
#[derive(Clone, Copy, Debug, PartialEq, Eq, Structural)]
pub enum Action {
    /// Launch the task of the record with this index.
    Launch(usize),
    /// Wait until one of the running tasks completes, and report it.
    Await,
    /// Every task has completed: collect the two sets.
    Finish,
}

/// Whether a task in this state has completed.
pub open spec fn is_settled(state: TaskState) -> bool {
    state == TaskState::Succeeded || state == TaskState::Failed
}

/// The state that a task enters when it completes with the given outcome.
pub open spec fn outcome_state(success: bool) -> TaskState {
    if success {
        TaskState::Succeeded
    } else {
        TaskState::Failed
    }
}

/// The records whose task is in state `want`, in the order of the records.
pub open spec fn chosen(records: Seq<SongView>, states: Seq<TaskState>, want: TaskState) -> Seq<
    SongView,
>
    decreases records.len(),
{
    if records.len() == 0 {
        Seq::empty()
    } else {
        let before = chosen(records.drop_last(), states.drop_last(), want);
        if states.last() == want {
            before.push(records.last())
        } else {
            before
        }
    }
}

/// How many of the tasks have completed.
pub open spec fn settled_count(states: Seq<TaskState>) -> nat
    decreases states.len(),
{
    if states.len() == 0 {
        0
    } else {
        settled_count(states.drop_last()) + if is_settled(states.last()) { 1nat } else { 0nat }
    }
}

/// The mathematical state of a run.
pub struct RunView {
    /// The records of the batch, in input order.
    pub records: Seq<SongView>,
    /// The state of each record's task, by the record's index.
    pub states: Seq<TaskState>,
    /// How many tasks have been launched: those of the first `launched` records.
    pub launched: nat,
}

impl RunView {
    /// A run that has not started: no task launched.
    pub open spec fn initial(records: Seq<SongView>) -> RunView {
        RunView {
            records,
            states: Seq::new(records.len(), |i: int| TaskState::Waiting),
            launched: 0,
        }
    }

    /// Each record has one task, tasks are launched in input order, and the
    /// tasks not launched yet are exactly those that wait.
    pub open spec fn wf(self) -> bool {
        &&& self.states.len() == self.records.len()
        &&& self.launched <= self.records.len()
        &&& forall|i: int|
            0 <= i < self.states.len() ==> (#[trigger] self.states[i] == TaskState::Waiting
                <==> i >= self.launched)
    }

    /// Whether every task has completed.
    pub open spec fn all_settled(self) -> bool {
        forall|i: int| 0 <= i < self.states.len() ==> is_settled(#[trigger] self.states[i])
    }

    /// Whether the task of record `index` has been launched and has not completed.
    pub open spec fn is_running(self, index: int) -> bool {
        0 <= index < self.states.len() && self.states[index] == TaskState::Running
    }

    /// What is to be done next: launch the tasks one by one in input order,
    /// then wait as long as any task has not completed, then finish.
    pub open spec fn action(self) -> Action {
        if self.launched < self.records.len() {
            Action::Launch(self.launched as usize)
        } else if !self.all_settled() {
            Action::Await
        } else {
            Action::Finish
        }
    }

    /// The run after the next task has been launched.
    pub open spec fn launch(self) -> RunView {
        RunView {
            records: self.records,
            states: self.states.update(self.launched as int, TaskState::Running),
            launched: self.launched + 1,
        }
    }

    /// The run after the task of record `index` has completed.
    pub open spec fn complete(self, index: int, success: bool) -> RunView {
        RunView {
            records: self.records,
            states: self.states.update(index, outcome_state(success)),
            launched: self.launched,
        }
    }

    /// The records whose download succeeded, in input order.
    pub open spec fn succeeded(self) -> Seq<SongView> {
        chosen(self.records, self.states, TaskState::Succeeded)
    }

    /// The records whose download failed, in input order.
    pub open spec fn failed(self) -> Seq<SongView> {
        chosen(self.records, self.states, TaskState::Failed)
    }
}

/// Changing one task's state changes the count of completed tasks by that
/// task alone.
pub proof fn lemma_settled_count_update(states: Seq<TaskState>, index: int, state: TaskState)
    requires
        0 <= index < states.len(),
    ensures
        settled_count(states.update(index, state)) + (if is_settled(states[index]) {
            1nat
        } else {
            0nat
        }) == settled_count(states) + (if is_settled(state) {
            1nat
        } else {
            0nat
        }),
    decreases states.len(),
{
    let updated = states.update(index, state);
    if index == states.len() - 1 {
        assert(updated.drop_last() =~= states.drop_last());
    } else {
        assert(updated.drop_last() =~= states.drop_last().update(index, state));
        lemma_settled_count_update(states.drop_last(), index, state);
    }
}

/// At most every task has completed, and the count reaches the number of
/// tasks exactly when every task has.
pub proof fn lemma_settled_count_full(states: Seq<TaskState>)
    ensures
        settled_count(states) <= states.len(),
        settled_count(states) == states.len() <==> (forall|i: int|
            0 <= i < states.len() ==> is_settled(#[trigger] states[i])),
    decreases states.len(),
{
    if states.len() > 0 {
        let init = states.drop_last();
        lemma_settled_count_full(init);
        if settled_count(states) == states.len() {
            assert forall|i: int| 0 <= i < states.len() implies is_settled(
                #[trigger] states[i],
            ) by {
                if i < init.len() {
                    assert(init[i] == states[i]);
                }
            }
        }
        if forall|i: int| 0 <= i < states.len() ==> is_settled(#[trigger] states[i]) {
            assert forall|i: int| 0 <= i < init.len() implies is_settled(#[trigger] init[i]) by {
                assert(init[i] == states[i]);
            }
        }
    }
}

/// Where every task is in one of the two final states, the records chosen by
/// the one state and those chosen by the other hold, between them, each record
/// as often as the input does.
pub proof fn lemma_chosen_part(records: Seq<SongView>, states: Seq<TaskState>)
    requires
        states.len() == records.len(),
        forall|i: int| 0 <= i < states.len() ==> is_settled(#[trigger] states[i]),
    ensures
        chosen(records, states, TaskState::Succeeded).len() + chosen(
            records,
            states,
            TaskState::Failed,
        ).len() == records.len(),
        chosen(records, states, TaskState::Succeeded).to_multiset().add(
            chosen(records, states, TaskState::Failed).to_multiset(),
        ) == records.to_multiset(),
    decreases records.len(),
{
    broadcast use vstd::seq_lib::group_to_multiset_ensures;

    let won = chosen(records, states, TaskState::Succeeded);
    let lost = chosen(records, states, TaskState::Failed);
    if records.len() == 0 {
        assert(won.to_multiset().add(lost.to_multiset()) =~= records.to_multiset());
    } else {
        let init = states.drop_last();
        assert forall|i: int| 0 <= i < init.len() implies is_settled(#[trigger] init[i]) by {
            assert(init[i] == states[i]);
        }
        lemma_chosen_part(records.drop_last(), init);
        assert(is_settled(states.last()));
        assert(records.drop_last().push(records.last()) =~= records);
        assert(won.to_multiset().add(lost.to_multiset()) =~= records.to_multiset());
    }
}

/// Once every task has completed, the two sets part the records: between
/// them they hold each record as often as the input does, so none is missing
/// and their sizes add up to the number of records.
pub proof fn lemma_sets_part_the_records(run: RunView)
    requires
        run.wf(),
        run.all_settled(),
    ensures
        run.succeeded().len() + run.failed().len() == run.records.len(),
        run.succeeded().to_multiset().add(run.failed().to_multiset())
            == run.records.to_multiset(),
{
    lemma_chosen_part(run.records, run.states);
}

/// Where no record occurs twice in the input, no record is in both sets.
pub proof fn lemma_sets_are_disjoint(run: RunView, record: SongView)
    requires
        run.wf(),
        run.all_settled(),
        run.records.no_duplicates(),
    ensures
        !(run.succeeded().contains(record) && run.failed().contains(record)),
{
    broadcast use vstd::seq_lib::group_to_multiset_ensures;

    lemma_sets_part_the_records(run);
    run.records.lemma_multiset_has_no_duplicates();
    if run.succeeded().contains(record) && run.failed().contains(record) {
        let both = run.succeeded().to_multiset().add(run.failed().to_multiset());
        assert(both.count(record) >= 2);
        assert(run.records.to_multiset().contains(record));
    }
}

/// A run over no records has nothing to launch and nothing to wait for: it
/// finishes at once, with two empty sets.
pub proof fn lemma_empty_run_finishes_at_once(records: Seq<SongView>)
    requires
        records.len() == 0,
    ensures
        RunView::initial(records).wf(),
        RunView::initial(records).action() == Action::Finish,
        RunView::initial(records).succeeded() == Seq::<SongView>::empty(),
        RunView::initial(records).failed() == Seq::<SongView>::empty(),
{
}

/// The run does not finish while any task has not completed: there is no
/// timeout, and a task that never completes holds the run for ever.
pub proof fn lemma_finish_waits_for_every_task(run: RunView, index: int)
    requires
        run.wf(),
        0 <= index < run.records.len(),
        !is_settled(run.states[index]),
    ensures
        run.action() != Action::Finish,
{
}

/// A run starts well formed, and launching the next task keeps it so.
pub proof fn lemma_launch_keeps_well_formed(run: RunView)
    requires
        run.wf(),
        run.launched < run.records.len(),
    ensures
        RunView::initial(run.records).wf(),
        run.launch().wf(),
        run.launch().is_running(run.launched as int),
{
}

/// A completion, failed or not, touches one task only: the records and the
/// states of the other tasks stay, and the run stays well formed.
pub proof fn lemma_completion_is_local(run: RunView, index: int, success: bool)
    requires
        run.wf(),
        run.is_running(index),
    ensures
        run.complete(index, success).wf(),
        run.complete(index, success).records == run.records,
        forall|other: int|
            0 <= other < run.states.len() && other != index ==> run.complete(
                index,
                success,
            ).states[other] == run.states[other],
{
}

/// A batch run in progress.
pub struct Orchestrator {
    records: Vec<Song>,
    states: Vec<TaskState>,
    launched: usize,
    settled: usize,
}

impl View for Orchestrator {
    type V = RunView;

    closed spec fn view(&self) -> RunView {
        RunView {
            records: song_views(self.records@),
            states: self.states@,
            launched: self.launched as nat,
        }
    }
}

impl Orchestrator {
    /// Whether the count of completed tasks that the run keeps is right.
    pub closed spec fn tallied(&self) -> bool {
        self.settled == settled_count(self.states@)
    }

    /// The run is well formed, and so is its bookkeeping.
    pub open spec fn wf(&self) -> bool {
        self@.wf() && self.tallied()
    }

    /// Starts a run over `records`. No task is launched yet.
    pub fn new(records: Vec<Song>) -> (run: Self)
        ensures
            run.wf(),
            run@ == RunView::initial(song_views(records@)),
    {
        let n = records.len();
        let mut states: Vec<TaskState> = Vec::new();
        let mut i: usize = 0;
        while i < n
            invariant
                i <= n,
                states@.len() == i,
                forall|k: int| 0 <= k < i ==> states@[k] == TaskState::Waiting,
                settled_count(states@) == 0,
            decreases n - i,
        {
            let ghost before = states@;
            states.push(TaskState::Waiting);
            assert(states@.drop_last() =~= before);
            i += 1;
        }
        assert(states@ =~= Seq::new(records@.len(), |i: int| TaskState::Waiting));
        assert(song_views(records@).len() == records@.len());
        Orchestrator { records, states, launched: 0, settled: 0 }
    }

    /// What the driver has to do next.
    pub fn next_action(&self) -> (action: Action)
        requires
            self.wf(),
        ensures
            action == self@.action(),
    {
        proof {
            lemma_settled_count_full(self.states@);
        }
        if self.launched < self.records.len() {
            Action::Launch(self.launched)
        } else if self.settled < self.records.len() {
            Action::Await
        } else {
            Action::Finish
        }
    }

    /// Whether the task of record `index` has been launched and has not completed.
    pub fn is_running(&self, index: usize) -> (running: bool)
        requires
            self.wf(),
        ensures
            running == self@.is_running(index as int),
    {
        index < self.states.len() && self.states[index] == TaskState::Running
    }

    /// Marks the next task as launched and hands out the record it is for.
    pub fn launch(&mut self) -> (song: Song)
        requires
            old(self).wf(),
            old(self)@.launched < old(self)@.records.len(),
        ensures
            final(self).wf(),
            final(self)@ == old(self)@.launch(),
            song@ == old(self)@.records[old(self)@.launched as int],
    {
        let index = self.launched;
        let n = self.records.len();
        proof {
            assert(song_views(self.records@).len() == n);
            lemma_settled_count_update(self.states@, index as int, TaskState::Running);
        }
        self.states.set(index, TaskState::Running);
        self.launched = index + 1;
        self.records[index].clone()
    }

    /// Records that the task of record `index` has completed, with success or
    /// with failure. The other tasks are not touched.
    pub fn complete(&mut self, index: usize, success: bool)
        requires
            old(self).wf(),
            old(self)@.is_running(index as int),
        ensures
            final(self).wf(),
            final(self)@ == old(self)@.complete(index as int, success),
    {
        let n = self.states.len();
        proof {
            lemma_settled_count_update(self.states@, index as int, outcome_state(success));
            lemma_settled_count_full(self.states@);
            assert(self.settled < n);
        }
        let state = if success {
            TaskState::Succeeded
        } else {
            TaskState::Failed
        };
        self.states.set(index, state);
        self.settled = self.settled + 1;
    }

    /// Ends the run: the records whose download succeeded and those whose
    /// download failed, each in input order.
    pub fn finish(self) -> (sets: (Vec<Song>, Vec<Song>))
        requires
            self.wf(),
            self@.action() == Action::Finish,
        ensures
            song_views(sets.0@) == self@.succeeded(),
            song_views(sets.1@) == self@.failed(),
    {
        let mut succeeded: Vec<Song> = Vec::new();
        let mut failed: Vec<Song> = Vec::new();
        let n = self.records.len();
        let ghost records = song_views(self.records@);
        let ghost states = self.states@;
        let mut i: usize = 0;
        assert(song_views(succeeded@) =~= Seq::<SongView>::empty());
        assert(song_views(failed@) =~= Seq::<SongView>::empty());
        assert(records.take(0) =~= Seq::<SongView>::empty());
        while i < n
            invariant
                n == self.records.len(),
                n == self.states.len(),
                records == song_views(self.records@),
                states == self.states@,
                i <= n,
                song_views(succeeded@) == chosen(
                    records.take(i as int),
                    states.take(i as int),
                    TaskState::Succeeded,
                ),
                song_views(failed@) == chosen(
                    records.take(i as int),
                    states.take(i as int),
                    TaskState::Failed,
                ),
            decreases n - i,
        {
            let ghost won = song_views(succeeded@);
            let ghost lost = song_views(failed@);
            proof {
                assert(records.take(i + 1).drop_last() =~= records.take(i as int));
                assert(states.take(i + 1).drop_last() =~= states.take(i as int));
                assert(records.take(i + 1).last() == self.records@[i as int]@);
                assert(states.take(i + 1).last() == states[i as int]);
            }
            let state = self.states[i];
            if state == TaskState::Succeeded {
                succeeded.push(self.records[i].clone());
                assert(song_views(succeeded@) =~= won.push(self.records@[i as int]@));
            } else if state == TaskState::Failed {
                failed.push(self.records[i].clone());
                assert(song_views(failed@) =~= lost.push(self.records@[i as int]@));
            }
            i += 1;
        }
        assert(records.take(n as int) =~= records);
        assert(states.take(n as int) =~= states);
        (succeeded, failed)
    }
}

} // verus!
