//! The result stream of a scan, as a sequence of events, and what holds of
//! it however the workers interleave.
//!
//! A worker's staleness check and what it publishes are taken as one step:
//! the stream of a scan is what the scan emits at once, followed by what
//! each worker publishes, in the order in which the workers are done.

use crate::computer::{
    emits_file, file_events, file_record, lemma_worker_dirs_len, scan_plan, spawns_worker,
    worker_dirs, worker_step, Child, EventRecord, Plan, ScanBatch,
};
use crate::file_info::{dir_record, FileRecord, Node};
use vstd::prelude::*;

verus! {

/// One worker being done: the value of the epoch counter when it made its
/// staleness check, and the aggregate it had computed.
pub struct Completion {
    pub live_epoch: usize,
    pub record: FileRecord,
}

/// What the workers of `batch` publish, and what they leave of the batch,
/// when they are done in the order of `done`.
pub open spec fn run(batch: ScanBatch, done: Seq<Completion>) -> (ScanBatch, Seq<EventRecord>)
    decreases done.len(),
{
    if done.len() == 0 {
        (batch, Seq::empty())
    } else {
        let earlier = run(batch, done.drop_last());
        let step = worker_step(earlier.0, done.last().live_epoch, done.last().record);
        (step.0, earlier.1 + step.1)
    }
}

/// The result stream of a scan: what the scan emits at once, then what its
/// workers publish.
pub open spec fn scan_stream(plan: Plan, done: Seq<Completion>) -> Seq<EventRecord> {
    plan.events + run(plan.batch, done).1
}

/// Every worker of `done` found the epoch of `batch` still current.
pub open spec fn all_fresh(batch: ScanBatch, done: Seq<Completion>) -> bool {
    forall|k: int| 0 <= k < done.len() ==> (#[trigger] done[k]).live_epoch == batch.epoch
}

/// Every worker of `done` found another epoch than that of `batch`.
pub open spec fn all_stale(batch: ScanBatch, done: Seq<Completion>) -> bool {
    forall|k: int| 0 <= k < done.len() ==> (#[trigger] done[k]).live_epoch != batch.epoch
}

/// Every event of `events` is a record, none the marker of completion.
pub open spec fn only_records(events: Seq<EventRecord>) -> bool {
    forall|i: int| 0 <= i < events.len() ==> #[trigger] events[i] is FileInfo
}

/// What a scan emits for its plain files holds no marker.
pub proof fn lemma_file_events_are_records(kids: Seq<Child>)
    ensures
        only_records(file_events(kids)),
        file_events(kids).len() <= kids.len(),
    decreases kids.len(),
{
    if kids.len() > 0 {
        lemma_file_events_are_records(kids.drop_last());
    }
}

/// Workers that all found their scan current: so did all but the last.
pub proof fn lemma_fresh_front(batch: ScanBatch, done: Seq<Completion>)
    requires
        all_fresh(batch, done),
        done.len() > 0,
    ensures
        all_fresh(batch, done.drop_last()),
{
    let front = done.drop_last();
    assert forall|k: int| 0 <= k < front.len() implies (#[trigger] front[k]).live_epoch
        == batch.epoch by {
        assert(front[k] == done[k]);
    }
}

/// Workers that all found their scan superseded: so did all but the last.
pub proof fn lemma_stale_front(batch: ScanBatch, done: Seq<Completion>)
    requires
        all_stale(batch, done),
        done.len() > 0,
    ensures
        all_stale(batch, done.drop_last()),
{
    let front = done.drop_last();
    assert forall|k: int| 0 <= k < front.len() implies (#[trigger] front[k]).live_epoch
        != batch.epoch by {
        assert(front[k] == done[k]);
    }
}

/// What the workers of a scan that is never superseded publish: a record
/// each, and the marker after the record of the last one outstanding.
pub proof fn lemma_fresh_run(batch: ScanBatch, done: Seq<Completion>)
    requires
        all_fresh(batch, done),
        done.len() <= batch.outstanding,
    ensures
        run(batch, done).0 == (ScanBatch {
            epoch: batch.epoch,
            outstanding: (batch.outstanding - done.len()) as usize,
        }),
        done.len() < batch.outstanding || done.len() == 0 ==> only_records(run(batch, done).1)
            && run(batch, done).1.len() == done.len(),
        done.len() == batch.outstanding && done.len() > 0 ==> {
            let events = run(batch, done).1;
            &&& events.len() == done.len() + 1
            &&& events.last() == EventRecord::Finished
            &&& only_records(events.drop_last())
        },
    decreases done.len(),
{
    if done.len() > 0 {
        lemma_fresh_front(batch, done);
        lemma_fresh_run(batch, done.drop_last());
    }
}

/// What a scan emits before its marker is nothing but records, and the marker
/// comes once, at the very end: after the scan's own file records and after
/// the record of every worker, in whatever order the workers were done. Until
/// the last worker is done, no marker has been emitted.
pub proof fn completed_scan_ends_with_one_marker(
    epoch: usize,
    kids: Seq<Child>,
    done: Seq<Completion>,
)
    requires
        kids.len() <= usize::MAX,
        done.len() <= worker_dirs(kids).len(),
        all_fresh(scan_plan(epoch, kids).batch, done),
    ensures
        ({
            let plan = scan_plan(epoch, kids);
            let stream = scan_stream(plan, done);
            if done.len() == plan.dirs.len() {
                &&& stream.len() > 0
                &&& stream.last() == EventRecord::Finished
                &&& only_records(stream.drop_last())
                &&& run(plan.batch, done).0.outstanding == 0
            } else {
                only_records(stream)
            }
        }),
{
    let plan = scan_plan(epoch, kids);
    let stream = scan_stream(plan, done);
    lemma_worker_dirs_len(kids);
    lemma_file_events_are_records(kids);
    lemma_fresh_run(plan.batch, done);
    let published = run(plan.batch, done).1;
    if plan.dirs.len() > 0 && done.len() == plan.dirs.len() {
        assert(stream.drop_last() =~= file_events(kids) + published.drop_last());
    }
}

/// A worker that finds its scan superseded publishes nothing and leaves the
/// batch as it was. So whatever a scan puts on the stream, it puts there
/// before a newer scan begins: its workers that are done afterwards add
/// neither a record nor a marker.
pub proof fn superseded_scan_is_silent(
    batch: ScanBatch,
    before: Seq<Completion>,
    after: Seq<Completion>,
)
    requires
        all_stale(batch, after),
    ensures
        run(batch, before + after) == run(batch, before),
    decreases after.len(),
{
    if after.len() > 0 {
        let front = after.drop_last();
        lemma_stale_front(batch, after);
        superseded_scan_is_silent(batch, before, front);
        assert((before + after).drop_last() =~= before + front);
        lemma_run_keeps_epoch(batch, before + front);
    }
}

/// The workers of a batch never change its epoch.
pub proof fn lemma_run_keeps_epoch(batch: ScanBatch, done: Seq<Completion>)
    ensures
        run(batch, done).0.epoch == batch.epoch,
    decreases done.len(),
{
    if done.len() > 0 {
        lemma_run_keeps_epoch(batch, done.drop_last());
    }
}

/// A scan that starts after another has a later epoch, so every worker of
/// the earlier scan that makes its check from then on is stale.
pub proof fn newer_scan_supersedes(
    batch: ScanBatch,
    newer_epoch: usize,
    before: Seq<Completion>,
    after: Seq<Completion>,
)
    requires
        batch.epoch < newer_epoch,
        forall|k: int| 0 <= k < after.len() ==> (#[trigger] after[k]).live_epoch >= newer_epoch,
    ensures
        run(batch, before + after) == run(batch, before),
{
    superseded_scan_is_silent(batch, before, after);
}

/// The children that a scan reports at once: its plain files.
pub open spec fn plain_files(kids: Seq<Child>) -> Seq<Child> {
    kids.filter(|kid: Child| emits_file(kid))
}

/// A scan emits one record for each plain file among the children.
pub proof fn lemma_one_record_for_each_file(kids: Seq<Child>)
    ensures
        file_events(kids).len() == plain_files(kids).len(),
    decreases kids.len(),
{
    reveal(Seq::filter);
    if kids.len() > 0 {
        lemma_one_record_for_each_file(kids.drop_last());
    }
}

/// A directory without subdirectories is complete at once. With no worker to
/// start, the plan holds the record of each plain file, in listing order,
/// and the marker right after them: as many records as there are plain
/// files. Where every child is a plain file, that is one record for each
/// child.
pub proof fn scan_without_subdirectories_completes_at_once(epoch: usize, kids: Seq<Child>)
    requires
        forall|i: int| 0 <= i < kids.len() ==> !spawns_worker(#[trigger] kids[i]),
    ensures
        scan_plan(epoch, kids).dirs.len() == 0,
        scan_plan(epoch, kids).batch.outstanding == 0,
        scan_plan(epoch, kids).events == file_events(kids).push(EventRecord::Finished),
        only_records(file_events(kids)),
        file_events(kids).len() == plain_files(kids).len(),
        (forall|i: int| 0 <= i < kids.len() ==> emits_file(#[trigger] kids[i])) ==> {
            &&& file_events(kids).len() == kids.len()
            &&& forall|i: int|
                0 <= i < kids.len() ==> #[trigger] file_events(kids)[i] == EventRecord::FileInfo(
                    file_record(kids[i]),
                )
        },
    decreases kids.len(),
{
    lemma_file_events_are_records(kids);
    lemma_one_record_for_each_file(kids);
    if kids.len() > 0 {
        let front = kids.drop_last();
        assert forall|i: int| 0 <= i < front.len() implies !spawns_worker(#[trigger] front[i]) by {
            assert(front[i] == kids[i]);
        }
        scan_without_subdirectories_completes_at_once(epoch, front);
        if forall|i: int| 0 <= i < kids.len() ==> emits_file(#[trigger] kids[i]) {
            assert forall|i: int| 0 <= i < front.len() implies emits_file(#[trigger] front[i]) by {
                assert(front[i] == kids[i]);
            }
        }
    }
}

/// A directory whose only child is a directory that cannot be read still
/// completes: the one worker finds nothing below the child, publishes a
/// record of one entry and no bytes, and the marker follows it.
pub proof fn unreadable_only_child_still_completes(epoch: usize, kid: Child)
    requires
        spawns_worker(kid),
    ensures
        scan_stream(
            scan_plan(epoch, seq![kid]),
            seq![
                Completion {
                    live_epoch: epoch,
                    record: dir_record(kid.path, Seq::<Node>::empty()),
                },
            ],
        ) == seq![
            EventRecord::FileInfo(
                FileRecord { path: kid.path, file_count: 1, size: 0, is_dir: true },
            ),
            EventRecord::Finished,
        ],
{
    let kids = seq![kid];
    let plan = scan_plan(epoch, kids);
    let record = dir_record(kid.path, Seq::<Node>::empty());
    let done = seq![Completion { live_epoch: epoch, record }];
    assert(worker_dirs(kids.drop_last()) =~= Seq::<Seq<char>>::empty());
    assert(file_events(kids.drop_last()) =~= Seq::<EventRecord>::empty());
    assert(run(plan.batch, done.drop_last()) == (plan.batch, Seq::<EventRecord>::empty()));
}

/// An event on the one stream that all scans share, with the epoch of the
/// scan that put it there.
pub struct Tagged {
    pub epoch: usize,
    pub event: EventRecord,
}

/// All scans of one session together: the live epoch, the batch of every
/// scan started so far, and the stream that they share.
pub struct Session {
    pub live_epoch: usize,
    pub batches: Map<usize, ScanBatch>,
    pub stream: Seq<Tagged>,
}

/// What happens in a session: a scan is started on a directory with the
/// given children, or a worker of the scan of some epoch is done with its
/// aggregate.
pub enum Step {
    Start(Seq<Child>),
    Done(usize, FileRecord),
}

/// The events of one scan, tagged with its epoch.
pub open spec fn tagged(epoch: usize, events: Seq<EventRecord>) -> Seq<Tagged> {
    Seq::new(events.len(), |i: int| Tagged { epoch, event: events[i] })
}

/// A session in which nothing has happened yet.
pub open spec fn new_session() -> Session {
    Session { live_epoch: 0, batches: Map::empty(), stream: Seq::empty() }
}

/// The session after one step. Starting a scan begins the next epoch and
/// puts on the stream what the scan emits at once; a worker being done puts
/// there what [`worker_step`] says, given the live epoch.
pub open spec fn session_step(session: Session, step: Step) -> Session {
    match step {
        Step::Start(kids) => {
            let epoch = (session.live_epoch + 1) as usize;
            let plan = scan_plan(epoch, kids);
            Session {
                live_epoch: epoch,
                batches: session.batches.insert(epoch, plan.batch),
                stream: session.stream + tagged(epoch, plan.events),
            }
        },
        Step::Done(epoch, record) => {
            if session.batches.dom().contains(epoch) {
                let outcome = worker_step(session.batches[epoch], session.live_epoch, record);
                Session {
                    live_epoch: session.live_epoch,
                    batches: session.batches.insert(epoch, outcome.0),
                    stream: session.stream + tagged(epoch, outcome.1),
                }
            } else {
                session
            }
        },
    }
}

/// The session after `steps`, taken in order from a new session.
pub open spec fn session_after(steps: Seq<Step>) -> Session
    decreases steps.len(),
{
    if steps.len() == 0 {
        new_session()
    } else {
        session_step(session_after(steps.drop_last()), steps.last())
    }
}

/// The events of the stream come in the order of their epochs.
pub open spec fn in_epoch_order(stream: Seq<Tagged>) -> bool {
    forall|i: int, j: int|
        0 <= i <= j < stream.len() ==> (#[trigger] stream[i]).epoch <= (#[trigger] stream[j]).epoch
}

/// What holds of a session at every moment: each batch is filed under its
/// own epoch, and nothing on the stream is of a later epoch than the live
/// one, nor of an earlier epoch than what came before it.
pub open spec fn session_inv(session: Session) -> bool {
    &&& forall|e: usize| #[trigger]
        session.batches.dom().contains(e) ==> session.batches[e].epoch == e
    &&& forall|i: int|
        0 <= i < session.stream.len() ==> (#[trigger] session.stream[i]).epoch
            <= session.live_epoch
    &&& in_epoch_order(session.stream)
}

/// One step keeps what holds of a session.
pub proof fn lemma_session_step(session: Session, step: Step)
    requires
        session_inv(session),
        step is Start ==> session.live_epoch < usize::MAX,
    ensures
        session_inv(session_step(session, step)),
        session_step(session, step).live_epoch >= session.live_epoch,
{
}

/// No cross-contamination. However scans are started and workers are done,
/// the events on the shared stream come in the order of their epochs: once
/// a newer scan has put its first event there, no record and no marker of
/// an older scan follows.
pub proof fn stream_keeps_epoch_order(steps: Seq<Step>)
    requires
        steps.len() <= usize::MAX,
    ensures
        session_inv(session_after(steps)),
        session_after(steps).live_epoch <= steps.len(),
    decreases steps.len(),
{
    if steps.len() > 0 {
        stream_keeps_epoch_order(steps.drop_last());
        lemma_session_step(session_after(steps.drop_last()), steps.last());
    }
}

} // verus!
