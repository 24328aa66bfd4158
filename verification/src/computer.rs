//! The scan orchestrator: what a scan of one directory emits at once, which
//! workers it needs, and what each worker publishes when it is done.

use crate::file_info::{EntryKind, FileInfo, FileRecord, Met};
use crate::result_stream::{result_stream, Publisher};
use vstd::prelude::*;
use vstd::string::StringExecFns;

verus! {

/// What travels on the result stream of a scan.
#[derive(Clone, Debug, PartialEq, Eq)]
pub enum ComputationEvent {
    /// The scan is complete: no record of it follows.
    Finished,
    /// The aggregate of one immediate child.
    FileInfo(FileInfo),
}

/// The mathematical content of a [`ComputationEvent`].
pub enum EventRecord {
    Finished,
    FileInfo(FileRecord),
}

impl View for ComputationEvent {
    type V = EventRecord;

    open spec fn view(&self) -> EventRecord {
        match self {
            ComputationEvent::Finished => EventRecord::Finished,
            ComputationEvent::FileInfo(info) => EventRecord::FileInfo(info@),
        }
    }
}

/// One immediate child of the scanned directory, as its listing reports it.
#[derive(Clone, Debug, PartialEq, Eq)]
pub struct ChildEntry {
    pub path: String,
    /// The child's metadata, or `None` where it could not be stat-ed.
    pub stat: Met,
}

/// The mathematical content of a [`ChildEntry`].
pub struct Child {
    pub path: Seq<char>,
    pub stat: Met,
}

impl View for ChildEntry {
    type V = Child;

    open spec fn view(&self) -> Child {
        Child { path: self.path@, stat: self.stat }
    }
}

/// Why a scan could not start.
#[derive(Clone, Copy, Debug, PartialEq, Eq, Structural)]
pub enum ScanError {
    /// The directory to scan could not be listed.
    RootUnreadable,
}

/// The state of one scan that its workers share: the epoch the scan was
/// started in, and how many of its workers have not reported yet.
#[derive(Clone, Copy, Debug, PartialEq, Eq, Structural)]
pub struct ScanBatch {
    pub epoch: usize,
    pub outstanding: usize,
}

/// What starting a scan has done and what it asks of the caller.
#[derive(Debug, PartialEq, Eq)]
pub struct ScanPlan {
    /// The state to hand to the workers.
    pub batch: ScanBatch,
    /// What the scan emits at once, in this order.
    pub events: Vec<ComputationEvent>,
    /// The directories to aggregate, one worker each.
    pub dirs: Vec<String>,
    /// How many of `events` the result stream took: all of them, unless the
    /// stream is closed.
    pub delivered: usize,
}

/// The mathematical content of a [`ScanPlan`].
pub struct Plan {
    pub batch: ScanBatch,
    pub events: Seq<EventRecord>,
    pub dirs: Seq<Seq<char>>,
}

/// The content of each event of a sequence.
pub open spec fn event_records(events: Seq<ComputationEvent>) -> Seq<EventRecord> {
    Seq::new(events.len(), |i: int| events[i]@)
}

/// The content of each path of a sequence.
pub open spec fn path_views(paths: Seq<String>) -> Seq<Seq<char>> {
    Seq::new(paths.len(), |i: int| paths[i]@)
}

/// The content of each child of a listing.
pub open spec fn children_view(kids: Seq<ChildEntry>) -> Seq<Child> {
    Seq::new(kids.len(), |i: int| kids[i]@)
}

impl View for ScanPlan {
    type V = Plan;

    open spec fn view(&self) -> Plan {
        Plan {
            batch: self.batch,
            events: event_records(self.events@),
            dirs: path_views(self.dirs@),
        }
    }
}

/// The one path that a scan passes over: the pseudo-directory of process
/// information, whose reported sizes mean nothing.
pub open spec fn excluded_path() -> Seq<char> {
    "/proc"@
}

/// The child is the path that a scan passes over.
pub open spec fn is_excluded(kid: Child) -> bool {
    kid.path == excluded_path()
}

/// The child is a plain file that the scan reports at once.
pub open spec fn emits_file(kid: Child) -> bool {
    &&& !is_excluded(kid)
    &&& kid.stat matches Some(s)
    &&& s.kind == EntryKind::File
}

/// The child is a directory that the scan hands to a worker.
pub open spec fn spawns_worker(kid: Child) -> bool {
    &&& !is_excluded(kid)
    &&& kid.stat matches Some(s)
    &&& s.kind == EntryKind::Dir
}

/// The record of a plain file among the children: one entry, its own length.
pub open spec fn file_record(kid: Child) -> FileRecord {
    FileRecord { path: kid.path, file_count: 1, size: kid.stat->0.len as nat, is_dir: false }
}

/// The records of the plain files among `kids`, in listing order.
pub open spec fn file_events(kids: Seq<Child>) -> Seq<EventRecord>
    decreases kids.len(),
{
    if kids.len() == 0 {
        Seq::empty()
    } else if emits_file(kids.last()) {
        file_events(kids.drop_last()).push(EventRecord::FileInfo(file_record(kids.last())))
    } else {
        file_events(kids.drop_last())
    }
}

/// The directories among `kids` that get a worker, in listing order.
pub open spec fn worker_dirs(kids: Seq<Child>) -> Seq<Seq<char>>
    decreases kids.len(),
{
    if kids.len() == 0 {
        Seq::empty()
    } else if spawns_worker(kids.last()) {
        worker_dirs(kids.drop_last()).push(kids.last().path)
    } else {
        worker_dirs(kids.drop_last())
    }
}

/// What a scan started in `epoch` on a directory with children `kids` asks
/// for. Each plain file is reported at once; each directory gets a worker;
/// a child that could not be stat-ed, or is neither, is passed over, and so
/// is the excluded path. With no worker to wait for, the marker of
/// completion follows the file records immediately.
pub open spec fn scan_plan(epoch: usize, kids: Seq<Child>) -> Plan {
    let dirs = worker_dirs(kids);
    Plan {
        batch: ScanBatch { epoch, outstanding: dirs.len() as usize },
        events: if dirs.len() == 0 {
            file_events(kids).push(EventRecord::Finished)
        } else {
            file_events(kids)
        },
        dirs,
    }
}

/// What one worker of `batch` publishes, and what it leaves of the batch,
/// when it is done with `record` while `live_epoch` is the current epoch.
///
/// A worker of a superseded scan publishes nothing and leaves the batch as
/// it was. Any other publishes its record, and the marker of completion
/// after it if it is the last one outstanding.
pub open spec fn worker_step(batch: ScanBatch, live_epoch: usize, record: FileRecord) -> (
    ScanBatch,
    Seq<EventRecord>,
) {
    if live_epoch != batch.epoch {
        (batch, Seq::empty())
    } else {
        let left = (batch.outstanding - 1) as usize;
        (
            ScanBatch { epoch: batch.epoch, outstanding: left },
            if left == 0 {
                seq![EventRecord::FileInfo(record), EventRecord::Finished]
            } else {
                seq![EventRecord::FileInfo(record)]
            },
        )
    }
}

/// A listing holds at most as many worker directories as children.
pub proof fn lemma_worker_dirs_len(kids: Seq<Child>)
    ensures
        worker_dirs(kids).len() <= kids.len(),
    decreases kids.len(),
{
    if kids.len() > 0 {
        lemma_worker_dirs_len(kids.drop_last());
    }
}

impl ScanBatch {
    /// Whether the scan of this batch is still the current one, given the
    /// live value of the epoch counter.
    pub fn is_current(&self, live_epoch: usize) -> (current: bool)
        ensures
            current == (live_epoch == self.epoch),
    {
        live_epoch == self.epoch
    }

    /// One worker of the batch is done and `info` is its aggregate: decides
    /// what goes on the result stream, given the live value of the epoch
    /// counter, and counts the worker off. A worker that is counted off was
    /// outstanding.
    pub fn worker_done(&mut self, live_epoch: usize, info: FileInfo) -> (out: Vec<
        ComputationEvent,
    >)
        requires
            live_epoch == old(self).epoch ==> old(self).outstanding > 0,
        ensures
            *final(self) == worker_step(*old(self), live_epoch, info@).0,
            event_records(out@) == worker_step(*old(self), live_epoch, info@).1,
            out@.len() == worker_step(*old(self), live_epoch, info@).1.len(),
    {
        let mut out: Vec<ComputationEvent> = Vec::new();
        if !self.is_current(live_epoch) {
            return out;
        }
        out.push(ComputationEvent::FileInfo(info));
        self.outstanding = self.outstanding - 1;
        if self.outstanding == 0 {
            out.push(ComputationEvent::Finished);
        }
        out
    }
}

/// The scan epoch tracker and orchestrator. It counts the scans started so
/// far; the count is the epoch of the current scan. It owns the result
/// stream: it sends on it what a scan emits at once, gives the workers
/// handles to send on, and holds the end to receive from.
pub struct Computer {
    publisher: Publisher,
    /// The receiving end of the result stream.
    pub rx: crossbeam::channel::Receiver<ComputationEvent>,
    task_count: usize,
}

impl Computer {
    /// The epoch of the current scan: the number of scans started so far.
    pub closed spec fn epoch(&self) -> usize {
        self.task_count
    }

    /// What this orchestrator has itself put on the result stream, in
    /// order: what its scans emitted at once.
    pub closed spec fn emitted(&self) -> Seq<EventRecord> {
        self.publisher.sent()
    }

    /// A tracker on which no scan has been started, with a result stream of
    /// its own.
    pub fn new() -> (computer: Computer)
        ensures
            computer.epoch() == 0,
            computer.emitted() == Seq::<EventRecord>::empty(),
    {
        let (publisher, rx) = result_stream();
        Computer { publisher, rx, task_count: 0 }
    }

    /// A handle for a worker to send on the result stream.
    pub fn publisher(&self) -> (handle: Publisher)
        ensures
            handle.sent() == Seq::<EventRecord>::empty(),
    {
        self.publisher.share()
    }

    /// The live value of the epoch counter.
    pub fn current_epoch(&self) -> (epoch: usize)
        ensures
            epoch == self.epoch(),
    {
        self.task_count
    }

    /// Whether another scan can be started: the counter has not reached the
    /// end of its range.
    pub fn can_begin(&self) -> (ok: bool)
        ensures
            ok == (self.epoch() < usize::MAX),
    {
        self.task_count < usize::MAX
    }

    /// Starts a new epoch and returns it. Every scan started before is
    /// superseded from now on.
    pub fn begin_scan(&mut self) -> (epoch_id: usize)
        requires
            old(self).epoch() < usize::MAX,
        ensures
            final(self).epoch() == old(self).epoch() + 1,
            final(self).emitted() == old(self).emitted(),
            epoch_id == final(self).epoch(),
    {
        self.task_count = self.task_count + 1;
        self.task_count
    }

    /// Whether `epoch_id` is the epoch of the current scan.
    pub fn is_current(&self, epoch_id: usize) -> (current: bool)
        ensures
            current == (epoch_id == self.epoch()),
    {
        epoch_id == self.task_count
    }

    /// Starts a scan of a directory whose listing gave `listing`, or `None`
    /// where the directory could not be listed.
    ///
    /// A new epoch begins in either case, so that the workers of earlier
    /// scans fall silent. An unreadable directory is an error, and nothing
    /// is emitted or awaited for it. Otherwise the result is [`scan_plan`]
    /// of the new epoch and the children, and its events are put on the
    /// result stream, in order, as far as the stream takes them.
    pub fn do_children(&mut self, listing: Option<&Vec<ChildEntry>>) -> (started: Result<
        ScanPlan,
        ScanError,
    >)
        requires
            old(self).epoch() < usize::MAX,
        ensures
            final(self).epoch() == old(self).epoch() + 1,
            match listing {
                None => started == Err::<ScanPlan, ScanError>(ScanError::RootUnreadable)
                    && final(self).emitted() == old(self).emitted(),
                Some(kids) => {
                    &&& started matches Ok(plan)
                    &&& plan@ == scan_plan(final(self).epoch(), children_view(kids@))
                    &&& plan.events@.len() == plan@.events.len()
                    &&& plan.dirs@.len() == plan@.dirs.len()
                    &&& plan.delivered <= plan.events@.len()
                    &&& final(self).emitted() == old(self).emitted() + plan@.events.take(
                        plan.delivered as int,
                    )
                },
            },
    {
        let epoch = self.begin_scan();
        let kids = match listing {
            None => { return Err(ScanError::RootUnreadable); },
            Some(kids) => kids,
        };
        let excluded = String::from_str("/proc");
        let mut events: Vec<ComputationEvent> = Vec::new();
        let mut dirs: Vec<String> = Vec::new();
        let ghost all = children_view(kids@);
        let mut i: usize = 0;
        while i < kids.len()
            invariant
                i <= kids.len(),
                all == children_view(kids@),
                excluded@ == excluded_path(),
                event_records(events@) == file_events(all.take(i as int)),
                path_views(dirs@) == worker_dirs(all.take(i as int)),
            decreases kids.len() - i,
        {
            let kid = &kids[i];
            proof {
                assert(all.take(i + 1).drop_last() =~= all.take(i as int));
            }
            if !(kid.path == excluded) {
                match kid.stat {
                    Some(s) => {
                        if s.is_file() {
                            let info = FileInfo::file(kid.path.clone(), s.len);
                            events.push(ComputationEvent::FileInfo(info));
                        } else if s.is_dir() {
                            dirs.push(kid.path.clone());
                        }
                    },
                    None => {},
                }
            }
            i = i + 1;
        }
        proof {
            assert(all.take(i as int) =~= all);
        }
        if dirs.len() == 0 {
            let ghost shown = event_records(events@);
            events.push(ComputationEvent::Finished);
            proof {
                assert(event_records(events@) =~= shown.push(EventRecord::Finished));
            }
        }
        let outstanding = dirs.len();
        let delivered = self.publisher.publish(&events);
        Ok(ScanPlan { batch: ScanBatch { epoch, outstanding }, events, dirs, delivered })
    }
}

} // verus!
