//! The records of a completed scan add up to the direct accounting of the
//! scanned directory.

use crate::computer::{
    emits_file, file_events, is_excluded, scan_plan, spawns_worker, worker_step, Child,
    EventRecord, ScanBatch,
};
use crate::file_info::{
    below, dir_record, is_dir_entry, is_linked, is_repeat, lemma_walk_size_step, linked_inodes,
    stats, walk_entries, walk_size, EntryKind, FileRecord, Met, Node,
};
use crate::stream::{all_fresh, lemma_fresh_front, run, scan_stream, Completion};
use vstd::prelude::*;
use vstd::seq_lib::lemma_fold_left_permutation;

verus! {

/// The size that an event carries: that of its record, nothing for the
/// marker.
pub open spec fn event_size(event: EventRecord) -> nat {
    match event {
        EventRecord::FileInfo(record) => record.size,
        EventRecord::Finished => 0,
    }
}

/// The sum of the sizes of the records of a stream.
pub open spec fn stream_size(stream: Seq<EventRecord>) -> nat
    decreases stream.len(),
{
    if stream.len() == 0 {
        0
    } else {
        stream_size(stream.drop_last()) + event_size(stream.last())
    }
}

/// Adds the size of a record to a sum.
pub open spec fn add_size() -> spec_fn(nat, FileRecord) -> nat {
    |sum: nat, record: FileRecord| sum + record.size
}

/// The sum of the sizes of some records.
pub open spec fn sizes_sum(records: Seq<FileRecord>) -> nat {
    records.fold_left(0nat, add_size())
}

/// A child of a listing, as the scan of its directory sees it.
pub open spec fn child_of(node: Node) -> Child {
    Child { path: node.path, stat: node.stat }
}

/// The children of a listing, as the scan of its directory sees them.
pub open spec fn children_of(listing: Seq<Node>) -> Seq<Child> {
    Seq::new(listing.len(), |i: int| child_of(listing[i]))
}

/// The aggregates that the workers of a scan of `listing` compute, in the
/// order in which the scan starts them.
pub open spec fn worker_records(listing: Seq<Node>) -> Seq<FileRecord>
    decreases listing.len(),
{
    if listing.len() == 0 {
        Seq::empty()
    } else if spawns_worker(child_of(listing.last())) {
        worker_records(listing.drop_last()).push(
            dir_record(listing.last().path, listing.last().children),
        )
    } else {
        worker_records(listing.drop_last())
    }
}

/// The aggregates that the workers of `done` reported, in the order in
/// which they were done.
pub open spec fn records_of(done: Seq<Completion>) -> Seq<FileRecord> {
    Seq::new(done.len(), |k: int| done[k].record)
}

/// The multiply-linked inodes that a walk meets below one child.
pub open spec fn links_below(node: Node) -> Set<u64> {
    if is_dir_entry(node.stat) {
        linked_inodes(walk_entries(node.children))
    } else {
        Set::empty()
    }
}

/// No multiply-linked inode is met below two children of `listing`, nor
/// below one child and in the listing itself.
pub open spec fn links_are_separate(listing: Seq<Node>) -> bool {
    &&& forall|i: int|
        0 <= i < listing.len() ==> (#[trigger] links_below(listing[i])).disjoint(
            linked_inodes(stats(listing)),
        )
    &&& forall|i: int, j: int|
        0 <= i < j < listing.len() ==> (#[trigger] links_below(listing[i])).disjoint(
            #[trigger] links_below(listing[j]),
        )
}

/// Every child that could be stat-ed and is not a plain file has no length
/// of its own.
pub open spec fn only_files_have_length(listing: Seq<Node>) -> bool {
    forall|i: int|
        0 <= i < listing.len() ==> ((#[trigger] listing[i]).stat matches Some(s) ==> s.kind
            == EntryKind::File || s.len == 0)
}

/// The listing does not hold the excluded path.
pub open spec fn nothing_excluded(listing: Seq<Node>) -> bool {
    forall|i: int| 0 <= i < listing.len() ==> !is_excluded(child_of(#[trigger] listing[i]))
}

/// No multiply-linked inode occurs twice in the listing itself.
pub open spec fn no_repeat_at_top(listing: Seq<Node>) -> bool {
    forall|i: int| 0 <= i < listing.len() ==> !#[trigger] is_repeat(stats(listing), i)
}

/// The size of a stream is the sum of the sizes of its parts.
pub proof fn lemma_stream_size_concat(head: Seq<EventRecord>, tail: Seq<EventRecord>)
    ensures
        stream_size(head + tail) == stream_size(head) + stream_size(tail),
    decreases tail.len(),
{
    if tail.len() > 0 {
        lemma_stream_size_concat(head, tail.drop_last());
        assert((head + tail).drop_last() =~= head + tail.drop_last());
    }
}

/// The multiply-linked inodes of two parts of a walk are those of either.
pub proof fn lemma_linked_inodes_concat(head: Seq<Met>, tail: Seq<Met>)
    ensures
        linked_inodes(head + tail) == linked_inodes(head).union(linked_inodes(tail)),
{
    let whole = head + tail;
    let both = linked_inodes(head).union(linked_inodes(tail));
    assert forall|ino: u64| linked_inodes(whole).contains(ino) implies both.contains(ino) by {
        let j = choose|j: int|
            0 <= j < whole.len() && #[trigger] is_linked(whole[j]) && whole[j]->0.inode == ino;
        assert(j < head.len() ==> is_linked(head[j]));
        assert(j >= head.len() ==> is_linked(tail[j - head.len()]));
    }
    assert forall|ino: u64| both.contains(ino) implies linked_inodes(whole).contains(ino) by {
        if linked_inodes(head).contains(ino) {
            let j = choose|j: int|
                0 <= j < head.len() && #[trigger] is_linked(head[j]) && head[j]->0.inode == ino;
            assert(is_linked(whole[j]));
        } else {
            let j = choose|j: int|
                0 <= j < tail.len() && #[trigger] is_linked(tail[j]) && tail[j]->0.inode == ino;
            assert(is_linked(whole[j + head.len()]));
        }
    }
}

/// Two parts of a walk that share no multiply-linked inode add up: the
/// second part is sized as if it were a walk of its own.
pub proof fn lemma_walk_size_concat(head: Seq<Met>, tail: Seq<Met>)
    requires
        linked_inodes(head).disjoint(linked_inodes(tail)),
    ensures
        walk_size(head + tail) == walk_size(head) + walk_size(tail),
    decreases tail.len(),
{
    let whole = head + tail;
    if tail.len() > 0 {
        let front = tail.drop_last();
        let m = tail.len() - 1;
        let n = whole.len() - 1;
        assert(whole.drop_last() =~= head + front);
        assert(linked_inodes(head).disjoint(linked_inodes(front))) by {
            assert forall|ino: u64|
                !(linked_inodes(head).contains(ino) && linked_inodes(front).contains(ino)) by {
                if linked_inodes(front).contains(ino) {
                    let j = choose|j: int|
                        0 <= j < front.len() && #[trigger] is_linked(front[j]) && front[j]->0.inode
                            == ino;
                    assert(is_linked(tail[j]));
                }
            }
        }
        lemma_walk_size_concat(head, front);
        if is_repeat(tail, m) {
            let j = choose|j: int|
                0 <= j < m && #[trigger] is_linked(tail[j]) && tail[j]->0.inode
                    == tail[m]->0.inode;
            assert(is_linked(whole[j + head.len()]));
        }
        if is_repeat(whole, n) {
            let j = choose|j: int|
                0 <= j < n && #[trigger] is_linked(whole[j]) && whole[j]->0.inode
                    == whole[n]->0.inode;
            if j < head.len() {
                // The inode would be met in both parts.
                assert(linked_inodes(head).contains(head[j]->0.inode));
                assert(linked_inodes(tail).contains(tail[m]->0.inode));
            } else {
                assert(is_linked(tail[j - head.len()]));
            }
        }
    }
}

/// The lengths of the plain files of a listing, added up.
pub open spec fn files_total(listing: Seq<Node>) -> nat
    decreases listing.len(),
{
    if listing.len() == 0 {
        0
    } else {
        files_total(listing.drop_last()) + if emits_file(child_of(listing.last())) {
            listing.last().stat->0.len as nat
        } else {
            0
        }
    }
}

/// What the scan of a listing emits at once carries the lengths of its
/// plain files.
pub proof fn lemma_file_events_size(listing: Seq<Node>)
    ensures
        stream_size(file_events(children_of(listing))) == files_total(listing),
    decreases listing.len(),
{
    let kids = children_of(listing);
    if listing.len() > 0 {
        lemma_file_events_size(listing.drop_last());
        assert(kids.drop_last() =~= children_of(listing.drop_last()));
        if emits_file(kids.last()) {
            let grown = file_events(kids);
            assert(grown.drop_last() =~= file_events(kids.drop_last()));
        }
    }
}

/// A walk of the listing alone, where nothing is excluded, nothing but
/// plain files has a length and no inode repeats, is sized as the scan's
/// file records are.
pub proof fn lemma_listing_size(listing: Seq<Node>, n: int)
    requires
        0 <= n <= listing.len(),
        nothing_excluded(listing),
        only_files_have_length(listing),
        no_repeat_at_top(listing),
    ensures
        walk_size(stats(listing).take(n)) == files_total(listing.take(n)),
    decreases n,
{
    if n > 0 {
        lemma_listing_size(listing, n - 1);
        lemma_walk_size_step(stats(listing), n - 1);
        assert(listing.take(n).drop_last() =~= listing.take(n - 1));
    }
}

/// The sizes of the aggregates of the directories of a listing, added up.
pub open spec fn dirs_total(listing: Seq<Node>) -> nat
    decreases listing.len(),
{
    if listing.len() == 0 {
        0
    } else {
        dirs_total(listing.drop_last()) + if is_dir_entry(listing.last().stat) {
            walk_size(walk_entries(listing.last().children))
        } else {
            0
        }
    }
}

/// A walk that meets nothing names no inode.
pub proof fn lemma_no_entries_no_links(entries: Seq<Met>)
    requires
        entries.len() == 0,
    ensures
        linked_inodes(entries) == Set::<u64>::empty(),
{
    assert(linked_inodes(entries) =~= Set::<u64>::empty());
}

/// What a walk meets below a listing whose children share no
/// multiply-linked inode is sized as the children's own walks are, and
/// names no inode that none of them names.
pub proof fn lemma_below_size(listing: Seq<Node>)
    requires
        forall|i: int, j: int|
            0 <= i < j < listing.len() ==> (#[trigger] links_below(listing[i])).disjoint(
                #[trigger] links_below(listing[j]),
            ),
    ensures
        walk_size(below(listing)) == dirs_total(listing),
        forall|ino: u64|
            linked_inodes(below(listing)).contains(ino) ==> exists|i: int|
                0 <= i < listing.len() && (#[trigger] links_below(listing[i])).contains(ino),
    decreases listing.len(),
{
    if listing.len() == 0 {
        lemma_no_entries_no_links(below(listing));
    } else {
        let last = listing.last();
        let front = listing.drop_last();
        assert forall|i: int, j: int| 0 <= i < j < front.len() implies (#[trigger] links_below(
            front[i],
        )).disjoint(#[trigger] links_below(front[j])) by {
            assert(front[i] == listing[i] && front[j] == listing[j]);
        }
        lemma_below_size(front);
        let under_last = if is_dir_entry(last.stat) {
            walk_entries(last.children)
        } else {
            Seq::<Met>::empty()
        };
        assert(linked_inodes(under_last) == links_below(last)) by {
            if !is_dir_entry(last.stat) {
                lemma_no_entries_no_links(under_last);
            }
        }
        assert(linked_inodes(under_last).disjoint(linked_inodes(below(front)))) by {
            assert forall|ino: u64|
                !(linked_inodes(under_last).contains(ino) && linked_inodes(
                    below(front),
                ).contains(ino)) by {
                if linked_inodes(below(front)).contains(ino) {
                    let i = choose|i: int|
                        0 <= i < front.len() && (#[trigger] links_below(front[i])).contains(ino);
                    assert(links_below(listing[i]).disjoint(links_below(last)));
                }
            }
        }
        lemma_walk_size_concat(under_last, below(front));
        lemma_linked_inodes_concat(under_last, below(front));
        assert forall|ino: u64| linked_inodes(below(listing)).contains(ino) implies exists|i: int|
            0 <= i < listing.len() && (#[trigger] links_below(listing[i])).contains(ino) by {
            if linked_inodes(under_last).contains(ino) {
                assert(links_below(listing[listing.len() - 1]).contains(ino));
            } else {
                let i = choose|i: int|
                    0 <= i < front.len() && (#[trigger] links_below(front[i])).contains(ino);
                assert(links_below(listing[i]).contains(ino));
            }
        }
    }
}

/// Where nothing is excluded, the aggregates of the workers carry the sizes
/// of the directories' own walks.
pub proof fn lemma_worker_records_size(listing: Seq<Node>)
    requires
        nothing_excluded(listing),
    ensures
        sizes_sum(worker_records(listing)) == dirs_total(listing),
    decreases listing.len(),
{
    if listing.len() > 0 {
        let front = listing.drop_last();
        assert forall|i: int| 0 <= i < front.len() implies !is_excluded(
            child_of(#[trigger] front[i]),
        ) by {
            assert(front[i] == listing[i]);
        }
        lemma_worker_records_size(front);
        if spawns_worker(child_of(listing.last())) {
            let grown = worker_records(listing);
            assert(grown.drop_last() =~= worker_records(front));
        }
    }
}

/// What workers that all find their scan current publish carries the sizes
/// of their aggregates.
pub proof fn lemma_fresh_run_size(batch: ScanBatch, done: Seq<Completion>)
    requires
        all_fresh(batch, done),
    ensures
        run(batch, done).0.epoch == batch.epoch,
        stream_size(run(batch, done).1) == sizes_sum(records_of(done)),
    decreases done.len(),
{
    if done.len() > 0 {
        let front = done.drop_last();
        lemma_fresh_front(batch, done);
        lemma_fresh_run_size(batch, front);
        let earlier = run(batch, front);
        let step = worker_step(earlier.0, done.last().live_epoch, done.last().record);
        lemma_stream_size_concat(earlier.1, step.1);
        assert(stream_size(step.1) == done.last().record.size) by {
            let one = seq![EventRecord::FileInfo(done.last().record)];
            assert(stream_size(one.drop_last()) == 0);
            assert(stream_size(one) == done.last().record.size);
            assert(step.1.len() == 2 ==> step.1.drop_last() =~= one);
        }
        assert(records_of(done).drop_last() =~= records_of(front));
    }
}

/// The records of a completed scan add up to the direct accounting of the
/// scanned directory.
///
/// The scan is that of a directory whose listing is `listing`; it is never
/// superseded, and its workers are done in any order, each with the
/// aggregate of its own directory. Then the sizes of all the records on its
/// stream add up to the size that one walk of the whole directory counts.
///
/// This leaves out the listings on which the two differ by design: it holds
/// where the listing does not hold the excluded path, where nothing but
/// plain files has a length of its own in the listing (a walk counts the
/// length of a directory entry, a scan reports none for it), and where no
/// multiply-linked inode is met in two places that the scan accounts for
/// separately (a walk counts it once, the scan once in each place).
pub proof fn scan_total_matches_walk(epoch: usize, listing: Seq<Node>, done: Seq<Completion>)
    requires
        all_fresh(scan_plan(epoch, children_of(listing)).batch, done),
        records_of(done).to_multiset() == worker_records(listing).to_multiset(),
        nothing_excluded(listing),
        only_files_have_length(listing),
        no_repeat_at_top(listing),
        links_are_separate(listing),
    ensures
        stream_size(scan_stream(scan_plan(epoch, children_of(listing)), done)) == walk_size(
            walk_entries(listing),
        ),
{
    let kids = children_of(listing);
    let plan = scan_plan(epoch, kids);
    // What the scan emits at once.
    lemma_file_events_size(listing);
    assert(stream_size(plan.events) == files_total(listing)) by {
        let with_marker = file_events(kids).push(EventRecord::Finished);
        assert(with_marker.drop_last() =~= file_events(kids));
    }
    // What the workers publish.
    lemma_fresh_run_size(plan.batch, done);
    lemma_fold_left_permutation(records_of(done), worker_records(listing), add_size(), 0nat);
    lemma_worker_records_size(listing);
    lemma_stream_size_concat(plan.events, run(plan.batch, done).1);
    // What one walk of the whole counts.
    lemma_listing_size(listing, listing.len() as int);
    assert(stats(listing).take(listing.len() as int) =~= stats(listing));
    assert(listing.take(listing.len() as int) =~= listing);
    lemma_below_size(listing);
    assert(linked_inodes(stats(listing)).disjoint(linked_inodes(below(listing)))) by {
        assert forall|ino: u64|
            !(linked_inodes(stats(listing)).contains(ino) && linked_inodes(
                below(listing),
            ).contains(ino)) by {
            if linked_inodes(below(listing)).contains(ino) {
                let i = choose|i: int|
                    0 <= i < listing.len() && (#[trigger] links_below(listing[i])).contains(ino);
                assert(links_below(listing[i]).disjoint(linked_inodes(stats(listing))));
            }
        }
    }
    lemma_walk_size_concat(stats(listing), below(listing));
}

} // verus!
