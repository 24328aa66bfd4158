//! Aggregate records and the accounting of one subtree.

use std::collections::HashSet;
use vstd::prelude::*;
use vstd::std_specs::hash::group_hash_axioms;
use vstd::string::StringExecFns;

verus! {

/// What kind of thing a directory entry is, as its metadata reports it.
#[derive(Clone, Copy, Debug, PartialEq, Eq, Structural)]
pub enum EntryKind {
    /// A plain file.
    File,
    /// A directory.
    Dir,
    /// Anything else: a symbolic link, a socket, a device.
    Other,
}

/// The metadata of one directory entry, as plain values.
#[derive(Clone, Copy, Debug, PartialEq, Eq, Structural)]
pub struct EntryStat {
    pub kind: EntryKind,
    /// Number of hard links to the entry.
    pub links: u64,
    /// Inode number, local to the device that holds the entry.
    pub inode: u64,
    /// Size in bytes.
    pub len: u64,
}

/// One entry as a walk meets it: its metadata, or `None` where the entry
/// could not be stat-ed.
pub type Met = Option<EntryStat>;

/// The aggregate of one file or of one directory subtree.
#[derive(Clone, Debug, PartialEq, Eq)]
pub struct FileInfo {
    pub path: String,
    /// The entry itself plus every entry below it; 1 for a plain file.
    pub file_count: u64,
    /// Aggregate size in bytes.
    pub size: u64,
    pub is_dir: bool,
}

/// The mathematical content of a [`FileInfo`].
pub struct FileRecord {
    pub path: Seq<char>,
    pub file_count: nat,
    pub size: nat,
    pub is_dir: bool,
}

impl View for FileInfo {
    type V = FileRecord;

    open spec fn view(&self) -> FileRecord {
        FileRecord {
            path: self.path@,
            file_count: self.file_count as nat,
            size: self.size as nat,
            is_dir: self.is_dir,
        }
    }
}

/// A snapshot of one directory entry and of what lies below it.
#[derive(Debug, PartialEq, Eq)]
pub struct Entry {
    pub path: String,
    /// The entry's metadata, or `None` where it could not be stat-ed.
    pub stat: Met,
    /// What listing the entry gave: empty for anything but a directory, and
    /// for a directory that could not be read.
    pub children: Vec<Entry>,
}

/// The mathematical content of an [`Entry`].
pub struct Node {
    pub path: Seq<char>,
    pub stat: Met,
    pub children: Seq<Node>,
}

/// The content of an entry: its own values and the content of its children.
pub open spec fn node_of(entry: Entry) -> Node
    decreases entry,
{
    Node {
        path: entry.path@,
        stat: entry.stat,
        children: Seq::new(
            entry.children.len() as nat,
            |i: int|
                if 0 <= i < entry.children.len() {
                    node_of(entry.children[i])
                } else {
                    arbitrary()
                },
        ),
    }
}

impl View for Entry {
    type V = Node;

    open spec fn view(&self) -> Node {
        node_of(*self)
    }
}

/// The mathematical content of a listing.
pub open spec fn listing_view(listing: &Vec<Entry>) -> Seq<Node> {
    Seq::new(listing.len() as nat, |i: int| listing[i]@)
}

/// The mathematical content of a stack of listings.
pub open spec fn stack_view(stack: Seq<&Vec<Entry>>) -> Seq<Seq<Node>> {
    Seq::new(stack.len(), |i: int| listing_view(stack[i]))
}

/// The listing below an entry is the content of its `children`.
pub proof fn lemma_entry_children(entry: &Entry)
    ensures
        entry@.children == listing_view(&entry.children),
{
}

/// The entry could be stat-ed and is a directory.
pub open spec fn is_dir_entry(e: Met) -> bool {
    e matches Some(s) && s.kind == EntryKind::Dir
}

/// The entry is subject to de-duplication: it could be stat-ed, is not a
/// directory, and has more than one hard link.
pub open spec fn is_linked(e: Met) -> bool {
    e matches Some(s) && s.kind != EntryKind::Dir && s.links > 1
}

/// Entry `i` is a multiply-linked file whose inode an earlier multiply-linked
/// entry of the same walk already named.
pub open spec fn is_repeat(entries: Seq<Met>, i: int) -> bool {
    is_linked(entries[i]) && exists|j: int|
        0 <= j < i && #[trigger] is_linked(entries[j]) && entries[j]->0.inode
            == entries[i]->0.inode
}

/// The bytes that entry `i` adds to the aggregate of its walk: nothing where
/// it could not be stat-ed or repeats an inode, its length otherwise.
pub open spec fn contribution(entries: Seq<Met>, i: int) -> nat {
    match entries[i] {
        None => 0,
        Some(s) => if is_repeat(entries, i) {
            0
        } else {
            s.len as nat
        },
    }
}

/// The aggregate size of a walk that met `entries`, in this order.
pub open spec fn walk_size(entries: Seq<Met>) -> nat
    decreases entries.len(),
{
    if entries.len() == 0 {
        0
    } else {
        walk_size(entries.drop_last()) + contribution(entries, entries.len() - 1)
    }
}

/// The aggregate entry count of a walk that met `entries`: the root itself
/// and one for each entry, stat-ed or not.
pub open spec fn walk_count(entries: Seq<Met>) -> nat {
    1 + entries.len()
}

/// The inodes of the multiply-linked files among `entries`.
pub open spec fn linked_inodes(entries: Seq<Met>) -> Set<u64> {
    Set::new(
        |ino: u64|
            exists|j: int|
                0 <= j < entries.len() && #[trigger] is_linked(entries[j]) && entries[j]->0.inode
                    == ino,
    )
}

/// What an entry adds depends only on the entries before it.
pub proof fn lemma_contribution_prefix(entries: Seq<Met>, n: int, i: int)
    requires
        0 <= i < n <= entries.len(),
    ensures
        contribution(entries.take(n), i) == contribution(entries, i),
{
    let p = entries.take(n);
    if is_repeat(entries, i) {
        let j = choose|j: int|
            0 <= j < i && #[trigger] is_linked(entries[j]) && entries[j]->0.inode
                == entries[i]->0.inode;
        assert(is_linked(p[j]));
    }
    if is_repeat(p, i) {
        let j = choose|j: int|
            0 <= j < i && #[trigger] is_linked(p[j]) && p[j]->0.inode == p[i]->0.inode;
        assert(is_linked(entries[j]));
    }
}

/// Meeting one more entry adds exactly that entry's contribution.
pub proof fn lemma_walk_size_step(entries: Seq<Met>, n: int)
    requires
        0 <= n < entries.len(),
    ensures
        walk_size(entries.take(n + 1)) == walk_size(entries.take(n)) + contribution(entries, n),
{
    let p = entries.take(n + 1);
    assert(p.drop_last() =~= entries.take(n));
    lemma_contribution_prefix(entries, n + 1, n);
}

/// The aggregate size never shrinks as a walk goes on.
pub proof fn lemma_walk_size_monotone(entries: Seq<Met>, n: int)
    requires
        0 <= n <= entries.len(),
    ensures
        walk_size(entries.take(n)) <= walk_size(entries),
    decreases entries.len() - n,
{
    if n == entries.len() {
        assert(entries.take(n) =~= entries);
    } else {
        lemma_walk_size_step(entries, n);
        lemma_walk_size_monotone(entries, n + 1);
    }
}

/// The metadata of the entries of one listing, in listing order.
pub open spec fn stats(listing: Seq<Node>) -> Seq<Met> {
    Seq::new(listing.len(), |i: int| listing[i].stat)
}

/// The listings of the directories among `listing`, in listing order.
pub open spec fn subdirs(listing: Seq<Node>) -> Seq<Seq<Node>>
    decreases listing.len(),
{
    if listing.len() == 0 {
        Seq::empty()
    } else if is_dir_entry(listing.last().stat) {
        subdirs(listing.drop_last()).push(listing.last().children)
    } else {
        subdirs(listing.drop_last())
    }
}

/// What a walk meets below the directories of `listing`. The directory found
/// last is listed first, and everything below it is met before the walk
/// returns to the directories found earlier.
pub open spec fn below(listing: Seq<Node>) -> Seq<Met>
    decreases listing,
{
    if listing.len() == 0 {
        Seq::empty()
    } else {
        let last = listing.last();
        let under_last = if is_dir_entry(last.stat) {
            stats(last.children) + below(last.children)
        } else {
            Seq::empty()
        };
        under_last + below(listing.drop_last())
    }
}

/// Every entry that the walk of a directory meets, in the order it meets
/// them: the directory's own listing first, then what lies below.
pub open spec fn walk_entries(listing: Seq<Node>) -> Seq<Met> {
    stats(listing) + below(listing)
}

/// The aggregate record of the directory at `path` whose listing is
/// `listing`: the directory itself and every entry that its walk meets.
pub open spec fn dir_record(path: Seq<char>, listing: Seq<Node>) -> FileRecord {
    FileRecord {
        path,
        file_count: walk_count(walk_entries(listing)),
        size: walk_size(walk_entries(listing)),
        is_dir: true,
    }
}

/// What a walk still has to meet when `stack` holds the listings that it has
/// found and not yet gone through; the last one is next.
pub open spec fn pending_walk(stack: Seq<Seq<Node>>) -> Seq<Met>
    decreases stack.len(),
{
    if stack.len() == 0 {
        Seq::empty()
    } else {
        walk_entries(stack.last()) + pending_walk(stack.drop_last())
    }
}

/// A listing holds at most as many directories as entries.
pub proof fn lemma_subdirs_len(listing: Seq<Node>)
    ensures
        subdirs(listing).len() <= listing.len(),
    decreases listing.len(),
{
    if listing.len() > 0 {
        lemma_subdirs_len(listing.drop_last());
    }
}

/// Going through one more entry of a listing.
pub proof fn lemma_listing_step(listing: Seq<Node>, k: int)
    requires
        0 <= k < listing.len(),
    ensures
        stats(listing.take(k + 1)) == stats(listing.take(k)).push(listing[k].stat),
        subdirs(listing.take(k + 1)) == if is_dir_entry(listing[k].stat) {
            subdirs(listing.take(k)).push(listing[k].children)
        } else {
            subdirs(listing.take(k))
        },
{
    assert(listing.take(k + 1).drop_last() =~= listing.take(k));
}

/// Once a listing has been gone through, what lies below it is met before
/// anything that was on the stack already.
pub proof fn lemma_pending_walk_subdirs(rest: Seq<Seq<Node>>, listing: Seq<Node>)
    ensures
        pending_walk(rest + subdirs(listing)) == below(listing) + pending_walk(rest),
    decreases listing.len(),
{
    if listing.len() > 0 {
        let front = listing.drop_last();
        lemma_pending_walk_subdirs(rest, front);
        if is_dir_entry(listing.last().stat) {
            assert((rest + subdirs(listing)).drop_last() =~= rest + subdirs(front));
        }
    }
}

/// A walk that has met `head` and will go on to meet `tail` has, so far,
/// counted no more than the whole walk will.
pub proof fn lemma_walk_size_prefix(head: Seq<Met>, tail: Seq<Met>)
    ensures
        walk_size(head) <= walk_size(head + tail),
        walk_count(head) <= walk_count(head + tail),
{
    assert((head + tail).take(head.len() as int) =~= head);
    lemma_walk_size_monotone(head + tail, head.len() as int);
}

/// The inodes met so far, after one more entry.
pub proof fn lemma_linked_inodes_push(entries: Seq<Met>, e: Met)
    ensures
        linked_inodes(entries.push(e)) == if is_linked(e) {
            linked_inodes(entries).insert(e->0.inode)
        } else {
            linked_inodes(entries)
        },
        is_repeat(entries.push(e), entries.len() as int) <==> is_linked(e) && linked_inodes(
            entries,
        ).contains(e->0.inode),
{
    let grown = entries.push(e);
    let n = entries.len() as int;
    let expected = if is_linked(e) {
        linked_inodes(entries).insert(e->0.inode)
    } else {
        linked_inodes(entries)
    };
    assert forall|ino: u64| linked_inodes(grown).contains(ino) implies expected.contains(ino) by {
        let j = choose|j: int|
            0 <= j < grown.len() && #[trigger] is_linked(grown[j]) && grown[j]->0.inode == ino;
        if j < n {
            assert(is_linked(entries[j]));
        }
    }
    assert forall|ino: u64| expected.contains(ino) implies linked_inodes(grown).contains(ino) by {
        if linked_inodes(entries).contains(ino) {
            let j = choose|j: int|
                0 <= j < entries.len() && #[trigger] is_linked(entries[j]) && entries[j]->0.inode
                    == ino;
            assert(is_linked(grown[j]));
        } else {
            assert(is_linked(grown[n]));
        }
    }
    assert(linked_inodes(grown) =~= expected);
    if is_repeat(grown, n) {
        let j = choose|j: int|
            0 <= j < n && #[trigger] is_linked(grown[j]) && grown[j]->0.inode == grown[n]->0.inode;
        assert(is_linked(entries[j]));
    }
    if is_linked(e) && linked_inodes(entries).contains(e->0.inode) {
        let j = choose|j: int|
            0 <= j < entries.len() && #[trigger] is_linked(entries[j]) && entries[j]->0.inode
                == e->0.inode;
        assert(is_linked(grown[j]));
    }
}

/// Hard links are counted once. Of two entries of one walk that name the same
/// inode with more than one link, the later one adds nothing to the size; the
/// first entry to name an inode adds its whole length; and every entry adds
/// one to the count, whether it repeats an inode or not.
pub proof fn hard_link_counted_once(entries: Seq<Met>, i: int, j: int)
    requires
        0 <= i < j < entries.len(),
        is_linked(entries[i]),
        is_linked(entries[j]),
        entries[i]->0.inode == entries[j]->0.inode,
    ensures
        contribution(entries, j) == 0,
        !is_repeat(entries, i) ==> contribution(entries, i) == entries[i]->0.len,
        walk_size(entries.take(j + 1)) == walk_size(entries.take(j)),
        walk_count(entries.take(j + 1)) == walk_count(entries.take(j)) + 1,
        walk_count(entries) == 1 + entries.len(),
{
    lemma_walk_size_step(entries, j);
}

impl EntryStat {
    /// Whether the entry is a directory.
    pub fn is_dir(&self) -> (b: bool)
        ensures
            b == (self.kind == EntryKind::Dir),
    {
        match self.kind {
            EntryKind::Dir => true,
            _ => false,
        }
    }

    /// Whether the entry is a plain file.
    pub fn is_file(&self) -> (b: bool)
        ensures
            b == (self.kind == EntryKind::File),
    {
        match self.kind {
            EntryKind::File => true,
            _ => false,
        }
    }
}

/// The running account of one walk: an explicit stack of the directories
/// still to be listed, the multiply-linked inodes already counted, and the
/// totals so far.
///
/// The caller does the listing. It takes a directory from
/// [`DirWalk::next_dir`], reads it, and reports each entry to
/// [`DirWalk::visit`]; when no directory is left, [`DirWalk::finish`] gives
/// the aggregate.
pub struct DirWalk {
    root: String,
    pending: Vec<String>,
    seen: HashSet<u64>,
    file_count: u64,
    size: u64,
    met: Ghost<Seq<Met>>,
}

impl DirWalk {
    /// The totals and the inode set agree with the entries met so far.
    pub closed spec fn wf(&self) -> bool {
        &&& self.seen@ == linked_inodes(self.met@)
        &&& self.file_count == walk_count(self.met@)
        &&& self.size == walk_size(self.met@)
    }

    /// The entries met so far, in the order they were reported.
    pub closed spec fn met(&self) -> Seq<Met> {
        self.met@
    }

    /// The directory the walk started from.
    pub closed spec fn root(&self) -> Seq<char> {
        self.root@
    }

    /// The directories still to be listed; the last one is listed next.
    pub closed spec fn pending(&self) -> Seq<Seq<char>> {
        Seq::new(self.pending@.len(), |i: int| self.pending@[i]@)
    }

    /// One more entry can be counted without leaving the range of `u64`.
    pub open spec fn fits(&self, stat: Met) -> bool {
        &&& walk_count(self.met().push(stat)) <= u64::MAX
        &&& walk_size(self.met().push(stat)) <= u64::MAX
    }

    /// Starts a walk at `path`: nothing met yet, `path` itself to be listed.
    pub fn new(path: String) -> (walk: DirWalk)
        ensures
            walk.wf(),
            walk.root() == path@,
            walk.met() == Seq::<Met>::empty(),
            walk.pending() == seq![path@],
    {
        let mut pending: Vec<String> = Vec::new();
        pending.push(path.clone());
        let walk = DirWalk {
            root: path,
            pending,
            seen: HashSet::new(),
            file_count: 1,
            size: 0,
            met: Ghost(Seq::empty()),
        };
        proof {
            assert(walk.seen@ =~= linked_inodes(walk.met@));
        }
        walk
    }

    /// Takes the directory that is to be listed next, the one most recently
    /// found; `None` when the walk is over.
    pub fn next_dir(&mut self) -> (dir: Option<String>)
        requires
            old(self).wf(),
        ensures
            final(self).wf(),
            final(self).root() == old(self).root(),
            final(self).met() == old(self).met(),
            match dir {
                Some(d) => old(self).pending().len() > 0 && d@ == old(self).pending().last()
                    && final(self).pending() == old(self).pending().drop_last(),
                None => old(self).pending().len() == 0 && final(self).pending() == old(
                    self,
                ).pending(),
            },
    {
        self.pending.pop()
    }

    /// Entries counted so far, the root included.
    pub fn file_count(&self) -> (n: u64)
        requires
            self.wf(),
        ensures
            n == walk_count(self.met()),
    {
        self.file_count
    }

    /// Bytes counted so far.
    pub fn size(&self) -> (n: u64)
        requires
            self.wf(),
        ensures
            n == walk_size(self.met()),
    {
        self.size
    }

    /// Whether [`DirWalk::visit`] may be called with `stat`.
    pub fn can_visit(&self, stat: &Met) -> (ok: bool)
        requires
            self.wf(),
        ensures
            ok == self.fits(*stat),
    {
        broadcast use group_hash_axioms;

        proof {
            lemma_linked_inodes_push(self.met@, *stat);
            assert(self.met@.push(*stat).drop_last() =~= self.met@);
        }
        if self.file_count == u64::MAX {
            return false;
        }
        match stat {
            None => true,
            Some(s) => {
                if !s.is_dir() && s.links > 1 && self.seen.contains(&s.inode) {
                    true
                } else {
                    s.len <= u64::MAX - self.size
                }
            },
        }
    }

    /// Counts one entry and, for a multiply-linked file, remembers its inode.
    fn tally(&mut self, stat: Met)
        requires
            old(self).wf(),
            old(self).fits(stat),
        ensures
            final(self).wf(),
            final(self).met() == old(self).met().push(stat),
            final(self).root == old(self).root,
            final(self).pending == old(self).pending,
    {
        broadcast use group_hash_axioms;

        proof {
            lemma_linked_inodes_push(self.met@, stat);
            assert(self.met@.push(stat).drop_last() =~= self.met@);
        }
        self.file_count = self.file_count + 1;
        match stat {
            None => {},
            Some(s) => {
                let mut first = true;
                if !s.is_dir() && s.links > 1 {
                    first = self.seen.insert(s.inode);
                }
                if first {
                    self.size = self.size + s.len;
                }
            },
        }
        proof {
            self.met@ = self.met@.push(stat);
        }
    }

    /// Reports one entry of the directory that [`DirWalk::next_dir`] gave
    /// last.
    ///
    /// The entry is counted whether or not it could be stat-ed. A directory
    /// is put on the stack to be listed later. A multiply-linked file whose
    /// inode the walk has met before adds nothing to the size; everything
    /// else that could be stat-ed adds its length.
    pub fn visit(&mut self, path: &str, stat: Met)
        requires
            old(self).wf(),
            old(self).fits(stat),
        ensures
            final(self).wf(),
            final(self).root() == old(self).root(),
            final(self).met() == old(self).met().push(stat),
            final(self).pending() == if stat matches Some(s) && s.kind == EntryKind::Dir {
                old(self).pending().push(path@)
            } else {
                old(self).pending()
            },
    {
        self.tally(stat);
        let descend = match stat {
            Some(s) => s.is_dir(),
            None => false,
        };
        if descend {
            self.pending.push(String::from_str(path));
        }
    }

    /// Ends the walk and gives the aggregate of everything met.
    pub fn finish(self) -> (info: FileInfo)
        requires
            self.wf(),
        ensures
            info@ == (FileRecord {
                path: self.root(),
                file_count: walk_count(self.met()),
                size: walk_size(self.met()),
                is_dir: true,
            }),
    {
        FileInfo { path: self.root, file_count: self.file_count, size: self.size, is_dir: true }
    }
}

impl FileInfo {
    /// The record of a plain file of `len` bytes.
    pub fn file(path: String, len: u64) -> (info: FileInfo)
        ensures
            info@ == (FileRecord { path: path@, file_count: 1, size: len as nat, is_dir: false }),
    {
        FileInfo { path, file_count: 1, size: len, is_dir: false }
    }

    /// The aggregate of the subtree at `path`, whose listing is `listing`.
    ///
    /// The walk keeps an explicit stack of the directories it has found and
    /// lists the one found last. Every entry below `path` counts as one,
    /// stat-ed or not, and `path` itself as one more; the size is
    /// [`walk_size`] of the entries in the order the walk meets them, which
    /// counts a multiply-linked inode once.
    pub fn from_dir(path: String, listing: &Vec<Entry>) -> (info: FileInfo)
        requires
            walk_count(walk_entries(listing_view(listing))) <= u64::MAX,
            walk_size(walk_entries(listing_view(listing))) <= u64::MAX,
        ensures
            info@ == dir_record(path@, listing_view(listing)),
    {
        let ghost all = walk_entries(listing_view(listing));
        let mut walk = DirWalk::new(path);
        let mut stack: Vec<&Vec<Entry>> = Vec::new();
        stack.push(listing);
        proof {
            let s = stack_view(stack@);
            assert(pending_walk(s.drop_last()) =~= Seq::<Met>::empty());
        }
        while stack.len() > 0
            invariant
                walk.wf(),
                walk.root() == path@,
                stack.len() == walk.pending().len(),
                walk.met() + pending_walk(stack_view(stack@)) == all,
                walk_count(all) <= u64::MAX,
                walk_size(all) <= u64::MAX,
            decreases 2 * (all.len() - walk.met().len()) + stack.len(),
        {
            let ghost before = stack_view(stack@);
            let _dir = walk.next_dir();
            let entries = stack.pop().unwrap();
            let ghost met0 = walk.met();
            let ghost rest = stack_view(stack@);
            let ghost here = listing_view(entries);
            proof {
                assert(before.drop_last() =~= rest);
            }
            let mut k: usize = 0;
            while k < entries.len()
                invariant
                    k <= entries.len(),
                    here == listing_view(entries),
                    walk.wf(),
                    walk.root() == path@,
                    stack.len() == walk.pending().len(),
                    walk.met() == met0 + stats(here.take(k as int)),
                    stack_view(stack@) == rest + subdirs(here.take(k as int)),
                    met0 + (stats(here) + below(here) + pending_walk(rest)) == all,
                    walk_count(all) <= u64::MAX,
                    walk_size(all) <= u64::MAX,
                decreases entries.len() - k,
            {
                let entry = &entries[k];
                proof {
                    lemma_listing_step(here, k as int);
                    let next = walk.met().push(entry.stat);
                    let tail = stats(here.skip(k + 1)) + below(here) + pending_walk(rest);
                    assert(next + tail =~= all);
                    lemma_walk_size_prefix(next, tail);
                }
                walk.visit(entry.path.as_str(), entry.stat);
                let descend = match entry.stat {
                    Some(s) => s.is_dir(),
                    None => false,
                };
                if descend {
                    let ghost shown = stack_view(stack@);
                    stack.push(&entry.children);
                    proof {
                        lemma_entry_children(entry);
                        assert(stack_view(stack@) =~= shown.push(here[k as int].children));
                    }
                }
                k = k + 1;
            }
            proof {
                assert(here.take(k as int) =~= here);
                lemma_pending_walk_subdirs(rest, here);
                lemma_subdirs_len(here);
            }
        }
        walk.finish()
    }
}

} // verus!
