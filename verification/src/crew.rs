//! A crew of workers that searches a file tree for a string.
//!
//! The crew's record is kept behind a lock by the embedding program, with a
//! signal "go" for new work and a signal "done" for the end of all work.
//! Looking at the file system is the caller's part: it hands in what it
//! found at a path, and the functions here decide what follows from it.

use vstd::prelude::*;
use vstd::utf8::encode_utf8;

verus! {

/// Workers of the crew.
pub const CREW_SIZE: usize = 4;

/// A path to look at, and the string to look for.
#[derive(Debug)]
pub struct WorkItem {
    pub path: String,
    pub search: String,
}

impl WorkItem {
    /// The item for the path `p` and the string `s`.
    pub fn new(p: String, s: String) -> (item: Self)
        ensures
            item.path == p,
            item.search == s,
    {
        WorkItem { path: p, search: s }
    }
}

/// What the crew's lock protects.
#[derive(Debug)]
pub struct Crew {
    /// Items that wait for a worker; the last one is taken first.
    pub work: Vec<WorkItem>,
    /// Items that wait or are being worked on.
    pub work_count: usize,
}

/// What a worker does once it has released the lock.
#[derive(Debug)]
pub enum CrewStep {
    /// Wait for the signal "go", then look for work again.
    Wait,
    /// Look at the item's path and work on what is found there.
    Process(WorkItem),
    /// Look for work again.
    Continue,
    /// Raise the signal "done" for everybody, and end.
    Finish,
}

impl Crew {
    /// A crew without work.
    pub fn new() -> (crew: Self)
        ensures
            crew.work@.len() == 0,
            crew.work_count == 0,
    {
        Crew { work: Vec::new(), work_count: 0 }
    }

    /// All work is done.
    pub fn finished(&self) -> (done: bool)
        ensures
            done == (self.work_count == 0),
    {
        self.work_count == 0
    }

    /// Gives the crew its first item, unless it is still at work. In that
    /// case the item comes back: the caller waits for the signal "done" and
    /// tries again. After a start the caller raises the signal "go" once and
    /// waits for "done" until the crew has finished.
    pub fn start(&mut self, w: WorkItem) -> (started: Result<(), WorkItem>)
        ensures
            old(self).work_count == 0 <==> started is Ok,
            started is Ok ==> final(self).work@ == old(self).work@.push(w),
            started is Ok ==> final(self).work_count == 1,
            started matches Err(back) ==> back == w && final(self).work@ == old(self).work@
                && final(self).work_count == old(self).work_count,
    {
        if self.work_count > 0 {
            Err(w)
        } else {
            self.work.push(w);
            self.work_count = 1;
            Ok(())
        }
    }
}

/// One step of a worker under the lock. `processed` says that the worker
/// comes back from an item: the item is counted as done, and the worker that
/// finds nothing left to do for anybody finishes. A worker that looks for
/// work takes the item that was added last, or waits if there is none.
pub fn worker_routine(crew: &mut Crew, processed: bool) -> (step: CrewStep)
    requires
        processed ==> old(crew).work_count >= 1,
    ensures
        processed ==> final(crew).work@ == old(crew).work@,
        processed ==> final(crew).work_count == old(crew).work_count - 1,
        processed && old(crew).work_count == 1 ==> step is Finish,
        processed && old(crew).work_count > 1 ==> step is Continue,
        !processed ==> final(crew).work_count == old(crew).work_count,
        !processed && old(crew).work@.len() == 0 ==> step is Wait,
        !processed && old(crew).work@.len() == 0 ==> final(crew).work@ == old(crew).work@,
        !processed && old(crew).work@.len() > 0 ==> step == CrewStep::Process(
            old(crew).work@.last(),
        ) && final(crew).work@ == old(crew).work@.drop_last(),
{
    if processed {
        crew.work_count = crew.work_count - 1;
        if crew.work_count == 0 {
            CrewStep::Finish
        } else {
            CrewStep::Continue
        }
    } else {
        match crew.work.pop() {
            Some(item) => CrewStep::Process(item),
            None => CrewStep::Wait,
        }
    }
}

/// A file that is neither a link, a directory nor a regular file.
#[derive(Clone, Copy, Debug, PartialEq, Eq, Structural)]
pub enum FileKind {
    BlockDevice,
    CharDevice,
    Fifo,
    Socket,
    Unknown,
}

impl FileKind {
    /// The kind in words.
    pub fn describe(&self) -> (words: &'static str)
        ensures
            *self == FileKind::BlockDevice ==> words@ == "a block device"@,
            *self == FileKind::CharDevice ==> words@ == "a char device"@,
            *self == FileKind::Fifo ==> words@ == "a fifo"@,
            *self == FileKind::Socket ==> words@ == "a socket"@,
            *self == FileKind::Unknown ==> words@ == "unknown"@,
    {
        match self {
            FileKind::BlockDevice => "a block device",
            FileKind::CharDevice => "a char device",
            FileKind::Fifo => "a fifo",
            FileKind::Socket => "a socket",
            FileKind::Unknown => "unknown",
        }
    }
}

/// What the caller found at the path of an item.
#[derive(Debug)]
pub enum Probe {
    /// A symbolic link.
    Symlink,
    /// A directory, with the paths of its entries.
    Directory(Vec<String>),
    /// A regular file, with its contents.
    File(String),
    /// Anything else.
    Special(FileKind),
}

/// What a worker has to report.
#[derive(Debug)]
pub enum Message {
    /// The path is a symbolic link and was not followed.
    Symlink { thread: usize, path: String },
    /// The file at the path holds the string.
    Found { thread: usize, search: String, path: String },
    /// The path is nothing that can be searched.
    Unprocessable { thread: usize, kind: FileKind },
}

/// `needle` stands somewhere in `haystack`, in one piece.
pub open spec fn occurs_in(needle: Seq<u8>, haystack: Seq<u8>) -> bool {
    exists|at: int| occurs_at(needle, haystack, at)
}

/// `needle` stands in `haystack` at the place `at`.
pub open spec fn occurs_at(needle: Seq<u8>, haystack: Seq<u8>, at: int) -> bool {
    &&& 0 <= at
    &&& at + needle.len() <= haystack.len()
    &&& haystack.subrange(at, at + needle.len()) == needle
}

/// Whether `needle` stands in `haystack` at the place `at`.
fn stands_at(haystack: &[u8], needle: &[u8], at: usize) -> (same: bool)
    requires
        at + needle@.len() <= haystack@.len(),
    ensures
        same == occurs_at(needle@, haystack@, at as int),
{
    let size: usize = haystack.len();
    let mut i: usize = 0;
    while i < needle.len()
        invariant
            i <= needle@.len(),
            size == haystack@.len(),
            at + needle@.len() <= haystack@.len(),
            forall|k: int| 0 <= k < i ==> haystack@[at + k] == needle@[k],
        decreases needle.len() - i,
    {
        if haystack[at + i] != needle[i] {
            assert(haystack@.subrange(at as int, at + needle@.len())[i as int]
                != needle@[i as int]);
            return false;
        }
        i = i + 1;
    }
    assert(haystack@.subrange(at as int, at + needle@.len()) =~= needle@);
    true
}

/// Whether the bytes of `needle` stand somewhere in `haystack`, in one
/// piece. Every text holds the empty one.
pub fn contains(haystack: &[u8], needle: &[u8]) -> (found: bool)
    ensures
        found == occurs_in(needle@, haystack@),
{
    if needle.len() > haystack.len() {
        return false;
    }
    let last: usize = haystack.len() - needle.len();
    let mut at: usize = 0;
    loop
        invariant
            at <= last,
            last == haystack@.len() - needle@.len(),
            forall|k: int| 0 <= k < at ==> !occurs_at(needle@, haystack@, k),
        decreases last - at,
    {
        if stands_at(haystack, needle, at) {
            return true;
        }
        if at == last {
            return false;
        }
        at = at + 1;
    }
}

/// The items for the entries of a directory, all with the same string to
/// look for.
pub open spec fn items_for(entries: Seq<String>, search: String) -> Seq<WorkItem> {
    entries.map_values(|path: String| WorkItem { path, search })
}

/// The messages that follow from what was found at the item's path.
pub open spec fn messages_for(w: WorkItem, probe: Probe, thread_index: usize) -> Seq<Message> {
    match probe {
        Probe::Symlink => seq![Message::Symlink { thread: thread_index, path: w.path }],
        Probe::Directory(_) => seq![],
        Probe::File(contents) => if occurs_in(encode_utf8(w.search@), encode_utf8(contents@)) {
            seq![Message::Found { thread: thread_index, search: w.search, path: w.path }]
        } else {
            seq![]
        },
        Probe::Special(kind) => seq![Message::Unprocessable { thread: thread_index, kind }],
    }
}

/// The work of one worker on one item, given what the caller found at the
/// item's path. A link is reported and left alone. The entries of a
/// directory become new items of the crew, in their order, and are counted;
/// the caller then raises the signal "go" for everybody. A regular file is
/// reported if the bytes of the string stand somewhere in its bytes. Anything
/// else is reported as such.
/// Returns the worker's messages and whether new items were added.
pub fn process_work_item(
    w: WorkItem,
    probe: Probe,
    thread_index: usize,
    crew: &mut Crew,
) -> (report: (Vec<Message>, bool))
    requires
        probe matches Probe::Directory(entries) ==> old(crew).work_count + entries@.len()
            <= usize::MAX,
    ensures
        report.0@ == messages_for(w, probe, thread_index),
        report.1 == (probe is Directory),
        match probe {
            Probe::Directory(entries) => {
                &&& final(crew).work_count == old(crew).work_count + entries@.len()
                &&& final(crew).work@ == old(crew).work@ + items_for(entries@, w.search)
            },
            _ => {
                &&& final(crew).work_count == old(crew).work_count
                &&& final(crew).work@ == old(crew).work@
            },
        },
{
    let mut thread_local_messages: Vec<Message> = Vec::new();
    let mut added = false;
    match probe {
        Probe::Symlink => {
            thread_local_messages.push(Message::Symlink { thread: thread_index, path: w.path });
        },
        Probe::Directory(entries) => {
            let mut i: usize = 0;
            while i < entries.len()
                invariant
                    i <= entries.len(),
                    crew.work_count == old(crew).work_count,
                    old(crew).work_count + entries@.len() <= usize::MAX,
                    crew.work@ == old(crew).work@ + items_for(
                        entries@.subrange(0, i as int),
                        w.search,
                    ),
                decreases entries.len() - i,
            {
                crew.work.push(WorkItem::new(entries[i].clone(), w.search.clone()));
                i = i + 1;
                assert(crew.work@ =~= old(crew).work@ + items_for(
                    entries@.subrange(0, i as int),
                    w.search,
                ));
            }
            assert(entries@.subrange(0, i as int) =~= entries@);
            crew.work_count = crew.work_count + entries.len();
            added = true;
        },
        Probe::File(buffer) => {
            if contains(buffer.as_str().as_bytes(), w.search.as_str().as_bytes()) {
                thread_local_messages.push(
                    Message::Found { thread: thread_index, search: w.search, path: w.path },
                );
            }
        },
        Probe::Special(kind) => {
            thread_local_messages.push(Message::Unprocessable { thread: thread_index, kind });
        },
    }
    assert(thread_local_messages@ =~= messages_for(w, probe, thread_index));
    (thread_local_messages, added)
}

} // verus!
