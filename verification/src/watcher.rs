//! The dump watcher: which bytes of which dump file are still to be read and decoded.
//!
//! Dump files only grow. The watcher remembers, for each file it follows, how many bytes have
//! been read and which of them wait to be decoded because the record they belong to is not
//! whole yet. Whoever does the reading tells the watcher the length of each file that a poll
//! of the directory shows, reads what the watcher asks for, hands the bytes over, runs the
//! decoder on what is pending, and tells the watcher how many bytes the decoder used. A read
//! that fails changes nothing, so that the next poll asks for the same bytes again.

use vstd::prelude::*;
use vstd::string::StringExecFns;

verus! {

/// What is known of one dump file, as the contracts see it.
pub struct Follow {
    /// Name of the file.
    pub name: Seq<char>,
    /// Number of bytes read from the file so far.
    pub offset: u64,
    /// The bytes read that wait to be decoded: the tail of what was read.
    pub pending: Seq<u8>,
}

/// What is known of one dump file.
#[derive(Debug)]
pub struct DumpFile {
    name: String,
    offset: u64,
    pending: Vec<u8>,
}

impl View for DumpFile {
    type V = Follow;

    closed spec fn view(&self) -> Follow {
        Follow { name: self.name@, offset: self.offset, pending: self.pending@ }
    }
}

/// What to do about a file that a poll of the directory shows.
#[derive(Debug, Clone, Copy, PartialEq, Eq, Structural, Hash)]
pub enum Plan {
    /// Read `count` bytes of the file, starting at byte `from`.
    Read {
        /// Position of the first byte to read.
        from: u64,
        /// Number of bytes to read.
        count: u64,
    },
    /// The file has nothing new.
    Idle,
    /// The file is shorter than what was read from it: it is not a dump that only grows.
    Shrunk,
}

/// True if one of `files` is named `name`.
pub open spec fn follows(files: Seq<Follow>, name: Seq<char>) -> bool {
    exists|i: int| 0 <= i < files.len() && (#[trigger] files[i]).name == name
}

/// Position in `files` of the file named `name`.
pub open spec fn file_position(files: Seq<Follow>, name: Seq<char>) -> int {
    choose|i: int| 0 <= i < files.len() && (#[trigger] files[i]).name == name
}

/// No two of `files` have the same name.
pub open spec fn distinct_names(files: Seq<Follow>) -> bool {
    forall|i: int, j: int|
        0 <= i < j < files.len() ==> (#[trigger] files[i]).name != (#[trigger] files[j]).name
}

/// The files once a poll has shown the file `name`: a file seen for the first time is
/// followed from its first byte.
pub open spec fn noticed(files: Seq<Follow>, name: Seq<char>) -> Seq<Follow> {
    if follows(files, name) {
        files
    } else {
        files.push(Follow { name, offset: 0, pending: Seq::empty() })
    }
}

/// What to do about a file of `len` bytes of which `offset` were read.
pub open spec fn plan_for(offset: u64, len: u64) -> Plan {
    if len > offset {
        Plan::Read { from: offset, count: (len - offset) as u64 }
    } else if len == offset {
        Plan::Idle
    } else {
        Plan::Shrunk
    }
}

/// The files once `bytes` were read from the file `name`, if it is followed and the count of
/// its bytes still fits.
pub open spec fn fed(files: Seq<Follow>, name: Seq<char>, bytes: Seq<u8>) -> Option<Seq<Follow>> {
    if follows(files, name) && files[file_position(files, name)].offset + bytes.len()
        <= u64::MAX {
        let at = file_position(files, name);
        Some(
            files.update(
                at,
                Follow {
                    name,
                    offset: (files[at].offset + bytes.len()) as u64,
                    pending: files[at].pending + bytes,
                },
            ),
        )
    } else {
        None
    }
}

/// The files once the decoder used the first `count` pending bytes of the file `name`, if it
/// is followed and has that many.
pub open spec fn consumed(files: Seq<Follow>, name: Seq<char>, count: usize) -> Option<
    Seq<Follow>,
> {
    if follows(files, name) && count <= files[file_position(files, name)].pending.len() {
        let at = file_position(files, name);
        Some(
            files.update(
                at,
                Follow {
                    pending: files[at].pending.subrange(
                        count as int,
                        files[at].pending.len() as int,
                    ),
                    ..files[at]
                },
            ),
        )
    } else {
        None
    }
}

/// The dump watcher.
#[derive(Debug)]
pub struct Watcher {
    files: Vec<DumpFile>,
}

impl View for Watcher {
    type V = Seq<Follow>;

    closed spec fn view(&self) -> Seq<Follow> {
        self.files@.map_values(|file: DumpFile| file@)
    }
}

impl Watcher {
    /// The watcher is sound: it follows no file twice.
    pub open spec fn wf(&self) -> bool {
        distinct_names(self@)
    }

    /// A watcher that follows no file yet.
    pub fn new() -> (res: Self)
        ensures
            res.wf(),
            res@ == Seq::<Follow>::empty(),
    {
        let res = Watcher { files: Vec::new() };
        assert(res@ =~= Seq::empty());
        res
    }

    /// Number of files followed.
    pub fn len(&self) -> (res: usize)
        ensures
            res == self@.len(),
    {
        self.files.len()
    }

    /// Position of the file `name`, if it is followed.
    fn find(&self, name: &String) -> (res: Option<usize>)
        requires
            self.wf(),
        ensures
            match res {
                Some(at) => follows(self@, name@) && at == file_position(self@, name@) && at
                    < self@.len() && self@[at as int].name == name@,
                None => !follows(self@, name@),
            },
    {
        let mut i: usize = 0;
        while i < self.files.len()
            invariant
                i <= self.files.len(),
                self.wf(),
                forall|j: int| 0 <= j < i ==> (#[trigger] self@[j]).name != name@,
            decreases self.files.len() - i,
        {
            if self.files[i].name == *name {
                assert(self@[i as int].name == name@);
                proof {
                    lemma_file_position(self@, name@, i as int);
                }
                return Some(i);
            }
            i += 1;
        }
        None
    }

    /// Takes note that a poll shows the file `name` with `len` bytes, and says what to do
    /// about it. A file seen for the first time is followed from then on.
    pub fn observe(&mut self, name: &str, len: u64) -> (res: Plan)
        requires
            old(self).wf(),
        ensures
            final(self).wf(),
            final(self)@ == noticed(old(self)@, name@),
            res == plan_for(final(self)@[file_position(final(self)@, name@)].offset, len),
    {
        let name = String::from_str(name);
        let offset = match self.find(&name) {
            Some(at) => self.files[at].offset,
            None => {
                self.files.push(DumpFile { name, offset: 0, pending: Vec::new() });
                proof {
                    let last = old(self)@.len() as int;
                    assert(self@ =~= old(self)@.push(
                        Follow { name: name@, offset: 0, pending: Seq::empty() },
                    ));
                    assert(self@[last].name == name@);
                    assert forall|i: int, j: int| 0 <= i < j < self@.len() implies (
                    #[trigger] self@[i]).name != (#[trigger] self@[j]).name by {
                        assert(self@[i] == old(self)@[i]);
                        if j < last {
                            assert(self@[j] == old(self)@[j]);
                        }
                    }
                    lemma_file_position(self@, name@, last);
                }
                0
            },
        };
        if len > offset {
            Plan::Read { from: offset, count: len - offset }
        } else if len == offset {
            Plan::Idle
        } else {
            Plan::Shrunk
        }
    }

    /// Takes in `bytes`, just read from the file `name` where the last read stopped. Returns
    /// false, and changes nothing, if the file is not followed or the count of its bytes would
    /// no longer fit in a `u64`.
    pub fn feed(&mut self, name: &str, bytes: Vec<u8>) -> (res: bool)
        requires
            old(self).wf(),
        ensures
            final(self).wf(),
            match fed(old(self)@, name@, bytes@) {
                Some(files) => res && final(self)@ == files,
                None => !res && final(self)@ == old(self)@,
            },
    {
        let name = String::from_str(name);
        let at = match self.find(&name) {
            Some(at) => at,
            None => {
                return false;
            },
        };
        if bytes.len() as u64 > u64::MAX - self.files[at].offset {
            return false;
        }
        let ghost given = bytes@;
        let mut bytes = bytes;
        self.files[at].offset = self.files[at].offset + bytes.len() as u64;
        self.files[at].pending.append(&mut bytes);
        proof {
            let files = fed(old(self)@, name@, given)->0;
            assert(self@ =~= files);
            lemma_update_keeps_names(old(self)@, at as int, files[at as int]);
        }
        true
    }

    /// The bytes of the file `name` that wait to be decoded, if the file is followed.
    pub fn pending(&self, name: &str) -> (res: Option<&Vec<u8>>)
        requires
            self.wf(),
        ensures
            match res {
                Some(bytes) => follows(self@, name@) && bytes@ == self@[file_position(
                    self@,
                    name@,
                )].pending,
                None => !follows(self@, name@),
            },
    {
        let name = String::from_str(name);
        match self.find(&name) {
            Some(at) => Some(&self.files[at].pending),
            None => None,
        }
    }

    /// Takes note that the decoder used the first `count` pending bytes of the file `name`;
    /// the rest, an incomplete record, waits for more. Returns false, and changes nothing, if
    /// the file is not followed or has fewer pending bytes.
    pub fn consume(&mut self, name: &str, count: usize) -> (res: bool)
        requires
            old(self).wf(),
        ensures
            final(self).wf(),
            match consumed(old(self)@, name@, count) {
                Some(files) => res && final(self)@ == files,
                None => !res && final(self)@ == old(self)@,
            },
    {
        let name = String::from_str(name);
        let at = match self.find(&name) {
            Some(at) => at,
            None => {
                return false;
            },
        };
        if count > self.files[at].pending.len() {
            return false;
        }
        let rest = self.files[at].pending.split_off(count);
        self.files[at].pending = rest;
        proof {
            let files = consumed(old(self)@, name@, count)->0;
            assert(self@ =~= files);
            lemma_update_keeps_names(old(self)@, at as int, files[at as int]);
        }
        true
    }
}

/// Among files with distinct names a file is found at one position only.
pub proof fn lemma_file_position(files: Seq<Follow>, name: Seq<char>, at: int)
    requires
        distinct_names(files),
        0 <= at < files.len(),
        files[at].name == name,
    ensures
        follows(files, name),
        file_position(files, name) == at,
{
    let found = file_position(files, name);
    if found < at {
        assert(files[found].name != files[at].name);
    } else if at < found {
        assert(files[at].name != files[found].name);
    }
}

/// Replacing what is known of a file, under the same name, keeps the names distinct.
proof fn lemma_update_keeps_names(files: Seq<Follow>, at: int, file: Follow)
    requires
        distinct_names(files),
        0 <= at < files.len(),
        file.name == files[at].name,
    ensures
        distinct_names(files.update(at, file)),
{
    let after = files.update(at, file);
    assert forall|i: int, j: int| 0 <= i < j < after.len() implies (#[trigger] after[i]).name != (
    #[trigger] after[j]).name by {
        assert(after[i].name == files[i].name);
        assert(after[j].name == files[j].name);
    }
}

/// A read that fails is not fed to the watcher, so the next poll asks for the same bytes; and
/// what a read brings is asked for once only: after it is fed, the next read starts where it
/// stopped.
pub proof fn lemma_reads_follow_on(files: Seq<Follow>, name: Seq<char>, bytes: Seq<u8>, len: u64)
    requires
        distinct_names(files),
        follows(files, name),
        files[file_position(files, name)].offset + bytes.len() <= len,
    ensures
        noticed(files, name) == files,
        fed(files, name, bytes) is Some,
        plan_for(fed(files, name, bytes)->0[file_position(files, name)].offset, len) == (if files[
            file_position(files, name)
        ].offset + bytes.len() == len {
            Plan::Idle
        } else {
            Plan::Read {
                from: (files[file_position(files, name)].offset + bytes.len()) as u64,
                count: (len - files[file_position(files, name)].offset - bytes.len()) as u64,
            }
        }),
{
}

} // verus!
