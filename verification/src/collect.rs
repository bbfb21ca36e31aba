//! Collecting the records of a directory, one decision at a time.
//!
//! Opening directories, reading their entries and querying metadata is done
//! by the caller. The collector decides what is to be done next and what
//! becomes of each answer: which directory to open, which path to query, what
//! enters the listing, what is reported, and where to descend.

use crate::mode::{classify, CrustFileKind};
use crate::names::{dot_entry, is_dot_entry};
use crate::record::{
    entry_of, listing_view, listing_well_formed, CrustFileMetadata, FileEntry, RawMetadata,
};
use vstd::prelude::*;
use vstd::string::StringExecFns;

verus! {

/// A directory that is to be enumerated, as a plain value.
pub struct DirectoryModel {
    /// The path to open.
    pub path: Seq<char>,
    /// What goes before the names of its entries in the listing: nothing for
    /// the directory the collection started from, else its own name in the
    /// listing and a slash.
    pub prefix: Seq<char>,
}

/// A directory that is to be enumerated.
#[derive(Clone, Debug, PartialEq, Eq)]
pub struct PendingDirectory {
    path: String,
    prefix: String,
}

impl View for PendingDirectory {
    type V = DirectoryModel;

    closed spec fn view(&self) -> DirectoryModel {
        DirectoryModel { path: self.path@, prefix: self.prefix@ }
    }
}

/// The state of a collection, as a plain value.
pub struct CollectorState {
    /// Whether directories found are enumerated too.
    pub recursive: bool,
    /// The directories still to be opened, the next one first.
    pub pending: Seq<DirectoryModel>,
    /// The directory being enumerated, if any.
    pub current: Option<DirectoryModel>,
    /// The records collected so far.
    pub files: Seq<FileEntry>,
    /// The failures reported so far, one line each.
    pub diagnostics: Seq<Seq<char>>,
    /// Whether the directory the collection started from could not be opened.
    pub failed: bool,
}

/// The path of an entry: the directory's path, a slash, and the name.
pub open spec fn child_path(parent: Seq<char>, name: Seq<char>) -> Seq<char> {
    parent + seq!['/'] + name
}

/// The report of a directory that could not be opened.
pub open spec fn open_failure_text(path: Seq<char>) -> Seq<char> {
    "Failed to open directory: "@ + path
}

/// The report of an entry whose metadata could not be queried.
pub open spec fn stat_failure_text(path: Seq<char>) -> Seq<char> {
    "Failed to stat file: "@ + path
}

/// Whether the collection descends into an entry: only in recursive mode,
/// only into directories, and never through a symbolic link.
pub open spec fn descends(recursive: bool, raw: RawMetadata, symlink: bool) -> bool {
    recursive && classify(raw.mode) is Directory && !symlink
}

/// A prefix is empty or ends in a slash.
pub open spec fn prefix_well_formed(prefix: Seq<char>) -> bool {
    prefix.len() == 0 || prefix.last() == '/'
}

impl CollectorState {
    /// The state a collection starts in: the given path is to be opened,
    /// nothing is collected or reported.
    pub open spec fn start(path: Seq<char>, recursive: bool) -> CollectorState {
        CollectorState {
            recursive,
            pending: seq![DirectoryModel { path, prefix: Seq::empty() }],
            current: None,
            files: Seq::empty(),
            diagnostics: Seq::empty(),
            failed: false,
        }
    }

    /// Prefixes are well formed and no record stands for `.` or `..`.
    pub open spec fn well_formed(self) -> bool {
        &&& forall|i: int|
            0 <= i < self.pending.len() ==> prefix_well_formed((#[trigger] self.pending[i]).prefix)
        &&& self.current matches Some(d) ==> prefix_well_formed(d.prefix)
        &&& forall|i: int| 0 <= i < self.files.len() ==> !is_dot_entry((#[trigger] self.files[i]).name)
    }

    /// Nothing is left to do: no directory is open and none is waiting.
    pub open spec fn done(self) -> bool {
        self.current is None && self.pending.len() == 0
    }

    /// The path to open next, if any directory is waiting.
    pub open spec fn next_path(self) -> Option<Seq<char>> {
        if self.pending.len() == 0 {
            None
        } else {
            Some(self.pending[0].path)
        }
    }

    /// The state after the next directory was handed out: it is the one
    /// being enumerated. Where none is waiting, none is being enumerated.
    pub open spec fn after_next(self) -> CollectorState {
        if self.pending.len() == 0 {
            CollectorState { current: None, ..self }
        } else {
            CollectorState {
                current: Some(self.pending[0]),
                pending: self.pending.drop_first(),
                ..self
            }
        }
    }

    /// The state after the directory handed out could not be opened: the
    /// failure is reported and nothing of that directory is listed. Other
    /// directories are not affected, but a failure of the directory the
    /// collection started from marks the collection as failed.
    pub open spec fn after_open_failure(self) -> CollectorState {
        match self.current {
            None => self,
            Some(d) => CollectorState {
                current: None,
                diagnostics: self.diagnostics.push(open_failure_text(d.path)),
                failed: self.failed || d.prefix.len() == 0,
                ..self
            },
        }
    }

    /// The path whose metadata is to be queried for an entry of the directory
    /// being enumerated; none for `.` and `..`, which are never listed.
    pub open spec fn query_path(self, name: Seq<char>) -> Option<Seq<char>> {
        match self.current {
            None => None,
            Some(d) => if is_dot_entry(name) {
                None
            } else {
                Some(child_path(d.path, name))
            },
        }
    }

    /// The state after an entry of the directory being enumerated was seen,
    /// with the answer of its metadata query. `.` and `..` change nothing. A
    /// failed query is reported and the entry is left out. Otherwise the
    /// entry's record joins the listing under its qualified name, and in
    /// recursive mode a directory that is no symbolic link is set to be
    /// enumerated later.
    pub open spec fn after_entry(
        self,
        name: Seq<char>,
        answer: Option<RawMetadata>,
        symlink: bool,
    ) -> CollectorState {
        match self.current {
            None => self,
            Some(d) => if is_dot_entry(name) {
                self
            } else {
                match answer {
                    None => CollectorState {
                        diagnostics: self.diagnostics.push(
                            stat_failure_text(child_path(d.path, name)),
                        ),
                        ..self
                    },
                    Some(raw) => CollectorState {
                        files: self.files.push(entry_of(d.prefix + name, raw)),
                        pending: if descends(self.recursive, raw, symlink) {
                            self.pending.push(
                                DirectoryModel {
                                    path: child_path(d.path, name),
                                    prefix: d.prefix + name + seq!['/'],
                                },
                            )
                        } else {
                            self.pending
                        },
                        ..self
                    },
                }
            },
        }
    }

    /// The state after the directory being enumerated has no more entries.
    pub open spec fn after_close(self) -> CollectorState {
        CollectorState { current: None, ..self }
    }
}

/// A name that is no synthetic entry is none either behind a well-formed
/// prefix.
pub proof fn lemma_qualified_name(prefix: Seq<char>, name: Seq<char>)
    requires
        prefix_well_formed(prefix),
        !is_dot_entry(name),
    ensures
        !is_dot_entry(prefix + name),
{
    if prefix.len() == 0 {
        assert(prefix + name =~= name);
    } else {
        let full = prefix + name;
        assert(full[prefix.len() - 1] == '/');
    }
}

/// What a collection ends with.
#[derive(Clone, Debug, PartialEq, Eq)]
pub struct Collected {
    /// The records, in the order in which the entries were seen.
    pub files: Vec<CrustFileMetadata>,
    /// One line per failure, naming the path.
    pub diagnostics: Vec<String>,
    /// Whether the directory the collection started from could not be opened.
    pub failed: bool,
}

/// What some lines of text say.
pub open spec fn line_texts(lines: Seq<String>) -> Seq<Seq<char>> {
    lines.map_values(|line: String| line@)
}

/// The directories of a queue as plain values.
pub open spec fn directory_views(queue: Seq<PendingDirectory>) -> Seq<DirectoryModel> {
    queue.map_values(|d: PendingDirectory| d@)
}

/// A collection in progress.
pub struct Collector {
    recursive: bool,
    pending: Vec<PendingDirectory>,
    current: Option<PendingDirectory>,
    files: Vec<CrustFileMetadata>,
    diagnostics: Vec<String>,
    failed: bool,
}

impl View for Collector {
    type V = CollectorState;

    closed spec fn view(&self) -> CollectorState {
        CollectorState {
            recursive: self.recursive,
            pending: directory_views(self.pending@),
            current: match self.current {
                None => None,
                Some(d) => Some(d@),
            },
            files: listing_view(self.files@),
            diagnostics: line_texts(self.diagnostics@),
            failed: self.failed,
        }
    }
}

/// The text of two pieces, one after the other.
fn joined(a: &str, b: &str) -> (text: String)
    ensures
        text@ == a@ + b@,
{
    let mut text = String::new();
    text.append(a);
    text.append(b);
    assert(text@ =~= a@ + b@);
    text
}

/// The path of an entry of a directory.
fn path_of_child(parent: &str, name: &str) -> (path: String)
    ensures
        path@ == child_path(parent@, name@),
{
    proof {
        reveal_strlit("/");
    }
    let mut path = String::new();
    path.append(parent);
    path.append("/");
    path.append(name);
    assert(path@ =~= child_path(parent@, name@));
    path
}

impl Collector {
    /// Starts a collection at `path`.
    pub fn new(path: &str, recursive: bool) -> (collector: Self)
        ensures
            collector@ == CollectorState::start(path@, recursive),
            collector@.well_formed(),
    {
        let mut pending: Vec<PendingDirectory> = Vec::new();
        let first = PendingDirectory { path: String::from_str(path), prefix: String::new() };
        pending.push(first);
        let collector = Collector {
            recursive,
            pending,
            current: None,
            files: Vec::new(),
            diagnostics: Vec::new(),
            failed: false,
        };
        assert(collector@.pending =~= CollectorState::start(path@, recursive).pending);
        assert(collector@.files =~= Seq::<FileEntry>::empty());
        assert(collector@.diagnostics =~= Seq::<Seq<char>>::empty());
        collector
    }

    /// Whether nothing is left to do.
    pub fn is_done(&self) -> (done: bool)
        ensures
            done == self@.done(),
    {
        self.current.is_none() && self.pending.len() == 0
    }

    /// Hands out the path of the directory to open next, which from now on is
    /// the one being enumerated; none when no directory is waiting.
    pub fn next_directory(&mut self) -> (path: Option<String>)
        requires
            old(self)@.well_formed(),
        ensures
            final(self)@ == old(self)@.after_next(),
            final(self)@.well_formed(),
            match path {
                Some(p) => old(self)@.next_path() == Some(p@),
                None => old(self)@.next_path() is None,
            },
    {
        if self.pending.len() == 0 {
            self.current = None;
            None
        } else {
            let ghost before = self.pending@;
            let next = self.pending.remove(0);
            let path = next.path.clone();
            self.current = Some(next);
            proof {
                assert(before.remove(0) =~= before.drop_first());
                assert(directory_views(before.drop_first()) =~= directory_views(
                    before,
                ).drop_first());
                assert(directory_views(before)[0] == before[0]@);
                assert forall|i: int| 0 <= i < self@.pending.len() implies prefix_well_formed(
                    (#[trigger] self@.pending[i]).prefix,
                ) by {
                    assert(self@.pending[i] == old(self)@.pending[i + 1]);
                }
            }
            Some(path)
        }
    }

    /// Records that the directory handed out last could not be opened.
    pub fn open_failed(&mut self)
        requires
            old(self)@.well_formed(),
        ensures
            final(self)@ == old(self)@.after_open_failure(),
            final(self)@.well_formed(),
    {
        let current = self.current.take();
        match current {
            None => {},
            Some(d) => {
                let report = joined("Failed to open directory: ", d.path.as_str());
                let ghost before = self.diagnostics@;
                self.diagnostics.push(report);
                assert(line_texts(self.diagnostics@) =~= line_texts(before).push(report@));
                if d.prefix.as_str().is_empty() {
                    self.failed = true;
                }
            },
        }
    }

    /// Records that the directory being enumerated has no more entries.
    pub fn close_directory(&mut self)
        requires
            old(self)@.well_formed(),
        ensures
            final(self)@ == old(self)@.after_close(),
            final(self)@.well_formed(),
    {
        self.current = None;
    }

    /// The path whose metadata is to be queried for an entry of the directory
    /// being enumerated; none for `.` and `..`, and none where no directory
    /// is being enumerated.
    pub fn entry_path(&self, name: &str) -> (path: Option<String>)
        ensures
            match path {
                Some(p) => self@.query_path(name@) == Some(p@),
                None => self@.query_path(name@) is None,
            },
    {
        match &self.current {
            None => None,
            Some(d) => {
                if dot_entry(name) {
                    None
                } else {
                    Some(path_of_child(d.path.as_str(), name))
                }
            },
        }
    }

    /// Takes in one entry of the directory being enumerated, with the answer
    /// of its metadata query (none where the query failed) and whether the
    /// entry itself is a symbolic link.
    pub fn record_entry(&mut self, name: &str, answer: Option<RawMetadata>, symlink: bool)
        requires
            old(self)@.well_formed(),
        ensures
            final(self)@ == old(self)@.after_entry(name@, answer, symlink),
            final(self)@.well_formed(),
    {
        if dot_entry(name) {
            return ;
        }
        match &self.current {
            None => {},
            Some(d) => {
                let path = path_of_child(d.path.as_str(), name);
                let listed = joined(d.prefix.as_str(), name);
                proof {
                    lemma_qualified_name(d.prefix@, name@);
                }
                match answer {
                    None => {
                        let report = joined("Failed to stat file: ", path.as_str());
                        let ghost before = self.diagnostics@;
                        self.diagnostics.push(report);
                        assert(line_texts(self.diagnostics@) =~= line_texts(before).push(
                            report@,
                        ));
                    },
                    Some(raw) => {
                        let descend = self.recursive && !symlink && match CrustFileKind::from_mode(
                            raw.mode,
                        ) {
                            CrustFileKind::Directory => true,
                            _ => false,
                        };
                        if descend {
                            proof {
                                reveal_strlit("/");
                            }
                            let prefix = joined(listed.as_str(), "/");
                            let ghost queue = self.pending@;
                            let below = PendingDirectory { path, prefix };
                            self.pending.push(below);
                            proof {
                                assert(prefix@ =~= d.prefix@ + name@ + seq!['/']);
                                assert(directory_views(self.pending@) =~= directory_views(
                                    queue,
                                ).push(below@));
                            }
                        }
                        let ghost listing = self.files@;
                        let record = CrustFileMetadata::from_raw(listed, raw);
                        self.files.push(record);
                        assert(listing_view(self.files@) =~= listing_view(listing).push(record@));
                    },
                }
            },
        }
    }

    /// Ends the collection and hands out what was collected and reported.
    pub fn finish(self) -> (collected: Collected)
        requires
            self@.well_formed(),
        ensures
            listing_view(collected.files@) == self@.files,
            line_texts(collected.diagnostics@) == self@.diagnostics,
            collected.failed == self@.failed,
            listing_well_formed(collected.files@),
    {
        proof {
            assert forall|i: int| 0 <= i < self.files@.len() implies (
            #[trigger] self.files@[i]).well_formed() by {
                assert(self@.files[i].name == self.files@[i].name@);
            }
        }
        Collected { files: self.files, diagnostics: self.diagnostics, failed: self.failed }
    }
}

} // verus!
