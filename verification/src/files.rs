//! Listing every file under a cloud folder, page by page.
//!
//! Dropbox hands out a folder listing in pages; each page says whether another follows and
//! gives the cursor that reads it. The caller sends the requests; `FileListing` decides, from
//! each reply, whether to read the next page or stop, and gathers the file entries of all pages.
use crate::api::{file_entries, files_of, list_failure_message, ListPage, RemoteEntry, Reply};
use crate::text::{concat2, concat3, contains, decimal_string, occurs_in};
use vstd::prelude::*;

verus! {

/// Where a file listing stands.
pub enum FileStage {
    /// The first page is being read.
    First,
    /// A later page is being read.
    Continuing,
    /// The listing has its result.
    Finished,
}

/// A listing of the files under a cloud folder, in progress.
pub struct FileListing {
    path: String,
    files: Vec<RemoteEntry>,
    seen: Ghost<Seq<RemoteEntry>>,
    stage: FileStage,
}

/// A file listing, by views.
pub struct FileListingView {
    /// The folder being listed.
    pub path: Seq<char>,
    /// The file entries gathered so far.
    pub files: Seq<RemoteEntry>,
    /// All the entries of the pages read so far, in order.
    pub seen: Seq<RemoteEntry>,
    pub stage: FileStage,
}

/// What the caller is to do next.
pub enum FileAction {
    /// Read the first page of the listing of this folder, recursively.
    ListFirst(String),
    /// Read the next page with this cursor.
    Continue(String),
    /// Stop: these are the files, or why there are none.
    Finish(Result<Vec<RemoteEntry>, String>),
}

/// What the caller is to do next, by views.
pub enum FileActionView {
    ListFirst(Seq<char>),
    Continue(Seq<char>),
    Finish(Result<Seq<RemoteEntry>, Seq<char>>),
}

impl View for FileListing {
    type V = FileListingView;

    closed spec fn view(&self) -> FileListingView {
        FileListingView {
            path: self.path@,
            files: self.files@,
            seen: self.seen@,
            stage: self.stage,
        }
    }
}

impl View for FileAction {
    type V = FileActionView;

    open spec fn view(&self) -> FileActionView {
        match self {
            FileAction::ListFirst(p) => FileActionView::ListFirst(p@),
            FileAction::Continue(c) => FileActionView::Continue(c@),
            FileAction::Finish(Ok(v)) => FileActionView::Finish(Ok(v@)),
            FileAction::Finish(Err(e)) => FileActionView::Finish(Err(e@)),
        }
    }
}

/// The finished state with its result.
pub open spec fn file_finish(s: FileListingView, r: Result<Seq<RemoteEntry>, Seq<char>>) -> (
    FileListingView,
    FileActionView,
) {
    (FileListingView { stage: FileStage::Finished, ..s }, FileActionView::Finish(r))
}

/// One step of a file listing, given the reply to the last request. A folder that does not
/// exist (a 409 whose text names "not_found" on the first page) lists as empty; any other
/// failure stops the listing; a page adds its file entries and, when another page follows,
/// asks for it with the page's cursor, else hands over all the files gathered.
pub open spec fn file_step(s: FileListingView, reply: Reply<ListPage>) -> (
    FileListingView,
    FileActionView,
) {
    match reply {
        Reply::SendFailed(e) => file_finish(s, Err(e@)),
        Reply::Succeeded(Err(e)) => file_finish(s, Err(e@)),
        Reply::Failed { status, text } => if s.stage is First && status == 409 && (occurs_in(
            text@,
            "path_not_found"@,
        ) || occurs_in(text@, "not_found"@)) {
            file_finish(s, Ok(seq![]))
        } else {
            file_finish(s, Err(list_failure_message(status, s.path, text@)))
        },
        Reply::Succeeded(Ok(page)) => {
            let next = FileListingView {
                files: s.files + files_of(page.entries@),
                seen: s.seen + page.entries@,
                ..s
            };
            if page.has_more {
                (
                    FileListingView { stage: FileStage::Continuing, ..next },
                    FileActionView::Continue(page.cursor@),
                )
            } else {
                (
                    FileListingView { files: seq![], stage: FileStage::Finished, ..next },
                    FileActionView::Finish(Ok(next.files)),
                )
            }
        },
    }
}

impl FileListing {
    /// Starts listing the files under the cloud folder `path`.
    pub fn start(path: String) -> (res: (FileListing, FileAction))
        ensures
            res.0@ == (FileListingView {
                path: path@,
                files: seq![],
                seen: seq![],
                stage: FileStage::First,
            }),
            res.1@ == FileActionView::ListFirst(path@),
    {
        let p = path.clone();
        let l = FileListing { path, files: Vec::new(), seen: Ghost(Seq::empty()), stage: FileStage::First };
        assert(l@.files =~= seq![]);
        (l, FileAction::ListFirst(p))
    }

    /// Whether the listing expects another reply.
    pub fn accepts(&self) -> (res: bool)
        ensures
            res == !(self@.stage is Finished),
    {
        match self.stage {
            FileStage::Finished => false,
            _ => true,
        }
    }

    /// Finishes with the given result.
    fn finish(&mut self, r: Result<Vec<RemoteEntry>, String>) -> (a: FileAction)
        ensures
            final(self)@ == (FileListingView { stage: FileStage::Finished, ..old(self)@ }),
            a == FileAction::Finish(r),
    {
        self.stage = FileStage::Finished;
        FileAction::Finish(r)
    }

    /// Takes in the reply to the last request and says what to do next.
    pub fn step(&mut self, reply: Reply<ListPage>) -> (a: FileAction)
        requires
            !(old(self)@.stage is Finished),
        ensures
            (final(self)@, a@) == file_step(old(self)@, reply),
    {
        match reply {
            Reply::SendFailed(e) => self.finish(Err(e)),
            Reply::Succeeded(Err(e)) => self.finish(Err(e)),
            Reply::Failed { status, text } => {
                let first = match self.stage {
                    FileStage::First => true,
                    _ => false,
                };
                if first && status == 409 && (contains(text.as_str(), "path_not_found") || contains(
                    text.as_str(),
                    "not_found",
                )) {
                    let v: Vec<RemoteEntry> = Vec::new();
                    assert(v@ =~= seq![]);
                    self.finish(Ok(v))
                } else {
                    let code = decimal_string(status as u64);
                    let a = concat3("ERR_CODE:", code.as_str(), " | 클라우드 파일 목록 조회 실패 (");
                    let b = concat3(a.as_str(), self.path.as_str(), "): ");
                    let m = concat2(b.as_str(), text.as_str());
                    self.finish(Err(m))
                }
            },
            Reply::Succeeded(Ok(page)) => {
                let ListPage { entries, cursor, has_more } = page;
                let ghost page_entries = entries@;
                let mut found = file_entries(entries);
                let ghost before = self.files@;
                self.files.append(&mut found);
                self.seen = Ghost(self.seen@ + page_entries);
                assert(self.files@ =~= before + files_of(page_entries));
                if has_more {
                    self.stage = FileStage::Continuing;
                    FileAction::Continue(cursor)
                } else {
                    let mut all: Vec<RemoteEntry> = Vec::new();
                    std::mem::swap(&mut all, &mut self.files);
                    self.stage = FileStage::Finished;
                    assert(self.files@ =~= seq![]);
                    FileAction::Finish(Ok(all))
                }
            },
        }
    }
}

/// The files a listing gathers are the file entries of all the pages it has read, in order:
/// each step keeps this so, and a finished listing hands over exactly those files.
pub proof fn law_files_from_all_pages(s: FileListingView, reply: Reply<ListPage>)
    requires
        s.files == files_of(s.seen),
        s.stage is First ==> s.seen.len() == 0,
    ensures
        !(file_step(s, reply).0.stage is Finished) ==> file_step(s, reply).0.files == files_of(
            file_step(s, reply).0.seen,
        ),
        file_step(s, reply).1 matches FileActionView::Finish(Ok(fs)) ==> fs == files_of(
            file_step(s, reply).0.seen,
        ),
{
    reveal_with_fuel(Seq::<_>::filter, 1);
    match reply {
        Reply::Succeeded(Ok(page)) => {
            Seq::filter_distributes_over_add(
                s.seen,
                page.entries@,
                |e: RemoteEntry| crate::api::is_file(e),
            );
        },
        _ => {
            if s.stage is First {
                assert(s.seen =~= Seq::<RemoteEntry>::empty());
            }
        },
    }
}

} // verus!
