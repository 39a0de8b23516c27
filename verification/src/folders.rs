//! Listing the folders at the root of the user's Dropbox, renewing the access token once
//! when Dropbox no longer accepts it.
//!
//! The caller sends the requests; `FolderListing` decides, from each reply, what to do next.
use crate::api::{folder_paths, folder_paths_of, is_token_rejected, strings_view, token_rejected, Reply, RemoteEntry};
use crate::text::{concat2, concat3};
use vstd::prelude::*;

verus! {

/// The folders found, and the access token that was renewed to find them, if one was.
pub struct ListFoldersResult {
    pub folders: Vec<String>,
    pub new_token: Option<String>,
}

/// Where a folder listing stands.
pub enum FolderStage {
    /// The first listing request is out.
    Listing,
    /// The access token was refused; a refresh request is out.
    Refreshing,
    /// The listing request is out again, with the renewed token.
    Relisting(String),
    /// The listing has its result.
    Finished,
}

/// A folder listing in progress.
pub struct FolderListing {
    refresh_token: Option<String>,
    stage: FolderStage,
}

/// What the caller reports back.
pub enum FolderEvent {
    /// The reply to a listing request.
    Listed(Reply<Vec<RemoteEntry>>),
    /// The outcome of a token refresh: the new access token, or the error text.
    Refreshed(Result<String, String>),
}

/// What the caller is to do next.
pub enum FolderAction {
    /// List the root folder with this access token.
    List(String),
    /// Ask for a new access token with this refresh token.
    Refresh(String),
    /// Stop: this is the result.
    Finish(Result<ListFoldersResult, String>),
}

/// Where a folder listing stands, by views.
pub enum FolderStageView {
    Listing,
    Refreshing,
    Relisting(Seq<char>),
    Finished,
}

/// A folder listing, by views.
pub struct FolderListingView {
    pub refresh_token: Option<Seq<char>>,
    pub stage: FolderStageView,
}

/// A folder listing's result, by views.
pub type FolderOutcomeView = Result<(Seq<Seq<char>>, Option<Seq<char>>), Seq<char>>;

/// What the caller is to do next, by views.
pub enum FolderActionView {
    List(Seq<char>),
    Refresh(Seq<char>),
    Finish(FolderOutcomeView),
}

impl View for FolderListing {
    type V = FolderListingView;

    closed spec fn view(&self) -> FolderListingView {
        FolderListingView {
            refresh_token: match self.refresh_token {
                Some(t) => Some(t@),
                None => None,
            },
            stage: match self.stage {
                FolderStage::Listing => FolderStageView::Listing,
                FolderStage::Refreshing => FolderStageView::Refreshing,
                FolderStage::Relisting(t) => FolderStageView::Relisting(t@),
                FolderStage::Finished => FolderStageView::Finished,
            },
        }
    }
}

impl View for FolderAction {
    type V = FolderActionView;

    open spec fn view(&self) -> FolderActionView {
        match self {
            FolderAction::List(t) => FolderActionView::List(t@),
            FolderAction::Refresh(t) => FolderActionView::Refresh(t@),
            FolderAction::Finish(Ok(r)) => FolderActionView::Finish(
                Ok(
                    (
                        strings_view(r.folders@),
                        match r.new_token {
                            Some(t) => Some(t@),
                            None => None,
                        },
                    ),
                ),
            ),
            FolderAction::Finish(Err(e)) => FolderActionView::Finish(Err(e@)),
        }
    }
}

/// Whether a listing in stage `stage` expects `event` next.
pub open spec fn folder_accepts(stage: FolderStageView, event: FolderEvent) -> bool {
    match (stage, event) {
        (FolderStageView::Listing, FolderEvent::Listed(_)) => true,
        (FolderStageView::Refreshing, FolderEvent::Refreshed(_)) => true,
        (FolderStageView::Relisting(_), FolderEvent::Listed(_)) => true,
        _ => false,
    }
}

/// The finished state with its result.
pub open spec fn folder_finish(s: FolderListingView, r: FolderOutcomeView) -> (
    FolderListingView,
    FolderActionView,
) {
    (FolderListingView { stage: FolderStageView::Finished, ..s }, FolderActionView::Finish(r))
}

/// One step of a folder listing: the next state and what to do, given the event.
pub open spec fn folder_step(s: FolderListingView, event: FolderEvent) -> (
    FolderListingView,
    FolderActionView,
) {
    match (s.stage, event) {
        (FolderStageView::Listing, FolderEvent::Listed(reply)) => match reply {
            Reply::SendFailed(e) => folder_finish(s, Err("네트워크 요청 실패: "@ + e@)),
            Reply::Succeeded(Ok(entries)) => folder_finish(s, Ok((folder_paths_of(entries@), None))),
            Reply::Succeeded(Err(e)) => folder_finish(s, Err("데이터 파싱 실패: "@ + e@)),
            Reply::Failed { status, text } => if token_rejected(status, text@) {
                match s.refresh_token {
                    Some(rt) => (
                        FolderListingView { stage: FolderStageView::Refreshing, ..s },
                        FolderActionView::Refresh(rt),
                    ),
                    None => folder_finish(s, Err("expired_access_token|"@ + text@)),
                }
            } else {
                folder_finish(s, Err("드롭박스 목록 조회 실패: "@ + text@))
            },
        },
        (FolderStageView::Refreshing, FolderEvent::Refreshed(r)) => match r {
            Ok(t) => (
                FolderListingView { stage: FolderStageView::Relisting(t@), ..s },
                FolderActionView::List(t@),
            ),
            Err(e) => folder_finish(s, Err("토큰 갱신 실패: "@ + e@ + ". 다시 로그인해주세요."@)),
        },
        (FolderStageView::Relisting(t), FolderEvent::Listed(reply)) => match reply {
            Reply::SendFailed(e) => folder_finish(s, Err("재시도 네트워크 요청 실패: "@ + e@)),
            Reply::Succeeded(Ok(entries)) => folder_finish(
                s,
                Ok((folder_paths_of(entries@), Some(t))),
            ),
            Reply::Succeeded(Err(e)) => folder_finish(s, Err("재시도 데이터 파싱 실패: "@ + e@)),
            Reply::Failed { status, text } => folder_finish(
                s,
                Err("토큰 갱신 후에도 실패: "@ + text@),
            ),
        },
        _ => (s, FolderActionView::Finish(Err(Seq::empty()))),
    }
}

impl FolderListing {
    /// Starts listing the root folder with `token`; `refresh_token` may renew it once.
    pub fn start(token: String, refresh_token: Option<String>) -> (res: (FolderListing, FolderAction))
        ensures
            res.0@ == (FolderListingView {
                refresh_token: match refresh_token {
                    Some(t) => Some(t@),
                    None => None,
                },
                stage: FolderStageView::Listing,
            }),
            res.1@ == FolderActionView::List(token@),
    {
        (FolderListing { refresh_token, stage: FolderStage::Listing }, FolderAction::List(token))
    }

    /// Whether the listing expects `event` next.
    pub fn accepts(&self, event: &FolderEvent) -> (res: bool)
        ensures
            res == folder_accepts(self@.stage, *event),
    {
        match (&self.stage, event) {
            (FolderStage::Listing, FolderEvent::Listed(_)) => true,
            (FolderStage::Refreshing, FolderEvent::Refreshed(_)) => true,
            (FolderStage::Relisting(_), FolderEvent::Listed(_)) => true,
            _ => false,
        }
    }

    /// Finishes with the given result.
    fn finish(&mut self, r: Result<ListFoldersResult, String>) -> (a: FolderAction)
        ensures
            final(self)@ == (FolderListingView { stage: FolderStageView::Finished, ..old(self)@ }),
            a == FolderAction::Finish(r),
    {
        self.stage = FolderStage::Finished;
        FolderAction::Finish(r)
    }

    /// Takes in the caller's report and says what to do next.
    pub fn step(&mut self, event: FolderEvent) -> (a: FolderAction)
        requires
            folder_accepts(old(self)@.stage, event),
        ensures
            (final(self)@, a@) == folder_step(old(self)@, event),
    {
        let mut stage = FolderStage::Finished;
        std::mem::swap(&mut stage, &mut self.stage);
        proof {
            assert(self@.refresh_token == old(self)@.refresh_token);
        }
        match stage {
            FolderStage::Listing => match event {
                FolderEvent::Listed(reply) => match reply {
                    Reply::SendFailed(e) => self.finish(Err(concat2("네트워크 요청 실패: ", e.as_str()))),
                    Reply::Succeeded(Ok(entries)) => {
                        let folders = folder_paths(&entries);
                        self.finish(Ok(ListFoldersResult { folders, new_token: None }))
                    },
                    Reply::Succeeded(Err(e)) => self.finish(Err(concat2("데이터 파싱 실패: ", e.as_str()))),
                    Reply::Failed { status, text } => {
                        if is_token_rejected(status, text.as_str()) {
                            match &self.refresh_token {
                                Some(rt) => {
                                    let rt = rt.clone();
                                    self.stage = FolderStage::Refreshing;
                                    FolderAction::Refresh(rt)
                                },
                                None => self.finish(Err(concat2("expired_access_token|", text.as_str()))),
                            }
                        } else {
                            self.finish(Err(concat2("드롭박스 목록 조회 실패: ", text.as_str())))
                        }
                    },
                },
                FolderEvent::Refreshed(_) => FolderAction::Finish(Err(String::new())),
            },
            FolderStage::Refreshing => match event {
                FolderEvent::Refreshed(r) => match r {
                    Ok(t) => {
                        let t2 = t.clone();
                        self.stage = FolderStage::Relisting(t);
                        FolderAction::List(t2)
                    },
                    Err(e) => self.finish(Err(concat3("토큰 갱신 실패: ", e.as_str(), ". 다시 로그인해주세요."))),
                },
                FolderEvent::Listed(_) => FolderAction::Finish(Err(String::new())),
            },
            FolderStage::Relisting(t) => match event {
                FolderEvent::Listed(reply) => match reply {
                    Reply::SendFailed(e) => self.finish(Err(concat2("재시도 네트워크 요청 실패: ", e.as_str()))),
                    Reply::Succeeded(Ok(entries)) => {
                        let folders = folder_paths(&entries);
                        self.finish(Ok(ListFoldersResult { folders, new_token: Some(t) }))
                    },
                    Reply::Succeeded(Err(e)) => self.finish(Err(concat2("재시도 데이터 파싱 실패: ", e.as_str()))),
                    Reply::Failed { status, text } => self.finish(Err(concat2("토큰 갱신 후에도 실패: ", text.as_str()))),
                },
                FolderEvent::Refreshed(_) => FolderAction::Finish(Err(String::new())),
            },
            FolderStage::Finished => FolderAction::Finish(Err(String::new())),
        }
    }
}

/// A listing renews its token at most once: after the renewed token's listing, it finishes.
pub proof fn law_folder_refresh_at_most_once(s: FolderListingView, event: FolderEvent)
    requires
        s.stage is Relisting,
        folder_accepts(s.stage, event),
    ensures
        folder_step(s, event).1 is Finish,
        folder_step(s, event).0.stage is Finished,
{
}

/// A listing with no refresh token never asks for a refresh.
pub proof fn law_folder_no_refresh_without_token(s: FolderListingView, event: FolderEvent)
    requires
        s.refresh_token is None,
        folder_accepts(s.stage, event),
    ensures
        !(folder_step(s, event).1 is Refresh),
{
}

/// The path under which each folder entry is offered: its display path, or '/' and its name.
pub open spec fn offered_path(e: RemoteEntry) -> Seq<char> {
    match e.path_display {
        Some(p) => p@,
        None => "/"@ + e.name@,
    }
}

/// The folders of a listing are its entries tagged "folder", in order, each offered under its
/// display path or, lacking one, under '/' followed by its name.
pub proof fn law_folder_paths(entries: Seq<RemoteEntry>)
    ensures
        folder_paths_of(entries) == entries.filter(|e: RemoteEntry| e.tag@ == "folder"@).map_values(
            |e: RemoteEntry| offered_path(e),
        ),
    decreases entries.len(),
{
    reveal_with_fuel(Seq::<_>::filter, 1);
    if entries.len() > 0 {
        law_folder_paths(entries.drop_last());
        let pred = |e: RemoteEntry| e.tag@ == "folder"@;
        let f = |e: RemoteEntry| offered_path(e);
        let sub = entries.drop_last().filter(pred);
        if pred(entries.last()) {
            assert(sub.push(entries.last()).map_values(f) =~= sub.map_values(f).push(
                f(entries.last()),
            ));
        }
    }
}

/// A successful listing gives the same folders whether it is the first listing or the one
/// after a token renewal: the entries tagged "folder", in order, each under its display path
/// or '/' and its name; after a renewal the new token comes with them.
pub proof fn law_folder_listing_result(
    s: FolderListingView,
    entries: Vec<RemoteEntry>,
)
    requires
        s.stage is Listing || s.stage is Relisting,
    ensures
        folder_step(s, FolderEvent::Listed(Reply::Succeeded(Ok(entries)))).1 == FolderActionView::Finish(
            Ok(
                (
                    entries@.filter(|e: RemoteEntry| e.tag@ == "folder"@).map_values(
                        |e: RemoteEntry| offered_path(e),
                    ),
                    match s.stage {
                        FolderStageView::Relisting(t) => Some(t),
                        _ => None,
                    },
                ),
            ),
        ),
{
    law_folder_paths(entries@);
}

} // verus!
