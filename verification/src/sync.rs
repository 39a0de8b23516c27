//! Two-way sync planning.
//!
//! For each enabled item, the cloud folder is listed (renewing the access token once if
//! Dropbox refuses it), each listed file is paired with the local file at the same relative
//! path, and a transfer is planned where the two differ: a file on one side only is copied to
//! the other; where both exist with different content hashes, the side modified later wins.
//! Local files that the cloud does not list are uploaded.
//!
//! The caller performs the listings, token refreshes, local file checks and transfers;
//! `SyncPlanner` decides, from each report, what to do next.
use crate::api::{opt_view, RemoteEntry};
use crate::paths::{
    cloud_base, cloud_base_of, normalize_cloud_path, normalized_cloud_path_of, relative_path_of,
    relative_remote_path, upload_path_of, upload_remote_path,
};
use crate::text::{concat2, concat3, contains, decimal, decimal_string, occurs_in};
use vstd::prelude::*;

verus! {

// ---------------------------------------------------------------------------
// Data
// ---------------------------------------------------------------------------

/// One game's save folder, paired with a Dropbox folder.
pub struct SyncItem {
    pub name: String,
    pub local_path: String,
    pub cloud_path: String,
    pub token: String,
    pub refresh_token: Option<String>,
    pub enabled: bool,
}

/// A sync item, by views.
pub struct SyncItemView {
    pub name: Seq<char>,
    pub local_path: Seq<char>,
    pub cloud_path: Seq<char>,
    pub token: Seq<char>,
    pub refresh_token: Option<Seq<char>>,
    pub enabled: bool,
}

impl View for SyncItem {
    type V = SyncItemView;

    open spec fn view(&self) -> SyncItemView {
        SyncItemView {
            name: self.name@,
            local_path: self.local_path@,
            cloud_path: self.cloud_path@,
            token: self.token@,
            refresh_token: opt_view(self.refresh_token),
            enabled: self.enabled,
        }
    }
}

/// How a sync ended.
pub struct SyncResult {
    pub success: bool,
    pub message: String,
}

/// Which way a file is copied.
#[derive(Clone, Copy, PartialEq, Eq, Structural, Debug)]
pub enum Direction {
    /// From the local folder to Dropbox.
    Upload,
    /// From Dropbox to the local folder.
    Download,
}

/// One planned transfer.
pub struct SyncTask {
    pub direction: Direction,
    /// The access token to send it with.
    pub token: String,
    pub remote_path: String,
    pub local_path: String,
    /// The file's path relative to the synced folder, shown as progress.
    pub file_name: String,
}

/// A planned transfer, by views.
pub struct SyncTaskView {
    pub direction: Direction,
    pub token: Seq<char>,
    pub remote_path: Seq<char>,
    pub local_path: Seq<char>,
    pub file_name: Seq<char>,
}

impl View for SyncTask {
    type V = SyncTaskView;

    open spec fn view(&self) -> SyncTaskView {
        SyncTaskView {
            direction: self.direction,
            token: self.token@,
            remote_path: self.remote_path@,
            local_path: self.local_path@,
            file_name: self.file_name@,
        }
    }
}

/// A moment: whole seconds since the Unix epoch (UTC), and nanoseconds past that second.
#[derive(Clone, Copy, Debug)]
pub struct Instant {
    pub secs: i64,
    pub nanos: u32,
}

/// What the caller found at the local side of a listed cloud file.
pub struct LocalProbe {
    /// Where the file is, or would be, on disk.
    pub local_path: String,
    pub exists: bool,
    /// The local file's content hash (empty when it could not be read).
    pub hash: String,
    /// When the local file was last modified, when that could be read.
    pub modified: Option<Instant>,
}

/// A file found in the local folder.
pub struct LocalFile {
    /// Its path relative to the synced folder, with '/' separators.
    pub rel_path: String,
    /// Its path on disk.
    pub path: String,
}

/// A listed cloud file waiting for its local side to be checked.
pub struct PendingFile {
    pub remote_path: String,
    pub rel_path: String,
    pub hash: String,
    pub modified: Option<String>,
}

/// A listed cloud file waiting for its local side, by views.
pub struct PendingView {
    pub remote_path: Seq<char>,
    pub rel_path: Seq<char>,
    pub hash: Seq<char>,
    pub modified: Option<Seq<char>>,
}

impl View for PendingFile {
    type V = PendingView;

    open spec fn view(&self) -> PendingView {
        PendingView {
            remote_path: self.remote_path@,
            rel_path: self.rel_path@,
            hash: self.hash@,
            modified: opt_view(self.modified),
        }
    }
}

/// The messages of the sync.
pub const UP_TO_DATE: &'static str = "이미 모든 파일이 최신 상태입니다.";

pub const CANCELLED: &'static str = "동기화가 취소되었습니다.";

pub const STOPPED: &'static str = "동기화가 중단되었습니다.";

pub const SESSION_EXPIRED: &'static str = "세션이 만료되었습니다. 다시 로그인해주세요.";

pub const UNSPLITTABLE: &'static str = "클라우드 경로를 나눌 수 없습니다: ";

// ---------------------------------------------------------------------------
// Times
// ---------------------------------------------------------------------------

/// An RFC 3339 time as `chrono` reads it: the moment (seconds and nanoseconds since the Unix
/// epoch), or the text of the parse error.
pub uninterp spec fn rfc3339_parse(text: Seq<char>) -> Result<(i64, u32), Seq<char>>;

/// Reads an RFC 3339 time.
/// Calls `chrono::DateTime::parse_from_rfc3339`, then `timestamp` and
/// `timestamp_subsec_nanos` of the result, or the error's text; the outcome is named
/// `rfc3339_parse`.
#[verifier::external_body]
fn parse_rfc3339(text: &str) -> (res: Result<(i64, u32), String>)
    ensures
        match res {
            Ok(t) => rfc3339_parse(text@) == Ok::<(i64, u32), Seq<char>>(t),
            Err(e) => rfc3339_parse(text@) == Err::<(i64, u32), Seq<char>>(e@),
        },
{
    match chrono::DateTime::parse_from_rfc3339(text) {
        Ok(dt) => Ok((dt.timestamp(), dt.timestamp_subsec_nanos())),
        Err(e) => Err(e.to_string()),
    }
}

/// The cloud moment comes after the local one.
pub open spec fn remote_is_newer(remote: (i64, u32), local: Instant) -> bool {
    remote.0 > local.secs || (remote.0 == local.secs && remote.1 > local.nanos)
}

// ---------------------------------------------------------------------------
// Deciding one file
// ---------------------------------------------------------------------------

/// A string, or the empty string for none.
pub open spec fn or_empty(o: Option<Seq<char>>) -> Seq<char> {
    match o {
        Some(s) => s,
        None => Seq::empty(),
    }
}

/// What to do with a listed cloud file, given its local side: download it when there is no
/// local file; nothing when the content hashes agree; otherwise copy from the side modified
/// later, the cloud side when it is strictly later; nothing when the local time is unknown.
/// An unreadable cloud time stops the sync.
pub open spec fn decide_of(p: PendingView, probe: LocalProbe) -> Result<Option<Direction>, Seq<char>> {
    if !probe.exists {
        Ok(Some(Direction::Download))
    } else if probe.hash@ == p.hash {
        Ok(None)
    } else {
        time_verdict_of(rfc3339_parse(or_empty(p.modified)), probe.modified)
    }
}

/// Which copy wins, given the cloud time as read (or the parse error) and the local time if
/// known: the cloud copy when strictly newer, else the local one; nothing when the local time
/// is unknown; an unreadable cloud time stops the sync.
pub open spec fn time_verdict_of(remote: Result<(i64, u32), Seq<char>>, local: Option<Instant>) -> Result<
    Option<Direction>,
    Seq<char>,
> {
    match remote {
        Err(e) => Err("서버 시간 파싱 실패: "@ + e),
        Ok(r) => match local {
            None => Ok(None),
            Some(l) => if remote_is_newer(r, l) {
                Ok(Some(Direction::Download))
            } else {
                Ok(Some(Direction::Upload))
            },
        },
    }
}

/// The view of a parsed time.
pub open spec fn time_view(r: Result<(i64, u32), String>) -> Result<(i64, u32), Seq<char>> {
    match r {
        Ok(t) => Ok(t),
        Err(e) => Err(e@),
    }
}

/// Decides which copy wins, given the cloud time as read and the local time if known.
pub fn time_verdict(remote: Result<(i64, u32), String>, local: Option<Instant>) -> (res: Result<
    Option<Direction>,
    String,
>)
    ensures
        match res {
            Ok(d) => time_verdict_of(time_view(remote), local) == Ok::<Option<Direction>, Seq<char>>(d),
            Err(e) => time_verdict_of(time_view(remote), local) == Err::<Option<Direction>, Seq<char>>(e@),
        },
{
    match remote {
        Err(e) => Err(concat2("서버 시간 파싱 실패: ", e.as_str())),
        Ok(r) => match local {
            None => Ok(None),
            Some(l) => {
                if r.0 > l.secs || (r.0 == l.secs && r.1 > l.nanos) {
                    Ok(Some(Direction::Download))
                } else {
                    Ok(Some(Direction::Upload))
                }
            },
        },
    }
}

/// Decides what to do with a listed cloud file, given its local side.
pub fn decide_file(p: &PendingFile, probe: &LocalProbe) -> (res: Result<Option<Direction>, String>)
    ensures
        match res {
            Ok(d) => decide_of(p@, *probe) == Ok::<Option<Direction>, Seq<char>>(d),
            Err(e) => decide_of(p@, *probe) == Err::<Option<Direction>, Seq<char>>(e@),
        },
{
    if !probe.exists {
        return Ok(Some(Direction::Download));
    }
    if probe.hash == p.hash {
        return Ok(None);
    }
    let text = match &p.modified {
        Some(m) => m.clone(),
        None => String::new(),
    };
    let parsed = parse_rfc3339(text.as_str());
    assert(time_view(parsed) == rfc3339_parse(text@));
    time_verdict(parsed, probe.modified)
}

// ---------------------------------------------------------------------------
// Pairing listed files with relative paths
// ---------------------------------------------------------------------------

/// The listed cloud files of an item, each with its relative path, skipping those whose
/// relative path is empty; `cut` is the cloud path of the first file whose path cannot be cut
/// at the folder (the files before it are kept), if there is one.
pub struct RemoteScan {
    pub files: Seq<PendingView>,
    pub cut: Option<Seq<char>>,
}

/// Pairs each listed file with its relative path, in listing order.
pub open spec fn scan_remote(files: Seq<RemoteEntry>, base: Seq<char>) -> RemoteScan
    decreases files.len(),
{
    if files.len() == 0 {
        RemoteScan { files: seq![], cut: None }
    } else {
        let r = scan_remote(files.drop_last(), base);
        if r.cut is Some {
            r
        } else {
            let f = files.last();
            let rp = or_empty(opt_view(f.path_display));
            match relative_path_of(rp, f.name@, base) {
                None => RemoteScan { files: r.files, cut: Some(rp) },
                Some(rel) => if rel.len() == 0 {
                    r
                } else {
                    RemoteScan {
                        files: r.files.push(
                            PendingView {
                                remote_path: rp,
                                rel_path: rel,
                                hash: or_empty(opt_view(f.content_hash)),
                                modified: opt_view(f.server_modified),
                            },
                        ),
                        cut: None,
                    }
                },
            }
        }
    }
}

/// The views of a list of pending files.
pub open spec fn pending_views(v: Seq<PendingFile>) -> Seq<PendingView> {
    v.map_values(|p: PendingFile| p@)
}

/// The relative paths of pending files.
pub open spec fn rel_paths_of(v: Seq<PendingView>) -> Seq<Seq<char>> {
    v.map_values(|p: PendingView| p.rel_path)
}

/// A string or the empty string.
fn clone_or_empty(o: &Option<String>) -> (res: String)
    ensures
        res@ == or_empty(opt_view(*o)),
{
    match o {
        Some(s) => s.clone(),
        None => String::new(),
    }
}

/// A copy of an optional string.
fn clone_opt(o: &Option<String>) -> (res: Option<String>)
    ensures
        opt_view(res) == opt_view(*o),
{
    match o {
        Some(s) => Some(s.clone()),
        None => None,
    }
}

/// Pairs each listed cloud file with its relative path under the folder whose lowercase path
/// is `base`.
pub fn scan_remote_files(files: &Vec<RemoteEntry>, base: &str) -> (res: (Vec<PendingFile>, Option<
    String,
>))
    ensures
        pending_views(res.0@) == scan_remote(files@, base@).files,
        opt_view(res.1) == scan_remote(files@, base@).cut,
{
    let mut out: Vec<PendingFile> = Vec::new();
    let n = files.len();
    let mut i: usize = 0;
    assert(pending_views(out@) =~= scan_remote(files@.take(0), base@).files);
    while i < n
        invariant
            n == files@.len(),
            i <= n,
            pending_views(out@) == scan_remote(files@.take(i as int), base@).files,
            scan_remote(files@.take(i as int), base@).cut is None,
        decreases n - i,
    {
        let f = &files[i];
        proof {
            assert(files@.take(i + 1).drop_last() =~= files@.take(i as int));
            assert(files@.take(i + 1).last() == files@[i as int]);
        }
        let rp = clone_or_empty(&f.path_display);
        match relative_remote_path(rp.as_str(), f.name.as_str(), base) {
            None => {
                proof {
                    let k = n as int;
                    lemma_scan_cut_stays(files@, base@, i as int + 1, k);
                    assert(files@.take(k) =~= files@);
                }
                return (out, Some(rp));
            },
            Some(rel) => {
                if rel.as_str().is_empty() {
                } else {
                    let p = PendingFile {
                        remote_path: rp,
                        rel_path: rel,
                        hash: clone_or_empty(&f.content_hash),
                        modified: clone_opt(&f.server_modified),
                    };
                    out.push(p);
                    assert(pending_views(out@) =~= scan_remote(files@.take(i as int), base@).files.push(
                        p@,
                    ));
                }
            },
        }
        i = i + 1;
    }
    assert(files@.take(n as int) =~= files@);
    (out, None)
}

/// Once a file cannot be cut, later files change nothing.
proof fn lemma_scan_cut_stays(files: Seq<RemoteEntry>, base: Seq<char>, i: int, k: int)
    requires
        0 <= i <= k <= files.len(),
        scan_remote(files.take(i), base).cut is Some,
    ensures
        scan_remote(files.take(k), base) == scan_remote(files.take(i), base),
    decreases k - i,
{
    if i < k {
        lemma_scan_cut_stays(files, base, i, k - 1);
        assert(files.take(k).drop_last() =~= files.take(k - 1));
    }
}

// ---------------------------------------------------------------------------
// Planning transfers
// ---------------------------------------------------------------------------

/// The transfers for listed cloud files, given their local sides (one for each, in order), all
/// sent with `token`; the first unreadable cloud time stops the planning.
pub open spec fn remote_tasks_of(pending: Seq<PendingView>, probes: Seq<LocalProbe>, token: Seq<char>) -> Result<
    Seq<SyncTaskView>,
    Seq<char>,
>
    decreases pending.len(),
{
    if pending.len() == 0 || probes.len() < pending.len() {
        Ok(seq![])
    } else {
        let n = pending.len() - 1;
        match remote_tasks_of(pending.drop_last(), probes.take(n), token) {
            Err(e) => Err(e),
            Ok(ts) => match decide_of(pending[n], probes[n]) {
                Err(e) => Err(e),
                Ok(None) => Ok(ts),
                Ok(Some(d)) => Ok(
                    ts.push(
                        SyncTaskView {
                            direction: d,
                            token,
                            remote_path: pending[n].remote_path,
                            local_path: probes[n].local_path@,
                            file_name: pending[n].rel_path,
                        },
                    ),
                ),
            },
        }
    }
}

/// The views of a list of tasks.
pub open spec fn task_views(v: Seq<SyncTask>) -> Seq<SyncTaskView> {
    v.map_values(|t: SyncTask| t@)
}

/// Plans the transfers for listed cloud files, given their local sides.
pub fn remote_tasks(pending: &Vec<PendingFile>, probes: &Vec<LocalProbe>, token: &str) -> (res: Result<
    Vec<SyncTask>,
    String,
>)
    requires
        probes@.len() == pending@.len(),
    ensures
        match res {
            Ok(v) => remote_tasks_of(pending_views(pending@), probes@, token@) == Ok::<
                Seq<SyncTaskView>,
                Seq<char>,
            >(task_views(v@)),
            Err(e) => remote_tasks_of(pending_views(pending@), probes@, token@) == Err::<
                Seq<SyncTaskView>,
                Seq<char>,
            >(e@),
        },
{
    let mut out: Vec<SyncTask> = Vec::new();
    let n = pending.len();
    let ghost pv = pending_views(pending@);
    assert(pv.take(0) =~= Seq::<PendingView>::empty());
    assert(task_views(out@) =~= Seq::<SyncTaskView>::empty());
    for i in 0..n
        invariant
            n == pending@.len(),
            n == probes@.len(),
            pv == pending_views(pending@),
            remote_tasks_of(pv.take(i as int), probes@.take(i as int), token@) == Ok::<
                Seq<SyncTaskView>,
                Seq<char>,
            >(task_views(out@)),
    {
        proof {
            assert(pv.take(i + 1).drop_last() =~= pv.take(i as int));
            assert(probes@.take(i + 1).take(i as int) =~= probes@.take(i as int));
            assert(pv.take(i + 1)[i as int] == pending@[i as int]@);
            assert(probes@.take(i + 1)[i as int] == probes@[i as int]);
        }
        match decide_file(&pending[i], &probes[i]) {
            Err(e) => {
                proof {
                    lemma_remote_tasks_err_stays(pv, probes@, token@, i as int + 1, n as int, e@);
                    assert(pv.take(n as int) =~= pv);
                    assert(probes@.take(n as int) =~= probes@);
                }
                return Err(e);
            },
            Ok(None) => {},
            Ok(Some(d)) => {
                let t = SyncTask {
                    direction: d,
                    token: token.to_owned(),
                    remote_path: pending[i].remote_path.clone(),
                    local_path: probes[i].local_path.clone(),
                    file_name: pending[i].rel_path.clone(),
                };
                let ghost prev = out@;
                out.push(t);
                assert(task_views(out@) =~= task_views(prev).push(t@));
            },
        }
    }
    assert(pv.take(n as int) =~= pv);
    assert(probes@.take(n as int) =~= probes@);
    Ok(out)
}

/// Once planning stops on an error, later files keep the same error.
proof fn lemma_remote_tasks_err_stays(
    pending: Seq<PendingView>,
    probes: Seq<LocalProbe>,
    token: Seq<char>,
    i: int,
    k: int,
    e: Seq<char>,
)
    requires
        0 <= i <= k <= pending.len(),
        probes.len() == pending.len(),
        remote_tasks_of(pending.take(i), probes.take(i), token) == Err::<Seq<SyncTaskView>, Seq<char>>(e),
    ensures
        remote_tasks_of(pending.take(k), probes.take(k), token) == Err::<Seq<SyncTaskView>, Seq<char>>(e),
    decreases k - i,
{
    if i < k {
        lemma_remote_tasks_err_stays(pending, probes, token, i, k - 1, e);
        assert(pending.take(k).drop_last() =~= pending.take(k - 1));
        assert(probes.take(k).take(k - 1) =~= probes.take(k - 1));
    }
}

/// The uploads for local files that the cloud does not list (by relative path), in order,
/// each to the item's cloud folder and sent with `token`.
pub open spec fn uploads_of(
    files: Seq<LocalFile>,
    listed: Seq<Seq<char>>,
    cloud_path: Seq<char>,
    token: Seq<char>,
) -> Seq<SyncTaskView>
    decreases files.len(),
{
    if files.len() == 0 {
        seq![]
    } else {
        let rest = uploads_of(files.drop_last(), listed, cloud_path, token);
        let f = files.last();
        if listed.contains(f.rel_path@) {
            rest
        } else {
            rest.push(
                SyncTaskView {
                    direction: Direction::Upload,
                    token,
                    remote_path: upload_path_of(cloud_path, f.rel_path@),
                    local_path: f.path@,
                    file_name: f.rel_path@,
                },
            )
        }
    }
}

/// Whether `s` is one of `list`.
fn contains_string(list: &Vec<String>, s: &String) -> (res: bool)
    ensures
        res == list@.map_values(|x: String| x@).contains(s@),
{
    let n = list.len();
    let ghost lv = list@.map_values(|x: String| x@);
    for i in 0..n
        invariant
            n == list@.len(),
            lv == list@.map_values(|x: String| x@),
            forall|j: int| 0 <= j < i ==> lv[j] != s@,
    {
        if list[i] == *s {
            assert(lv[i as int] == s@);
            return true;
        }
    }
    false
}

/// The relative paths of pending files.
fn rel_paths(pending: &Vec<PendingFile>) -> (res: Vec<String>)
    ensures
        string_views(res@) == rel_paths_of(pending_views(pending@)),
{
    let mut rels: Vec<String> = Vec::new();
    let m = pending.len();
    for k in 0..m
        invariant
            m == pending@.len(),
            string_views(rels@) == rel_paths_of(pending_views(pending@)).take(k as int),
    {
        let ghost prev = rels@;
        let r = pending[k].rel_path.clone();
        rels.push(r);
        assert(string_views(rels@) =~= string_views(prev).push(r@));
        assert(rel_paths_of(pending_views(pending@)).take(k + 1) =~= rel_paths_of(
            pending_views(pending@),
        ).take(k as int).push(r@));
    }
    assert(rel_paths_of(pending_views(pending@)).take(m as int) =~= rel_paths_of(
        pending_views(pending@),
    ));
    rels
}

/// Plans the uploads of local files that the cloud does not list.
pub fn local_uploads(files: &Vec<LocalFile>, listed: &Vec<String>, cloud_path: &str, token: &str) -> (res:
    Vec<SyncTask>)
    ensures
        task_views(res@) == uploads_of(
            files@,
            listed@.map_values(|x: String| x@),
            cloud_path@,
            token@,
        ),
{
    let mut out: Vec<SyncTask> = Vec::new();
    let n = files.len();
    let ghost lv = listed@.map_values(|x: String| x@);
    for i in 0..n
        invariant
            n == files@.len(),
            lv == listed@.map_values(|x: String| x@),
            task_views(out@) == uploads_of(files@.take(i as int), lv, cloud_path@, token@),
    {
        let f = &files[i];
        proof {
            assert(files@.take(i + 1).drop_last() =~= files@.take(i as int));
            assert(files@.take(i + 1).last() == files@[i as int]);
        }
        if !contains_string(listed, &f.rel_path) {
            let t = SyncTask {
                direction: Direction::Upload,
                token: token.to_owned(),
                remote_path: upload_remote_path(cloud_path, f.rel_path.as_str()),
                local_path: f.path.clone(),
                file_name: f.rel_path.clone(),
            };
            let ghost prev = out@;
            out.push(t);
            assert(task_views(out@) =~= task_views(prev).push(t@));
        }
    }
    assert(files@.take(n as int) =~= files@);
    out
}

// ---------------------------------------------------------------------------
// The planner
// ---------------------------------------------------------------------------

/// Where the planning of the current item stands.
pub enum SyncStage {
    /// The item's cloud folder is being listed.
    Listing,
    /// The access token was refused; a refresh is out.
    Refreshing,
    /// The folder is being listed again with the renewed token.
    Relisting,
    /// The listing is in; the caller checks whether the user cancelled.
    CheckingCancel(Vec<RemoteEntry>),
    /// The local sides of these listed files are being checked; the string is the cloud path
    /// of a file after them that cannot be cut at the folder, if there is one.
    Probing(Vec<PendingFile>, Option<String>),
    /// The local folder is being scanned; these relative paths are listed in the cloud.
    Scanning(Vec<String>),
    /// The planning is over.
    Done,
}

/// Where the planning stands, by views.
pub enum SyncStageView {
    Listing,
    Refreshing,
    Relisting,
    CheckingCancel(Seq<RemoteEntry>),
    Probing(Seq<PendingView>, Option<Seq<char>>),
    Scanning(Seq<Seq<char>>),
    Done,
}

/// The state of a sync being planned.
pub struct SyncPlanner {
    items: Vec<SyncItem>,
    index: usize,
    global_token: Option<String>,
    current_token: String,
    updated: Vec<(usize, String)>,
    tasks: Vec<SyncTask>,
    stage: SyncStage,
}

/// The state of a sync being planned, by views.
pub struct PlannerView {
    /// The items, with the tokens renewed so far.
    pub items: Seq<SyncItemView>,
    /// The item being planned.
    pub index: usize,
    /// The token renewed most recently, which every later item uses.
    pub global_token: Option<Seq<char>>,
    /// The token in use for the current item.
    pub current_token: Seq<char>,
    /// The renewed tokens, each with the index of the item it was renewed for.
    pub updated: Seq<(usize, Seq<char>)>,
    /// The transfers planned so far.
    pub tasks: Seq<SyncTaskView>,
    pub stage: SyncStageView,
}

/// What the caller reports back.
pub enum SyncEvent {
    /// The outcome of listing the current cloud folder: every file under it, from all pages of
    /// the listing (as `FileListing` gathers them), or why there are none.
    Listed(Result<Vec<RemoteEntry>, String>),
    /// The outcome of a token refresh.
    Refreshed(Result<String, String>),
    /// Whether the user has asked to cancel.
    CancelChecked(bool),
    /// The local sides of the files asked about, in the same order.
    Probed(Vec<LocalProbe>),
    /// The files found in the local folder.
    Scanned(Vec<LocalFile>),
}

/// What the caller is to do next.
pub enum SyncAction {
    /// List every file under the cloud folder `path`, reading all pages, with `token`.
    ListRemote { token: String, path: String },
    /// Ask for a new access token with this refresh token.
    RefreshToken(String),
    /// Check whether the user has asked to cancel.
    CheckCancel,
    /// Make sure the local folder exists, then check the local file at each relative path.
    ProbeLocal { local_dir: String, rel_paths: Vec<String> },
    /// List the files under the local folder, recursively.
    ScanLocal(String),
    /// Report the renewed tokens, then carry out the transfers.
    Execute { tasks: Vec<SyncTask>, updated_tokens: Vec<(usize, String)> },
    /// Report the renewed tokens, if any, and stop with this result.
    Finish { result: Result<SyncResult, String>, updated_tokens: Vec<(usize, String)> },
}

/// What the caller is to do next, by views.
pub enum SyncActionView {
    ListRemote { token: Seq<char>, path: Seq<char> },
    RefreshToken(Seq<char>),
    CheckCancel,
    ProbeLocal { local_dir: Seq<char>, rel_paths: Seq<Seq<char>> },
    ScanLocal(Seq<char>),
    Execute { tasks: Seq<SyncTaskView>, updated_tokens: Seq<(usize, Seq<char>)> },
    Finish { result: Result<(bool, Seq<char>), Seq<char>>, updated_tokens: Seq<(usize, Seq<char>)> },
}

/// The views of renewed tokens.
pub open spec fn updated_views(v: Seq<(usize, String)>) -> Seq<(usize, Seq<char>)> {
    v.map_values(|p: (usize, String)| (p.0, p.1@))
}

/// The views of items.
pub open spec fn item_views(v: Seq<SyncItem>) -> Seq<SyncItemView> {
    v.map_values(|it: SyncItem| it@)
}

/// The views of strings.
pub open spec fn string_views(v: Seq<String>) -> Seq<Seq<char>> {
    v.map_values(|s: String| s@)
}

impl View for SyncAction {
    type V = SyncActionView;

    open spec fn view(&self) -> SyncActionView {
        match self {
            SyncAction::ListRemote { token, path } => SyncActionView::ListRemote {
                token: token@,
                path: path@,
            },
            SyncAction::RefreshToken(t) => SyncActionView::RefreshToken(t@),
            SyncAction::CheckCancel => SyncActionView::CheckCancel,
            SyncAction::ProbeLocal { local_dir, rel_paths } => SyncActionView::ProbeLocal {
                local_dir: local_dir@,
                rel_paths: string_views(rel_paths@),
            },
            SyncAction::ScanLocal(d) => SyncActionView::ScanLocal(d@),
            SyncAction::Execute { tasks, updated_tokens } => SyncActionView::Execute {
                tasks: task_views(tasks@),
                updated_tokens: updated_views(updated_tokens@),
            },
            SyncAction::Finish { result, updated_tokens } => SyncActionView::Finish {
                result: match result {
                    Ok(r) => Ok((r.success, r.message@)),
                    Err(e) => Err(e@),
                },
                updated_tokens: updated_views(updated_tokens@),
            },
        }
    }
}

impl View for SyncPlanner {
    type V = PlannerView;

    closed spec fn view(&self) -> PlannerView {
        PlannerView {
            items: item_views(self.items@),
            index: self.index,
            global_token: opt_view(self.global_token),
            current_token: self.current_token@,
            updated: updated_views(self.updated@),
            tasks: task_views(self.tasks@),
            stage: match self.stage {
                SyncStage::Listing => SyncStageView::Listing,
                SyncStage::Refreshing => SyncStageView::Refreshing,
                SyncStage::Relisting => SyncStageView::Relisting,
                SyncStage::CheckingCancel(files) => SyncStageView::CheckingCancel(files@),
                SyncStage::Probing(p, c) => SyncStageView::Probing(pending_views(p@), opt_view(c)),
                SyncStage::Scanning(r) => SyncStageView::Scanning(string_views(r@)),
                SyncStage::Done => SyncStageView::Done,
            },
        }
    }
}

/// The first enabled item at or after `from`.
pub open spec fn next_enabled(items: Seq<SyncItemView>, from: int) -> Option<int>
    decreases items.len() - from,
{
    if from < 0 || from >= items.len() {
        None
    } else if items[from].enabled {
        Some(from)
    } else {
        next_enabled(items, from + 1)
    }
}

/// The end of planning: with no transfers the sync is already complete; otherwise the
/// transfers are handed over. Either way the renewed tokens are reported.
pub open spec fn finish_all(s: PlannerView) -> (PlannerView, SyncActionView) {
    let done = PlannerView { tasks: seq![], updated: seq![], stage: SyncStageView::Done, ..s };
    if s.tasks.len() == 0 {
        (done, SyncActionView::Finish { result: Ok((true, UP_TO_DATE@)), updated_tokens: s.updated })
    } else {
        (done, SyncActionView::Execute { tasks: s.tasks, updated_tokens: s.updated })
    }
}

/// Starts on the first enabled item at or after `from`, with the most recently renewed token
/// if there is one, else the item's own; finishes when there is none.
pub open spec fn begin_item(s: PlannerView, from: int) -> (PlannerView, SyncActionView) {
    match next_enabled(s.items, from) {
        None => finish_all(s),
        Some(j) => {
            let it = s.items[j];
            let token = match s.global_token {
                Some(t) => t,
                None => it.token,
            };
            (
                PlannerView {
                    index: j as usize,
                    current_token: token,
                    stage: SyncStageView::Listing,
                    ..s
                },
                SyncActionView::ListRemote { token, path: normalized_cloud_path_of(it.cloud_path) },
            )
        },
    }
}

/// Stops the sync with an error; no renewed token is reported.
pub open spec fn fail(s: PlannerView, msg: Seq<char>) -> (PlannerView, SyncActionView) {
    (
        PlannerView { stage: SyncStageView::Done, ..s },
        SyncActionView::Finish { result: Err(msg), updated_tokens: seq![] },
    )
}

/// The items with every item after `index` given the renewed token, if there is one.
pub open spec fn propagate(items: Seq<SyncItemView>, index: int, global: Option<Seq<char>>) -> Seq<
    SyncItemView,
> {
    match global {
        Some(t) => Seq::new(
            items.len(),
            |j: int| if j > index {
                SyncItemView { token: t, ..items[j] }
            } else {
                items[j]
            },
        ),
        None => items,
    }
}

/// The items with those after `index` and before `upto` given token `t`.
pub open spec fn propagated_upto(items: Seq<SyncItemView>, index: int, t: Seq<char>, upto: int) -> Seq<
    SyncItemView,
> {
    Seq::new(
        items.len(),
        |k: int| if index < k < upto {
            SyncItemView { token: t, ..items[k] }
        } else {
            items[k]
        },
    )
}

/// After a successful listing: later items take the renewed token; then ask about cancelling.
pub open spec fn after_listing(s: PlannerView, files: Seq<RemoteEntry>) -> (
    PlannerView,
    SyncActionView,
) {
    (
        PlannerView {
            items: propagate(s.items, s.index as int, s.global_token),
            stage: SyncStageView::CheckingCancel(files),
            ..s
        },
        SyncActionView::CheckCancel,
    )
}

/// A listing error that means the folder does not exist.
pub open spec fn is_missing_folder(e: Seq<char>) -> bool {
    occurs_in(e, "ERR_CODE:409"@) && (occurs_in(e, "path_not_found"@) || occurs_in(e, "not_found"@))
}

/// A listing error that means the access token has expired.
pub open spec fn is_expired(e: Seq<char>) -> bool {
    occurs_in(e, "401"@) || occurs_in(e, "expired"@)
}

/// Whether the planner in stage `stage` expects `event` next.
pub open spec fn sync_accepts(stage: SyncStageView, event: SyncEvent) -> bool {
    match (stage, event) {
        (SyncStageView::Listing, SyncEvent::Listed(_)) => true,
        (SyncStageView::Refreshing, SyncEvent::Refreshed(_)) => true,
        (SyncStageView::Relisting, SyncEvent::Listed(_)) => true,
        (SyncStageView::CheckingCancel(_), SyncEvent::CancelChecked(_)) => true,
        (SyncStageView::Probing(p, _), SyncEvent::Probed(probes)) => probes@.len() == p.len(),
        (SyncStageView::Scanning(_), SyncEvent::Scanned(_)) => true,
        _ => false,
    }
}

/// One step of the planning: the next state and what to do, given the event.
pub open spec fn sync_step(s: PlannerView, event: SyncEvent) -> (PlannerView, SyncActionView) {
    let it = s.items[s.index as int];
    match (s.stage, event) {
        (SyncStageView::Listing, SyncEvent::Listed(r)) => match r {
            Ok(files) => after_listing(s, files@),
            Err(e) => if is_missing_folder(e@) {
                after_listing(s, seq![])
            } else if is_expired(e@) {
                match it.refresh_token {
                    Some(rt) => (
                        PlannerView { stage: SyncStageView::Refreshing, ..s },
                        SyncActionView::RefreshToken(rt),
                    ),
                    None => fail(s, SESSION_EXPIRED@),
                }
            } else {
                fail(s, "클라우드 연결 오류 ("@ + it.name + "): "@ + e@)
            },
        },
        (SyncStageView::Refreshing, SyncEvent::Refreshed(r)) => match r {
            Ok(t) => (
                PlannerView {
                    items: s.items.update(s.index as int, SyncItemView { token: t@, ..it }),
                    global_token: Some(t@),
                    current_token: t@,
                    updated: s.updated.push((s.index, t@)),
                    stage: SyncStageView::Relisting,
                    ..s
                },
                SyncActionView::ListRemote { token: t@, path: normalized_cloud_path_of(it.cloud_path) },
            ),
            Err(e) => fail(s, "토큰 갱신 실패: "@ + e@ + ". 다시 로그인해주세요."@),
        },
        (SyncStageView::Relisting, SyncEvent::Listed(r)) => match r {
            Ok(files) => after_listing(s, files@),
            Err(e) => fail(s, "토큰 갱신 후에도 실패: "@ + e@),
        },
        (SyncStageView::CheckingCancel(files), SyncEvent::CancelChecked(c)) => if c {
            (
                PlannerView { stage: SyncStageView::Done, ..s },
                SyncActionView::Finish { result: Ok((false, CANCELLED@)), updated_tokens: seq![] },
            )
        } else {
            let scan = scan_remote(files, cloud_base_of(normalized_cloud_path_of(it.cloud_path)));
            (
                PlannerView { stage: SyncStageView::Probing(scan.files, scan.cut), ..s },
                SyncActionView::ProbeLocal {
                    local_dir: it.local_path,
                    rel_paths: rel_paths_of(scan.files),
                },
            )
        },
        (SyncStageView::Probing(pending, cut), SyncEvent::Probed(probes)) => match remote_tasks_of(
            pending,
            probes@,
            s.current_token,
        ) {
            Err(e) => fail(s, e),
            Ok(ts) => match cut {
                Some(p) => fail(s, UNSPLITTABLE@ + p),
                None => (
                    PlannerView {
                        tasks: s.tasks + ts,
                        stage: SyncStageView::Scanning(rel_paths_of(pending)),
                        ..s
                    },
                    SyncActionView::ScanLocal(it.local_path),
                ),
            },
        },
        (SyncStageView::Scanning(listed), SyncEvent::Scanned(files)) => begin_item(
            PlannerView {
                tasks: s.tasks + uploads_of(files@, listed, it.cloud_path, s.current_token),
                ..s
            },
            s.index + 1,
        ),
        _ => (s, SyncActionView::CheckCancel),
    }
}

/// The planner's state before the first step.
pub open spec fn initial_view(items: Seq<SyncItemView>) -> PlannerView {
    PlannerView {
        items,
        index: 0,
        global_token: None,
        current_token: Seq::empty(),
        updated: seq![],
        tasks: seq![],
        stage: SyncStageView::Done,
    }
}

/// The result reported once the transfers are over: stopped if the user cancelled; otherwise
/// complete with the number of transfers, and a failure, with the number that failed, when any
/// transfer failed.
pub open spec fn finish_result_of(total: nat, failed: nat, cancelled: bool) -> (bool, Seq<char>) {
    if cancelled {
        (false, STOPPED@)
    } else if failed == 0 {
        (true, "동기화 완료 ("@ + decimal(total) + "개의 파일 처리)"@)
    } else {
        (
            false,
            "동기화 실패 ("@ + decimal(total) + "개의 파일 중 "@ + decimal(failed) + "개 실패)"@,
        )
    }
}

/// The result to report once the `total` planned transfers have run, `failed` of them without
/// success.
pub fn finish_result(total: u64, failed: u64, cancelled: bool) -> (res: SyncResult)
    ensures
        (res.success, res.message@) == finish_result_of(total as nat, failed as nat, cancelled),
{
    if cancelled {
        SyncResult { success: false, message: STOPPED.to_owned() }
    } else if failed == 0 {
        let n = decimal_string(total);
        SyncResult { success: true, message: concat3("동기화 완료 (", n.as_str(), "개의 파일 처리)") }
    } else {
        let n = decimal_string(total);
        let f = decimal_string(failed);
        let a = concat3("동기화 실패 (", n.as_str(), "개의 파일 중 ");
        SyncResult { success: false, message: concat3(a.as_str(), f.as_str(), "개 실패)") }
    }
}

/// A sync reports success only when the user did not cancel and no transfer failed.
pub proof fn law_success_only_without_failures(total: nat, failed: nat, cancelled: bool)
    ensures
        finish_result_of(total, failed, cancelled).0 <==> (!cancelled && failed == 0),
{
}

impl SyncPlanner {
    /// The planner's internal invariant.
    pub closed spec fn well_formed(&self) -> bool {
        &&& self.index < self.items@.len() || self.stage is Done
    }

    /// Starts planning a sync of `items`.
    pub fn start(items: Vec<SyncItem>) -> (res: (SyncPlanner, SyncAction))
        ensures
            res.0.well_formed(),
            (res.0@, res.1@) == begin_item(initial_view(item_views(items@)), 0),
    {
        let mut p = SyncPlanner {
            items,
            index: 0,
            global_token: None,
            current_token: String::new(),
            updated: Vec::new(),
            tasks: Vec::new(),
            stage: SyncStage::Done,
        };
        proof {
            assert(p@.updated =~= seq![]);
            assert(p@.tasks =~= seq![]);
            assert(p@ == initial_view(item_views(p.items@)));
        }
        let a = p.begin(0);
        (p, a)
    }

    /// Whether the planner expects `event` next.
    pub fn accepts(&self, event: &SyncEvent) -> (res: bool)
        ensures
            res == sync_accepts(self@.stage, *event),
    {
        match (&self.stage, event) {
            (SyncStage::Listing, SyncEvent::Listed(_)) => true,
            (SyncStage::Refreshing, SyncEvent::Refreshed(_)) => true,
            (SyncStage::Relisting, SyncEvent::Listed(_)) => true,
            (SyncStage::CheckingCancel(_), SyncEvent::CancelChecked(_)) => true,
            (SyncStage::Probing(p, _), SyncEvent::Probed(probes)) => probes.len() == p.len(),
            (SyncStage::Scanning(_), SyncEvent::Scanned(_)) => true,
            _ => false,
        }
    }

    /// Hands over what is planned.
    fn finish_all(&mut self) -> (a: SyncAction)
        ensures
            (final(self)@, a@) == finish_all(old(self)@),
            final(self).well_formed(),
    {
        let mut tasks: Vec<SyncTask> = Vec::new();
        let mut updated: Vec<(usize, String)> = Vec::new();
        std::mem::swap(&mut tasks, &mut self.tasks);
        std::mem::swap(&mut updated, &mut self.updated);
        self.stage = SyncStage::Done;
        proof {
            assert(self@.tasks =~= seq![]);
            assert(self@.updated =~= seq![]);
        }
        if tasks.len() == 0 {
            SyncAction::Finish {
                result: Ok(SyncResult { success: true, message: UP_TO_DATE.to_owned() }),
                updated_tokens: updated,
            }
        } else {
            SyncAction::Execute { tasks, updated_tokens: updated }
        }
    }

    /// Moves on to the first enabled item at or after `from`.
    fn begin(&mut self, from: usize) -> (a: SyncAction)
        ensures
            (final(self)@, a@) == begin_item(old(self)@, from as int),
            final(self).well_formed(),
    {
        let n = self.items.len();
        let mut j = from;
        let ghost iv = item_views(self.items@);
        while j < n && !self.items[j].enabled
            invariant
                n == self.items@.len(),
                iv == item_views(self.items@),
                from <= j,
                next_enabled(iv, from as int) == next_enabled(iv, j as int),
                self@ == old(self)@,
            decreases n - j,
        {
            assert(!iv[j as int].enabled);
            j = j + 1;
        }
        if j >= n {
            return self.finish_all();
        }
        assert(iv[j as int].enabled);
        let token = match &self.global_token {
            Some(t) => t.clone(),
            None => self.items[j].token.clone(),
        };
        let path = normalize_cloud_path(self.items[j].cloud_path.as_str());
        self.index = j;
        self.current_token = token.clone();
        self.stage = SyncStage::Listing;
        SyncAction::ListRemote { token, path }
    }

    /// Stops with an error.
    fn fail(&mut self, msg: String) -> (a: SyncAction)
        ensures
            (final(self)@, a@) == fail(old(self)@, msg@),
            final(self).well_formed(),
    {
        self.stage = SyncStage::Done;
        let v: Vec<(usize, String)> = Vec::new();
        assert(updated_views(v@) =~= seq![]);
        SyncAction::Finish { result: Err(msg), updated_tokens: v }
    }

    /// After a successful listing.
    fn listed(&mut self, files: Vec<RemoteEntry>) -> (a: SyncAction)
        requires
            old(self).index < old(self).items@.len(),
        ensures
            (final(self)@, a@) == after_listing(old(self)@, files@),
            final(self).well_formed(),
    {
        let ghost s = self@;
        match &self.global_token {
            Some(t) => {
                let t = t.clone();
                let n = self.items.len();
                let mut j = self.index + 1;
                assert(item_views(self.items@) =~= propagated_upto(s.items, s.index as int, t@, j as int));
                while j < n
                    invariant
                        n == self.items@.len(),
                        self.index < n,
                        self.index + 1 <= j <= n,
                        s.items.len() == n,
                        item_views(self.items@) == propagated_upto(s.items, s.index as int, t@, j as int),
                        s == old(self)@,
                        self.index == old(self).index,
                        opt_view(self.global_token) == Some(t@),
                        self@ == (PlannerView { items: item_views(self.items@), ..s }),
                    decreases n - j,
                {
                    let ghost prev = self.items@;
                    self.items[j].token = t.clone();
                    assert(self.items@ =~= prev.update(j as int, self.items@[j as int]));
                    assert(item_views(prev)[j as int] == s.items[j as int]);
                    assert(self.items@[j as int]@ == SyncItemView { token: t@, ..s.items[j as int] });
                    assert forall|k: int| 0 <= k < n implies #[trigger] item_views(self.items@)[k]
                        == propagated_upto(s.items, s.index as int, t@, j + 1)[k] by {
                        if k != j {
                            assert(self.items@[k] == prev[k]);
                            assert(item_views(prev)[k] == propagated_upto(
                                s.items,
                                s.index as int,
                                t@,
                                j as int,
                            )[k]);
                        }
                    }
                    assert(item_views(self.items@) =~= propagated_upto(s.items, s.index as int, t@, j + 1));
                    j = j + 1;
                }
                assert(item_views(self.items@) =~= propagate(s.items, s.index as int, s.global_token));
            },
            None => {},
        }
        self.stage = SyncStage::CheckingCancel(files);
        assert(self@.items == propagate(s.items, s.index as int, s.global_token));
        assert(self@ == after_listing(s, files@).0);
        SyncAction::CheckCancel
    }

    /// Takes in the caller's report and says what to do next.
    pub fn step(&mut self, event: SyncEvent) -> (a: SyncAction)
        requires
            old(self).well_formed(),
            sync_accepts(old(self)@.stage, event),
        ensures
            (final(self)@, a@) == sync_step(old(self)@, event),
            final(self).well_formed(),
    {
        let mut stage = SyncStage::Done;
        std::mem::swap(&mut stage, &mut self.stage);
        let i = self.index;
        assert(i < self.items@.len());
        match stage {
            SyncStage::Listing => match event {
                SyncEvent::Listed(Ok(files)) => self.listed(files),
                SyncEvent::Listed(Err(e)) => {
                    if contains(e.as_str(), "ERR_CODE:409") && (contains(e.as_str(), "path_not_found")
                        || contains(e.as_str(), "not_found")) {
                        let empty: Vec<RemoteEntry> = Vec::new();
                        assert(empty@ =~= seq![]);
                        self.listed(empty)
                    } else if contains(e.as_str(), "401") || contains(e.as_str(), "expired") {
                        match &self.items[i].refresh_token {
                            Some(rt) => {
                                let rt = rt.clone();
                                self.stage = SyncStage::Refreshing;
                                SyncAction::RefreshToken(rt)
                            },
                            None => self.fail(SESSION_EXPIRED.to_owned()),
                        }
                    } else {
                        let a = concat3("클라우드 연결 오류 (", self.items[i].name.as_str(), "): ");
                        self.fail(concat2(a.as_str(), e.as_str()))
                    }
                },
                _ => SyncAction::CheckCancel,
            },
            SyncStage::Refreshing => match event {
                SyncEvent::Refreshed(Ok(t)) => {
                    self.items[i].token = t.clone();
                    self.global_token = Some(t.clone());
                    self.current_token = t.clone();
                    self.updated.push((i, t.clone()));
                    self.stage = SyncStage::Relisting;
                    let path = normalize_cloud_path(self.items[i].cloud_path.as_str());
                    proof {
                        assert(item_views(self.items@) =~= old(self)@.items.update(
                            i as int,
                            SyncItemView { token: t@, ..old(self)@.items[i as int] },
                        ));
                        assert(updated_views(self.updated@) =~= old(self)@.updated.push((i, t@)));
                    }
                    SyncAction::ListRemote { token: t, path }
                },
                SyncEvent::Refreshed(Err(e)) => self.fail(
                    concat3("토큰 갱신 실패: ", e.as_str(), ". 다시 로그인해주세요."),
                ),
                _ => SyncAction::CheckCancel,
            },
            SyncStage::Relisting => match event {
                SyncEvent::Listed(Ok(files)) => self.listed(files),
                SyncEvent::Listed(Err(e)) => self.fail(concat2("토큰 갱신 후에도 실패: ", e.as_str())),
                _ => SyncAction::CheckCancel,
            },
            SyncStage::CheckingCancel(files) => match event {
                SyncEvent::CancelChecked(c) => {
                    if c {
                        let v: Vec<(usize, String)> = Vec::new();
                        assert(updated_views(v@) =~= seq![]);
                        SyncAction::Finish {
                            result: Ok(SyncResult { success: false, message: CANCELLED.to_owned() }),
                            updated_tokens: v,
                        }
                    } else {
                        let normalized = normalize_cloud_path(self.items[i].cloud_path.as_str());
                        let base = cloud_base(normalized.as_str());
                        let (pending, cut) = scan_remote_files(&files, base.as_str());
                        let rels = rel_paths(&pending);
                        let local_dir = self.items[i].local_path.clone();
                        self.stage = SyncStage::Probing(pending, cut);
                        SyncAction::ProbeLocal { local_dir, rel_paths: rels }
                    }
                },
                _ => SyncAction::CheckCancel,
            },
            SyncStage::Probing(pending, cut) => match event {
                SyncEvent::Probed(probes) => {
                    match remote_tasks(&pending, &probes, self.current_token.as_str()) {
                        Err(e) => self.fail(e),
                        Ok(ts) => match cut {
                            Some(p) => self.fail(concat2(UNSPLITTABLE, p.as_str())),
                            None => {
                                let mut ts = ts;
                                let ghost before = self.tasks@;
                                let ghost added = ts@;
                                self.tasks.append(&mut ts);
                                assert(task_views(self.tasks@) =~= task_views(before) + task_views(
                                    added,
                                ));
                                let rels = rel_paths(&pending);
                                self.stage = SyncStage::Scanning(rels);
                                SyncAction::ScanLocal(self.items[i].local_path.clone())
                            },
                        },
                    }
                },
                _ => SyncAction::CheckCancel,
            },
            SyncStage::Scanning(listed) => match event {
                SyncEvent::Scanned(files) => {
                    let mut ups = local_uploads(
                        &files,
                        &listed,
                        self.items[i].cloud_path.as_str(),
                        self.current_token.as_str(),
                    );
                    let ghost before = self.tasks@;
                    let ghost added = ups@;
                    self.tasks.append(&mut ups);
                    assert(task_views(self.tasks@) =~= task_views(before) + task_views(added));
                    let n = self.items.len();
                    assert(i < n);
                    self.begin(i + 1)
                },
                _ => SyncAction::CheckCancel,
            },
            SyncStage::Done => SyncAction::CheckCancel,
        }
    }
}

// ---------------------------------------------------------------------------
// Laws
// ---------------------------------------------------------------------------

/// A listed file whose local copy has the same content hash is never transferred.
pub proof fn law_same_hash_not_transferred(p: PendingView, probe: LocalProbe)
    requires
        probe.exists,
        probe.hash@ == p.hash,
    ensures
        decide_of(p, probe) == Ok::<Option<Direction>, Seq<char>>(None),
{
}

/// A listed file with no local copy is downloaded.
pub proof fn law_missing_local_downloaded(p: PendingView, probe: LocalProbe)
    requires
        !probe.exists,
    ensures
        decide_of(p, probe) == Ok::<Option<Direction>, Seq<char>>(Some(Direction::Download)),
{
}

/// Where both copies exist with different content hashes and both times are known, the copy
/// modified later wins: the cloud copy is downloaded when it is strictly newer, otherwise the
/// local copy is uploaded.
pub proof fn law_newer_copy_wins(p: PendingView, probe: LocalProbe, remote: (i64, u32), local: Instant)
    requires
        probe.exists,
        probe.hash@ != p.hash,
        rfc3339_parse(or_empty(p.modified)) == Ok::<(i64, u32), Seq<char>>(remote),
        probe.modified == Some(local),
    ensures
        decide_of(p, probe) == Ok::<Option<Direction>, Seq<char>>(
            Some(
                if remote.0 > local.secs || (remote.0 == local.secs && remote.1 > local.nanos) {
                    Direction::Download
                } else {
                    Direction::Upload
                },
            ),
        ),
        (remote.0 < local.secs || (remote.0 == local.secs && remote.1 <= local.nanos)) ==> decide_of(
            p,
            probe,
        ) == Ok::<Option<Direction>, Seq<char>>(Some(Direction::Upload)),
{
}

/// Which copy wins, by the times alone: the cloud copy only when its moment is strictly later
/// (more seconds, or as many seconds and more nanoseconds); on a tie or an earlier cloud time,
/// the local copy; nothing when the local time is unknown; an unreadable cloud time is an error.
pub proof fn law_time_verdict(rs: i64, rn: u32, local: Option<Instant>, e: Seq<char>)
    ensures
        local matches Some(l) ==> time_verdict_of(Ok((rs, rn)), local) == Ok::<
            Option<Direction>,
            Seq<char>,
        >(
            Some(
                if rs > l.secs || (rs == l.secs && rn > l.nanos) {
                    Direction::Download
                } else {
                    Direction::Upload
                },
            ),
        ),
        local is None ==> time_verdict_of(Ok((rs, rn)), local) == Ok::<Option<Direction>, Seq<char>>(
            None,
        ),
        time_verdict_of(Err(e), local) is Err,
{
}

/// After the local sides of the listed files are checked, the local scan is filtered against
/// the relative paths of all the listed files, in listing order, and nothing else: no local
/// file whose relative path the cloud lists is uploaded by the scan.
pub proof fn law_scan_filters_all_listed(s: PlannerView, probes: Vec<LocalProbe>)
    requires
        s.stage is Probing,
        s.stage->Probing_1 is None,
        probes@.len() == s.stage->Probing_0.len(),
        remote_tasks_of(s.stage->Probing_0, probes@, s.current_token) is Ok,
    ensures
        ({
            let pending = s.stage->Probing_0;
            let r = sync_step(s, SyncEvent::Probed(probes)).0;
            &&& r.stage is Scanning
            &&& r.stage->Scanning_0.len() == pending.len()
            &&& forall|k: int|
                0 <= k < pending.len() ==> (#[trigger] r.stage->Scanning_0[k]) == pending[k].rel_path
        }),
        forall|files: Seq<LocalFile>, cloud_path: Seq<char>, token: Seq<char>, k: int|
            0 <= k < uploads_of(
                files,
                rel_paths_of(s.stage->Probing_0),
                cloud_path,
                token,
            ).len() ==> forall|j: int|
                0 <= j < s.stage->Probing_0.len() ==> s.stage->Probing_0[j].rel_path != (#[trigger] uploads_of(
                    files,
                    rel_paths_of(s.stage->Probing_0),
                    cloud_path,
                    token,
                )[k]).file_name,
{
    let pending = s.stage->Probing_0;
    let listed = rel_paths_of(pending);
    assert forall|files: Seq<LocalFile>, cloud_path: Seq<char>, token: Seq<char>, k: int|
        0 <= k < uploads_of(files, listed, cloud_path, token).len() implies forall|j: int|
        0 <= j < pending.len() ==> pending[j].rel_path != (#[trigger] uploads_of(
            files,
            listed,
            cloud_path,
            token,
        )[k]).file_name by {
        law_uploads_cover_unlisted(files, listed, cloud_path, token);
        assert forall|j: int| 0 <= j < pending.len() implies pending[j].rel_path != (#[trigger] uploads_of(
            files,
            listed,
            cloud_path,
            token,
        )[k]).file_name by {
            assert(listed[j] == pending[j].rel_path);
        }
    }
}

/// Starting an item when no token has been renewed lists that item's cloud folder, made to
/// start with '/', with that item's own stored token; the item is the first enabled one at or
/// after `from`.
pub proof fn law_item_uses_own_token(s: PlannerView, from: int, j: int)
    requires
        s.global_token is None,
        0 <= from <= j < s.items.len(),
        s.items[j].enabled,
        forall|k: int| from <= k < j ==> !(#[trigger] s.items[k]).enabled,
    ensures
        begin_item(s, from).1 == (SyncActionView::ListRemote {
            token: s.items[j].token,
            path: if s.items[j].cloud_path.len() > 0 && s.items[j].cloud_path[0] == '/' {
                s.items[j].cloud_path
            } else {
                "/"@ + s.items[j].cloud_path
            },
        }),
{
    lemma_next_enabled(s.items, from);
    let n = next_enabled(s.items, from);
    if n != Some(j) {
        assert(n matches Some(i) && (i < j || i > j));
    }
}

/// A renewed token is used for every later item, whatever token that item stored.
pub proof fn law_item_uses_renewed_token(s: PlannerView, from: int, j: int, t: Seq<char>)
    requires
        s.global_token == Some(t),
        0 <= from <= j < s.items.len(),
        s.items[j].enabled,
        forall|k: int| from <= k < j ==> !(#[trigger] s.items[k]).enabled,
    ensures
        begin_item(s, from).1 matches SyncActionView::ListRemote { token, path } && token == t,
{
    lemma_next_enabled(s.items, from);
    let n = next_enabled(s.items, from);
    if n != Some(j) {
        assert(n matches Some(i) && (i < j || i > j));
    }
}

/// Every transfer planned for listed files carries the token in use, and names a listed file.
pub proof fn law_remote_tasks_use_token(
    pending: Seq<PendingView>,
    probes: Seq<LocalProbe>,
    token: Seq<char>,
    ts: Seq<SyncTaskView>,
)
    requires
        remote_tasks_of(pending, probes, token) == Ok::<Seq<SyncTaskView>, Seq<char>>(ts),
    ensures
        forall|k: int| 0 <= k < ts.len() ==> (#[trigger] ts[k]).token == token,
        forall|k: int|
            0 <= k < ts.len() ==> exists|j: int|
                0 <= j < pending.len() && pending[j].rel_path == (#[trigger] ts[k]).file_name
                    && pending[j].remote_path == ts[k].remote_path,
    decreases pending.len(),
{
    if pending.len() == 0 || probes.len() < pending.len() {
    } else {
        let n = pending.len() - 1;
        match remote_tasks_of(pending.drop_last(), probes.take(n), token) {
            Err(e) => {},
            Ok(prev) => {
                law_remote_tasks_use_token(pending.drop_last(), probes.take(n), token, prev);
                assert forall|k: int| 0 <= k < ts.len() implies exists|j: int|
                    0 <= j < pending.len() && pending[j].rel_path == (#[trigger] ts[k]).file_name
                        && pending[j].remote_path == ts[k].remote_path by {
                    if k < prev.len() {
                        assert(ts[k] == prev[k]);
                        let j = choose|j: int|
                            0 <= j < pending.drop_last().len() && pending.drop_last()[j].rel_path
                                == (#[trigger] prev[k]).file_name
                                && pending.drop_last()[j].remote_path == prev[k].remote_path;
                        assert(pending[j] == pending.drop_last()[j]);
                    } else {
                        assert(pending[n].rel_path == ts[k].file_name);
                    }
                }
            },
        }
    }
}

/// The uploads planned from the local scan are exactly the local files that the cloud does not
/// list: each goes to the item's cloud folder at the file's relative path, with the token in
/// use; and every unlisted local file has one.
pub proof fn law_uploads_cover_unlisted(
    files: Seq<LocalFile>,
    listed: Seq<Seq<char>>,
    cloud_path: Seq<char>,
    token: Seq<char>,
)
    ensures
        forall|k: int|
            0 <= k < uploads_of(files, listed, cloud_path, token).len() ==> {
                let t = #[trigger] uploads_of(files, listed, cloud_path, token)[k];
                &&& t.direction == Direction::Upload
                &&& t.token == token
                &&& !listed.contains(t.file_name)
                &&& t.remote_path == upload_path_of(cloud_path, t.file_name)
            },
        forall|j: int|
            0 <= j < files.len() && !listed.contains(#[trigger] files[j].rel_path@) ==> exists|k: int|
                0 <= k < uploads_of(files, listed, cloud_path, token).len()
                    && uploads_of(files, listed, cloud_path, token)[k].file_name == files[j].rel_path@
                    && uploads_of(files, listed, cloud_path, token)[k].local_path == files[j].path@,
    decreases files.len(),
{
    if files.len() > 0 {
        let init = files.drop_last();
        law_uploads_cover_unlisted(init, listed, cloud_path, token);
        let rest = uploads_of(init, listed, cloud_path, token);
        let all = uploads_of(files, listed, cloud_path, token);
        assert forall|j: int|
            0 <= j < files.len() && !listed.contains(#[trigger] files[j].rel_path@) implies exists|k: int|
            0 <= k < all.len() && all[k].file_name == files[j].rel_path@ && all[k].local_path
                == files[j].path@ by {
            if j < files.len() - 1 {
                assert(files[j] == init[j]);
                let k = choose|k: int|
                    0 <= k < rest.len() && rest[k].file_name == init[j].rel_path@
                        && rest[k].local_path == init[j].path@;
                assert(all[k] == rest[k]);
            } else {
                assert(all[all.len() - 1].file_name == files[j].rel_path@);
            }
        }
    }
}

/// The first enabled item at or after `from`, if any, is enabled and not before `from`, and
/// every item between is disabled.
pub proof fn lemma_next_enabled(items: Seq<SyncItemView>, from: int)
    requires
        0 <= from,
    ensures
        next_enabled(items, from) matches Some(j) ==> from <= j < items.len() && items[j].enabled
            && forall|k: int| from <= k < j ==> !(#[trigger] items[k]).enabled,
        next_enabled(items, from) is None ==> forall|k: int|
            from <= k < items.len() ==> !(#[trigger] items[k]).enabled,
    decreases items.len() - from,
{
    if from < items.len() && !items[from].enabled {
        lemma_next_enabled(items, from + 1);
    }
}

/// Only enabled items are synced, in order: moving on from an item starts the next enabled item
/// after it, skipping the disabled ones, and the planning ends only when no enabled item is left.
pub proof fn law_only_enabled_items_synced(s: PlannerView, from: int)
    requires
        0 <= from,
        s.items.len() <= usize::MAX,
    ensures
        begin_item(s, from).1 is ListRemote ==> {
            let j = begin_item(s, from).0.index as int;
            &&& from <= j < s.items.len()
            &&& s.items[j].enabled
            &&& forall|k: int| from <= k < j ==> !(#[trigger] s.items[k]).enabled
        },
        !(begin_item(s, from).1 is ListRemote) ==> forall|k: int|
            from <= k < s.items.len() ==> !(#[trigger] s.items[k]).enabled,
{
    lemma_next_enabled(s.items, from);
}

/// An expired access token is renewed and the work resumes: when listing fails because the
/// token expired and the item has a refresh token, a refresh is asked for; a successful refresh
/// lists the same folder again with the new token, which is recorded as renewed for that item.
pub proof fn law_expired_token_renewed_and_resumed(s: PlannerView, e: String, t: String)
    requires
        s.stage is Listing,
        !is_missing_folder(e@),
        is_expired(e@),
        s.items[s.index as int].refresh_token is Some,
    ensures
        sync_step(s, SyncEvent::Listed(Err(e))).1 == SyncActionView::RefreshToken(
            s.items[s.index as int].refresh_token->0,
        ),
        ({
            let r = sync_step(s, SyncEvent::Listed(Err(e))).0;
            let after = sync_step(r, SyncEvent::Refreshed(Ok(t)));
            &&& after.1 == (SyncActionView::ListRemote {
                token: t@,
                path: normalized_cloud_path_of(s.items[s.index as int].cloud_path),
            })
            &&& after.0.index == s.index
            &&& after.0.current_token == t@
            &&& after.0.updated == s.updated.push((s.index, t@))
        }),
{
}

/// Once a token has been renewed, every later item is listed with it.
pub proof fn law_renewed_token_used_later(s: PlannerView, from: int, t: Seq<char>)
    requires
        s.global_token == Some(t),
    ensures
        begin_item(s, from).1 matches SyncActionView::ListRemote { token, path } ==> token == t,
{
}

/// A folder is listed again at most once: after the renewed token's listing, the planning of
/// the item never asks for another refresh.
pub proof fn law_sync_refresh_at_most_once(s: PlannerView, event: SyncEvent)
    requires
        s.stage is Relisting,
        sync_accepts(s.stage, event),
    ensures
        !(sync_step(s, event).1 is RefreshToken),
        !(sync_step(s, event).0.stage is Refreshing),
{
}

/// A cancellation seen after a listing stops the sync unsuccessfully, hands over no transfer and
/// reports no renewed token.
pub proof fn law_cancel_stops(s: PlannerView, files: Seq<RemoteEntry>)
    requires
        s.stage == SyncStageView::CheckingCancel(files),
    ensures
        sync_step(s, SyncEvent::CancelChecked(true)).1 == (SyncActionView::Finish {
            result: Ok((false, CANCELLED@)),
            updated_tokens: seq![],
        }),
        sync_step(s, SyncEvent::CancelChecked(true)).0.stage is Done,
{
}

/// When nothing is left to transfer, the sync ends successfully as already up to date.
pub proof fn law_nothing_to_do_is_up_to_date(s: PlannerView)
    requires
        s.tasks.len() == 0,
    ensures
        finish_all(s).1 == (SyncActionView::Finish {
            result: Ok((true, UP_TO_DATE@)),
            updated_tokens: s.updated,
        }),
{
}

} // verus!
