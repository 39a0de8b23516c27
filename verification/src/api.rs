//! The Dropbox and OAuth requests: what each request carries, and what each reply means.
//!
//! The requests themselves are sent by the caller; this module builds their parameters
//! and turns the replies into results.
use crate::text::{concat2, concat3, contains, decimal, decimal_string, occurs_in};
use vstd::prelude::*;

verus! {

/// The address that Dropbox sends the user back to after authorisation.
pub const REDIRECT_URI: &'static str = "http://localhost:8421/callback";

/// One entry of a Dropbox folder listing.
pub struct RemoteEntry {
    pub name: String,
    pub path_display: Option<String>,
    /// The entry's kind, as Dropbox's ".tag" field gives it: "file", "folder" or "deleted".
    pub tag: String,
    pub server_modified: Option<String>,
    pub content_hash: Option<String>,
}

/// One page of a Dropbox folder listing: its entries, the cursor that reads the next page,
/// and whether there is one.
pub struct ListPage {
    pub entries: Vec<RemoteEntry>,
    pub cursor: String,
    pub has_more: bool,
}

/// The tokens in an OAuth token reply.
pub struct TokenResponse {
    pub access_token: String,
    pub refresh_token: Option<String>,
}

/// What came back from one HTTP request.
pub enum Reply<T> {
    /// The request could not be sent; the transport error as text.
    SendFailed(String),
    /// A success status, with the body parsed (`Ok`) or the parse error as text (`Err`).
    Succeeded(Result<T, String>),
    /// A failure status, with the body text ("Unknown error" when the body could not be read).
    Failed { status: u16, text: String },
}

/// A form of name/value pairs, by views.
pub open spec fn form_view(form: Seq<(String, String)>) -> Seq<(Seq<char>, Seq<char>)> {
    form.map_values(|p: (String, String)| (p.0@, p.1@))
}

/// A list of strings, by views.
pub open spec fn strings_view(v: Seq<String>) -> Seq<Seq<char>> {
    v.map_values(|s: String| s@)
}

/// The view of an optional string.
pub open spec fn opt_view(o: Option<String>) -> Option<Seq<char>> {
    match o {
        Some(s) => Some(s@),
        None => None,
    }
}

/// The view of an optional string slice.
pub open spec fn opt_str_view(o: Option<&str>) -> Option<Seq<char>> {
    match o {
        Some(s) => Some(s@),
        None => None,
    }
}

/// A configured value, or the empty string when none was configured.
pub open spec fn configured_or_empty(configured: Option<Seq<char>>) -> Seq<char> {
    match configured {
        Some(s) => s,
        None => Seq::empty(),
    }
}

/// The Dropbox app key: the value configured when the program was built, or empty.
pub fn get_app_key(configured: Option<&str>) -> (res: String)
    ensures
        res@ == configured_or_empty(opt_str_view(configured)),
{
    match configured {
        Some(s) => s.to_owned(),
        None => String::new(),
    }
}

/// The Dropbox app secret: the value configured when the program was built, or empty.
pub fn get_app_secret(configured: Option<&str>) -> (res: String)
    ensures
        res@ == configured_or_empty(opt_str_view(configured)),
{
    match configured {
        Some(s) => s.to_owned(),
        None => String::new(),
    }
}

/// A name/value pair of owned strings.
fn pair(name: &str, value: &str) -> (p: (String, String))
    ensures
        p.0@ == name@,
        p.1@ == value@,
{
    (name.to_owned(), value.to_owned())
}

/// The form that asks Dropbox for a new access token in exchange for a refresh token.
pub fn refresh_token_form(refresh_token: &str, app_key: &str, app_secret: &str) -> (form: Vec<
    (String, String),
>)
    ensures
        form_view(form@) == seq![
            ("grant_type"@, "refresh_token"@),
            ("refresh_token"@, refresh_token@),
            ("client_id"@, app_key@),
            ("client_secret"@, app_secret@),
        ],
{
    let mut form = Vec::new();
    form.push(pair("grant_type", "refresh_token"));
    form.push(pair("refresh_token", refresh_token));
    form.push(pair("client_id", app_key));
    form.push(pair("client_secret", app_secret));
    assert(form_view(form@) =~= seq![
        ("grant_type"@, "refresh_token"@),
        ("refresh_token"@, refresh_token@),
        ("client_id"@, app_key@),
        ("client_secret"@, app_secret@),
    ]);
    form
}

/// The form that exchanges an authorisation code for tokens.
pub fn exchange_code_form(code: &str, app_key: &str, app_secret: &str) -> (form: Vec<
    (String, String),
>)
    ensures
        form_view(form@) == seq![
            ("code"@, code@),
            ("grant_type"@, "authorization_code"@),
            ("client_id"@, app_key@),
            ("client_secret"@, app_secret@),
            ("redirect_uri"@, REDIRECT_URI@),
        ],
{
    let mut form = Vec::new();
    form.push(pair("code", code));
    form.push(pair("grant_type", "authorization_code"));
    form.push(pair("client_id", app_key));
    form.push(pair("client_secret", app_secret));
    form.push(pair("redirect_uri", REDIRECT_URI));
    assert(form_view(form@) =~= seq![
        ("code"@, code@),
        ("grant_type"@, "authorization_code"@),
        ("client_id"@, app_key@),
        ("client_secret"@, app_secret@),
        ("redirect_uri"@, REDIRECT_URI@),
    ]);
    form
}

/// What a token refresh yields, by views: the new access token, or the error text.
pub open spec fn refresh_outcome_of(reply: Reply<TokenResponse>) -> Result<Seq<char>, Seq<char>> {
    match reply {
        Reply::SendFailed(e) => Err(e@),
        Reply::Succeeded(Ok(t)) => Ok(t.access_token@),
        Reply::Succeeded(Err(e)) => Err(e@),
        Reply::Failed { status, text } => Err("토큰 갱신 실패: "@ + text@),
    }
}

/// The view of a string result.
pub open spec fn result_view(r: Result<String, String>) -> Result<Seq<char>, Seq<char>> {
    match r {
        Ok(s) => Ok(s@),
        Err(e) => Err(e@),
    }
}

/// The result of a token refresh request: the new access token, or why there is none.
pub fn refresh_token_outcome(reply: Reply<TokenResponse>) -> (res: Result<String, String>)
    ensures
        result_view(res) == refresh_outcome_of(reply),
{
    match reply {
        Reply::SendFailed(e) => Err(e),
        Reply::Succeeded(Ok(t)) => Ok(t.access_token),
        Reply::Succeeded(Err(e)) => Err(e),
        Reply::Failed { status, text } => Err(concat2("토큰 갱신 실패: ", text.as_str())),
    }
}

/// The result of a code exchange request: the tokens, or why there are none.
pub fn exchange_code_outcome(reply: Reply<TokenResponse>) -> (res: Result<TokenResponse, String>)
    ensures
        match (reply, res) {
            (Reply::SendFailed(e), Err(r)) => r@ == e@,
            (Reply::Succeeded(Ok(t)), Ok(r)) => r.access_token@ == t.access_token@
                && opt_view(r.refresh_token) == opt_view(t.refresh_token),
            (Reply::Succeeded(Err(e)), Err(r)) => r@ == e@,
            (Reply::Failed { status, text }, Err(r)) => r@ == "토큰 교환 실패: "@ + text@,
            _ => false,
        },
{
    match reply {
        Reply::SendFailed(e) => Err(e),
        Reply::Succeeded(Ok(t)) => Ok(t),
        Reply::Succeeded(Err(e)) => Err(e),
        Reply::Failed { status, text } => Err(concat2("토큰 교환 실패: ", text.as_str())),
    }
}

/// The page that asks the user to authorise the app with the given key.
pub open spec fn auth_url_of(app_key: Seq<char>) -> Seq<char> {
    "https://www.dropbox.com/oauth2/authorize?client_id="@ + app_key
        + "&response_type=code&redirect_uri="@ + REDIRECT_URI@ + "&token_access_type=offline"@
}

/// The address of the Dropbox authorisation page for the given app key.
pub fn auth_url(app_key: &str) -> (res: String)
    ensures
        res@ == auth_url_of(app_key@),
{
    let a = concat3("https://www.dropbox.com/oauth2/authorize?client_id=", app_key,
        "&response_type=code&redirect_uri=");
    concat3(a.as_str(), REDIRECT_URI, "&token_access_type=offline")
}

/// The decoded name/value pairs of the query of `url`, or `None` when `url` does not parse,
/// as the `url` crate gives them.
pub uninterp spec fn url_query_pairs(url: Seq<char>) -> Option<Seq<(Seq<char>, Seq<char>)>>;

/// The query pairs of a URL.
/// Calls `url::Url::parse` and, when it succeeds, `Url::query_pairs`; the result is named
/// `url_query_pairs`, pairs in the order the query holds them.
#[verifier::external_body]
fn parse_query_pairs(url: &str) -> (res: Option<Vec<(String, String)>>)
    ensures
        match res {
            Some(v) => url_query_pairs(url@) == Some(form_view(v@)),
            None => url_query_pairs(url@) is None,
        },
{
    match url::Url::parse(url) {
        Ok(u) => Some(u.query_pairs().map(|(k, v)| (k.into_owned(), v.into_owned())).collect()),
        Err(_) => None,
    }
}

/// The value of the first pair named `key`.
pub open spec fn first_value(pairs: Seq<(Seq<char>, Seq<char>)>, key: Seq<char>) -> Option<Seq<char>>
    decreases pairs.len(),
{
    if pairs.len() == 0 {
        None
    } else if pairs[0].0 == key {
        Some(pairs[0].1)
    } else {
        first_value(pairs.drop_first(), key)
    }
}

/// The authorisation code that a request to the local callback server carries:
/// the first "code" pair of its query, read as a URL on `http://localhost:8421`.
pub open spec fn callback_code_of(request_url: Seq<char>) -> Option<Seq<char>> {
    match url_query_pairs("http://localhost:8421"@ + request_url) {
        Some(pairs) => first_value(pairs, "code"@),
        None => None,
    }
}

/// The value of the first pair named "code".
pub fn first_code(pairs: &Vec<(String, String)>) -> (res: Option<String>)
    ensures
        opt_view(res) == first_value(form_view(pairs@), "code"@),
{
    let n = pairs.len();
    let ghost pv = form_view(pairs@);
    assert(pv.skip(0) =~= pv);
    for i in 0..n
        invariant
            n == pairs@.len(),
            pv == form_view(pairs@),
            first_value(pv, "code"@) == first_value(pv.skip(i as int), "code"@),
    {
        assert(pv.skip(i as int)[0] == pv[i as int]);
        assert(pv.skip(i as int).drop_first() =~= pv.skip(i + 1));
        assert(pv[i as int] == (pairs@[i as int].0@, pairs@[i as int].1@));
        if str_eq(pairs[i].0.as_str(), "code") {
            return Some(pairs[i].1.clone());
        }
    }
    assert(pv.skip(n as int) =~= Seq::<(Seq<char>, Seq<char>)>::empty());
    None
}

/// The authorisation code in a request that reached the local callback server, given the
/// request's path and query.
pub fn callback_code(request_url: &str) -> (res: Option<String>)
    ensures
        opt_view(res) == callback_code_of(request_url@),
{
    let full = concat2("http://localhost:8421", request_url);
    match parse_query_pairs(full.as_str()) {
        None => None,
        Some(pairs) => first_code(&pairs),
    }
}

/// Whether a failed reply means the access token is no longer accepted.
pub open spec fn token_rejected(status: u16, text: Seq<char>) -> bool {
    occurs_in(text, "expired_access_token"@) || occurs_in(text, "invalid_access_token"@)
        || status == 401
}

/// Whether a failed reply means the access token is no longer accepted.
pub fn is_token_rejected(status: u16, text: &str) -> (res: bool)
    ensures
        res == token_rejected(status, text@),
{
    contains(text, "expired_access_token") || contains(text, "invalid_access_token") || status
        == 401
}

/// The path under which a folder entry is offered: its display path, or "/" and its name.
pub open spec fn folder_path_of(e: RemoteEntry) -> Seq<char> {
    match e.path_display {
        Some(p) => p@,
        None => "/"@ + e.name@,
    }
}

/// The folder paths of a listing, in order: one for each entry tagged "folder".
pub open spec fn folder_paths_of(entries: Seq<RemoteEntry>) -> Seq<Seq<char>>
    decreases entries.len(),
{
    if entries.len() == 0 {
        seq![]
    } else {
        let rest = folder_paths_of(entries.drop_last());
        if entries.last().tag@ == "folder"@ {
            rest.push(folder_path_of(entries.last()))
        } else {
            rest
        }
    }
}

/// The entries of a listing tagged "file", in order.
pub open spec fn files_of(entries: Seq<RemoteEntry>) -> Seq<RemoteEntry> {
    entries.filter(|e: RemoteEntry| is_file(e))
}

/// Whether an entry is tagged "file".
pub open spec fn is_file(e: RemoteEntry) -> bool {
    e.tag@ == "file"@
}

/// Whether two strings are equal.
fn str_eq(a: &str, b: &str) -> (res: bool)
    ensures
        res == (a@ == b@),
{
    let x = a.to_owned();
    let y = b.to_owned();
    x == y
}

/// The folder paths of a listing.
pub fn folder_paths(entries: &Vec<RemoteEntry>) -> (res: Vec<String>)
    ensures
        strings_view(res@) == folder_paths_of(entries@),
{
    let mut out: Vec<String> = Vec::new();
    let n = entries.len();
    for i in 0..n
        invariant
            n == entries@.len(),
            strings_view(out@) == folder_paths_of(entries@.take(i as int)),
    {
        let e = &entries[i];
        assert(entries@.take(i + 1).drop_last() =~= entries@.take(i as int));
        assert(entries@.take(i + 1).last() == entries@[i as int]);
        if str_eq(e.tag.as_str(), "folder") {
            let p = match &e.path_display {
                Some(p) => p.clone(),
                None => concat2("/", e.name.as_str()),
            };
            out.push(p);
            assert(strings_view(out@) =~= folder_paths_of(entries@.take(i as int)).push(
                folder_path_of(entries@[i as int]),
            ));
        }
    }
    assert(entries@.take(n as int) =~= entries@);
    out
}

/// The entries of a listing that are files.
pub fn file_entries(entries: Vec<RemoteEntry>) -> (res: Vec<RemoteEntry>)
    ensures
        res@ == files_of(entries@),
{
    let mut out: Vec<RemoteEntry> = Vec::new();
    let n = entries.len();
    let mut rest = entries;
    let ghost all = rest@;
    let mut taken: Vec<RemoteEntry> = Vec::new();
    // Move entries out from the back, then restore their order.
    while rest.len() > 0
        invariant
            all.len() == n,
            rest@ == all.take(rest@.len() as int),
            taken@.len() == n - rest@.len(),
            forall|k: int| 0 <= k < taken@.len() ==> #[trigger] taken@[k] == all[n - 1 - k],
        decreases rest@.len(),
    {
        let e = rest.pop().unwrap();
        taken.push(e);
        assert(rest@ =~= all.take(rest@.len() as int));
    }
    let m = taken.len();
    assert(m == n);
    while taken.len() > 0
        invariant
            all.len() == n,
            taken@.len() <= n,
            forall|k: int| 0 <= k < taken@.len() ==> #[trigger] taken@[k] == all[n - 1 - k],
            out@ == files_of(all.take(n - taken@.len())),
        decreases taken@.len(),
    {
        let e = taken.pop().unwrap();
        let ghost idx = n - 1 - taken@.len();
        assert(e == all[idx]);
        assert(all.take(idx + 1).drop_last() =~= all.take(idx));
        reveal_with_fuel(Seq::<_>::filter, 1);
        assert(all.take(idx + 1).last() == e);
        let keep = str_eq(e.tag.as_str(), "file");
        assert(keep == is_file(e));
        if keep {
            out.push(e);
        }
        assert(files_of(all.take(idx + 1)) == if is_file(e) {
            files_of(all.take(idx)).push(e)
        } else {
            files_of(all.take(idx))
        });
    }
    assert(all.take(n as int) =~= all);
    out
}

/// The message for a failed listing of `path`.
pub open spec fn list_failure_message(status: u16, path: Seq<char>, text: Seq<char>) -> Seq<char> {
    "ERR_CODE:"@ + decimal(status as nat) + " | 클라우드 파일 목록 조회 실패 ("@ + path + "): "@
        + text
}

/// The result of a request to create a cloud folder.
pub fn create_folder_outcome(path: &str, reply: Reply<()>) -> (res: Result<(), String>)
    ensures
        match (reply, res) {
            (Reply::SendFailed(e), Err(r)) => r@ == e@,
            (Reply::Succeeded(_), Ok(())) => true,
            (Reply::Failed { status, text }, Err(r)) => r@ == "ERR_CODE:"@ + decimal(
                status as nat,
            ) + " | 폴더 생성 실패 ("@ + path@ + "): "@ + text@,
            _ => false,
        },
{
    match reply {
        Reply::SendFailed(e) => Err(e),
        Reply::Succeeded(_) => Ok(()),
        Reply::Failed { status, text } => {
            let code = decimal_string(status as u64);
            let a = concat3("ERR_CODE:", code.as_str(), " | 폴더 생성 실패 (");
            let b = concat3(a.as_str(), path, "): ");
            Err(concat2(b.as_str(), text.as_str()))
        },
    }
}

/// The result of an upload: done when the request was sent and Dropbox accepted it.
pub fn upload_outcome(path: &str, reply: Reply<()>) -> (res: Result<(), String>)
    ensures
        match (reply, res) {
            (Reply::SendFailed(e), Err(r)) => r@ == e@,
            (Reply::Succeeded(Ok(())), Ok(())) => true,
            (Reply::Succeeded(Err(e)), Err(r)) => r@ == e@,
            (Reply::Failed { status, text }, Err(r)) => r@ == "ERR_CODE:"@ + decimal(
                status as nat,
            ) + " | 업로드 실패 ("@ + path@ + "): "@ + text@,
            _ => false,
        },
{
    match reply {
        Reply::SendFailed(e) => Err(e),
        Reply::Succeeded(Ok(())) => Ok(()),
        Reply::Succeeded(Err(e)) => Err(e),
        Reply::Failed { status, text } => {
            let code = decimal_string(status as u64);
            let a = concat3("ERR_CODE:", code.as_str(), " | 업로드 실패 (");
            let b = concat3(a.as_str(), path, "): ");
            Err(concat2(b.as_str(), text.as_str()))
        },
    }
}

/// The result of a download: the file's contents, to be written to the local copy, only when
/// Dropbox sent them with a success status and they were read in full; otherwise why not, and
/// the local copy stays as it is.
pub fn download_outcome(path: &str, reply: Reply<Vec<u8>>) -> (res: Result<Vec<u8>, String>)
    ensures
        match (reply, res) {
            (Reply::SendFailed(e), Err(r)) => r@ == e@,
            (Reply::Succeeded(Ok(body)), Ok(r)) => r@ == body@,
            (Reply::Succeeded(Err(e)), Err(r)) => r@ == e@,
            (Reply::Failed { status, text }, Err(r)) => r@ == "ERR_CODE:"@ + decimal(
                status as nat,
            ) + " | 다운로드 실패 ("@ + path@ + "): "@ + text@,
            _ => false,
        },
{
    match reply {
        Reply::SendFailed(e) => Err(e),
        Reply::Succeeded(Ok(body)) => Ok(body),
        Reply::Succeeded(Err(e)) => Err(e),
        Reply::Failed { status, text } => {
            let code = decimal_string(status as u64);
            let a = concat3("ERR_CODE:", code.as_str(), " | 다운로드 실패 (");
            let b = concat3(a.as_str(), path, "): ");
            Err(concat2(b.as_str(), text.as_str()))
        },
    }
}

/// The parent of a path, as `std::path::Path::parent` gives it, or `None` for a root or an
/// empty path. Which characters separate path components depends on the build target (on
/// Windows '\\' does too), so this names the function for the target the program is built for.
pub uninterp spec fn path_parent(path: Seq<char>) -> Option<Seq<char>>;

/// The parent of a path written with '/'.
/// Calls `std::path::Path::parent` on the path; the parent of a path made from a `str` is
/// itself valid text, so `to_str` gives it back. The result is named `path_parent`.
#[verifier::external_body]
fn parent_of(path: &str) -> (res: Option<String>)
    ensures
        opt_view(res) == path_parent(path@),
{
    match std::path::Path::new(path).parent() {
        Some(p) => p.to_str().map(|s| s.to_owned()),
        None => None,
    }
}

/// The cloud folder to create before an upload to `remote_path`: its parent, unless that is
/// empty or the root "/".
pub open spec fn upload_folder_of(remote_path: Seq<char>) -> Option<Seq<char>> {
    match path_parent(remote_path) {
        Some(p) => if p.len() != 0 && p != "/"@ {
            Some(p)
        } else {
            None
        },
        None => None,
    }
}

/// The folder to create before an upload, given the parent of the upload's path: the parent,
/// unless there is none or it is empty or the root "/".
pub fn folder_to_create(parent: Option<String>) -> (res: Option<String>)
    ensures
        opt_view(res) == match opt_view(parent) {
            Some(p) => if p.len() != 0 && p != "/"@ {
                Some(p)
            } else {
                None::<Seq<char>>
            },
            None => None,
        },
{
    match parent {
        Some(p) => {
            if !p.as_str().is_empty() && !str_eq(p.as_str(), "/") {
                Some(p)
            } else {
                None
            }
        },
        None => None,
    }
}

/// The cloud folder to create before an upload to `remote_path`.
pub fn upload_folder(remote_path: &str) -> (res: Option<String>)
    ensures
        opt_view(res) == upload_folder_of(remote_path@),
{
    folder_to_create(parent_of(remote_path))
}

} // verus!
