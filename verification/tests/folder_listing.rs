use cloudgamesaver::api::{RemoteEntry, Reply};
use cloudgamesaver::folders::{FolderAction, FolderEvent, FolderListing, ListFoldersResult};

fn folder(name: &str, path: Option<&str>) -> RemoteEntry {
    RemoteEntry {
        name: name.to_string(),
        path_display: path.map(|p| p.to_string()),
        tag: "folder".to_string(),
        server_modified: None,
        content_hash: None,
    }
}

fn listing() -> Vec<RemoteEntry> {
    let mut v = vec![folder("A", Some("/A")), folder("B", None)];
    v.push(RemoteEntry {
        name: "f.txt".to_string(),
        path_display: Some("/f.txt".to_string()),
        tag: "file".to_string(),
        server_modified: None,
        content_hash: None,
    });
    v
}

fn finished(a: FolderAction) -> Result<ListFoldersResult, String> {
    match a {
        FolderAction::Finish(r) => r,
        _ => panic!("expected the listing to finish"),
    }
}

fn step(l: &mut FolderListing, e: FolderEvent) -> FolderAction {
    assert!(l.accepts(&e));
    l.step(e)
}

#[test]
fn first_listing_succeeds() {
    let (mut l, a) = FolderListing::start("tok".to_string(), None);
    assert!(matches!(a, FolderAction::List(ref t) if t == "tok"));
    let r = finished(step(&mut l, FolderEvent::Listed(Reply::Succeeded(Ok(listing()))))).ok().unwrap();
    assert_eq!(r.folders, vec!["/A".to_string(), "/B".to_string()]);
    assert_eq!(r.new_token, None);
    assert!(!l.accepts(&FolderEvent::Refreshed(Ok("x".to_string()))));
}

#[test]
fn expired_token_without_refresh_token() {
    let (mut l, _) = FolderListing::start("tok".to_string(), None);
    let r = finished(step(
        &mut l,
        FolderEvent::Listed(Reply::Failed { status: 401, text: "expired".to_string() }),
    ));
    assert_eq!(r.err(), Some("expired_access_token|expired".to_string()));
}

#[test]
fn expired_token_is_renewed_once() {
    let (mut l, _) = FolderListing::start("old".to_string(), Some("refresh".to_string()));
    let a = step(
        &mut l,
        FolderEvent::Listed(Reply::Failed { status: 400, text: "{expired_access_token}".to_string() }),
    );
    assert!(matches!(a, FolderAction::Refresh(ref t) if t == "refresh"));
    assert!(!l.accepts(&FolderEvent::Listed(Reply::SendFailed(String::new()))));
    let a = step(&mut l, FolderEvent::Refreshed(Ok("new".to_string())));
    assert!(matches!(a, FolderAction::List(ref t) if t == "new"));
    let r = finished(step(&mut l, FolderEvent::Listed(Reply::Succeeded(Ok(listing()))))).ok().unwrap();
    assert_eq!(r.folders.len(), 2);
    assert_eq!(r.new_token, Some("new".to_string()));
}

#[test]
fn renewal_failures() {
    let (mut l, _) = FolderListing::start("old".to_string(), Some("refresh".to_string()));
    step(&mut l, FolderEvent::Listed(Reply::Failed { status: 401, text: "x".to_string() }));
    let r = finished(step(&mut l, FolderEvent::Refreshed(Err("토큰 갱신 실패: bad".to_string()))));
    assert_eq!(r.err(), Some("토큰 갱신 실패: 토큰 갱신 실패: bad. 다시 로그인해주세요.".to_string()));

    let (mut l, _) = FolderListing::start("old".to_string(), Some("refresh".to_string()));
    step(&mut l, FolderEvent::Listed(Reply::Failed { status: 401, text: "x".to_string() }));
    step(&mut l, FolderEvent::Refreshed(Ok("new".to_string())));
    let r = finished(step(
        &mut l,
        FolderEvent::Listed(Reply::Failed { status: 401, text: "still".to_string() }),
    ));
    assert_eq!(r.err(), Some("토큰 갱신 후에도 실패: still".to_string()));

    let (mut l, _) = FolderListing::start("old".to_string(), Some("refresh".to_string()));
    step(&mut l, FolderEvent::Listed(Reply::Failed { status: 401, text: "x".to_string() }));
    step(&mut l, FolderEvent::Refreshed(Ok("new".to_string())));
    let r = finished(step(&mut l, FolderEvent::Listed(Reply::SendFailed("net".to_string()))));
    assert_eq!(r.err(), Some("재시도 네트워크 요청 실패: net".to_string()));

    let (mut l, _) = FolderListing::start("old".to_string(), Some("refresh".to_string()));
    step(&mut l, FolderEvent::Listed(Reply::Failed { status: 401, text: "x".to_string() }));
    step(&mut l, FolderEvent::Refreshed(Ok("new".to_string())));
    let r = finished(step(&mut l, FolderEvent::Listed(Reply::Succeeded(Err("eof".to_string())))));
    assert_eq!(r.err(), Some("재시도 데이터 파싱 실패: eof".to_string()));
}

#[test]
fn other_first_failures() {
    let (mut l, _) = FolderListing::start("t".to_string(), Some("r".to_string()));
    let r = finished(step(
        &mut l,
        FolderEvent::Listed(Reply::Failed { status: 500, text: "boom".to_string() }),
    ));
    assert_eq!(r.err(), Some("드롭박스 목록 조회 실패: boom".to_string()));

    let (mut l, _) = FolderListing::start("t".to_string(), None);
    let r = finished(step(&mut l, FolderEvent::Listed(Reply::SendFailed("dns".to_string()))));
    assert_eq!(r.err(), Some("네트워크 요청 실패: dns".to_string()));

    let (mut l, _) = FolderListing::start("t".to_string(), None);
    let r = finished(step(&mut l, FolderEvent::Listed(Reply::Succeeded(Err("bad json".to_string())))));
    assert_eq!(r.err(), Some("데이터 파싱 실패: bad json".to_string()));
}
