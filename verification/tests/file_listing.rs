use cloudgamesaver::api::{ListPage, RemoteEntry, Reply};
use cloudgamesaver::files::{FileAction, FileListing};

fn entry(name: &str, tag: &str) -> RemoteEntry {
    RemoteEntry {
        name: name.to_string(),
        path_display: Some(format!("/x/{}", name)),
        tag: tag.to_string(),
        server_modified: None,
        content_hash: None,
    }
}

fn page(entries: Vec<RemoteEntry>, cursor: &str, has_more: bool) -> Reply<ListPage> {
    Reply::Succeeded(Ok(ListPage { entries, cursor: cursor.to_string(), has_more }))
}

fn names(r: Result<Vec<RemoteEntry>, String>) -> Vec<String> {
    r.ok().unwrap().into_iter().map(|e| e.name).collect()
}

fn finished(a: FileAction) -> Result<Vec<RemoteEntry>, String> {
    match a {
        FileAction::Finish(r) => r,
        _ => panic!("expected the listing to finish"),
    }
}

#[test]
fn single_page_keeps_files_in_order() {
    let (mut l, a) = FileListing::start("/x".to_string());
    assert!(matches!(a, FileAction::ListFirst(ref p) if p == "/x"));
    let r = finished(l.step(page(vec![entry("a", "file"), entry("d", "folder"), entry("b", "file")], "c0", false)));
    assert_eq!(names(r), vec!["a".to_string(), "b".to_string()]);
    assert!(!l.accepts());
}

#[test]
fn pages_are_followed_with_the_cursor() {
    let (mut l, _) = FileListing::start("/x".to_string());
    let a = l.step(page(vec![entry("a", "file")], "c1", true));
    assert!(matches!(a, FileAction::Continue(ref c) if c == "c1"));
    assert!(l.accepts());
    let a = l.step(page(vec![entry("d", "folder"), entry("b", "file")], "c2", true));
    assert!(matches!(a, FileAction::Continue(ref c) if c == "c2"));
    let r = finished(l.step(page(vec![entry("c", "file")], "c3", false)));
    assert_eq!(names(r), vec!["a".to_string(), "b".to_string(), "c".to_string()]);
}

#[test]
fn missing_folder_lists_as_empty() {
    let (mut l, _) = FileListing::start("/x".to_string());
    let r = finished(l.step(Reply::Failed {
        status: 409,
        text: "{\"error_summary\": \"path/not_found/..\"}".to_string(),
    }));
    assert_eq!(r.ok().unwrap().len(), 0);
}

#[test]
fn listing_failures() {
    let (mut l, _) = FileListing::start("/x".to_string());
    let r = finished(l.step(Reply::Failed { status: 409, text: "conflict".to_string() }));
    assert_eq!(r.err(), Some("ERR_CODE:409 | 클라우드 파일 목록 조회 실패 (/x): conflict".to_string()));

    let (mut l, _) = FileListing::start("/x".to_string());
    let r = finished(l.step(Reply::Failed { status: 401, text: "expired_access_token".to_string() }));
    assert_eq!(r.err(), Some("ERR_CODE:401 | 클라우드 파일 목록 조회 실패 (/x): expired_access_token".to_string()));

    let (mut l, _) = FileListing::start("/x".to_string());
    assert_eq!(finished(l.step(Reply::SendFailed("offline".to_string()))).err(), Some("offline".to_string()));

    let (mut l, _) = FileListing::start("/x".to_string());
    l.step(page(vec![entry("a", "file")], "c1", true));
    let r = finished(l.step(Reply::Failed { status: 409, text: "reset/not_found".to_string() }));
    assert_eq!(r.err(), Some("ERR_CODE:409 | 클라우드 파일 목록 조회 실패 (/x): reset/not_found".to_string()));

    let (mut l, _) = FileListing::start("/x".to_string());
    l.step(page(vec![entry("a", "file")], "c1", true));
    assert_eq!(finished(l.step(Reply::Succeeded(Err("eof".to_string())))).err(), Some("eof".to_string()));
}
