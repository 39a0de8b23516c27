use cloudgamesaver::api::{download_outcome, upload_outcome};
use cloudgamesaver::api::folder_to_create;
use cloudgamesaver::api::first_code;
use cloudgamesaver::api::{
    auth_url, callback_code, create_folder_outcome, exchange_code_form, exchange_code_outcome,
    file_entries, folder_paths, get_app_key, get_app_secret, is_token_rejected,
    refresh_token_form, refresh_token_outcome, upload_folder, RemoteEntry,
    Reply, TokenResponse, REDIRECT_URI,
};

fn entry(name: &str, path: Option<&str>, tag: &str) -> RemoteEntry {
    RemoteEntry {
        name: name.to_string(),
        path_display: path.map(|p| p.to_string()),
        tag: tag.to_string(),
        server_modified: None,
        content_hash: None,
    }
}

fn pairs(v: &[(&str, &str)]) -> Vec<(String, String)> {
    v.iter().map(|(a, b)| (a.to_string(), b.to_string())).collect()
}

#[test]
fn app_key_and_secret_default_to_empty() {
    assert_eq!(get_app_key(Some("key123")), "key123");
    assert_eq!(get_app_key(None), "");
    assert_eq!(get_app_secret(Some("s3cr3t")), "s3cr3t");
    assert_eq!(get_app_secret(None), "");
}

#[test]
fn refresh_form_carries_the_refresh_token_and_app_credentials() {
    assert_eq!(
        refresh_token_form("rt", "k", "s"),
        pairs(&[
            ("grant_type", "refresh_token"),
            ("refresh_token", "rt"),
            ("client_id", "k"),
            ("client_secret", "s"),
        ])
    );
}

#[test]
fn exchange_form_carries_the_code_and_redirect() {
    assert_eq!(
        exchange_code_form("abc", "k", "s"),
        pairs(&[
            ("code", "abc"),
            ("grant_type", "authorization_code"),
            ("client_id", "k"),
            ("client_secret", "s"),
            ("redirect_uri", "http://localhost:8421/callback"),
        ])
    );
    assert_eq!(REDIRECT_URI, "http://localhost:8421/callback");
}

#[test]
fn refresh_outcomes() {
    let ok = Reply::Succeeded(Ok(TokenResponse {
        access_token: "new".to_string(),
        refresh_token: None,
    }));
    assert_eq!(refresh_token_outcome(ok), Ok("new".to_string()));
    assert_eq!(
        refresh_token_outcome(Reply::Failed { status: 400, text: "bad grant".to_string() }),
        Err("토큰 갱신 실패: bad grant".to_string())
    );
    assert_eq!(
        refresh_token_outcome(Reply::SendFailed("dns error".to_string())),
        Err("dns error".to_string())
    );
    assert_eq!(
        refresh_token_outcome(Reply::Succeeded(Err("missing field".to_string()))),
        Err("missing field".to_string())
    );
}

#[test]
fn exchange_outcomes() {
    let ok = Reply::Succeeded(Ok(TokenResponse {
        access_token: "a".to_string(),
        refresh_token: Some("r".to_string()),
    }));
    let t = exchange_code_outcome(ok).ok().unwrap();
    assert_eq!(t.access_token, "a");
    assert_eq!(t.refresh_token, Some("r".to_string()));
    assert_eq!(
        exchange_code_outcome(Reply::Failed { status: 400, text: "invalid code".to_string() })
            .err(),
        Some("토큰 교환 실패: invalid code".to_string())
    );
    assert_eq!(
        exchange_code_outcome(Reply::SendFailed("timeout".to_string())).err(),
        Some("timeout".to_string())
    );
}

#[test]
fn authorisation_page_address() {
    assert_eq!(
        auth_url("KEY"),
        "https://www.dropbox.com/oauth2/authorize?client_id=KEY&response_type=code&redirect_uri=http://localhost:8421/callback&token_access_type=offline"
    );
}

#[test]
fn callback_codes() {
    assert_eq!(callback_code("/callback?code=abc123&state=x"), Some("abc123".to_string()));
    assert_eq!(callback_code("/callback?state=x&code=a%20b+c"), Some("a b c".to_string()));
    assert_eq!(callback_code("/callback?code=first&code=second"), Some("first".to_string()));
    assert_eq!(callback_code("/callback?error=access_denied"), None);
    assert_eq!(callback_code("/favicon.ico"), None);
}

#[test]
fn token_rejection() {
    assert!(is_token_rejected(400, "{\"error_summary\": \"expired_access_token/\"}"));
    assert!(is_token_rejected(400, "invalid_access_token"));
    assert!(is_token_rejected(401, "whatever"));
    assert!(!is_token_rejected(500, "server error"));
}

#[test]
fn folder_paths_keep_folders_in_order() {
    let entries = vec![
        entry("Saves", Some("/Saves"), "folder"),
        entry("note.txt", Some("/note.txt"), "file"),
        entry("Other", None, "folder"),
    ];
    assert_eq!(folder_paths(&entries), vec!["/Saves".to_string(), "/Other".to_string()]);
}

#[test]
fn file_entries_keep_files_in_order() {
    let entries = vec![
        entry("a", Some("/x/a"), "file"),
        entry("x", Some("/x"), "folder"),
        entry("b", Some("/x/b"), "file"),
        entry("c", Some("/x/c"), "deleted"),
    ];
    let files = file_entries(entries);
    let names: Vec<&str> = files.iter().map(|e| e.name.as_str()).collect();
    assert_eq!(names, vec!["a", "b"]);
}

#[test]
fn folder_creation_outcomes() {
    assert_eq!(create_folder_outcome("/a", Reply::Succeeded(Ok(()))), Ok(()));
    assert_eq!(
        create_folder_outcome("/a", Reply::Failed { status: 409, text: "exists".to_string() }),
        Err("ERR_CODE:409 | 폴더 생성 실패 (/a): exists".to_string())
    );
    assert_eq!(
        create_folder_outcome("/a", Reply::SendFailed("offline".to_string())),
        Err("offline".to_string())
    );
}

#[test]
fn folder_to_create_before_upload() {
    assert_eq!(upload_folder("/Games/Save/a.sav"), Some("/Games/Save".to_string()));
    assert_eq!(upload_folder("/a.sav"), None);
    assert_eq!(upload_folder("a.sav"), None);
    assert_eq!(upload_folder("/"), None);
    assert_eq!(upload_folder("Games/a.sav"), Some("Games".to_string()));
}

#[test]
fn first_code_takes_the_first_code_pair() {
    assert_eq!(first_code(&pairs(&[("state", "s"), ("code", "c1"), ("code", "c2")])), Some("c1".to_string()));
    assert_eq!(first_code(&pairs(&[("Code", "x")])), None);
    assert_eq!(first_code(&Vec::new()), None);
}

#[test]
fn folder_to_create_skips_root_and_empty() {
    assert_eq!(folder_to_create(Some("/a".to_string())), Some("/a".to_string()));
    assert_eq!(folder_to_create(Some("/".to_string())), None);
    assert_eq!(folder_to_create(Some(String::new())), None);
    assert_eq!(folder_to_create(None), None);
}

#[test]
fn upload_outcomes() {
    assert_eq!(upload_outcome("/a/f", Reply::Succeeded(Ok(()))), Ok(()));
    assert_eq!(
        upload_outcome("/a/f", Reply::Failed { status: 401, text: "expired_access_token".to_string() }),
        Err("ERR_CODE:401 | 업로드 실패 (/a/f): expired_access_token".to_string())
    );
    assert_eq!(upload_outcome("/a/f", Reply::SendFailed("offline".to_string())), Err("offline".to_string()));
}

#[test]
fn download_outcomes_keep_error_bodies_off_the_save() {
    assert_eq!(download_outcome("/a/f", Reply::Succeeded(Ok(vec![1, 2, 3]))), Ok(vec![1, 2, 3]));
    assert_eq!(
        download_outcome("/a/f", Reply::Failed { status: 409, text: "path/not_found".to_string() }),
        Err("ERR_CODE:409 | 다운로드 실패 (/a/f): path/not_found".to_string())
    );
    assert_eq!(
        download_outcome("/a/f", Reply::Succeeded(Err("connection reset".to_string()))),
        Err("connection reset".to_string())
    );
    assert_eq!(download_outcome("/a/f", Reply::SendFailed("offline".to_string())), Err("offline".to_string()));
}
