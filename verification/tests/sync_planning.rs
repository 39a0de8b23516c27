use cloudgamesaver::sync::time_verdict;
use cloudgamesaver::api::RemoteEntry;
use cloudgamesaver::state::AppState;
use cloudgamesaver::sync::{
    decide_file, finish_result, Direction, Instant, LocalFile, LocalProbe, PendingFile,
    SyncAction, SyncEvent, SyncItem, SyncPlanner, SyncTask,
};

fn item(name: &str, local: &str, cloud: &str, token: &str, refresh: Option<&str>, enabled: bool) -> SyncItem {
    SyncItem {
        name: name.to_string(),
        local_path: local.to_string(),
        cloud_path: cloud.to_string(),
        token: token.to_string(),
        refresh_token: refresh.map(|r| r.to_string()),
        enabled,
    }
}

fn file(path: &str, hash: &str, modified: &str) -> RemoteEntry {
    RemoteEntry {
        name: path.rsplit('/').next().unwrap().to_string(),
        path_display: Some(path.to_string()),
        tag: "file".to_string(),
        server_modified: Some(modified.to_string()),
        content_hash: Some(hash.to_string()),
    }
}

fn probe(local: &str, exists: bool, hash: &str, modified: Option<(i64, u32)>) -> LocalProbe {
    LocalProbe {
        local_path: local.to_string(),
        exists,
        hash: hash.to_string(),
        modified: modified.map(|(secs, nanos)| Instant { secs, nanos }),
    }
}

fn step(p: &mut SyncPlanner, e: SyncEvent) -> SyncAction {
    assert!(p.accepts(&e));
    p.step(e)
}

fn task_summary(t: &SyncTask) -> (Direction, String, String, String, String) {
    (t.direction, t.token.clone(), t.remote_path.clone(), t.local_path.clone(), t.file_name.clone())
}

fn s(x: &str) -> String {
    x.to_string()
}

#[test]
fn two_way_plan_for_one_item() {
    let items = vec![
        item("Off", "/l/off", "/off", "t0", None, false),
        item("Game", "/l/game", "Game/Save/", "tok", None, true),
    ];
    let (mut p, a) = SyncPlanner::start(items);
    match a {
        SyncAction::ListRemote { token, path } => {
            assert_eq!(token, "tok");
            assert_eq!(path, "/Game/Save/");
        }
        _ => panic!("expected a listing"),
    }
    let listed = vec![
        file("/game/save/new.sav", "h1", "2024-01-01T00:00:00Z"),
        file("/Game/Save/same.sav", "h2", "2024-01-01T00:00:00Z"),
        file("/Game/Save/sub/cloud_newer.sav", "h3", "2024-06-01T00:00:00Z"),
        file("/Game/Save/local_newer.sav", "h4", "2024-01-01T00:00:00Z"),
        file("/Game/Save/no_time.sav", "h5", "2024-01-01T00:00:00Z"),
    ];
    assert!(matches!(step(&mut p, SyncEvent::Listed(Ok(listed))), SyncAction::CheckCancel));
    let rels = match step(&mut p, SyncEvent::CancelChecked(false)) {
        SyncAction::ProbeLocal { local_dir, rel_paths } => {
            assert_eq!(local_dir, "/l/game");
            rel_paths
        }
        _ => panic!("expected local probes"),
    };
    assert_eq!(
        rels,
        vec![s("new.sav"), s("same.sav"), s("sub/cloud_newer.sav"), s("local_newer.sav"), s("no_time.sav")]
    );
    let june = 1717200000i64;
    let probes = vec![
        probe("/l/game/new.sav", false, "", None),
        probe("/l/game/same.sav", true, "h2", Some((0, 0))),
        probe("/l/game/sub/cloud_newer.sav", true, "x", Some((june - 1, 0))),
        probe("/l/game/local_newer.sav", true, "x", Some((1704067200, 1))),
        probe("/l/game/no_time.sav", true, "x", None),
    ];
    match step(&mut p, SyncEvent::Probed(probes)) {
        SyncAction::ScanLocal(dir) => assert_eq!(dir, "/l/game"),
        _ => panic!("expected a local scan"),
    }
    let local = vec![
        LocalFile { rel_path: s("same.sav"), path: s("/l/game/same.sav") },
        LocalFile { rel_path: s("only_local.sav"), path: s("/l/game/only_local.sav") },
    ];
    match step(&mut p, SyncEvent::Scanned(local)) {
        SyncAction::Execute { tasks, updated_tokens } => {
            assert!(updated_tokens.is_empty());
            let got: Vec<_> = tasks.iter().map(task_summary).collect();
            assert_eq!(
                got,
                vec![
                    (Direction::Download, s("tok"), s("/game/save/new.sav"), s("/l/game/new.sav"), s("new.sav")),
                    (
                        Direction::Download,
                        s("tok"),
                        s("/Game/Save/sub/cloud_newer.sav"),
                        s("/l/game/sub/cloud_newer.sav"),
                        s("sub/cloud_newer.sav")
                    ),
                    (
                        Direction::Upload,
                        s("tok"),
                        s("/Game/Save/local_newer.sav"),
                        s("/l/game/local_newer.sav"),
                        s("local_newer.sav")
                    ),
                    (
                        Direction::Upload,
                        s("tok"),
                        s("Game/Save/only_local.sav"),
                        s("/l/game/only_local.sav"),
                        s("only_local.sav")
                    ),
                ]
            );
        }
        _ => panic!("expected transfers"),
    }
}

#[test]
fn nothing_to_do_is_up_to_date() {
    let (mut p, _) = SyncPlanner::start(vec![item("G", "/l", "/c", "t", None, true)]);
    step(&mut p, SyncEvent::Listed(Ok(vec![])));
    step(&mut p, SyncEvent::CancelChecked(false));
    step(&mut p, SyncEvent::Probed(vec![]));
    match step(&mut p, SyncEvent::Scanned(vec![])) {
        SyncAction::Finish { result, updated_tokens } => {
            let r = result.ok().unwrap();
            assert!(r.success);
            assert_eq!(r.message, "이미 모든 파일이 최신 상태입니다.");
            assert!(updated_tokens.is_empty());
        }
        _ => panic!("expected the end"),
    }
}

#[test]
fn no_enabled_items_is_up_to_date() {
    let (_, a) = SyncPlanner::start(vec![item("G", "/l", "/c", "t", None, false)]);
    match a {
        SyncAction::Finish { result, .. } => {
            assert_eq!(result.ok().unwrap().message, "이미 모든 파일이 최신 상태입니다.")
        }
        _ => panic!("expected the end"),
    }
}

#[test]
fn cancellation_after_listing() {
    let (mut p, _) = SyncPlanner::start(vec![item("G", "/l", "/c", "t", None, true)]);
    step(&mut p, SyncEvent::Listed(Ok(vec![file("/c/a", "h", "2024-01-01T00:00:00Z")])));
    match step(&mut p, SyncEvent::CancelChecked(true)) {
        SyncAction::Finish { result, updated_tokens } => {
            let r = result.ok().unwrap();
            assert!(!r.success);
            assert_eq!(r.message, "동기화가 취소되었습니다.");
            assert!(updated_tokens.is_empty());
        }
        _ => panic!("expected the end"),
    }
}

#[test]
fn renewed_token_is_used_for_later_items() {
    let items = vec![
        item("A", "/la", "/a", "old", Some("ref"), true),
        item("B", "/lb", "/b", "old-b", None, true),
    ];
    let (mut p, _) = SyncPlanner::start(items);
    let a = step(&mut p, SyncEvent::Listed(Err(s("ERR_CODE:401 | 클라우드 파일 목록 조회 실패 (/a): expired_access_token"))));
    assert!(matches!(a, SyncAction::RefreshToken(ref r) if r == "ref"));
    match step(&mut p, SyncEvent::Refreshed(Ok(s("new")))) {
        SyncAction::ListRemote { token, path } => {
            assert_eq!(token, "new");
            assert_eq!(path, "/a");
        }
        _ => panic!("expected a second listing"),
    }
    step(&mut p, SyncEvent::Listed(Ok(vec![])));
    step(&mut p, SyncEvent::CancelChecked(false));
    step(&mut p, SyncEvent::Probed(vec![]));
    match step(&mut p, SyncEvent::Scanned(vec![LocalFile { rel_path: s("x"), path: s("/la/x") }])) {
        SyncAction::ListRemote { token, path } => {
            assert_eq!(token, "new");
            assert_eq!(path, "/b");
        }
        _ => panic!("expected the next item"),
    }
    step(&mut p, SyncEvent::Listed(Ok(vec![])));
    step(&mut p, SyncEvent::CancelChecked(false));
    step(&mut p, SyncEvent::Probed(vec![]));
    match step(&mut p, SyncEvent::Scanned(vec![])) {
        SyncAction::Execute { tasks, updated_tokens } => {
            assert_eq!(updated_tokens, vec![(0usize, s("new"))]);
            assert_eq!(tasks.len(), 1);
            assert_eq!(tasks[0].token, "new");
            assert_eq!(tasks[0].remote_path, "/a/x");
        }
        _ => panic!("expected transfers"),
    }
}

#[test]
fn listing_errors() {
    let (mut p, _) = SyncPlanner::start(vec![item("G", "/l", "/c", "t", None, true)]);
    match step(&mut p, SyncEvent::Listed(Err(s("ERR_CODE:401 | expired")))) {
        SyncAction::Finish { result, .. } => {
            assert_eq!(result.err(), Some(s("세션이 만료되었습니다. 다시 로그인해주세요.")))
        }
        _ => panic!("expected the end"),
    }

    let (mut p, _) = SyncPlanner::start(vec![item("G", "/l", "/c", "t", None, true)]);
    match step(&mut p, SyncEvent::Listed(Err(s("ERR_CODE:500 | boom")))) {
        SyncAction::Finish { result, .. } => {
            assert_eq!(result.err(), Some(s("클라우드 연결 오류 (G): ERR_CODE:500 | boom")))
        }
        _ => panic!("expected the end"),
    }

    let (mut p, _) = SyncPlanner::start(vec![item("G", "/l", "/c", "t", None, true)]);
    assert!(matches!(
        step(&mut p, SyncEvent::Listed(Err(s("ERR_CODE:409 | path_not_found")))),
        SyncAction::CheckCancel
    ));

    let (mut p, _) = SyncPlanner::start(vec![item("G", "/l", "/c", "t", Some("r"), true)]);
    step(&mut p, SyncEvent::Listed(Err(s("expired"))));
    match step(&mut p, SyncEvent::Refreshed(Err(s("no")))) {
        SyncAction::Finish { result, .. } => {
            assert_eq!(result.err(), Some(s("토큰 갱신 실패: no. 다시 로그인해주세요.")))
        }
        _ => panic!("expected the end"),
    }

    let (mut p, _) = SyncPlanner::start(vec![item("G", "/l", "/c", "t", Some("r"), true)]);
    step(&mut p, SyncEvent::Listed(Err(s("expired"))));
    step(&mut p, SyncEvent::Refreshed(Ok(s("n"))));
    match step(&mut p, SyncEvent::Listed(Err(s("again")))) {
        SyncAction::Finish { result, .. } => {
            assert_eq!(result.err(), Some(s("토큰 갱신 후에도 실패: again")))
        }
        _ => panic!("expected the end"),
    }
}

#[test]
fn unreadable_cloud_time_stops_the_sync() {
    let (mut p, _) = SyncPlanner::start(vec![item("G", "/l", "/c", "t", None, true)]);
    step(&mut p, SyncEvent::Listed(Ok(vec![file("/c/a", "h", "yesterday")])));
    step(&mut p, SyncEvent::CancelChecked(false));
    match step(&mut p, SyncEvent::Probed(vec![probe("/l/a", true, "other", Some((0, 0)))])) {
        SyncAction::Finish { result, .. } => {
            assert!(result.err().unwrap().starts_with("서버 시간 파싱 실패: "))
        }
        _ => panic!("expected the end"),
    }
}

#[test]
fn uncuttable_cloud_path_stops_the_sync() {
    let (mut p, _) = SyncPlanner::start(vec![item("G", "/l", "/İ", "t", None, true)]);
    step(&mut p, SyncEvent::Listed(Ok(vec![file("/İé", "h", "2024-01-01T00:00:00Z")])));
    match step(&mut p, SyncEvent::CancelChecked(false)) {
        SyncAction::ProbeLocal { rel_paths, .. } => assert!(rel_paths.is_empty()),
        _ => panic!("expected local probes"),
    }
    match step(&mut p, SyncEvent::Probed(vec![])) {
        SyncAction::Finish { result, .. } => {
            assert_eq!(result.err(), Some(s("클라우드 경로를 나눌 수 없습니다: /İé")))
        }
        _ => panic!("expected the end"),
    }
}

#[test]
fn decisions_for_one_file() {
    let pending = PendingFile {
        remote_path: s("/c/a"),
        rel_path: s("a"),
        hash: s("h"),
        modified: Some(s("2024-01-01T00:00:00.5Z")),
    };
    let t = 1704067200i64;
    assert_eq!(decide_file(&pending, &probe("/l/a", false, "", None)), Ok(Some(Direction::Download)));
    assert_eq!(decide_file(&pending, &probe("/l/a", true, "h", Some((0, 0)))), Ok(None));
    assert_eq!(decide_file(&pending, &probe("/l/a", true, "x", Some((t, 499_999_999)))), Ok(Some(Direction::Download)));
    assert_eq!(decide_file(&pending, &probe("/l/a", true, "x", Some((t, 500_000_000)))), Ok(Some(Direction::Upload)));
    assert_eq!(decide_file(&pending, &probe("/l/a", true, "x", Some((t + 1, 0)))), Ok(Some(Direction::Upload)));
    assert_eq!(decide_file(&pending, &probe("/l/a", true, "x", None)), Ok(None));
    let offset = PendingFile { modified: Some(s("2024-01-01T09:00:00+09:00")), ..pending };
    assert_eq!(decide_file(&offset, &probe("/l/a", true, "x", Some((t - 1, 0)))), Ok(Some(Direction::Download)));
    let missing_time = PendingFile { modified: None, ..offset };
    assert!(decide_file(&missing_time, &probe("/l/a", true, "x", None)).unwrap_err().starts_with("서버 시간 파싱 실패: "));
}

#[test]
fn final_results() {
    let r = finish_result(3, 0, false);
    assert!(r.success);
    assert_eq!(r.message, "동기화 완료 (3개의 파일 처리)");
    let r = finish_result(3, 0, true);
    assert!(!r.success);
    assert_eq!(r.message, "동기화가 중단되었습니다.");
    let r = finish_result(3, 1, false);
    assert!(!r.success);
    assert_eq!(r.message, "동기화 실패 (3개의 파일 중 1개 실패)");
    let r = finish_result(3, 2, true);
    assert!(!r.success);
    assert_eq!(r.message, "동기화가 중단되었습니다.");
}

#[test]
fn cancel_flag() {
    let st = AppState::default();
    assert!(!st.is_cancelled());
    st.request_cancel();
    assert!(st.is_cancelled());
    st.clear_cancel();
    assert!(!st.is_cancelled());
}

#[test]
fn time_verdicts() {
    let local = Some(Instant { secs: 100, nanos: 5 });
    assert_eq!(time_verdict(Ok((100, 6)), local), Ok(Some(Direction::Download)));
    assert_eq!(time_verdict(Ok((100, 5)), local), Ok(Some(Direction::Upload)));
    assert_eq!(time_verdict(Ok((99, 999_999_999)), local), Ok(Some(Direction::Upload)));
    assert_eq!(time_verdict(Ok((101, 0)), None), Ok(None));
    assert_eq!(time_verdict(Err(s("bad")), local), Err(s("서버 시간 파싱 실패: bad")));
}
