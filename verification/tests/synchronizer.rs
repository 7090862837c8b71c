use bacchus_gpu_controller::crd::{RoleBinding, UserBootstrap, UserBootstrapStatus};
use bacchus_gpu_controller::k8s::{PatchParams, ResourceQuotaSpec};
use bacchus_gpu_controller::synchronizer::{
    check_export, default_sync_interval_secs, fields_under, find_row, infer_headers,
    parse_csv_headers, parse_csv_rows, plan_patches, read_sheet, requested_quota, select_rows,
    synchronize_loop, try_infer_header, Error, Row, SyncAction, SyncEvent, SyncState,
};

fn row(id_username: &str, gpu_server: &str, cpu_request: i64) -> Row {
    Row {
        name: "홍길동".to_string(),
        id_username: id_username.to_string(),
        gpu_server: gpu_server.to_string(),
        gpu_request: 2,
        cpu_request,
        memory_request: 4096,
        storage_request: 100,
    }
}

fn bootstrap(name: Option<&str>) -> UserBootstrap {
    let mut bootstrap = UserBootstrap::default();
    bootstrap.metadata.name = name.map(|name| name.to_string());
    bootstrap.metadata.uid = Some("uid-1".to_string());
    bootstrap.spec.kube_username = Some("someone".to_string());
    bootstrap.spec.rolebinding = Some(RoleBinding::default());
    bootstrap.status = Some(UserBootstrapStatus { synchronized_with_sheet: true });
    bootstrap
}

fn limits(cpu: &str) -> Option<ResourceQuotaSpec> {
    Some(ResourceQuotaSpec {
        hard: Some(vec![
            ("requests.cpu".to_string(), cpu.to_string()),
            ("requests.memory".to_string(), "4096Mi".to_string()),
            ("requests.nvidia.com/gpu".to_string(), "2".to_string()),
            ("requests.storage".to_string(), "100Gi".to_string()),
        ]),
        scope_selector: None,
        scopes: None,
    })
}

#[test]
fn passes_are_a_minute_apart() {
    assert_eq!(default_sync_interval_secs(), 60);
}

#[test]
fn known_headers() {
    let known = [
        ("타임스탬프", "timestamp"),
        ("이름", "name"),
        ("id.snucse.org 사용자 이름", "id_username"),
        ("사용할 GPU 서버", "gpu_server"),
        ("GPU 개수", "gpu_request"),
        ("CPU 코어 수", "cpu_request"),
        ("CPU 개수", "cpu_request"),
        ("메모리 (MiB)", "memory_request"),
        ("스토리지 (GiB)", "storage_request"),
        ("GPU 서버와 GPU 개수", "gpu_server"),
    ];
    for (header, field) in known {
        assert_eq!(try_infer_header(header), Ok(field.to_string()));
    }
}

#[test]
fn unknown_headers() {
    for header in ["", "이름 ", "id.snucse.org", "memory"] {
        let error = try_infer_header(header).unwrap_err();
        assert_eq!(error, Error::CsvHeaderError(format!("unknown header: \"{}\"", header)));
        assert_eq!(
            error.message(),
            format!("csv header error: unknown header: \"{}\"", header)
        );
    }
}

#[test]
fn first_unknown_header_is_reported() {
    let headers = vec!["이름".to_string(), "what".to_string(), "ever".to_string()];
    assert_eq!(
        infer_headers(&headers),
        Err(Error::CsvHeaderError("unknown header: \"what\"".to_string()))
    );
    assert_eq!(
        infer_headers(&vec!["메모리".to_string(), "이름".to_string()]),
        Ok(vec!["memory_request".to_string(), "name".to_string()])
    );
    assert_eq!(infer_headers(&Vec::new()), Ok(Vec::new()));
}

const SHEET: &str = "타임스탬프,이름,\"id.snucse.org 사용자 이름\",\"사용할\nGPU 서버\",GPU 개수,\
CPU 코어,메모리,스토리지\n2023-06-01,홍길동,alice,bentley,2,8,4096,100\n";

#[test]
fn headers_of_a_sheet() {
    assert_eq!(
        parse_csv_headers(SHEET),
        Ok(vec![
            "timestamp".to_string(),
            "name".to_string(),
            "id_username".to_string(),
            "gpu_server".to_string(),
            "gpu_request".to_string(),
            "cpu_request".to_string(),
            "memory_request".to_string(),
            "storage_request".to_string(),
        ])
    );
    assert_eq!(
        parse_csv_headers("이름,\"a \"\"b\"\"\"\n"),
        Err(Error::CsvHeaderError("unknown header: \"a \"b\"\"".to_string()))
    );
    assert_eq!(parse_csv_headers(""), Ok(Vec::new()));
}

#[test]
fn exported_sheet_is_read() {
    assert_eq!(check_export(true), Ok(()));
    assert_eq!(check_export(false), Err(Error::RequestFailed));
    assert_eq!(Error::RequestFailed.message(), "request failed");
    let sheet = read_sheet(SHEET.as_bytes().to_vec()).unwrap();
    assert_eq!(sheet.content, SHEET);
    assert_eq!(sheet.fields.len(), 8);
    assert_eq!(
        read_sheet(b"what\n".to_vec()),
        Err(Error::CsvHeaderError("unknown header: \"what\"".to_string()))
    );
}

#[test]
fn sheet_that_is_not_utf8() {
    let expected = String::from_utf8(vec![b'a', 0xff]).unwrap_err().to_string();
    let error = read_sheet(vec![b'a', 0xff]).unwrap_err();
    assert_eq!(error.message(), format!("file is not utf8: {}", expected));
    assert_eq!(error, Error::Utf8Error(expected));
}

#[test]
fn first_undecoded_record_is_reported() {
    let decoded = vec![
        Ok(row("alice", "bentley", 1)),
        Err("record 2".to_string()),
        Err("record 3".to_string()),
    ];
    let error = parse_csv_rows(decoded).unwrap_err();
    assert_eq!(error, Error::CsvParseError("record 2".to_string()));
    assert_eq!(error.message(), "csv parsing error: record 2");
    assert_eq!(parse_csv_rows(Vec::new()), Ok(Vec::new()));
}

#[test]
fn rows_of_other_servers_are_left_out() {
    let decoded = vec![
        Ok(row("alice", "bentley", 1)),
        Ok(row("bob", "ferrari", 2)),
        Ok(row("carol", "bentley", 3)),
    ];
    assert_eq!(
        select_rows(decoded, "bentley"),
        Ok(vec![row("alice", "bentley", 1), row("carol", "bentley", 3)])
    );
    let decoded = vec![Ok(row("bob", "ferrari", 2)), Err("record 2".to_string())];
    assert_eq!(
        select_rows(decoded, "bentley"),
        Err(Error::CsvParseError("record 2".to_string()))
    );
}

#[test]
fn first_row_of_a_user_counts() {
    let rows = vec![row("alice", "s", 1), row("bob", "s", 2), row("alice", "s", 3)];
    assert_eq!(find_row(&rows, "alice"), Some(&rows[0]));
    assert_eq!(find_row(&rows, "bob"), Some(&rows[1]));
    assert_eq!(find_row(&rows, "carol"), None);
}

#[test]
fn quota_of_a_row() {
    assert_eq!(Some(requested_quota(&row("alice", "s", 8))), limits("8"));
    assert_eq!(Some(requested_quota(&row("alice", "s", -1))), limits("-1"));
}

#[test]
fn only_the_quota_changes() {
    let rows = vec![row("alice", "s", 8), row("bob", "s", 4)];
    let listed = vec![
        bootstrap(Some("bob")),
        bootstrap(None),
        bootstrap(Some("carol")),
        bootstrap(Some("alice")),
    ];
    let patches = plan_patches(&rows, listed);
    assert_eq!(patches.len(), 2);
    assert_eq!(patches[0].name, "bob");
    assert_eq!(patches[1].name, "alice");
    assert_eq!(patches[0].params, PatchParams { field_manager: None, force: false });
    let mut expected = bootstrap(Some("bob"));
    expected.spec.quota = limits("4");
    assert_eq!(patches[0].bootstrap, expected);
    let again = plan_patches(&rows, vec![patches[0].bootstrap.clone()]);
    assert_eq!(again[0], patches[0]);
}

fn step(state: SyncState, event: SyncEvent) -> (SyncState, SyncAction) {
    assert!(state.awaits(&event));
    synchronize_loop(state, event, "bentley")
}

fn given_up(error: Error) -> (SyncState, SyncAction) {
    (SyncState::Finished, SyncAction::Fail(error))
}

fn two_rows() -> Vec<Row> {
    vec![row("alice", "bentley", 8), row("bob", "bentley", 4)]
}

fn listed() -> SyncEvent {
    SyncEvent::Listed(Ok(vec![bootstrap(Some("alice")), bootstrap(Some("bob"))]))
}

#[test]
fn pass_runs_from_the_tick_to_the_next() {
    let (state, action) = step(SyncState::Authenticating, SyncEvent::Authenticated(Ok(())));
    assert_eq!(action, SyncAction::Wait);
    let (state, action) = step(state, SyncEvent::Tick);
    assert_eq!(action, SyncAction::Export);
    let (state, action) = step(state, SyncEvent::Exported(Ok(true)));
    assert_eq!(action, SyncAction::Download);
    let body = SHEET.as_bytes().to_vec();
    let (state, action) = step(state, SyncEvent::Downloaded(Ok(body.clone())));
    assert_eq!(action, SyncAction::Decode(read_sheet(body).unwrap()));
    let decoded = vec![
        Ok(row("alice", "bentley", 8)),
        Ok(row("carol", "ferrari", 1)),
        Ok(row("bob", "bentley", 4)),
    ];
    let (state, action) = step(state, SyncEvent::Decoded(decoded));
    assert_eq!(action, SyncAction::List);
    assert_eq!(state, SyncState::Listing(two_rows()));
    let (state, action) = step(state, listed());
    assert!(matches!(action, SyncAction::Patch(patch) if patch.name == "alice"));
    let (state, action) = step(state, SyncEvent::Patched(Ok(())));
    assert!(matches!(action, SyncAction::Patch(patch) if patch.name == "bob"));
    let (state, action) = step(state, SyncEvent::Patched(Ok(())));
    assert_eq!((state, action), (SyncState::Waiting, SyncAction::Wait));
    assert_eq!(
        step(SyncState::Waiting, SyncEvent::Stop),
        (SyncState::Finished, SyncAction::Stop)
    );
}

#[test]
fn pass_ignores_other_servers() {
    let with = vec![
        Ok(row("bob", "ferrari", 9)),
        Ok(row("alice", "bentley", 8)),
        Ok(row("alice", "ferrari", 7)),
        Ok(row("carol", "bentley", 6)),
        Ok(row("bob", "", 5)),
    ];
    let fewer = vec![
        Ok(row("alice", "bentley", 8)),
        Ok(row("alice", "ferrari", 7)),
        Ok(row("carol", "bentley", 6)),
    ];
    let without = vec![Ok(row("alice", "bentley", 8)), Ok(row("carol", "bentley", 6))];
    let expected = step(SyncState::Decoding, SyncEvent::Decoded(without));
    assert_eq!(step(SyncState::Decoding, SyncEvent::Decoded(with)), expected);
    assert_eq!(step(SyncState::Decoding, SyncEvent::Decoded(fewer)), expected);
}

#[test]
fn pass_reports_the_first_bad_record() {
    let decoded = vec![
        Ok(row("alice", "bentley", 8)),
        Err("record 2".to_string()),
        Err("record 3".to_string()),
    ];
    assert_eq!(
        step(SyncState::Decoding, SyncEvent::Decoded(decoded)),
        given_up(Error::CsvParseError("record 2".to_string()))
    );
    let (state, action) = step(SyncState::Downloading, SyncEvent::Downloaded(Ok(vec![0xff])));
    assert_eq!(state, SyncState::Finished);
    assert!(matches!(action, SyncAction::Fail(Error::Utf8Error(_))));
}

#[test]
fn pass_without_patches_is_over() {
    assert_eq!(
        step(SyncState::Listing(Vec::new()), listed()),
        (SyncState::Waiting, SyncAction::Wait)
    );
}

#[test]
fn pass_stops_at_a_failure() {
    let (state, _) = step(SyncState::Listing(two_rows()), listed());
    assert_eq!(
        step(state, SyncEvent::Patched(Err("gone".to_string()))),
        given_up(Error::KubeError("gone".to_string()))
    );
}

#[test]
fn every_failure_ends_the_synchronizer() {
    let gone = "gone".to_string();
    assert_eq!(
        step(SyncState::Authenticating, SyncEvent::Authenticated(Err(gone.clone()))),
        given_up(Error::GoogleAuthError(gone.clone()))
    );
    assert_eq!(
        step(SyncState::Exporting, SyncEvent::Exported(Err(gone.clone()))),
        given_up(Error::GoogleApiError(gone.clone()))
    );
    assert_eq!(
        step(SyncState::Exporting, SyncEvent::Exported(Ok(false))),
        given_up(Error::RequestFailed)
    );
    assert_eq!(
        step(SyncState::Downloading, SyncEvent::Downloaded(Err(gone.clone()))),
        given_up(Error::HyperError(gone.clone()))
    );
    assert_eq!(
        step(SyncState::Downloading, SyncEvent::Downloaded(Ok(b"what".to_vec()))),
        given_up(Error::CsvHeaderError("unknown header: \"what\"".to_string()))
    );
    assert_eq!(
        step(SyncState::Decoding, SyncEvent::Decoded(vec![Err(gone.clone())])),
        given_up(Error::CsvParseError(gone.clone()))
    );
    assert_eq!(
        step(SyncState::Listing(Vec::new()), SyncEvent::Listed(Err(gone.clone()))),
        given_up(Error::KubeError(gone))
    );
}

#[test]
fn synchronizer_awaits_what_it_asked_for() {
    assert!(SyncState::Waiting.awaits(&SyncEvent::Tick));
    assert!(!SyncState::Waiting.awaits(&SyncEvent::Exported(Ok(true))));
    assert!(!SyncState::Exporting.awaits(&SyncEvent::Stop));
    assert!(!SyncState::Finished.awaits(&SyncEvent::Tick));
}

#[test]
fn header_that_could_not_be_read() {
    assert_eq!(
        fields_under(Err("torn".to_string())),
        Err(Error::CsvParseError("torn".to_string()))
    );
    assert_eq!(
        fields_under(Ok(vec!["이름".to_string()])),
        Ok(vec!["name".to_string()])
    );
}

#[test]
fn messages_of_outside_failures() {
    let cause = "cause".to_string();
    assert_eq!(Error::KubeError(cause.clone()).message(), "kube error: cause");
    assert_eq!(Error::GoogleAuthError(cause.clone()).message(), "google auth error: cause");
    assert_eq!(Error::GoogleApiError(cause.clone()).message(), "google api error: cause");
    assert_eq!(Error::HyperError(cause).message(), "hyper error: cause");
}
