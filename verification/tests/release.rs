use geode_cli_installer::download::{check_status, status_is_success, Download, DownloadAction, DownloadEvent};
use geode_cli_installer::error::InstallError;
use geode_cli_installer::release::{
    build_download_url, fetch_latest_tag, get_download_url, tag_of, RemoteVersionDescriptor,
    GEODE_API_URL, GEODE_GITHUB_URL,
};

#[test]
fn tag_is_read_from_payload() {
    let body = "{\"error\":\"\",\"payload\":{\"version\":\"4.10.0\",\"tag\":\"v4.10.0\"}}";
    assert_eq!(fetch_latest_tag(body), Ok("v4.10.0".to_string()));
}

#[test]
fn tag_without_error_member() {
    assert_eq!(fetch_latest_tag("{\"payload\":{\"tag\":\"v1.2.3\"}}"), Ok("v1.2.3".to_string()));
}

#[test]
fn service_error_is_reported() {
    let body = "{\"error\":\"rate limited\",\"payload\":{\"tag\":\"v1\"}}";
    assert_eq!(fetch_latest_tag(body), Err(InstallError::Service("rate limited".to_string())));
}

#[test]
fn error_that_is_no_string_is_ignored() {
    assert_eq!(fetch_latest_tag("{\"error\":null,\"payload\":{\"tag\":\"v2\"}}"), Ok("v2".to_string()));
    assert_eq!(fetch_latest_tag("{\"error\":17,\"payload\":{\"tag\":\"v2\"}}"), Ok("v2".to_string()));
}

#[test]
fn missing_tag_is_a_failure() {
    assert_eq!(fetch_latest_tag("{\"payload\":{}}"), Err(InstallError::MissingTag));
    assert_eq!(fetch_latest_tag("{}"), Err(InstallError::MissingTag));
    assert_eq!(fetch_latest_tag("[1,2]"), Err(InstallError::MissingTag));
    assert_eq!(fetch_latest_tag("{\"payload\":{\"tag\":5}}"), Err(InstallError::MissingTag));
    assert_eq!(fetch_latest_tag("{\"tag\":\"v1\"}"), Err(InstallError::MissingTag));
}

#[test]
fn body_that_is_no_json_is_a_bad_response() {
    match fetch_latest_tag("<html>") {
        Err(InstallError::BadResponse(why)) => assert!(!why.is_empty()),
        other => panic!("unexpected: {:?}", other),
    }
    assert!(matches!(fetch_latest_tag(""), Err(InstallError::BadResponse(_))));
    assert!(matches!(fetch_latest_tag("{\"payload\":"), Err(InstallError::BadResponse(_))));
}

#[test]
fn bad_response_carries_the_parser_words() {
    let expected = serde_json::from_str::<serde_json::Value>("{oops").unwrap_err().to_string();
    assert_eq!(fetch_latest_tag("{oops"), Err(InstallError::BadResponse(expected)));
}

#[test]
fn tag_of_descriptor() {
    let both = RemoteVersionDescriptor { error: Some("e".to_string()), tag: Some("t".to_string()) };
    assert_eq!(tag_of(Ok(both)), Err(InstallError::Service("e".to_string())));
    let empty_error = RemoteVersionDescriptor { error: Some(String::new()), tag: Some("t".to_string()) };
    assert_eq!(tag_of(Ok(empty_error)), Ok("t".to_string()));
    let nothing = RemoteVersionDescriptor { error: None, tag: None };
    assert_eq!(tag_of(Ok(nothing)), Err(InstallError::MissingTag));
    assert_eq!(tag_of(Err("bad".to_string())), Err(InstallError::BadResponse("bad".to_string())));
}

#[test]
fn url_holds_the_tag_twice() {
    assert_eq!(
        build_download_url("v4.10.0"),
        "https://github.com/geode-sdk/geode/releases/download/v4.10.0/geode-v4.10.0-win.zip"
    );
    assert_eq!(build_download_url(""), "https://github.com/geode-sdk/geode/releases/download//geode--win.zip");
    assert_eq!(GEODE_GITHUB_URL, "https://github.com/geode-sdk/geode/releases/download");
    assert_eq!(GEODE_API_URL, "https://api.geode-sdk.org/v1/loader/versions/latest");
}

#[test]
fn url_from_body() {
    assert_eq!(
        get_download_url("{\"payload\":{\"tag\":\"v9\"}}"),
        Ok("https://github.com/geode-sdk/geode/releases/download/v9/geode-v9-win.zip".to_string())
    );
    assert_eq!(get_download_url("{}"), Err(InstallError::MissingTag));
}

#[test]
fn success_is_two_hundred_to_two_ninety_nine() {
    assert!(!status_is_success(199));
    assert!(status_is_success(200));
    assert!(status_is_success(204));
    assert!(status_is_success(299));
    assert!(!status_is_success(300));
    assert!(!status_is_success(404));
    assert!(!status_is_success(0));
    assert_eq!(check_status(200), Ok(()));
    assert_eq!(check_status(404), Err(InstallError::HttpStatus(404)));
    assert_eq!(check_status(500), Err(InstallError::HttpStatus(500)));
}

#[test]
fn download_runs_to_completion() {
    let mut download = Download::new();
    assert_eq!(download, Download::Waiting);
    let action = download.step(DownloadEvent::Response { status: 200, content_length: Some(10000) });
    assert_eq!(action, DownloadAction::CreateFile { total: 10000 });
    assert_eq!(download, Download::Receiving { total: 10000, downloaded: 0 });
    assert_eq!(download.step(DownloadEvent::Read(8192)), DownloadAction::Write { position: 8192 });
    assert_eq!(download.step(DownloadEvent::Read(1808)), DownloadAction::Write { position: 10000 });
    assert_eq!(download, Download::Receiving { total: 10000, downloaded: 10000 });
    assert_eq!(download.step(DownloadEvent::Read(0)), DownloadAction::Finish);
    assert_eq!(download, Download::Complete);
    assert_eq!(download.step(DownloadEvent::Read(5)), DownloadAction::Nothing);
    assert_eq!(download, Download::Complete);
}

#[test]
fn unknown_length_is_zero_total() {
    let mut download = Download::new();
    let action = download.step(DownloadEvent::Response { status: 200, content_length: None });
    assert_eq!(action, DownloadAction::CreateFile { total: 0 });
    assert_eq!(download.step(DownloadEvent::Read(3)), DownloadAction::Write { position: 3 });
}

#[test]
fn refused_download_creates_no_file() {
    let mut download = Download::new();
    let action = download.step(DownloadEvent::Response { status: 404, content_length: Some(9) });
    assert_eq!(action, DownloadAction::Fail { status: 404 });
    assert_eq!(download, Download::Failed);
    let later = [
        DownloadEvent::Read(8192),
        DownloadEvent::Read(0),
        DownloadEvent::Response { status: 200, content_length: None },
        DownloadEvent::Read(1),
    ];
    for event in later {
        assert_eq!(download.step(event), DownloadAction::Nothing);
        assert_eq!(download, Download::Failed);
    }
}

#[test]
fn events_out_of_place_change_nothing() {
    let mut download = Download::new();
    assert_eq!(download.step(DownloadEvent::Read(7)), DownloadAction::Nothing);
    assert_eq!(download, Download::Waiting);
    download.step(DownloadEvent::Response { status: 200, content_length: Some(1) });
    let again = download.step(DownloadEvent::Response { status: 200, content_length: Some(2) });
    assert_eq!(again, DownloadAction::Nothing);
    assert_eq!(download, Download::Receiving { total: 1, downloaded: 0 });
}

#[test]
fn progress_stops_at_the_largest_number() {
    let mut download = Download::Receiving { total: 0, downloaded: u64::MAX - 5 };
    assert_eq!(download.step(DownloadEvent::Read(5)), DownloadAction::Write { position: u64::MAX });
    assert_eq!(download.step(DownloadEvent::Read(9)), DownloadAction::Write { position: u64::MAX });
    let mut other = Download::Receiving { total: 0, downloaded: u64::MAX - 5 };
    assert_eq!(other.step(DownloadEvent::Read(6)), DownloadAction::Write { position: u64::MAX });
}
