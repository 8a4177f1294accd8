use ytm::aggregator::{
    response_data_i64, response_data_seconds_ms, response_data_string, snapshot_from_lines,
    status_read, StatusRead,
};
use ytm::status::{completion_percent, format_time, render_status, MpvStatus};

#[test]
fn test_format_time() {
    assert_eq!(format_time(Some(0)), "00:00");
    assert_eq!(format_time(Some(59000)), "00:59");
    assert_eq!(format_time(Some(60000)), "01:00");
    assert_eq!(format_time(Some(125500)), "02:06");
    assert_eq!(format_time(None), "--:--");
}

#[test]
fn format_time_rounds_the_seconds_field() {
    // 119.6 s: one whole minute, remainder 59.6 s rounds to 60
    assert_eq!(format_time(Some(119600)), "01:60");
    // 119.4 s rounds down
    assert_eq!(format_time(Some(119400)), "01:59");
}

#[test]
fn completion_percent_is_zero_without_duration() {
    assert_eq!(completion_percent(Some(500000), None), 0);
    assert_eq!(completion_percent(Some(500000), Some(0)), 0);
    assert_eq!(completion_percent(None, None), 0);
    assert_eq!(completion_percent(None, Some(100000)), 0);
}

#[test]
fn completion_percent_rounds_down() {
    assert_eq!(completion_percent(Some(125500), Some(240000)), 52);
    assert_eq!(completion_percent(Some(1), Some(240000)), 0);
    assert_eq!(completion_percent(Some(240000), Some(240000)), 100);
}

fn empty_status() -> MpvStatus {
    MpvStatus {
        title: None,
        position_ms: None,
        duration_ms: None,
        playlist_pos: None,
        playlist_count: None,
        album: None,
        playlist_title: None,
    }
}

#[test]
fn unreachable_endpoint_reads_as_not_running() {
    let read = status_read(&None);
    assert_eq!(read, StatusRead::NotRunning);
    assert_ne!(read, StatusRead::Running(empty_status()));
}

#[test]
fn one_malformed_probe_leaves_the_other_fields() {
    let lines: Vec<Option<String>> = vec![
        Some("{\"data\":\"Fantastic Track\",\"error\":\"success\"}".to_string()),
        Some("{\"data\":125.5,\"error\":".to_string()),
        Some("{\"data\":240,\"error\":\"success\"}".to_string()),
        Some("{\"data\":2,\"error\":\"success\"}".to_string()),
        Some("{\"data\":9,\"error\":\"success\"}".to_string()),
        Some("{\"data\":null,\"error\":\"success\"}".to_string()),
        Some("{\"data\":\"Chill Mix\",\"error\":\"success\"}".to_string()),
    ];
    let snap = snapshot_from_lines(&lines);
    assert_eq!(snap.title, Some("Fantastic Track".to_string()));
    assert_eq!(snap.position_ms, None);
    assert_eq!(snap.duration_ms, Some(240000));
    assert_eq!(snap.playlist_pos, Some(2));
    assert_eq!(snap.playlist_count, Some(9));
    assert_eq!(snap.album, None);
    assert_eq!(snap.playlist_title, Some("Chill Mix".to_string()));
}

#[test]
fn missing_lines_leave_fields_absent() {
    let lines: Vec<Option<String>> = vec![None, None, None, None, None, None, None];
    let snap = snapshot_from_lines(&lines);
    assert_eq!(snap, empty_status());
}

#[test]
fn probe_decoders_read_the_data_field() {
    assert_eq!(
        response_data_string("{\"data\":\"abc\",\"error\":\"success\"}"),
        Some("abc".to_string())
    );
    assert_eq!(response_data_string("{\"data\":5}"), None);
    assert_eq!(response_data_string("{\"error\":\"success\"}"), None);
    assert_eq!(response_data_i64("{\"data\":-3}"), Some(-3));
    assert_eq!(response_data_i64("{\"data\":\"x\"}"), None);
    assert_eq!(response_data_seconds_ms("{\"data\":125.5}"), Some(125500));
    assert_eq!(response_data_seconds_ms("{\"data\":240}"), Some(240000));
    assert_eq!(response_data_seconds_ms("{\"data\":0.033}"), Some(33));
    assert_eq!(response_data_seconds_ms("{\"data\":null}"), None);
    assert_eq!(response_data_seconds_ms("not json"), None);
    // serde_json renders floats in plain decimal within this range
    assert_eq!(response_data_seconds_ms("{\"data\":2e3}"), Some(2000000));
    // a negative position does not read as a time
    assert_eq!(response_data_seconds_ms("{\"data\":-0.5}"), None);
}

#[test]
fn render_without_title_reports_not_responding() {
    let lines = render_status(&empty_status());
    assert_eq!(lines, vec!["Player not responding".to_string()]);
}

#[test]
fn render_with_playlist_counts_positions() {
    let status = MpvStatus {
        title: Some("Fantastic Track".to_string()),
        position_ms: Some(125500),
        duration_ms: Some(240000),
        playlist_pos: Some(2),
        playlist_count: Some(9),
        album: None,
        playlist_title: Some("Chill Mix".to_string()),
    };
    let lines = render_status(&status);
    assert_eq!(
        lines,
        vec![
            "Fantastic Track".to_string(),
            "Playlist: Chill Mix".to_string(),
            "[playlist] #2/9   02:06 / 04:00 (52%)".to_string(),
            "volume: 100%".to_string(),
        ]
    );
}

#[test]
fn render_prefers_album_and_single_track_plays_plain() {
    let status = MpvStatus {
        title: Some("Song".to_string()),
        position_ms: None,
        duration_ms: None,
        playlist_pos: Some(1),
        playlist_count: Some(1),
        album: Some("An Album".to_string()),
        playlist_title: Some("Ignored".to_string()),
    };
    let lines = render_status(&status);
    assert_eq!(
        lines,
        vec![
            "Song".to_string(),
            "Album: An Album".to_string(),
            "[playing]   --:-- / --:-- (0%)".to_string(),
            "volume: 100%".to_string(),
        ]
    );
}
