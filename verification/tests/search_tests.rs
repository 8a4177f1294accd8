use ytm::search::{
    clamp_max_results, find_choice, menu_line, parse_selection_index, search_cache_key,
    search_choices, search_item_from_playlist, search_item_from_video, selection_in_range,
    watch_urls, SearchChoice, SearchError, SearchTarget,
};

#[test]
fn maps_video_items() {
    let mapped = search_item_from_video(
        "video123".to_string(),
        "Fantastic Track".to_string(),
        Some("Great Artist".to_string()),
        Some("A lovely song".to_string()),
    );
    assert_eq!(mapped.id.video_id.as_deref(), Some("video123"));
    assert_eq!(mapped.snippet.title, "Fantastic Track");
    assert_eq!(mapped.snippet.channel_title, "Great Artist");
    assert_eq!(mapped.snippet.description.as_deref(), Some("A lovely song"));
}

#[test]
fn maps_playlist_items() {
    let mapped = search_item_from_playlist(
        "playlist456".to_string(),
        "Chill Mix".to_string(),
        Some("DJ Test".to_string()),
        Some(42),
    );
    assert_eq!(mapped.id.playlist_id.as_deref(), Some("playlist456"));
    assert_eq!(mapped.snippet.title, "Chill Mix");
    assert_eq!(mapped.snippet.channel_title, "DJ Test");
    assert_eq!(mapped.snippet.description.as_deref(), Some("42 videos"));
}

#[test]
fn missing_channel_falls_back() {
    let mapped = search_item_from_video("v".to_string(), "T".to_string(), None, None);
    assert_eq!(mapped.snippet.channel_title, "Unknown channel");
    assert_eq!(mapped.snippet.description, None);
    assert_eq!(mapped.id.kind, "youtube#video");
}

#[test]
fn choices_label_and_trim_results() {
    let video = search_item_from_video(
        "v1".to_string(),
        "  Title  ".to_string(),
        Some(" Channel ".to_string()),
        None,
    );
    let playlist = search_item_from_playlist(
        "p1".to_string(),
        "Mix".to_string(),
        Some("DJ".to_string()),
        Some(3),
    );
    let choices = search_choices(&vec![video, playlist]);
    assert_eq!(choices.len(), 2);
    assert_eq!(choices[0].label, "Title | Channel");
    assert_eq!(choices[0].target, SearchTarget::Video("v1".to_string()));
    assert_eq!(choices[1].label, "Mix | DJ [playlist]");
    assert_eq!(choices[1].target, SearchTarget::Playlist("p1".to_string()));
}

#[test]
fn items_without_ids_are_dropped() {
    let mut nothing = search_item_from_video("x".to_string(), "T".to_string(), None, None);
    nothing.id.video_id = None;
    let choices = search_choices(&vec![nothing]);
    assert!(choices.is_empty());
}

#[test]
fn urls_name_their_target() {
    assert_eq!(
        SearchTarget::Video("abc".to_string()).url(),
        "https://www.youtube.com/watch?v=abc"
    );
    assert_eq!(
        SearchTarget::Playlist("xyz".to_string()).url(),
        "https://www.youtube.com/playlist?list=xyz"
    );
}

#[test]
fn selected_label_resolves_to_its_choice() {
    let choices = vec![
        SearchChoice {
            label: "A | C1".to_string(),
            target: SearchTarget::Video("a".to_string()),
        },
        SearchChoice {
            label: "B | C2".to_string(),
            target: SearchTarget::Video("b".to_string()),
        },
    ];
    assert_eq!(find_choice(&choices, "B | C2"), Some(1));
    assert_eq!(find_choice(&choices, "missing"), None);
}

#[test]
fn menu_lines_are_numbered() {
    assert_eq!(menu_line(1, "First", false), "1: First");
    assert_eq!(menu_line(12, "Mix", true), "12: Mix [playlist]");
}

#[test]
fn picked_lines_parse_back_to_their_number() {
    assert_eq!(parse_selection_index("3: Song"), Some(3));
    assert_eq!(parse_selection_index(" 12: Mix [playlist]"), Some(12));
    assert_eq!(parse_selection_index("7"), Some(7));
    assert_eq!(parse_selection_index(""), None);
    assert_eq!(parse_selection_index("   "), None);
    assert_eq!(parse_selection_index("x: Song"), None);
    assert!(selection_in_range(1, 3));
    assert!(selection_in_range(3, 3));
    assert!(!selection_in_range(0, 3));
    assert!(!selection_in_range(4, 3));
}

#[test]
fn playlist_video_ids_become_watch_urls() {
    let urls = watch_urls(&vec!["a1".to_string(), "b2".to_string()]);
    assert_eq!(
        urls,
        vec![
            "https://youtube.com/watch?v=a1".to_string(),
            "https://youtube.com/watch?v=b2".to_string(),
        ]
    );
}

#[test]
fn search_limits_are_clamped() {
    assert_eq!(clamp_max_results(None), 5);
    assert_eq!(clamp_max_results(Some(0)), 1);
    assert_eq!(clamp_max_results(Some(25)), 25);
    assert_eq!(clamp_max_results(Some(200)), 50);
}

#[test]
fn cache_keys_name_limit_and_query() {
    assert_eq!(
        search_cache_key("boiler room", 50),
        "ytm::search::50::boiler room"
    );
}

#[test]
fn search_errors_describe_the_query() {
    assert_eq!(
        SearchError::NoResults.message("abc"),
        "No results for 'abc'"
    );
    assert_eq!(
        SearchError::NoPlayable.message("abc"),
        "No playable videos or playlists found for 'abc'"
    );
    assert_eq!(
        SearchError::SelectionNotFound.message("abc"),
        "Selection not found"
    );
}
