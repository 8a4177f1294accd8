use ytm::frame::{frame_line, parse_frame, serialize_frame, CommandFrame, FrameToken};

#[test]
fn get_property_round_trip_preserves_the_frame() {
    let frame = CommandFrame::get_property("time-pos");
    let text = serialize_frame(&frame);
    assert_eq!(text, "{\"command\":[\"get_property\",\"time-pos\"]}");

    let back = parse_frame(&text).expect("a serialized frame parses");
    assert_eq!(back, frame);
    match (&back.tokens[0], &back.tokens[1]) {
        (FrameToken::Text(action), FrameToken::Text(arg)) => {
            assert_eq!(action, "get_property");
            assert_eq!(arg, "time-pos");
        }
        _ => panic!("both tokens are text"),
    }
}

#[test]
fn transport_frames_serialize_to_their_wire_text() {
    assert_eq!(
        serialize_frame(&CommandFrame::cycle_pause()),
        "{\"command\":[\"cycle\",\"pause\"]}"
    );
    assert_eq!(
        serialize_frame(&CommandFrame::playlist_next()),
        "{\"command\":[\"playlist-next\",\"force\"]}"
    );
    assert_eq!(
        serialize_frame(&CommandFrame::playlist_prev()),
        "{\"command\":[\"playlist-prev\",\"force\"]}"
    );
    assert_eq!(serialize_frame(&CommandFrame::stop_playback()), "{\"command\":[\"stop\"]}");
}

#[test]
fn frame_line_ends_with_one_newline() {
    let line = frame_line(&CommandFrame::stop_playback());
    assert_eq!(line, "{\"command\":[\"stop\"]}\n");
}

#[test]
fn mixed_token_frames_round_trip() {
    let frame = CommandFrame {
        tokens: vec![
            FrameToken::Text("seek".to_string()),
            FrameToken::Number(-30),
            FrameToken::Flag(true),
            FrameToken::Flag(false),
            FrameToken::Number(0),
        ],
    };
    let text = serialize_frame(&frame);
    assert_eq!(text, "{\"command\":[\"seek\",-30,true,false,0]}");
    assert_eq!(parse_frame(&text), Some(frame));
}

#[test]
fn text_with_quotes_and_backslashes_round_trips() {
    let frame = CommandFrame {
        tokens: vec![
            FrameToken::Text("loadfile".to_string()),
            FrameToken::Text("a \"b\" \\ c".to_string()),
        ],
    };
    let text = serialize_frame(&frame);
    assert_eq!(text, "{\"command\":[\"loadfile\",\"a \\\"b\\\" \\\\ c\"]}");
    assert_eq!(parse_frame(&text), Some(frame));
}

#[test]
fn control_characters_in_text_round_trip() {
    let frame = CommandFrame {
        tokens: vec![
            FrameToken::Text("loadfile".to_string()),
            FrameToken::Text("a\nb\tc".to_string()),
        ],
    };
    let text = serialize_frame(&frame);
    assert_eq!(text, "{\"command\":[\"loadfile\",\"a\\u000ab\\u0009c\"]}");
    assert_eq!(parse_frame(&text), Some(frame));
}

#[test]
fn malformed_lines_do_not_parse() {
    assert_eq!(parse_frame(""), None);
    assert_eq!(parse_frame("{\"command\":[]}"), None);
    assert_eq!(parse_frame("{\"command\":[\"stop\"]} "), None);
    assert_eq!(parse_frame("{\"command\":[\"stop\",]}"), None);
    assert_eq!(parse_frame("{\"other\":[\"stop\"]}"), None);
    assert_eq!(parse_frame("{\"command\":[\"stop\"]"), None);
    assert_eq!(parse_frame("{\"command\":[\"unterminated]}"), None);
}
