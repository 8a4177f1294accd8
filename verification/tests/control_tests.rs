use ytm::controller::{
    confirm_transition, derive_state, execute_control_command, is_control_command, player_args,
    transition_frame, ConfirmPoll, ControlCommand, ControlError, PlayerState, PollStep,
};
use ytm::frame::serialize_frame;
use ytm::supervisor::{kill_target, mpv_pid_file, mpv_socket, pid_file_contents};

#[test]
fn control_words_are_recognized() {
    for word in ["stop", "pause", "resume", "next", "prev", "status"] {
        assert!(is_control_command(word));
    }
    assert!(!is_control_command("stopp"));
    assert!(!is_control_command(""));
    assert!(!is_control_command("boiler room"));
}

#[test]
fn control_words_resolve_to_their_commands() {
    assert_eq!(execute_control_command("stop"), Ok(ControlCommand::Stop));
    assert_eq!(execute_control_command("pause"), Ok(ControlCommand::Pause));
    assert_eq!(execute_control_command("resume"), Ok(ControlCommand::Resume));
    assert_eq!(execute_control_command("next"), Ok(ControlCommand::Next));
    assert_eq!(execute_control_command("prev"), Ok(ControlCommand::Prev));
    assert_eq!(execute_control_command("status"), Ok(ControlCommand::Status));
    assert_eq!(
        execute_control_command("rewind"),
        Err(ControlError::UnknownCommand)
    );
    assert_eq!(
        ControlError::UnknownCommand.message(),
        "Unknown control command"
    );
}

#[test]
fn commands_map_to_their_transport_frames() {
    let stop = transition_frame(&ControlCommand::Stop).unwrap();
    assert_eq!(serialize_frame(&stop), "{\"command\":[\"stop\"]}");
    let pause = transition_frame(&ControlCommand::Pause).unwrap();
    assert_eq!(serialize_frame(&pause), "{\"command\":[\"cycle\",\"pause\"]}");
    let resume = transition_frame(&ControlCommand::Resume).unwrap();
    assert_eq!(serialize_frame(&resume), "{\"command\":[\"cycle\",\"pause\"]}");
    let next = transition_frame(&ControlCommand::Next).unwrap();
    assert_eq!(serialize_frame(&next), "{\"command\":[\"playlist-next\",\"force\"]}");
    let prev = transition_frame(&ControlCommand::Prev).unwrap();
    assert_eq!(serialize_frame(&prev), "{\"command\":[\"playlist-prev\",\"force\"]}");
    assert_eq!(transition_frame(&ControlCommand::Status), None);
}

#[test]
fn state_is_derived_from_the_probe() {
    assert_eq!(derive_state(false, false), PlayerState::NotRunning);
    assert_eq!(derive_state(false, true), PlayerState::NotRunning);
    assert_eq!(derive_state(true, false), PlayerState::Idle);
    assert_eq!(derive_state(true, true), PlayerState::Playing);
}

#[test]
fn player_args_follow_the_flags() {
    assert_eq!(
        player_args("https://example.com/v", true, true),
        vec![
            "--no-video".to_string(),
            "--input-ipc-server=/tmp/ytm-mpv.sock".to_string(),
            "https://example.com/v".to_string(),
        ]
    );
    assert_eq!(
        player_args("https://example.com/v", false, false),
        vec!["https://example.com/v".to_string()]
    );
    assert_eq!(
        player_args("https://example.com/v", true, false),
        vec!["--no-video".to_string(), "https://example.com/v".to_string()]
    );
}

#[test]
fn single_track_playlist_exhausts_the_budget_without_error() {
    let mut poll = ConfirmPoll::new(Some(1), 10);
    let mut steps: usize = 0;
    loop {
        match poll.observe(Some(1)) {
            PollStep::Confirmed => panic!("an unchanged position never confirms"),
            PollStep::Retry => {
                steps += 1;
                assert!(steps < 10);
            }
            PollStep::Exhausted => {
                steps += 1;
                break;
            }
        }
    }
    assert_eq!(steps, 10);
    assert_eq!(poll.attempts_left, 0);

    let polls: Vec<Option<i64>> = vec![Some(1); 10];
    assert!(!confirm_transition(Some(1), &polls, 10));
}

#[test]
fn changed_position_confirms_early() {
    let mut poll = ConfirmPoll::new(Some(3), 10);
    assert_eq!(poll.observe(Some(3)), PollStep::Retry);
    assert_eq!(poll.observe(None), PollStep::Retry);
    assert_eq!(poll.observe(Some(4)), PollStep::Confirmed);

    let polls: Vec<Option<i64>> = vec![Some(3), None, Some(4)];
    assert!(confirm_transition(Some(3), &polls, 10));
    // a change seen only past the budget does not count
    assert!(!confirm_transition(Some(3), &polls, 2));
}

#[test]
fn force_kill_with_no_or_bad_pid_file_is_a_noop() {
    assert_eq!(kill_target(&None), None);
    assert_eq!(kill_target(&Some("".to_string())), None);
    assert_eq!(kill_target(&Some("not a pid".to_string())), None);
    assert_eq!(kill_target(&Some("12x".to_string())), None);
    assert_eq!(kill_target(&Some("99999999999999999999".to_string())), None);
}

#[test]
fn recorded_pid_round_trips_through_the_file_text() {
    let contents = pid_file_contents(4242);
    assert_eq!(contents, "4242");
    assert_eq!(kill_target(&Some(contents)), Some(4242));
    assert_eq!(kill_target(&Some("  77\n".to_string())), Some(77));
}

#[test]
fn pid_parsing_handles_the_integer_boundaries() {
    assert_eq!(kill_target(&Some("2147483647".to_string())), Some(2147483647));
    assert_eq!(kill_target(&Some("-2147483648".to_string())), Some(-2147483648));
    assert_eq!(kill_target(&Some("2147483648".to_string())), None);
    assert_eq!(kill_target(&Some("+123".to_string())), Some(123));
}

#[test]
fn well_known_paths_are_fixed() {
    assert_eq!(mpv_socket(), "/tmp/ytm-mpv.sock");
    assert_eq!(mpv_pid_file(), "/tmp/ytm-mpv.pid");
}
