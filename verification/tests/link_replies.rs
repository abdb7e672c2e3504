//! Reply classification, the success/failure judgement shared by every
//! command wrapper, and the telemetry display helpers.

use dji_tello_lib::link::{
    categorize_state, classify_reply, interpret_reply, is_telemetry_reply, reply_has_error,
    state_pairs, TelloError,
};
use dji_tello_lib::nav::Direction;
use dji_tello_lib::tello::{
    parse_media_list, photo_fallback_needed, photo_result, plan_takeoff, TakeoffPlan, Tello,
};

const TELEMETRY: &str = "pitch:2;roll:-1;yaw:160;vgx:0;vgy:0;vgz:0;templ:62;temph:65;tof:10;h:0;bat:87;baro:163.97;time:0;agx:5.00;agy:-9.00;agz:-999.00;";

#[test]
fn telemetry_detection_needs_all_three_markers() {
    assert!(is_telemetry_reply(TELEMETRY));
    assert!(!is_telemetry_reply("ok"));
    assert!(!is_telemetry_reply("pitch:1;roll:2;"));
    assert!(!is_telemetry_reply("error"));
}

#[test]
fn every_wrapper_reports_success_on_ok_and_failure_on_error_text() {
    // An exact "ok" satisfies every wrapper.
    assert!(interpret_reply("ok").is_ok());
    let mut tello = Tello::new();
    assert!(tello.confirm_move(Direction::Forward, 10, "ok").is_ok());
    assert!(tello.confirm_rotate(true, 10, "ok").is_ok());
    assert!(tello.confirm_start_video("ok").is_ok());
    assert!(tello.confirm_stop_video("ok").is_ok());
    assert!(plan_takeoff(None, "ok").is_ok());

    // Any reply carrying "error" fails with the text preserved.
    let pose_before = tello.get_position();
    let heading_before = tello.get_heading();
    for reply in ["error", "error Not joystick", "Auto land error"] {
        assert!(reply_has_error(reply));
        match interpret_reply(reply) {
            Err(TelloError::Protocol(text)) => assert_eq!(text, reply),
            _ => panic!("reply {:?} must fail", reply),
        }
        match tello.confirm_move(Direction::Forward, 10, reply) {
            Err(TelloError::Protocol(text)) => assert_eq!(text, reply),
            _ => panic!("reply {:?} must fail the move", reply),
        }
        match tello.confirm_rotate(false, 45, reply) {
            Err(TelloError::Protocol(text)) => assert_eq!(text, reply),
            _ => panic!("reply {:?} must fail the rotation", reply),
        }
        match plan_takeoff(Some(200), reply) {
            Err(TelloError::Protocol(text)) => assert_eq!(text, reply),
            _ => panic!("reply {:?} must fail the takeoff", reply),
        }
    }

    // A failed confirmation leaves the pose untouched.
    let p = tello.get_position();
    assert_eq!((p.x, p.y, p.z), (pose_before.x, pose_before.y, pose_before.z));
    assert_eq!(tello.get_heading(), heading_before);
}

#[test]
fn shadowed_replies_for_data_commands_report_data_unavailable() {
    // A movement command shadowed by telemetry is an implicit success.
    let classified = classify_reply("forward 100", TELEMETRY);
    assert_eq!(classified, "ok");
    assert!(interpret_reply(&classified).is_ok());

    // A listing command cannot recover its answer from telemetry.
    let classified = classify_reply("ls", TELEMETRY);
    assert_eq!(classified, "No files found");
    assert_eq!(parse_media_list(&classified).unwrap(), Vec::<String>::new());

    // Neither can a download handshake.
    assert_eq!(classify_reply("download f.jpg", TELEMETRY), "File not found");
}

#[test]
fn media_listing_parses_trimmed_lines_and_drops_ok() {
    let files = parse_media_list("  file1.jpg \nfile2.mp4\n\n ok \nok\nfinal.mp4").unwrap();
    assert_eq!(files, vec!["file1.jpg", "file2.mp4", "final.mp4"]);

    // A telemetry leak yields an empty listing.
    assert_eq!(parse_media_list(TELEMETRY).unwrap(), Vec::<String>::new());

    // An explicit error is surfaced with its text.
    match parse_media_list("error: storage busy") {
        Err(TelloError::Protocol(text)) => assert_eq!(text, "error: storage busy"),
        _ => panic!("an error listing must fail"),
    }
    match parse_media_list("Error 42") {
        Err(TelloError::Protocol(text)) => assert_eq!(text, "Error 42"),
        _ => panic!("an error listing must fail"),
    }
}

#[test]
fn takeoff_height_cap_and_adjustments() {
    // Exceeding the 8 m cap: base takeoff only, a warning, no correction.
    assert!(matches!(plan_takeoff(Some(1000), "ok"), Ok(TakeoffPlan::RejectedTooHigh)));
    assert!(matches!(plan_takeoff(Some(801), "ok"), Ok(TakeoffPlan::RejectedTooHigh)));

    // A non-positive height is likewise rejected with a warning.
    assert!(matches!(plan_takeoff(Some(0), "ok"), Ok(TakeoffPlan::RejectedNotPositive)));
    assert!(matches!(plan_takeoff(Some(-100), "ok"), Ok(TakeoffPlan::RejectedNotPositive)));

    // In-range heights adjust relative to the 1 m default.
    match plan_takeoff(Some(800), "ok") {
        Ok(TakeoffPlan::Adjust(cmd)) => assert_eq!(cmd, "up 700"),
        _ => panic!("8 m exactly is within the cap"),
    }
    match plan_takeoff(Some(40), "ok") {
        Ok(TakeoffPlan::Adjust(cmd)) => assert_eq!(cmd, "down 60"),
        _ => panic!("40 cm needs a descent"),
    }
    assert!(matches!(plan_takeoff(Some(100), "ok"), Ok(TakeoffPlan::NoAdjustment)));
}

#[test]
fn photo_fallback_logic() {
    assert!(!photo_fallback_needed("ok"));
    assert!(photo_fallback_needed("error"));
    assert_eq!(photo_result("error", "ok"), "ok");
    assert_eq!(photo_result("unknown command", "error"), "unknown command");
}

#[test]
fn state_pairs_drop_empty_fields() {
    let pairs = state_pairs("pitch:2;roll:-1;;bat:87;");
    assert_eq!(pairs, vec!["pitch:2", "roll:-1", "bat:87"]);
    assert_eq!(state_pairs(""), Vec::<String>::new());
}

#[test]
fn state_breakdown_groups_pairs_for_display() {
    let b = categorize_state("pitch:2;bat:87;tof:10;time:0;templ:62;vgx:5;");
    assert_eq!(b.battery, vec!["bat:87", "templ:62"]);
    assert_eq!(b.flight, vec!["pitch:2"]);
    // "vgx" carries the position letter x; "time" matches no group.
    assert_eq!(b.position, vec!["tof:10", "vgx:5"]);
    assert_eq!(b.other, vec!["time:0"]);
}

#[test]
fn video_state_is_enforced_before_sending() {
    let mut tello = Tello::new();
    match tello.stop_video_command() {
        Err(TelloError::Validation(msg)) => {
            assert_eq!(msg, "Video recording is not in progress")
        }
        _ => panic!("stopping without a recording must be refused"),
    }
    assert_eq!(tello.start_video_command().unwrap(), "streamon");
    tello.confirm_start_video("ok").unwrap();
    match tello.start_video_command() {
        Err(TelloError::Validation(msg)) => {
            assert_eq!(msg, "Video recording is already in progress")
        }
        _ => panic!("starting twice must be refused"),
    }
    assert_eq!(tello.stop_video_command().unwrap(), "streamoff");
}

#[test]
fn download_paths_follow_the_configured_directory() {
    let mut tello = Tello::new();
    assert_eq!(tello.get_download_path(), "./tello_media");
    tello.set_download_path("/tmp/media");
    assert_eq!(
        tello.interpret_download_reply("clip.mp4", "ok").unwrap(),
        "Downloaded to /tmp/media/clip.mp4"
    );
    assert_eq!(
        tello
            .interpret_direct_transfer_reply("clip.mp4", "started")
            .unwrap(),
        "File transfer started to /tmp/media/clip.mp4"
    );
    match tello.interpret_download_reply("clip.mp4", "error busy") {
        Err(TelloError::Protocol(text)) => assert_eq!(text, "error busy"),
        _ => panic!("a download error must be surfaced"),
    }
}
