//! The command/reply exchanges, driven through a recording mock of the
//! vehicle side, with the library judging every reply.

use std::cell::RefCell;
use std::collections::HashMap;
use std::io;

use dji_tello_lib::link::{classify_reply, interpret_reply, TelloError};
use dji_tello_lib::nav::Direction;
use dji_tello_lib::tello::{
    delete_command, download_command, interpret_delete_all_reply, interpret_delete_reply,
    movement_command, plan_takeoff, rotation_command, TakeoffPlan, Tello,
};

/// A stand-in for the vehicle: records every command and answers from a
/// table, with unknown commands answered by `"error"`.
pub struct MockTello {
    commands: RefCell<Vec<String>>,
    responses: RefCell<HashMap<String, String>>,
}

impl MockTello {
    pub fn new() -> Self {
        let mut responses = HashMap::new();
        responses.insert("command".to_string(), "ok".to_string());
        responses.insert("takeoff".to_string(), "ok".to_string());
        responses.insert("land".to_string(), "ok".to_string());

        MockTello {
            commands: RefCell::new(Vec::new()),
            responses: RefCell::new(responses),
        }
    }

    pub fn send_command(&self, command: &str) -> io::Result<String> {
        self.commands.borrow_mut().push(command.to_string());

        let responses = self.responses.borrow();
        let response = responses
            .get(command)
            .cloned()
            .unwrap_or_else(|| "error".to_string());

        Ok(response)
    }

    pub fn get_commands(&self) -> Vec<String> {
        self.commands.borrow().clone()
    }

    pub fn set_response(&self, command: &str, response: &str) {
        self.responses.borrow_mut().insert(command.to_string(), response.to_string());
    }
}

#[test]
fn test_tello_new() {
    let tello = Tello::new();
    let pos = tello.get_position();
    assert!(pos.x == 0 && pos.y == 0 && pos.z == 0, "Failed to create Tello instance");
    assert_eq!(tello.get_heading(), 0);
    assert_eq!(format!("{}:{}", "192.168.10.1", 8889), "192.168.10.1:8889");
}

#[test]
fn test_takeoff_default_height() {
    let mock = MockTello::new();

    let reply = mock.send_command("takeoff").unwrap();
    let plan = plan_takeoff(None, &reply).unwrap();
    assert!(matches!(plan, TakeoffPlan::NoAdjustment));

    assert_eq!(mock.get_commands(), vec!["takeoff"]);
}

#[test]
fn test_takeoff_custom_height() {
    let mock = MockTello::new();

    let reply = mock.send_command("takeoff").unwrap();

    // A requested 2 m altitude is 100 cm above the 1 m default.
    let plan = plan_takeoff(Some(200), &reply).unwrap();
    match plan {
        TakeoffPlan::Adjust(cmd) => {
            assert_eq!(cmd, "up 100");
            mock.send_command(&cmd).unwrap();
        }
        _ => panic!("expected a corrective climb"),
    }

    assert_eq!(mock.get_commands(), vec!["takeoff", "up 100"]);
}

#[test]
fn test_takeoff_invalid_height() {
    let mock = MockTello::new();

    let reply = mock.send_command("takeoff").unwrap();

    // 10 m exceeds the 8 m cap: warn, keep the default, send nothing more.
    let plan = plan_takeoff(Some(1000), &reply).unwrap();
    assert!(matches!(plan, TakeoffPlan::RejectedTooHigh));

    assert_eq!(mock.get_commands(), vec!["takeoff"]);
}

#[test]
fn test_land() {
    let mock = MockTello::new();

    let reply = mock.send_command("land").unwrap();
    assert!(interpret_reply(&reply).is_ok());

    assert_eq!(mock.get_commands(), vec!["land"]);
}

#[test]
fn test_error_response() {
    let mock = MockTello::new();

    mock.set_response("takeoff", "error");

    let result = mock.send_command("takeoff");

    let reply = result.unwrap();
    assert_eq!(reply, "error");
    match interpret_reply(&reply) {
        Err(TelloError::Protocol(text)) => assert_eq!(text, "error"),
        _ => panic!("an error reply must be reported as a protocol failure"),
    }
}

#[test]
fn test_take_photo() {
    let mock = MockTello::new();

    mock.set_response("snapshot", "ok");

    let result = mock.send_command("snapshot");

    assert_eq!(result.unwrap(), "ok");
    assert_eq!(mock.get_commands(), vec!["snapshot"]);
}

#[test]
fn test_start_video() {
    let mock = MockTello::new();

    mock.set_response("streamon", "ok");

    let mut tello = Tello::new();
    let cmd = tello.start_video_command().unwrap();
    let result = mock.send_command(cmd);

    assert_eq!(result.unwrap(), "ok");
    assert_eq!(mock.get_commands(), vec!["streamon"]);
    assert!(tello.confirm_start_video("ok").is_ok());
    assert!(tello.is_video_recording());
}

#[test]
fn test_stop_video() {
    let mock = MockTello::new();

    mock.set_response("streamoff", "ok");

    let mut tello = Tello::new();
    tello.confirm_start_video("ok").unwrap();
    let cmd = tello.stop_video_command().unwrap();
    let result = mock.send_command(cmd);

    assert_eq!(result.unwrap(), "ok");
    assert_eq!(mock.get_commands(), vec!["streamoff"]);
    assert!(tello.confirm_stop_video("ok").is_ok());
    assert!(!tello.is_video_recording());
}

#[test]
fn test_list_media() {
    let mock = MockTello::new();

    mock.set_response("ls", "file1.jpg\nfile2.mp4\nok");

    let result = mock.send_command("ls");

    let reply = result.unwrap();
    assert_eq!(reply, "file1.jpg\nfile2.mp4\nok");
    assert_eq!(mock.get_commands(), vec!["ls"]);

    let files = dji_tello_lib::tello::parse_media_list(&reply).unwrap();
    assert_eq!(files, vec!["file1.jpg", "file2.mp4"]);
}

#[test]
fn test_download_media() {
    let mock = MockTello::new();

    mock.set_response("download file1.jpg", "ok");

    let cmd = download_command("file1.jpg");
    let result = mock.send_command(&cmd);

    assert_eq!(result.unwrap(), "ok");
    assert_eq!(mock.get_commands(), vec!["download file1.jpg"]);

    let tello = Tello::new();
    let report = tello.interpret_download_reply("file1.jpg", "ok").unwrap();
    assert_eq!(report, "Downloaded to ./tello_media/file1.jpg");
}

#[test]
fn test_delete_media() {
    let mock = MockTello::new();

    mock.set_response("rm file1.jpg", "ok");

    let cmd = delete_command("file1.jpg");
    let result = mock.send_command(&cmd);

    assert_eq!(result.unwrap(), "ok");
    assert_eq!(mock.get_commands(), vec!["rm file1.jpg"]);

    assert_eq!(interpret_delete_reply("file1.jpg", "ok").unwrap(), "Deleted file1.jpg");
}

#[test]
fn test_delete_all_media() {
    let mock = MockTello::new();

    mock.set_response("rmall", "ok");

    let result = mock.send_command("rmall");

    assert_eq!(result.unwrap(), "ok");
    assert_eq!(mock.get_commands(), vec!["rmall"]);

    assert_eq!(interpret_delete_all_reply("ok").unwrap(), "All media files deleted");
}

#[test]
fn test_rotate_cw() {
    let mock = MockTello::new();

    mock.set_response("cw 90", "ok");

    let cmd = rotation_command(true, 90).unwrap();
    assert_eq!(cmd, "cw 90");
    let result = mock.send_command(&cmd);

    assert_eq!(result.unwrap(), "ok");
    assert_eq!(mock.get_commands(), vec!["cw 90"]);

    let mut tello = Tello::new();
    tello.confirm_rotate(true, 90, "ok").unwrap();
    assert_eq!(tello.get_heading(), 90);
}

#[test]
fn test_rotate_ccw() {
    let mock = MockTello::new();

    mock.set_response("ccw 90", "ok");

    let cmd = rotation_command(false, 90).unwrap();
    assert_eq!(cmd, "ccw 90");
    let result = mock.send_command(&cmd);

    assert_eq!(result.unwrap(), "ok");
    assert_eq!(mock.get_commands(), vec!["ccw 90"]);

    let mut tello = Tello::new();
    tello.confirm_rotate(false, 90, "ok").unwrap();
    assert_eq!(tello.get_heading(), 270);
}

#[test]
fn test_invalid_rotation_value() {
    // Rotations outside (0, 360] are rejected before any network traffic.
    for bad in [0, -1, 361, 1000] {
        match rotation_command(true, bad) {
            Err(TelloError::Validation(msg)) => {
                assert_eq!(
                    msg,
                    format!(
                        "Invalid rotation value: {}. Should be between 1 and 360 degrees.",
                        bad
                    )
                );
            }
            _ => panic!("rotation of {} degrees must be rejected", bad),
        }
        assert!(matches!(rotation_command(false, bad), Err(TelloError::Validation(_))));
    }
}

#[test]
fn test_point_camera_to_center() {
    let mock = MockTello::new();

    mock.set_response("cw 90", "ok");
    mock.set_response("ccw 90", "ok");

    // From (0, 1000) mm facing 90 degrees, the origin lies a quarter turn
    // counter-clockwise.
    let mut tello = Tello::new();
    tello.set_position(0, 1000, 0);
    tello.confirm_rotate(true, 90, "ok").unwrap();

    let step = tello.point_camera_to_center(0, 0).expect("a rotation is needed");
    assert!(!step.clockwise);
    assert_eq!(step.degrees, 90);

    let cmd = rotation_command(step.clockwise, step.degrees).unwrap();
    assert_eq!(cmd, "ccw 90");
    mock.send_command(&cmd).unwrap();
    assert_eq!(mock.get_commands(), vec!["ccw 90"]);

    tello.confirm_rotate(step.clockwise, step.degrees, "ok").unwrap();
    assert_eq!(tello.get_heading(), 0);
    assert!(tello.point_camera_to_center(0, 0).is_none());
}

#[test]
fn test_transfer_file_via_direct_connection() {
    let mock = MockTello::new();

    mock.set_response("direct_transfer test_file.mp4", "ok");

    let cmd = dji_tello_lib::tello::direct_transfer_command("test_file.mp4");
    let result = mock.send_command(&cmd);

    assert_eq!(result.unwrap(), "ok");
    assert_eq!(mock.get_commands(), vec!["direct_transfer test_file.mp4"]);
}

#[test]
fn movement_commands_format_and_validate() {
    assert_eq!(movement_command(Direction::Forward, 100).unwrap(), "forward 100");
    assert_eq!(movement_command(Direction::Back, 1).unwrap(), "back 1");
    assert_eq!(movement_command(Direction::Left, 500).unwrap(), "left 500");
    assert_eq!(movement_command(Direction::Right, 42).unwrap(), "right 42");
    assert_eq!(movement_command(Direction::Up, 250).unwrap(), "up 250");
    assert_eq!(movement_command(Direction::Down, 33).unwrap(), "down 33");

    for bad in [0, -5, 501, 9999] {
        match movement_command(Direction::Forward, bad) {
            Err(TelloError::Validation(msg)) => {
                assert_eq!(
                    msg,
                    format!("Invalid distance value: {}. Should be between 1 and 500 cm.", bad)
                );
            }
            _ => panic!("distance of {} cm must be rejected", bad),
        }
    }
}

#[test]
fn classified_telemetry_reply_is_implicit_success() {
    let telemetry = "pitch:0;roll:0;yaw:0;vgx:0;vgy:0;vgz:0;bat:87;";

    // A movement command shadowed by telemetry counts as success.
    assert_eq!(classify_reply("forward 100", telemetry), "ok");

    // A data-bearing command cannot be spoofed: the listing is unavailable.
    assert_eq!(classify_reply("ls", telemetry), "No files found");
    assert_eq!(classify_reply("download file1.jpg", telemetry), "File not found");
    assert_eq!(classify_reply("direct_transfer a.mp4", telemetry), "File not found");

    // Ordinary replies pass through unchanged.
    assert_eq!(classify_reply("forward 100", "ok"), "ok");
    assert_eq!(classify_reply("forward 100", "error Not joystick"), "error Not joystick");
}
