//! The flight controller: argument validation, command construction, and
//! the pose bookkeeping that follows every acknowledged command.
//!
//! The controller itself performs no I/O.  For each operation it offers a
//! command builder, which validates the caller's arguments and produces the
//! exact text to put on the wire, and a confirm step, which takes the
//! classified reply and applies the matching pose update on success.  The
//! socket layer around the crate sends the text, receives the reply, runs it
//! through [`crate::link::classify_reply`], and hands it back here.
//!
//! Positions are millimeters and headings whole degrees; coordinates
//! saturate at the model's 100 km boundary, far beyond the vehicle's reach.

use vstd::prelude::*;

use crate::link::{interpret_reply, is_telemetry_reply, is_telemetry_text, reply_has_error,
    has_error_marker, TelloError};
use crate::nav::{
    apply_rotation, atan2_to_degrees, away_heading, delta_x, delta_y, delta_z, face_heading,
    move_offsets, rotated_ccw, rotated_cw, rotation_step, wrap_rotation, Direction,
};
use crate::text::{
    dec_digits, i32_string, int_digits, split_string, split_text, str_eq, str_trim, text_trim,
    u32_string,
};

verus! {

/// The dead-reckoned position of the vehicle, in millimeters.
#[derive(Clone, Copy, PartialEq, Eq, Structural, Debug)]
pub struct Position {
    pub x: i64,
    pub y: i64,
    pub z: i64,
}

/// A planned rotation: how many degrees, and in which sense.
#[derive(Clone, Copy, PartialEq, Eq, Structural, Debug)]
pub struct RotationStep {
    pub degrees: i32,
    pub clockwise: bool,
}

/// What should follow the base takeoff command once it is acknowledged.
#[derive(Debug)]
pub enum TakeoffPlan {
    /// The default altitude is kept; nothing more to send.
    NoAdjustment,
    /// The requested height exceeds the 8 m cap; warn and keep the default.
    RejectedTooHigh,
    /// The requested height is not positive; warn and keep the default.
    RejectedNotPositive,
    /// Send this corrective climb or descent command.
    Adjust(String),
}

/// A coordinate saturated into the model's range.
pub open spec fn clamped(v: int) -> int {
    if v < -100_000_000 {
        -100_000_000
    } else if v > 100_000_000 {
        100_000_000
    } else {
        v
    }
}

/// Whether a position lies within the model's range.
pub open spec fn position_in_bounds(p: Position) -> bool {
    -100_000_000 <= p.x <= 100_000_000 && -100_000_000 <= p.y <= 100_000_000 && -100_000_000
        <= p.z <= 100_000_000
}

/// The wire token of a movement direction.
pub open spec fn direction_token(dir: Direction) -> Seq<char> {
    match dir {
        Direction::Forward => "forward"@,
        Direction::Back => "back"@,
        Direction::Left => "left"@,
        Direction::Right => "right"@,
        Direction::Up => "up"@,
        Direction::Down => "down"@,
    }
}

/// The movement direction named by a wire token, if any.
pub open spec fn direction_of_token(s: Seq<char>) -> Option<Direction> {
    if s == "forward"@ {
        Some(Direction::Forward)
    } else if s == "back"@ {
        Some(Direction::Back)
    } else if s == "left"@ {
        Some(Direction::Left)
    } else if s == "right"@ {
        Some(Direction::Right)
    } else if s == "up"@ {
        Some(Direction::Up)
    } else if s == "down"@ {
        Some(Direction::Down)
    } else {
        None
    }
}

/// `newp` is `oldp` displaced by a move of `d_mm` in `dir` at heading `h`,
/// with each coordinate saturated into the model's range.
pub open spec fn position_moved(
    oldp: Position,
    newp: Position,
    h: int,
    dir: Direction,
    d_mm: int,
) -> bool {
    newp.x == clamped(oldp.x + delta_x(h, dir, d_mm)) && newp.y == clamped(
        oldp.y + delta_y(h, dir, d_mm),
    ) && newp.z == clamped(oldp.z + delta_z(dir, d_mm))
}

/// The validation message for a movement distance out of range.
pub open spec fn invalid_distance_message(distance: int) -> Seq<char> {
    "Invalid distance value: "@ + int_digits(distance) + ". Should be between 1 and 500 cm."@
}

/// The validation message for a rotation out of range.
pub open spec fn invalid_rotation_message(degrees: int) -> Seq<char> {
    "Invalid rotation value: "@ + int_digits(degrees) + ". Should be between 1 and 360 degrees."@
}

/// The trimmed, non-empty lines of a media listing, with the terminal `ok`
/// acknowledgement dropped.
pub open spec fn media_lines(s: Seq<char>) -> Seq<Seq<char>> {
    split_text(s, '\n').map_values(|l: Seq<char>| text_trim(l)).filter(
        |l: Seq<char>| l.len() > 0 && l != "ok"@,
    )
}

/// Saturate a coordinate into the model's range.
fn clamp_coordinate(v: i64) -> (r: i64)
    ensures
        r == clamped(v as int),
        -100_000_000 <= r <= 100_000_000,
{
    if v < -100_000_000 {
        -100_000_000
    } else if v > 100_000_000 {
        100_000_000
    } else {
        v
    }
}

/// The wire token of a movement direction.
pub fn direction_str(dir: Direction) -> (r: &'static str)
    ensures
        r@ == direction_token(dir),
{
    match dir {
        Direction::Forward => "forward",
        Direction::Back => "back",
        Direction::Left => "left",
        Direction::Right => "right",
        Direction::Up => "up",
        Direction::Down => "down",
    }
}

/// Build a movement command, validating the distance to `(0, 500]`
/// centimeters before anything touches the network.
pub fn movement_command(dir: Direction, distance: i32) -> (r: Result<String, TelloError>)
    ensures
        0 < distance <= 500 ==> (r matches Ok(c) && c@ == direction_token(dir) + " "@
            + dec_digits(distance as nat)),
        !(0 < distance <= 500) ==> (r matches Err(TelloError::Validation(m)) && m@
            == invalid_distance_message(distance as int)),
{
    if distance <= 0 || distance > 500 {
        let mut m = "Invalid distance value: ".to_owned();
        m.append(i32_string(distance).as_str());
        m.append(". Should be between 1 and 500 cm.");
        Err(TelloError::Validation(m))
    } else {
        let mut c = direction_str(dir).to_owned();
        c.append(" ");
        c.append(u32_string(distance as u32).as_str());
        Ok(c)
    }
}

/// Build a rotation command, validating the angle to `(0, 360]` degrees.
pub fn rotation_command(clockwise: bool, degrees: i32) -> (r: Result<String, TelloError>)
    ensures
        0 < degrees <= 360 ==> (r matches Ok(c) && c@ == (if clockwise {
            "cw"@
        } else {
            "ccw"@
        }) + " "@ + dec_digits(degrees as nat)),
        !(0 < degrees <= 360) ==> (r matches Err(TelloError::Validation(m)) && m@
            == invalid_rotation_message(degrees as int)),
{
    if degrees <= 0 || degrees > 360 {
        let mut m = "Invalid rotation value: ".to_owned();
        m.append(i32_string(degrees).as_str());
        m.append(". Should be between 1 and 360 degrees.");
        Err(TelloError::Validation(m))
    } else {
        let mut c = if clockwise {
            "cw".to_owned()
        } else {
            "ccw".to_owned()
        };
        c.append(" ");
        c.append(u32_string(degrees as u32).as_str());
        Ok(c)
    }
}

/// Decide what follows the base takeoff command.
///
/// A failed acknowledgement is surfaced as a protocol error.  On success, a
/// requested height outside `(0, 800]` centimeters is rejected with a
/// warning and no corrective command is sent; a height within range
/// produces one climb or descent command relative to the default 100 cm.
pub fn plan_takeoff(height_cm: Option<i32>, reply: &str) -> (r: Result<TakeoffPlan, TelloError>)
    ensures
        reply@ != "ok"@ ==> (r matches Err(TelloError::Protocol(t)) && t@ == reply@),
        reply@ == "ok"@ ==> r is Ok,
        reply@ == "ok"@ && height_cm is None ==> (r matches Ok(p) && p is NoAdjustment),
        reply@ == "ok"@ ==> (height_cm matches Some(h) ==> ((h > 800 ==> (r matches Ok(p)
            && p is RejectedTooHigh)) && (h <= 0 ==> (r matches Ok(p) && p is RejectedNotPositive))
            && (100 < h <= 800 ==> (r matches Ok(p) && (p matches TakeoffPlan::Adjust(c) && c@
            == "up "@ + dec_digits((h - 100) as nat)))) && (0 < h < 100 ==> (r matches Ok(p) && (
        p matches TakeoffPlan::Adjust(c) && c@ == "down "@ + dec_digits((100 - h) as nat)))) && (h
            == 100 ==> (r matches Ok(p) && p is NoAdjustment)))),
{
    match interpret_reply(reply) {
        Err(e) => Err(e),
        Ok(()) => {
            match height_cm {
                None => Ok(TakeoffPlan::NoAdjustment),
                Some(h) => {
                    if h > 800 {
                        Ok(TakeoffPlan::RejectedTooHigh)
                    } else if h <= 0 {
                        Ok(TakeoffPlan::RejectedNotPositive)
                    } else if h > 100 {
                        let mut c = "up ".to_owned();
                        c.append(u32_string((h - 100) as u32).as_str());
                        Ok(TakeoffPlan::Adjust(c))
                    } else if h < 100 {
                        let mut c = "down ".to_owned();
                        c.append(u32_string((100 - h) as u32).as_str());
                        Ok(TakeoffPlan::Adjust(c))
                    } else {
                        Ok(TakeoffPlan::NoAdjustment)
                    }
                },
            }
        },
    }
}

/// Whether the first photo attempt failed and the fallback command should
/// be tried.
pub fn photo_fallback_needed(first_reply: &str) -> (r: bool)
    ensures
        r == (first_reply@ != "ok"@),
{
    !str_eq(first_reply, "ok")
}

/// The reply a photo operation reports after both attempts: the fallback
/// answer if it succeeded, otherwise the first attempt's answer.
pub fn photo_result(first_reply: &str, fallback_reply: &str) -> (r: String)
    ensures
        fallback_reply@ == "ok"@ ==> r@ == fallback_reply@,
        fallback_reply@ != "ok"@ ==> r@ == first_reply@,
{
    if str_eq(fallback_reply, "ok") {
        fallback_reply.to_owned()
    } else {
        first_reply.to_owned()
    }
}

/// Parse the reply to a media listing.
///
/// The shadowed-reply substitute and a telemetry leak both mean the listing
/// is unavailable and yield an empty list; an explicit error is surfaced
/// with its text; anything else is read as one file name per line.
pub fn parse_media_list(response: &str) -> (r: Result<Vec<String>, TelloError>)
    ensures
        response@ == "No files found"@ ==> (r matches Ok(v) && v@.len() == 0),
        response@ != "No files found"@ && has_error_marker(response@) ==> (r matches Err(
            TelloError::Protocol(t),
        ) && t@ == response@),
        response@ != "No files found"@ && !has_error_marker(response@) && is_telemetry_text(
            response@,
        ) ==> (r matches Ok(v) && v@.len() == 0),
        response@ != "No files found"@ && !has_error_marker(response@) && !is_telemetry_text(
            response@,
        ) ==> (r matches Ok(v) && v@.map_values(|p: String| p@) == media_lines(response@)),
{
    if str_eq(response, "No files found") {
        return Ok(Vec::new());
    }
    if reply_has_error(response) {
        return Err(TelloError::Protocol(response.to_owned()));
    }
    if is_telemetry_reply(response) {
        return Ok(Vec::new());
    }
    let raw = split_string(response, '\n');
    let ghost lines = raw@.map_values(|p: String| p@);
    let ghost pred = |l: Seq<char>| l.len() > 0 && l != "ok"@;
    let mut files: Vec<String> = Vec::new();
    proof {
        reveal(Seq::filter);
        assert(lines.subrange(0, 0).map_values(|l: Seq<char>| text_trim(l)) =~~= Seq::<
            Seq<char>,
        >::empty());
        assert(files@.map_values(|p: String| p@) =~~= Seq::<Seq<char>>::empty().filter(pred));
    }
    let mut i: usize = 0;
    while i < raw.len()
        invariant
            0 <= i <= raw.len(),
            lines == raw@.map_values(|p: String| p@),
            pred == (|l: Seq<char>| l.len() > 0 && l != "ok"@),
            files@.map_values(|p: String| p@) == lines.subrange(0, i as int).map_values(
                |l: Seq<char>| text_trim(l),
            ).filter(pred),
        decreases raw.len() - i,
    {
        let t = str_trim(raw[i].as_str());
        let keep = t.unicode_len() > 0 && !str_eq(t, "ok");
        proof {
            reveal(Seq::filter);
            let prefix = lines.subrange(0, i as int).map_values(|l: Seq<char>| text_trim(l));
            let next = lines.subrange(0, i + 1).map_values(|l: Seq<char>| text_trim(l));
            assert(next =~~= prefix.push(text_trim(lines[i as int])));
            assert(next.drop_last() =~~= prefix);
            assert(next.last() == text_trim(lines[i as int]));
        }
        if keep {
            files.push(t.to_owned());
            proof {
                let m = files@.map_values(|p: String| p@);
                assert(m =~~= m.subrange(0, m.len() - 1).push(t@));
            }
        }
        i += 1;
    }
    proof {
        assert(lines.subrange(0, lines.len() as int) =~~= lines);
    }
    Ok(files)
}

/// The client-side session state: dead-reckoned pose, video-recording flag,
/// and the download directory for media transfers.
pub struct Tello {
    position: Position,
    heading: u16,
    video_recording: bool,
    download_path: String,
}

impl Tello {
    /// The dead-reckoned position.
    pub closed spec fn spec_position(&self) -> Position {
        self.position
    }

    /// The dead-reckoned heading, in degrees.
    pub closed spec fn spec_heading(&self) -> int {
        self.heading as int
    }

    /// Whether a video recording is in progress.
    pub closed spec fn spec_recording(&self) -> bool {
        self.video_recording
    }

    /// The download directory for media files.
    pub closed spec fn spec_download_path(&self) -> Seq<char> {
        self.download_path@
    }

    /// The structural invariant: a normalized heading and a position within
    /// the model's range.
    pub open spec fn well_formed(&self) -> bool {
        0 <= self.spec_heading() < 360 && position_in_bounds(self.spec_position())
    }

    /// Everything except the position agrees between two states.
    pub open spec fn same_but_position(&self, other: &Tello) -> bool {
        self.spec_heading() == other.spec_heading() && self.spec_recording()
            == other.spec_recording() && self.spec_download_path() == other.spec_download_path()
    }

    /// Everything except the heading agrees between two states.
    pub open spec fn same_but_heading(&self, other: &Tello) -> bool {
        self.spec_position() == other.spec_position() && self.spec_recording()
            == other.spec_recording() && self.spec_download_path() == other.spec_download_path()
    }

    /// A fresh client: origin pose, heading zero, no recording, and the
    /// default download directory.
    pub fn new() -> (t: Tello)
        ensures
            t.well_formed(),
            t.spec_position() == (Position { x: 0, y: 0, z: 0 }),
            t.spec_heading() == 0,
            !t.spec_recording(),
            t.spec_download_path() == "./tello_media"@,
    {
        Tello {
            position: Position { x: 0, y: 0, z: 0 },
            heading: 0,
            video_recording: false,
            download_path: "./tello_media".to_owned(),
        }
    }

    /// Record a new download directory.  Creating it on disk is the socket
    /// layer's business.
    pub fn set_download_path(&mut self, path: &str)
        ensures
            final(self).spec_download_path() == path@,
            final(self).spec_position() == old(self).spec_position(),
            final(self).spec_heading() == old(self).spec_heading(),
            final(self).spec_recording() == old(self).spec_recording(),
            old(self).well_formed() ==> final(self).well_formed(),
    {
        self.download_path = path.to_owned();
    }

    /// The download directory.
    pub fn get_download_path(&self) -> (r: String)
        ensures
            r@ == self.spec_download_path(),
    {
        self.download_path.clone()
    }

    /// The destination path for a downloaded file.
    pub fn download_destination(&self, filename: &str) -> (r: String)
        ensures
            r@ == self.spec_download_path() + "/"@ + filename@,
    {
        let mut r = self.download_path.clone();
        r.append("/");
        r.append(filename);
        r
    }

    /// The current dead-reckoned position.
    pub fn get_position(&self) -> (p: Position)
        ensures
            p == self.spec_position(),
    {
        self.position
    }

    /// Overwrite the dead-reckoned position, saturating into the model's
    /// range.
    pub fn set_position(&mut self, x: i64, y: i64, z: i64)
        ensures
            final(self).spec_position().x == clamped(x as int),
            final(self).spec_position().y == clamped(y as int),
            final(self).spec_position().z == clamped(z as int),
            final(self).same_but_position(old(self)),
            old(self).well_formed() ==> final(self).well_formed(),
    {
        self.position = Position {
            x: clamp_coordinate(x),
            y: clamp_coordinate(y),
            z: clamp_coordinate(z),
        };
    }

    /// The current dead-reckoned heading, in degrees in `[0, 360)`.
    pub fn get_heading(&self) -> (h: u16)
        ensures
            h as int == self.spec_heading(),
    {
        self.heading
    }

    /// Whether a video recording is in progress.
    pub fn is_video_recording(&self) -> (r: bool)
        ensures
            r == self.spec_recording(),
    {
        self.video_recording
    }

    /// Displace the pose by an acknowledged move.
    fn apply_move(&mut self, dir: Direction, distance: i32)
        requires
            old(self).well_formed(),
            0 < distance <= 500,
        ensures
            final(self).well_formed(),
            position_moved(
                old(self).spec_position(),
                final(self).spec_position(),
                old(self).spec_heading(),
                dir,
                10 * distance,
            ),
            final(self).same_but_position(old(self)),
    {
        let offsets = move_offsets(self.heading, dir, distance);
        self.position = Position {
            x: clamp_coordinate(self.position.x + offsets.0),
            y: clamp_coordinate(self.position.y + offsets.1),
            z: clamp_coordinate(self.position.z + offsets.2),
        };
    }

    /// Update the pose after a movement command was confirmed successful.
    ///
    /// This is pure bookkeeping and never fails: a direction token that is
    /// not part of the protocol leaves the pose untouched.
    pub fn update_position_after_movement(&mut self, direction: &str, distance: i32)
        requires
            old(self).well_formed(),
            0 < distance <= 500,
        ensures
            final(self).well_formed(),
            (direction_of_token(direction@) matches Some(dir) ==> position_moved(
                old(self).spec_position(),
                final(self).spec_position(),
                old(self).spec_heading(),
                dir,
                10 * distance,
            ) && final(self).same_but_position(old(self))),
            direction_of_token(direction@) is None ==> *final(self) == *old(self),
    {
        if str_eq(direction, "forward") {
            self.apply_move(Direction::Forward, distance);
        } else if str_eq(direction, "back") {
            self.apply_move(Direction::Back, distance);
        } else if str_eq(direction, "left") {
            self.apply_move(Direction::Left, distance);
        } else if str_eq(direction, "right") {
            self.apply_move(Direction::Right, distance);
        } else if str_eq(direction, "up") {
            self.apply_move(Direction::Up, distance);
        } else if str_eq(direction, "down") {
            self.apply_move(Direction::Down, distance);
        }
    }

    /// Judge the classified reply to a movement command and, on success,
    /// apply the matching pose update.
    pub fn confirm_move(&mut self, dir: Direction, distance: i32, reply: &str) -> (r: Result<
        (),
        TelloError,
    >)
        requires
            old(self).well_formed(),
            0 < distance <= 500,
        ensures
            final(self).well_formed(),
            reply@ == "ok"@ ==> r is Ok && position_moved(
                old(self).spec_position(),
                final(self).spec_position(),
                old(self).spec_heading(),
                dir,
                10 * distance,
            ) && final(self).same_but_position(old(self)),
            reply@ != "ok"@ ==> (r matches Err(TelloError::Protocol(t)) && t@ == reply@
                && *final(self) == *old(self)),
    {
        match interpret_reply(reply) {
            Err(e) => Err(e),
            Ok(()) => {
                self.apply_move(dir, distance);
                Ok(())
            },
        }
    }

    /// Judge the classified reply to a rotation command and, on success,
    /// turn the dead-reckoned heading with it.
    pub fn confirm_rotate(&mut self, clockwise: bool, degrees: i32, reply: &str) -> (r: Result<
        (),
        TelloError,
    >)
        requires
            old(self).well_formed(),
            0 < degrees <= 360,
        ensures
            final(self).well_formed(),
            reply@ == "ok"@ ==> r is Ok && final(self).same_but_heading(old(self)) && (if clockwise {
                final(self).spec_heading() == rotated_cw(old(self).spec_heading(), degrees as int)
            } else {
                final(self).spec_heading() == rotated_ccw(old(self).spec_heading(), degrees as int)
            }),
            reply@ != "ok"@ ==> (r matches Err(TelloError::Protocol(t)) && t@ == reply@
                && *final(self) == *old(self)),
    {
        match interpret_reply(reply) {
            Err(e) => Err(e),
            Ok(()) => {
                self.heading = apply_rotation(self.heading, degrees, clockwise);
                Ok(())
            },
        }
    }

    /// The rotation that points the camera at `(center_x, center_y)`, or
    /// nothing when the heading is already aligned.
    pub fn point_camera_to_center(&self, center_x: i64, center_y: i64) -> (r: Option<RotationStep>)
        requires
            self.well_formed(),
            -100_000_000 <= center_x <= 100_000_000,
            -100_000_000 <= center_y <= 100_000_000,
        ensures
            ({
                let rot = wrap_rotation(
                    face_heading(
                        self.spec_position().x as int,
                        self.spec_position().y as int,
                        center_x as int,
                        center_y as int,
                    ) - self.spec_heading(),
                );
                (rot == 0 ==> r is None) && (rot != 0 ==> (r matches Some(s) && 1 <= s.degrees
                    <= 180 && s.clockwise == (rot > 0) && s.degrees as int == (if rot > 0 {
                    rot
                } else {
                    -rot
                })))
            }),
    {
        let dx = center_x - self.position.x;
        let dy = center_y - self.position.y;
        let bearing = atan2_to_degrees(dy, dx);
        let target = (bearing + 90) % 360;
        let rot = rotation_step(self.heading, target);
        if rot == 0 {
            None
        } else if rot > 0 {
            Some(RotationStep { degrees: rot, clockwise: true })
        } else {
            Some(RotationStep { degrees: -rot, clockwise: false })
        }
    }

    /// The rotation that points the camera away from `(center_x, center_y)`.
    pub fn point_camera_from_center(&self, center_x: i64, center_y: i64) -> (r: Option<
        RotationStep,
    >)
        requires
            self.well_formed(),
            -100_000_000 <= center_x <= 100_000_000,
            -100_000_000 <= center_y <= 100_000_000,
        ensures
            ({
                let rot = wrap_rotation(
                    away_heading(
                        self.spec_position().x as int,
                        self.spec_position().y as int,
                        center_x as int,
                        center_y as int,
                    ) - self.spec_heading(),
                );
                (rot == 0 ==> r is None) && (rot != 0 ==> (r matches Some(s) && 1 <= s.degrees
                    <= 180 && s.clockwise == (rot > 0) && s.degrees as int == (if rot > 0 {
                    rot
                } else {
                    -rot
                })))
            }),
    {
        let dx = center_x - self.position.x;
        let dy = center_y - self.position.y;
        let bearing = atan2_to_degrees(dy, dx);
        let target = (bearing + 270) % 360;
        let rot = rotation_step(self.heading, target);
        if rot == 0 {
            None
        } else if rot > 0 {
            Some(RotationStep { degrees: rot, clockwise: true })
        } else {
            Some(RotationStep { degrees: -rot, clockwise: false })
        }
    }

    /// The command that starts video streaming, refused while a recording
    /// is already in progress.
    pub fn start_video_command(&self) -> (r: Result<&'static str, TelloError>)
        ensures
            !self.spec_recording() ==> (r matches Ok(c) && c@ == "streamon"@),
            self.spec_recording() ==> (r matches Err(TelloError::Validation(m)) && m@
                == "Video recording is already in progress"@),
    {
        if self.video_recording {
            Err(TelloError::Validation("Video recording is already in progress".to_owned()))
        } else {
            Ok("streamon")
        }
    }

    /// Judge the reply to the stream-on command, marking the recording as
    /// started on success.
    pub fn confirm_start_video(&mut self, reply: &str) -> (r: Result<String, TelloError>)
        ensures
            old(self).well_formed() ==> final(self).well_formed(),
            final(self).spec_position() == old(self).spec_position(),
            final(self).spec_heading() == old(self).spec_heading(),
            final(self).spec_download_path() == old(self).spec_download_path(),
            reply@ == "ok"@ ==> (r matches Ok(t) && t@ == reply@) && final(self).spec_recording(),
            reply@ != "ok"@ ==> (r matches Err(TelloError::Protocol(t)) && t@ == reply@
                && *final(self) == *old(self)),
    {
        match interpret_reply(reply) {
            Err(e) => Err(e),
            Ok(()) => {
                self.video_recording = true;
                Ok(reply.to_owned())
            },
        }
    }

    /// The command that stops video streaming, refused while no recording
    /// is in progress.
    pub fn stop_video_command(&self) -> (r: Result<&'static str, TelloError>)
        ensures
            self.spec_recording() ==> (r matches Ok(c) && c@ == "streamoff"@),
            !self.spec_recording() ==> (r matches Err(TelloError::Validation(m)) && m@
                == "Video recording is not in progress"@),
    {
        if !self.video_recording {
            Err(TelloError::Validation("Video recording is not in progress".to_owned()))
        } else {
            Ok("streamoff")
        }
    }

    /// Judge the reply to the stream-off command, marking the recording as
    /// stopped on success.
    pub fn confirm_stop_video(&mut self, reply: &str) -> (r: Result<String, TelloError>)
        ensures
            old(self).well_formed() ==> final(self).well_formed(),
            final(self).spec_position() == old(self).spec_position(),
            final(self).spec_heading() == old(self).spec_heading(),
            final(self).spec_download_path() == old(self).spec_download_path(),
            reply@ == "ok"@ ==> (r matches Ok(t) && t@ == reply@) && !final(self).spec_recording(),
            reply@ != "ok"@ ==> (r matches Err(TelloError::Protocol(t)) && t@ == reply@
                && *final(self) == *old(self)),
    {
        match interpret_reply(reply) {
            Err(e) => Err(e),
            Ok(()) => {
                self.video_recording = false;
                Ok(reply.to_owned())
            },
        }
    }

    /// Judge the reply to a download command; on anything but an explicit
    /// error the transfer is reported as initiated toward the destination
    /// path.
    pub fn interpret_download_reply(&self, filename: &str, reply: &str) -> (r: Result<
        String,
        TelloError,
    >)
        ensures
            has_error_marker(reply@) ==> (r matches Err(TelloError::Protocol(t)) && t@ == reply@),
            !has_error_marker(reply@) ==> (r matches Ok(m) && m@ == "Downloaded to "@
                + self.spec_download_path() + "/"@ + filename@),
    {
        if reply_has_error(reply) {
            Err(TelloError::Protocol(reply.to_owned()))
        } else {
            let mut m = "Downloaded to ".to_owned();
            m.append(self.download_destination(filename).as_str());
            Ok(m)
        }
    }

    /// Judge the reply to a direct-transfer command.
    pub fn interpret_direct_transfer_reply(&self, filename: &str, reply: &str) -> (r: Result<
        String,
        TelloError,
    >)
        ensures
            has_error_marker(reply@) ==> (r matches Err(TelloError::Protocol(t)) && t@ == reply@),
            !has_error_marker(reply@) ==> (r matches Ok(m) && m@ == "File transfer started to "@
                + self.spec_download_path() + "/"@ + filename@),
    {
        if reply_has_error(reply) {
            Err(TelloError::Protocol(reply.to_owned()))
        } else {
            let mut m = "File transfer started to ".to_owned();
            m.append(self.download_destination(filename).as_str());
            Ok(m)
        }
    }
}

/// The download command for a media file.
pub fn download_command(filename: &str) -> (r: String)
    ensures
        r@ == "download "@ + filename@,
{
    let mut c = "download ".to_owned();
    c.append(filename);
    c
}

/// The direct-transfer command for a media file.
pub fn direct_transfer_command(filename: &str) -> (r: String)
    ensures
        r@ == "direct_transfer "@ + filename@,
{
    let mut c = "direct_transfer ".to_owned();
    c.append(filename);
    c
}

/// The delete command for a media file.
pub fn delete_command(filename: &str) -> (r: String)
    ensures
        r@ == "rm "@ + filename@,
{
    let mut c = "rm ".to_owned();
    c.append(filename);
    c
}

/// Judge the reply to a delete command.
pub fn interpret_delete_reply(filename: &str, reply: &str) -> (r: Result<String, TelloError>)
    ensures
        reply@ == "ok"@ ==> (r matches Ok(m) && m@ == "Deleted "@ + filename@),
        reply@ != "ok"@ ==> (r matches Err(TelloError::Protocol(t)) && t@ == reply@),
{
    match interpret_reply(reply) {
        Err(e) => Err(e),
        Ok(()) => {
            let mut m = "Deleted ".to_owned();
            m.append(filename);
            Ok(m)
        },
    }
}

/// Judge the reply to a delete-all command.
pub fn interpret_delete_all_reply(reply: &str) -> (r: Result<String, TelloError>)
    ensures
        reply@ == "ok"@ ==> (r matches Ok(m) && m@ == "All media files deleted"@),
        reply@ != "ok"@ ==> (r matches Err(TelloError::Protocol(t)) && t@ == reply@),
{
    match interpret_reply(reply) {
        Err(e) => Err(e),
        Ok(()) => Ok("All media files deleted".to_owned()),
    }
}

} // verus!
