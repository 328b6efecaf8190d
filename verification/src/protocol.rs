//! The wire protocol: what a client may send and what the server says back.
//!
//! A client sends one command per chunk of text. Reading it takes two steps.
//! [`parse_command`] recognises the command word and cuts a move into its
//! fields. The numbers in those fields are single-precision decimals, which
//! this library does not compute with: the caller reads each field and hands
//! the readings to [`resolve`], which decides what the command asks for.

use vstd::prelude::*;
use vstd::utf8::{decode_utf8, valid_utf8};
use crate::position::Position;
use crate::scalar::{Scalar, ScalarView};
use crate::text::{split, split_fields, starts_with, trim, trimmed, views};
use crate::vector::{Triple, Vector};

verus! {

/// How many fields a move carries: a position and a direction, three numbers each.
pub const MOVE_FIELDS: usize = 6;

/// The mathematical value of a [`Command`].
pub enum CommandView {
    Ping,
    Join { name: Seq<char> },
    Move { fields: Seq<Seq<char>> },
    Unknown,
}

/// A chunk of input, told apart by its first word.
#[derive(Debug, Clone, PartialEq, Eq)]
pub enum Command {
    /// The input began with `ping`.
    Ping,
    /// The input began with `join:`; `name` is all that followed.
    Join { name: String },
    /// The input began with `move:`; `fields` is what followed, cut at its commas.
    Move { fields: Vec<String> },
    /// Anything else, the empty input included.
    Unknown,
}

impl View for Command {
    type V = CommandView;

    open spec fn view(&self) -> CommandView {
        match self {
            Command::Ping => CommandView::Ping,
            Command::Join { name } => CommandView::Join { name: name@ },
            Command::Move { fields } => CommandView::Move { fields: views(fields@) },
            Command::Unknown => CommandView::Unknown,
        }
    }
}

/// The mathematical value of a [`Request`].
pub enum RequestView {
    Ping,
    Join { name: Seq<char> },
    Move { position: Triple, direction: Triple },
    Ignore,
    Violation,
}

/// What a command asks the server to do, once its numbers have been read.
#[derive(Debug, Clone, PartialEq, Eq)]
pub enum Request {
    /// Answer the sender.
    Ping,
    /// Open a session under `name`.
    Join { name: String },
    /// Put the sender's session at `position`, heading `direction`.
    Move { position: Position, direction: Vector },
    /// Do nothing and keep the connection.
    Ignore,
    /// The client broke the protocol: end its connection.
    Violation,
}

impl View for Request {
    type V = RequestView;

    open spec fn view(&self) -> RequestView {
        match self {
            Request::Ping => RequestView::Ping,
            Request::Join { name } => RequestView::Join { name: name@ },
            Request::Move { position, direction } => RequestView::Move {
                position: position@,
                direction: direction@,
            },
            Request::Ignore => RequestView::Ignore,
            Request::Violation => RequestView::Violation,
        }
    }
}

/// The command that `input` spells. White space around the input does not
/// count; the command words are tried in the order ping, join, move, and a
/// word matches when the input begins with it.
pub open spec fn parse(input: Seq<char>) -> CommandView {
    let line = trimmed(input);
    if "ping"@.is_prefix_of(line) {
        CommandView::Ping
    } else if "join:"@.is_prefix_of(line) {
        CommandView::Join { name: line.skip(5) }
    } else if "move:"@.is_prefix_of(line) {
        CommandView::Move { fields: split_fields(line.skip(5)) }
    } else {
        CommandView::Unknown
    }
}

/// The values that a sequence of readings holds.
pub open spec fn reading_views(readings: Seq<Option<Scalar>>) -> Seq<Option<ScalarView>> {
    Seq::new(
        readings.len(),
        |i: int|
            match readings[i] {
                Some(scalar) => Some(scalar@),
                None => None,
            },
    )
}

/// Whether `readings` holds a number for each field of a move.
pub open spec fn all_read(readings: Seq<Option<ScalarView>>) -> bool {
    &&& readings.len() == MOVE_FIELDS
    &&& forall|i: int| 0 <= i < readings.len() ==> readings[i] is Some
}

/// What `command` asks for, given the reading of each field of a move
/// (`None` where a field is no number).
///
/// A move must have exactly six fields, or it is a violation. With six fields
/// it counts only if all six are numbers: the first three are the position, the
/// last three the direction. Otherwise it is ignored, as an unknown command is.
pub open spec fn resolved(command: CommandView, readings: Seq<Option<ScalarView>>) -> RequestView {
    match command {
        CommandView::Ping => RequestView::Ping,
        CommandView::Join { name } => RequestView::Join { name },
        CommandView::Move { fields } => if fields.len() != MOVE_FIELDS {
            RequestView::Violation
        } else if all_read(readings) {
            RequestView::Move {
                position: Triple { x: readings[0]->0, y: readings[1]->0, z: readings[2]->0 },
                direction: Triple { x: readings[3]->0, y: readings[4]->0, z: readings[5]->0 },
            }
        } else {
            RequestView::Ignore
        },
        CommandView::Unknown => RequestView::Ignore,
    }
}

/// The reply to a ping.
pub open spec fn pong_message() -> Seq<char> {
    "pong\n"@
}

/// What the others are told when `name` joins.
pub open spec fn join_message(name: Seq<char>) -> Seq<char> {
    name + " joined the game\n"@
}

/// What the others are told when `name` moves: the six numbers in their
/// decimal rendering, position first.
pub open spec fn move_message(name: Seq<char>, position: Triple, direction: Triple) -> Seq<char> {
    name + " moved to ("@ + position.x.text + ", "@ + position.y.text + ", "@ + position.z.text
        + "), dir ("@ + direction.x.text + ", "@ + direction.y.text + ", "@ + direction.z.text
        + ")\n"@
}

/// What UTF-8 decoding makes of `bytes` when every malformed sequence is
/// replaced by U+FFFD, as `String::from_utf8_lossy` does it.
pub uninterp spec fn lossy_text(bytes: Seq<u8>) -> Seq<char>;

/// Calls `String::from_utf8_lossy`. The contract names the text it returns and
/// states the one case its documentation spells out: well-formed UTF-8 decodes
/// to the characters it encodes.
#[verifier::external_body]
fn decode_lossy(bytes: &[u8]) -> (text: String)
    ensures
        text@ == lossy_text(bytes@),
        valid_utf8(bytes@) ==> text@ == decode_utf8(bytes@),
{
    String::from_utf8_lossy(bytes).into_owned()
}

/// The reply to a ping.
pub fn compose_pong() -> (message: String)
    ensures
        message@ == pong_message(),
{
    "pong\n".to_owned()
}

/// The announcement of a join.
pub fn compose_join(name: &str) -> (message: String)
    ensures
        message@ == join_message(name@),
{
    let mut message = name.to_owned();
    message.append(" joined the game\n");
    message
}

/// The announcement of a move.
pub fn compose_move(name: &str, position: &Position, direction: &Vector) -> (message: String)
    ensures
        message@ == move_message(name@, position@, direction@),
{
    let mut message = name.to_owned();
    message.append(" moved to (");
    message.append(position.x.text.as_str());
    message.append(", ");
    message.append(position.y.text.as_str());
    message.append(", ");
    message.append(position.z.text.as_str());
    message.append("), dir (");
    message.append(direction.x.text.as_str());
    message.append(", ");
    message.append(direction.y.text.as_str());
    message.append(", ");
    message.append(direction.z.text.as_str());
    message.append(")\n");
    message
}

/// Reads the command in a chunk of text.
pub fn parse_command(input: &str) -> (command: Command)
    ensures
        command@ == parse(input@),
{
    let line = trim(input);
    if starts_with(line, "ping") {
        Command::Ping
    } else if starts_with(line, "join:") {
        proof {
            reveal_strlit("join:");
        }
        let name = line.substring_char(5, line.unicode_len());
        Command::Join { name: name.to_owned() }
    } else if starts_with(line, "move:") {
        proof {
            reveal_strlit("move:");
        }
        let rest = line.substring_char(5, line.unicode_len());
        Command::Move { fields: split(rest) }
    } else {
        Command::Unknown
    }
}

/// Reads the command in a chunk of bytes as it came off a connection. The
/// bytes are decoded as UTF-8, and what is not UTF-8 is replaced, not refused.
pub fn read_command(bytes: &[u8]) -> (command: Command)
    ensures
        command@ == parse(lossy_text(bytes@)),
        valid_utf8(bytes@) ==> command@ == parse(decode_utf8(bytes@)),
{
    let text = decode_lossy(bytes);
    parse_command(text.as_str())
}

/// Decides what `command` asks for. `readings` holds, for a move, the number
/// read from each field in order, `None` where the field is no number; for
/// other commands it is not looked at.
pub fn resolve(command: Command, readings: Vec<Option<Scalar>>) -> (request: Request)
    ensures
        request@ == resolved(command@, reading_views(readings@)),
{
    match command {
        Command::Ping => Request::Ping,
        Command::Join { name } => Request::Join { name },
        Command::Unknown => Request::Ignore,
        Command::Move { fields } => {
            if fields.len() != MOVE_FIELDS {
                return Request::Violation;
            }
            if readings.len() != MOVE_FIELDS {
                return Request::Ignore;
            }
            let ghost given = reading_views(readings@);
            let mut readings = readings;
            let dz = readings.pop();
            let dy = readings.pop();
            let dx = readings.pop();
            let pz = readings.pop();
            let py = readings.pop();
            let px = readings.pop();
            match (px, py, pz, dx, dy, dz) {
                (
                    Some(Some(px)),
                    Some(Some(py)),
                    Some(Some(pz)),
                    Some(Some(dx)),
                    Some(Some(dy)),
                    Some(Some(dz)),
                ) => {
                    assert(given[0] == Some(px@) && given[1] == Some(py@) && given[2] == Some(pz@));
                    assert(given[3] == Some(dx@) && given[4] == Some(dy@) && given[5] == Some(dz@));
                    Request::Move {
                        position: Position::new(px, py, pz),
                        direction: Vector::new(dx, dy, dz),
                    }
                },
                _ => {
                    assert(!all_read(given));
                    Request::Ignore
                },
            }
        },
    }
}

} // verus!
