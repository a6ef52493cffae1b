//! The boundary to the external serialization library that defines the wire
//! schema of the protocol-buffer request and response objects.
//!
//! Encoding a file operation is stated byte for byte: the message holds a
//! varint command in field 1 and a length-delimited path in field 2, emitted
//! in tag order.  Decoding is given a name (`dir_listing`, `session_phases`)
//! because its full statement is the whole message grammar; everything the
//! library does with a decoded value stands in verified functions that take
//! the decoded value as an argument.

use vstd::prelude::*;
use vstd::string::StringSliceAdditionalSpecFns;
use polar_prost::Message;

verus! {

/// The base-128 varint encoding of a number: seven bits per byte, low group
/// first, high bit set on every byte but the last.
pub open spec fn spec_varint(n: nat) -> Seq<u8>
    decreases n,
{
    if n < 128 {
        seq![n as u8]
    } else {
        seq![(n % 128 + 128) as u8] + spec_varint(n / 128)
    }
}

/// The encoding of a file-operation request: command, then path.
pub open spec fn spec_operation_request(command: nat, path: Seq<u8>) -> Seq<u8> {
    seq![8u8] + spec_varint(command) + seq![18u8] + spec_varint(path.len()) + path
}

/// Relies on `polar_prost::encode` of a `protocol::PbPFtpOperation` message
/// (prost): a required varint command in field 1 and a required
/// length-delimited path in field 2, emitted in tag order.  Encoding into a
/// fresh byte vector cannot fail.
#[verifier::external_body]
pub(crate) fn encode_operation(command: i32, path: &str) -> (r: Vec<u8>)
    requires
        0 <= command,
    ensures
        r@ == spec_operation_request(command as nat, path.spec_bytes()),
{
    let request = polar_prost::protocol::PbPFtpOperation {
        command,
        path: path.to_string(),
    };
    polar_prost::encode(request).unwrap()
}

/// What decoding a directory listing yields: the entry names, in order, or
/// nothing when the bytes do not parse as a directory message.
pub uninterp spec fn dir_listing(data: Seq<u8>) -> Option<Seq<Seq<char>>>;

/// Relies on prost's `Message::decode` for `protocol::PbPFtpDirectory` and
/// hands out each entry's name, in order; the result is a function of the
/// bytes alone.
#[verifier::external_body]
pub(crate) fn decode_directory(data: &Vec<u8>) -> (r: Option<Vec<String>>)
    ensures
        match r {
            Some(names) => dir_listing(data@) matches Some(l) && names.deep_view() == l,
            None => dir_listing(data@) is None,
        },
{
    let directory = polar_prost::protocol::PbPFtpDirectory::decode(data.clone()).ok()?;
    Some(directory.entries.into_iter().map(|entry| entry.name).collect())
}

/// One phase of a training session, as the decoded message carries it: the
/// phase name, the goal duration split into its fields, and the optional
/// back-jump with its repeat count.
pub struct PhaseRecord {
    pub name: String,
    pub repeat_count: Option<u32>,
    pub jump_index: Option<u32>,
    pub hours: Option<u32>,
    pub minutes: Option<u32>,
    pub seconds: Option<u32>,
    pub millis: Option<u32>,
}

/// What decoding a training-session target yields: the phases of its first
/// exercise target, or nothing when the bytes do not parse or the message
/// has no phases.
pub uninterp spec fn session_phases(data: Seq<u8>) -> Option<Seq<PhaseRecord>>;

/// Relies on prost's `Message::decode` for `data::PbTrainingSessionTarget`
/// and moves the fields of each phase of the first exercise target over;
/// the result is a function of the bytes alone.
#[verifier::external_body]
pub(crate) fn decode_session_phases(data: &Vec<u8>) -> (r: Option<Vec<PhaseRecord>>)
    ensures
        match r {
            Some(phases) => session_phases(data@) matches Some(l) && phases@ == l,
            None => session_phases(data@) is None,
        },
{
    let session = polar_prost::data::PbTrainingSessionTarget::decode(data.clone()).ok()?;
    let target = session.exercise_target.into_iter().next()?;
    let phases = target.phases?;
    Some(phases.phase.into_iter().map(|phase| PhaseRecord {
        name: phase.name.text,
        repeat_count: phase.repeat_count,
        jump_index: phase.jump_index,
        hours: phase.goal.duration.as_ref().and_then(|duration| duration.hours),
        minutes: phase.goal.duration.as_ref().and_then(|duration| duration.minutes),
        seconds: phase.goal.duration.as_ref().and_then(|duration| duration.seconds),
        millis: phase.goal.duration.and_then(|duration| duration.millis),
    }).collect())
}

} // verus!
