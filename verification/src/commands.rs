//! The command layer: framing for the file operations, path normalization,
//! response interpretation, and write-back verification.
//!
//! Each operation builds a request frame here, hands it to the fragmenter,
//! and interprets the reassembled response here; the USB exchange between
//! the two halves is driven outside the library.

use vstd::prelude::*;
use vstd::string::StringSliceAdditionalSpecFns;
use crate::codec::tail_bits;
use crate::errors::PolarError;
use crate::proto::{encode_operation, spec_operation_request};
use crate::reader::is_protocol_error;
use crate::text::{bytes_debug, spec_bytes_debug};

verus! {

/// Command code of a read request.
pub const COMMAND_GET: i32 = 0;

/// Command code of a directory-creation request.
pub const COMMAND_MKDIR: i32 = 1;

/// Command code of a removal request.
pub const COMMAND_DELETE: i32 = 3;

/// The simple request frame: two header bytes — the payload length reduced
/// to one byte, then zero — the payload, and one trailing zero.
pub open spec fn spec_simple_request(data: Seq<u8>) -> Seq<u8> {
    seq![(data.len() % 256) as u8, 0u8] + data + seq![0u8]
}

/// Wraps an encoded request in the simple request frame.
pub fn simple_request_frame(data: &Vec<u8>) -> (r: Vec<u8>)
    ensures
        r@ == spec_simple_request(data@),
{
    let mut frame: Vec<u8> = Vec::new();
    frame.push(tail_bits(data.len()));
    frame.push(0);
    frame.extend_from_slice(data.as_slice());
    frame.push(0);
    proof {
        assert(frame@ =~= spec_simple_request(data@));
    }
    frame
}

/// A path with the trailing slash the directory operations require.
pub open spec fn spec_dir_path(path: Seq<char>) -> Seq<char> {
    if path.len() > 0 && path.last() == '/' {
        path
    } else {
        path + "/"@
    }
}

/// Appends the trailing slash the directory operations require, unless the
/// path already ends with one.
pub fn ensure_dir_path(path: &str) -> (r: String)
    ensures
        r@ == spec_dir_path(path@),
{
    let n = path.unicode_len();
    if n > 0 && path.get_char(n - 1) == '/' {
        String::from_str(path)
    } else {
        let mut s = String::from_str(path);
        s.append("/");
        s
    }
}

/// Law: path normalization settles after one pass — a normalized path
/// normalizes to itself, so an operation on a path with the trailing slash
/// already present issues the same wire request as one on the bare path.
pub proof fn lemma_dir_path_idempotent(path: Seq<char>)
    ensures
        spec_dir_path(spec_dir_path(path)) == spec_dir_path(path),
{
    reveal_strlit("/");
    if !(path.len() > 0 && path.last() == '/') {
        assert((path + "/"@).last() == '/');
    }
}

/// The wire request of a read: the operation message under the simple
/// request frame.
pub open spec fn spec_get_file_request(path: Seq<u8>) -> Seq<u8> {
    spec_simple_request(spec_operation_request(COMMAND_GET as nat, path))
}

/// Builds the request frame that reads the file at `path`.
pub fn get_file_request(path: &str) -> (r: Vec<u8>)
    ensures
        r@ == spec_get_file_request(path.spec_bytes()),
{
    let encoded = encode_operation(COMMAND_GET, path);
    simple_request_frame(&encoded)
}

/// Builds the request frame that deletes the file or directory at `path`.
pub fn delete_request(path: &str) -> (r: Vec<u8>)
    ensures
        r@ == spec_simple_request(
            spec_operation_request(COMMAND_DELETE as nat, path.spec_bytes()),
        ),
{
    let encoded = encode_operation(COMMAND_DELETE, path);
    simple_request_frame(&encoded)
}

/// Builds the request frame that creates the directory at `path`, after
/// normalizing the path to end with a slash.
pub fn mkdir_request(path: &str) -> (r: Vec<u8>)
    ensures
        r@ == spec_simple_request(
            spec_operation_request(
                COMMAND_MKDIR as nat,
                vstd::utf8::encode_utf8(spec_dir_path(path@)),
            ),
        ),
{
    let normalized = ensure_dir_path(path);
    let encoded = encode_operation(COMMAND_MKDIR, normalized.as_str());
    simple_request_frame(&encoded)
}

/// Builds the request frame that lists the directory at `path`, after
/// normalizing the path to end with a slash: a listing is a read of the
/// directory path.
pub fn dir_request(path: &str) -> (r: Vec<u8>)
    ensures
        r@ == spec_get_file_request(vstd::utf8::encode_utf8(spec_dir_path(path@))),
{
    let normalized = ensure_dir_path(path);
    get_file_request(normalized.as_str())
}

/// Interprets a reassembled listing response: the entry names of the
/// directory, or a protocol error when the bytes do not parse as one.
pub fn parse_directory(answer: &Vec<u8>) -> (r: Result<Vec<String>, PolarError>)
    ensures
        match r {
            Ok(names) => crate::proto::dir_listing(answer@) matches Some(l) && names.deep_view()
                == l,
            Err(e) => crate::proto::dir_listing(answer@) is None && is_protocol_error(
                e,
                "Error: invalid directory listing"@,
            ),
        },
{
    match crate::proto::decode_directory(answer) {
        Some(names) => Ok(names),
        None => Err(PolarError::new("Error: invalid directory listing")),
    }
}

/// The file-upload frame: the path length plus four, a zero, the inline
/// two-field envelope (varint command one, length-delimited path), the file
/// bytes, and a trailing zero.
pub open spec fn spec_send_file_frame(path: Seq<u8>, data: Seq<u8>) -> Seq<u8> {
    seq![(path.len() + 4) as u8, 0u8, 8u8, 1u8, 18u8, path.len() as u8] + path + data + seq![0u8]
}

/// Builds the frame that uploads `data` to the file at `path`.  The frame
/// fits the path length and its envelope length each into one byte.
pub fn send_file_frame(path: &str, data: &[u8]) -> (r: Vec<u8>)
    requires
        path.spec_bytes().len() <= 251,
    ensures
        r@ == spec_send_file_frame(path.spec_bytes(), data@),
{
    let path_bytes = path.as_bytes();
    let path_len = tail_bits(path_bytes.len());
    let mut frame: Vec<u8> = Vec::new();
    frame.push(path_len + 4);
    frame.push(0);
    frame.push(8);
    frame.push(1);
    frame.push(18);
    frame.push(path_len);
    frame.extend_from_slice(path_bytes);
    frame.extend_from_slice(data);
    frame.push(0);
    proof {
        assert(frame@ =~= spec_send_file_frame(path.spec_bytes(), data@));
    }
    frame
}

/// Strips the mandatory trailing zero byte from a reassembled read
/// response; a response without it is malformed.
pub fn parse_file_response(answer: Vec<u8>) -> (r: Result<Vec<u8>, PolarError>)
    ensures
        answer@.len() > 0 && answer@.last() == 0 ==> (r matches Ok(v) && v@
            == answer@.drop_last()),
        !(answer@.len() > 0 && answer@.last() == 0) ==> (r matches Err(e) && is_protocol_error(
            e,
            "Error: malformed file response"@,
        )),
{
    let mut answer = answer;
    match answer.pop() {
        Some(0) => Ok(answer),
        _ => Err(PolarError::new("Error: malformed file response")),
    }
}

/// The message of a write-back verification failure, naming both buffers.
pub open spec fn spec_mismatch_message(sent: Seq<u8>, got: Seq<u8>) -> Seq<char> {
    "Content on the watch doesn't match the one sent.    sent "@ + spec_bytes_debug(sent)
        + "    got "@ + spec_bytes_debug(got)
}

/// Byte-exact write-back verification: succeeds exactly when the content
/// read back equals the content sent, and otherwise reports both buffers.
pub fn verify_upload(sent: &[u8], got: &Vec<u8>) -> (r: Result<(), PolarError>)
    ensures
        sent@ == got@ <==> r is Ok,
        sent@ != got@ ==> (r matches Err(e) && is_protocol_error(
            e,
            spec_mismatch_message(sent@, got@),
        )),
{
    let mut equal = sent.len() == got.len();
    if equal {
        let mut i: usize = 0;
        while i < got.len() && equal
            invariant
                sent@.len() == got@.len(),
                i <= got@.len(),
                equal ==> sent@.subrange(0, i as int) == got@.subrange(0, i as int),
                !equal ==> sent@ != got@,
            decreases got@.len() - i,
        {
            if *vstd::slice::slice_index_get(sent, i) != got[i] {
                equal = false;
                proof {
                    assert(sent@[i as int] != got@[i as int]);
                }
            } else {
                proof {
                    assert(sent@.subrange(0, i as int + 1) =~= sent@.subrange(0, i as int).push(
                        sent@[i as int],
                    ));
                    assert(got@.subrange(0, i as int + 1) =~= got@.subrange(0, i as int).push(
                        got@[i as int],
                    ));
                }
            }
            i += 1;
        }
        proof {
            if equal {
                assert(sent@.subrange(0, sent@.len() as int) =~= sent@);
                assert(got@.subrange(0, got@.len() as int) =~= got@);
            }
        }
    } else {
        proof {
            assert(sent@.len() != got@.len());
        }
    }
    if equal {
        Ok(())
    } else {
        let mut message = String::from_str("Content on the watch doesn't match the one sent.    sent ");
        let sent_text = bytes_debug(sent);
        message.append(sent_text.as_str());
        message.append("    got ");
        let got_text = bytes_debug(got.as_slice());
        message.append(got_text.as_str());
        Err(PolarError::PolarError { error: message })
    }
}

} // verus!
