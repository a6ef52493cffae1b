//! Tests of the command layer: request framing, path normalization, the
//! device error taxonomy, write-back verification, directory parsing, and
//! the multi-operation plans.

use polar_pftp::commands::{
    delete_request, dir_request, ensure_dir_path, get_file_request, mkdir_request,
    parse_directory, parse_file_response, send_file_frame, simple_request_frame, verify_upload,
};
use polar_pftp::errors::{status_message, PolarError, UsbError};
use polar_pftp::plans::{DeleteWalk, FsTask, UploadStep};
use polar_pftp::plans::upload_plan;
use polar_pftp::session::{detach_decision, detach_outcome, DetachStep};

#[test]
fn simple_request_frame_shape() {
    let frame = simple_request_frame(&vec![0xAA, 0xBB]);
    assert_eq!(frame, vec![2, 0, 0xAA, 0xBB, 0]);
}

#[test]
fn get_file_request_bytes() {
    let request = get_file_request("/U/0/TEST");
    let mut expected = vec![13, 0, 0x08, 0x00, 0x12, 9];
    expected.extend_from_slice(b"/U/0/TEST");
    expected.push(0);
    assert_eq!(request, expected);
}

#[test]
fn delete_request_bytes() {
    let request = delete_request("/A/b");
    let mut expected = vec![8, 0, 0x08, 0x03, 0x12, 4];
    expected.extend_from_slice(b"/A/b");
    expected.push(0);
    assert_eq!(request, expected);
}

#[test]
fn mkdir_request_normalizes() {
    let request = mkdir_request("/U/0/FAV/00");
    let mut expected = vec![16, 0, 0x08, 0x01, 0x12, 12];
    expected.extend_from_slice(b"/U/0/FAV/00/");
    expected.push(0);
    assert_eq!(request, expected);
}

#[test]
fn path_normalization_issues_identical_requests() {
    assert_eq!(dir_request("/U/0/FAV"), dir_request("/U/0/FAV/"));
    assert_eq!(mkdir_request("/U/0/FAV"), mkdir_request("/U/0/FAV/"));
    assert_eq!(ensure_dir_path("/U/0/FAV"), "/U/0/FAV/");
    assert_eq!(ensure_dir_path("/U/0/FAV/"), "/U/0/FAV/");
}

#[test]
fn upload_frame_embeds_envelope() {
    let frame = send_file_frame("/A", &[9, 8]);
    assert_eq!(frame, vec![6, 0, 0x08, 0x01, 0x12, 2, b'/', b'A', 9, 8, 0]);
    let empty = send_file_frame("/A", &[]);
    assert_eq!(empty, vec![6, 0, 0x08, 0x01, 0x12, 2, b'/', b'A', 0]);
}

#[test]
fn file_response_strips_trailing_zero() {
    let stripped = parse_file_response(vec![0x41, 0x42, 0x43, 0x00]).unwrap();
    assert_eq!(stripped, vec![0x41, 0x42, 0x43]);
    assert!(parse_file_response(vec![0x41, 0x42]).is_err());
    assert!(parse_file_response(Vec::new()).is_err());
}

#[test]
fn error_taxonomy_messages() {
    let cases: [(u8, &str); 20] = [
        (1, "Error: rebooting"),
        (2, "Error: try again"),
        (100, "Error: unidentified host error"),
        (101, "Error: invalid command"),
        (102, "Error: invalid parameter"),
        (103, "Error: no such file or directory"),
        (104, "Error: directory exists"),
        (105, "Error: file exists"),
        (106, "Error: operation not permitted"),
        (107, "Error: no such user"),
        (108, "Error: timeout"),
        (200, "Error: unidentified device error"),
        (201, "Error: not implemented"),
        (202, "Error: system busy"),
        (203, "Error: invalid content"),
        (204, "Error: checksum failure"),
        (205, "Error: disk full"),
        (206, "Error: prerequisite not found"),
        (207, "Error: insufficient buffer"),
        (208, "Error: wait for idling"),
    ];
    for (code, text) in cases {
        assert_eq!(status_message(code), text, "code {}", code);
    }
    assert_eq!(status_message(77), "Error: unknown error #77");
    assert_eq!(status_message(0), "Error: unknown error #0");
}

#[test]
fn transport_error_is_wrapped_verbatim() {
    let wrapped = PolarError::from_usb(UsbError::Timeout);
    assert!(matches!(
        wrapped,
        PolarError::LibusbError { error: UsbError::Timeout }
    ));
}

#[test]
fn kernel_driver_detach_decisions() {
    // Any answer to the query leads to a detach attempt; an unsupported
    // query skips it; any other failure is fatal.
    assert_eq!(detach_decision(Ok(true)), DetachStep::Detach);
    assert_eq!(detach_decision(Ok(false)), DetachStep::Detach);
    assert_eq!(detach_decision(Err(UsbError::NotSupported)), DetachStep::Skip);
    assert_eq!(
        detach_decision(Err(UsbError::Access)),
        DetachStep::Fail(UsbError::Access)
    );
    // A driver that was not there to detach is not a failure.
    assert_eq!(detach_outcome(Ok(())), Ok(()));
    assert_eq!(detach_outcome(Err(UsbError::NotFound)), Ok(()));
    assert_eq!(detach_outcome(Err(UsbError::Io)), Err(UsbError::Io));
}

#[test]
fn verification_accepts_equal_content() {
    let sent = [1u8, 2, 3];
    assert!(verify_upload(&sent, &vec![1, 2, 3]).is_ok());
    assert!(verify_upload(&[], &Vec::new()).is_ok());
}

#[test]
fn verification_mismatch_names_both_buffers() {
    let result = verify_upload(&[1, 2], &vec![1, 3]);
    match result {
        Err(PolarError::PolarError { error }) => {
            assert_eq!(
                error,
                "Content on the watch doesn't match the one sent.    sent [1, 2]    got [1, 3]"
            );
        }
        other => panic!("expected a protocol error, got {:?}", other),
    }
    assert!(verify_upload(&[1, 2], &vec![1, 2, 3]).is_err());
}

#[test]
fn write_then_read_back_verifies() {
    // After an upload, a read of the same path returns the stored content
    // with the mandatory trailing zero; stripping it and comparing against
    // what was sent completes the write-back verification.
    let data = vec![0x41u8, 0x42, 0x43];
    let mut stored = data.clone();
    stored.push(0);
    let packets = vec![polar_pftp::reader::build_response_packet(&stored, 0, false)];
    let (result, _acks, _notes) = polar_pftp::reader::read_stream(&packets);
    let file = parse_file_response(result.unwrap()).unwrap();
    assert_eq!(file, data);
    assert!(verify_upload(&data, &file).is_ok());
}

#[test]
fn directory_listing_round_trip() {
    let listing = polar_prost::protocol::PbPFtpDirectory {
        entries: vec![
            polar_prost::protocol::PbPFtpEntry {
                name: "b".to_string(),
                size: 10,
                created: None,
                modified: None,
                touched: None,
            },
            polar_prost::protocol::PbPFtpEntry {
                name: "c/".to_string(),
                size: 0,
                created: None,
                modified: None,
                touched: None,
            },
        ],
    };
    let encoded = polar_prost::encode(listing).unwrap();
    let names = parse_directory(&encoded).unwrap();
    assert_eq!(names, vec!["b".to_string(), "c/".to_string()]);
}

#[test]
fn malformed_directory_listing_is_an_error() {
    // Field 1 announces five bytes but only one follows.
    let result = parse_directory(&vec![0x0A, 0x05, 0x01]);
    match result {
        Err(PolarError::PolarError { error }) => {
            assert_eq!(error, "Error: invalid directory listing");
        }
        other => panic!("expected a protocol error, got {:?}", other),
    }
}

#[test]
fn recursive_delete_walk_order() {
    // /A/ holds a file b and a directory c/, and /A/c/ holds a file d: the
    // walk lists /A/, removes /A/b, lists /A/c/, removes /A/c/d, and never
    // removes /A/c/ or /A/ themselves.
    let mut walk = DeleteWalk::new("/A");
    let mut operations: Vec<String> = Vec::new();
    while let Some(task) = walk.next_task() {
        match task {
            FsTask::List { path } => {
                operations.push(format!("dir {}", path));
                let entries: Vec<String> = match path.as_str() {
                    "/A/" => vec!["b".to_string(), "c/".to_string()],
                    "/A/c/" => vec!["d".to_string()],
                    other => panic!("unexpected listing of {}", other),
                };
                walk.on_listing(&path, &entries);
            }
            FsTask::Remove { path } => {
                operations.push(format!("del {}", path));
            }
        }
    }
    assert_eq!(
        operations,
        vec!["dir /A/", "del /A/b", "dir /A/c/", "del /A/c/d"]
    );
}

#[test]
fn upload_batch_order() {
    let files: Vec<Vec<u8>> = vec![vec![0], vec![1, 1], vec![2, 2, 2]];
    let plan = upload_plan(&files);
    assert_eq!(plan.len(), 7);
    assert!(matches!(plan[0], UploadStep::ClearFavorites));
    let expected = [
        ("/U/0/FAV/00", "/U/0/FAV/00/TST.BPB"),
        ("/U/0/FAV/01", "/U/0/FAV/01/TST.BPB"),
        ("/U/0/FAV/02", "/U/0/FAV/02/TST.BPB"),
    ];
    for (i, (dir, file)) in expected.iter().enumerate() {
        match &plan[1 + 2 * i] {
            UploadStep::MakeSlot { path } => assert_eq!(path, dir),
            other => panic!("expected a make-slot step, got {:?}", step_name(other)),
        }
        match &plan[2 + 2 * i] {
            UploadStep::SendFile { path, data } => {
                assert_eq!(path, file);
                assert_eq!(data, &files[i]);
            }
            other => panic!("expected an upload step, got {:?}", step_name(other)),
        }
    }
}

fn step_name(step: &UploadStep) -> &'static str {
    match step {
        UploadStep::ClearFavorites => "clear",
        UploadStep::MakeSlot { .. } => "make-slot",
        UploadStep::SendFile { .. } => "send-file",
    }
}
