//! Tests of the training-session summary: duration rendering, block
//! folding, and the decoded description of an uploaded file.

use polar_pftp::text::{bytes_debug, decimal_string, two_digit_string};
use polar_pftp::training::{
    describe_favourite, describe_phases, human_duration, split_at, TrainingBlock,
};
use polar_pftp::proto::PhaseRecord;

#[test]
fn decimal_rendering() {
    assert_eq!(decimal_string(0), "0");
    assert_eq!(decimal_string(7), "7");
    assert_eq!(decimal_string(10), "10");
    assert_eq!(decimal_string(65535), "65535");
    assert_eq!(two_digit_string(0), "00");
    assert_eq!(two_digit_string(9), "09");
    assert_eq!(two_digit_string(10), "10");
    assert_eq!(two_digit_string(123), "123");
    assert_eq!(bytes_debug(&[]), "[]");
    assert_eq!(bytes_debug(&[5]), "[5]");
    assert_eq!(bytes_debug(&[1, 2, 30]), "[1, 2, 30]");
}

#[test]
fn human_duration_rendering() {
    assert_eq!(human_duration(0), "0''");
    assert_eq!(human_duration(999), "0''");
    assert_eq!(human_duration(1000), "1''");
    assert_eq!(human_duration(60_000), "1'");
    assert_eq!(human_duration(61_000), "1'1''");
    assert_eq!(human_duration(3_600_000), "1h");
    assert_eq!(human_duration(3_723_000), "1h2'3''");
}

fn phase(name: &str, seconds: u32, repeat_count: Option<u32>, jump_index: Option<u32>) -> PhaseRecord {
    PhaseRecord {
        name: name.to_string(),
        repeat_count,
        jump_index,
        hours: None,
        minutes: None,
        seconds: Some(seconds),
        millis: None,
    }
}

#[test]
fn splits_at_first_matching_id() {
    let blocks = vec![
        TrainingBlock::Phase { id: 1, name: "a".to_string(), duration: 1 },
        TrainingBlock::Phase { id: 2, name: "b".to_string(), duration: 2 },
        TrainingBlock::Phase { id: 3, name: "c".to_string(), duration: 3 },
    ];
    let (first, second) = split_at(blocks, 2);
    assert_eq!(first.len(), 1);
    assert_eq!(first[0].id(), 1);
    assert_eq!(second.len(), 2);
    assert_eq!(second[0].id(), 2);
    assert_eq!(second[1].id(), 3);
}

#[test]
fn folds_back_jump_into_repeat_block() {
    // Three phases where the third jumps back to the second, repeated once
    // more: the description shows the repeat block nested.
    let phases = vec![
        phase("Warm", 60, None, None),
        phase("Work", 30, None, None),
        phase("Rest", 10, Some(1), Some(2)),
    ];
    let description = describe_phases(&phases).unwrap();
    assert_eq!(
        description,
        "Repeat x1 [2'20'']\n\tWarm 1'\n\tRepeat x2 [40'']\n\t\tWork 30''\n\t\tRest 10''"
    );
}

#[test]
fn repeat_block_duration_multiplies() {
    let block = TrainingBlock::Repeat {
        id: 1,
        times: 3,
        block: vec![
            TrainingBlock::Phase { id: 1, name: "a".to_string(), duration: 1000 },
            TrainingBlock::Phase { id: 2, name: "b".to_string(), duration: 500 },
        ],
    };
    assert_eq!(block.try_duration(), Some(4500));
    assert_eq!(block.inner_duration(), Some(1500));
    assert_eq!(block.duration(), 4500);
}

#[test]
fn overflowing_duration_is_rejected() {
    let block = TrainingBlock::Repeat {
        id: 1,
        times: 3,
        block: vec![
            TrainingBlock::Phase { id: 1, name: "a".to_string(), duration: u64::MAX },
            TrainingBlock::Phase { id: 2, name: "b".to_string(), duration: 1 },
        ],
    };
    assert_eq!(block.try_duration(), None);
}

fn session_bytes(phases: Option<Vec<polar_prost::data::PbPhase>>) -> Vec<u8> {
    let session = polar_prost::data::PbTrainingSessionTarget {
        name: polar_prost::types::PbOneLineText { text: "name".to_string() },
        exercise_target: vec![polar_prost::data::PbExerciseTarget {
            target_type: 0,
            sport_id: None,
            volume_target: None,
            phases: phases.map(|phase| polar_prost::data::PbPhases { phase }),
            route: None,
            steady_race_pace: None,
            strava_segment_target: None,
        }],
        ..Default::default()
    };
    polar_prost::encode(session).unwrap()
}

fn wire_phase(name: &str, minutes: u32) -> polar_prost::data::PbPhase {
    polar_prost::data::PbPhase {
        name: polar_prost::types::PbOneLineText { text: name.to_string() },
        change: 0,
        goal: polar_prost::data::PbPhaseGoal {
            goal_type: 1,
            duration: Some(polar_prost::types::PbDuration {
                hours: None,
                minutes: Some(minutes),
                seconds: None,
                millis: None,
            }),
            distance: None,
            heart_rate: None,
        },
        intensity: polar_prost::data::PbPhaseIntensity {
            intensity_type: 0,
            heart_rate_zone: None,
            speed_zone: None,
            power_zone: None,
        },
        repeat_count: None,
        jump_index: None,
    }
}

#[test]
fn describes_decoded_favourite() {
    let data = session_bytes(Some(vec![wire_phase("Warm", 1)]));
    let description = describe_favourite(data).unwrap();
    assert_eq!(description, "Repeat x1 [1']\n\tWarm 1'");
}

#[test]
fn favourite_without_phases_has_no_description() {
    assert_eq!(describe_favourite(session_bytes(None)), None);
    assert_eq!(describe_favourite(vec![0xFF, 0x01]), None);
}
