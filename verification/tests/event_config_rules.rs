use voting_app::event_config::{
    default_event_data, is_supported_event_type, validate_event_data, validate_non_empty,
    validate_threshold, validate_vote_options, AttendanceEventData, EventData, MotionEventData,
    Threshold, Visibility, VoteEventData,
};

fn motion(threshold: f64, participants: &str, options: Vec<&str>) -> MotionEventData {
    MotionEventData {
        description: "d".to_string(),
        threshold: Threshold { bits: threshold.to_bits() },
        visibility: Visibility { participants: participants.to_string() },
        proxy: false,
        vote_options: options.into_iter().map(String::from).collect(),
    }
}

#[test]
fn supported_event_types() {
    assert!(is_supported_event_type("attendance"));
    assert!(is_supported_event_type("motion"));
    assert!(is_supported_event_type("vote"));
    assert!(!is_supported_event_type("Motion"));
    assert!(!is_supported_event_type(""));
}

#[test]
fn defaults_of_known_kinds_are_valid() {
    for kind in ["attendance", "motion", "vote"] {
        let data = default_event_data(kind);
        assert_eq!(validate_event_data(kind, &data), Ok(()));
    }
    let motion = default_event_data("motion").motion.unwrap();
    assert_eq!(f64::from_bits(motion.threshold.bits), 0.5);
    assert_eq!(motion.vote_options, vec!["yes", "no"]);
    let vote = default_event_data("vote").vote.unwrap();
    assert_eq!(vote.vote_type, "motion");
    assert_eq!(vote.vote_options, vec!["option1", "option2"]);
    assert_eq!(
        default_event_data("attendance").attendance.unwrap().session_code,
        "attendance-session"
    );
}

#[test]
fn unknown_kind_gets_empty_data_and_is_rejected() {
    let data = default_event_data("meeting");
    assert!(data.attendance.is_none() && data.motion.is_none() && data.vote.is_none());
    assert_eq!(
        validate_event_data("meeting", &data),
        Err("event.data must include exactly one of attendance, motion, or vote".to_string())
    );
    let data = default_event_data("motion");
    assert_eq!(
        validate_event_data("meeting", &data),
        Err("event_type must be one of attendance, motion, or vote".to_string())
    );
}

#[test]
fn exactly_one_section_is_required() {
    let data = EventData {
        attendance: Some(AttendanceEventData {
            description: "a".to_string(),
            session_code: "c".to_string(),
        }),
        motion: Some(motion(0.5, "live", vec!["yes"])),
        vote: None,
    };
    assert_eq!(
        validate_event_data("attendance", &data),
        Err("event.data must include exactly one of attendance, motion, or vote".to_string())
    );
}

#[test]
fn section_must_match_kind() {
    let data = EventData { attendance: None, motion: Some(motion(0.5, "live", vec!["y"])), vote: None };
    assert_eq!(
        validate_event_data("attendance", &data),
        Err("event.data.attendance is required for attendance".to_string())
    );
    assert_eq!(
        validate_event_data("vote", &data),
        Err("event.data.vote is required for vote".to_string())
    );
    let data = EventData {
        attendance: Some(AttendanceEventData { description: "a".into(), session_code: "c".into() }),
        motion: None,
        vote: None,
    };
    assert_eq!(
        validate_event_data("motion", &data),
        Err("event.data.motion is required for motion".to_string())
    );
}

#[test]
fn attendance_session_code_must_not_be_blank() {
    let data = EventData {
        attendance: Some(AttendanceEventData { description: "".into(), session_code: " \t\u{3000}".into() }),
        motion: None,
        vote: None,
    };
    assert_eq!(
        validate_event_data("attendance", &data),
        Err("event.data.attendance.session_code cannot be empty".to_string())
    );
}

#[test]
fn threshold_must_lie_in_unit_interval() {
    for (value, ok) in [
        (0.0, true),
        (-0.0, true),
        (1.0, true),
        (0.75, true),
        (5e-324, true),
        (1.0000000000000002, false),
        (-5e-324, false),
        (-0.5, false),
        (f64::NAN, false),
        (f64::INFINITY, false),
        (f64::NEG_INFINITY, false),
    ] {
        let r = validate_threshold(&Threshold { bits: f64::to_bits(value) }, "x.threshold");
        assert_eq!(r.is_ok(), ok, "{value}");
        assert_eq!(r.is_ok(), (0.0..=1.0).contains(&value), "{value}");
        if !ok {
            assert_eq!(r, Err("x.threshold must be between 0 and 1".to_string()));
        }
    }
}

#[test]
fn motion_checks_in_order() {
    let bad_all = EventData { attendance: None, motion: Some(motion(2.0, " ", vec![])), vote: None };
    assert_eq!(
        validate_event_data("motion", &bad_all),
        Err("event.data.motion.threshold must be between 0 and 1".to_string())
    );
    let bad_vis = EventData { attendance: None, motion: Some(motion(0.5, " ", vec![])), vote: None };
    assert_eq!(
        validate_event_data("motion", &bad_vis),
        Err("event.data.motion.visibility.participants cannot be empty".to_string())
    );
    let no_opts = EventData { attendance: None, motion: Some(motion(0.5, "live", vec![])), vote: None };
    assert_eq!(
        validate_event_data("motion", &no_opts),
        Err("event.data.motion.vote_options must include at least one option".to_string())
    );
    let blank_opt = EventData { attendance: None, motion: Some(motion(0.5, "live", vec!["a", "  "])), vote: None };
    assert_eq!(
        validate_event_data("motion", &blank_opt),
        Err("event.data.motion.vote_options cannot include empty values".to_string())
    );
}

#[test]
fn vote_checks_in_order() {
    let vote = |description: &str, vote_type: &str| VoteEventData {
        description: description.to_string(),
        vote_type: vote_type.to_string(),
        threshold: Threshold { bits: 0.5f64.to_bits() },
        visibility: Visibility { participants: "live".to_string() },
        proxy: true,
        vote_options: vec!["a".to_string()],
    };
    let data = EventData { attendance: None, motion: None, vote: Some(vote(" ", "")) };
    assert_eq!(
        validate_event_data("vote", &data),
        Err("event.data.vote.description cannot be empty".to_string())
    );
    let data = EventData { attendance: None, motion: None, vote: Some(vote("d", "\n")) };
    assert_eq!(
        validate_event_data("vote", &data),
        Err("event.data.vote.vote_type cannot be empty".to_string())
    );
    let data = EventData { attendance: None, motion: None, vote: Some(vote("d", "election")) };
    assert_eq!(validate_event_data("vote", &data), Ok(()));
}

#[test]
fn blank_text_is_white_space_only() {
    assert!(validate_non_empty("", "m").is_err());
    assert!(validate_non_empty(" \u{a0}\u{2003}\u{85}", "m").is_err());
    assert_eq!(validate_non_empty("x", "m"), Ok(()));
    assert_eq!(validate_non_empty("\u{200b}", "m"), Ok(()));
    assert_eq!(validate_vote_options(&vec![], "f"), Err("f must include at least one option".to_string()));
}
