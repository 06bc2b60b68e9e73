//! Event kinds and the configuration an event of each kind carries.
use vstd::prelude::*;
use vstd::string::*;
use crate::text::{blank, is_blank, is_white_space, same_text};

verus! {

/// Name of the attendance event kind.
pub const EVENT_TYPE_ATTENDANCE: &'static str = "attendance";

/// Name of the motion event kind.
pub const EVENT_TYPE_MOTION: &'static str = "motion";

/// Name of the vote event kind.
pub const EVENT_TYPE_VOTE: &'static str = "vote";

/// The event kinds the service knows.
pub open spec fn supported_event_type(t: Seq<char>) -> bool {
    t == "attendance"@ || t == "motion"@ || t == "vote"@
}

/// Whether `event_type` names a known event kind.
pub fn is_supported_event_type(event_type: &str) -> (res: bool)
    ensures
        res == supported_event_type(event_type@),
{
    same_text(event_type, EVENT_TYPE_ATTENDANCE) || same_text(event_type, EVENT_TYPE_MOTION)
        || same_text(event_type, EVENT_TYPE_VOTE)
}

/// An approval threshold, held as the IEEE-754 bit pattern of the `f64` that
/// the configuration carries.
pub struct Threshold {
    pub bits: u64,
}

/// Bit pattern of `1.0`.
pub const ONE_BITS: u64 = 0x3FF0_0000_0000_0000;

/// Bit pattern of `-0.0`.
pub const NEGATIVE_ZERO_BITS: u64 = 0x8000_0000_0000_0000;

/// Bit pattern of `0.5`.
pub const HALF_BITS: u64 = 0x3FE0_0000_0000_0000;

/// `0.0 <= v && v <= 1.0` for the double `v` with this bit pattern: the
/// non-negative doubles order as their patterns do, from `+0.0` up to `1.0`;
/// `-0.0` equals `0.0`; every other pattern is negative, above one, or NaN.
pub open spec fn in_unit_interval(bits: u64) -> bool {
    bits <= ONE_BITS || bits == NEGATIVE_ZERO_BITS
}

/// Who sees the participants of an event.
pub struct Visibility {
    pub participants: String,
}

/// Configuration of an attendance event.
pub struct AttendanceEventData {
    pub description: String,
    pub session_code: String,
}

/// Configuration of a motion.
pub struct MotionEventData {
    pub description: String,
    pub threshold: Threshold,
    pub visibility: Visibility,
    pub proxy: bool,
    pub vote_options: Vec<String>,
}

/// Configuration of a vote.
pub struct VoteEventData {
    pub description: String,
    pub vote_type: String,
    pub threshold: Threshold,
    pub visibility: Visibility,
    pub proxy: bool,
    pub vote_options: Vec<String>,
}

/// Configuration of an event: one section per event kind.
pub struct EventData {
    pub attendance: Option<AttendanceEventData>,
    pub motion: Option<MotionEventData>,
    pub vote: Option<VoteEventData>,
}

/// A check's outcome with its message as characters.
pub open spec fn outcome(r: Result<(), String>) -> Result<(), Seq<char>> {
    match r {
        Ok(()) => Ok(()),
        Err(m) => Err(m@),
    }
}

/// Fails with `message` when `value` is blank.
pub open spec fn non_empty_check(value: Seq<char>, message: Seq<char>) -> Result<(), Seq<char>> {
    if blank(value) {
        Err(message)
    } else {
        Ok(())
    }
}

/// Fails unless the threshold lies in `[0, 1]`.
pub open spec fn threshold_check(t: Threshold, field_name: Seq<char>) -> Result<(), Seq<char>> {
    if in_unit_interval(t.bits) {
        Ok(())
    } else {
        Err(field_name + " must be between 0 and 1"@)
    }
}

/// Fails on an empty option list or on a blank option.
pub open spec fn options_check(options: Seq<String>, field_name: Seq<char>) -> Result<(), Seq<char>> {
    if options.len() == 0 {
        Err(field_name + " must include at least one option"@)
    } else if exists|i: int| 0 <= i < options.len() && blank(#[trigger] options[i]@) {
        Err(field_name + " cannot include empty values"@)
    } else {
        Ok(())
    }
}

/// The first failing check of a sequence of checks.
pub open spec fn first_failure(a: Result<(), Seq<char>>, b: Result<(), Seq<char>>) -> Result<(), Seq<char>> {
    match a {
        Err(m) => Err(m),
        Ok(()) => b,
    }
}

/// The checks of an attendance section.
pub open spec fn attendance_check(d: AttendanceEventData) -> Result<(), Seq<char>> {
    non_empty_check(d.session_code@, "event.data.attendance.session_code cannot be empty"@)
}

/// The checks of a motion section.
pub open spec fn motion_check(d: MotionEventData) -> Result<(), Seq<char>> {
    first_failure(
        threshold_check(d.threshold, "event.data.motion.threshold"@),
        first_failure(
            non_empty_check(
                d.visibility.participants@,
                "event.data.motion.visibility.participants cannot be empty"@,
            ),
            options_check(d.vote_options@, "event.data.motion.vote_options"@),
        ),
    )
}

/// The checks of a vote section.
pub open spec fn vote_check(d: VoteEventData) -> Result<(), Seq<char>> {
    first_failure(
        non_empty_check(d.description@, "event.data.vote.description cannot be empty"@),
        first_failure(
            non_empty_check(d.vote_type@, "event.data.vote.vote_type cannot be empty"@),
            first_failure(
                threshold_check(d.threshold, "event.data.vote.threshold"@),
                first_failure(
                    non_empty_check(
                        d.visibility.participants@,
                        "event.data.vote.visibility.participants cannot be empty"@,
                    ),
                    options_check(d.vote_options@, "event.data.vote.vote_options"@),
                ),
            ),
        ),
    )
}

/// How many sections a configuration fills.
pub open spec fn section_count(d: EventData) -> int {
    (if d.attendance is Some { 1int } else { 0 }) + (if d.motion is Some { 1int } else { 0 }) + (
    if d.vote is Some { 1int } else { 0 })
}

/// The checks of a configuration for an event kind: exactly one section,
/// the one of the kind, and that section's own checks.
pub open spec fn event_data_check(event_type: Seq<char>, d: EventData) -> Result<(), Seq<char>> {
    if section_count(d) != 1 {
        Err("event.data must include exactly one of attendance, motion, or vote"@)
    } else if event_type == "attendance"@ {
        match d.attendance {
            Some(a) => attendance_check(a),
            None => Err("event.data.attendance is required for attendance"@),
        }
    } else if event_type == "motion"@ {
        match d.motion {
            Some(m) => motion_check(m),
            None => Err("event.data.motion is required for motion"@),
        }
    } else if event_type == "vote"@ {
        match d.vote {
            Some(v) => vote_check(v),
            None => Err("event.data.vote is required for vote"@),
        }
    } else {
        Err("event_type must be one of attendance, motion, or vote"@)
    }
}

/// An option list with at least one option and no blank one.
pub open spec fn options_valid(options: Seq<String>) -> bool {
    options.len() > 0 && forall|i: int| 0 <= i < options.len() ==> !blank(#[trigger] options[i]@)
}

/// A valid attendance section: it names a session code.
pub open spec fn attendance_valid(a: AttendanceEventData) -> bool {
    !blank(a.session_code@)
}

/// A valid motion section: a threshold in `[0, 1]`, a visibility, and options.
pub open spec fn motion_valid(m: MotionEventData) -> bool {
    &&& in_unit_interval(m.threshold.bits)
    &&& !blank(m.visibility.participants@)
    &&& options_valid(m.vote_options@)
}

/// A valid vote section: a description, a vote type, a threshold in
/// `[0, 1]`, a visibility, and options.
pub open spec fn vote_valid(v: VoteEventData) -> bool {
    &&& !blank(v.description@)
    &&& !blank(v.vote_type@)
    &&& in_unit_interval(v.threshold.bits)
    &&& !blank(v.visibility.participants@)
    &&& options_valid(v.vote_options@)
}

/// A valid configuration of a kind: the kind is known, the configuration
/// fills exactly the section of that kind, and the section is valid.
pub open spec fn configuration_valid(event_type: Seq<char>, d: EventData) -> bool {
    &&& section_count(d) == 1
    &&& {
        ||| event_type == "attendance"@ && (d.attendance matches Some(a) && attendance_valid(a))
        ||| event_type == "motion"@ && (d.motion matches Some(m) && motion_valid(m))
        ||| event_type == "vote"@ && (d.vote matches Some(v) && vote_valid(v))
    }
}

/// The threshold messages of the motion and vote sections.
proof fn lemma_threshold_messages()
    ensures
        "event.data.vote.threshold"@ + " must be between 0 and 1"@
            == "event.data.vote.threshold must be between 0 and 1"@,
        "event.data.motion.threshold"@ + " must be between 0 and 1"@
            == "event.data.motion.threshold must be between 0 and 1"@,
{
    reveal_strlit("event.data.vote.threshold");
    reveal_strlit("event.data.motion.threshold");
    reveal_strlit(" must be between 0 and 1");
    reveal_strlit("event.data.vote.threshold must be between 0 and 1");
    reveal_strlit("event.data.motion.threshold must be between 0 and 1");
    assert("event.data.vote.threshold"@ + " must be between 0 and 1"@
        =~= "event.data.vote.threshold must be between 0 and 1"@);
    assert("event.data.motion.threshold"@ + " must be between 0 and 1"@
        =~= "event.data.motion.threshold must be between 0 and 1"@);
}

/// Law: a configuration passes the checks exactly when it is valid; a vote
/// or motion section whose threshold lies outside `[0, 1]` never passes, and
/// once its texts before the threshold are given, it fails on the threshold.
pub proof fn lemma_checks_accept_exactly_valid(event_type: Seq<char>, d: EventData)
    ensures
        event_data_check(event_type, d) is Ok <==> configuration_valid(event_type, d),
        d.vote matches Some(v) && !in_unit_interval(v.threshold.bits) ==> event_data_check(
            event_type,
            d,
        ) is Err,
        d.motion matches Some(m) && !in_unit_interval(m.threshold.bits) ==> event_data_check(
            event_type,
            d,
        ) is Err,
        event_type == "vote"@ && section_count(d) == 1 && (d.vote matches Some(v) && !blank(
            v.description@,
        ) && !blank(v.vote_type@) && !in_unit_interval(v.threshold.bits)) ==> event_data_check(
            event_type,
            d,
        ) == Err::<(), Seq<char>>("event.data.vote.threshold must be between 0 and 1"@),
        event_type == "motion"@ && section_count(d) == 1 && (d.motion matches Some(m)
            && !in_unit_interval(m.threshold.bits)) ==> event_data_check(event_type, d) == Err::<
            (),
            Seq<char>,
        >("event.data.motion.threshold must be between 0 and 1"@),
{
    reveal_strlit("attendance");
    reveal_strlit("motion");
    reveal_strlit("vote");
    assert("attendance"@[0] != "motion"@[0]);
    assert("attendance"@[0] != "vote"@[0]);
    assert("motion"@[0] != "vote"@[0]);
    lemma_threshold_messages();
    match d.vote {
        Some(v) => {
            if options_check(v.vote_options@, "event.data.vote.vote_options"@) is Ok {
                assert(options_valid(v.vote_options@));
            }
        },
        None => {},
    }
    match d.motion {
        Some(m) => {
            if options_check(m.vote_options@, "event.data.motion.vote_options"@) is Ok {
                assert(options_valid(m.vote_options@));
            }
        },
        None => {},
    }
}

/// The section that a new event of a known kind starts with.
pub open spec fn default_section_matches(event_type: Seq<char>, d: EventData) -> bool {
    if event_type == "attendance"@ {
        &&& d.motion is None && d.vote is None
        &&& d.attendance matches Some(a) && a.description@ == "Attendance session"@
            && a.session_code@ == "attendance-session"@
    } else if event_type == "motion"@ {
        &&& d.attendance is None && d.vote is None
        &&& d.motion matches Some(m) && m.description@ == "Motion event"@ && m.threshold.bits
            == HALF_BITS && m.visibility.participants@ == "hidden_until_release"@ && !m.proxy
            && m.vote_options@.len() == 2 && m.vote_options@[0]@ == "yes"@
            && m.vote_options@[1]@ == "no"@
    } else if event_type == "vote"@ {
        &&& d.attendance is None && d.motion is None
        &&& d.vote matches Some(v) && v.description@ == "Vote event"@ && v.vote_type@
            == "motion"@ && v.threshold.bits == HALF_BITS && v.visibility.participants@
            == "hidden_until_release"@ && !v.proxy && v.vote_options@.len() == 2
            && v.vote_options@[0]@ == "option1"@ && v.vote_options@[1]@ == "option2"@
    } else {
        d.attendance is None && d.motion is None && d.vote is None
    }
}

/// The configuration a new event of a kind starts with; an unknown kind gets
/// an empty configuration. The configuration of a known kind passes the
/// checks of that kind.
pub fn default_event_data(event_type: &str) -> (out: EventData)
    ensures
        default_section_matches(event_type@, out),
        supported_event_type(event_type@) ==> event_data_check(event_type@, out) == Ok::<
            (),
            Seq<char>,
        >(()),
        !supported_event_type(event_type@) ==> section_count(out) == 0,
{
    proof {
        reveal_strlit("Attendance session");
        reveal_strlit("attendance-session");
        reveal_strlit("Motion event");
        reveal_strlit("hidden_until_release");
        reveal_strlit("yes");
        reveal_strlit("no");
        reveal_strlit("Vote event");
        reveal_strlit("motion");
        reveal_strlit("option1");
        reveal_strlit("option2");
    }
    if same_text(event_type, EVENT_TYPE_ATTENDANCE) {
        let out = EventData {
            attendance: Some(
                AttendanceEventData {
                    description: "Attendance session".to_owned(),
                    session_code: "attendance-session".to_owned(),
                },
            ),
            motion: None,
            vote: None,
        };
        assert(!blank(out.attendance.unwrap().session_code@)) by {
            assert(!is_white_space(out.attendance.unwrap().session_code@[0]));
        }
        out
    } else if same_text(event_type, EVENT_TYPE_MOTION) {
        let out = EventData {
            attendance: None,
            motion: Some(
                MotionEventData {
                    description: "Motion event".to_owned(),
                    threshold: Threshold { bits: HALF_BITS },
                    visibility: Visibility { participants: "hidden_until_release".to_owned() },
                    proxy: false,
                    vote_options: vec!["yes".to_owned(), "no".to_owned()],
                },
            ),
            vote: None,
        };
        let ghost m = out.motion.unwrap();
        assert(!blank(m.visibility.participants@)) by {
            assert(!is_white_space(m.visibility.participants@[0]));
        }
        assert(!blank(m.vote_options@[0]@)) by {
            assert(!is_white_space(m.vote_options@[0]@[0]));
        }
        assert(!blank(m.vote_options@[1]@)) by {
            assert(!is_white_space(m.vote_options@[1]@[0]));
        }
        assert(!exists|i: int| 0 <= i < m.vote_options@.len() && blank(#[trigger] m.vote_options@[i]@));
        out
    } else if same_text(event_type, EVENT_TYPE_VOTE) {
        let out = EventData {
            attendance: None,
            motion: None,
            vote: Some(
                VoteEventData {
                    description: "Vote event".to_owned(),
                    vote_type: "motion".to_owned(),
                    threshold: Threshold { bits: HALF_BITS },
                    visibility: Visibility { participants: "hidden_until_release".to_owned() },
                    proxy: false,
                    vote_options: vec!["option1".to_owned(), "option2".to_owned()],
                },
            ),
        };
        let ghost v = out.vote.unwrap();
        assert(!blank(v.description@)) by {
            assert(!is_white_space(v.description@[0]));
        }
        assert(!blank(v.vote_type@)) by {
            assert(!is_white_space(v.vote_type@[0]));
        }
        assert(!blank(v.visibility.participants@)) by {
            assert(!is_white_space(v.visibility.participants@[0]));
        }
        assert(!blank(v.vote_options@[0]@)) by {
            assert(!is_white_space(v.vote_options@[0]@[0]));
        }
        assert(!blank(v.vote_options@[1]@)) by {
            assert(!is_white_space(v.vote_options@[1]@[0]));
        }
        assert(!exists|i: int| 0 <= i < v.vote_options@.len() && blank(#[trigger] v.vote_options@[i]@));
        out
    } else {
        EventData { attendance: None, motion: None, vote: None }
    }
}

/// Law: a configuration never passes the checks of an unknown event kind.
pub proof fn lemma_unknown_kind_rejected(event_type: Seq<char>, d: EventData)
    requires
        !supported_event_type(event_type),
    ensures
        event_data_check(event_type, d) is Err,
{
}

/// `field_name` followed by `suffix`.
fn message(field_name: &str, suffix: &str) -> (out: String)
    ensures
        out@ == field_name@ + suffix@,
{
    let mut out = field_name.to_owned();
    out.append(suffix);
    out
}

/// Fails with `message` when `value` is blank.
pub fn validate_non_empty(value: &str, message: &str) -> (res: Result<(), String>)
    ensures
        outcome(res) == non_empty_check(value@, message@),
{
    if is_blank(value) {
        return Err(message.to_owned());
    }
    Ok(())
}

/// Fails unless the threshold lies in `[0, 1]`.
pub fn validate_threshold(value: &Threshold, field_name: &str) -> (res: Result<(), String>)
    ensures
        outcome(res) == threshold_check(*value, field_name@),
{
    if !(value.bits <= ONE_BITS || value.bits == NEGATIVE_ZERO_BITS) {
        return Err(message(field_name, " must be between 0 and 1"));
    }
    Ok(())
}

/// Fails on an empty option list or on a blank option.
pub fn validate_vote_options(options: &Vec<String>, field_name: &str) -> (res: Result<(), String>)
    ensures
        outcome(res) == options_check(options@, field_name@),
{
    if options.len() == 0 {
        return Err(message(field_name, " must include at least one option"));
    }
    let mut i: usize = 0;
    while i < options.len()
        invariant
            i <= options.len(),
            forall|j: int| 0 <= j < i ==> !blank(#[trigger] options@[j]@),
        decreases options.len() - i,
    {
        if is_blank(options[i].as_str()) {
            return Err(message(field_name, " cannot include empty values"));
        }
        i = i + 1;
    }
    Ok(())
}

/// The checks of an attendance section.
pub fn validate_attendance_data(data: &AttendanceEventData) -> (res: Result<(), String>)
    ensures
        outcome(res) == attendance_check(*data),
        res is Ok <==> attendance_valid(*data),
{
    validate_non_empty(
        data.session_code.as_str(),
        "event.data.attendance.session_code cannot be empty",
    )
}

/// The checks of a motion section.
pub fn validate_motion_data(data: &MotionEventData) -> (res: Result<(), String>)
    ensures
        outcome(res) == motion_check(*data),
        res is Ok <==> motion_valid(*data),
        !in_unit_interval(data.threshold.bits) ==> outcome(res) == Err::<(), Seq<char>>(
            "event.data.motion.threshold must be between 0 and 1"@,
        ),
{
    proof {
        lemma_threshold_messages();
        if options_check(data.vote_options@, "event.data.motion.vote_options"@) is Ok {
            assert(options_valid(data.vote_options@));
        }
    }
    validate_threshold(&data.threshold, "event.data.motion.threshold")?;
    validate_non_empty(
        data.visibility.participants.as_str(),
        "event.data.motion.visibility.participants cannot be empty",
    )?;
    validate_vote_options(&data.vote_options, "event.data.motion.vote_options")
}

/// The checks of a vote section.
pub fn validate_vote_data(data: &VoteEventData) -> (res: Result<(), String>)
    ensures
        outcome(res) == vote_check(*data),
        res is Ok <==> vote_valid(*data),
        !blank(data.description@) && !blank(data.vote_type@) && !in_unit_interval(
            data.threshold.bits,
        ) ==> outcome(res) == Err::<(), Seq<char>>(
            "event.data.vote.threshold must be between 0 and 1"@,
        ),
{
    proof {
        lemma_threshold_messages();
        if options_check(data.vote_options@, "event.data.vote.vote_options"@) is Ok {
            assert(options_valid(data.vote_options@));
        }
    }
    validate_non_empty(data.description.as_str(), "event.data.vote.description cannot be empty")?;
    validate_non_empty(data.vote_type.as_str(), "event.data.vote.vote_type cannot be empty")?;
    validate_threshold(&data.threshold, "event.data.vote.threshold")?;
    validate_non_empty(
        data.visibility.participants.as_str(),
        "event.data.vote.visibility.participants cannot be empty",
    )?;
    validate_vote_options(&data.vote_options, "event.data.vote.vote_options")
}

/// The checks of a configuration for an event kind.
pub fn validate_event_data(event_type: &str, data: &EventData) -> (res: Result<(), String>)
    ensures
        outcome(res) == event_data_check(event_type@, *data),
        res is Ok <==> configuration_valid(event_type@, *data),
{
    proof {
        lemma_checks_accept_exactly_valid(event_type@, *data);
    }
    let provided_fields: usize = (if data.attendance.is_some() {
        1usize
    } else {
        0
    }) + (if data.motion.is_some() {
        1usize
    } else {
        0
    }) + (if data.vote.is_some() {
        1usize
    } else {
        0
    });
    if provided_fields != 1 {
        return Err(
            "event.data must include exactly one of attendance, motion, or vote".to_owned(),
        );
    }
    if same_text(event_type, EVENT_TYPE_ATTENDANCE) {
        match &data.attendance {
            Some(attendance) => validate_attendance_data(attendance),
            None => Err("event.data.attendance is required for attendance".to_owned()),
        }
    } else if same_text(event_type, EVENT_TYPE_MOTION) {
        match &data.motion {
            Some(motion) => validate_motion_data(motion),
            None => Err("event.data.motion is required for motion".to_owned()),
        }
    } else if same_text(event_type, EVENT_TYPE_VOTE) {
        match &data.vote {
            Some(vote) => validate_vote_data(vote),
            None => Err("event.data.vote is required for vote".to_owned()),
        }
    } else {
        Err("event_type must be one of attendance, motion, or vote".to_owned())
    }
}

} // verus!
