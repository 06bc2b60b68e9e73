use voting_app::event_config::Threshold;
use voting_app::json::Json;
use voting_app::report::{count_text, join_texts, ordinal, percent_of, ReportLine};
use voting_app::results::{
    EventLoadStatic, EventSettings, EventType, ParticipantVisibility, UserRecord, VoteRecord,
};
use voting_app::time::Timestamp;

fn at(seconds: i64) -> Timestamp {
    Timestamp::from_parts(seconds, 0, 0).unwrap()
}

fn user(id: i32, name: &str) -> UserRecord {
    UserRecord { id, name: name.to_string(), created_at: at(0) }
}

fn vote(id: i32, voter_id: i32, responses: Vec<&str>, cast: i64) -> VoteRecord {
    let items = responses.into_iter().map(|r| Json::Str(r.to_string())).collect();
    VoteRecord {
        id,
        event_id: 1,
        voter_id,
        cast_time: at(cast),
        proxy: false,
        data: Json::Object(vec![("vote_response".to_string(), Json::Array(items))]),
    }
}

fn event(kind: EventType, votes_with_user: Vec<(VoteRecord, Option<UserRecord>)>) -> EventLoadStatic {
    EventLoadStatic {
        event_id: 1,
        event_type: kind,
        name: "Budget".to_string(),
        status: "closed".to_string(),
        start_time: at(0),
        end_time: None,
        data: EventSettings {
            description: String::new(),
            session_code: "S1".to_string(),
            threshold: Threshold { bits: 0.5f64.to_bits() },
            participants: ParticipantVisibility::Live,
            proxy: false,
            vote_options: vec!["yes".to_string(), "no".to_string()],
        },
        created_by_user_id: 1,
        organization_id: 1,
        votes_with_user,
    }
}

fn texts(lines: &[ReportLine]) -> Vec<Option<String>> {
    lines
        .iter()
        .map(|l| match l {
            ReportLine::Text(s) => Some(s.clone()),
            ReportLine::Gap => None,
        })
        .collect()
}

#[test]
fn ordinals_follow_english_suffixes() {
    let cases = [
        (1, "1st"),
        (2, "2nd"),
        (3, "3rd"),
        (4, "4th"),
        (11, "11th"),
        (12, "12th"),
        (13, "13th"),
        (21, "21st"),
        (22, "22nd"),
        (23, "23rd"),
        (101, "101st"),
        (111, "111th"),
        (112, "112th"),
    ];
    for (n, expected) in cases {
        assert_eq!(ordinal(n), expected);
    }
}

#[test]
fn count_text_shows_count_and_percent() {
    assert_eq!(count_text("yes", 3, 60), "yes: 3 (60%)");
    assert_eq!(count_text("", 0, 0), ": 0 (0%)");
}

#[test]
fn join_texts_separates_items() {
    let items = vec!["a".to_string(), "b".to_string(), "c".to_string()];
    assert_eq!(join_texts(&items, ", "), "a, b, c");
    assert_eq!(join_texts(&vec!["only".to_string()], ", "), "only");
    assert_eq!(join_texts(&Vec::new(), ", "), "");
}

#[test]
fn percent_rounds_down_and_is_zero_without_votes() {
    assert_eq!(percent_of(1, 3), 33);
    assert_eq!(percent_of(2, 3), 66);
    assert_eq!(percent_of(3, 3), 100);
    assert_eq!(percent_of(5, 0), 0);
}

#[test]
fn motion_report_lists_counts_against_votes() {
    let e = event(
        EventType::Motion,
        vec![
            (vote(1, 1, vec!["yes"], 60), Some(user(1, "Ann"))),
            (vote(2, 2, vec!["no"], 120), Some(user(2, "Bob"))),
            (vote(3, 3, vec!["yes"], 180), Some(user(3, "Cy"))),
        ],
    );
    let report = e.result_report();
    assert_eq!(report.title, "Event Result: Budget");
    let lines = texts(&report.lines);
    assert_eq!(lines[0].as_deref(), Some("Event: Budget"));
    assert_eq!(lines[1].as_deref(), Some("Event Type: motion"));
    assert_eq!(lines[2].as_deref(), Some("Total Votes: 3"));
    assert_eq!(lines[3], None);
    assert_eq!(lines[4].as_deref(), Some("--- Results ---"));
    let mut results: Vec<String> = lines[5..lines.len() - 1].iter().map(|l| l.clone().unwrap()).collect();
    results.sort();
    assert_eq!(results, vec!["no: 1 (33%)".to_string(), "yes: 2 (66%)".to_string()]);
    assert_eq!(lines.last().unwrap(), &None);
    assert_eq!(
        (report.header.user_id.as_str(), report.header.name.as_str()),
        ("User ID", "Name")
    );
    assert_eq!(
        (report.header.timestamp.as_str(), report.header.response.as_str()),
        ("Timestamp", "Response")
    );
    assert_eq!(report.rows.len(), 3);
    assert_eq!(report.rows[0].user_id, "1");
    assert_eq!(report.rows[0].name, "Ann");
    assert_eq!(report.rows[0].response, "yes");
    assert_eq!(report.rows[1].timestamp, "1970-01-01 00:02:00");
}

#[test]
fn election_report_lists_each_position() {
    let e = event(
        EventType::Election,
        vec![
            (vote(1, 1, vec!["A", "B"], 0), Some(user(1, "Ann"))),
            (vote(2, 2, vec!["A"], 0), Some(user(2, "Bob"))),
        ],
    );
    let report = e.result_report();
    let lines = texts(&report.lines);
    assert_eq!(lines[1].as_deref(), Some("Event Type: election"));
    let results: Vec<String> = lines[5..lines.len() - 1].iter().map(|l| l.clone().unwrap()).collect();
    assert_eq!(
        results,
        vec![
            "1st:".to_string(),
            "  A: 2 (100%)".to_string(),
            "2nd:".to_string(),
            "  B: 1 (100%)".to_string(),
        ]
    );
    assert_eq!(report.rows[0].response, "A, B");
}

#[test]
fn report_without_votes_has_no_result_lines() {
    let e = event(EventType::Motion, Vec::new());
    let report = e.result_report();
    let lines = texts(&report.lines);
    assert_eq!(lines.len(), 6);
    assert_eq!(lines[2].as_deref(), Some("Total Votes: 0"));
    assert!(report.rows.is_empty());
}
