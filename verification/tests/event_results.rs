use voting_app::event_config::Threshold;
use voting_app::json::{Json, JsonNumber};
use voting_app::results::{
    EventLoadStatic, EventSettings, EventType, ParticipantVisibility, UserRecord, VoteRecord,
};
use voting_app::time::{now, Timestamp};

fn to_value(j: &Json) -> serde_json::Value {
    match j {
        Json::Null => serde_json::Value::Null,
        Json::Bool(b) => serde_json::Value::Bool(*b),
        Json::Number(JsonNumber::PosInt(v)) => serde_json::Value::from(*v),
        Json::Number(JsonNumber::NegInt(v)) => serde_json::Value::from(*v),
        Json::Number(JsonNumber::FloatBits(b)) => serde_json::Value::from(f64::from_bits(*b)),
        Json::Str(s) => serde_json::Value::String(s.clone()),
        Json::Array(items) => serde_json::Value::Array(items.iter().map(to_value).collect()),
        Json::Object(members) => {
            let mut map = serde_json::Map::new();
            for (k, v) in members {
                map.insert(k.clone(), to_value(v));
            }
            serde_json::Value::Object(map)
        }
    }
}

fn obj_value(members: Vec<(&str, serde_json::Value)>) -> serde_json::Value {
    let mut map = serde_json::Map::new();
    for (k, v) in members {
        map.insert(k.to_string(), v);
    }
    serde_json::Value::Object(map)
}

fn mock_user(id: i32, name: &str) -> UserRecord {
    UserRecord { id, name: name.to_string(), created_at: now() }
}

fn mock_vote(id: i32, event_id: i32, voter_id: i32, responses: Vec<&str>) -> VoteRecord {
    let items = responses.into_iter().map(|r| Json::Str(r.to_string())).collect();
    VoteRecord {
        id,
        event_id,
        voter_id,
        cast_time: now(),
        proxy: false,
        data: Json::Object(vec![("vote_response".to_string(), Json::Array(items))]),
    }
}

fn mock_event(votes_with_user: Vec<(VoteRecord, Option<UserRecord>)>) -> EventLoadStatic {
    EventLoadStatic {
        event_id: 1,
        event_type: EventType::Motion,
        name: "Test Event".to_string(),
        status: "closed".to_string(),
        start_time: now(),
        end_time: None,
        data: EventSettings {
            description: "test description".to_string(),
            session_code: "ABC123".to_string(),
            threshold: Threshold { bits: 0.75f64.to_bits() },
            participants: ParticipantVisibility::Live,
            proxy: false,
            vote_options: vec!["yes".to_string(), "no".to_string()],
        },
        created_by_user_id: 1,
        organization_id: 1,
        votes_with_user,
    }
}

fn count_of(row: &[(String, usize)], key: &str) -> Option<usize> {
    row.iter().find(|(k, _)| k == key).map(|(_, c)| *c)
}

#[test]
fn test_vote_count_empty() {
    let event = mock_event(vec![]);
    assert_eq!(event.vote_count(), 0);
}

#[test]
fn test_vote_count() {
    let votes = vec![
        (mock_vote(1, 1, 1, vec!["yes"]), Some(mock_user(1, "Alice"))),
        (mock_vote(2, 1, 2, vec!["no"]), Some(mock_user(2, "Bob"))),
    ];
    let event = mock_event(votes);
    assert_eq!(event.vote_count(), 2);
}

#[test]
fn test_get_voters() {
    let votes = vec![
        (mock_vote(1, 1, 1, vec!["yes"]), Some(mock_user(1, "Alice"))),
        (mock_vote(2, 1, 2, vec!["no"]), None),
    ];
    let event = mock_event(votes);
    let voters = event.get_voters();
    assert_eq!(voters.len(), 1);
    assert_eq!(voters[0].name, "Alice");
}

#[test]
fn test_get_event_result() {
    let votes = vec![
        (mock_vote(1, 1, 1, vec!["yes"]), Some(mock_user(1, "Alice"))),
        (mock_vote(2, 1, 2, vec!["no"]), Some(mock_user(2, "Bob"))),
    ];
    let event = mock_event(votes);
    let results = event.get_event_result();

    assert_eq!(results.len(), 2);
    assert_eq!(results[0].user_name, "Alice");
    assert_eq!(results[0].vote_response, vec!["yes"]);
    assert_eq!(results[1].user_name, "Bob");
    assert_eq!(results[1].vote_response, vec!["no"]);
}

#[test]
fn test_get_event_result_skips_missing_user() {
    let votes = vec![
        (mock_vote(1, 1, 1, vec!["yes"]), Some(mock_user(1, "Alice"))),
        (mock_vote(2, 1, 2, vec!["no"]), None),
    ];
    let event = mock_event(votes);
    let results = event.get_event_result();
    assert_eq!(results.len(), 1);
}

#[test]
fn test_get_vote_statistics() {
    let votes = vec![
        (mock_vote(1, 1, 1, vec!["yes"]), Some(mock_user(1, "Alice"))),
        (mock_vote(2, 1, 2, vec!["yes"]), Some(mock_user(2, "Bob"))),
        (mock_vote(3, 1, 3, vec!["no"]), Some(mock_user(3, "Carol"))),
    ];
    let event = mock_event(votes);
    let stats = event.get_vote_statistics();

    assert_eq!(count_of(&stats, "yes"), Some(2));
    assert_eq!(count_of(&stats, "no"), Some(1));
}

#[test]
fn test_get_vote_statistics_empty() {
    let event = mock_event(vec![]);
    let stats = event.get_vote_statistics();
    assert!(stats.is_empty());
}

#[test]
fn test_get_ranked_statistics() {
    let votes = vec![
        (mock_vote(1, 1, 1, vec!["Alice", "Bob", "Carol"]), Some(mock_user(1, "Voter1"))),
        (mock_vote(2, 1, 2, vec!["Bob", "Alice", "Carol"]), Some(mock_user(2, "Voter2"))),
        (mock_vote(3, 1, 3, vec!["Alice", "Carol", "Bob"]), Some(mock_user(3, "Voter3"))),
    ];
    let mut event = mock_event(votes);
    event.event_type = EventType::Election;
    let ranked = event.get_ranked_statistics();

    assert_eq!(count_of(&ranked[0], "Alice"), Some(2));
    assert_eq!(count_of(&ranked[0], "Bob"), Some(1));
    assert_eq!(count_of(&ranked[1], "Bob"), Some(1));
    assert_eq!(count_of(&ranked[1], "Alice"), Some(1));
    assert_eq!(count_of(&ranked[1], "Carol"), Some(1));
    assert_eq!(count_of(&ranked[2], "Carol"), Some(2));
    assert_eq!(count_of(&ranked[2], "Bob"), Some(1));
}

#[test]
fn test_get_ranked_statistics_empty() {
    let event = mock_event(vec![]);
    let ranked = event.get_ranked_statistics();
    assert!(ranked.is_empty());
}

#[test]
fn test_export_result_json_election() {
    let votes = vec![
        (mock_vote(1, 1, 1, vec!["Alice", "Bob"]), Some(mock_user(1, "Voter1"))),
        (mock_vote(2, 1, 2, vec!["Alice", "Bob"]), Some(mock_user(2, "Voter2"))),
        (mock_vote(3, 1, 3, vec!["Bob", "Alice"]), Some(mock_user(3, "Voter3"))),
    ];
    let mut event = mock_event(votes);
    event.event_type = EventType::Election;
    let result = to_value(&event.export_result_json());

    let stats = result["statistics"].as_array().unwrap();
    assert_eq!(stats[0]["rank"], 1);
    assert_eq!(stats[0]["results"]["Alice"]["count"], 2);
    assert_eq!(stats[0]["results"]["Bob"]["count"], 1);
    assert_eq!(stats[1]["rank"], 2);
    assert_eq!(stats[1]["results"]["Bob"]["count"], 2);
    assert_eq!(stats[1]["results"]["Alice"]["count"], 1);
}

#[test]
fn test_export_result_json_election_pct() {
    let votes = vec![
        (mock_vote(1, 1, 1, vec!["Alice", "Bob"]), Some(mock_user(1, "Voter1"))),
        (mock_vote(2, 1, 2, vec!["Alice", "Bob"]), Some(mock_user(2, "Voter2"))),
        (mock_vote(3, 1, 3, vec!["Alice", "Bob"]), Some(mock_user(3, "Voter3"))),
        (mock_vote(4, 1, 4, vec!["Bob", "Alice"]), Some(mock_user(4, "Voter4"))),
    ];
    let mut event = mock_event(votes);
    event.event_type = EventType::Election;
    let result = to_value(&event.export_result_json());

    let stats = result["statistics"].as_array().unwrap();
    assert_eq!(stats[0]["results"]["Alice"]["pct"], 75);
    assert_eq!(stats[0]["results"]["Bob"]["pct"], 25);
    assert_eq!(stats[1]["results"]["Bob"]["pct"], 75);
    assert_eq!(stats[1]["results"]["Alice"]["pct"], 25);
}

#[test]
fn test_get_ranked_statistics_unequal_lengths() {
    let votes = vec![
        (mock_vote(1, 1, 1, vec!["Alice", "Bob", "Carol"]), Some(mock_user(1, "Voter1"))),
        (mock_vote(2, 1, 2, vec!["Bob"]), Some(mock_user(2, "Voter2"))),
    ];
    let event = mock_event(votes);
    let ranked = event.get_ranked_statistics();

    assert_eq!(ranked.len(), 3);
    assert_eq!(count_of(&ranked[0], "Alice"), Some(1));
    assert_eq!(count_of(&ranked[0], "Bob"), Some(1));
    assert_eq!(count_of(&ranked[1], "Bob"), Some(1));
    assert_eq!(count_of(&ranked[2], "Carol"), Some(1));
}

#[test]
fn test_export_result_json_preview() {
    let votes = vec![
        (mock_vote(1, 1, 1, vec!["yes"]), Some(mock_user(1, "Alice"))),
        (mock_vote(2, 1, 2, vec!["no"]), Some(mock_user(2, "Bob"))),
        (mock_vote(3, 1, 3, vec!["yes"]), Some(mock_user(3, "Carol"))),
    ];
    let event = mock_event(votes);
    let result = to_value(&event.export_result_json());
    println!("{}", serde_json::to_string_pretty(&result).unwrap());
}

#[test]
fn test_export_result_json() {
    let votes = vec![
        (mock_vote(1, 1, 1, vec!["yes"]), Some(mock_user(1, "Alice"))),
        (mock_vote(2, 1, 2, vec!["yes"]), Some(mock_user(2, "Bob"))),
        (mock_vote(3, 1, 3, vec!["no"]), Some(mock_user(3, "Carol"))),
    ];
    let event = mock_event(votes);
    let result = to_value(&event.export_result_json());

    assert_eq!(result["event_name"], "Test Event");
    assert_eq!(result["status"], "closed");
    assert_eq!(result["total_votes"], 3);
    assert!(result["end_time"].is_null());
    assert_eq!(result["statistics"]["yes"]["count"], 2);
    assert_eq!(result["statistics"]["yes"]["pct"], 66);
    assert_eq!(result["statistics"]["no"]["count"], 1);
    assert_eq!(result["statistics"]["no"]["pct"], 33);
}

#[test]
fn test_export_result_json_empty() {
    let event = mock_event(vec![]);
    let result = to_value(&event.export_result_json());

    assert_eq!(result["event_name"], "Test Event");
    assert_eq!(result["total_votes"], 0);
    assert!(result["statistics"].as_object().unwrap().is_empty());
}

#[test]
fn test_export_result_json_with_end_time() {
    let mut event = mock_event(vec![(
        mock_vote(1, 1, 1, vec!["yes"]),
        Some(mock_user(1, "Alice")),
    )]);
    event.end_time = Some(now());
    let result = to_value(&event.export_result_json());

    assert!(!result["end_time"].is_null());
    assert!(result["end_time"].as_str().is_some());
}

#[test]
fn event_type_is_reported_in_lower_case() {
    let mut event = mock_event(vec![]);
    assert_eq!(to_value(&event.export_result_json())["event_type"], "motion");
    event.event_type = EventType::Election;
    assert_eq!(to_value(&event.export_result_json())["event_type"], "election");
}

#[test]
fn end_time_is_written_in_rfc3339() {
    let mut event = mock_event(vec![]);
    event.end_time = Timestamp::from_parts(1_774_038_600, 0, 0);
    let result = to_value(&event.export_result_json());
    assert_eq!(result["end_time"], "2026-03-20T20:30:00+00:00");
}

#[test]
fn statistics_skip_non_string_responses_and_votes_without_array() {
    let mut odd = mock_vote(1, 1, 1, vec!["yes"]);
    if let Json::Object(members) = &mut odd.data {
        members[0].1 = Json::Array(vec![Json::Str("yes".to_string()), Json::Bool(true), Json::Null]);
    }
    let no_array = VoteRecord {
        data: Json::Object(vec![("vote_response".to_string(), Json::Str("yes".to_string()))]),
        ..mock_vote(2, 1, 2, vec![])
    };
    let event = mock_event(vec![
        (odd, Some(mock_user(1, "Alice"))),
        (no_array, Some(mock_user(2, "Bob"))),
    ]);
    let results = event.get_event_result();
    assert_eq!(results.len(), 1);
    assert_eq!(results[0].vote_response, vec!["yes"]);
    let stats = event.get_vote_statistics();
    assert_eq!(stats, vec![("yes".to_string(), 1)]);
    let result = to_value(&event.export_result_json());
    assert_eq!(result["total_votes"], 2);
    assert_eq!(result["statistics"]["yes"]["pct"], 50);
}

#[test]
fn repeated_response_in_one_ballot_counts_twice() {
    let event = mock_event(vec![(
        mock_vote(1, 1, 1, vec!["yes", "yes"]),
        Some(mock_user(1, "Alice")),
    )]);
    let stats = event.get_vote_statistics();
    assert_eq!(count_of(&stats, "yes"), Some(2));
    let result = to_value(&event.export_result_json());
    assert_eq!(result["statistics"]["yes"]["pct"], 200);
}

#[test]
fn rank_rows_sum_to_the_ballots_reaching_them() {
    let votes = vec![
        (mock_vote(1, 1, 1, vec!["A", "B", "C"]), Some(mock_user(1, "V1"))),
        (mock_vote(2, 1, 2, vec!["B"]), Some(mock_user(2, "V2"))),
        (mock_vote(3, 1, 3, vec!["C", "A"]), Some(mock_user(3, "V3"))),
    ];
    let event = mock_event(votes);
    let ranked = event.get_ranked_statistics();
    let sums: Vec<usize> = ranked.iter().map(|row| row.iter().map(|(_, c)| *c).sum()).collect();
    assert_eq!(sums, vec![3, 2, 1]);
}

#[test]
fn overall_counts_are_the_sums_of_the_rank_counts() {
    let votes = vec![
        (mock_vote(1, 1, 1, vec!["A", "B", "C"]), Some(mock_user(1, "V1"))),
        (mock_vote(2, 1, 2, vec!["B", "A"]), Some(mock_user(2, "V2"))),
        (mock_vote(3, 1, 3, vec!["C"]), Some(mock_user(3, "V3"))),
        (mock_vote(4, 1, 4, vec!["B"]), None),
    ];
    let event = mock_event(votes);
    let overall = event.get_vote_statistics();
    let ranked = event.get_ranked_statistics();
    for key in ["A", "B", "C", "D"] {
        let summed: usize = ranked.iter().map(|row| count_of(row, key).unwrap_or(0)).sum();
        assert_eq!(count_of(&overall, key).unwrap_or(0), summed);
    }
    assert_eq!(count_of(&overall, "B"), Some(2));
}

#[test]
fn election_export_has_one_member_per_option() {
    let votes = vec![
        (mock_vote(1, 1, 1, vec!["Alice", "Bob", "Carol"]), Some(mock_user(1, "Voter1"))),
        (mock_vote(2, 1, 2, vec!["Bob"]), Some(mock_user(2, "Voter2"))),
    ];
    let mut event = mock_event(votes);
    event.event_type = EventType::Election;
    let raw = event.export_result_json();
    let r = to_value(&raw);
    assert_eq!(r["total_votes"], 2);
    let s = r["statistics"].as_array().unwrap();
    assert_eq!(s.len(), 3);
    let entry = |count: u64, pct: u64| {
        obj_value(vec![("count", serde_json::Value::from(count)), ("pct", serde_json::Value::from(pct))])
    };
    let row = |rank: u64, results: Vec<(&str, serde_json::Value)>| {
        obj_value(vec![("rank", serde_json::Value::from(rank)), ("results", obj_value(results))])
    };
    assert_eq!(s[0], row(1, vec![("Alice", entry(1, 50)), ("Bob", entry(1, 50))]));
    assert_eq!(s[1], row(2, vec![("Bob", entry(1, 100))]));
    assert_eq!(s[2], row(3, vec![("Carol", entry(1, 100))]));
    if let Json::Object(top) = &raw {
        let stats = &top.iter().find(|(k, _)| k == "statistics").unwrap().1;
        if let Json::Array(rows) = stats {
            for row in rows {
                if let Json::Object(members) = row {
                    let results = &members.iter().find(|(k, _)| k == "results").unwrap().1;
                    if let Json::Object(entries) = results {
                        let mut keys: Vec<&String> = entries.iter().map(|(k, _)| k).collect();
                        let n = keys.len();
                        keys.sort();
                        keys.dedup();
                        assert_eq!(keys.len(), n);
                    }
                }
            }
        }
    }
}
