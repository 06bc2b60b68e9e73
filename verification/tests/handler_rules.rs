use voting_app::attendance::{join_event_step, join_member_step, position_of_session_code};
use voting_app::audit_log::{Actor, Changes, LogData, LogStore, Target, validate_data};
use voting_app::auth::{
    auth_status, health, login_redirect, post_logout_redirect, redirect_after_login, sync_decision, Config,
    OidcConfig, SyncAction,
};
use voting_app::ballots::{
    cast_vote_event_step, cast_vote_insert_step, cast_vote_voter_step, motion_results_event_step,
    tally_motion, threshold_number, CastVoteRequest, Lookup, StatusOption, VoterRecord, VotingEvent,
};
use voting_app::json::{Json, JsonNumber};
use voting_app::motions::{
    append_end_time_update_metadata, append_metadata, check_event_name, close_record, map_response,
    parse_timestamp, plan_new_event, set_end_time_record, timer_response, ApiError, CloseRequest,
    CreateRequest, EventRecord, EventStatuses, SetEndTimeRequest,
};
use voting_app::organizations;
use voting_app::results::{ballots_of, EventType, UserRecord, VoteRecord};
use voting_app::time::{now, parse_rfc3339, Timestamp};
use voting_app::users;

fn obj(members: Vec<(&str, Json)>) -> Json {
    Json::Object(members.into_iter().map(|(k, v)| (k.to_string(), v)).collect())
}

fn s(text: &str) -> Json {
    Json::Str(text.to_string())
}

fn get<'a>(j: &'a Json, key: &str) -> Option<&'a Json> {
    j.get(key)
}

fn text(j: Option<&Json>) -> Option<String> {
    match j {
        Some(Json::Str(s)) => Some(s.clone()),
        _ => None,
    }
}

fn at(raw: &str) -> Timestamp {
    parse_rfc3339(raw).unwrap()
}

fn voting_event(data: Json, status: StatusOption) -> VotingEvent {
    VotingEvent {
        id: 7,
        event_type: EventType::Motion,
        name: "Budget".to_string(),
        status,
        start_time: at("2026-03-20T20:00:00Z"),
        end_time: None,
        data,
        created_by_user_id: 1,
        organization_id: 2,
    }
}

fn motion_data(vote_type: &str, proxy: bool) -> Json {
    obj(vec![
        ("vote_type", s(vote_type)),
        ("proxy", Json::Bool(proxy)),
        ("vote_options", Json::Array(vec![s("pass"), s("reject"), s("abstain")])),
        ("visibility", obj(vec![("participants", s("hidden_until_release"))])),
        ("threshold", Json::Number(JsonNumber::FloatBits(0.75f64.to_bits()))),
    ])
}

fn ballot(responses: Vec<&str>, proxy: bool) -> CastVoteRequest {
    CastVoteRequest { vote_response: responses.into_iter().map(String::from).collect(), proxy }
}

fn voter() -> Lookup<VoterRecord> {
    Lookup::Found(VoterRecord { id: 11, event_id: 7, voter_id: 3 })
}

#[test]
fn cast_vote_event_lookup() {
    let r = cast_vote_event_step(Lookup::Failed("down".into())).err().unwrap();
    assert_eq!((r.status, r.is_error, r.text.as_str()), (500, true, "Database error"));
    let r = cast_vote_event_step(Lookup::Missing).err().unwrap();
    assert_eq!((r.status, r.text.as_str()), (404, "Event not found"));
    let r = cast_vote_event_step(Lookup::Found(voting_event(motion_data("attendance", false), StatusOption::Active)))
        .err()
        .unwrap();
    assert_eq!((r.status, r.text.as_str()), (400, "Event is not a motion"));
    let r = cast_vote_event_step(Lookup::Found(voting_event(Json::Null, StatusOption::Active))).err().unwrap();
    assert_eq!(r.status, 400);
    let (e, vote_type) =
        cast_vote_event_step(Lookup::Found(voting_event(motion_data("election", false), StatusOption::Active)))
            .ok()
            .unwrap();
    assert_eq!(vote_type, "election");
    assert_eq!(e.id, 7);
}

#[test]
fn cast_vote_checks_in_order() {
    let e = voting_event(motion_data("motion", false), StatusOption::Active);
    let t = "motion".to_string();
    let r = cast_vote_voter_step(Lookup::Missing, &e, &t, ballot(vec![], true)).err().unwrap();
    assert_eq!((r.status, r.text.as_str()), (403, "User is not eligible to vote in this event"));
    let closed = voting_event(motion_data("motion", false), StatusOption::Inactive);
    let r = cast_vote_voter_step(voter(), &closed, &t, ballot(vec![], true)).err().unwrap();
    assert_eq!((r.status, r.text.as_str()), (400, "Event is not open"));
    let r = cast_vote_voter_step(voter(), &e, &t, ballot(vec!["pass"], true)).err().unwrap();
    assert_eq!((r.status, r.text.as_str()), (400, "Proxy voting is not allowed for this event"));
    let r = cast_vote_voter_step(voter(), &e, &t, ballot(vec![], false)).err().unwrap();
    assert_eq!((r.status, r.text.as_str()), (400, "vote_response cannot be empty"));
    let r = cast_vote_voter_step(voter(), &e, &t, ballot(vec!["maybe", "pass"], false)).err().unwrap();
    assert_eq!((r.status, r.text.as_str()), (400, "Invalid vote option"));
    let r = cast_vote_voter_step(Lookup::Failed("x".into()), &e, &t, ballot(vec!["pass"], false)).err().unwrap();
    assert_eq!((r.status, r.text.as_str()), (500, "Database error"));
}

#[test]
fn cast_vote_builds_the_stored_ballot() {
    let e = voting_event(motion_data("motion", true), StatusOption::Active);
    let v = cast_vote_voter_step(voter(), &e, &"motion".to_string(), ballot(vec!["reject", "anything"], true))
        .ok()
        .unwrap();
    assert_eq!((v.voter_id, v.event_id), (11, 7));
    assert!(v.proxy);
    assert_eq!(text(get(&v.data, "vote_type")), Some("motion".to_string()));
    assert!(get(&v.data, "proxy").is_none());
    if let Json::Object(m) = &v.data {
        assert_eq!(m.len(), 2);
    }
    match get(&v.data, "vote_response") {
        Some(Json::Array(items)) => {
            assert_eq!(items.len(), 2);
            assert_eq!(text(items.get(1)), Some("anything".to_string()));
        }
        _ => panic!("no vote_response"),
    }
    let ok = cast_vote_insert_step(true);
    assert_eq!((ok.status, ok.is_error, ok.text.as_str()), (201, false, "Vote cast successfully"));
    let bad = cast_vote_insert_step(false);
    assert_eq!((bad.status, bad.is_error, bad.text.as_str()), (500, true, "Failed to cast vote"));
}

fn vote_with(first: Json) -> VoteRecord {
    VoteRecord {
        id: 1,
        event_id: 7,
        voter_id: 3,
        cast_time: now(),
        proxy: false,
        data: obj(vec![("vote_response", Json::Array(vec![first]))]),
    }
}

#[test]
fn motion_results_rules() {
    let hidden = voting_event(motion_data("motion", false), StatusOption::Active);
    let r = motion_results_event_step(Lookup::Found(hidden)).err().unwrap();
    assert_eq!((r.status, r.text.as_str()), (403, "Results are not yet available"));
    let released = voting_event(motion_data("motion", false), StatusOption::Inactive);
    assert!(motion_results_event_step(Lookup::Found(released)).is_ok());
    let election = voting_event(motion_data("election", false), StatusOption::Inactive);
    let r = motion_results_event_step(Lookup::Found(election)).err().unwrap();
    assert_eq!((r.status, r.text.as_str()), (400, "Event is not a motion"));
    let live = voting_event(
        obj(vec![("vote_type", s("motion")), ("visibility", obj(vec![("participants", s("live"))]))]),
        StatusOption::Active,
    );
    assert!(motion_results_event_step(Lookup::Found(live)).is_ok());
}

#[test]
fn motion_tally_counts_first_responses_in_lower_case() {
    let votes = vec![vote_with(s("Pass")), vote_with(s("PASS")), vote_with(s("reject")), vote_with(s("Abstain"))];
    let t = tally_motion(&votes).ok().unwrap();
    assert_eq!((t.pass, t.reject, t.abstain, t.total), (2, 1, 1, 4));
    let t = tally_motion(&vec![]).ok().unwrap();
    assert_eq!(t.total, 0);
    let r = tally_motion(&vec![vote_with(s("pass")), vote_with(Json::Null)]).err().unwrap();
    assert_eq!((r.status, r.text.as_str()), (500, "Unrecognized vote option in database"));
    let e = voting_event(motion_data("motion", false), StatusOption::Inactive);
    assert!(matches!(threshold_number(&e), Some(JsonNumber::FloatBits(b)) if f64::from_bits(b) == 0.75));
    let e = voting_event(obj(vec![]), StatusOption::Inactive);
    assert!(threshold_number(&e).is_none());
}

fn record(data: Json, end: Option<&str>) -> EventRecord {
    EventRecord {
        id: 5,
        event_type: "MOTION".to_string(),
        name: "Budget".to_string(),
        status: "OPEN".to_string(),
        start_time: at("2026-03-20T20:00:00Z"),
        end_time: end.map(at),
        data,
        created_by_user_id: 1,
        organization_id: 2,
    }
}

fn create_request(start: Option<&str>, end: Option<&str>) -> CreateRequest {
    CreateRequest {
        organization_id: 2,
        created_by_user_id: 1,
        name: "Budget".to_string(),
        start_time: start.map(String::from),
        end_time: end.map(String::from),
        event_type: None,
        data: None,
    }
}

#[test]
fn api_error_replies() {
    assert_eq!(ApiError::BadRequest("b".into()).status_code(), 400);
    assert_eq!(ApiError::Forbidden("f".into()).status_code(), 403);
    assert_eq!(ApiError::NotFound("n".into()).status_code(), 404);
    let db = ApiError::Database("connection reset".into());
    assert_eq!(db.status_code(), 500);
    assert_eq!(db.message(), "database error: connection reset");
    assert!(check_event_name("  ").is_err());
    assert!(check_event_name("x").is_ok());
    assert!(matches!(parse_timestamp("yesterday"), Err(ApiError::BadRequest(m)) if m == "timestamp must be RFC3339, e.g. 2026-03-20T20:30:00Z"));
}

#[test]
fn new_motion_times_and_defaults() {
    let statuses = EventStatuses::standard();
    let now = at("2026-03-20T19:00:00Z");
    let e = plan_new_event(create_request(None, None), &statuses, &now).ok().unwrap();
    assert_eq!(e.start_time.seconds(), now.seconds());
    assert!(e.end_time.is_none());
    assert_eq!((e.event_type.as_str(), e.status.as_str()), ("MOTION", "OPEN"));
    assert!(matches!(e.data, Json::Object(ref m) if m.is_empty()));
    let e = plan_new_event(
        create_request(Some("2026-03-20T20:00:00Z"), Some("2026-03-20T21:00:00+01:00")),
        &statuses,
        &now,
    );
    assert!(matches!(e, Err(ApiError::BadRequest(ref m)) if m == "end_time must be later than start_time"));
    let e = plan_new_event(create_request(None, Some("2026-03-20T19:00:00.000000001Z")), &statuses, &now)
        .ok()
        .unwrap();
    assert_eq!(e.end_time.unwrap().nanos(), 1);
    let bad = plan_new_event(create_request(Some("noon"), None), &statuses, &now);
    assert!(matches!(bad, Err(ApiError::BadRequest(_))));
}

#[test]
fn closing_and_moving_the_end() {
    let statuses = EventStatuses::standard();
    let ended = at("2026-03-20T21:00:00Z");
    let closed = close_record(
        record(s("raw"), None),
        CloseRequest { record_id: 5, ended_by_user_id: -3, status: None, close_data: Some(Json::Bool(true)) },
        &statuses,
        &ended,
    );
    assert_eq!(closed.status, "CLOSED");
    assert_eq!(closed.end_time.as_ref().unwrap().seconds(), ended.seconds());
    assert_eq!(text(get(&closed.data, "payload")), Some("raw".to_string()));
    assert!(matches!(get(&closed.data, "close_data"), Some(Json::Bool(true))));
    assert!(matches!(get(&closed.data, "ended_by_user_id"), Some(Json::Number(JsonNumber::NegInt(-3)))));
    assert_eq!(text(get(&closed.data, "ended_at")), Some("2026-03-20T21:00:00+00:00".to_string()));

    let data = append_metadata(obj(vec![("a", s("1")), ("ended_at", s("old"))]), None, 4, &ended);
    assert_eq!(text(get(&data, "a")), Some("1".to_string()));
    assert_eq!(text(get(&data, "ended_at")), Some("2026-03-20T21:00:00+00:00".to_string()));
    assert!(get(&data, "close_data").is_none());
    if let Json::Object(m) = &data {
        assert_eq!(m.len(), 3);
    }

    let moved = set_end_time_record(
        record(obj(vec![]), None),
        SetEndTimeRequest { record_id: 5, updated_by_user_id: 9, end_time: "2026-03-20T22:00:00Z".to_string() },
    )
    .ok()
    .unwrap();
    assert_eq!(text(get(&moved.data, "end_time_updated_to")), Some("2026-03-20T22:00:00+00:00".to_string()));
    assert!(matches!(get(&moved.data, "end_time_updated_by_user_id"), Some(Json::Number(JsonNumber::PosInt(9)))));
    let early = set_end_time_record(
        record(obj(vec![]), None),
        SetEndTimeRequest { record_id: 5, updated_by_user_id: 9, end_time: "2026-03-20T20:00:00Z".to_string() },
    );
    assert!(matches!(early, Err(ApiError::BadRequest(ref m)) if m == "end_time must be later than start_time"));
    let data = append_end_time_update_metadata(Json::Null, 1, &ended);
    assert!(matches!(get(&data, "payload"), Some(Json::Null)));
}

#[test]
fn timer_and_response() {
    let statuses = EventStatuses::standard();
    let now = at("2026-03-20T20:59:30.5Z");
    let t = timer_response(&record(obj(vec![]), Some("2026-03-20T21:00:00Z")), &statuses, &now);
    assert_eq!(t.seconds_remaining, Some(29));
    assert!(!t.expired);
    assert_eq!(t.now, "2026-03-20T20:59:30.500+00:00");
    let late = at("2026-03-20T21:10:00Z");
    let t = timer_response(&record(obj(vec![]), Some("2026-03-20T21:00:00Z")), &statuses, &late);
    assert_eq!(t.seconds_remaining, Some(0));
    assert!(t.expired);
    let mut closed = record(obj(vec![]), None);
    closed.status = "CLOSED".to_string();
    let t = timer_response(&closed, &statuses, &now);
    assert!(t.expired && t.seconds_remaining.is_none() && t.end_time.is_none());
    let r = map_response(record(obj(vec![]), Some("2026-03-20T21:00:00+02:00")));
    assert_eq!(r.start_time, "2026-03-20T20:00:00+00:00");
    assert_eq!(r.end_time, Some("2026-03-20T21:00:00+02:00".to_string()));
}

fn log_entry(action: &str, actor: Actor) -> LogData {
    LogData {
        action: action.to_string(),
        target: Target { table: "events".to_string(), id: 5 },
        actor,
        event_id: 5,
        changes: Changes { before: obj(vec![]), after: obj(vec![("status", s("CLOSED"))]) },
    }
}

#[test]
fn audit_log_checks() {
    let user = |role: &str| Actor::User { user_id: 1, role: role.to_string() };
    assert!(validate_data(&log_entry("close", user("chair"))).is_ok());
    assert!(validate_data(&log_entry("close", Actor::System("system".into()))).is_ok());
    let msg = |d: LogData| match validate_data(&d) {
        Err(e) => e.message(),
        Ok(()) => String::new(),
    };
    assert_eq!(msg(log_entry(" ", user("chair"))), "log.data.action cannot be empty");
    let mut d = log_entry("close", user("chair"));
    d.target.table = String::new();
    assert_eq!(msg(d), "log.data.target.table cannot be empty");
    assert_eq!(msg(log_entry("close", user(""))), "log.data.actor.role cannot be empty");
    assert_eq!(msg(log_entry("close", Actor::System("admin".into()))), "log.data.actor string must be \"system\"");
}

#[test]
fn audit_log_store_reads_back_what_it_recorded() {
    let mut store = LogStore::new();
    let at1 = at("2026-03-20T20:00:00Z");
    assert_eq!(store.create(log_entry("open", Actor::System("system".into())), at1.copy()).ok(), Some(1));
    assert_eq!(store.create(log_entry("close", Actor::System("system".into())), at1.copy()).ok(), Some(2));
    assert!(store.create(log_entry("", Actor::System("system".into())), at1.copy()).is_err());
    assert_eq!(store.create(log_entry("vote", Actor::System("system".into())), at1.copy()).ok(), Some(3));
    let r = store.get_by_id(2).ok().unwrap();
    assert_eq!(r.data.action, "close");
    assert_eq!(r.created_at, "2026-03-20T20:00:00+00:00");
    let ids: Vec<i32> = store.list().iter().map(|r| r.id).collect();
    assert_eq!(ids, vec![1, 2, 3]);
    assert!(store.remove(2).is_ok());
    assert!(matches!(store.get_by_id(2), Err(e) if e.message() == "log record not found" && e.status_code() == 404));
    assert!(store.remove(2).is_err());
    let ids: Vec<i32> = store.list().iter().map(|r| r.id).collect();
    assert_eq!(ids, vec![1, 3]);
    assert_eq!(store.allocate_id(), 4);
}

#[test]
fn sign_in_redirects() {
    let base = "https://vote.example/".to_string();
    assert_eq!(redirect_after_login(&base, Some("https://vote.example/events".into())), "https://vote.example/events");
    assert_eq!(redirect_after_login(&base, Some("https://evil.example/".into())), base);
    assert_eq!(redirect_after_login(&base, None), base);
    assert_eq!(login_redirect(&base, None), "https://vote.example/api/auth/callback");
    assert_eq!(
        login_redirect(&base, Some("https://vote.example/a b".into())),
        "https://vote.example/api/auth/callback?redirect_uri=https%3A%2F%2Fvote.example%2Fa%20b"
    );
    assert_eq!(login_redirect(&base, Some("https://evil.example".into())), "https://vote.example/api/auth/callback");
    assert_eq!(post_logout_redirect(&"https://vote.example//".to_string()), "https://vote.example/");
    let st = auth_status(true);
    assert!(st.logged_in && st.user_id.is_none());
    let st = auth_status(false);
    assert!(!st.logged_in && st.user_id.is_none());
}

#[test]
fn settings_and_user_sync() {
    let v = |x: &str| Some(x.to_string());
    let c = Config::from_values(v("a"), v("d"), v("i"), v("c"), v("s"), None).ok().unwrap();
    assert_eq!(c.bind_addr, "0.0.0.0:8080");
    assert_eq!(Config::from_values(v("a"), None, None, v("c"), v("s"), None).err(), Some("DATABASE_URL must be set".to_string()));
    assert_eq!(Config::from_values(None, None, None, None, None, None).err(), Some("APP_BASE_URL must be set".to_string()));
    assert_eq!(Config::from_values(v("a"), v("d"), v("i"), v("c"), None, v("b")).err(), Some("OIDC_CLIENT_SECRET must be set".to_string()));
    assert!(OidcConfig::from_values(v("a"), v("i"), v("c"), None).is_none());
    assert!(OidcConfig::from_values(v("a"), v("i"), v("c"), v("s")).is_some());
    assert!(matches!(sync_decision(true, Lookup::Missing, "sub"), SyncAction::PassThrough));
    let u = UserRecord { id: 3, name: "sub".into(), created_at: now() };
    assert!(matches!(sync_decision(false, Lookup::Found(u), "sub"), SyncAction::Attach(ref u) if u.id == 3));
    assert!(matches!(sync_decision(false, Lookup::Failed("x".into()), "sub"), SyncAction::Create(ref n) if n == "sub"));
}

#[test]
fn user_and_organization_rules() {
    let now = at("2026-03-20T20:00:00Z");
    let u = users::plan_new_user(users::CreateRequest { name: "Ada".into(), created_at: None }, &now).ok().unwrap();
    assert_eq!(u.created_at.seconds(), now.seconds());
    let bad = users::plan_new_user(users::CreateRequest { name: " ".into(), created_at: None }, &now);
    assert!(matches!(bad, Err(e) if e.message() == "name is required and cannot be empty" && e.status_code() == 400));
    let bad = users::plan_new_user(users::CreateRequest { name: "Ada".into(), created_at: Some("x".into()) }, &now);
    assert!(matches!(bad, Err(users::ApiError::BadRequest(_))));
    let r = users::record_response(3, "Ada".into(), &now);
    assert_eq!(r.created_at, "2026-03-20T20:00:00+00:00");
    let missing: Lookup<()> = Lookup::Missing;
    assert!(matches!(users::found_or_not_found(missing, "user not found"), Err(e) if e.status_code() == 404));
    let o = organizations::plan_new_organization(organizations::CreateRequest { name: "Senate".into(), data: None })
        .ok()
        .unwrap();
    assert!(matches!(o.data, Json::Object(ref m) if m.is_empty()));
    let failed: Lookup<()> = Lookup::Failed("gone".into());
    assert!(matches!(organizations::found_or_not_found(failed, "organization not found"), Err(e) if e.message() == "database error: gone"));
    assert!(organizations::deleted(3).deleted);
}

#[test]
fn joining_by_session_code() {
    let events = vec![
        record(obj(vec![("session_code", Json::Number(JsonNumber::PosInt(1)))]), None),
        record(obj(vec![("session_code", s("XYZ"))]), None),
        record(obj(vec![("session_code", s("ABC"))]), None),
        record(obj(vec![("session_code", s("ABC"))]), None),
    ];
    assert_eq!(position_of_session_code(&events, "ABC"), Some(2));
    assert_eq!(position_of_session_code(&events, "1"), None);
    let r = join_event_step(Lookup::Missing, "ABC").err().unwrap();
    assert_eq!(r, (404, "No active event for session code 'ABC'".to_string()));
    let r = join_member_step::<()>(Lookup::Missing, 1).err().unwrap();
    assert_eq!(r, (403, "User 1 is not a member of this organization".to_string()));
    let r = join_member_step::<()>(Lookup::Failed("boom".into()), 1).err().unwrap();
    assert_eq!(r, (500, "boom".to_string()));
}

#[test]
fn a_closed_motion_reads_as_expired() {
    let statuses = EventStatuses::standard();
    let ended = at("2026-03-20T21:00:00Z");
    let closed = close_record(
        record(obj(vec![]), Some("2026-03-20T23:00:00Z")),
        CloseRequest { record_id: 5, ended_by_user_id: 1, status: None, close_data: None },
        &statuses,
        &ended,
    );
    let before = at("2026-03-20T20:30:00Z");
    assert!(timer_response(&closed, &statuses, &before).expired);
    let kept_open = close_record(
        record(obj(vec![]), None),
        CloseRequest { record_id: 5, ended_by_user_id: 1, status: Some("PAUSED".into()), close_data: None },
        &statuses,
        &ended,
    );
    assert!(!timer_response(&kept_open, &statuses, &before).expired);
    assert!(timer_response(&kept_open, &statuses, &ended).expired);
    assert!(timer_response(&kept_open, &statuses, &at("2026-03-21T00:00:00Z")).expired);
}

#[test]
fn health_reports_the_sign_in_setup() {
    let h = health(true);
    assert!(h.ok && h.oidc_enabled);
    assert_eq!(h.service, "auth");
    assert!(!health(false).oidc_enabled);
}

#[test]
fn a_cast_ballot_reads_back_in_the_results() {
    let e = voting_event(motion_data("motion", false), StatusOption::Active);
    let stored = cast_vote_voter_step(voter(), &e, &"motion".to_string(), ballot(vec!["pass", "x"], false))
        .ok()
        .unwrap();
    let vote = VoteRecord {
        id: 1,
        event_id: stored.event_id,
        voter_id: 3,
        cast_time: at("2026-03-20T20:10:00Z"),
        proxy: stored.proxy,
        data: stored.data,
    };
    let user = UserRecord { id: 3, name: "Ann".to_string(), created_at: at("2026-01-01T00:00:00Z") };
    let ballots = ballots_of(&vec![(vote, Some(user))]);
    assert_eq!(ballots.len(), 1);
    assert_eq!(ballots[0].vote_response, vec!["pass".to_string(), "x".to_string()]);
    assert_eq!(ballots[0].user_id, 3);
}

#[test]
fn log_ids_count_up_from_one() {
    let mut store = LogStore::new();
    assert_eq!(store.allocate_id(), 1);
    assert_eq!(store.allocate_id(), 2);
    let id = store.create(log_entry("update", Actor::System("system".into())), now()).ok().unwrap();
    assert_eq!(id, 3);
    assert_eq!(store.allocate_id(), 4);
}
