//! Creating, closing and timing motions: the rules of the motion endpoints.
//!
//! Each endpoint loads rows, checks them, and stores a changed row; the
//! checks and the changed rows are computed here from the rows loaded.
use vstd::prelude::*;
use vstd::string::*;
use crate::ballots::Lookup;
use crate::json::{
    Json, JsonNumber, distinct_if_object, distinct_object, field, lemma_distinct_field, signed_number,
    text_of, with_field,
};
use crate::text::{blank, is_blank};
use crate::time::{
    Timestamp, is_not_after, not_after, parse_rfc3339, rfc3339_reading, rfc3339_text,
    rfc3339_writing, seconds_between, whole_seconds_between,
};

verus! {

/// Why a request fails: the client's mistake, a refusal, a missing row, or a
/// storage failure with its message.
pub enum ApiError {
    BadRequest(String),
    Forbidden(String),
    NotFound(String),
    Database(String),
}

impl ApiError {
    /// The HTTP status of the failure.
    pub fn status_code(&self) -> (out: u16)
        ensures
            out == match *self {
                ApiError::BadRequest(_) => 400u16,
                ApiError::Forbidden(_) => 403u16,
                ApiError::NotFound(_) => 404u16,
                ApiError::Database(_) => 500u16,
            },
    {
        match self {
            ApiError::BadRequest(_) => 400,
            ApiError::Forbidden(_) => 403,
            ApiError::NotFound(_) => 404,
            ApiError::Database(_) => 500,
        }
    }

    /// The text of the `error` member of the reply body.
    pub fn message(&self) -> (out: String)
        ensures
            out@ == match *self {
                ApiError::BadRequest(m) => m@,
                ApiError::Forbidden(m) => m@,
                ApiError::NotFound(m) => m@,
                ApiError::Database(m) => "database error: "@ + m@,
            },
    {
        match self {
            ApiError::BadRequest(m) => m.clone(),
            ApiError::Forbidden(m) => m.clone(),
            ApiError::NotFound(m) => m.clone(),
            ApiError::Database(m) => {
                let mut out = "database error: ".to_owned();
                out.append(m.as_str());
                out
            },
        }
    }
}

/// The event kind a new motion gets when none is named, and the statuses an
/// open and a closed motion carry.
pub struct EventStatuses {
    pub default_type: String,
    pub open_status: String,
    pub closed_status: String,
}

impl EventStatuses {
    /// `MOTION`, `OPEN`, `CLOSED`.
    pub fn standard() -> (out: EventStatuses)
        ensures
            out.default_type@ == "MOTION"@,
            out.open_status@ == "OPEN"@,
            out.closed_status@ == "CLOSED"@,
    {
        EventStatuses {
            default_type: "MOTION".to_owned(),
            open_status: "OPEN".to_owned(),
            closed_status: "CLOSED".to_owned(),
        }
    }
}

/// An event row as stored by the motion endpoints.
pub struct EventRecord {
    pub id: i32,
    pub event_type: String,
    pub name: String,
    pub status: String,
    pub start_time: Timestamp,
    pub end_time: Option<Timestamp>,
    pub data: Json,
    pub created_by_user_id: i32,
    pub organization_id: i32,
}

/// An event row to insert.
pub struct NewEvent {
    pub event_type: String,
    pub name: String,
    pub status: String,
    pub start_time: Timestamp,
    pub end_time: Option<Timestamp>,
    pub data: Json,
    pub created_by_user_id: i32,
    pub organization_id: i32,
}

/// A request to create a motion.
pub struct CreateRequest {
    pub organization_id: i32,
    pub created_by_user_id: i32,
    pub name: String,
    pub start_time: Option<String>,
    pub end_time: Option<String>,
    pub event_type: Option<String>,
    pub data: Option<Json>,
}

/// A request to close a motion.
pub struct CloseRequest {
    pub record_id: i32,
    pub ended_by_user_id: i32,
    pub status: Option<String>,
    pub close_data: Option<Json>,
}

/// A request to move a motion's end time.
pub struct SetEndTimeRequest {
    pub record_id: i32,
    pub updated_by_user_id: i32,
    pub end_time: String,
}

/// A request for a motion's timer.
pub struct TimerQuery {
    pub record_id: i32,
}

/// An event row as answered.
pub struct RecordResponse {
    pub record_id: i32,
    pub event_type: String,
    pub name: String,
    pub status: String,
    pub start_time: String,
    pub end_time: Option<String>,
    pub created_by_user_id: i32,
    pub organization_id: i32,
    pub data: Json,
}

/// A motion's timer as answered.
pub struct TimerResponse {
    pub record_id: i32,
    pub status: String,
    pub now: String,
    pub end_time: Option<String>,
    pub seconds_remaining: Option<i64>,
    pub expired: bool,
}

/// The message of an unreadable timestamp.
pub open spec fn timestamp_message() -> Seq<char> {
    "timestamp must be RFC3339, e.g. 2026-03-20T20:30:00Z"@
}

/// A bad request with this message.
pub open spec fn is_bad_request(e: ApiError, m: Seq<char>) -> bool {
    e matches ApiError::BadRequest(s) && s@ == m
}

/// Reads an RFC 3339 timestamp; an unreadable one is a bad request.
pub fn parse_timestamp(raw: &str) -> (out: Result<Timestamp, ApiError>)
    ensures
        match rfc3339_reading(raw@) {
            Some(p) => out matches Ok(t) && t.parts() == p,
            None => out matches Err(e) && is_bad_request(e, timestamp_message()),
        },
{
    match parse_rfc3339(raw) {
        Some(t) => Ok(t),
        None => Err(
            ApiError::BadRequest(
                "timestamp must be RFC3339, e.g. 2026-03-20T20:30:00Z".to_owned(),
            ),
        ),
    }
}

/// A new row needs a name that is not blank.
pub fn check_event_name(name: &str) -> (out: Result<(), ApiError>)
    ensures
        blank(name@) ==> (out matches Err(e) && is_bad_request(
            e,
            "name is required and cannot be empty"@,
        )),
        !blank(name@) ==> out is Ok,
{
    if is_blank(name) {
        return Err(ApiError::BadRequest("name is required and cannot be empty".to_owned()));
    }
    Ok(())
}

/// The row a lookup found; a missing row fails with `missing`, a storage
/// failure with its message.
pub fn found<T>(lookup: Lookup<T>, missing: ApiError) -> (out: Result<T, ApiError>)
    ensures
        match lookup {
            Lookup::Found(row) => out == Ok::<T, ApiError>(row),
            Lookup::Missing => out == Err::<T, ApiError>(missing),
            Lookup::Failed(m) => out matches Err(e) && e matches ApiError::Database(s) && s@ == m@,
        },
{
    match lookup {
        Lookup::Found(row) => Ok(row),
        Lookup::Missing => Err(missing),
        Lookup::Failed(m) => Err(ApiError::Database(m)),
    }
}

/// A membership lookup: a missing membership is refused with `message`.
pub fn member_check<T>(lookup: Lookup<T>, message: &str) -> (out: Result<(), ApiError>)
    ensures
        match lookup {
            Lookup::Found(_) => out is Ok,
            Lookup::Missing => out matches Err(e) && e matches ApiError::Forbidden(s) && s@
                == message@,
            Lookup::Failed(m) => out matches Err(e) && e matches ApiError::Database(s) && s@ == m@,
        },
{
    match lookup {
        Lookup::Found(_) => Ok(()),
        Lookup::Missing => Err(ApiError::Forbidden(message.to_owned())),
        Lookup::Failed(m) => Err(ApiError::Database(m)),
    }
}

/// The times of a new motion: the start read from the request or now, the end
/// read from the request if given; a given end must come after the start.
pub open spec fn new_event_times(req: CreateRequest, now: (i64, u32, i32)) -> Result<((i64, u32, i32), Option<(i64, u32, i32)>), Seq<char>> {
    let start = match req.start_time {
        Some(s) => match rfc3339_reading(s@) {
            Some(p) => Ok(p),
            None => Err(timestamp_message()),
        },
        None => Ok(now),
    };
    match start {
        Err(m) => Err(m),
        Ok(st) => match req.end_time {
            None => Ok((st, None)),
            Some(e) => match rfc3339_reading(e@) {
                None => Err(timestamp_message()),
                Some(en) => if not_after(en, st) {
                    Err("end_time must be later than start_time"@)
                } else {
                    Ok((st, Some(en)))
                },
            },
        },
    }
}

/// The row of a new motion: the request's kind or the default, its name, the
/// open status, its times, its data or an empty object, its creator and
/// organization. Unreadable or misordered times are a bad request.
/// Law: a planned motion that has an end time ends strictly after it starts,
/// whether the start was given or defaults to now; a start that is not given
/// is now; and a readable end at or before the start is refused.
pub proof fn lemma_new_event_ends_after_start(req: CreateRequest, now: (i64, u32, i32))
    ensures
        new_event_times(req, now) matches Ok((st, Some(en))) ==> !not_after(en, st),
        req.start_time is None ==> (new_event_times(req, now) matches Ok((st, _)) ==> st == now),
        req.start_time is None && (req.end_time matches Some(e) && rfc3339_reading(e@) matches Some(
            en,
        ) && not_after(en, now)) ==> new_event_times(req, now) is Err,
{
}

pub fn plan_new_event(req: CreateRequest, statuses: &EventStatuses, now: &Timestamp) -> (out: Result<NewEvent, ApiError>)
    ensures
        out matches Ok(ev) ==> (ev.end_time matches Some(t) ==> !not_after(
            t.parts(),
            ev.start_time.parts(),
        )),
        req.start_time is None ==> (out matches Ok(ev) ==> ev.start_time.parts() == now.parts()),
        match new_event_times(req, now.parts()) {
            Err(m) => out matches Err(e) && is_bad_request(e, m),
            Ok((st, en)) => out matches Ok(ev) && ev.start_time.parts() == st && match en {
                None => ev.end_time is None,
                Some(p) => ev.end_time matches Some(t) && t.parts() == p,
            } && ev.event_type@ == match req.event_type {
                Some(t) => t@,
                None => statuses.default_type@,
            } && ev.name@ == req.name@ && ev.status@ == statuses.open_status@ && match req.data {
                Some(d) => ev.data == d,
                None => ev.data matches Json::Object(m) && m@.len() == 0,
            } && ev.created_by_user_id == req.created_by_user_id && ev.organization_id
                == req.organization_id,
        },
{
    let start_time = match &req.start_time {
        Some(input) => parse_timestamp(input.as_str())?,
        None => now.copy(),
    };
    let end_time = match &req.end_time {
        Some(input) => Some(parse_timestamp(input.as_str())?),
        None => None,
    };
    if let Some(end_value) = &end_time {
        if is_not_after(end_value, &start_time) {
            return Err(ApiError::BadRequest("end_time must be later than start_time".to_owned()));
        }
    }
    let event_type = match req.event_type {
        Some(t) => t,
        None => statuses.default_type.clone(),
    };
    let data = match req.data {
        Some(d) => d,
        None => Json::empty_object(),
    };
    Ok(
        NewEvent {
            event_type,
            name: req.name,
            status: statuses.open_status.clone(),
            start_time,
            end_time,
            data,
            created_by_user_id: req.created_by_user_id,
            organization_id: req.organization_id,
        },
    )
}

/// An event row as answered: its fields, the times in RFC 3339.
pub fn map_response(model: EventRecord) -> (out: RecordResponse)
    ensures
        out.record_id == model.id,
        out.event_type@ == model.event_type@,
        out.name@ == model.name@,
        out.status@ == model.status@,
        out.start_time@ == rfc3339_writing(model.start_time.parts()),
        match model.end_time {
            None => out.end_time is None,
            Some(t) => out.end_time matches Some(s) && s@ == rfc3339_writing(t.parts()),
        },
        out.created_by_user_id == model.created_by_user_id,
        out.organization_id == model.organization_id,
        out.data == model.data,
{
    let start_time = rfc3339_text(&model.start_time);
    let end_time = match &model.end_time {
        Some(t) => Some(rfc3339_text(t)),
        None => None,
    };
    RecordResponse {
        record_id: model.id,
        event_type: model.event_type,
        name: model.name,
        status: model.status,
        start_time,
        end_time,
        created_by_user_id: model.created_by_user_id,
        organization_id: model.organization_id,
        data: model.data,
    }
}

/// The JSON number of a signed integer.
pub open spec fn signed_json(v: int) -> JsonNumber {
    if v >= 0 {
        JsonNumber::PosInt(v as u64)
    } else {
        JsonNumber::NegInt(v as i64)
    }
}

/// A member of the data that metadata is added to: the data's own member when
/// it is an object; otherwise the data itself under `payload`.
pub open spec fn base_field(current: Json, k: Seq<char>) -> Option<Json> {
    if current is Object {
        field(current, k)
    } else if k == "payload"@ {
        Some(current)
    } else {
        None
    }
}

/// The data itself when it is an object, else `{"payload": data}`.
fn as_object(current: Json) -> (out: Json)
    ensures
        out is Object,
        forall|k: Seq<char>| #[trigger] field(out, k) == base_field(current, k),
        distinct_if_object(current) ==> distinct_object(out),
{
    if current.is_object() {
        current
    } else {
        let ghost old_current = current;
        let mut members: Vec<(String, Json)> = Vec::new();
        members.push(("payload".to_owned(), current));
        let out = Json::Object(members);
        proof {
            lemma_distinct_field(members, 0);
            assert forall|k: Seq<char>| #[trigger] field(out, k) == base_field(old_current, k) by {
                if k != "payload"@ {
                    crate::json::lemma_absent_field(members, k);
                }
            }
        }
        out
    }
}

/// The data of a closed motion: the old data (wrapped under `payload` when it
/// is not an object) with `close_data` when given, `ended_by_user_id` and
/// `ended_at` set.
pub fn append_metadata(current: Json, close_data: Option<Json>, ended_by_user_id: i32, ended_at: &Timestamp) -> (out: Json)
    ensures
        out is Object,
        field(out, "ended_by_user_id"@) == Some(Json::Number(signed_json(ended_by_user_id as int))),
        field(out, "ended_at"@) matches Some(v) && text_of(v) == Some(rfc3339_writing(ended_at.parts())),
        match close_data {
            Some(x) => field(out, "close_data"@) == Some(x),
            None => field(out, "close_data"@) == base_field(current, "close_data"@),
        },
        forall|k: Seq<char>|
            k != "close_data"@ && k != "ended_by_user_id"@ && k != "ended_at"@ ==> #[trigger] field(out, k)
                == base_field(current, k),
        distinct_if_object(current) ==> distinct_object(out),
{
    proof {
        reveal_strlit("close_data");
        reveal_strlit("ended_by_user_id");
        reveal_strlit("ended_at");
    }
    let ghost old_current = current;
    let base = as_object(current);
    let with_close = match close_data {
        Some(extra) => with_field(base, "close_data", extra),
        None => base,
    };
    let with_user = with_field(
        with_close,
        "ended_by_user_id",
        Json::Number(signed_number(ended_by_user_id as i64)),
    );
    let out = with_field(with_user, "ended_at", Json::Str(rfc3339_text(ended_at)));
    assert("close_data"@.len() != "ended_by_user_id"@.len());
    assert("close_data"@.len() != "ended_at"@.len());
    assert("ended_by_user_id"@.len() != "ended_at"@.len());
    out
}

/// The data of a motion whose end time moved: the old data (wrapped under
/// `payload` when it is not an object) with `end_time_updated_by_user_id` and
/// `end_time_updated_to` set.
pub fn append_end_time_update_metadata(current: Json, updated_by_user_id: i32, new_end_time: &Timestamp) -> (out: Json)
    ensures
        out is Object,
        field(out, "end_time_updated_by_user_id"@) == Some(
            Json::Number(signed_json(updated_by_user_id as int)),
        ),
        field(out, "end_time_updated_to"@) matches Some(v) && text_of(v) == Some(
            rfc3339_writing(new_end_time.parts()),
        ),
        forall|k: Seq<char>|
            k != "end_time_updated_by_user_id"@ && k != "end_time_updated_to"@ ==> #[trigger] field(
                out,
                k,
            ) == base_field(current, k),
        distinct_if_object(current) ==> distinct_object(out),
{
    proof {
        reveal_strlit("end_time_updated_by_user_id");
        reveal_strlit("end_time_updated_to");
    }
    let base = as_object(current);
    let with_user = with_field(
        base,
        "end_time_updated_by_user_id",
        Json::Number(signed_number(updated_by_user_id as i64)),
    );
    let out = with_field(with_user, "end_time_updated_to", Json::Str(rfc3339_text(new_end_time)));
    assert("end_time_updated_by_user_id"@.len() != "end_time_updated_to"@.len());
    out
}

/// The row of a motion closed at `ended_at` by this request: the requested
/// status or the closed status, the end time set to `ended_at`, the closing
/// metadata added to its data, and all else as it was.
pub open spec fn closing_holds(
    record: EventRecord,
    req: CloseRequest,
    closed_status: Seq<char>,
    ended_at: (i64, u32, i32),
    out: EventRecord,
) -> bool {
    &&& out.id == record.id && out.event_type == record.event_type && out.name == record.name
        && out.start_time == record.start_time && out.created_by_user_id
        == record.created_by_user_id && out.organization_id == record.organization_id
    &&& out.status@ == match req.status {
        Some(s) => s@,
        None => closed_status,
    }
    &&& out.end_time matches Some(t) && t.parts() == ended_at
    &&& field(out.data, "ended_by_user_id"@) == Some(
        Json::Number(signed_json(req.ended_by_user_id as int)),
    )
    &&& field(out.data, "ended_at"@) matches Some(v) && text_of(v) == Some(rfc3339_writing(ended_at))
    &&& match req.close_data {
        Some(x) => field(out.data, "close_data"@) == Some(x),
        None => field(out.data, "close_data"@) == base_field(record.data, "close_data"@),
    }
    &&& forall|k: Seq<char>|
        k != "close_data"@ && k != "ended_by_user_id"@ && k != "ended_at"@ ==> #[trigger] field(
            out.data,
            k,
        ) == base_field(record.data, k)
    &&& distinct_if_object(record.data) ==> distinct_object(out.data)
}

/// The row of a closed motion: the requested status or the closed status, the
/// end time set to when it closed, and the closing metadata added to its data.
pub fn close_record(record: EventRecord, req: CloseRequest, statuses: &EventStatuses, ended_at: &Timestamp) -> (out: EventRecord)
    ensures
        closing_holds(record, req, statuses.closed_status@, ended_at.parts(), out),
{
    let next_status = match req.status {
        Some(s) => s,
        None => statuses.closed_status.clone(),
    };
    let data = append_metadata(record.data, req.close_data, req.ended_by_user_id, ended_at);
    EventRecord {
        id: record.id,
        event_type: record.event_type,
        name: record.name,
        status: next_status,
        start_time: record.start_time,
        end_time: Some(ended_at.copy()),
        data,
        created_by_user_id: record.created_by_user_id,
        organization_id: record.organization_id,
    }
}

/// The row of a motion whose end time moves: the new end time, which must be
/// readable and come after the start, and the metadata of the move added to
/// its data.
pub fn set_end_time_record(record: EventRecord, req: SetEndTimeRequest) -> (out: Result<EventRecord, ApiError>)
    ensures
        out matches Ok(r) ==> (r.end_time matches Some(t) && !not_after(
            t.parts(),
            r.start_time.parts(),
        )),
        match rfc3339_reading(req.end_time@) {
            None => out matches Err(e) && is_bad_request(e, timestamp_message()),
            Some(p) => if not_after(p, record.start_time.parts()) {
                out matches Err(e) && is_bad_request(e, "end_time must be later than start_time"@)
            } else {
                out matches Ok(r) && r.id == record.id && r.event_type == record.event_type
                    && r.name == record.name && r.status == record.status && r.start_time
                    == record.start_time && r.created_by_user_id == record.created_by_user_id
                    && r.organization_id == record.organization_id && (r.end_time matches Some(t)
                    && t.parts() == p) && field(r.data, "end_time_updated_by_user_id"@) == Some(
                    Json::Number(signed_json(req.updated_by_user_id as int)),
                ) && (field(r.data, "end_time_updated_to"@) matches Some(v) && text_of(v) == Some(
                    rfc3339_writing(p),
                )) && forall|k: Seq<char>|
                    k != "end_time_updated_by_user_id"@ && k != "end_time_updated_to"@
                        ==> #[trigger] field(r.data, k) == base_field(record.data, k)
                    && (distinct_if_object(record.data) ==> distinct_object(r.data))
            },
        },
{
    let next_end_time = parse_timestamp(req.end_time.as_str())?;
    if is_not_after(&next_end_time, &record.start_time) {
        return Err(ApiError::BadRequest("end_time must be later than start_time".to_owned()));
    }
    let data = append_end_time_update_metadata(record.data, req.updated_by_user_id, &next_end_time);
    Ok(
        EventRecord {
            id: record.id,
            event_type: record.event_type,
            name: record.name,
            status: record.status,
            start_time: record.start_time,
            end_time: Some(next_end_time),
            data,
            created_by_user_id: record.created_by_user_id,
            organization_id: record.organization_id,
        },
    )
}

/// Whether a motion's timer reads as expired at `now`: its end time has come,
/// or it carries the closed status.
pub open spec fn timer_expired(record: EventRecord, closed_status: Seq<char>, now: (i64, u32, i32)) -> bool {
    (record.end_time matches Some(t) && not_after(t.parts(), now)) || record.status@ == closed_status
}

/// Law: once a motion is closed at `ended_at`, its timer reads as expired at
/// every time from `ended_at` on; closed without a requested status, it reads
/// as expired at every time.
pub proof fn lemma_closed_motion_expired(
    record: EventRecord,
    req: CloseRequest,
    statuses: EventStatuses,
    ended_at: Timestamp,
    closed: EventRecord,
    now: (i64, u32, i32),
)
    requires
        closing_holds(record, req, statuses.closed_status@, ended_at.parts(), closed),
    ensures
        not_after(ended_at.parts(), now) ==> timer_expired(closed, statuses.closed_status@, now),
        req.status is None ==> timer_expired(closed, statuses.closed_status@, now),
{
}

/// A motion's timer at `now`: the seconds left until its end (never below
/// zero), and whether it has expired, by its end time having passed or by its
/// closed status.
pub fn timer_response(record: &EventRecord, statuses: &EventStatuses, now: &Timestamp) -> (out: TimerResponse)
    ensures
        out.record_id == record.id,
        out.status@ == record.status@,
        out.now@ == rfc3339_writing(now.parts()),
        match record.end_time {
            None => out.end_time is None && out.seconds_remaining is None,
            Some(t) => (out.end_time matches Some(s) && s@ == rfc3339_writing(t.parts()))
                && out.seconds_remaining == Some(
                if whole_seconds_between(t.parts(), now.parts()) > 0 {
                    whole_seconds_between(t.parts(), now.parts())
                } else {
                    0i64
                },
            ),
        },
        out.expired == timer_expired(*record, statuses.closed_status@, now.parts()),
{
    let seconds_remaining = match &record.end_time {
        Some(t) => {
            let s = seconds_between(t, now);
            Some(
                if s > 0 {
                    s
                } else {
                    0
                },
            )
        },
        None => None,
    };
    let expired_from_time = match &record.end_time {
        Some(t) => is_not_after(t, now),
        None => false,
    };
    let expired_from_status = record.status == statuses.closed_status;
    TimerResponse {
        record_id: record.id,
        status: record.status.clone(),
        now: rfc3339_text(now),
        end_time: match &record.end_time {
            Some(t) => Some(rfc3339_text(t)),
            None => None,
        },
        seconds_remaining,
        expired: expired_from_time || expired_from_status,
    }
}

} // verus!
