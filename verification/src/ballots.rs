//! Casting a ballot in a motion or an election, and tallying a motion.
//!
//! A handler alternates storage lookups with decisions; each decision here
//! takes the outcome of the lookup before it and yields either what the
//! handler does next or the reply that ends the request.
use vstd::prelude::*;
use vstd::string::*;
use crate::json::{Json, JsonNumber, field, text_of, distinct_keys, lemma_distinct_field};
use crate::results::{BallotView, EventType, UserRecord, VoteRecord, ballot_of, response_of, strings_in};
use crate::text::{lowercase, same_text, to_lowercase};
use crate::time::Timestamp;

verus! {

/// Outcome of a storage lookup: the row, no row, or a storage failure with
/// its message.
pub enum Lookup<T> {
    Found(T),
    Missing,
    Failed(String),
}

/// Whether an event takes ballots.
pub enum StatusOption {
    Active,
    Inactive,
}

/// A voting event as stored.
pub struct VotingEvent {
    pub id: i32,
    pub event_type: EventType,
    pub name: String,
    pub status: StatusOption,
    pub start_time: Timestamp,
    pub end_time: Option<Timestamp>,
    pub data: Json,
    pub created_by_user_id: i32,
    pub organization_id: i32,
}

/// A person allowed to vote in an event.
pub struct VoterRecord {
    pub id: i32,
    pub event_id: i32,
    pub voter_id: i32,
}

/// A ballot as submitted.
pub struct CastVoteRequest {
    pub vote_response: Vec<String>,
    pub proxy: bool,
}

/// The answer to a request: an HTTP status and a one-member JSON body,
/// `{"error": text}` or `{"message": text}`.
pub struct Reply {
    pub status: u16,
    pub is_error: bool,
    pub text: String,
}

/// A ballot to store: its event, the voter row it is cast under, whether it
/// is cast by proxy, and its data.
pub struct NewVote {
    pub event_id: i32,
    pub voter_id: i32,
    pub proxy: bool,
    pub data: Json,
}

/// The member `key` of a JSON value as `value[key]` reads it: the member, or
/// `null` when the value is not an object or lacks the member.
pub open spec fn member(value: Json, key: Seq<char>) -> Json {
    match field(value, key) {
        Some(v) => v,
        None => Json::Null,
    }
}

/// `value.as_str().unwrap_or("")`.
pub open spec fn text_or_empty(value: Json) -> Seq<char> {
    match value {
        Json::Str(s) => s@,
        _ => Seq::empty(),
    }
}

/// `value.as_bool().unwrap_or(false)`.
pub open spec fn flag_or_false(value: Json) -> bool {
    match value {
        Json::Bool(b) => b,
        _ => false,
    }
}

/// The strings of `value` when it is an array; nothing otherwise.
pub open spec fn option_texts(value: Json) -> Seq<Seq<char>> {
    match value {
        Json::Array(items) => crate::results::strings_in(items@),
        _ => Seq::empty(),
    }
}

/// The reply `status` with `{"error": text}`.
pub open spec fn error_reply(r: Reply, status: u16, text: Seq<char>) -> bool {
    r.status == status && r.is_error && r.text@ == text
}

/// A reply with `{"error": text}`.
pub fn error(status: u16, text: &str) -> (out: Reply)
    ensures
        error_reply(out, status, text@),
{
    Reply { status, is_error: true, text: text.to_owned() }
}

/// The vote type an event's data names, as the ballot rules read it.
pub open spec fn vote_type_of(e: VotingEvent) -> Seq<char> {
    text_or_empty(member(e.data, "vote_type"@))
}

/// The vote type of an event's data, or `""`.
fn vote_type_text(data: &Json) -> (out: String)
    ensures
        out@ == text_or_empty(member(*data, "vote_type"@)),
{
    match data.get("vote_type") {
        Some(v) => match v.as_text() {
            Some(s) => s.clone(),
            None => String::new(),
        },
        None => String::new(),
    }
}

/// First decision of casting a ballot, on the event lookup: a storage failure
/// answers 500, a missing event 404, and an event whose vote type is neither
/// `motion` nor `election` 400; otherwise the event goes on with its vote type.
pub fn cast_vote_event_step(event: Lookup<VotingEvent>) -> (out: Result<(VotingEvent, String), Reply>)
    ensures
        match event {
            Lookup::Failed(_) => out matches Err(r) && error_reply(r, 500, "Database error"@),
            Lookup::Missing => out matches Err(r) && error_reply(r, 404, "Event not found"@),
            Lookup::Found(e) => if vote_type_of(e) == "motion"@ || vote_type_of(e) == "election"@ {
                out matches Ok(p) && p.0 == e && p.1@ == vote_type_of(e)
            } else {
                out matches Err(r) && error_reply(r, 400, "Event is not a motion"@)
            },
        },
{
    match event {
        Lookup::Failed(_) => Err(error(500, "Database error")),
        Lookup::Missing => Err(error(404, "Event not found")),
        Lookup::Found(e) => {
            let vote_type = vote_type_text(&e.data);
            if !same_text(vote_type.as_str(), "motion") && !same_text(vote_type.as_str(), "election") {
                return Err(error(400, "Event is not a motion"));
            }
            Ok((e, vote_type))
        },
    }
}

/// The ballot data stored for a vote: exactly its vote type and the
/// responses.
pub open spec fn vote_data_holds(data: Json, vote_type: Seq<char>, responses: Seq<Seq<char>>) -> bool {
    &&& data matches Json::Object(m) && m@.len() == 2 && distinct_keys(m@)
    &&& text_of(member(data, "vote_type"@)) == Some(vote_type)
    &&& member(data, "vote_response"@) matches Json::Array(items) && items@.len() == responses.len()
        && forall|i: int| 0 <= i < responses.len() ==> text_of(#[trigger] items@[i]) == Some(responses[i])
}

/// The checks of a ballot once its voter is known, in order: the voter must be
/// registered, the event open, a proxy ballot allowed, the ballot non-empty,
/// and its first choice one of the event's options.
pub open spec fn ballot_problem(voter: Lookup<VoterRecord>, e: VotingEvent, body: CastVoteRequest) -> Option<(u16, Seq<char>)> {
    let responses = body.vote_response@;
    match voter {
        Lookup::Failed(_) => Some((500u16, "Database error"@)),
        Lookup::Missing => Some((403u16, "User is not eligible to vote in this event"@)),
        Lookup::Found(_) => if !(e.status is Active) {
            Some((400u16, "Event is not open"@))
        } else if body.proxy && !flag_or_false(member(e.data, "proxy"@)) {
            Some((400u16, "Proxy voting is not allowed for this event"@))
        } else if responses.len() == 0 {
            Some((400u16, "vote_response cannot be empty"@))
        } else if !option_texts(member(e.data, "vote_options"@)).contains(responses[0]@) {
            Some((400u16, "Invalid vote option"@))
        } else {
            None
        },
    }
}

/// Whether the event allows ballots cast by proxy.
pub open spec fn proxies_allowed(e: VotingEvent) -> bool {
    member(e.data, "proxy"@) == Json::Bool(true)
}

/// The options of the event, as texts.
pub open spec fn event_options(e: VotingEvent) -> Seq<Seq<char>> {
    option_texts(member(e.data, "vote_options"@))
}

/// A ballot that may be stored: a registered voter, an open event, a proxy
/// ballot only where proxies are allowed, and a non-empty ballot whose first
/// choice is one of the event's options.
pub open spec fn ballot_acceptable(voter: Lookup<VoterRecord>, e: VotingEvent, body: CastVoteRequest) -> bool {
    &&& voter is Found
    &&& e.status is Active
    &&& body.proxy ==> proxies_allowed(e)
    &&& body.vote_response@.len() > 0
    &&& event_options(e).contains(body.vote_response@[0]@)
}

/// Law: a ballot is refused exactly when it is not acceptable; in particular
/// a ballot cast in person is never refused for proxy reasons, and a proxy
/// refusal happens only to a proxy ballot in an event that allows none.
pub proof fn lemma_ballot_refused_iff_unacceptable(
    voter: Lookup<VoterRecord>,
    e: VotingEvent,
    body: CastVoteRequest,
)
    ensures
        ballot_problem(voter, e, body) is None <==> ballot_acceptable(voter, e, body),
        ballot_problem(voter, e, body) == Some((400u16, "Proxy voting is not allowed for this event"@))
            ==> body.proxy && !proxies_allowed(e),
        !body.proxy ==> ballot_problem(voter, e, body) != Some(
            (400u16, "Proxy voting is not allowed for this event"@),
        ),
{
    reveal_strlit("Proxy voting is not allowed for this event");
    reveal_strlit("vote_response cannot be empty");
    reveal_strlit("Invalid vote option");
    reveal_strlit("Event is not open");
    assert("Proxy voting is not allowed for this event"@.len() != "vote_response cannot be empty"@.len());
    assert("Proxy voting is not allowed for this event"@.len() != "Invalid vote option"@.len());
    assert("Proxy voting is not allowed for this event"@.len() != "Event is not open"@.len());
}

/// Second decision of casting a ballot, on the voter lookup: the first failing
/// check answers; otherwise the ballot to store: in the event, under the
/// voter's row, with the proxy flag as a column of its own.
pub fn cast_vote_voter_step(
    voter: Lookup<VoterRecord>,
    event: &VotingEvent,
    vote_type: &String,
    body: CastVoteRequest,
) -> (out: Result<NewVote, Reply>)
    ensures
        match ballot_problem(voter, *event, body) {
            Some((status, text)) => out matches Err(r) && error_reply(r, status, text),
            None => out matches Ok(v) && voter matches Lookup::Found(row) && v.voter_id == row.id
                && v.event_id == event.id && v.proxy == body.proxy && vote_data_holds(
                v.data,
                vote_type@,
                body.vote_response@.map_values(|s: String| s@),
            ),
        },
        out is Ok <==> ballot_acceptable(voter, *event, body),
        out matches Ok(v) ==> v.proxy == body.proxy,
{
    proof {
        lemma_ballot_refused_iff_unacceptable(voter, *event, body);
    }
    let row = match voter {
        Lookup::Failed(_) => return Err(error(500, "Database error")),
        Lookup::Missing => return Err(error(403, "User is not eligible to vote in this event")),
        Lookup::Found(row) => row,
    };
    match event.status {
        StatusOption::Active => {},
        StatusOption::Inactive => return Err(error(400, "Event is not open")),
    }
    let proxy_allowed = match event.data.get("proxy") {
        Some(v) => match v.as_flag() {
            Some(b) => b,
            None => false,
        },
        None => false,
    };
    if body.proxy && !proxy_allowed {
        return Err(error(400, "Proxy voting is not allowed for this event"));
    }
    if body.vote_response.len() == 0 {
        return Err(error(400, "vote_response cannot be empty"));
    }
    let options = match event.data.get("vote_options") {
        Some(v) => match v.as_list() {
            Some(items) => crate::results::strings_of(items),
            None => Vec::new(),
        },
        None => Vec::new(),
    };
    let ghost option_views = options@.map_values(|s: String| s@);
    let mut found = false;
    let mut i: usize = 0;
    while i < options.len()
        invariant
            option_views == options@.map_values(|s: String| s@),
            body.vote_response@.len() > 0,
            i <= options.len(),
            found == exists|j: int| 0 <= j < i && option_views[j] == body.vote_response@[0]@,
        decreases options.len() - i,
    {
        let same = same_text(options[i].as_str(), body.vote_response[0].as_str());
        assert(option_views[i as int] == options@[i as int]@);
        if same {
            found = true;
        }
        proof {
            if same {
                assert(option_views[i as int] == body.vote_response@[0]@);
            } else {
                assert forall|j: int| 0 <= j < i + 1 && option_views[j] == body.vote_response@[0]@ implies j < i by {}
            }
        }
        i = i + 1;
    }
    proof {
        if found {
            let j = choose|j: int| 0 <= j < options.len() && option_views[j] == body.vote_response@[0]@;
            assert(option_views.contains(body.vote_response@[0]@)) by {
                assert(option_views[j] == body.vote_response@[0]@);
            }
        } else {
            if option_views.contains(body.vote_response@[0]@) {
                let j = choose|j: int| 0 <= j < option_views.len() && option_views[j] == body.vote_response@[0]@;
                assert(false);
            }
        }
    }
    if !found {
        return Err(error(400, "Invalid vote option"));
    }
    let responses = body.vote_response;
    let ghost response_views = responses@.map_values(|s: String| s@);
    let mut items: Vec<Json> = Vec::new();
    for idx in 0..responses.len()
        invariant
            response_views == responses@.map_values(|s: String| s@),
            items@.len() == idx,
            forall|j: int| 0 <= j < idx ==> text_of(#[trigger] items@[j]) == Some(response_views[j]),
    {
        items.push(Json::Str(responses[idx].clone()));
    }
    proof {
        reveal_strlit("vote_type");
        reveal_strlit("vote_response");
    }
    let mut members: Vec<(String, Json)> = Vec::new();
    members.push(("vote_type".to_owned(), Json::Str(vote_type.clone())));
    members.push(("vote_response".to_owned(), Json::Array(items)));
    assert(distinct_keys(members@)) by {
        assert(members@[0].0@.len() != members@[1].0@.len());
    }
    proof {
        lemma_distinct_field(members, 0);
        lemma_distinct_field(members, 1);
    }
    Ok(
        NewVote {
            event_id: event.id,
            voter_id: row.id,
            proxy: body.proxy,
            data: Json::Object(members),
        },
    )
}

/// Last decision of casting a ballot, on storing it.
pub fn cast_vote_insert_step(stored: bool) -> (out: Reply)
    ensures
        stored ==> out.status == 201 && !out.is_error && out.text@ == "Vote cast successfully"@,
        !stored ==> error_reply(out, 500, "Failed to cast vote"@),
{
    if stored {
        Reply { status: 201, is_error: false, text: "Vote cast successfully".to_owned() }
    } else {
        error(500, "Failed to cast vote")
    }
}

/// The reply to a failed storage operation.
pub fn database_error() -> (out: Reply)
    ensures
        error_reply(out, 500, "Database error"@),
{
    error(500, "Database error")
}

/// Who sees a motion's participants, as the results rule reads it.
pub open spec fn participants_of(e: VotingEvent) -> Seq<char> {
    text_or_empty(member(member(e.data, "visibility"@), "participants"@))
}

/// First decision of reading a motion's results, on the event lookup: a
/// storage failure answers 500, a missing event 404, an event that is not a
/// motion 400, and results hidden until release of an event not yet closed
/// 403; otherwise the event goes on.
pub fn motion_results_event_step(event: Lookup<VotingEvent>) -> (out: Result<VotingEvent, Reply>)
    ensures
        match event {
            Lookup::Failed(_) => out matches Err(r) && error_reply(r, 500, "Database error"@),
            Lookup::Missing => out matches Err(r) && error_reply(r, 404, "Event not found"@),
            Lookup::Found(e) => if vote_type_of(e) != "motion"@ {
                out matches Err(r) && error_reply(r, 400, "Event is not a motion"@)
            } else if participants_of(e) == "hidden_until_release"@ && !(e.status is Inactive) {
                out matches Err(r) && error_reply(r, 403, "Results are not yet available"@)
            } else {
                out == Ok::<VotingEvent, Reply>(e)
            },
        },
{
    let e = match event {
        Lookup::Failed(_) => return Err(error(500, "Database error")),
        Lookup::Missing => return Err(error(404, "Event not found")),
        Lookup::Found(e) => e,
    };
    let vote_type = vote_type_text(&e.data);
    if !same_text(vote_type.as_str(), "motion") {
        return Err(error(400, "Event is not a motion"));
    }
    let participants = match e.data.get("visibility") {
        Some(v) => match v.get("participants") {
            Some(p) => match p.as_text() {
                Some(s) => s.clone(),
                None => String::new(),
            },
            None => String::new(),
        },
        None => String::new(),
    };
    let hidden = same_text(participants.as_str(), "hidden_until_release");
    match e.status {
        StatusOption::Inactive => {},
        StatusOption::Active => {
            if hidden {
                return Err(error(403, "Results are not yet available"));
            }
        },
    }
    Ok(e)
}

/// Items that are all strings: the strings among them are all of them.
proof fn lemma_all_strings(items: Seq<Json>, texts: Seq<Seq<char>>)
    requires
        items.len() == texts.len(),
        forall|i: int| 0 <= i < texts.len() ==> text_of(#[trigger] items[i]) == Some(texts[i]),
    ensures
        strings_in(items) == texts,
    decreases items.len(),
{
    if items.len() == 0 {
        assert(texts =~= Seq::<Seq<char>>::empty());
    } else {
        let n = items.len() - 1;
        assert forall|i: int| 0 <= i < texts.drop_last().len() implies text_of(
            #[trigger] items.drop_last()[i],
        ) == Some(texts.drop_last()[i]) by {
            assert(items.drop_last()[i] == items[i]);
            assert(text_of(items[i]) == Some(texts[i]));
        }
        lemma_all_strings(items.drop_last(), texts.drop_last());
        assert(text_of(items[n]) == Some(texts[n]));
        assert(texts.drop_last().push(texts[n]) =~= texts);
    }
}

/// Law: a ballot stored by casting a vote reads back, for its voter, as the
/// responses cast, and the motion tally reads its first response as the
/// first choice cast.
pub proof fn lemma_cast_ballot_reads_back(
    vote: VoteRecord,
    user: UserRecord,
    vote_type: Seq<char>,
    responses: Seq<Seq<char>>,
)
    requires
        vote_data_holds(vote.data, vote_type, responses),
    ensures
        ballot_of((vote, Some(user))) == Some::<BallotView>(
            (user.id, user.name@, vote.cast_time.parts(), responses),
        ),
        responses.len() > 0 ==> first_response(vote.data) == responses[0],
{
    let items = member(vote.data, "vote_response"@)->Array_0;
    assert(field(vote.data, "vote_response"@) == Some(Json::Array(items)));
    lemma_all_strings(items@, responses);
    assert(response_of(vote.data) == Some(responses));
    if responses.len() > 0 {
        assert(text_of(items@[0]) == Some(responses[0]));
    }
}

/// A recorded choice on a motion.
pub enum MotionChoice {
    Pass,
    Reject,
    Abstain,
}

/// The first response of a vote's data, or `""`.
pub open spec fn first_response(data: Json) -> Seq<char> {
    match field(data, "vote_response"@) {
        Some(Json::Array(items)) => if items@.len() > 0 {
            text_or_empty(items@[0])
        } else {
            Seq::empty()
        },
        _ => Seq::empty(),
    }
}

/// The choice a vote records: its first response in lower case, when that is
/// `pass`, `reject` or `abstain`.
pub open spec fn choice_of(vote: VoteRecord) -> Option<MotionChoice> {
    let r = lowercase(first_response(vote.data));
    if r == "pass"@ {
        Some(MotionChoice::Pass)
    } else if r == "reject"@ {
        Some(MotionChoice::Reject)
    } else if r == "abstain"@ {
        Some(MotionChoice::Abstain)
    } else {
        None
    }
}

/// How many votes record the choice.
pub open spec fn choice_count(votes: Seq<VoteRecord>, c: MotionChoice) -> nat
    decreases votes.len(),
{
    if votes.len() == 0 {
        0
    } else {
        choice_count(votes.drop_last(), c) + if choice_of(votes.last()) == Some(c) {
            1nat
        } else {
            0nat
        }
    }
}

/// Every vote records a recognised choice.
pub open spec fn all_recognised(votes: Seq<VoteRecord>) -> bool {
    forall|i: int| 0 <= i < votes.len() ==> (#[trigger] choice_of(votes[i])) is Some
}

/// The counts of a motion's choices.
pub struct MotionTally {
    pub pass: u32,
    pub reject: u32,
    pub abstain: u32,
    pub total: u32,
}

pub proof fn lemma_choice_counts_sum(votes: Seq<VoteRecord>)
    requires
        all_recognised(votes),
    ensures
        choice_count(votes, MotionChoice::Pass) + choice_count(votes, MotionChoice::Reject)
            + choice_count(votes, MotionChoice::Abstain) == votes.len(),
    decreases votes.len(),
{
    if votes.len() > 0 {
        assert(choice_of(votes[votes.len() - 1]) is Some);
        assert forall|i: int| 0 <= i < votes.drop_last().len() implies (#[trigger] choice_of(
            votes.drop_last()[i],
        )) is Some by {
            assert(votes.drop_last()[i] == votes[i]);
        }
        lemma_choice_counts_sum(votes.drop_last());
    }
}

/// The choice of a vote, if recognised.
fn vote_choice(vote: &VoteRecord) -> (out: Option<MotionChoice>)
    ensures
        out == choice_of(*vote),
{
    let first = match vote.data.get("vote_response") {
        Some(v) => match v.as_list() {
            Some(items) => if items.len() > 0 {
                match items[0].as_text() {
                    Some(s) => s.clone(),
                    None => String::new(),
                }
            } else {
                String::new()
            },
            None => String::new(),
        },
        None => String::new(),
    };
    let lower = to_lowercase(first.as_str());
    if same_text(lower.as_str(), "pass") {
        Some(MotionChoice::Pass)
    } else if same_text(lower.as_str(), "reject") {
        Some(MotionChoice::Reject)
    } else if same_text(lower.as_str(), "abstain") {
        Some(MotionChoice::Abstain)
    } else {
        None
    }
}

/// Tallies a motion's votes by their first response, in lower case. A vote
/// with any other first response answers 500.
pub fn tally_motion(votes: &Vec<VoteRecord>) -> (out: Result<MotionTally, Reply>)
    requires
        votes@.len() <= u32::MAX,
    ensures
        all_recognised(votes@) ==> (out matches Ok(t) && t.pass == choice_count(
            votes@,
            MotionChoice::Pass,
        ) && t.reject == choice_count(votes@, MotionChoice::Reject) && t.abstain == choice_count(
            votes@,
            MotionChoice::Abstain,
        ) && t.total == votes@.len()),
        !all_recognised(votes@) ==> (out matches Err(r) && error_reply(
            r,
            500,
            "Unrecognized vote option in database"@,
        )),
{
    let mut pass: u32 = 0;
    let mut reject: u32 = 0;
    let mut abstain: u32 = 0;
    let mut i: usize = 0;
    while i < votes.len()
        invariant
            votes@.len() <= u32::MAX,
            i <= votes.len(),
            all_recognised(votes@.take(i as int)),
            pass == choice_count(votes@.take(i as int), MotionChoice::Pass),
            reject == choice_count(votes@.take(i as int), MotionChoice::Reject),
            abstain == choice_count(votes@.take(i as int), MotionChoice::Abstain),
        decreases votes.len() - i,
    {
        proof {
            lemma_choice_counts_sum(votes@.take(i as int));
            assert(votes@.take(i + 1).drop_last() =~= votes@.take(i as int));
            assert(votes@.take(i + 1).last() == votes@[i as int]);
        }
        match vote_choice(&votes[i]) {
            Some(MotionChoice::Pass) => pass = pass + 1,
            Some(MotionChoice::Reject) => reject = reject + 1,
            Some(MotionChoice::Abstain) => abstain = abstain + 1,
            None => {
                assert(!all_recognised(votes@)) by {
                    assert(choice_of(votes@[i as int]) is None);
                }
                return Err(error(500, "Unrecognized vote option in database"));
            },
        }
        proof {
            assert forall|j: int| 0 <= j < i + 1 implies (#[trigger] choice_of(
                votes@.take(i + 1)[j],
            )) is Some by {
                if j < i {
                    assert(votes@.take(i + 1)[j] == votes@.take(i as int)[j]);
                }
            }
        }
        i = i + 1;
    }
    proof {
        assert(votes@.take(votes.len() as int) =~= votes@);
        lemma_choice_counts_sum(votes@);
    }
    Ok(MotionTally { pass, reject, abstain, total: pass + reject + abstain })
}

/// The number stored as a motion's threshold, if its data holds one.
pub fn threshold_number(e: &VotingEvent) -> (out: Option<JsonNumber>)
    ensures
        match member(e.data, "threshold"@) {
            Json::Number(n) => out == Some(n),
            _ => out is None,
        },
{
    match e.data.get("threshold") {
        Some(Json::Number(n)) => Some(match n {
            JsonNumber::PosInt(v) => JsonNumber::PosInt(*v),
            JsonNumber::NegInt(v) => JsonNumber::NegInt(*v),
            JsonNumber::FloatBits(v) => JsonNumber::FloatBits(*v),
        }),
        _ => None,
    }
}

} // verus!
