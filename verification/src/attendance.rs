//! Attendance: joining an active event by its session code.
use vstd::prelude::*;
use vstd::string::*;
use crate::ballots::Lookup;
use crate::json::{Json, field};
use crate::motions::EventRecord;
use crate::text::{same_text, signed_decimal, signed_decimal_text};

verus! {

/// Whether an event's data holds the session code.
pub open spec fn has_session_code(e: EventRecord, code: Seq<char>) -> bool {
    field(e.data, "session_code"@) matches Some(Json::Str(s)) && s@ == code
}

/// Position of the first event whose data holds the session code.
pub open spec fn first_with_code(events: Seq<EventRecord>, code: Seq<char>) -> Option<int>
    decreases events.len(),
{
    if events.len() == 0 {
        None
    } else {
        match first_with_code(events.drop_last(), code) {
            Some(i) => Some(i),
            None => if has_session_code(events.last(), code) {
                Some(events.len() - 1)
            } else {
                None
            },
        }
    }
}

pub proof fn lemma_first_with_code(events: Seq<EventRecord>, code: Seq<char>, i: int)
    requires
        0 <= i <= events.len(),
        forall|j: int| 0 <= j < i ==> !has_session_code(#[trigger] events[j], code),
    ensures
        i < events.len() && has_session_code(events[i], code) ==> first_with_code(events, code)
            == Some(i),
        i == events.len() ==> first_with_code(events, code) is None,
    decreases events.len(),
{
    if events.len() > 0 {
        if i < events.len() {
            if i < events.len() - 1 {
                lemma_first_with_code(events.drop_last(), code, i);
            } else {
                assert forall|j: int| 0 <= j < events.len() - 1 implies !has_session_code(
                    #[trigger] events.drop_last()[j],
                    code,
                ) by {
                    assert(events.drop_last()[j] == events[j]);
                }
                lemma_first_with_code(events.drop_last(), code, i);
            }
        } else {
            assert forall|j: int| 0 <= j < events.len() - 1 implies !has_session_code(
                #[trigger] events.drop_last()[j],
                code,
            ) by {
                assert(events.drop_last()[j] == events[j]);
            }
            lemma_first_with_code(events.drop_last(), code, i - 1);
        }
    }
}

/// Position of the first event whose data holds the session code.
pub fn position_of_session_code(events: &Vec<EventRecord>, session_code: &str) -> (out: Option<usize>)
    ensures
        match first_with_code(events@, session_code@) {
            Some(i) => out == Some(i as usize) && i < events@.len(),
            None => out is None,
        },
{
    let mut i: usize = 0;
    while i < events.len()
        invariant
            i <= events.len(),
            forall|j: int| 0 <= j < i ==> !has_session_code(#[trigger] events@[j], session_code@),
        decreases events.len() - i,
    {
        let hit = match events[i].data.get("session_code") {
            Some(v) => match v.as_text() {
                Some(code) => same_text(code.as_str(), session_code),
                None => false,
            },
            None => false,
        };
        assert(hit == has_session_code(events@[i as int], session_code@));
        if hit {
            proof {
                lemma_first_with_code(events@, session_code@, i as int);
            }
            return Some(i);
        }
        i = i + 1;
    }
    proof {
        lemma_first_with_code(events@, session_code@, i as int);
    }
    None
}

/// `No active event for session code '{code}'`.
pub open spec fn no_event_message(code: Seq<char>) -> Seq<char> {
    "No active event for session code '"@ + code + "'"@
}

/// `User {id} is not a member of this organization`.
pub open spec fn not_member_message(user_id: i32) -> Seq<char> {
    "User "@ + signed_decimal_text(user_id as int) + " is not a member of this organization"@
}

/// Joining by session code, on the event lookup: a storage failure answers
/// 500 with its message, no active event with the code 404.
pub fn join_event_step(lookup: Lookup<EventRecord>, session_code: &str) -> (out: Result<EventRecord, (u16, String)>)
    ensures
        match lookup {
            Lookup::Found(e) => out == Ok::<EventRecord, (u16, String)>(e),
            Lookup::Missing => out matches Err(r) && r.0 == 404 && r.1@ == no_event_message(session_code@),
            Lookup::Failed(m) => out matches Err(r) && r.0 == 500 && r.1@ == m@,
        },
{
    match lookup {
        Lookup::Found(e) => Ok(e),
        Lookup::Missing => {
            let mut m = "No active event for session code '".to_owned();
            m.append(session_code);
            m.append("'");
            Err((404, m))
        },
        Lookup::Failed(m) => Err((500, m)),
    }
}

/// Joining by session code, on the membership lookup: a storage failure
/// answers 500 with its message, a user outside the event's organization 403.
pub fn join_member_step<M>(lookup: Lookup<M>, user_id: i32) -> (out: Result<M, (u16, String)>)
    ensures
        match lookup {
            Lookup::Found(m) => out == Ok::<M, (u16, String)>(m),
            Lookup::Missing => out matches Err(r) && r.0 == 403 && r.1@ == not_member_message(user_id),
            Lookup::Failed(m) => out matches Err(r) && r.0 == 500 && r.1@ == m@,
        },
{
    match lookup {
        Lookup::Found(m) => Ok(m),
        Lookup::Missing => {
            let mut text = "User ".to_owned();
            text.append(signed_decimal(user_id as i64).as_str());
            text.append(" is not a member of this organization");
            Err((403, text))
        },
        Lookup::Failed(m) => Err((500, m)),
    }
}

} // verus!
