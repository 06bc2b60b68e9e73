//! The audit log: what was done, to which row, by whom, with the state before
//! and after; kept in memory under ids handed out in turn.
use vstd::prelude::*;
use vstd::string::*;
use crate::json::Json;
use crate::text::{blank, is_blank, same_text};
use crate::time::{Timestamp, rfc3339_text, rfc3339_writing};

verus! {

/// Why a log request fails.
pub enum ApiError {
    BadRequest(String),
    NotFound(String),
    Internal(String),
}

impl ApiError {
    /// The HTTP status of the failure.
    pub fn status_code(&self) -> (out: u16)
        ensures
            out == match *self {
                ApiError::BadRequest(_) => 400u16,
                ApiError::NotFound(_) => 404u16,
                ApiError::Internal(_) => 500u16,
            },
    {
        match self {
            ApiError::BadRequest(_) => 400,
            ApiError::NotFound(_) => 404,
            ApiError::Internal(_) => 500,
        }
    }

    /// The text of the `error` member of the reply body.
    pub fn message(&self) -> (out: String)
        ensures
            out@ == match *self {
                ApiError::BadRequest(m) => m@,
                ApiError::NotFound(m) => m@,
                ApiError::Internal(m) => m@,
            },
    {
        match self {
            ApiError::BadRequest(m) => m.clone(),
            ApiError::NotFound(m) => m.clone(),
            ApiError::Internal(m) => m.clone(),
        }
    }
}

/// The row an action touched.
pub struct Target {
    pub table: String,
    pub id: i32,
}

/// Who acted: a user in a role, or the system (written as the string
/// `"system"`).
pub enum Actor {
    User { user_id: i32, role: String },
    System(String),
}

/// The state before and after an action.
pub struct Changes {
    pub before: Json,
    pub after: Json,
}

/// One audit entry.
pub struct LogData {
    pub action: String,
    pub target: Target,
    pub actor: Actor,
    pub event_id: i32,
    pub changes: Changes,
}

/// A request to record an entry.
pub struct CreateRequest {
    pub data: LogData,
}

/// A request naming an entry.
pub struct IdQuery {
    pub id: i32,
}

/// An entry as answered.
pub struct RecordResponse<'a> {
    pub id: i32,
    pub created_at: String,
    pub data: &'a LogData,
}

/// The answer to a removal.
pub struct DeleteResponse {
    pub id: i32,
    pub deleted: bool,
}

/// An entry as kept: its id, when it was recorded, and its content.
pub struct StoredRecord {
    pub id: i32,
    pub created_at: Timestamp,
    pub data: LogData,
}

/// The first failing check of an entry, in order: an action, a target table,
/// a user actor's role, none of them blank; a string actor must be `system`.
pub open spec fn log_data_problem(d: LogData) -> Option<Seq<char>> {
    if blank(d.action@) {
        Some("log.data.action cannot be empty"@)
    } else if blank(d.target.table@) {
        Some("log.data.target.table cannot be empty"@)
    } else {
        match d.actor {
            Actor::User { role, .. } => if blank(role@) {
                Some("log.data.actor.role cannot be empty"@)
            } else {
                None
            },
            Actor::System(v) => if v@ != "system"@ {
                Some("log.data.actor string must be \"system\""@)
            } else {
                None
            },
        }
    }
}

/// Checks an entry before it is recorded.
/// A log entry that may be recorded: an action, a target table, and an actor
/// that is a user with a role or the system itself.
pub open spec fn log_data_valid(d: LogData) -> bool {
    &&& !blank(d.action@)
    &&& !blank(d.target.table@)
    &&& match d.actor {
        Actor::User { role, .. } => !blank(role@),
        Actor::System(v) => v@ == "system"@,
    }
}

/// Law: a log entry is refused exactly when it is not valid.
pub proof fn lemma_log_problem_iff_invalid(d: LogData)
    ensures
        log_data_problem(d) is None <==> log_data_valid(d),
{
}

pub fn validate_data(data: &LogData) -> (out: Result<(), ApiError>)
    ensures
        match log_data_problem(*data) {
            None => out is Ok,
            Some(m) => out matches Err(e) && e matches ApiError::BadRequest(s) && s@ == m,
        },
        out is Ok <==> log_data_valid(*data),
{
    proof {
        lemma_log_problem_iff_invalid(*data);
    }
    if is_blank(data.action.as_str()) {
        return Err(ApiError::BadRequest("log.data.action cannot be empty".to_owned()));
    }
    if is_blank(data.target.table.as_str()) {
        return Err(ApiError::BadRequest("log.data.target.table cannot be empty".to_owned()));
    }
    match &data.actor {
        Actor::User { role, .. } => {
            if is_blank(role.as_str()) {
                return Err(ApiError::BadRequest("log.data.actor.role cannot be empty".to_owned()));
            }
        },
        Actor::System(value) => {
            if !same_text(value.as_str(), "system") {
                return Err(
                    ApiError::BadRequest("log.data.actor string must be \"system\"".to_owned()),
                );
            }
        },
    }
    Ok(())
}

/// The entries whose id is not `id`, in order.
pub open spec fn without_id(records: Seq<StoredRecord>, id: i32) -> Seq<StoredRecord>
    decreases records.len(),
{
    if records.len() == 0 {
        seq![]
    } else {
        let rest = without_id(records.drop_last(), id);
        if records.last().id == id {
            rest
        } else {
            rest.push(records.last())
        }
    }
}

/// Position of the first entry with id `id`.
pub open spec fn first_with_id(records: Seq<StoredRecord>, id: i32) -> Option<int>
    decreases records.len(),
{
    if records.len() == 0 {
        None
    } else {
        match first_with_id(records.drop_last(), id) {
            Some(i) => Some(i),
            None => if records.last().id == id {
                Some(records.len() - 1)
            } else {
                None
            },
        }
    }
}

/// The next id handed out after `id`: one more, wrapping past the largest
/// 32-bit integer.
pub open spec fn following_id(id: i32) -> i32 {
    if id == i32::MAX {
        i32::MIN
    } else {
        (id + 1) as i32
    }
}

/// The audit log kept in memory: its entries in the order recorded, and the
/// next id to hand out.
pub struct LogStore {
    records: Vec<StoredRecord>,
    next_id: i32,
}

impl LogStore {
    /// The entries, in the order recorded.
    pub closed spec fn entries(self) -> Seq<StoredRecord> {
        self.records@
    }

    /// The next id to hand out.
    pub closed spec fn upcoming_id(self) -> i32 {
        self.next_id
    }

    /// Every entry holds an id handed out before the next one, ids count up
    /// from one and have not wrapped.
    pub open spec fn fresh(self) -> bool {
        &&& 1 <= self.upcoming_id()
        &&& forall|i: int|
            0 <= i < self.entries().len() ==> 1 <= #[trigger] self.entries()[i].id < self.upcoming_id()
    }

    /// An empty log whose first id is one.
    pub fn new() -> (out: LogStore)
        ensures
            out.entries().len() == 0,
            out.upcoming_id() == 1,
            out.fresh(),
    {
        LogStore { records: Vec::new(), next_id: 1 }
    }

    /// Hands out the next id.
    pub fn allocate_id(&mut self) -> (out: i32)
        ensures
            out == old(self).upcoming_id(),
            final(self).upcoming_id() == following_id(old(self).upcoming_id()),
            final(self).entries() == old(self).entries(),
    {
        let id = self.next_id;
        self.next_id = if id == i32::MAX {
            i32::MIN
        } else {
            id + 1
        };
        id
    }

    /// Records an entry at `created_at`: a failing check leaves the log as it
    /// was; otherwise the entry is appended under the next id, which is
    /// answered.
    pub fn create(&mut self, data: LogData, created_at: Timestamp) -> (out: Result<i32, ApiError>)
        ensures
            match log_data_problem(data) {
                Some(m) => out matches Err(e) && e matches ApiError::BadRequest(s) && s@ == m
                    && final(self).entries() == old(self).entries() && final(self).upcoming_id()
                    == old(self).upcoming_id(),
                None => out == Ok::<i32, ApiError>(old(self).upcoming_id()) && final(self).entries()
                    == old(self).entries().push(
                    StoredRecord { id: old(self).upcoming_id(), created_at, data },
                ) && final(self).upcoming_id() == following_id(old(self).upcoming_id()),
            },
            out is Ok <==> log_data_valid(data),
    {
        proof {
            lemma_log_problem_iff_invalid(data);
        }
        validate_data(&data)?;
        let id = self.allocate_id();
        self.records.push(StoredRecord { id, created_at, data });
        Ok(id)
    }

    /// The first entry with the id, as answered; none is not found.
    pub fn get_by_id(&self, id: i32) -> (out: Result<RecordResponse<'_>, ApiError>)
        ensures
            match first_with_id(self.entries(), id) {
                Some(i) => out matches Ok(r) && r.id == id && *r.data == self.entries()[i].data
                    && r.created_at@ == rfc3339_writing(self.entries()[i].created_at.parts()),
                None => out matches Err(e) && e matches ApiError::NotFound(s) && s@
                    == "log record not found"@,
            },
    {
        let mut i: usize = 0;
        while i < self.records.len()
            invariant
                i <= self.records.len(),
                forall|j: int| 0 <= j < i ==> self.records@[j].id != id,
            decreases self.records.len() - i,
        {
            if self.records[i].id == id {
                proof {
                    lemma_first_with_id(self.records@, id, i as int);
                }
                let record = &self.records[i];
                return Ok(
                    RecordResponse {
                        id: record.id,
                        created_at: rfc3339_text(&record.created_at),
                        data: &record.data,
                    },
                );
            }
            i = i + 1;
        }
        proof {
            lemma_no_id(self.records@, id);
        }
        Err(ApiError::NotFound("log record not found".to_owned()))
    }

    /// Every entry as answered, in the order recorded.
    pub fn list(&self) -> (out: Vec<RecordResponse<'_>>)
        ensures
            out@.len() == self.entries().len(),
            forall|i: int|
                0 <= i < out@.len() ==> (#[trigger] out@[i]).id == self.entries()[i].id
                    && *out@[i].data == self.entries()[i].data && out@[i].created_at@
                    == rfc3339_writing(self.entries()[i].created_at.parts()),
    {
        let mut out: Vec<RecordResponse<'_>> = Vec::new();
        let mut i: usize = 0;
        while i < self.records.len()
            invariant
                i <= self.records.len(),
                out@.len() == i,
                forall|j: int|
                    0 <= j < i ==> (#[trigger] out@[j]).id == self.records@[j].id && *out@[j].data
                        == self.records@[j].data && out@[j].created_at@ == rfc3339_writing(
                        self.records@[j].created_at.parts(),
                    ),
            decreases self.records.len() - i,
        {
            let record = &self.records[i];
            out.push(
                RecordResponse {
                    id: record.id,
                    created_at: rfc3339_text(&record.created_at),
                    data: &record.data,
                },
            );
            i = i + 1;
        }
        out
    }

    /// Removes every entry with the id; when there is none, the log stays as
    /// it was and the id is not found.
    pub fn remove(&mut self, id: i32) -> (out: Result<DeleteResponse, ApiError>)
        ensures
            final(self).upcoming_id() == old(self).upcoming_id(),
            final(self).entries() == without_id(old(self).entries(), id),
            first_with_id(old(self).entries(), id) is Some ==> (out matches Ok(r) && r.id == id
                && r.deleted),
            first_with_id(old(self).entries(), id) is None ==> (out matches Err(e)
                && e matches ApiError::NotFound(s) && s@ == "log record not found"@),
    {
        let ghost before = self.records@;
        let before_len = self.records.len();
        let mut i: usize = 0;
        let mut k: usize = 0;
        while i < self.records.len()
            invariant
                before == old(self).records@,
                self.next_id == old(self).next_id,
                before_len == before.len(),
                k <= before_len,
                i == without_id(before.take(k as int), id).len(),
                self.records@ == without_id(before.take(k as int), id) + before.skip(k as int),
            decreases self.records.len() - i,
        {
            proof {
                lemma_without_id_len(before.take(k as int), id);
                assert(self.records@[i as int] == before[k as int]);
                assert(before.take(k + 1).drop_last() =~= before.take(k as int));
                assert(before.take(k + 1).last() == before[k as int]);
            }
            if self.records[i].id == id {
                self.records.remove(i);
                assert(self.records@ =~= without_id(before.take(k + 1), id) + before.skip(k + 1));
            } else {
                assert(without_id(before.take(k + 1), id) == without_id(before.take(k as int), id).push(
                    before[k as int],
                ));
                assert(self.records@ =~= without_id(before.take(k + 1), id) + before.skip(k + 1));
                i = i + 1;
            }
            k = k + 1;
        }
        proof {
            lemma_without_id_len(before.take(k as int), id);
            assert(before.take(k as int) =~= before);
            assert(self.records@ =~= without_id(before, id));
            lemma_without_id_none(before, id);
        }
        if self.records.len() == before_len {
            return Err(ApiError::NotFound("log record not found".to_owned()));
        }
        Ok(DeleteResponse { id, deleted: true })
    }
}

/// Law: on a new store, the k-th id handed out is k, as long as fewer than
/// `i32::MAX` ids have been handed out. `stores` are the store before each
/// call and after the last, `ids` what each call returned, each call as
/// `allocate_id` (or a successful `create`) states it.
pub proof fn lemma_ids_count_up(stores: Seq<LogStore>, ids: Seq<i32>)
    requires
        stores.len() == ids.len() + 1,
        stores[0].upcoming_id() == 1,
        forall|k: int|
            0 <= k < ids.len() ==> #[trigger] ids[k] == stores[k].upcoming_id() && stores[k
                + 1].upcoming_id() == following_id(stores[k].upcoming_id()),
        ids.len() < i32::MAX,
    ensures
        forall|k: int| 0 <= k < ids.len() ==> #[trigger] ids[k] == k + 1,
{
    assert forall|k: int| 0 <= k < ids.len() implies #[trigger] ids[k] == k + 1 by {
        lemma_upcoming_after(stores, ids, k);
    }
}

proof fn lemma_upcoming_after(stores: Seq<LogStore>, ids: Seq<i32>, k: int)
    requires
        stores.len() == ids.len() + 1,
        stores[0].upcoming_id() == 1,
        forall|j: int|
            0 <= j < ids.len() ==> #[trigger] ids[j] == stores[j].upcoming_id() && stores[j
                + 1].upcoming_id() == following_id(stores[j].upcoming_id()),
        ids.len() < i32::MAX,
        0 <= k <= ids.len(),
    ensures
        stores[k].upcoming_id() == k + 1,
    decreases k,
{
    if k > 0 {
        lemma_upcoming_after(stores, ids, k - 1);
        assert(ids[k - 1] == stores[k - 1].upcoming_id());
    }
}

pub proof fn lemma_without_id_len(records: Seq<StoredRecord>, id: i32)
    ensures
        without_id(records, id).len() <= records.len(),
    decreases records.len(),
{
    if records.len() > 0 {
        lemma_without_id_len(records.drop_last(), id);
    }
}

/// Removing an id that occurs shortens the log; one that does not occur
/// leaves it as it is.
pub proof fn lemma_without_id_none(records: Seq<StoredRecord>, id: i32)
    ensures
        first_with_id(records, id) is None ==> without_id(records, id) == records,
        first_with_id(records, id) is Some ==> without_id(records, id).len() < records.len(),
    decreases records.len(),
{
    if records.len() > 0 {
        lemma_without_id_none(records.drop_last(), id);
        lemma_without_id_len(records.drop_last(), id);
        if first_with_id(records, id) is None {
            assert(records.drop_last().push(records.last()) =~= records);
        }
    }
}

pub proof fn lemma_first_with_id(records: Seq<StoredRecord>, id: i32, i: int)
    requires
        0 <= i < records.len(),
        records[i].id == id,
        forall|j: int| 0 <= j < i ==> records[j].id != id,
    ensures
        first_with_id(records, id) == Some(i),
    decreases records.len(),
{
    if i < records.len() - 1 {
        lemma_first_with_id(records.drop_last(), id, i);
    } else {
        lemma_no_id(records.drop_last(), id);
    }
}

pub proof fn lemma_no_id(records: Seq<StoredRecord>, id: i32)
    requires
        forall|j: int| 0 <= j < records.len() ==> records[j].id != id,
    ensures
        first_with_id(records, id) is None,
    decreases records.len(),
{
    if records.len() > 0 {
        lemma_no_id(records.drop_last(), id);
    }
}

/// Law: while ids have not wrapped, an entry just recorded is the one found
/// under its id, and the log stays fresh.
pub proof fn lemma_read_after_create(before: LogStore, after: LogStore, data: LogData, created_at: Timestamp)
    requires
        before.fresh(),
        before.upcoming_id() < i32::MAX,
        log_data_problem(data) is None,
        after.entries() == before.entries().push(
            StoredRecord { id: before.upcoming_id(), created_at, data },
        ),
        after.upcoming_id() == following_id(before.upcoming_id()),
    ensures
        first_with_id(after.entries(), before.upcoming_id()) == Some(before.entries().len() as int),
        after.entries()[before.entries().len() as int].data == data,
        after.fresh(),
{
    let id = before.upcoming_id();
    assert forall|j: int| 0 <= j < before.entries().len() implies after.entries()[j].id != id by {
        assert(after.entries()[j] == before.entries()[j]);
    }
    lemma_first_with_id(after.entries(), id, before.entries().len() as int);
    assert forall|i: int| 0 <= i < after.entries().len() implies 1 <= #[trigger] after.entries()[i].id
        < after.upcoming_id() by {
        if i < before.entries().len() {
            assert(after.entries()[i] == before.entries()[i]);
        }
    }
}

/// Law: after removing an id, no entry carries it.
pub proof fn lemma_absent_after_remove(records: Seq<StoredRecord>, id: i32)
    ensures
        first_with_id(without_id(records, id), id) is None,
        forall|j: int| 0 <= j < without_id(records, id).len() ==> (#[trigger] without_id(records, id)[j]).id != id,
    decreases records.len(),
{
    if records.len() > 0 {
        lemma_absent_after_remove(records.drop_last(), id);
        let rest = without_id(records.drop_last(), id);
        if records.last().id != id {
            assert forall|j: int| 0 <= j < rest.push(records.last()).len() implies (#[trigger] rest.push(
                records.last(),
            )[j]).id != id by {
                if j < rest.len() {
                    assert(rest.push(records.last())[j] == rest[j]);
                }
            }
        }
    }
    lemma_no_id(without_id(records, id), id);
}

/// Law: removing an id keeps every other entry, in order: the entries of
/// other ids are the same before and after.
pub proof fn lemma_remove_keeps_others(records: Seq<StoredRecord>, id: i32, other: i32)
    requires
        other != id,
    ensures
        without_id(without_id(records, id), other) == without_id(without_id(records, other), id),
        first_with_id(without_id(records, id), other) is Some <==> first_with_id(records, other) is Some,
    decreases records.len(),
{
    if records.len() > 0 {
        lemma_remove_keeps_others(records.drop_last(), id, other);
        let last = records.last();
        let a = without_id(records.drop_last(), id);
        if last.id != id {
            assert(a.push(last).drop_last() =~= a);
        }
        let b = without_id(records.drop_last(), other);
        if last.id != other {
            assert(b.push(last).drop_last() =~= b);
        }
    }
}

} // verus!
