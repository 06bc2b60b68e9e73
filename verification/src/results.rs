//! An event loaded with its votes, and what is read off it: the voters, each
//! voter's ballot, the tallies, and the result report.
use vstd::prelude::*;
use crate::event_config::Threshold;
use crate::json::{Json, field};
use crate::tally::{
    bump, count_in, counts_match, counts_sum, lemma_count_in, lemma_count_is_sum_over_ranks,
    rank_tally_sum, lemma_row_at_most_sum, lemma_row_position, lemma_bumped_counts, occurrences,
    row_position, table_sum, tally, total_responses, rank_tally, ranked_count, depth,
};
use crate::time::Timestamp;

verus! {

/// Kind of a voting event.
pub enum EventType {
    Motion,
    Election,
}

/// Who sees the participants of an event.
pub enum ParticipantVisibility {
    HiddenUntilRelease,
    Live,
}

/// A user as stored.
pub struct UserRecord {
    pub id: i32,
    pub name: String,
    pub created_at: Timestamp,
}

/// A vote as stored; `data` holds the ballot under `vote_response`.
pub struct VoteRecord {
    pub id: i32,
    pub event_id: i32,
    pub voter_id: i32,
    pub cast_time: Timestamp,
    pub proxy: bool,
    pub data: Json,
}

/// Configuration of a voting event, read from its stored data.
pub struct EventSettings {
    pub description: String,
    pub session_code: String,
    pub threshold: Threshold,
    pub participants: ParticipantVisibility,
    pub proxy: bool,
    pub vote_options: Vec<String>,
}

/// One voter's ballot.
pub struct VoteResult {
    pub user_id: i32,
    pub user_name: String,
    pub vote_timestamp: Timestamp,
    pub vote_response: Vec<String>,
}

/// A voting event with every vote cast in it, each paired with its voter
/// when the voter is known.
pub struct EventLoadStatic {
    pub event_id: i32,
    pub event_type: EventType,
    pub name: String,
    pub status: String,
    pub start_time: Timestamp,
    pub end_time: Option<Timestamp>,
    pub data: EventSettings,
    pub created_by_user_id: i32,
    pub organization_id: i32,
    pub votes_with_user: Vec<(VoteRecord, Option<UserRecord>)>,
}

/// An event of any kind with its votes, each paired with its voter when known.
pub struct EventLoad {
    pub event_id: i32,
    pub event_type: String,
    pub name: String,
    pub start_time: Timestamp,
    pub end_time: Option<Timestamp>,
    pub data: Json,
    pub created_by_user_id: i32,
    pub organization_id: i32,
    pub votes_with_user: Vec<(VoteRecord, Option<UserRecord>)>,
}

/// The strings among JSON values, in order; other values are skipped.
pub open spec fn strings_in(items: Seq<Json>) -> Seq<Seq<char>>
    decreases items.len(),
{
    if items.len() == 0 {
        seq![]
    } else {
        let rest = strings_in(items.drop_last());
        match items.last() {
            Json::Str(s) => rest.push(s@),
            _ => rest,
        }
    }
}

/// The ballot held by a vote's data: the strings of its `vote_response`
/// array, or nothing when there is no such array.
pub open spec fn response_of(data: Json) -> Option<Seq<Seq<char>>> {
    match field(data, "vote_response"@) {
        Some(Json::Array(items)) => Some(strings_in(items@)),
        _ => None,
    }
}

/// A ballot as a value: voter id, voter name, cast time, responses.
pub type BallotView = (i32, Seq<char>, (i64, u32, i32), Seq<Seq<char>>);

/// The ballot that one vote contributes: none without a voter or without a
/// response array.
pub open spec fn ballot_of(entry: (VoteRecord, Option<UserRecord>)) -> Option<BallotView> {
    match entry.1 {
        Some(user) => match response_of(entry.0.data) {
            Some(responses) => Some((user.id, user.name@, entry.0.cast_time.parts(), responses)),
            None => None,
        },
        None => None,
    }
}

/// The ballots of the votes, in the order of the votes.
pub open spec fn ballots(entries: Seq<(VoteRecord, Option<UserRecord>)>) -> Seq<BallotView>
    decreases entries.len(),
{
    if entries.len() == 0 {
        seq![]
    } else {
        let rest = ballots(entries.drop_last());
        match ballot_of(entries.last()) {
            Some(b) => rest.push(b),
            None => rest,
        }
    }
}

/// The voters of the votes that have one, in the order of the votes.
pub open spec fn voters(entries: Seq<(VoteRecord, Option<UserRecord>)>) -> Seq<UserRecord>
    decreases entries.len(),
{
    if entries.len() == 0 {
        seq![]
    } else {
        let rest = voters(entries.drop_last());
        match entries.last().1 {
            Some(u) => rest.push(u),
            None => rest,
        }
    }
}

/// The response lists of the ballots.
pub open spec fn response_lists(entries: Seq<(VoteRecord, Option<UserRecord>)>) -> Seq<Seq<Seq<char>>> {
    ballots(entries).map_values(|b: BallotView| b.3)
}

impl VoteResult {
    /// The ballot as a value.
    pub open spec fn view_ballot(self) -> BallotView {
        (
            self.user_id,
            self.user_name@,
            self.vote_timestamp.parts(),
            self.vote_response@.map_values(|s: String| s@),
        )
    }
}

/// The response lists of a list of ballots.
pub open spec fn lists_of(results: Seq<VoteResult>) -> Seq<Seq<Seq<char>>> {
    results.map_values(|r: VoteResult| r.vote_response@.map_values(|s: String| s@))
}

pub proof fn lemma_total_prefix(lists: Seq<Seq<Seq<char>>>, k: int)
    requires
        0 <= k <= lists.len(),
    ensures
        total_responses(lists.take(k)) <= total_responses(lists),
    decreases lists.len(),
{
    if k < lists.len() {
        assert(lists.drop_last().take(k) =~= lists.take(k));
        lemma_total_prefix(lists.drop_last(), k);
    } else {
        assert(lists.take(k) =~= lists);
    }
}

/// How often each response was given over all ballots.
pub fn response_counts(results: &Vec<VoteResult>) -> (out: Vec<(String, usize)>)
    requires
        total_responses(lists_of(results@)) <= usize::MAX,
    ensures
        counts_match(out@, |s: Seq<char>| tally(lists_of(results@), s)),
        table_sum(out@) == total_responses(lists_of(results@)),
{
    let ghost lists = lists_of(results@);
    let mut counts: Vec<(String, usize)> = Vec::new();
    let mut i: usize = 0;
    assert(counts_match(counts@, |s: Seq<char>| tally(lists.take(0), s)));
    while i < results.len()
        invariant
            lists == lists_of(results@),
            total_responses(lists) <= usize::MAX,
            i <= results.len(),
            counts_match(counts@, |s: Seq<char>| tally(lists.take(i as int), s)),
            table_sum(counts@) == total_responses(lists.take(i as int)),
        decreases results.len() - i,
    {
        let responses = &results[i].vote_response;
        let ghost list = lists[i as int];
        assert(list == responses@.map_values(|s: String| s@));
        assert(lists.take(i + 1).drop_last() =~= lists.take(i as int));
        proof {
            lemma_total_prefix(lists, i + 1);
        }
        let mut j: usize = 0;
        proof {
            let f = |s: Seq<char>| tally(lists.take(i as int), s);
            let g = |s: Seq<char>| tally(lists.take(i as int), s) + occurrences(list.take(0), s);
            assert forall|s: Seq<char>| #[trigger] f(s) == g(s) by {
                assert(list.take(0).len() == 0);
            }
            assert(f =~= g);
        }
        while j < responses.len()
            invariant
                lists == lists_of(results@),
                total_responses(lists) <= usize::MAX,
                i < results.len(),
                list == lists[i as int],
                list == responses@.map_values(|s: String| s@),
                *responses == results@[i as int].vote_response,
                total_responses(lists.take(i + 1)) <= total_responses(lists),
                lists.take(i + 1).drop_last() == lists.take(i as int),
                j <= responses.len(),
                counts_match(
                    counts@,
                    |s: Seq<char>| tally(lists.take(i as int), s) + occurrences(list.take(j as int), s),
                ),
                table_sum(counts@) == total_responses(lists.take(i as int)) + j,
            decreases responses.len() - j,
        {
            let ghost before = counts@;
            let ghost f = |s: Seq<char>| tally(lists.take(i as int), s) + occurrences(list.take(j as int), s);
            let ghost g = |s: Seq<char>| tally(lists.take(i as int), s) + occurrences(list.take(j + 1), s);
            proof {
                assert(list.take(j + 1).drop_last() =~= list.take(j as int));
                assert(list.take(j + 1).last() == responses@[j as int]@);
                assert forall|s: Seq<char>| #[trigger] g(s) == f(s) + if s == responses@[j as int]@ {
                    1nat
                } else {
                    0nat
                } by {}
                lemma_row_position(before, responses@[j as int]@);
                if let Some(k) = row_position(before, responses@[j as int]@) {
                    lemma_row_at_most_sum(before, k);
                }
                assert(lists.take(i + 1).last() == list);
            }
            bump(&mut counts, &responses[j]);
            proof {
                lemma_bumped_counts(before, responses@[j as int], f, g);
                assert(counts_match(counts@, g));
            }
            j = j + 1;
        }
        proof {
            assert(list.take(j as int) =~= list);
            assert(lists.take(i + 1).last() == list);
            let f = |s: Seq<char>| tally(lists.take(i as int), s) + occurrences(list.take(j as int), s);
            let g = |s: Seq<char>| tally(lists.take(i + 1), s);
            assert forall|s: Seq<char>| #[trigger] f(s) == g(s) by {}
            assert(f =~= g);
        }
        i = i + 1;
    }
    assert(lists.take(results.len() as int) =~= lists);
    counts
}

pub proof fn lemma_ranked_count_bound(lists: Seq<Seq<Seq<char>>>, rank: int)
    ensures
        ranked_count(lists, rank) <= lists.len(),
    decreases lists.len(),
{
    if lists.len() > 0 {
        lemma_ranked_count_bound(lists.drop_last(), rank);
    }
}

/// Law: every position below the depth is reached by some list, and no list
/// reaches a position at or past the depth.
pub proof fn lemma_depth_reach(lists: Seq<Seq<Seq<char>>>, rank: int)
    requires
        0 <= rank,
    ensures
        rank < depth(lists) ==> ranked_count(lists, rank) > 0,
        rank >= depth(lists) ==> ranked_count(lists, rank) == 0,
    decreases lists.len(),
{
    if lists.len() > 0 {
        lemma_depth_reach(lists.drop_last(), rank);
    }
}

/// Law: past the depth no option is counted at any position.
pub proof fn lemma_nothing_past_depth(lists: Seq<Seq<Seq<char>>>, rank: int, s: Seq<char>)
    requires
        rank >= depth(lists),
    ensures
        rank_tally(lists, rank, s) == 0,
    decreases lists.len(),
{
    if lists.len() > 0 {
        lemma_nothing_past_depth(lists.drop_last(), rank, s);
    }
}

/// Law: the count of a response in the vote statistics is the sum of its
/// counts at each position in the ranked statistics, for any two tables that
/// meet the contracts of `get_vote_statistics` and `get_ranked_statistics`
/// on the same votes.
pub proof fn lemma_statistics_agree(
    entries: Seq<(VoteRecord, Option<UserRecord>)>,
    overall: Seq<(String, usize)>,
    ranked: Seq<Seq<(String, usize)>>,
    s: Seq<char>,
)
    requires
        counts_match(overall, |x: Seq<char>| tally(response_lists(entries), x)),
        ranked.len() == depth(response_lists(entries)),
        forall|r: int|
            0 <= r < ranked.len() ==> counts_match(
                #[trigger] ranked[r],
                |x: Seq<char>| rank_tally(response_lists(entries), r, x),
            ),
    ensures
        count_in(overall, s) == counts_sum(ranked, s, ranked.len()),
{
    let lists = response_lists(entries);
    lemma_count_in(overall, |x: Seq<char>| tally(lists, x), s);
    lemma_count_is_sum_over_ranks(lists, s);
    lemma_counts_sum_ranks(lists, ranked, s, ranked.len());
}

proof fn lemma_counts_sum_ranks(
    lists: Seq<Seq<Seq<char>>>,
    ranked: Seq<Seq<(String, usize)>>,
    s: Seq<char>,
    n: nat,
)
    requires
        n <= ranked.len(),
        forall|r: int|
            0 <= r < ranked.len() ==> counts_match(
                #[trigger] ranked[r],
                |x: Seq<char>| rank_tally(lists, r, x),
            ),
    ensures
        counts_sum(ranked, s, n) == rank_tally_sum(lists, s, n),
    decreases n,
{
    if n > 0 {
        lemma_counts_sum_ranks(lists, ranked, s, (n - 1) as nat);
        let r = n - 1;
        assert(counts_match(ranked[r], |x: Seq<char>| rank_tally(lists, r, x)));
        lemma_count_in(ranked[r], |x: Seq<char>| rank_tally(lists, r, x), s);
    }
}

/// How often each option was ranked at position `rank`.
pub fn rank_counts(results: &Vec<VoteResult>, rank: usize) -> (out: Vec<(String, usize)>)
    ensures
        counts_match(out@, |s: Seq<char>| rank_tally(lists_of(results@), rank as int, s)),
        table_sum(out@) == ranked_count(lists_of(results@), rank as int),
{
    let ghost lists = lists_of(results@);
    let mut counts: Vec<(String, usize)> = Vec::new();
    let mut i: usize = 0;
    assert(counts_match(counts@, |s: Seq<char>| rank_tally(lists.take(0), rank as int, s)));
    while i < results.len()
        invariant
            lists == lists_of(results@),
            i <= results.len(),
            counts_match(counts@, |s: Seq<char>| rank_tally(lists.take(i as int), rank as int, s)),
            table_sum(counts@) == ranked_count(lists.take(i as int), rank as int),
        decreases results.len() - i,
    {
        let responses = &results[i].vote_response;
        let ghost list = lists[i as int];
        assert(list == responses@.map_values(|s: String| s@));
        assert(lists.take(i + 1).drop_last() =~= lists.take(i as int));
        assert(lists.take(i + 1).last() == list);
        let ghost f = |s: Seq<char>| rank_tally(lists.take(i as int), rank as int, s);
        let ghost g = |s: Seq<char>| rank_tally(lists.take(i + 1), rank as int, s);
        if rank < responses.len() {
            let ghost before = counts@;
            proof {
                assert forall|s: Seq<char>| #[trigger] g(s) == f(s) + if s == responses@[rank as int]@ {
                    1nat
                } else {
                    0nat
                } by {}
                lemma_row_position(before, responses@[rank as int]@);
                lemma_ranked_count_bound(lists.take(i as int), rank as int);
                if let Some(k) = row_position(before, responses@[rank as int]@) {
                    lemma_row_at_most_sum(before, k);
                }
            }
            bump(&mut counts, &responses[rank]);
            proof {
                lemma_bumped_counts(before, responses@[rank as int], f, g);
            }
        } else {
            proof {
                assert forall|s: Seq<char>| #[trigger] f(s) == g(s) by {}
                assert(f =~= g);
            }
        }
        i = i + 1;
    }
    assert(lists.take(results.len() as int) =~= lists);
    counts
}

/// Length of the longest response list.
pub fn longest_response(results: &Vec<VoteResult>) -> (out: usize)
    ensures
        out == depth(lists_of(results@)),
{
    let ghost lists = lists_of(results@);
    let mut d: usize = 0;
    let mut i: usize = 0;
    while i < results.len()
        invariant
            lists == lists_of(results@),
            i <= results.len(),
            d == depth(lists.take(i as int)),
        decreases results.len() - i,
    {
        assert(lists.take(i + 1).drop_last() =~= lists.take(i as int));
        assert(lists.take(i + 1).last() == lists[i as int]);
        if results[i].vote_response.len() > d {
            d = results[i].vote_response.len();
        }
        i = i + 1;
    }
    assert(lists.take(results.len() as int) =~= lists);
    d
}

/// For each position, from the first to the deepest any ballot reaches, how
/// often each option was ranked there.
pub fn ranked_counts(results: &Vec<VoteResult>) -> (out: Vec<Vec<(String, usize)>>)
    ensures
        out@.len() == depth(lists_of(results@)),
        forall|r: int|
            0 <= r < out@.len() ==> counts_match(
                #[trigger] out@[r]@,
                |s: Seq<char>| rank_tally(lists_of(results@), r, s),
            ) && table_sum(out@[r]@) == ranked_count(lists_of(results@), r),
{
    let d = longest_response(results);
    let mut out: Vec<Vec<(String, usize)>> = Vec::new();
    let mut r: usize = 0;
    while r < d
        invariant
            d == depth(lists_of(results@)),
            r <= d,
            out@.len() == r,
            forall|k: int|
                0 <= k < r ==> counts_match(
                    #[trigger] out@[k]@,
                    |s: Seq<char>| rank_tally(lists_of(results@), k, s),
                ) && table_sum(out@[k]@) == ranked_count(lists_of(results@), k),
        decreases d - r,
    {
        let row = rank_counts(results, r);
        out.push(row);
        r = r + 1;
    }
    out
}

/// The strings of a list of JSON values.
pub fn strings_of(items: &Vec<Json>) -> (out: Vec<String>)
    ensures
        out@.map_values(|s: String| s@) == strings_in(items@),
{
    let mut out: Vec<String> = Vec::new();
    let mut i: usize = 0;
    while i < items.len()
        invariant
            i <= items.len(),
            out@.map_values(|s: String| s@) == strings_in(items@.subrange(0, i as int)),
        decreases items.len() - i,
    {
        let ghost before = out@;
        assert(items@.subrange(0, i + 1).drop_last() == items@.subrange(0, i as int));
        match &items[i] {
            Json::Str(s) => {
                out.push(s.clone());
                assert(out@.map_values(|s: String| s@) == before.map_values(|s: String| s@).push(
                    s@,
                ));
            },
            _ => {},
        }
        i = i + 1;
    }
    assert(items@.subrange(0, items.len() as int) == items@);
    out
}

/// The ballot of one vote, if it has a voter and a response array.
pub fn ballot(vote: &VoteRecord, user: &Option<UserRecord>) -> (out: Option<VoteResult>)
    ensures
        match out {
            Some(r) => ballot_of((*vote, *user)) == Some(r.view_ballot()),
            None => ballot_of((*vote, *user)) is None,
        },
{
    let user = match user {
        Some(u) => u,
        None => return None,
    };
    let items = match vote.data.get("vote_response") {
        Some(v) => match v.as_list() {
            Some(items) => items,
            None => return None,
        },
        None => return None,
    };
    let vote_response = strings_of(items);
    Some(
        VoteResult {
            user_id: user.id,
            user_name: user.name.clone(),
            vote_timestamp: vote.cast_time.copy(),
            vote_response,
        },
    )
}

/// The ballots of a list of votes.
pub fn ballots_of(entries: &Vec<(VoteRecord, Option<UserRecord>)>) -> (out: Vec<VoteResult>)
    ensures
        out@.map_values(|r: VoteResult| r.view_ballot()) == ballots(entries@),
{
    let mut out: Vec<VoteResult> = Vec::new();
    let mut i: usize = 0;
    while i < entries.len()
        invariant
            i <= entries.len(),
            out@.map_values(|r: VoteResult| r.view_ballot()) == ballots(
                entries@.subrange(0, i as int),
            ),
        decreases entries.len() - i,
    {
        let ghost before = out@;
        assert(entries@.subrange(0, i + 1).drop_last() == entries@.subrange(0, i as int));
        match ballot(&entries[i].0, &entries[i].1) {
            Some(r) => {
                out.push(r);
                assert(out@.map_values(|r: VoteResult| r.view_ballot()) == before.map_values(
                    |r: VoteResult| r.view_ballot(),
                ).push(r.view_ballot()));
            },
            None => {},
        }
        i = i + 1;
    }
    assert(entries@.subrange(0, entries.len() as int) == entries@);
    out
}

/// The voters of a list of votes.
pub fn voters_of(entries: &Vec<(VoteRecord, Option<UserRecord>)>) -> (out: Vec<&UserRecord>)
    ensures
        out@.map_values(|u: &UserRecord| *u) == voters(entries@),
{
    let mut out: Vec<&UserRecord> = Vec::new();
    let mut i: usize = 0;
    while i < entries.len()
        invariant
            i <= entries.len(),
            out@.map_values(|u: &UserRecord| *u) == voters(
                entries@.subrange(0, i as int),
            ),
        decreases entries.len() - i,
    {
        let ghost before = out@;
        assert(entries@.subrange(0, i + 1).drop_last() == entries@.subrange(0, i as int));
        match &entries[i].1 {
            Some(u) => {
                out.push(u);
                assert(out@.map_values(|u: &UserRecord| *u) == before.map_values(
                    |u: &UserRecord| *u,
                ).push(*u));
            },
            None => {},
        }
        i = i + 1;
    }
    assert(entries@.subrange(0, entries.len() as int) == entries@);
    out
}

impl EventLoadStatic {
    /// Number of votes cast, with or without a known voter.
    pub fn vote_count(&self) -> (out: usize)
        ensures
            out == self.votes_with_user@.len(),
    {
        self.votes_with_user.len()
    }

    /// The voters of the votes that have one, in the order of the votes.
    pub fn get_voters(&self) -> (out: Vec<&UserRecord>)
        ensures
            out@.map_values(|u: &UserRecord| *u) == voters(self.votes_with_user@),
    {
        voters_of(&self.votes_with_user)
    }

    /// The ballot of every vote that has a voter and a response array, in the
    /// order of the votes.
    pub fn get_event_result(&self) -> (out: Vec<VoteResult>)
        ensures
            out@.map_values(|r: VoteResult| r.view_ballot()) == ballots(self.votes_with_user@),
    {
        ballots_of(&self.votes_with_user)
    }

    /// How often each response was given, over the ballots of the event.
    pub fn get_vote_statistics(&self) -> (out: Vec<(String, usize)>)
        requires
            total_responses(response_lists(self.votes_with_user@)) <= usize::MAX,
        ensures
            counts_match(out@, |s: Seq<char>| tally(response_lists(self.votes_with_user@), s)),
            table_sum(out@) == total_responses(response_lists(self.votes_with_user@)),
    {
        let results = self.get_event_result();
        proof {
            lemma_lists_of_ballots(results@, self.votes_with_user@);
        }
        response_counts(&results)
    }

    /// For each position a ballot reaches, how often each option was ranked
    /// there, over the ballots of the event.
    pub fn get_ranked_statistics(&self) -> (out: Vec<Vec<(String, usize)>>)
        ensures
            out@.len() == depth(response_lists(self.votes_with_user@)),
            forall|r: int|
                0 <= r < out@.len() ==> counts_match(
                    #[trigger] out@[r]@,
                    |s: Seq<char>| rank_tally(response_lists(self.votes_with_user@), r, s),
                ) && table_sum(out@[r]@) == ranked_count(response_lists(self.votes_with_user@), r),
    {
        let results = self.get_event_result();
        proof {
            lemma_lists_of_ballots(results@, self.votes_with_user@);
        }
        ranked_counts(&results)
    }
}

pub proof fn lemma_lists_of_ballots(results: Seq<VoteResult>, entries: Seq<(VoteRecord, Option<UserRecord>)>)
    requires
        results.map_values(|r: VoteResult| r.view_ballot()) == ballots(entries),
    ensures
        lists_of(results) == response_lists(entries),
{
    assert forall|k: int| 0 <= k < results.len() implies lists_of(results)[k] == response_lists(
        entries,
    )[k] by {
        assert(results.map_values(|r: VoteResult| r.view_ballot())[k] == results[k].view_ballot());
    }
    assert(lists_of(results) =~= response_lists(entries));
}

impl EventLoad {
    /// Number of votes cast, with or without a known voter.
    pub fn vote_count(&self) -> (out: usize)
        ensures
            out == self.votes_with_user@.len(),
    {
        self.votes_with_user.len()
    }

    /// The voters of the votes that have one, in the order of the votes.
    pub fn get_voters(&self) -> (out: Vec<&UserRecord>)
        ensures
            out@.map_values(|u: &UserRecord| *u) == voters(self.votes_with_user@),
    {
        voters_of(&self.votes_with_user)
    }
}

} // verus!
