//! The result report of a voting event: the figures the front end shows, and
//! the lines of the printed report.
use vstd::prelude::*;
use vstd::string::*;
use crate::json::{
    Json, JsonNumber, distinct_keys, field, lemma_absent_field, lemma_distinct_field, text_of,
};
use crate::results::{
    BallotView, EventLoadStatic, EventType, UserRecord, VoteRecord, VoteResult, ballots,
    lemma_ranked_count_bound, response_lists,
};
use crate::text::{decimal, decimal_text, signed_decimal, signed_decimal_text};
use crate::time::{rfc3339_text, rfc3339_writing, table_text, table_writing};
use crate::tally::{
    counts_match, depth, lemma_row_at_most_sum, rank_tally, ranked_count, table_sum, tally,
    total_responses,
};

verus! {

/// A count as a percentage of a total, rounded down; zero of a zero total.
pub open spec fn percent(count: nat, total: nat) -> nat {
    if total > 0 {
        count * 100 / total
    } else {
        0
    }
}

/// Law: a count within its total is at most a hundred percent of it.
pub proof fn lemma_percent_at_most_hundred(count: nat, total: nat)
    requires
        count <= total,
    ensures
        percent(count, total) <= 100,
{
    if total > 0 {
        assert(count * 100 <= total * 100) by (nonlinear_arith)
            requires
                count <= total,
        ;
        assert(count * 100 / total <= 100) by (nonlinear_arith)
            requires
                count * 100 <= total * 100,
                total > 0,
        ;
    }
}

/// Law: the percentage is the share of the count in the total, in hundredths,
/// rounded down: the largest whole number of hundredths of the total that the
/// count reaches; a zero total gives zero.
pub proof fn lemma_percent_rounds_down(count: nat, total: nat)
    ensures
        total > 0 ==> percent(count, total) * total <= count * 100,
        total > 0 ==> count * 100 < (percent(count, total) + 1) * total,
        total == 0 ==> percent(count, total) == 0,
{
    if total > 0 {
        let p = count * 100 / total;
        assert(p * total <= count * 100 && count * 100 < (p + 1) * total) by (nonlinear_arith)
            requires
                total > 0,
                p == count * 100 / total,
        ;
    }
}

/// `{"count": count, "pct": percent}`.
pub open spec fn count_entry_holds(v: Json, count: nat, total: nat) -> bool {
    &&& v matches Json::Object(m) && m@.len() == 2 && distinct_keys(m@)
    &&& field(v, "count"@) == Some(Json::Number(JsonNumber::PosInt(count as u64)))
    &&& field(v, "pct"@) == Some(Json::Number(JsonNumber::PosInt(percent(count, total) as u64)))
}

/// An object with one member per key of positive count, each key once, each
/// member the count entry of that key against `total`.
pub open spec fn counts_object_holds(obj: Json, f: spec_fn(Seq<char>) -> nat, total: nat) -> bool {
    &&& obj matches Json::Object(m) && distinct_keys(m@)
    &&& forall|s: Seq<char>| (#[trigger] field(obj, s)) is Some <==> f(s) > 0
    &&& forall|s: Seq<char>|
        f(s) > 0 ==> count_entry_holds((#[trigger] field(obj, s)).unwrap(), f(s), total)
}

/// The name of an event kind in reports.
pub open spec fn event_type_name(t: EventType) -> Seq<char> {
    match t {
        EventType::Motion => "motion"@,
        EventType::Election => "election"@,
    }
}

/// The name of an event kind in reports.
pub fn event_type_text(t: &EventType) -> (out: String)
    ensures
        out@ == event_type_name(*t),
{
    match t {
        EventType::Motion => "motion".to_owned(),
        EventType::Election => "election".to_owned(),
    }
}

/// A count as a percentage of a total, rounded down; zero of a zero total.
pub fn percent_of(count: usize, total: usize) -> (out: usize)
    requires
        count * 100 <= usize::MAX,
    ensures
        out == percent(count as nat, total as nat),
{
    if total > 0 {
        count * 100 / total
    } else {
        0
    }
}

/// `{"count": count, "pct": percent}`.
pub fn count_entry(count: usize, total: usize) -> (out: Json)
    requires
        count * 100 <= usize::MAX,
    ensures
        count_entry_holds(out, count as nat, total as nat),
{
    proof {
        reveal_strlit("count");
        reveal_strlit("pct");
    }
    let pct = percent_of(count, total);
    let count_key = "count".to_owned();
    let pct_key = "pct".to_owned();
    assert(count_key@.len() != pct_key@.len());
    let mut members: Vec<(String, Json)> = Vec::new();
    members.push((count_key, Json::Number(JsonNumber::PosInt(count as u64))));
    members.push((pct_key, Json::Number(JsonNumber::PosInt(pct as u64))));
    assert(members@[0].0@ != members@[1].0@);
    proof {
        lemma_distinct_field(members, 0);
        lemma_distinct_field(members, 1);
    }
    Json::Object(members)
}

/// The object of count entries of a count table.
pub fn counts_object(table: &Vec<(String, usize)>, f: Ghost<spec_fn(Seq<char>) -> nat>, total: usize) -> (out: Json)
    requires
        counts_match(table@, f@),
        forall|i: int| 0 <= i < table@.len() ==> #[trigger] table@[i].1 * 100 <= usize::MAX,
    ensures
        counts_object_holds(out, f@, total as nat),
{
    let mut members: Vec<(String, Json)> = Vec::new();
    let mut i: usize = 0;
    while i < table.len()
        invariant
            counts_match(table@, f@),
            forall|k: int| 0 <= k < table@.len() ==> #[trigger] table@[k].1 * 100 <= usize::MAX,
            i <= table.len(),
            members@.len() == i,
            forall|k: int| 0 <= k < i ==> #[trigger] members@[k].0@ == table@[k].0@,
            forall|k: int|
                0 <= k < i ==> count_entry_holds(
                    #[trigger] members@[k].1,
                    table@[k].1 as nat,
                    total as nat,
                ),
        decreases table.len() - i,
    {
        let entry = count_entry(table[i].1, total);
        members.push((table[i].0.clone(), entry));
        i = i + 1;
    }
    assert(distinct_keys(members@)) by {
        assert forall|a: int, b: int|
            0 <= a < members@.len() && 0 <= b < members@.len() && a != b implies #[trigger] members@[a].0@
            != #[trigger] members@[b].0@ by {
            assert(table@[a].0@ != table@[b].0@);
        }
    }
    let out = Json::Object(members);
    proof {
        assert forall|s: Seq<char>| (#[trigger] field(out, s)) is Some <==> f@(s) > 0 by {
            if f@(s) > 0 {
                let k = choose|k: int| 0 <= k < table@.len() && #[trigger] table@[k].0@ == s;
                lemma_distinct_field(members, k);
            } else {
                assert forall|k: int| 0 <= k < members@.len() implies members@[k].0@ != s by {
                    assert(table@[k].1 == f@(table@[k].0@));
                }
                lemma_absent_field(members, s);
            }
        }
        assert forall|s: Seq<char>| f@(s) > 0 implies count_entry_holds(
            (#[trigger] field(out, s)).unwrap(),
            f@(s),
            total as nat,
        ) by {
            let k = choose|k: int| 0 <= k < table@.len() && #[trigger] table@[k].0@ == s;
            lemma_distinct_field(members, k);
            assert(table@[k].1 == f@(table@[k].0@));
        }
    }
    out
}

/// The statistics of a motion: one count entry per response given, against
/// the number of votes.
pub open spec fn motion_statistics_hold(stats: Json, lists: Seq<Seq<Seq<char>>>, total: nat) -> bool {
    counts_object_holds(stats, |s: Seq<char>| tally(lists, s), total)
}

/// The statistics of an election: for each position a ballot reaches, its
/// number from one and one count entry per option ranked there, against the
/// number of ballots that reach the position.
pub open spec fn election_statistics_hold(stats: Json, lists: Seq<Seq<Seq<char>>>) -> bool {
    &&& stats matches Json::Array(rows) && rows@.len() == depth(lists)
    &&& forall|r: int|
        0 <= r < depth(lists) ==> rank_row_holds(#[trigger] stats->Array_0@[r], lists, r)
}

/// `{"rank": r + 1, "results": {...}}` for position `r`.
pub open spec fn rank_row_holds(row: Json, lists: Seq<Seq<Seq<char>>>, r: int) -> bool {
    &&& row matches Json::Object(m) && m@.len() == 2 && distinct_keys(m@)
    &&& field(row, "rank"@) == Some(Json::Number(JsonNumber::PosInt((r + 1) as u64)))
    &&& field(row, "results"@) matches Some(results) && counts_object_holds(
        results,
        |s: Seq<char>| rank_tally(lists, r, s),
        ranked_count(lists, r),
    )
}

/// The report of an event for the front end.
pub open spec fn export_holds(e: EventLoadStatic, out: Json) -> bool {
    let lists = response_lists(e.votes_with_user@);
    let total = e.votes_with_user@.len();
    &&& out matches Json::Object(m) && m@.len() == 6 && distinct_keys(m@)
    &&& field(out, "event_name"@) matches Some(v) && text_of(v) == Some(e.name@)
    &&& field(out, "event_type"@) matches Some(v) && text_of(v) == Some(event_type_name(e.event_type))
    &&& field(out, "status"@) matches Some(v) && text_of(v) == Some(e.status@)
    &&& field(out, "total_votes"@) == Some(Json::Number(JsonNumber::PosInt(total as u64)))
    &&& match e.end_time {
        None => field(out, "end_time"@) == Some(Json::Null),
        Some(t) => field(out, "end_time"@) matches Some(v) && text_of(v) == Some(
            rfc3339_writing(t.parts()),
        ),
    }
    &&& field(out, "statistics"@) matches Some(stats) && match e.event_type {
        EventType::Motion => motion_statistics_hold(stats, lists, total),
        EventType::Election => election_statistics_hold(stats, lists),
    }
}

pub proof fn lemma_ballots_bound(entries: Seq<(VoteRecord, Option<UserRecord>)>)
    ensures
        ballots(entries).len() <= entries.len(),
    decreases entries.len(),
{
    if entries.len() > 0 {
        lemma_ballots_bound(entries.drop_last());
    }
}

/// Sum of the counts of a table.
pub fn row_total(row: &Vec<(String, usize)>) -> (out: usize)
    requires
        table_sum(row@) <= usize::MAX,
    ensures
        out == table_sum(row@),
{
    let mut sum: usize = 0;
    let mut i: usize = 0;
    while i < row.len()
        invariant
            table_sum(row@) <= usize::MAX,
            i <= row.len(),
            sum == table_sum(row@.take(i as int)),
        decreases row.len() - i,
    {
        assert(row@.take(i + 1).drop_last() =~= row@.take(i as int));
        proof {
            lemma_prefix_sum(row@, i + 1);
        }
        sum = sum + row[i].1;
        i = i + 1;
    }
    assert(row@.take(row.len() as int) =~= row@);
    sum
}

pub proof fn lemma_prefix_sum(row: Seq<(String, usize)>, k: int)
    requires
        0 <= k <= row.len(),
    ensures
        table_sum(row.take(k)) <= table_sum(row),
    decreases row.len(),
{
    if k < row.len() {
        assert(row.drop_last().take(k) =~= row.take(k));
        lemma_prefix_sum(row.drop_last(), k);
    } else {
        assert(row.take(k) =~= row);
    }
}

/// `{"rank": rank + 1, "results": results}`.
fn rank_row(rank: usize, results: Json) -> (out: Json)
    requires
        rank < usize::MAX,
    ensures
        out matches Json::Object(m) && m@.len() == 2 && distinct_keys(m@),
        field(out, "rank"@) == Some(Json::Number(JsonNumber::PosInt((rank + 1) as u64))),
        field(out, "results"@) == Some(results),
{
    proof {
        reveal_strlit("rank");
        reveal_strlit("results");
    }
    let rank_key = "rank".to_owned();
    let results_key = "results".to_owned();
    assert(rank_key@.len() != results_key@.len());
    let mut members: Vec<(String, Json)> = Vec::new();
    members.push((rank_key, Json::Number(JsonNumber::PosInt((rank + 1) as u64))));
    members.push((results_key, results));
    assert(members@[0].0@ != members@[1].0@);
    assert(distinct_keys(members@));
    proof {
        lemma_distinct_field(members, 0);
        lemma_distinct_field(members, 1);
    }
    Json::Object(members)
}

impl EventLoadStatic {
    /// The report of the event for the front end: its name, kind, status,
    /// number of votes, end time, and statistics by kind.
    pub fn export_result_json(&self) -> (out: Json)
        requires
            self.event_type is Motion ==> total_responses(response_lists(self.votes_with_user@))
                * 100 <= usize::MAX,
            self.event_type is Election ==> self.votes_with_user@.len() * 100 <= usize::MAX,
        ensures
            export_holds(*self, out),
    {
        let ghost lists = response_lists(self.votes_with_user@);
        let total = self.vote_count();
        let statistics = match self.event_type {
            EventType::Motion => {
                let counts = self.get_vote_statistics();
                assert forall|i: int| 0 <= i < counts@.len() implies #[trigger] counts@[i].1 * 100
                    <= usize::MAX by {
                    lemma_row_at_most_sum(counts@, i);
                }
                counts_object(&counts, Ghost(|s: Seq<char>| tally(lists, s)), total)
            },
            EventType::Election => {
                let ranked = self.get_ranked_statistics();
                proof {
                    lemma_ballots_bound(self.votes_with_user@);
                }
                let mut rows: Vec<Json> = Vec::new();
                let mut r: usize = 0;
                while r < ranked.len()
                    invariant
                        lists == response_lists(self.votes_with_user@),
                        ranked@.len() == depth(lists),
                        forall|k: int|
                            0 <= k < ranked@.len() ==> counts_match(
                                #[trigger] ranked@[k]@,
                                |s: Seq<char>| rank_tally(lists, k, s),
                            ) && table_sum(ranked@[k]@) == ranked_count(lists, k),
                        lists.len() <= self.votes_with_user@.len(),
                        self.votes_with_user@.len() * 100 <= usize::MAX,
                        r <= ranked.len(),
                        rows@.len() == r,
                        forall|k: int| 0 <= k < r ==> rank_row_holds(#[trigger] rows@[k], lists, k),
                    decreases ranked.len() - r,
                {
                    let row = &ranked[r];
                    proof {
                        lemma_ranked_count_bound(lists, r as int);
                    }
                    let rank_total = row_total(row);
                    assert forall|i: int| 0 <= i < row@.len() implies #[trigger] row@[i].1 * 100
                        <= usize::MAX by {
                        lemma_row_at_most_sum(row@, i);
                    }
                    let results = counts_object(
                        row,
                        Ghost(|s: Seq<char>| rank_tally(lists, r as int, s)),
                        rank_total,
                    );
                    rows.push(rank_row(r, results));
                    r = r + 1;
                }
                Json::Array(rows)
            },
        };
        let end_time = match &self.end_time {
            Some(t) => Json::Str(rfc3339_text(t)),
            None => Json::Null,
        };
        proof {
            reveal_strlit("event_name");
            reveal_strlit("event_type");
            reveal_strlit("status");
            reveal_strlit("total_votes");
            reveal_strlit("end_time");
            reveal_strlit("statistics");
        }
        let mut members: Vec<(String, Json)> = Vec::new();
        members.push(("event_name".to_owned(), Json::Str(self.name.clone())));
        members.push(("event_type".to_owned(), Json::Str(event_type_text(&self.event_type))));
        members.push(("status".to_owned(), Json::Str(self.status.clone())));
        members.push(("total_votes".to_owned(), Json::Number(JsonNumber::PosInt(total as u64))));
        members.push(("end_time".to_owned(), end_time));
        members.push(("statistics".to_owned(), statistics));
        assert(members@[0].0@[6] != members@[1].0@[6]);
        assert(members@[0].0@[0] != members@[5].0@[0]);
        assert(members@[1].0@[0] != members@[5].0@[0]);
        assert(distinct_keys(members@)) by {
            assert forall|a: int, b: int|
                0 <= a < 6 && 0 <= b < 6 && a != b implies #[trigger] members@[a].0@
                != #[trigger] members@[b].0@ by {
                if members@[a].0@.len() == members@[b].0@.len() {
                    assert(members@[a].0@[0] != members@[b].0@[0] || members@[a].0@[6] != members@[b].0@[6]);
                }
            }
        }
        proof {
            lemma_distinct_field(members, 0);
            lemma_distinct_field(members, 1);
            lemma_distinct_field(members, 2);
            lemma_distinct_field(members, 3);
            lemma_distinct_field(members, 4);
            lemma_distinct_field(members, 5);
        }
        Json::Object(members)
    }
}

/// A line of the printed report: a paragraph, or a blank gap.
pub enum ReportLine {
    Text(String),
    Gap,
}

/// One row of the ballot table of the printed report.
pub struct TableRow {
    pub user_id: String,
    pub name: String,
    pub timestamp: String,
    pub response: String,
}

/// The content of the printed result report: its title, the lines above the
/// ballot table, the header of the table and its rows.
pub struct ResultReport {
    pub title: String,
    pub lines: Vec<ReportLine>,
    pub header: TableRow,
    pub rows: Vec<TableRow>,
}

/// The header cells of the ballot table.
pub open spec fn table_header() -> (Seq<char>, Seq<char>, Seq<char>, Seq<char>) {
    ("User ID"@, "Name"@, "Timestamp"@, "Response"@)
}

/// A report line as characters; a gap is `None`.
pub open spec fn line_view(l: ReportLine) -> Option<Seq<char>> {
    match l {
        ReportLine::Text(s) => Some(s@),
        ReportLine::Gap => None,
    }
}

/// `label: count (pct%)`.
pub open spec fn count_line(label: Seq<char>, count: nat, pct: nat) -> Seq<char> {
    label + ": "@ + decimal_text(count) + " ("@ + decimal_text(pct) + "%)"@
}

/// The English ordinal suffix of a number.
pub open spec fn ordinal_suffix(n: nat) -> Seq<char> {
    if 11 <= n % 100 <= 13 {
        "th"@
    } else if n % 10 == 1 {
        "st"@
    } else if n % 10 == 2 {
        "nd"@
    } else if n % 10 == 3 {
        "rd"@
    } else {
        "th"@
    }
}

/// The English ordinal of a number: `1st`, `2nd`, `11th`, `23rd`, ...
pub open spec fn ordinal_text(n: nat) -> Seq<char> {
    decimal_text(n) + ordinal_suffix(n)
}

/// The result lines of a motion: one count line per response, against the
/// number of votes.
pub open spec fn motion_lines(table: Seq<(String, usize)>, total: nat) -> Seq<Option<Seq<char>>> {
    table.map_values(
        |row: (String, usize)| Some(count_line(row.0@, row.1 as nat, percent(row.1 as nat, total))),
    )
}

/// The result lines of one position of an election: an indented count line
/// per option, against the number of ballots counted at the position.
pub open spec fn rank_option_lines(table: Seq<(String, usize)>) -> Seq<Option<Seq<char>>> {
    table.map_values(
        |row: (String, usize)|
            Some(
                "  "@ + count_line(row.0@, row.1 as nat, percent(row.1 as nat, table_sum(table))),
            ),
    )
}

/// The result lines of an election: for each position its ordinal and the
/// count lines of its options.
pub open spec fn election_lines(tables: Seq<Seq<(String, usize)>>) -> Seq<Option<Seq<char>>>
    decreases tables.len(),
{
    if tables.len() == 0 {
        seq![]
    } else {
        election_lines(tables.drop_last()) + seq![Some(ordinal_text(tables.len()) + ":"@)]
            + rank_option_lines(tables.last())
    }
}

/// The items joined with a separator.
pub open spec fn joined(items: Seq<Seq<char>>, sep: Seq<char>) -> Seq<char>
    decreases items.len(),
{
    if items.len() == 0 {
        seq![]
    } else if items.len() == 1 {
        items[0]
    } else {
        joined(items.drop_last(), sep) + sep + items.last()
    }
}

/// The table row of a ballot.
pub open spec fn row_of(b: BallotView) -> (Seq<char>, Seq<char>, Seq<char>, Seq<char>) {
    (signed_decimal_text(b.0 as int), b.1, table_writing(b.2), joined(b.3, ", "@))
}

/// A table row as characters.
pub open spec fn table_row_view(r: TableRow) -> (Seq<char>, Seq<char>, Seq<char>, Seq<char>) {
    (r.user_id@, r.name@, r.timestamp@, r.response@)
}

/// The lines above the results.
pub open spec fn report_head(e: EventLoadStatic) -> Seq<Option<Seq<char>>> {
    seq![
        Some("Event: "@ + e.name@),
        Some("Event Type: "@ + event_type_name(e.event_type)),
        Some("Total Votes: "@ + decimal_text(e.votes_with_user@.len())),
        None,
        Some("--- Results ---"@),
    ]
}

/// The result lines of an event, by kind, for some count tables that hold
/// the counts of the ballots (the tables fix no order of their rows).
pub open spec fn result_lines_hold(e: EventLoadStatic, part: Seq<Option<Seq<char>>>) -> bool {
    let lists = response_lists(e.votes_with_user@);
    match e.event_type {
        EventType::Motion => exists|t: Seq<(String, usize)>|
            counts_match(t, |s: Seq<char>| tally(lists, s)) && #[trigger] motion_lines(
                t,
                e.votes_with_user@.len(),
            ) == part,
        EventType::Election => exists|ts: Seq<Seq<(String, usize)>>|
            #[trigger] election_lines(ts) == part && ts.len() == depth(lists) && forall|r: int|
                0 <= r < ts.len() ==> counts_match(
                    #[trigger] ts[r],
                    |s: Seq<char>| rank_tally(lists, r, s),
                ) && table_sum(ts[r]) == ranked_count(lists, r),
    }
}

/// The printed report of an event.
pub open spec fn report_holds(e: EventLoadStatic, out: ResultReport) -> bool {
    let lines = out.lines@.map_values(|l: ReportLine| line_view(l));
    &&& out.title@ == "Event Result: "@ + e.name@
    &&& lines.len() >= 6
    &&& lines.take(5) == report_head(e)
    &&& lines.last() is None
    &&& result_lines_hold(e, lines.subrange(5, lines.len() - 1))
    &&& table_row_view(out.header) == table_header()
    &&& out.rows@.map_values(|r: TableRow| table_row_view(r)) == ballots(e.votes_with_user@).map_values(
        |b: BallotView| row_of(b),
    )
}

/// Mapping a sequence with one more element appends the mapped element.
pub proof fn lemma_map_push<A, B>(s: Seq<A>, x: A, f: spec_fn(A) -> B)
    ensures
        s.push(x).map_values(f) == s.map_values(f).push(f(x)),
{
    assert(s.push(x).map_values(f) =~= s.map_values(f).push(f(x)));
}

/// `a` followed by `b`.
fn concat(a: String, b: &str) -> (out: String)
    ensures
        out@ == a@ + b@,
{
    let mut out = a;
    out.append(b);
    out
}

/// `label: count (pct%)`.
pub fn count_text(label: &str, count: usize, pct: usize) -> (out: String)
    ensures
        out@ == count_line(label@, count as nat, pct as nat),
{
    let out = concat(label.to_owned(), ": ");
    let out = concat(out, decimal(count as u64).as_str());
    let out = concat(out, " (");
    let out = concat(out, decimal(pct as u64).as_str());
    concat(out, "%)")
}

/// The count line of a table row.
fn counts_text_line(row: &(String, usize), pct: usize) -> (out: String)
    ensures
        out@ == count_line(row.0@, row.1 as nat, pct as nat),
{
    count_text(row.0.as_str(), row.1, pct)
}

/// The English ordinal of a number.
pub fn ordinal(n: usize) -> (out: String)
    ensures
        out@ == ordinal_text(n as nat),
{
    let suffix = if 11 <= n % 100 && n % 100 <= 13 {
        "th"
    } else if n % 10 == 1 {
        "st"
    } else if n % 10 == 2 {
        "nd"
    } else if n % 10 == 3 {
        "rd"
    } else {
        "th"
    };
    concat(decimal(n as u64), suffix)
}

/// The items joined with a separator (`join`).
pub fn join_texts(items: &Vec<String>, sep: &str) -> (out: String)
    ensures
        out@ == joined(items@.map_values(|s: String| s@), sep@),
{
    let ghost views = items@.map_values(|s: String| s@);
    let mut out = String::new();
    let mut i: usize = 0;
    while i < items.len()
        invariant
            views == items@.map_values(|s: String| s@),
            i <= items.len(),
            out@ == joined(views.take(i as int), sep@),
        decreases items.len() - i,
    {
        assert(views.take(i + 1).drop_last() =~= views.take(i as int));
        if i > 0 {
            out.append(sep);
        } else {
            assert(views.take(1)[0] == views[0]);
        }
        out.append(items[i].as_str());
        i = i + 1;
    }
    assert(views.take(items.len() as int) =~= views);
    out
}

/// The table row of a ballot.
pub fn table_row(r: &VoteResult) -> (out: TableRow)
    ensures
        table_row_view(out) == row_of(r.view_ballot()),
{
    TableRow {
        user_id: signed_decimal(r.user_id as i64),
        name: r.user_name.clone(),
        timestamp: table_text(&r.vote_timestamp),
        response: join_texts(&r.vote_response, ", "),
    }
}

impl EventLoadStatic {
    /// The content of the printed result report: title, event lines, result
    /// lines by kind, and one table row per ballot.
    pub fn result_report(&self) -> (out: ResultReport)
        requires
            self.event_type is Motion ==> total_responses(response_lists(self.votes_with_user@))
                * 100 <= usize::MAX,
            self.event_type is Election ==> self.votes_with_user@.len() * 100 <= usize::MAX,
        ensures
            report_holds(*self, out),
    {
        let ghost lists = response_lists(self.votes_with_user@);
        let total = self.vote_count();
        let mut lines: Vec<ReportLine> = Vec::new();
        lines.push(ReportLine::Text(concat("Event: ".to_owned(), self.name.as_str())));
        lines.push(
            ReportLine::Text(
                concat("Event Type: ".to_owned(), event_type_text(&self.event_type).as_str()),
            ),
        );
        lines.push(
            ReportLine::Text(concat("Total Votes: ".to_owned(), decimal(total as u64).as_str())),
        );
        lines.push(ReportLine::Gap);
        lines.push(ReportLine::Text("--- Results ---".to_owned()));
        let ghost head = lines@.map_values(|l: ReportLine| line_view(l));
        assert(head == report_head(*self));
        match self.event_type {
            EventType::Motion => {
                let counts = self.get_vote_statistics();
                let mut i: usize = 0;
                while i < counts.len()
                    invariant
                        counts_match(counts@, |s: Seq<char>| tally(lists, s)),
                        table_sum(counts@) == total_responses(lists),
                        lists == response_lists(self.votes_with_user@),
                        total_responses(lists) * 100 <= usize::MAX,
                        total == self.votes_with_user@.len(),
                        i <= counts.len(),
                        lines@.map_values(|l: ReportLine| line_view(l)) == head + motion_lines(
                            counts@.take(i as int),
                            total as nat,
                        ),
                    decreases counts.len() - i,
                {
                    proof {
                        lemma_row_at_most_sum(counts@, i as int);
                    }
                    let pct = percent_of(counts[i].1, total);
                    let ghost before = lines@;
                    let line = ReportLine::Text(counts_text_line(&counts[i], pct));
                    lines.push(line);
                    proof {
                        assert(counts@.take(i + 1) =~= counts@.take(i as int).push(counts@[i as int]));
                        lemma_map_push(before, line, |l: ReportLine| line_view(l));
                        lemma_map_push(
                            counts@.take(i as int),
                            counts@[i as int],
                            |row: (String, usize)|
                                Some(
                                    count_line(
                                        row.0@,
                                        row.1 as nat,
                                        percent(row.1 as nat, total as nat),
                                    ),
                                ),
                        );
                        assert(lines@.map_values(|l: ReportLine| line_view(l)) =~= head + motion_lines(
                            counts@.take(i + 1),
                            total as nat,
                        ));
                    }
                    i = i + 1;
                }
                assert(counts@.take(counts.len() as int) =~= counts@);
                assert(lines@.map_values(|l: ReportLine| line_view(l)).subrange(5, lines@.len() as int)
                    =~= motion_lines(counts@, total as nat));
                assert(counts_match(counts@, |s: Seq<char>| tally(lists, s)) && motion_lines(
                    counts@,
                    self.votes_with_user@.len(),
                ) == lines@.map_values(|l: ReportLine| line_view(l)).subrange(5, lines@.len() as int));
            },
            EventType::Election => {
                let ranked = self.get_ranked_statistics();
                proof {
                    lemma_ballots_bound(self.votes_with_user@);
                }
                let ghost tables = ranked@.map_values(|t: Vec<(String, usize)>| t@);
                let mut r: usize = 0;
                while r < ranked.len()
                    invariant
                        lists == response_lists(self.votes_with_user@),
                        tables == ranked@.map_values(|t: Vec<(String, usize)>| t@),
                        ranked@.len() == depth(lists),
                        forall|k: int|
                            0 <= k < ranked@.len() ==> counts_match(
                                #[trigger] ranked@[k]@,
                                |s: Seq<char>| rank_tally(lists, k, s),
                            ) && table_sum(ranked@[k]@) == ranked_count(lists, k),
                        lists.len() <= self.votes_with_user@.len(),
                        self.votes_with_user@.len() * 100 <= usize::MAX,
                        r <= ranked.len(),
                        lines@.map_values(|l: ReportLine| line_view(l)) == head + election_lines(
                            tables.take(r as int),
                        ),
                    decreases ranked.len() - r,
                {
                    let row = &ranked[r];
                    proof {
                        lemma_ranked_count_bound(lists, r as int);
                    }
                    let rank_total = row_total(row);
                    let ghost before_caption = lines@;
                    let caption = ReportLine::Text(concat(ordinal(r + 1), ":"));
                    lines.push(caption);
                    proof {
                        lemma_map_push(before_caption, caption, |l: ReportLine| line_view(l));
                    }
                    let ghost section_start = lines@.map_values(|l: ReportLine| line_view(l));
                    let mut i: usize = 0;
                    while i < row.len()
                        invariant
                            table_sum(row@) == rank_total,
                            rank_total <= self.votes_with_user@.len(),
                            self.votes_with_user@.len() * 100 <= usize::MAX,
                            i <= row.len(),
                            lines@.map_values(|l: ReportLine| line_view(l)) == section_start
                                + rank_option_lines(row@).take(i as int),
                        decreases row.len() - i,
                    {
                        proof {
                            lemma_row_at_most_sum(row@, i as int);
                        }
                        let pct = percent_of(row[i].1, rank_total);
                        let ghost before = lines@;
                        let text = concat("  ".to_owned(), count_text(row[i].0.as_str(), row[i].1, pct).as_str());
                        let line = ReportLine::Text(text);
                        lines.push(line);
                        proof {
                            lemma_map_push(before, line, |l: ReportLine| line_view(l));
                            assert(rank_option_lines(row@).take(i + 1) =~= rank_option_lines(row@).take(
                                i as int,
                            ).push(rank_option_lines(row@)[i as int]));
                            assert(lines@.map_values(|l: ReportLine| line_view(l)) =~= section_start
                                + rank_option_lines(row@).take(i + 1));
                        }
                        i = i + 1;
                    }
                    assert(rank_option_lines(row@).take(row.len() as int) =~= rank_option_lines(row@));
                    assert(tables.take(r + 1).drop_last() =~= tables.take(r as int));
                    assert(tables.take(r + 1).last() == row@);
                    assert(lines@.map_values(|l: ReportLine| line_view(l)) =~= head + election_lines(
                        tables.take(r + 1),
                    ));
                    r = r + 1;
                }
                assert(tables.take(ranked.len() as int) =~= tables);
                assert(lines@.map_values(|l: ReportLine| line_view(l)).subrange(5, lines@.len() as int)
                    =~= election_lines(tables));
                assert forall|k: int| 0 <= k < tables.len() implies counts_match(
                    #[trigger] tables[k],
                    |s: Seq<char>| rank_tally(lists, k, s),
                ) && table_sum(tables[k]) == ranked_count(lists, k) by {
                    assert(tables[k] == ranked@[k]@);
                }
                assert(election_lines(tables) == lines@.map_values(|l: ReportLine| line_view(l)).subrange(
                    5,
                    lines@.len() as int,
                ) && tables.len() == depth(lists));
            },
        }
        let ghost body = lines@;
        let ghost part = lines@.map_values(|l: ReportLine| line_view(l)).subrange(5, lines@.len() as int);
        assert(lines@.map_values(|l: ReportLine| line_view(l)) =~= head + part);
        assert(result_lines_hold(*self, part));
        lines.push(ReportLine::Gap);
        proof {
            lemma_map_push(body, ReportLine::Gap, |l: ReportLine| line_view(l));
            let v = lines@.map_values(|l: ReportLine| line_view(l));
            assert(v == (head + part).push(None));
            assert(v.take(5) =~= head);
            assert(v.subrange(5, v.len() - 1) =~= part);
        }
        let results = self.get_event_result();
        let mut rows: Vec<TableRow> = Vec::new();
        let mut i: usize = 0;
        while i < results.len()
            invariant
                i <= results.len(),
                rows@.map_values(|r: TableRow| table_row_view(r)) == results@.take(i as int).map_values(
                    |r: VoteResult| row_of(r.view_ballot()),
                ),
            decreases results.len() - i,
        {
            let ghost before = rows@;
            let row = table_row(&results[i]);
            rows.push(row);
            proof {
                lemma_map_push(before, row, |r: TableRow| table_row_view(r));
                lemma_map_push(
                    results@.take(i as int),
                    results@[i as int],
                    |r: VoteResult| row_of(r.view_ballot()),
                );
            }
            assert(results@.take(i + 1) =~= results@.take(i as int).push(results@[i as int]));
            assert(rows@.map_values(|r: TableRow| table_row_view(r)) =~= results@.take(i + 1).map_values(
                |r: VoteResult| row_of(r.view_ballot()),
            ));
            i = i + 1;
        }
        assert(results@.take(results.len() as int) =~= results@);
        proof {
            let xs = results@.map_values(|r: VoteResult| row_of(r.view_ballot()));
            let vs = results@.map_values(|r: VoteResult| r.view_ballot());
            let ys = ballots(self.votes_with_user@).map_values(|b: BallotView| row_of(b));
            assert(vs == ballots(self.votes_with_user@));
            assert forall|k: int| 0 <= k < xs.len() implies #[trigger] xs[k] == ys[k] by {
                assert(vs[k] == results@[k].view_ballot());
            }
            assert(xs =~= ys);
        }
        let header = TableRow {
            user_id: "User ID".to_owned(),
            name: "Name".to_owned(),
            timestamp: "Timestamp".to_owned(),
            response: "Response".to_owned(),
        };
        ResultReport {
            title: concat("Event Result: ".to_owned(), self.name.as_str()),
            lines,
            header,
            rows,
        }
    }
}

} // verus!
