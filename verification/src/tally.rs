//! Counting responses: how often each response was given over all ballots,
//! and how often each option was ranked at each position.
use vstd::prelude::*;

verus! {

/// How often `s` occurs in a list of responses.
pub open spec fn occurrences(list: Seq<Seq<char>>, s: Seq<char>) -> nat
    decreases list.len(),
{
    if list.len() == 0 {
        0
    } else {
        occurrences(list.drop_last(), s) + if list.last() == s {
            1nat
        } else {
            0nat
        }
    }
}

/// How often `s` occurs over all response lists.
pub open spec fn tally(lists: Seq<Seq<Seq<char>>>, s: Seq<char>) -> nat
    decreases lists.len(),
{
    if lists.len() == 0 {
        0
    } else {
        tally(lists.drop_last(), s) + occurrences(lists.last(), s)
    }
}

/// How many response lists hold `s` at position `rank`.
pub open spec fn rank_tally(lists: Seq<Seq<Seq<char>>>, rank: int, s: Seq<char>) -> nat
    decreases lists.len(),
{
    if lists.len() == 0 {
        0
    } else {
        rank_tally(lists.drop_last(), rank, s) + if rank < lists.last().len()
            && lists.last()[rank] == s {
            1nat
        } else {
            0nat
        }
    }
}

/// How many response lists reach position `rank`.
pub open spec fn ranked_count(lists: Seq<Seq<Seq<char>>>, rank: int) -> nat
    decreases lists.len(),
{
    if lists.len() == 0 {
        0
    } else {
        ranked_count(lists.drop_last(), rank) + if rank < lists.last().len() {
            1nat
        } else {
            0nat
        }
    }
}

/// Number of responses over all lists.
pub open spec fn total_responses(lists: Seq<Seq<Seq<char>>>) -> nat
    decreases lists.len(),
{
    if lists.len() == 0 {
        0
    } else {
        total_responses(lists.drop_last()) + lists.last().len()
    }
}

/// Length of the longest list.
pub open spec fn depth(lists: Seq<Seq<Seq<char>>>) -> nat
    decreases lists.len(),
{
    if lists.len() == 0 {
        0
    } else {
        let d = depth(lists.drop_last());
        if lists.last().len() > d {
            lists.last().len()
        } else {
            d
        }
    }
}

/// Whether a list holds `s` at position `r`, as a count.
pub open spec fn hit(list: Seq<Seq<char>>, r: int, s: Seq<char>) -> nat {
    if 0 <= r < list.len() && list[r] == s {
        1
    } else {
        0
    }
}

/// How often a list holds `s` at the positions below `n`.
pub open spec fn list_hits(list: Seq<Seq<char>>, s: Seq<char>, n: nat) -> nat
    decreases n,
{
    if n == 0 {
        0
    } else {
        list_hits(list, s, (n - 1) as nat) + hit(list, n - 1, s)
    }
}

/// How often `s` is ranked at the positions below `n`, over all lists.
pub open spec fn rank_tally_sum(lists: Seq<Seq<Seq<char>>>, s: Seq<char>, n: nat) -> nat
    decreases n,
{
    if n == 0 {
        0
    } else {
        rank_tally_sum(lists, s, (n - 1) as nat) + rank_tally(lists, n - 1, s)
    }
}

/// Dropping a list's last element takes its hit away from every count of
/// positions.
proof fn lemma_list_hits_drop_last(list: Seq<Seq<char>>, s: Seq<char>, n: nat)
    requires
        list.len() > 0,
    ensures
        list_hits(list, s, n) == list_hits(list.drop_last(), s, n) + hit(list, list.len() - 1, s)
            * (if list.len() - 1 < n { 1nat } else { 0nat }),
    decreases n,
{
    if n > 0 {
        lemma_list_hits_drop_last(list, s, (n - 1) as nat);
        let r = n - 1;
        if r < list.len() - 1 {
            assert(list.drop_last()[r] == list[r]);
        }
    }
}

/// Counted over positions covering the whole list, the hits are the
/// occurrences.
proof fn lemma_occurrences_are_hits(list: Seq<Seq<char>>, s: Seq<char>, n: nat)
    requires
        list.len() <= n,
    ensures
        occurrences(list, s) == list_hits(list, s, n),
    decreases list.len(),
{
    if list.len() == 0 {
        lemma_no_hits(list, s, n);
    } else {
        lemma_occurrences_are_hits(list.drop_last(), s, n);
        lemma_list_hits_drop_last(list, s, n);
    }
}

proof fn lemma_no_hits(list: Seq<Seq<char>>, s: Seq<char>, n: nat)
    requires
        list.len() == 0,
    ensures
        list_hits(list, s, n) == 0,
    decreases n,
{
    if n > 0 {
        lemma_no_hits(list, s, (n - 1) as nat);
    }
}

/// Summing rank counts over the lists without the last one, then adding the
/// last list's hits.
proof fn lemma_rank_tally_sum_drop_last(lists: Seq<Seq<Seq<char>>>, s: Seq<char>, n: nat)
    requires
        lists.len() > 0,
    ensures
        rank_tally_sum(lists, s, n) == rank_tally_sum(lists.drop_last(), s, n) + list_hits(
            lists.last(),
            s,
            n,
        ),
    decreases n,
{
    if n > 0 {
        lemma_rank_tally_sum_drop_last(lists, s, (n - 1) as nat);
    }
}

proof fn lemma_no_rank_tally(lists: Seq<Seq<Seq<char>>>, s: Seq<char>, n: nat)
    requires
        lists.len() == 0,
    ensures
        rank_tally_sum(lists, s, n) == 0,
    decreases n,
{
    if n > 0 {
        lemma_no_rank_tally(lists, s, (n - 1) as nat);
    }
}

/// Every list is at most as long as the depth.
pub proof fn lemma_depth_bounds(lists: Seq<Seq<Seq<char>>>)
    ensures
        forall|i: int| 0 <= i < lists.len() ==> (#[trigger] lists[i]).len() <= depth(lists),
    decreases lists.len(),
{
    if lists.len() > 0 {
        lemma_depth_bounds(lists.drop_last());
        assert forall|i: int| 0 <= i < lists.len() implies (#[trigger] lists[i]).len() <= depth(
            lists,
        ) by {
            if i < lists.len() - 1 {
                assert(lists[i] == lists.drop_last()[i]);
            }
        }
    }
}

proof fn lemma_tally_is_rank_sum(lists: Seq<Seq<Seq<char>>>, s: Seq<char>, n: nat)
    requires
        forall|i: int| 0 <= i < lists.len() ==> (#[trigger] lists[i]).len() <= n,
    ensures
        tally(lists, s) == rank_tally_sum(lists, s, n),
    decreases lists.len(),
{
    if lists.len() == 0 {
        lemma_no_rank_tally(lists, s, n);
    } else {
        assert forall|i: int| 0 <= i < lists.drop_last().len() implies (
        #[trigger] lists.drop_last()[i]).len() <= n by {
            assert(lists.drop_last()[i] == lists[i]);
        }
        lemma_tally_is_rank_sum(lists.drop_last(), s, n);
        assert(lists.last() == lists[lists.len() - 1]);
        lemma_occurrences_are_hits(lists.last(), s, n);
        lemma_rank_tally_sum_drop_last(lists, s, n);
    }
}

/// Law: how often a response was given over all ballots is the sum, over the
/// positions the ballots reach, of how often it was ranked at each position.
pub proof fn lemma_count_is_sum_over_ranks(lists: Seq<Seq<Seq<char>>>, s: Seq<char>)
    ensures
        tally(lists, s) == rank_tally_sum(lists, s, depth(lists)),
{
    lemma_depth_bounds(lists);
    lemma_tally_is_rank_sum(lists, s, depth(lists));
}

/// The count a table holds for `key`, zero when it has no row for it.
pub open spec fn count_in(table: Seq<(String, usize)>, key: Seq<char>) -> nat {
    match row_position(table, key) {
        Some(i) => table[i].1 as nat,
        None => 0,
    }
}

/// The counts for `key` in the first `n` tables, added up.
pub open spec fn counts_sum(tables: Seq<Seq<(String, usize)>>, key: Seq<char>, n: nat) -> nat
    decreases n,
{
    if n == 0 {
        0
    } else {
        counts_sum(tables, key, (n - 1) as nat) + count_in(tables[n - 1], key)
    }
}

/// A table that matches a count reads every key's count.
pub proof fn lemma_count_in(table: Seq<(String, usize)>, f: spec_fn(Seq<char>) -> nat, key: Seq<char>)
    requires
        counts_match(table, f),
    ensures
        count_in(table, key) == f(key),
{
    lemma_row_position(table, key);
    if f(key) > 0 {
        let i = choose|i: int| 0 <= i < table.len() && #[trigger] table[i].0@ == key;
        assert forall|j: int| 0 <= j < i implies table[j].0@ != key by {
            assert(table[j].0@ != table[i].0@);
        }
        lemma_first_row(table, key, i);
    } else {
        if let Some(i) = row_position(table, key) {
            assert(table[i].1 == f(table[i].0@));
        }
    }
}

/// Position of the first row of a table whose key is `key`.
pub open spec fn row_position(table: Seq<(String, usize)>, key: Seq<char>) -> Option<int>
    decreases table.len(),
{
    if table.len() == 0 {
        None
    } else {
        match row_position(table.drop_last(), key) {
            Some(i) => Some(i),
            None => if table.last().0@ == key {
                Some(table.len() - 1)
            } else {
                None
            },
        }
    }
}

/// No two rows share a key.
pub open spec fn keys_distinct(table: Seq<(String, usize)>) -> bool {
    forall|i: int, j: int|
        0 <= i < table.len() && 0 <= j < table.len() && i != j ==> #[trigger] table[i].0@
            != #[trigger] table[j].0@
}

/// Sum of the counts of a table.
pub open spec fn table_sum(table: Seq<(String, usize)>) -> nat
    decreases table.len(),
{
    if table.len() == 0 {
        0
    } else {
        table_sum(table.drop_last()) + table.last().1 as nat
    }
}

/// The table holds exactly the keys with a positive count under `f`, each
/// once, each with its count.
pub open spec fn counts_match(table: Seq<(String, usize)>, f: spec_fn(Seq<char>) -> nat) -> bool {
    &&& keys_distinct(table)
    &&& forall|i: int| 0 <= i < table.len() ==> #[trigger] table[i].1 == f(table[i].0@) && table[i].1 > 0
    &&& forall|s: Seq<char>| #[trigger] f(s) > 0 ==> exists|i: int| 0 <= i < table.len() && #[trigger] table[i].0@ == s
}

/// The table after counting one more `key`.
pub open spec fn bumped(table: Seq<(String, usize)>, key: String) -> Seq<(String, usize)> {
    match row_position(table, key@) {
        Some(i) => table.update(i, (table[i].0, (table[i].1 + 1) as usize)),
        None => table.push((key, 1usize)),
    }
}

pub proof fn lemma_row_position(table: Seq<(String, usize)>, key: Seq<char>)
    ensures
        row_position(table, key) matches Some(i) ==> 0 <= i < table.len() && table[i].0@ == key,
        row_position(table, key) is None ==> forall|j: int|
            0 <= j < table.len() ==> table[j].0@ != key,
    decreases table.len(),
{
    if table.len() > 0 {
        lemma_row_position(table.drop_last(), key);
        assert forall|j: int| 0 <= j < table.len() - 1 implies table[j] == table.drop_last()[j] by {}
    }
}

pub proof fn lemma_sum_update(table: Seq<(String, usize)>, i: int, row: (String, usize))
    requires
        0 <= i < table.len(),
    ensures
        table_sum(table.update(i, row)) + table[i].1 == table_sum(table) + row.1,
    decreases table.len(),
{
    if i < table.len() - 1 {
        lemma_sum_update(table.drop_last(), i, row);
        assert(table.update(i, row).drop_last() =~= table.drop_last().update(i, row));
    } else {
        assert(table.update(i, row).drop_last() =~= table.drop_last());
    }
}

pub proof fn lemma_row_at_most_sum(table: Seq<(String, usize)>, i: int)
    requires
        0 <= i < table.len(),
    ensures
        table[i].1 <= table_sum(table),
    decreases table.len(),
{
    if i < table.len() - 1 {
        lemma_row_at_most_sum(table.drop_last(), i);
    }
}

/// Counting one more `key` keeps the table matched to the counts that grow by
/// one at `key`, and grows its sum by one.
pub proof fn lemma_bumped_counts(
    table: Seq<(String, usize)>,
    key: String,
    f: spec_fn(Seq<char>) -> nat,
    g: spec_fn(Seq<char>) -> nat,
)
    requires
        counts_match(table, f),
        forall|s: Seq<char>| #[trigger] g(s) == f(s) + if s == key@ { 1nat } else { 0nat },
        row_position(table, key@) matches Some(i) ==> table[i].1 < usize::MAX,
    ensures
        counts_match(bumped(table, key), g),
        table_sum(bumped(table, key)) == table_sum(table) + 1,
{
    lemma_row_position(table, key@);
    let after = bumped(table, key);
    match row_position(table, key@) {
        Some(i) => {
            lemma_sum_update(table, i, (table[i].0, (table[i].1 + 1) as usize));
            assert forall|j: int| 0 <= j < after.len() implies #[trigger] after[j].1 == g(
                after[j].0@,
            ) && after[j].1 > 0 by {
                if j != i {
                    assert(table[j].0@ != table[i].0@);
                    assert(g(after[j].0@) == f(table[j].0@));
                }
            }
            assert forall|s: Seq<char>| #[trigger] g(s) > 0 implies exists|j: int|
                0 <= j < after.len() && #[trigger] after[j].0@ == s by {
                if s == key@ {
                    assert(after[i].0@ == s);
                } else {
                    assert(f(s) > 0);
                    let j = choose|j: int| 0 <= j < table.len() && #[trigger] table[j].0@ == s;
                    assert(after[j].0@ == s);
                }
            }
        },
        None => {
            if f(key@) > 0 {
                let j = choose|j: int| 0 <= j < table.len() && #[trigger] table[j].0@ == key@;
                assert(false);
            }
            assert(after.drop_last() =~= table);
            assert forall|j: int| 0 <= j < after.len() implies #[trigger] after[j].1 == g(
                after[j].0@,
            ) && after[j].1 > 0 by {
                if j < table.len() {
                    assert(after[j] == table[j]);
                    assert(g(after[j].0@) == f(table[j].0@));
                }
            }
            assert forall|s: Seq<char>| #[trigger] g(s) > 0 implies exists|j: int|
                0 <= j < after.len() && #[trigger] after[j].0@ == s by {
                if s == key@ {
                    assert(after[table.len() as int].0@ == s);
                } else {
                    assert(f(s) > 0);
                    let j = choose|j: int| 0 <= j < table.len() && #[trigger] table[j].0@ == s;
                    assert(after[j].0@ == s);
                }
            }
        },
    }
}

/// Counts one more `key` in a table.
pub fn bump(table: &mut Vec<(String, usize)>, key: &String)
    requires
        row_position(old(table)@, key@) matches Some(i) ==> old(table)@[i].1 < usize::MAX,
    ensures
        final(table)@ == bumped(old(table)@, *key),
{
    proof {
        lemma_row_position(table@, key@);
    }
    let ghost before = table@;
    let mut i: usize = 0;
    while i < table.len()
        invariant
            table@ == before,
            before == old(table)@,
            i <= table.len(),
            forall|j: int| 0 <= j < i ==> table@[j].0@ != key@,
            row_position(before, key@) matches Some(k) ==> i <= k && before[k].1 < usize::MAX,
        decreases table.len() - i,
    {
        proof {
            lemma_row_position(before, key@);
        }
        if table[i].0 == *key {
            proof {
                lemma_row_position(before, key@);
                if let Some(k) = row_position(before, key@) {
                    if k != i {
                        lemma_first_row(before, key@, i as int);
                    }
                }
            }
            let name = table[i].0.clone();
            let count = table[i].1 + 1;
            table.set(i, (name, count));
            return;
        }
        i = i + 1;
    }
    table.push((key.clone(), 1));
}

pub proof fn lemma_first_row(table: Seq<(String, usize)>, key: Seq<char>, i: int)
    requires
        0 <= i < table.len(),
        table[i].0@ == key,
        forall|j: int| 0 <= j < i ==> table[j].0@ != key,
    ensures
        row_position(table, key) == Some(i),
    decreases table.len(),
{
    if i < table.len() - 1 {
        lemma_first_row(table.drop_last(), key, i);
    } else {
        lemma_row_position(table.drop_last(), key);
    }
}

} // verus!
