//! What a lookup learns from a table of play counts.

use vstd::prelude::*;

use crate::counts::{
    absorb, batches, lemma_sorted, lookup_start, lookup_step, plays, queries_for, query_for,
    sorted, CountStepView, QueryView, RowView, SQLITE_BATCH_LIMIT,
};
use crate::order::{
    increasing, lemma_text_total, lemma_text_transitive, lists_set, text_below,
};

verus! {

/// `list` with `text` put in its place.
spec fn placed(list: Seq<Seq<char>>, text: Seq<char>) -> Seq<Seq<char>>
    decreases list.len(),
{
    if list.len() == 0 || text_below(list.last(), text) {
        list.push(text)
    } else {
        placed(list.drop_last(), text).push(list.last())
    }
}

proof fn lemma_placed(list: Seq<Seq<char>>, text: Seq<char>)
    requires
        increasing(list),
        !list.contains(text),
    ensures
        increasing(placed(list, text)),
        placed(list, text).to_set() == list.to_set().insert(text),
    decreases list.len(),
{
    let result = placed(list, text);
    if list.len() == 0 || text_below(list.last(), text) {
        list.lemma_push_to_set_commute(text);
        assert forall|i: int, j: int|
            #![trigger result[i], result[j]]
            0 <= i < j < result.len() implies text_below(result[i], result[j]) by {
            if j < list.len() {
                assert(text_below(list[i], list[j]));
            } else if i < list.len() - 1 {
                assert(text_below(list[i], list[list.len() - 1]));
                lemma_text_transitive(list[i], list.last(), text);
            }
        }
    } else {
        let shorter = list.drop_last();
        let last = list.last();
        assert(list[list.len() - 1] == last);
        assert(list.contains(last));
        lemma_text_total(last, text);
        assert forall|i: int, j: int|
            #![trigger shorter[i], shorter[j]]
            0 <= i < j < shorter.len() implies text_below(shorter[i], shorter[j]) by {
            assert(text_below(list[i], list[j]));
        }
        assert(!shorter.contains(text)) by {
            if shorter.contains(text) {
                let i = choose|i: int| 0 <= i < shorter.len() && shorter[i] == text;
                assert(list[i] == text);
            }
        }
        lemma_placed(shorter, text);
        let rest = placed(shorter, text);
        rest.lemma_push_to_set_commute(last);
        assert(list =~= shorter.push(last));
        shorter.lemma_push_to_set_commute(last);
        assert(result.to_set() =~= list.to_set().insert(text));
        assert forall|i: int, j: int|
            #![trigger result[i], result[j]]
            0 <= i < j < result.len() implies text_below(result[i], result[j]) by {
            if j < rest.len() {
                assert(text_below(rest[i], rest[j]));
            } else {
                assert(rest.to_set().contains(rest[i]));
                if rest[i] != text {
                    assert(shorter.to_set().contains(rest[i]));
                    let k = choose|k: int| 0 <= k < shorter.len() && shorter[k] == rest[i];
                    assert(text_below(list[k], list[list.len() - 1]));
                }
            }
        }
    }
}

/// Every finite set of texts can be written out in increasing order, and in one
/// way only.
pub proof fn law_sets_have_one_order(set: Set<Seq<char>>)
    requires
        set.finite(),
    ensures
        lists_set(sorted(set), set),
        forall|list: Seq<Seq<char>>| #[trigger] lists_set(list, set) ==> list == sorted(set),
    decreases set.len(),
{
    if set.len() == 0 {
        assert(set =~= Set::empty());
        let empty = Seq::<Seq<char>>::empty();
        assert(empty.to_set() =~= set);
        lemma_sorted(empty, set);
    } else {
        let text = set.choose();
        law_sets_have_one_order(set.remove(text));
        let rest = sorted(set.remove(text));
        assert(!rest.contains(text)) by {
            assert(!rest.to_set().contains(text));
        }
        lemma_placed(rest, text);
        assert(placed(rest, text).to_set() =~= set);
        lemma_sorted(placed(rest, text), set);
    }
    assert forall|list: Seq<Seq<char>>| #[trigger] lists_set(list, set) implies list == sorted(
        set,
    ) by {
        lemma_sorted(list, set);
    }
}

/// A lookup names every digest once: the digest at position `i` is parameter
/// `i % limit` of query `i / limit`. Each query has between one and the limit.
pub proof fn law_queries_name_each_digest_once(urlmd5s: Seq<Seq<char>>)
    ensures
        queries_for(urlmd5s).len() == batches(urlmd5s.len()),
        forall|q: int|
            0 <= q < queries_for(urlmd5s).len() ==> 1 <= (
            #[trigger] queries_for(urlmd5s)[q]).urlmd5s.len() <= SQLITE_BATCH_LIMIT
                && queries_for(urlmd5s)[q] == query_for(queries_for(urlmd5s)[q].urlmd5s),
        forall|q: int, k: int|
            #![trigger queries_for(urlmd5s)[q].urlmd5s[k]]
            0 <= q < queries_for(urlmd5s).len() && 0 <= k < queries_for(urlmd5s)[q].urlmd5s.len()
                ==> q * SQLITE_BATCH_LIMIT + k < urlmd5s.len() && queries_for(urlmd5s)[q].urlmd5s[k]
                == urlmd5s[q * SQLITE_BATCH_LIMIT + k],
        forall|i: int|
            #![trigger urlmd5s[i]]
            0 <= i < urlmd5s.len() ==> ({
                let q = i / (SQLITE_BATCH_LIMIT as int);
                let k = i % (SQLITE_BATCH_LIMIT as int);
                &&& q < queries_for(urlmd5s).len()
                &&& k < queries_for(urlmd5s)[q].urlmd5s.len()
                &&& queries_for(urlmd5s)[q].urlmd5s[k] == urlmd5s[i]
            }),
{
}

/// Some row is about `urlmd5`.
pub open spec fn has_row(rows: Seq<RowView>, urlmd5: Seq<char>) -> bool {
    exists|i: int| 0 <= i < rows.len() && (#[trigger] rows[i]).urlmd5 == urlmd5
}

/// A query is answered from `table`: its rows are those of the named digests.
pub open spec fn answers_from(
    table: Map<Seq<char>, Option<i64>>,
    named: Seq<Seq<char>>,
    rows: Seq<RowView>,
) -> bool {
    &&& forall|i: int|
        #![trigger rows[i]]
        0 <= i < rows.len() ==> named.contains(rows[i].urlmd5) && table.contains_key(rows[i].urlmd5)
            && table[rows[i].urlmd5] == rows[i].playcount
    &&& forall|urlmd5: Seq<char>| #[trigger]
        named.contains(urlmd5) && table.contains_key(urlmd5) ==> has_row(rows, urlmd5)
}

/// The plays that a table records for a set of digests.
pub open spec fn recorded(
    table: Map<Seq<char>, Option<i64>>,
    urlmd5s: Set<Seq<char>>,
) -> Map<Seq<char>, u64> {
    Map::new(
        |urlmd5: Seq<char>| urlmd5s.contains(urlmd5) && table.contains_key(urlmd5),
        |urlmd5: Seq<char>| plays(table[urlmd5]),
    )
}

/// Where a lookup stands after a run of answers.
pub open spec fn lookup_run(step: CountStepView, answers: Seq<Seq<RowView>>) -> CountStepView
    decreases answers.len(),
{
    match step {
        CountStepView::Fetch { query, later, counts } => if answers.len() == 0 {
            step
        } else {
            lookup_run(lookup_step(later, absorb(counts, answers[0])), answers.skip(1))
        },
        _ => step,
    }
}

proof fn lemma_absorb(
    table: Map<Seq<char>, Option<i64>>,
    counts: Map<Seq<char>, u64>,
    rows: Seq<RowView>,
)
    requires
        forall|i: int|
            #![trigger rows[i]]
            0 <= i < rows.len() ==> table[rows[i].urlmd5] == rows[i].playcount,
    ensures
        forall|u: Seq<char>|
            #![trigger absorb(counts, rows).contains_key(u)]
            absorb(counts, rows).contains_key(u) <==> counts.contains_key(u) || has_row(rows, u),
        forall|u: Seq<char>|
            #![trigger absorb(counts, rows)[u]]
            absorb(counts, rows).contains_key(u) ==> absorb(counts, rows)[u] == if has_row(
                rows,
                u,
            ) {
                plays(table[u])
            } else {
                counts[u]
            },
    decreases rows.len(),
{
    if rows.len() > 0 {
        let shorter = rows.drop_last();
        let last = rows.last();
        assert(rows[rows.len() - 1] == last);
        assert forall|i: int|
            #![trigger shorter[i]]
            0 <= i < shorter.len() implies table[shorter[i].urlmd5] == shorter[i].playcount by {
            assert(rows[i] == shorter[i]);
        }
        lemma_absorb(table, counts, shorter);
        let before = absorb(counts, shorter);
        let now = absorb(counts, rows);
        assert(now == before.insert(last.urlmd5, plays(last.playcount)));
        assert forall|u: Seq<char>|
            #![trigger now.contains_key(u)]
            #![trigger now[u]]
            {
                &&& now.contains_key(u) <==> counts.contains_key(u) || has_row(rows, u)
                &&& now.contains_key(u) ==> now[u] == if has_row(rows, u) {
                    plays(table[u])
                } else {
                    counts[u]
                }
            } by {
            assert(before.contains_key(u) <==> counts.contains_key(u) || has_row(shorter, u));
            assert(before.contains_key(u) ==> before[u] == if has_row(shorter, u) {
                plays(table[u])
            } else {
                counts[u]
            });
            if has_row(rows, u) {
                let i = choose|i: int| 0 <= i < rows.len() && (#[trigger] rows[i]).urlmd5 == u;
                if i < shorter.len() {
                    assert(shorter[i].urlmd5 == u);
                }
            }
            if has_row(shorter, u) {
                let i = choose|i: int|
                    0 <= i < shorter.len() && (#[trigger] shorter[i]).urlmd5 == u;
                assert(rows[i].urlmd5 == u);
            }
        }
    }
}

/// Some query names `urlmd5`.
spec fn named_by(queries: Seq<QueryView>, urlmd5: Seq<char>) -> bool {
    exists|q: int| 0 <= q < queries.len() && (#[trigger] queries[q]).urlmd5s.contains(urlmd5)
}

/// `counts` overlaid with what `table` records for the digests that `queries` name.
spec fn overlaid(
    counts: Map<Seq<char>, u64>,
    table: Map<Seq<char>, Option<i64>>,
    queries: Seq<QueryView>,
) -> Map<Seq<char>, u64> {
    Map::new(
        |u: Seq<char>| counts.contains_key(u) || (named_by(queries, u) && table.contains_key(u)),
        |u: Seq<char>|
            if named_by(queries, u) && table.contains_key(u) {
                plays(table[u])
            } else {
                counts[u]
            },
    )
}

proof fn lemma_lookup_run(
    table: Map<Seq<char>, Option<i64>>,
    queries: Seq<QueryView>,
    counts: Map<Seq<char>, u64>,
    answers: Seq<Seq<RowView>>,
)
    requires
        answers.len() == queries.len(),
        forall|q: int|
            #![trigger answers[q]]
            0 <= q < queries.len() ==> answers_from(table, queries[q].urlmd5s, answers[q]),
    ensures
        lookup_run(lookup_step(queries, counts), answers) == CountStepView::Done(
            overlaid(counts, table, queries),
        ),
    decreases queries.len(),
{
    if queries.len() == 0 {
        assert(overlaid(counts, table, queries) =~= counts);
    } else {
        let rows = answers[0];
        let now = absorb(counts, rows);
        let later = queries.skip(1);
        assert(answers_from(table, queries[0].urlmd5s, rows));
        lemma_absorb(table, counts, rows);
        assert forall|q: int| #![trigger answers.skip(1)[q]] 0 <= q < later.len() implies answers_from(
            table,
            later[q].urlmd5s,
            answers.skip(1)[q],
        ) by {
            assert(answers.skip(1)[q] == answers[q + 1]);
            assert(later[q] == queries[q + 1]);
        }
        lemma_lookup_run(table, later, now, answers.skip(1));
        assert forall|u: Seq<char>| named_by(queries, u) <==> queries[0].urlmd5s.contains(u)
            || named_by(later, u) by {
            if named_by(queries, u) {
                let q = choose|q: int|
                    0 <= q < queries.len() && (#[trigger] queries[q]).urlmd5s.contains(u);
                if q > 0 {
                    assert(later[q - 1] == queries[q]);
                }
            }
            if named_by(later, u) {
                let q = choose|q: int|
                    0 <= q < later.len() && (#[trigger] later[q]).urlmd5s.contains(u);
                assert(queries[q + 1] == later[q]);
            }
        }
        let a = overlaid(now, table, later);
        let b = overlaid(counts, table, queries);
        assert forall|u: Seq<char>|
            #![trigger a.contains_key(u)]
            #![trigger b.contains_key(u)]
            {
                &&& a.contains_key(u) <==> b.contains_key(u)
                &&& a.contains_key(u) ==> a[u] == b[u]
            } by {
            assert(has_row(rows, u) <==> queries[0].urlmd5s.contains(u) && table.contains_key(
                u,
            )) by {
                if has_row(rows, u) {
                    let i = choose|i: int| 0 <= i < rows.len() && (#[trigger] rows[i]).urlmd5 == u;
                    assert(rows[i].urlmd5 == u);
                }
            }
            assert(now.contains_key(u) <==> counts.contains_key(u) || has_row(rows, u));
            assert(now.contains_key(u) ==> now[u] == if has_row(rows, u) {
                plays(table[u])
            } else {
                counts[u]
            });
        }
        assert(a =~= b);
    }
}

/// A lookup gives back what the table records, however many queries it takes:
/// once every query has been answered from `table`, it is done, and knows the
/// plays of exactly those of its digests that the table holds.
pub proof fn law_lookup_reads_the_table(
    table: Map<Seq<char>, Option<i64>>,
    urlmd5s: Set<Seq<char>>,
    answers: Seq<Seq<RowView>>,
)
    requires
        urlmd5s.finite(),
        answers.len() == queries_for(sorted(urlmd5s)).len(),
        forall|q: int|
            #![trigger answers[q]]
            0 <= q < answers.len() ==> answers_from(
                table,
                queries_for(sorted(urlmd5s))[q].urlmd5s,
                answers[q],
            ),
    ensures
        lookup_run(lookup_start(urlmd5s), answers) == CountStepView::Done(
            recorded(table, urlmd5s),
        ),
{
    let list = sorted(urlmd5s);
    let queries = queries_for(list);
    law_sets_have_one_order(urlmd5s);
    lemma_lookup_run(table, queries, Map::empty(), answers);
    law_queries_name_each_digest_once(list);
    assert forall|u: Seq<char>| named_by(queries, u) <==> urlmd5s.contains(u) by {
        assert(list.to_set().contains(u) == list.contains(u));
        if named_by(queries, u) {
            let q = choose|q: int|
                0 <= q < queries.len() && (#[trigger] queries[q]).urlmd5s.contains(u);
            let k = choose|k: int|
                0 <= k < queries[q].urlmd5s.len() && queries[q].urlmd5s[k] == u;
            assert(queries[q].urlmd5s[k] == list[q * SQLITE_BATCH_LIMIT + k]);
        }
        if list.contains(u) {
            let i = choose|i: int| 0 <= i < list.len() && list[i] == u;
            let q = i / SQLITE_BATCH_LIMIT as int;
            assert(queries[q].urlmd5s[i % SQLITE_BATCH_LIMIT as int] == u);
            assert(queries[q].urlmd5s.contains(u));
        }
    }
    assert(overlaid(Map::empty(), table, queries) =~= recorded(table, urlmd5s));
}

} // verus!
