//! What a lookup asks, and what it learns from the rows that come back.

use vstd::prelude::*;

use crate::counts::{
    absorb, batch_count, batches, count_sql, lookup_start, lookup_step, placeholders, queries_for,
    query_counts, query_views, row_views, sorted, CountLookup, CountQuery, CountRow, CountStep,
    CountStepView, QueryFailure,
};
use crate::laws::lookup::{law_queries_name_each_digest_once, law_sets_have_one_order};
use crate::laws::terms::{lemma_listed, lemma_precedes, listed, precedes, stored_plays};
use crate::text::texts;

verus! {

/// How every query begins.
pub open spec fn query_head() -> Seq<char> {
    "SELECT urlmd5, playcount FROM tracks_persistent WHERE urlmd5 IN ("@
}

/// `text` asks for the rows of `n` digests, character by character: the head, `n`
/// question marks with a comma between any two, a closing bracket, and no more.
pub open spec fn asks(text: Seq<char>, n: nat) -> bool {
    let start = query_head().len() as int;
    let marks = if n == 0 {
        0
    } else {
        2 * n - 1
    };
    &&& text.len() == start + marks + 1
    &&& forall|i: int| 0 <= i < start ==> #[trigger] text[i] == query_head()[i]
    &&& forall|i: int|
        start <= i < start + marks ==> #[trigger] text[i] == if (i - start) % 2 == 0 {
            '?'
        } else {
            ','
        }
    &&& text[start + marks] == ')'
}

proof fn lemma_asks(n: nat)
    ensures
        asks(count_sql(n), n),
{
    reveal_strlit(")");
    let text = count_sql(n);
    let start = query_head().len() as int;
    assert(")"@ =~= seq![')']);
    assert forall|i: int| start <= i < start + placeholders(n).len() implies #[trigger] text[i]
        == placeholders(n)[i - start] by {}
}

/// How many digests a run of queries names, all but the last being full.
pub open spec fn size(queries: Seq<CountQuery>) -> int {
    if queries.len() == 0 {
        0
    } else {
        900 * (queries.len() - 1) + queries.last().urlmd5s@.len()
    }
}

/// The `i`th digest that a run of queries names.
pub open spec fn nth(queries: Seq<CountQuery>, i: int) -> Seq<char> {
    queries[i / 900].urlmd5s@[i % 900]@
}

/// A run of queries names `urlmd5`.
pub open spec fn names(queries: Seq<CountQuery>, urlmd5: Seq<char>) -> bool {
    exists|i: int| 0 <= i < size(queries) && #[trigger] nth(queries, i) == urlmd5
}

/// A run of queries asks for exactly the digests in `wanted`: each query binds one
/// parameter for each question mark, up to the limit and no fewer than that before
/// the last; the digests come in byte order, so that none comes twice.
pub open spec fn asks_for(queries: Seq<CountQuery>, wanted: Set<Seq<char>>) -> bool {
    &&& forall|q: int|
        #![trigger queries[q]]
        0 <= q < queries.len() ==> asks(queries[q].sql@, queries[q].urlmd5s@.len()) && 1
            <= queries[q].urlmd5s@.len() <= 900 && (q < queries.len() - 1
            ==> queries[q].urlmd5s@.len() == 900)
    &&& forall|i: int, j: int|
        #![trigger nth(queries, i), nth(queries, j)]
        0 <= i < j < size(queries) ==> precedes(nth(queries, i), nth(queries, j))
    &&& forall|urlmd5: Seq<char>| #[trigger] wanted.contains(urlmd5) == names(queries, urlmd5)
}

proof fn lemma_asks_for(queries: Seq<CountQuery>, wanted: Set<Seq<char>>)
    requires
        wanted.finite(),
        query_views(queries) == queries_for(sorted(wanted)),
    ensures
        asks_for(queries, wanted),
{
    let list = sorted(wanted);
    let views = queries_for(list);
    law_sets_have_one_order(wanted);
    law_queries_name_each_digest_once(list);
    assert(queries.len() == batches(list.len()));
    assert forall|q: int| #![trigger queries[q]] 0 <= q < queries.len() implies queries[q]@
        == views[q] && queries[q].urlmd5s@.len() == views[q].urlmd5s.len() && views[q].sql
        == count_sql(views[q].urlmd5s.len()) by {
        assert(query_views(queries)[q] == queries[q]@);
    }
    assert forall|q: int| #![trigger queries[q]] 0 <= q < queries.len() implies asks(
        queries[q].sql@,
        queries[q].urlmd5s@.len(),
    ) && 1 <= queries[q].urlmd5s@.len() <= 900 && (q < queries.len() - 1
        ==> queries[q].urlmd5s@.len() == 900) by {
        lemma_asks(queries[q].urlmd5s@.len());
    }
    assert(size(queries) == list.len()) by {
        if queries.len() > 0 {
            let q = queries.len() - 1;
            assert(queries[q].urlmd5s@.len() == views[q].urlmd5s.len());
        }
    }
    assert forall|i: int| 0 <= i < list.len() implies #[trigger] nth(queries, i) == list[i] by {
        let q = i / 900;
        let k = i % 900;
        assert(views[q].urlmd5s[k] == list[i]);
        assert(queries[q]@ == views[q]);
        assert(texts(queries[q].urlmd5s@)[k] == queries[q].urlmd5s@[k]@);
    }
    assert forall|i: int, j: int|
        #![trigger nth(queries, i), nth(queries, j)]
        0 <= i < j < size(queries) implies precedes(nth(queries, i), nth(queries, j)) by {
        assert(crate::order::text_below(list[i], list[j]));
        lemma_precedes(list[i], list[j]);
    }
    assert forall|urlmd5: Seq<char>| #[trigger] wanted.contains(urlmd5) == names(
        queries,
        urlmd5,
    ) by {
        assert(list.to_set().contains(urlmd5) == list.contains(urlmd5));
        if list.contains(urlmd5) {
            let i = choose|i: int| 0 <= i < list.len() && list[i] == urlmd5;
            assert(nth(queries, i) == urlmd5);
        }
        if names(queries, urlmd5) {
            let i = choose|i: int| 0 <= i < size(queries) && #[trigger] nth(queries, i) == urlmd5;
            assert(list[i] == urlmd5);
        }
    }
}

/// A lookup has begun that will ask for the digests in `wanted`, and is done at once
/// where there is none.
pub open spec fn lookup_begun(step: CountStep, wanted: Set<Seq<char>>) -> bool {
    match step {
        CountStep::Fetch(lookup) => {
            &&& lookup.counts@ == Map::<Seq<char>, u64>::empty()
            &&& asks_for(seq![lookup.query] + lookup.later@, wanted)
        },
        CountStep::Done(counts) => {
            &&& counts@ == Map::<Seq<char>, u64>::empty()
            &&& forall|urlmd5: Seq<char>| !#[trigger] wanted.contains(urlmd5)
        },
        CountStep::Failed(_) => false,
    }
}

/// How a lookup begins, field by field.
pub proof fn lemma_lookup_begun(step: CountStep, wanted: Set<Seq<char>>)
    requires
        wanted.finite(),
        step@ == lookup_start(wanted),
    ensures
        lookup_begun(step, wanted),
{
    let views = queries_for(sorted(wanted));
    match step {
        CountStep::Fetch(lookup) => {
            let queries = seq![lookup.query] + lookup.later@;
            let later = query_views(lookup.later@);
            assert(lookup.query@ == views[0] && later == views.skip(1));
            assert(later.len() == lookup.later@.len());
            assert(query_views(queries) =~= views) by {
                assert forall|q: int| 0 <= q < views.len() implies #[trigger] query_views(queries)[q]
                    == views[q] by {
                    if q > 0 {
                        assert(later[q - 1] == views.skip(1)[q - 1]);
                        assert(queries[q] == lookup.later@[q - 1]);
                    } else {
                        assert(queries[0] == lookup.query);
                    }
                }
            }
            lemma_asks_for(queries, wanted);
        },
        CountStep::Done(counts) => {
            assert(query_views(Seq::<CountQuery>::empty()) =~= views);
            lemma_asks_for(Seq::<CountQuery>::empty(), wanted);
            assert forall|urlmd5: Seq<char>| !#[trigger] wanted.contains(urlmd5) by {
                assert(!names(Seq::<CountQuery>::empty(), urlmd5));
            }
        },
        CountStep::Failed(_) => {},
    }
}

/// A lookup asks for every digest of its list, each once, and for no other.
pub proof fn law_lookups_ask_for_every_digest(urlmd5s: &[String], step: CountStep)
    requires
        call_ensures(query_counts, (urlmd5s,), step),
    ensures
        lookup_begun(step, Set::new(|urlmd5: Seq<char>| listed(urlmd5s@, urlmd5))),
{
    let wanted = Set::new(|urlmd5: Seq<char>| listed(urlmd5s@, urlmd5));
    assert(texts(urlmd5s@).to_set() =~= wanted) by {
        assert forall|urlmd5: Seq<char>|
            texts(urlmd5s@).to_set().contains(urlmd5) == #[trigger] wanted.contains(urlmd5) by {
            lemma_listed(urlmd5s@, urlmd5);
            assert(texts(urlmd5s@).to_set().contains(urlmd5) == texts(urlmd5s@).contains(urlmd5));
        }
    }
    vstd::seq_lib::seq_to_set_is_finite(texts(urlmd5s@));
    lemma_lookup_begun(step, wanted);
}

/// The row at `k` is the last one about `urlmd5`.
pub open spec fn last_row(rows: Seq<CountRow>, urlmd5: Seq<char>, k: int) -> bool {
    &&& 0 <= k < rows.len()
    &&& rows[k].urlmd5@ == urlmd5
    &&& forall|m: int| k < m < rows.len() ==> (#[trigger] rows[m]).urlmd5@ != urlmd5
}

/// No row is about `urlmd5`.
pub open spec fn no_row(rows: Seq<CountRow>, urlmd5: Seq<char>) -> bool {
    forall|k: int| 0 <= k < rows.len() ==> (#[trigger] rows[k]).urlmd5@ != urlmd5
}

/// `after` is what is known once `rows` are added to `before`: of a digest with a row
/// the plays that its last row stands for, of any other what was known.
pub open spec fn learned(
    before: Map<Seq<char>, u64>,
    rows: Seq<CountRow>,
    after: Map<Seq<char>, u64>,
) -> bool {
    &&& forall|urlmd5: Seq<char>, k: int| #[trigger]
        last_row(rows, urlmd5, k) ==> after.contains_key(urlmd5) && after[urlmd5] == stored_plays(
            rows[k].playcount,
        )
    &&& forall|urlmd5: Seq<char>| #[trigger]
        no_row(rows, urlmd5) ==> after.contains_key(urlmd5) == before.contains_key(urlmd5) && (
        before.contains_key(urlmd5) ==> after[urlmd5] == before[urlmd5])
}

/// What rows add to what is known.
pub proof fn lemma_learned(before: Map<Seq<char>, u64>, rows: Seq<CountRow>)
    ensures
        learned(before, rows, absorb(before, row_views(rows))),
    decreases rows.len(),
{
    if rows.len() > 0 {
        let shorter = rows.drop_last();
        lemma_learned(before, shorter);
        assert(row_views(rows).drop_last() =~= row_views(shorter));
        let last = rows.len() - 1;
        let earlier = absorb(before, row_views(shorter));
        let after = absorb(before, row_views(rows));
        assert(row_views(rows).last() == rows[last]@);
        assert forall|urlmd5: Seq<char>, k: int| #[trigger]
            last_row(rows, urlmd5, k) implies after.contains_key(urlmd5) && after[urlmd5]
            == stored_plays(rows[k].playcount) by {
            if k < last {
                assert(rows[last].urlmd5@ != urlmd5);
                assert forall|m: int| k < m < shorter.len() implies (
                #[trigger] shorter[m]).urlmd5@ != urlmd5 by {
                    assert(rows[m] == shorter[m]);
                }
                assert(last_row(shorter, urlmd5, k));
            }
        }
        assert forall|urlmd5: Seq<char>| #[trigger]
            no_row(rows, urlmd5) implies after.contains_key(urlmd5) == before.contains_key(urlmd5)
            && (before.contains_key(urlmd5) ==> after[urlmd5] == before[urlmd5]) by {
            assert(rows[last].urlmd5@ != urlmd5);
            assert forall|k: int| 0 <= k < shorter.len() implies (
            #[trigger] shorter[k]).urlmd5@ != urlmd5 by {
                assert(rows[k] == shorter[k]);
            }
            assert(no_row(shorter, urlmd5));
            assert(earlier.contains_key(urlmd5) == before.contains_key(urlmd5));
        }
    }
}

/// Two queries say the same, parameter by parameter.
pub open spec fn same_query(a: CountQuery, b: CountQuery) -> bool {
    &&& a.sql@ == b.sql@
    &&& a.urlmd5s@.len() == b.urlmd5s@.len()
    &&& forall|i: int| 0 <= i < a.urlmd5s@.len() ==> (#[trigger] a.urlmd5s@[i])@ == b.urlmd5s@[i]@
}

/// What is said of a query that failed.
pub open spec fn failed_query(failure: QueryFailure) -> Seq<char> {
    match failure {
        QueryFailure::Prepare(error) => "cannot prepare play-count query: "@ + error@,
        QueryFailure::Query(error) => "cannot query play counts: "@ + error@,
        QueryFailure::Decode(error) => "cannot decode play count: "@ + error@,
    }
}

/// A lookup has taken an answer: it knows what the rows say, and goes on with the
/// next query, unless that was the last one or failed.
pub open spec fn lookup_resumed(
    lookup: CountLookup,
    answer: Result<Vec<CountRow>, QueryFailure>,
    step: CountStep,
) -> bool {
    match answer {
        Ok(rows) => if lookup.later@.len() == 0 {
            step matches CountStep::Done(counts) && learned(lookup.counts@, rows@, counts@)
        } else {
            &&& step matches CountStep::Fetch(next)
            &&& learned(lookup.counts@, rows@, next.counts@)
            &&& same_query(next.query, lookup.later@[0])
            &&& next.later@.len() == lookup.later@.len() - 1
            &&& forall|q: int|
                0 <= q < next.later@.len() ==> same_query(
                    #[trigger] next.later@[q],
                    lookup.later@[q + 1],
                )
        },
        Err(failure) => step matches CountStep::Failed(message) && message@ == failed_query(
            failure,
        ),
    }
}

proof fn lemma_same_query(a: CountQuery, b: CountQuery)
    requires
        a@ == b@,
    ensures
        same_query(a, b),
{
    assert(a.urlmd5s@.len() == texts(a.urlmd5s@).len());
    assert(b.urlmd5s@.len() == texts(b.urlmd5s@).len());
    assert forall|i: int| 0 <= i < a.urlmd5s@.len() implies (#[trigger] a.urlmd5s@[i])@
        == b.urlmd5s@[i]@ by {
        assert(texts(a.urlmd5s@)[i] == texts(b.urlmd5s@)[i]);
    }
}

/// How a lookup goes on, field by field.
pub proof fn lemma_lookup_resumed(
    lookup: CountLookup,
    answer: Result<Vec<CountRow>, QueryFailure>,
    step: CountStep,
)
    requires
        step@ == (match answer {
            Ok(rows) => lookup_step(
                query_views(lookup.later@),
                absorb(lookup.counts@, row_views(rows@)),
            ),
            Err(failure) => CountStepView::Failed(
                crate::counts::query_failure_message(failure),
            ),
        }),
    ensures
        lookup_resumed(lookup, answer, step),
{
    if let Ok(rows) = answer {
        lemma_learned(lookup.counts@, rows@);
        if lookup.later@.len() > 0 {
            let views = query_views(lookup.later@);
            assert(views.len() == lookup.later@.len());
            if let CountStep::Fetch(next) = step {
                assert(next.query@ == views[0]);
                lemma_same_query(next.query, lookup.later@[0]);
                assert(query_views(next.later@).len() == next.later@.len());
                assert forall|q: int| 0 <= q < next.later@.len() implies same_query(
                    #[trigger] next.later@[q],
                    lookup.later@[q + 1],
                ) by {
                    assert(query_views(next.later@)[q] == views.skip(1)[q]);
                    lemma_same_query(next.later@[q], lookup.later@[q + 1]);
                }
            }
        }
    }
}

/// A lookup learns from each answer what its rows say: of every digest with a row
/// the plays that it stands for, and nothing of any other.
pub proof fn law_lookups_learn_what_rows_say(
    lookup: CountLookup,
    answer: Result<Vec<CountRow>, QueryFailure>,
    step: CountStep,
)
    requires
        call_ensures(CountLookup::resume, (lookup, answer), step),
    ensures
        lookup_resumed(lookup, answer, step),
{
    lemma_lookup_resumed(lookup, answer, step);
}

/// A query is answered from a table of stored counts: with the rows of the digests
/// that it names, as far as the table has them.
pub open spec fn answered(
    query: CountQuery,
    rows: Seq<CountRow>,
    table: Map<Seq<char>, Option<i64>>,
) -> bool {
    &&& forall|k: int|
        #![trigger rows[k]]
        0 <= k < rows.len() ==> listed(query.urlmd5s@, rows[k].urlmd5@) && table.contains_key(
            rows[k].urlmd5@,
        ) && table[rows[k].urlmd5@] == rows[k].playcount
    &&& forall|urlmd5: Seq<char>| #[trigger]
        listed(query.urlmd5s@, urlmd5) && table.contains_key(urlmd5) ==> exists|k: int|
            0 <= k < rows.len() && (#[trigger] rows[k]).urlmd5@ == urlmd5
}

/// The queries that a step of a lookup has still to send.
pub open spec fn unsent(step: CountStep) -> Seq<CountQuery> {
    match step {
        CountStep::Fetch(lookup) => seq![lookup.query] + lookup.later@,
        _ => Seq::empty(),
    }
}

/// What a step of a lookup knows.
pub open spec fn known_at(step: CountStep) -> Map<Seq<char>, u64> {
    match step {
        CountStep::Fetch(lookup) => lookup.counts@,
        CountStep::Done(counts) => counts@,
        CountStep::Failed(_) => Map::empty(),
    }
}

/// A lookup at `step` was answered from `table` with `rows`, and went on to `next`.
pub open spec fn went_on(
    step: CountStep,
    rows: Vec<CountRow>,
    table: Map<Seq<char>, Option<i64>>,
    next: CountStep,
) -> bool {
    &&& step matches CountStep::Fetch(lookup)
    &&& answered(lookup.query, rows@, table)
    &&& lookup_resumed(lookup, Ok(rows), next)
}

/// A lookup has run over `steps`, and each of its queries was answered from `table`.
pub open spec fn ran_on(
    steps: Seq<CountStep>,
    answers: Seq<Vec<CountRow>>,
    table: Map<Seq<char>, Option<i64>>,
) -> bool {
    &&& steps.len() == answers.len() + 1
    &&& forall|i: int|
        #![trigger answers[i]]
        0 <= i < answers.len() ==> went_on(steps[i], answers[i], table, steps[i + 1])
    &&& steps.last() is Done
}

/// Some query of a list names `urlmd5`.
spec fn named(queries: Seq<CountQuery>, urlmd5: Seq<char>) -> bool {
    exists|q: int| 0 <= q < queries.len() && listed((#[trigger] queries[q]).urlmd5s@, urlmd5)
}

proof fn lemma_same_listed(a: CountQuery, b: CountQuery, urlmd5: Seq<char>)
    requires
        same_query(a, b),
    ensures
        listed(a.urlmd5s@, urlmd5) == listed(b.urlmd5s@, urlmd5),
{
    if listed(a.urlmd5s@, urlmd5) {
        let i = choose|i: int|
            0 <= i < a.urlmd5s@.len() && (#[trigger] a.urlmd5s@[i])@ == urlmd5;
        assert(b.urlmd5s@[i]@ == urlmd5);
    }
    if listed(b.urlmd5s@, urlmd5) {
        let i = choose|i: int|
            0 <= i < b.urlmd5s@.len() && (#[trigger] b.urlmd5s@[i])@ == urlmd5;
        assert(a.urlmd5s@[i]@ == urlmd5);
    }
}

proof fn lemma_last_row(rows: Seq<CountRow>, urlmd5: Seq<char>, k: int) -> (last: int)
    requires
        0 <= k < rows.len(),
        rows[k].urlmd5@ == urlmd5,
    ensures
        last_row(rows, urlmd5, last),
    decreases rows.len() - k,
{
    if forall|m: int| k < m < rows.len() ==> (#[trigger] rows[m]).urlmd5@ != urlmd5 {
        k
    } else {
        let m = choose|m: int| k < m < rows.len() && (#[trigger] rows[m]).urlmd5@ == urlmd5;
        lemma_last_row(rows, urlmd5, m)
    }
}

/// What is known of `urlmd5` once the rows of a query were learned.
proof fn lemma_learned_from(
    query: CountQuery,
    rows: Seq<CountRow>,
    table: Map<Seq<char>, Option<i64>>,
    before: Map<Seq<char>, u64>,
    after: Map<Seq<char>, u64>,
    urlmd5: Seq<char>,
)
    requires
        answered(query, rows, table),
        learned(before, rows, after),
    ensures
        if listed(query.urlmd5s@, urlmd5) && table.contains_key(urlmd5) {
            after.contains_key(urlmd5) && after[urlmd5] == stored_plays(table[urlmd5])
        } else {
            &&& after.contains_key(urlmd5) == before.contains_key(urlmd5)
            &&& before.contains_key(urlmd5) ==> after[urlmd5] == before[urlmd5]
        },
{
    if listed(query.urlmd5s@, urlmd5) && table.contains_key(urlmd5) {
        let k = choose|k: int| 0 <= k < rows.len() && (#[trigger] rows[k]).urlmd5@ == urlmd5;
        let last = lemma_last_row(rows, urlmd5, k);
        assert(rows[last].urlmd5@ == urlmd5);
    } else {
        assert forall|k: int| 0 <= k < rows.len() implies (#[trigger] rows[k]).urlmd5@ != urlmd5 by {
            assert(listed(query.urlmd5s@, rows[k].urlmd5@));
        }
        assert(no_row(rows, urlmd5));
    }
}

proof fn lemma_ran_on(
    steps: Seq<CountStep>,
    answers: Seq<Vec<CountRow>>,
    table: Map<Seq<char>, Option<i64>>,
    urlmd5: Seq<char>,
)
    requires
        ran_on(steps, answers, table),
    ensures
        ({
            let first = known_at(steps[0]);
            let last = known_at(steps.last());
            if named(unsent(steps[0]), urlmd5) && table.contains_key(urlmd5) {
                last.contains_key(urlmd5) && last[urlmd5] == stored_plays(table[urlmd5])
            } else {
                &&& last.contains_key(urlmd5) == first.contains_key(urlmd5)
                &&& first.contains_key(urlmd5) ==> last[urlmd5] == first[urlmd5]
            }
        }),
    decreases steps.len(),
{
    if answers.len() > 0 {
        let rest = steps.skip(1);
        assert(went_on(steps[0], answers[0], table, steps[1]));
        let lookup = steps[0]->Fetch_0;
        assert(answered(lookup.query, answers[0]@, table));
        assert(lookup_resumed(lookup, Ok(answers[0]), steps[1]));
        assert(ran_on(rest, answers.skip(1), table)) by {
            assert forall|i: int| #![trigger answers.skip(1)[i]] 0 <= i < answers.skip(1).len() implies went_on(
                rest[i],
                answers.skip(1)[i],
                table,
                rest[i + 1],
            ) by {
                assert(answers.skip(1)[i] == answers[i + 1]);
                assert(rest[i] == steps[i + 1] && rest[i + 1] == steps[i + 1 + 1]);
            }
            assert(rest.last() == steps.last());
        }
        lemma_ran_on(rest, answers.skip(1), table, urlmd5);
        assert(rest[0] == steps[1] && rest.last() == steps.last());
        lemma_learned_from(
            lookup.query,
            answers[0]@,
            table,
            lookup.counts@,
            known_at(steps[1]),
            urlmd5,
        );
        let all = unsent(steps[0]);
        let later = unsent(steps[1]);
        assert(later.len() == all.len() - 1);
        assert forall|q: int| 0 <= q < later.len() implies same_query(
            #[trigger] later[q],
            all[q + 1],
        ) by {
            if let CountStep::Fetch(next) = steps[1] {
                if q > 0 {
                    assert(later[q] == next.later@[q - 1]);
                }
            }
        }
        assert(named(all, urlmd5) == (listed(lookup.query.urlmd5s@, urlmd5) || named(
            later,
            urlmd5,
        ))) by {
            assert(all[0] == lookup.query);
            if named(all, urlmd5) {
                let q = choose|q: int|
                    0 <= q < all.len() && listed((#[trigger] all[q]).urlmd5s@, urlmd5);
                if q > 0 {
                    lemma_same_listed(later[q - 1], all[q], urlmd5);
                }
            }
            if named(later, urlmd5) {
                let q = choose|q: int|
                    0 <= q < later.len() && listed((#[trigger] later[q]).urlmd5s@, urlmd5);
                lemma_same_listed(later[q], all[q + 1], urlmd5);
            }
        }
    }
}

proof fn lemma_named(queries: Seq<CountQuery>, wanted: Set<Seq<char>>, urlmd5: Seq<char>)
    requires
        asks_for(queries, wanted),
    ensures
        named(queries, urlmd5) == wanted.contains(urlmd5),
{
    assert(wanted.contains(urlmd5) == names(queries, urlmd5));
    if names(queries, urlmd5) {
        let i = choose|i: int| 0 <= i < size(queries) && #[trigger] nth(queries, i) == urlmd5;
        let q = i / 900;
        let k = i % 900;
        assert(0 <= q < queries.len());
        assert(k < queries[q].urlmd5s@.len());
        assert(queries[q].urlmd5s@[k]@ == urlmd5);
        assert(listed(queries[q].urlmd5s@, urlmd5));
    }
    if named(queries, urlmd5) {
        let q = choose|q: int|
            0 <= q < queries.len() && listed((#[trigger] queries[q]).urlmd5s@, urlmd5);
        let k = choose|k: int|
            0 <= k < queries[q].urlmd5s@.len() && (#[trigger] queries[q].urlmd5s@[k])@ == urlmd5;
        let i = 900 * q + k;
        assert(k < 900);
        assert(i / 900 == q && i % 900 == k);
        assert(i < size(queries));
        assert(nth(queries, i) == urlmd5);
    }
}

/// `counts` is what a table records for the digests in `wanted`: the plays that the
/// stored count stands for, of each that has a row.
pub open spec fn read_off(
    counts: Map<Seq<char>, u64>,
    wanted: Set<Seq<char>>,
    table: Map<Seq<char>, Option<i64>>,
) -> bool {
    forall|urlmd5: Seq<char>|
        #![trigger counts.contains_key(urlmd5)]
        {
            &&& counts.contains_key(urlmd5) <==> wanted.contains(urlmd5) && table.contains_key(
                urlmd5,
            )
            &&& counts.contains_key(urlmd5) ==> counts[urlmd5] == stored_plays(table[urlmd5])
        }
}

/// A lookup whose queries are answered from a table gives back what the table records
/// for every digest that it was to look up, however many there are.
pub proof fn law_lookups_give_back_what_is_stored(
    wanted: Set<Seq<char>>,
    steps: Seq<CountStep>,
    answers: Seq<Vec<CountRow>>,
    table: Map<Seq<char>, Option<i64>>,
)
    requires
        ran_on(steps, answers, table),
        lookup_begun(steps[0], wanted),
    ensures
        read_off(known_at(steps.last()), wanted, table),
{
    let counts = known_at(steps.last());
    assert forall|urlmd5: Seq<char>| #![trigger counts.contains_key(urlmd5)] {
        &&& counts.contains_key(urlmd5) <==> wanted.contains(urlmd5) && table.contains_key(urlmd5)
        &&& counts.contains_key(urlmd5) ==> counts[urlmd5] == stored_plays(table[urlmd5])
    } by {
        lemma_ran_on(steps, answers, table, urlmd5);
        match steps[0] {
            CountStep::Fetch(_) => {
                lemma_named(unsent(steps[0]), wanted, urlmd5);
            },
            _ => {
                assert(!wanted.contains(urlmd5));
                assert(!named(unsent(steps[0]), urlmd5));
            },
        }
    }
}

/// Every query that a lookup sends is spelled out: the head, as many question marks as
/// there are parameters with a comma between any two, and a closing bracket at the end.
pub proof fn law_queries_are_spelled_out(urlmd5s: &[String], step: CountStep, q: int)
    requires
        call_ensures(query_counts, (urlmd5s,), step),
        0 <= q < unsent(step).len(),
    ensures
        ({
            let text = unsent(step)[q].sql@;
            let head = "SELECT urlmd5, playcount FROM tracks_persistent WHERE urlmd5 IN ("@;
            let n = unsent(step)[q].urlmd5s@.len();
            &&& n >= 1
            &&& text.len() == head.len() + 2 * n
            &&& text.take(head.len() as int) == head
            &&& forall|k: int| 0 <= k < n ==> text[head.len() + #[trigger] (2 * k)] == '?'
            &&& forall|k: int| 0 <= k < n - 1 ==> text[head.len() + #[trigger] (2 * k) + 1] == ','
            &&& text[text.len() - 1] == ')'
        }),
{
    law_lookups_ask_for_every_digest(urlmd5s, step);
    let query = unsent(step)[q];
    assert(asks(query.sql@, query.urlmd5s@.len()));
    assert(query.sql@.take(query_head().len() as int) =~= query_head());
}

/// The rows of an answer are taken at their word: of the last row about a digest, a
/// stored count of zero or more is the plays, and any other means none.
pub proof fn law_rows_are_taken_at_their_word(
    lookup: CountLookup,
    rows: Vec<CountRow>,
    step: CountStep,
    k: int,
)
    requires
        call_ensures(CountLookup::resume, (lookup, Ok::<_, QueryFailure>(rows)), step),
        0 <= k < rows@.len(),
        forall|m: int|
            k < m < rows@.len() ==> (#[trigger] rows@[m]).urlmd5@ != rows@[k].urlmd5@,
    ensures
        ({
            let counts = known_at(step);
            let urlmd5 = rows@[k].urlmd5@;
            &&& counts.contains_key(urlmd5)
            &&& rows@[k].playcount matches Some(count) ==> count >= 0 ==> counts[urlmd5] == count
            &&& rows@[k].playcount matches Some(count) ==> count < 0 ==> counts[urlmd5] == 0
            &&& rows@[k].playcount is None ==> counts[urlmd5] == 0
        }),
{
    law_lookups_learn_what_rows_say(lookup, Ok(rows), step);
    assert(last_row(rows@, rows@[k].urlmd5@, k));
}

/// It takes as many queries to name a number of digests as there are runs of up to
/// 900 in it, and no more.
pub open spec fn batched(items: nat, count: int) -> bool {
    items <= 900 * count && 900 * (count - 1) < items || items == 0 && count == 0
}

/// How many batches are just enough.
pub proof fn lemma_batched(items: nat)
    ensures
        batched(items, batches(items) as int),
{
}

/// The number of queries is just large enough for the digests.
pub proof fn law_batches_are_just_enough(items: usize, count: u64)
    requires
        call_ensures(batch_count, (items,), count),
    ensures
        batched(items as nat, count as int),
{
    lemma_batched(items as nat);
}

} // verus!
