//! Play-count lookups: which queries a list of URL digests needs, and what their
//! rows amount to.

use vstd::hash_map::StringHashMap;
use vstd::prelude::*;
use vstd::string::StringExecFns;

use crate::order::{lemma_lists_set_unique, lists_set, sorted_unique};
use crate::text::{concat, texts};

verus! {

/// The number of URL digests that one query may name.
pub const SQLITE_BATCH_LIMIT: usize = 900;

/// How many queries it takes to name `items` digests.
pub open spec fn batches(items: nat) -> nat {
    (items + SQLITE_BATCH_LIMIT - 1) as nat / SQLITE_BATCH_LIMIT as nat
}

/// The number of queries that `item_count` digests need.
pub fn batch_count(item_count: usize) -> (count: u64)
    ensures
        count == batches(item_count as nat),
{
    let full: usize = item_count / SQLITE_BATCH_LIMIT;
    if item_count % SQLITE_BATCH_LIMIT == 0 {
        full as u64
    } else {
        (full + 1) as u64
    }
}

/// A query for play counts: its text, and the digests bound to its parameters.
pub struct CountQuery {
    pub sql: String,
    pub urlmd5s: Vec<String>,
}

/// What a query says.
#[verifier::ext_equal]
pub ghost struct QueryView {
    pub sql: Seq<char>,
    pub urlmd5s: Seq<Seq<char>>,
}

impl View for CountQuery {
    type V = QueryView;

    open spec fn view(&self) -> QueryView {
        QueryView { sql: self.sql@, urlmd5s: texts(self.urlmd5s@) }
    }
}

/// What a list of queries says.
pub open spec fn query_views(queries: Seq<CountQuery>) -> Seq<QueryView> {
    Seq::new(queries.len(), |i: int| queries[i]@)
}

/// `n` question marks with commas between them.
pub open spec fn placeholders(n: nat) -> Seq<char> {
    Seq::new(
        if n == 0 {
            0
        } else {
            (2 * n - 1) as nat
        },
        |i: int|
            if i % 2 == 0 {
                '?'
            } else {
                ','
            },
    )
}

/// The text of a query with `n` parameters.
pub open spec fn count_sql(n: nat) -> Seq<char> {
    "SELECT urlmd5, playcount FROM tracks_persistent WHERE urlmd5 IN ("@ + placeholders(n) + ")"@
}

/// The query that names `urlmd5s`.
pub open spec fn query_for(urlmd5s: Seq<Seq<char>>) -> QueryView {
    QueryView { sql: count_sql(urlmd5s.len()), urlmd5s }
}

/// The `i`th run of at most `SQLITE_BATCH_LIMIT` digests.
pub open spec fn batch(urlmd5s: Seq<Seq<char>>, i: int) -> Seq<Seq<char>> {
    let start = i * SQLITE_BATCH_LIMIT;
    let end = start + SQLITE_BATCH_LIMIT;
    urlmd5s.subrange(
        start,
        if end < urlmd5s.len() {
            end
        } else {
            urlmd5s.len() as int
        },
    )
}

/// The queries that look up a list of distinct digests, batch by batch.
pub open spec fn queries_for(urlmd5s: Seq<Seq<char>>) -> Seq<QueryView> {
    Seq::new(batches(urlmd5s.len()), |i: int| query_for(batch(urlmd5s, i)))
}

/// The texts of a set in increasing order.
pub open spec fn sorted(set: Set<Seq<char>>) -> Seq<Seq<char>> {
    choose|list: Seq<Seq<char>>| lists_set(list, set)
}

/// The increasing list of a set is the one that `sorted` names.
pub proof fn lemma_sorted(list: Seq<Seq<char>>, set: Set<Seq<char>>)
    requires
        lists_set(list, set),
    ensures
        sorted(set) == list,
{
    lemma_lists_set_unique(sorted(set), list, set);
}

/// Writes the query that names a batch of digests.
fn count_query(urlmd5s: Vec<String>) -> (query: CountQuery)
    ensures
        query@ == query_for(texts(urlmd5s@)),
{
    let mut sql = "SELECT urlmd5, playcount FROM tracks_persistent WHERE urlmd5 IN (".to_owned();
    let ghost head = sql@;
    let mut i: usize = 0;
    proof {
        reveal_strlit("?");
        reveal_strlit(",");
    }
    assert(sql@ =~= head + placeholders(0));
    while i < urlmd5s.len()
        invariant
            i <= urlmd5s.len(),
            sql@ == head + placeholders(i as nat),
            "?"@ =~= seq!['?'],
            ","@ =~= seq![','],
        decreases urlmd5s.len() - i,
    {
        if i > 0 {
            sql.append(",");
        }
        sql.append("?");
        assert(sql@ =~= head + placeholders((i + 1) as nat));
        i = i + 1;
    }
    sql.append(")");
    CountQuery { sql, urlmd5s }
}

/// The queries that look up `urlmd5s`, each digest once.
fn count_queries(urlmd5s: &[String]) -> (queries: Vec<CountQuery>)
    ensures
        query_views(queries@) == queries_for(sorted(texts(urlmd5s@).to_set())),
{
    let unique = sorted_unique(urlmd5s);
    let ghost list = texts(unique@);
    proof {
        lemma_sorted(list, texts(urlmd5s@).to_set());
    }
    let mut queries: Vec<CountQuery> = Vec::new();
    let mut start: usize = 0;
    while start < unique.len()
        invariant
            list == texts(unique@),
            start <= unique.len(),
            start == unique.len() || start == queries.len() * SQLITE_BATCH_LIMIT,
            queries.len() == batches(start as nat),
            forall|i: int|
                0 <= i < queries.len() ==> (#[trigger] queries@[i])@ == query_for(batch(list, i)),
        decreases unique.len() - start,
    {
        let mut params: Vec<String> = Vec::new();
        let mut end: usize = start;
        while end < unique.len() && end - start < SQLITE_BATCH_LIMIT
            invariant
                list == texts(unique@),
                start <= end <= unique.len(),
                end - start <= SQLITE_BATCH_LIMIT,
                texts(params@) == list.subrange(start as int, end as int),
            decreases unique.len() - end,
        {
            let ghost before = params@;
            params.push(unique[end].clone());
            end = end + 1;
            assert(texts(params@) =~= texts(before).push(list[end - 1]));
            assert(list.subrange(start as int, end as int) =~= list.subrange(
                start as int,
                end - 1,
            ).push(list[end - 1]));
        }
        assert(list.subrange(start as int, end as int) =~= batch(list, queries.len() as int));
        let ghost before = queries@;
        queries.push(count_query(params));
        start = end;
        assert forall|i: int| 0 <= i < queries.len() implies (#[trigger] queries@[i])@ == query_for(
            batch(list, i),
        ) by {
            if i < before.len() {
                assert(queries@[i] == before[i]);
            }
        }
    }
    assert(query_views(queries@) =~= queries_for(list));
    queries
}

/// One row of the answer to a query.
pub struct CountRow {
    pub urlmd5: String,
    pub playcount: Option<i64>,
}

/// What a row says.
pub ghost struct RowView {
    pub urlmd5: Seq<char>,
    pub playcount: Option<i64>,
}

impl View for CountRow {
    type V = RowView;

    open spec fn view(&self) -> RowView {
        RowView { urlmd5: self.urlmd5@, playcount: self.playcount }
    }
}

/// What a list of rows says.
pub open spec fn row_views(rows: Seq<CountRow>) -> Seq<RowView> {
    Seq::new(rows.len(), |i: int| rows[i]@)
}

/// The plays that a stored count stands for: none where it is missing or negative.
pub open spec fn plays(stored: Option<i64>) -> u64 {
    match stored {
        Some(count) => if count > 0 {
            count as u64
        } else {
            0
        },
        None => 0,
    }
}

/// The counts known once the rows of an answer are added; a later row for a digest
/// replaces an earlier one.
pub open spec fn absorb(counts: Map<Seq<char>, u64>, rows: Seq<RowView>) -> Map<Seq<char>, u64>
    decreases rows.len(),
{
    if rows.len() == 0 {
        counts
    } else {
        absorb(counts, rows.drop_last()).insert(rows.last().urlmd5, plays(rows.last().playcount))
    }
}

/// The count that a lookup gives a digest: zero where it found none.
pub open spec fn count_or_zero(counts: Map<Seq<char>, u64>, urlmd5: Seq<char>) -> u64 {
    if counts.contains_key(urlmd5) {
        counts[urlmd5]
    } else {
        0
    }
}

/// Why a query gave no rows, with what the database said.
pub enum QueryFailure {
    Prepare(String),
    Query(String),
    Decode(String),
}

/// The message for a failed query.
pub open spec fn query_failure_message(failure: QueryFailure) -> Seq<char> {
    match failure {
        QueryFailure::Prepare(error) => "cannot prepare play-count query: "@ + error@,
        QueryFailure::Query(error) => "cannot query play counts: "@ + error@,
        QueryFailure::Decode(error) => "cannot decode play count: "@ + error@,
    }
}

/// Puts a failed query into words.
fn describe_query_failure(failure: QueryFailure) -> (message: String)
    ensures
        message@ == query_failure_message(failure),
{
    match failure {
        QueryFailure::Prepare(error) => concat(
            "cannot prepare play-count query: ",
            error.as_str(),
        ),
        QueryFailure::Query(error) => concat("cannot query play counts: ", error.as_str()),
        QueryFailure::Decode(error) => concat("cannot decode play count: ", error.as_str()),
    }
}

/// A lookup that waits for the rows of `query`.
pub struct CountLookup {
    pub query: CountQuery,
    pub later: Vec<CountQuery>,
    pub counts: StringHashMap<u64>,
}

/// Where a lookup stands.
pub enum CountStep {
    Fetch(CountLookup),
    Done(StringHashMap<u64>),
    Failed(String),
}

/// What a step of a lookup says.
#[verifier::ext_equal]
pub ghost enum CountStepView {
    Fetch { query: QueryView, later: Seq<QueryView>, counts: Map<Seq<char>, u64> },
    Done(Map<Seq<char>, u64>),
    Failed(Seq<char>),
}

impl View for CountStep {
    type V = CountStepView;

    open spec fn view(&self) -> CountStepView {
        match self {
            CountStep::Fetch(lookup) => CountStepView::Fetch {
                query: lookup.query@,
                later: query_views(lookup.later@),
                counts: lookup.counts@,
            },
            CountStep::Done(counts) => CountStepView::Done(counts@),
            CountStep::Failed(message) => CountStepView::Failed(message@),
        }
    }
}

/// The step of a lookup that still has `queries` to send and knows `counts`.
pub open spec fn lookup_step(queries: Seq<QueryView>, counts: Map<Seq<char>, u64>) -> CountStepView {
    if queries.len() == 0 {
        CountStepView::Done(counts)
    } else {
        CountStepView::Fetch { query: queries[0], later: queries.skip(1), counts }
    }
}

/// The first step of the lookup of a set of digests.
pub open spec fn lookup_start(urlmd5s: Set<Seq<char>>) -> CountStepView {
    lookup_step(queries_for(sorted(urlmd5s)), Map::empty())
}

fn next_step(queries: Vec<CountQuery>, counts: StringHashMap<u64>) -> (step: CountStep)
    ensures
        step@ == lookup_step(query_views(queries@), counts@),
{
    let mut later = queries;
    if later.len() == 0 {
        CountStep::Done(counts)
    } else {
        let query = later.remove(0);
        assert(query_views(later@) =~= query_views(queries@).skip(1));
        CountStep::Fetch(CountLookup { query, later, counts })
    }
}

/// Starts to look up `urlmd5s`.
pub fn query_counts(urlmd5s: &[String]) -> (step: CountStep)
    ensures
        step@ == lookup_start(texts(urlmd5s@).to_set()),
{
    next_step(count_queries(urlmd5s), StringHashMap::new())
}

impl CountLookup {
    /// Takes the answer to the query and goes on to the next one.
    pub fn resume(self, answer: Result<Vec<CountRow>, QueryFailure>) -> (step: CountStep)
        ensures
            step@ == (match answer {
                Ok(rows) => lookup_step(
                    query_views(self.later@),
                    absorb(self.counts@, row_views(rows@)),
                ),
                Err(failure) => CountStepView::Failed(query_failure_message(failure)),
            }),
    {
        match answer {
            Ok(rows) => {
                let mut counts = self.counts;
                add_rows(&mut counts, &rows);
                next_step(self.later, counts)
            },
            Err(failure) => CountStep::Failed(describe_query_failure(failure)),
        }
    }
}

/// The plays that a stored count stands for.
fn plays_of(stored: Option<i64>) -> (count: u64)
    ensures
        count == plays(stored),
{
    match stored {
        Some(count) => if count > 0 {
            count as u64
        } else {
            0
        },
        None => 0,
    }
}

/// Adds the rows of an answer to the counts.
fn add_rows(counts: &mut StringHashMap<u64>, rows: &Vec<CountRow>)
    ensures
        final(counts)@ == absorb(old(counts)@, row_views(rows@)),
{
    let ghost before = counts@;
    let mut i: usize = 0;
    assert(row_views(rows@).take(0) =~= Seq::empty());
    while i < rows.len()
        invariant
            i <= rows.len(),
            counts@ == absorb(before, row_views(rows@).take(i as int)),
        decreases rows.len() - i,
    {
        counts.insert(rows[i].urlmd5.clone(), plays_of(rows[i].playcount));
        i = i + 1;
        assert(row_views(rows@).take(i as int).drop_last() =~= row_views(rows@).take(i - 1));
    }
    assert(row_views(rows@).take(i as int) =~= row_views(rows@));
}

/// The count of a digest, zero where it is unknown.
pub fn known_or_zero(counts: &StringHashMap<u64>, urlmd5: &str) -> (count: u64)
    ensures
        count == count_or_zero(counts@, urlmd5@),
{
    match counts.get(urlmd5) {
        Some(count) => *count,
        None => 0,
    }
}

} // verus!
