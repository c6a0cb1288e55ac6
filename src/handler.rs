use vstd::prelude::*;
use crate::cache::StatementCache;
use crate::columns::{describe_all_spec, describe_columns, titles_view, FieldDescriptor, FieldSpec, Schema};
use crate::projection::{project, projects_to, ProjectedResult, Projection, RawResult};
use crate::text::{chars_of, has_prefix, lower_of, starts_with, string_of, to_lower, to_upper, upper_of};
use crate::values::{encode_all_spec, encode_rows, WireRow, WireValue};

verus! {

/// The affected-row count reported with an acknowledgment; the engine reports no real count.
pub const ACKNOWLEDGED_ROWS: usize = 1;

/// Error of one request; the connection stays usable.
#[derive(Debug)]
pub enum QueryError {
    /// The statement could not be tokenized.
    Tokenize(String),
    /// The statement holds an unclosed string literal or line comment, a block
    /// comment or a backtick, on which the tokenizer may not return.
    UnsupportedText,
    /// The statement holds no token.
    EmptyStatement,
    /// The statement could not be parsed; the text carries the remediation hints.
    Parse(String),
    /// The engine failed to evaluate the statement.
    Evaluation(String),
    /// A row's number of values differs from the number of titles.
    InconsistentRow,
}

/// The columns and encoded rows of a result set.
#[derive(Debug)]
pub struct ResultSet {
    pub fields: Vec<FieldDescriptor>,
    pub rows: Vec<WireRow>,
}

impl View for ResultSet {
    type V = (Seq<FieldSpec>, Seq<Seq<WireValue>>);

    open spec fn view(&self) -> (Seq<FieldSpec>, Seq<Seq<WireValue>>) {
        (
            self.fields@.map_values(|f: FieldDescriptor| f@),
            self.rows@.map_values(|r: WireRow| r.fields@),
        )
    }
}

/// The response to a query.
#[derive(Debug)]
pub enum QueryOutcome {
    /// A success tag with an affected-row count and no columns.
    Acknowledge { rows: usize },
    Rows(ResultSet),
}

/// What the simple-query path does with a statement.
#[derive(Debug)]
pub enum SimplePlan {
    /// Answer with an acknowledgment, without the engine.
    Acknowledge,
    /// Evaluate this statement: the text up to the first `;`.
    Run(String),
}

/// The schema and rows that a client is sent for a projected result.
pub open spec fn rendered(
    entries: Seq<(Seq<char>, crate::columns::SemanticType)>,
    p: ProjectedResult,
) -> (Seq<FieldSpec>, Seq<Seq<WireValue>>) {
    (
        describe_all_spec(entries, titles_view(p.titles@)),
        p.rows@.map_values(|r: crate::values::Row| encode_all_spec(r.values@)),
    )
}

/// `t` is the first statement of `s`: the text before the first `;`, or all of it.
pub open spec fn is_first_statement(s: Seq<char>, t: Seq<char>) -> bool {
    &&& has_prefix(s, t)
    &&& forall|k: int| 0 <= k < t.len() ==> t[k] != ';'
    &&& (t.len() == s.len() || s[t.len() as int] == ';')
}

/// The statement is a session-control statement (it opens with `set`, in any case).
pub open spec fn session_control(s: Seq<char>) -> bool {
    has_prefix(lower_of(s), "set"@)
}

/// The statement deallocates a prepared statement (it opens with `DEALLOCATE`, in any case).
pub open spec fn deallocation(s: Seq<char>) -> bool {
    has_prefix(upper_of(s), "DEALLOCATE"@)
}

/// What an execution of `text` answers over the cache contents `m`.
pub open spec fn execute_post(
    entries: Seq<(Seq<char>, crate::columns::SemanticType)>,
    m: Map<Seq<char>, ProjectedResult>,
    text: Seq<char>,
    r: QueryOutcome,
) -> bool {
    if session_control(text) || !m.contains_key(text) {
        r == QueryOutcome::Acknowledge { rows: ACKNOWLEDGED_ROWS }
    } else {
        r matches QueryOutcome::Rows(rs) && rs@ == rendered(entries, m[text])
    }
}

/// What a description of `text` with engine result `raw` answers and leaves in the cache.
pub open spec fn describe_post(
    entries: Seq<(Seq<char>, crate::columns::SemanticType)>,
    before: Map<Seq<char>, ProjectedResult>,
    text: Seq<char>,
    raw: RawResult,
    r: Result<Vec<FieldDescriptor>, QueryError>,
    after: Map<Seq<char>, ProjectedResult>,
) -> bool {
    match raw {
        RawResult::Acknowledged => r matches Ok(fs) && fs@.len() == 0 && after == before,
        RawResult::Selected(sel) => if sel.consistent() {
            r matches Ok(fs) && exists|p: ProjectedResult|
                projects_to(sel, p) && after == before.insert(text, p) && fs@.map_values(
                    |f: FieldDescriptor| f@,
                ) == rendered(entries, p).0
        } else {
            r matches Err(QueryError::InconsistentRow) && after == before
        },
    }
}

/// The first statement of `s`.
pub fn first_statement(s: &str) -> (r: String)
    ensures
        is_first_statement(s@, r@),
{
    let cs = chars_of(s);
    let mut i: usize = 0;
    while i < cs.len()
        invariant
            cs@ == s@,
            i <= cs@.len(),
            forall|k: int| 0 <= k < i ==> cs@[k] != ';',
        ensures
            i <= cs@.len(),
            forall|k: int| 0 <= k < i ==> cs@[k] != ';',
            i == cs@.len() || cs@[i as int] == ';',
        decreases cs@.len() - i,
    {
        if cs[i] == ';' {
            break;
        }
        i = i + 1;
    }
    let r = string_of(cs.as_slice().split_at(i).0);
    assert(r@ =~= s@.take(i as int));
    r
}

/// Decides the simple-query path for `query`: a deallocation is acknowledged at
/// once; otherwise only the first statement of the batch is evaluated.
pub fn plan_simple_query(query: &str) -> (r: SimplePlan)
    ensures
        deallocation(query@) ==> r is Acknowledge,
        !deallocation(query@) ==> (r matches SimplePlan::Run(t) && is_first_statement(query@, t@)),
{
    let upper = chars_of(to_upper(query).as_str());
    let word = chars_of("DEALLOCATE");
    if starts_with(&upper, &word) {
        SimplePlan::Acknowledge
    } else {
        SimplePlan::Run(first_statement(query))
    }
}

/// Whether `statement` is a session-control statement, answered without evaluation.
pub fn is_session_control(statement: &str) -> (r: bool)
    ensures
        r == session_control(statement@),
{
    let lower = chars_of(to_lower(statement).as_str());
    let word = chars_of("set");
    starts_with(&lower, &word)
}

/// The acknowledgment of a statement without rows.
pub fn acknowledgment() -> (r: QueryOutcome)
    ensures
        r == (QueryOutcome::Acknowledge { rows: ACKNOWLEDGED_ROWS }),
{
    QueryOutcome::Acknowledge { rows: ACKNOWLEDGED_ROWS }
}

/// The schema and encoded rows of a projected result.
pub fn result_set(schema: &Schema, p: &ProjectedResult) -> (r: ResultSet)
    ensures
        r@ == rendered(schema.entries(), *p),
{
    let fields = describe_columns(schema, &p.titles);
    let rows = encode_rows(&p.rows);
    let r = ResultSet { fields, rows };
    assert(r@.1 =~= rendered(schema.entries(), *p).1);
    r
}

/// Answers a simple query from the engine's result: an acknowledgment, or the
/// projected result set.
pub fn answer_query(schema: &Schema, raw: &RawResult) -> (r: Result<QueryOutcome, QueryError>)
    ensures
        raw is Acknowledged ==> r == Ok::<QueryOutcome, QueryError>(
            QueryOutcome::Acknowledge { rows: ACKNOWLEDGED_ROWS },
        ),
        raw is Selected && raw->Selected_0.consistent() ==> (r matches Ok(QueryOutcome::Rows(rs))
            && exists|p: ProjectedResult|
            projects_to(raw->Selected_0, p) && rs@ == rendered(schema.entries(), p)),
        raw is Selected && !raw->Selected_0.consistent() ==> r matches Err(
            QueryError::InconsistentRow,
        ),
{
    match project(raw) {
        Ok(Projection::Acknowledged) => Ok(acknowledgment()),
        Ok(Projection::Rows(p)) => Ok(QueryOutcome::Rows(result_set(schema, &p))),
        Err(_) => Err(QueryError::InconsistentRow),
    }
}

/// Describes the statement `statement` from the engine's result `raw`: caches the
/// projected result under the statement's text and returns its schema.
pub fn record_description(
    cache: &mut StatementCache,
    schema: &Schema,
    statement: &str,
    raw: RawResult,
) -> (r: Result<Vec<FieldDescriptor>, QueryError>)
    requires
        old(cache).wf(),
    ensures
        final(cache).wf(),
        describe_post(schema.entries(), old(cache)@, statement@, raw, r, final(cache)@),
{
    match project(&raw) {
        Ok(Projection::Acknowledged) => Ok(Vec::new()),
        Ok(Projection::Rows(p)) => {
            let fields = describe_columns(schema, &p.titles);
            let ghost gp = p;
            cache.put(statement.to_owned(), p);
            Ok(fields)
        },
        Err(_) => Err(QueryError::InconsistentRow),
    }
}

/// Executes a bound statement from the cache alone: a session-control statement
/// or one never described is acknowledged; otherwise the cached result is sent.
pub fn execute_portal(cache: &StatementCache, schema: &Schema, statement: &str) -> (r: QueryOutcome)
    requires
        cache.wf(),
    ensures
        execute_post(schema.entries(), cache@, statement@, r),
{
    if is_session_control(statement) {
        return acknowledgment();
    }
    match cache.get(statement) {
        Some(p) => QueryOutcome::Rows(result_set(schema, p)),
        None => acknowledgment(),
    }
}

/// A statement described and then executed twice, with no description between,
/// is answered both times with the same schema and rows, and that schema is the
/// one the description returned.
pub proof fn lemma_describe_execute_consistent(
    entries: Seq<(Seq<char>, crate::columns::SemanticType)>,
    before: Map<Seq<char>, ProjectedResult>,
    text: Seq<char>,
    raw: RawResult,
    described: Result<Vec<FieldDescriptor>, QueryError>,
    after: Map<Seq<char>, ProjectedResult>,
    first: QueryOutcome,
    second: QueryOutcome,
)
    requires
        !session_control(text),
        raw matches RawResult::Selected(sel) && sel.consistent(),
        describe_post(entries, before, text, raw, described, after),
        execute_post(entries, after, text, first),
        execute_post(entries, after, text, second),
    ensures
        first is Rows,
        second is Rows,
        first->Rows_0@ == second->Rows_0@,
        described is Ok,
        described->Ok_0@.map_values(|f: FieldDescriptor| f@) == first->Rows_0@.0,
{
}

/// Executing a statement that was never described answers an acknowledgment
/// with no rows, never an error.
pub proof fn lemma_execute_without_description(
    entries: Seq<(Seq<char>, crate::columns::SemanticType)>,
    m: Map<Seq<char>, ProjectedResult>,
    text: Seq<char>,
    r: QueryOutcome,
)
    requires
        !m.contains_key(text),
        execute_post(entries, m, text, r),
    ensures
        r == (QueryOutcome::Acknowledge { rows: ACKNOWLEDGED_ROWS }),
{
}

} // verus!
