//! End-to-end resolution of one query line against the contents of its
//! routing table, and the laws the resolver obeys. The embedding program
//! reads the input stream and the table file; everything it decides with is
//! here: `plan_query` names the file, `find_local_address` and `respond`
//! turn the file's contents (or its absence) into the answer.

use vstd::prelude::*;
use crate::matcher::{find_in_table, lookup_lines, lookup_table, match_line};
use crate::query::{
    parse_query, plan_query, project_id_ok, spec_plan, table_file_name, table_suffix,
    QueryPlan, QUERY_LEN_CEILING,
};
use crate::text::lines;

verus! {

/// The resolved backend target for one query line, given the contents of
/// the planned routing-table file (`None` when the file could not be read).
/// Every failure — oversized line, wrong token count, unsafe project
/// identifier, unreadable table, no matching record — collapses to `None`.
pub open spec fn spec_resolve(line: Seq<u8>, table: Option<Seq<u8>>) -> Option<Seq<u8>> {
    match parse_query(line) {
        None => None,
        Some((p, s)) => if !project_id_ok(p) {
            None
        } else {
            match table {
                None => None,
                Some(contents) => lookup_table(contents, s),
            }
        },
    }
}

/// Resolves one raw query line against the contents of its routing table.
/// `table` is what the caller read from the file that `plan_query` named,
/// or `None` when the query was rejected or the file could not be read.
pub fn find_local_address(project_and_session: &[u8], table: Option<&[u8]>) -> (r: Option<
    Vec<u8>,
>)
    ensures
        r.deep_view() == spec_resolve(project_and_session@, table.deep_view()),
{
    let plan = plan_query(project_and_session);
    match plan {
        QueryPlan::Rejected => None,
        QueryPlan::Lookup { file_name: _, session } => {
            match table {
                None => None,
                Some(contents) => {
                    proof {
                        assert(contents.deep_view() =~= contents@);
                    }
                    find_in_table(contents, session.as_slice())
                },
            }
        },
    }
}

/// The fixed response token that signals "no mapping found".
pub open spec fn sentinel() -> Seq<u8> {
    seq![78u8, 85, 76, 76]
}

/// Builds the not-found sentinel token, the four bytes of `NULL`.
pub fn not_found_sentinel() -> (r: Vec<u8>)
    ensures
        r@ == sentinel(),
{
    let mut r: Vec<u8> = Vec::new();
    r.push(78);
    r.push(85);
    r.push(76);
    r.push(76);
    proof {
        assert(r@ =~= sentinel());
    }
    r
}

/// The one response token owed for one query line: the resolved backend
/// target, or the sentinel for every failure.
pub open spec fn spec_response(line: Seq<u8>, table: Option<Seq<u8>>) -> Seq<u8> {
    match spec_resolve(line, table) {
        Some(host) => host,
        None => sentinel(),
    }
}

/// Produces the response token for one query line: the backend target when
/// resolution succeeds, the sentinel otherwise.
pub fn respond(project_and_session: &[u8], table: Option<&[u8]>) -> (r: Vec<u8>)
    ensures
        r@ == spec_response(project_and_session@, table.deep_view()),
{
    match find_local_address(project_and_session, table) {
        Some(host) => {
            proof {
                assert(host.deep_view() =~= host@);
            }
            host
        },
        None => not_found_sentinel(),
    }
}

/// Renders one response token as the line the caller is sent: the token
/// followed by a line feed.
pub fn output(txt: &[u8]) -> (r: Vec<u8>)
    ensures
        r@ == txt@.push(10),
{
    let mut r = vstd::slice::slice_to_vec(txt);
    r.push(10);
    r
}

/// First match wins among a sequence of record lines: when line `i` matches
/// and no earlier line does, the scan returns line `i`'s backend target.
proof fn lemma_lookup_lines_first_match(ls: Seq<Seq<u8>>, session: Seq<u8>, i: int)
    requires
        0 <= i < ls.len(),
        match_line(ls[i], session) is Some,
        forall|j: int| 0 <= j < i ==> match_line(ls[j], session) is None,
    ensures
        lookup_lines(ls, session) == match_line(ls[i], session),
    decreases i,
{
    if i > 0 {
        assert(match_line(ls[0], session) is None);
        assert forall|j: int| 0 <= j < i - 1 implies match_line(
            ls.drop_first()[j],
            session,
        ) is None by {
            assert(ls.drop_first()[j] == ls[j + 1]);
        }
        assert(ls.drop_first()[i - 1] == ls[i]);
        lemma_lookup_lines_first_match(ls.drop_first(), session, i - 1);
    }
}

/// When no record line matches, the scan comes up empty.
proof fn lemma_lookup_lines_no_match(ls: Seq<Seq<u8>>, session: Seq<u8>)
    requires
        forall|j: int| 0 <= j < ls.len() ==> match_line(ls[j], session) is None,
    ensures
        lookup_lines(ls, session) is None,
    decreases ls.len(),
{
    if ls.len() > 0 {
        assert forall|j: int| 0 <= j < ls.drop_first().len() implies match_line(
            ls.drop_first()[j],
            session,
        ) is None by {
            assert(ls.drop_first()[j] == ls[j + 1]);
        }
        lemma_lookup_lines_no_match(ls.drop_first(), session);
    }
}

/// For a well-formed query whose table holds a matching record, resolution
/// returns the backend target of the earliest matching line.
pub proof fn lemma_resolution_returns_first_match(
    line: Seq<u8>,
    p: Seq<u8>,
    s: Seq<u8>,
    contents: Seq<u8>,
    i: int,
)
    requires
        parse_query(line) == Some((p, s)),
        project_id_ok(p),
        0 <= i < lines(contents).len(),
        match_line(lines(contents)[i], s) is Some,
        forall|j: int| 0 <= j < i ==> match_line(lines(contents)[j], s) is None,
    ensures
        spec_resolve(line, Some(contents)) == match_line(lines(contents)[i], s),
{
    lemma_lookup_lines_first_match(lines(contents), s, i);
}

/// When no routing-table file could be read, resolution returns nothing.
pub proof fn lemma_missing_table_not_found(line: Seq<u8>)
    ensures
        spec_resolve(line, None) is None,
{
}

/// When the table holds no record for the session, resolution returns
/// nothing.
pub proof fn lemma_no_matching_session_not_found(
    line: Seq<u8>,
    p: Seq<u8>,
    s: Seq<u8>,
    contents: Seq<u8>,
)
    requires
        parse_query(line) == Some((p, s)),
        project_id_ok(p),
        forall|j: int| 0 <= j < lines(contents).len() ==> match_line(lines(contents)[j], s) is None,
    ensures
        spec_resolve(line, Some(contents)) is None,
{
    lemma_lookup_lines_no_match(lines(contents), s);
}

/// A query with no plan — oversized, wrong token count, or an unsafe
/// project identifier — resolves to nothing whatever any table holds, so
/// answering it without reading any file loses nothing.
pub proof fn lemma_rejected_query_never_resolves(line: Seq<u8>)
    requires
        spec_plan(line) is None,
    ensures
        forall|table: Option<Seq<u8>>| spec_resolve(line, table) is None,
{
}

/// A line over the length ceiling is rejected before any file is named, and
/// resolves to nothing whatever any table holds.
pub proof fn lemma_oversized_line_rejected(line: Seq<u8>)
    requires
        line.len() > QUERY_LEN_CEILING,
    ensures
        spec_plan(line) is None,
        forall|table: Option<Seq<u8>>| spec_resolve(line, table) is None,
{
}

/// A project identifier holding a path separator is rejected before any
/// file is named, and resolves to nothing whatever any table holds.
pub proof fn lemma_separator_rejected(line: Seq<u8>, p: Seq<u8>, s: Seq<u8>)
    requires
        parse_query(line) == Some((p, s)),
        !project_id_ok(p),
    ensures
        spec_plan(line) is None,
        forall|table: Option<Seq<u8>>| spec_resolve(line, table) is None,
{
}

/// Path-traversal safety: whenever a query is accepted at all, the file name
/// it plans holds no path-separator byte, so the path built under the
/// routing-table directory can never leave it.
pub proof fn lemma_planned_file_name_stays_in_directory(line: Seq<u8>, f: Seq<u8>, s: Seq<u8>)
    requires
        spec_plan(line) == Some((f, s)),
    ensures
        !f.contains(47),
{
    let (p, _) = parse_query(line).unwrap();
    assert(f == table_file_name(p));
    assert forall|i: int| 0 <= i < f.len() implies f[i] != 47 by {
        if i < p.len() {
            assert(f[i] == p[i]);
            if p[i] == 47 {
                assert(p.contains(47));
            }
        } else {
            assert(f[i] == table_suffix()[i - p.len()]);
        }
    }
    if f.contains(47) {
        let i = choose|i: int| 0 <= i < f.len() && f[i] == 47;
        assert(f[i] != 47);
    }
}

/// Resolution is a function of the query line and the table contents alone:
/// the same query against an unchanged table yields the same response both
/// times.
pub proof fn lemma_resolution_idempotent(
    line: Seq<u8>,
    table: Option<Seq<u8>>,
    first: Option<Seq<u8>>,
    second: Option<Seq<u8>>,
)
    requires
        first == spec_resolve(line, table),
        second == spec_resolve(line, table),
    ensures
        first == second,
{
}

/// The routing-table file that serves `line` under the directory state
/// `files` (a map from file name to contents), or `None` when the query is
/// rejected or no such file exists.
pub open spec fn table_for(files: Map<Seq<u8>, Seq<u8>>, line: Seq<u8>) -> Option<Seq<u8>> {
    match spec_plan(line) {
        None => None,
        Some((f, _)) => if files.dom().contains(f) {
            Some(files[f])
        } else {
            None
        },
    }
}

/// The response stream owed for a stream of query lines read against one
/// directory state: one response per query, in order.
pub open spec fn spec_responses(queries: Seq<Seq<u8>>, files: Map<Seq<u8>, Seq<u8>>) -> Seq<
    Seq<u8>,
> {
    Seq::new(queries.len(), |i: int| spec_response(queries[i], table_for(files, queries[i])))
}

/// Ordering: a stream of queries yields exactly one response per query, and
/// the response in position `i` answers the query in position `i`, even
/// when some queries fail.
pub proof fn lemma_responses_match_queries(queries: Seq<Seq<u8>>, files: Map<Seq<u8>, Seq<u8>>)
    ensures
        spec_responses(queries, files).len() == queries.len(),
        forall|i: int|
            0 <= i < queries.len() ==> spec_responses(queries, files)[i] == spec_response(
                queries[i],
                table_for(files, queries[i]),
            ),
{
}

} // verus!
