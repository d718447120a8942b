//! Query handling: the two-token request parser with its length ceiling, the
//! project-identifier sanitizer, and the deterministic routing-table file
//! name. `plan_query` combines the three into the single decision the
//! protocol loop needs before it may touch a table file.

use vstd::prelude::*;
use vstd::slice::slice_to_vec;
use crate::text::{split_tokens, tokens};

verus! {

/// Longest raw query line that is considered at all; anything longer
/// resolves to the not-found sentinel before any further work.
pub const QUERY_LEN_CEILING: usize = 100;

/// The parsed query: its project identifier and session identifier, or
/// `None` when the line is over the ceiling or does not hold exactly two
/// whitespace-separated tokens.
pub open spec fn parse_query(line: Seq<u8>) -> Option<(Seq<u8>, Seq<u8>)> {
    if line.len() > QUERY_LEN_CEILING {
        None
    } else {
        let ts = tokens(line);
        if ts.len() == 2 {
            Some((ts[0], ts[1]))
        } else {
            None
        }
    }
}

/// Whether a project identifier is safe to use in a file name: it must not
/// contain the path-separator byte, so that the constructed path can never
/// leave the routing-table directory.
pub open spec fn project_id_ok(p: Seq<u8>) -> bool {
    !p.contains(47)
}

/// Runtime test for `project_id_ok`.
pub fn check_project_id(p: &[u8]) -> (r: bool)
    ensures
        r == project_id_ok(p@),
{
    let mut i: usize = 0;
    while i < p.len()
        invariant
            i <= p.len(),
            forall|j: int| 0 <= j < i ==> p@[j] != 47,
        decreases p.len() - i,
    {
        if p[i] == 47 {
            proof {
                assert(p@.contains(47));
            }
            return false;
        }
        i = i + 1;
    }
    true
}

/// The fixed extension of every routing-table file.
pub open spec fn table_suffix() -> Seq<u8> {
    seq![46u8, 112, 114, 111, 120, 121, 46, 116, 120, 116]
}

/// The name of the routing-table file for project `p`, relative to the
/// routing-table directory.
pub open spec fn table_file_name(p: Seq<u8>) -> Seq<u8> {
    p + table_suffix()
}

/// Builds the routing-table file name for `project`.
pub fn make_table_file_name(project: &[u8]) -> (r: Vec<u8>)
    ensures
        r@ == table_file_name(project@),
{
    let mut r = slice_to_vec(project);
    r.push(46);
    r.push(112);
    r.push(114);
    r.push(111);
    r.push(120);
    r.push(121);
    r.push(46);
    r.push(116);
    r.push(120);
    r.push(116);
    proof {
        assert(r@ =~= table_file_name(project@));
    }
    r
}

/// What the protocol loop must do for one query line: answer with the
/// sentinel at once, or read one routing-table file and match the session
/// against it.
pub enum QueryPlan {
    /// The line is oversized, has the wrong token count, or its project
    /// identifier failed sanitization: no file may be read and the answer is
    /// the not-found sentinel.
    Rejected,
    /// Read the table file called `file_name` inside the routing-table
    /// directory and look `session` up in its contents.
    Lookup { file_name: Vec<u8>, session: Vec<u8> },
}

/// The table file and session to look up for `line`, or `None` when the
/// query is rejected before any file access.
pub open spec fn spec_plan(line: Seq<u8>) -> Option<(Seq<u8>, Seq<u8>)> {
    match parse_query(line) {
        None => None,
        Some((p, s)) => if project_id_ok(p) {
            Some((table_file_name(p), s))
        } else {
            None
        },
    }
}

/// Parses and sanitizes one query line and names the routing-table file to
/// read, rejecting the line when it is oversized, when it does not hold
/// exactly two tokens, or when the project identifier holds a path
/// separator.
pub fn plan_query(line: &[u8]) -> (r: QueryPlan)
    ensures
        match r {
            QueryPlan::Rejected => spec_plan(line@) is None,
            QueryPlan::Lookup { file_name, session } =>
                spec_plan(line@) == Some((file_name@, session@)),
        },
{
    if line.len() > QUERY_LEN_CEILING {
        return QueryPlan::Rejected;
    }
    let ts = split_tokens(line);
    proof {
        assert(ts@.len() == tokens(line@).len());
    }
    if ts.len() != 2 {
        return QueryPlan::Rejected;
    }
    proof {
        assert(ts@[0].deep_view() =~= ts@[0]@);
        assert(ts@[1].deep_view() =~= ts@[1]@);
    }
    if !check_project_id(ts[0].as_slice()) {
        return QueryPlan::Rejected;
    }
    let file_name = make_table_file_name(ts[0].as_slice());
    let session = slice_to_vec(ts[1].as_slice());
    QueryPlan::Lookup { file_name, session }
}

} // verus!
