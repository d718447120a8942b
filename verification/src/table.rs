//! A parsed view of a routing table: one `Mapping` per record line, and a
//! `Project` tying a project's name to its mappings. The resolver itself
//! scans raw table text; this form is for callers that want the whole table
//! as values, such as tooling that replays provisioned mappings.

use vstd::prelude::*;
use crate::text::{lines, split_lines, split_tokens, tokens};

verus! {

/// One routing record: a session identifier and the backend target that
/// serves it.
pub struct Mapping {
    pub session_id: Vec<u8>,
    pub host: Vec<u8>,
}

/// One project's routing table as values: the project's name and its
/// records in file order.
pub struct Project {
    pub name: Vec<u8>,
    pub mappings: Vec<Mapping>,
}

/// Parses one record line into a `Mapping` from its first two tokens.
/// A malformed line (fewer than two tokens) has no mapping, so callers must
/// rule it out.
pub fn line_to_mapping(line: &[u8]) -> (r: Mapping)
    requires
        tokens(line@).len() >= 2,
    ensures
        r.session_id@ == tokens(line@)[0],
        r.host@ == tokens(line@)[1],
{
    let ts = split_tokens(line);
    proof {
        assert(ts@.len() == tokens(line@).len());
        assert(ts@[0].deep_view() =~= ts@[0]@);
        assert(ts@[1].deep_view() =~= ts@[1]@);
    }
    let session_id = vstd::slice::slice_to_vec(ts[0].as_slice());
    let host = vstd::slice::slice_to_vec(ts[1].as_slice());
    Mapping { session_id, host }
}

/// Parses a whole routing table into its mappings, one per line in file
/// order. Every line must be well formed (two tokens or more).
pub fn table_mappings(contents: &[u8]) -> (r: Vec<Mapping>)
    requires
        forall|j: int|
            0 <= j < lines(contents@).len() ==> tokens(lines(contents@)[j]).len() >= 2,
    ensures
        r@.len() == lines(contents@).len(),
        forall|j: int|
            0 <= j < r@.len() ==> r@[j].session_id@ == tokens(lines(contents@)[j])[0]
                && r@[j].host@ == tokens(lines(contents@)[j])[1],
{
    let ls = split_lines(contents);
    let mut r: Vec<Mapping> = Vec::new();
    let mut i: usize = 0;
    while i < ls.len()
        invariant
            i <= ls.len(),
            ls.deep_view() == lines(contents@),
            r@.len() == i,
            forall|j: int|
                0 <= j < lines(contents@).len() ==> tokens(lines(contents@)[j]).len() >= 2,
            forall|j: int|
                0 <= j < i ==> r@[j].session_id@ == tokens(lines(contents@)[j])[0]
                    && r@[j].host@ == tokens(lines(contents@)[j])[1],
        decreases ls.len() - i,
    {
        proof {
            assert(ls@[i as int].deep_view() =~= ls@[i as int]@);
            assert(ls.deep_view()[i as int] == ls@[i as int].deep_view());
        }
        let m = line_to_mapping(ls[i].as_slice());
        r.push(m);
        i = i + 1;
    }
    r
}

} // verus!
