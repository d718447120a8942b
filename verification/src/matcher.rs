//! Line matching: scan a routing table top to bottom for the first record
//! whose session token equals the query's session identifier, and hand back
//! that record's backend target.

use vstd::prelude::*;
use vstd::slice::slice_to_vec;
use crate::text::{bytes_eq, lines, split_lines, split_tokens, tokens};

verus! {

/// The result of matching one record line against `session`: the line's
/// second token when its first token equals `session` exactly, and `None`
/// otherwise. A malformed line (fewer than two tokens) never matches.
pub open spec fn match_line(line: Seq<u8>, session: Seq<u8>) -> Option<Seq<u8>> {
    let ts = tokens(line);
    if ts.len() >= 2 && ts[0] == session {
        Some(ts[1])
    } else {
        None
    }
}

/// The backend target of the first record, scanning `ls` top to bottom,
/// whose session token equals `session`; `None` when no line matches.
pub open spec fn lookup_lines(ls: Seq<Seq<u8>>, session: Seq<u8>) -> Option<Seq<u8>>
    decreases ls.len(),
{
    if ls.len() == 0 {
        None
    } else {
        match match_line(ls[0], session) {
            Some(h) => Some(h),
            None => lookup_lines(ls.drop_first(), session),
        }
    }
}

/// The backend target that routing-table `contents` assigns to `session`.
pub open spec fn lookup_table(contents: Seq<u8>, session: Seq<u8>) -> Option<Seq<u8>> {
    lookup_lines(lines(contents), session)
}

/// Checks whether the first token of `line` equals `search_session`; if so,
/// returns the line's second token (the backend host and port). A line with
/// fewer than two tokens never matches.
pub fn match_session_and_get_host(line: &[u8], search_session: &[u8]) -> (r: Option<Vec<u8>>)
    ensures
        r.deep_view() == match_line(line@, search_session@),
{
    let ts = split_tokens(line);
    proof {
        assert(ts@.len() == tokens(line@).len());
    }
    if ts.len() >= 2 && bytes_eq(ts[0].as_slice(), search_session) {
        proof {
            assert(ts@[0].deep_view() =~= ts@[0]@);
            assert(ts@[1].deep_view() =~= ts@[1]@);
        }
        let host = slice_to_vec(ts[1].as_slice());
        Some(host)
    } else {
        proof {
            if tokens(line@).len() >= 2 {
                assert(ts@[0].deep_view() =~= ts@[0]@);
            }
        }
        None
    }
}

/// Scans the routing-table `contents` top to bottom and returns the backend
/// target of the first record whose session token equals `search_session`.
pub fn find_in_table(contents: &[u8], search_session: &[u8]) -> (r: Option<Vec<u8>>)
    ensures
        r.deep_view() == lookup_table(contents@, search_session@),
{
    let ls = split_lines(contents);
    let mut i: usize = 0;
    proof {
        assert(ls.deep_view().skip(0) =~= ls.deep_view());
    }
    while i < ls.len()
        invariant
            i <= ls.len(),
            ls.deep_view() == lines(contents@),
            lookup_table(contents@, search_session@)
                == lookup_lines(ls.deep_view().skip(i as int), search_session@),
        decreases ls.len() - i,
    {
        proof {
            assert(ls.deep_view().skip(i as int)[0] == ls@[i as int].deep_view());
            assert(ls@[i as int].deep_view() =~= ls@[i as int]@);
            assert(ls.deep_view().skip(i as int).drop_first()
                =~= ls.deep_view().skip(i as int + 1));
        }
        let m = match_session_and_get_host(ls[i].as_slice(), search_session);
        if m.is_some() {
            return m;
        }
        i = i + 1;
    }
    proof {
        assert(ls.deep_view().skip(ls.deep_view().len() as int) =~= Seq::<Seq<u8>>::empty());
    }
    None
}

} // verus!
