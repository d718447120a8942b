//! Byte-level text primitives: whitespace classification, splitting a byte
//! sequence into whitespace-separated tokens, and splitting file contents
//! into lines.

use vstd::prelude::*;

verus! {

/// The bytes that count as ASCII whitespace: space, tab, line feed,
/// form feed, carriage return.
pub open spec fn is_ws(b: u8) -> bool {
    b == 32 || b == 9 || b == 10 || b == 12 || b == 13
}

/// Runtime test for `is_ws`.
pub fn byte_is_ws(b: u8) -> (r: bool)
    ensures
        r == is_ws(b),
{
    b == 32 || b == 9 || b == 10 || b == 12 || b == 13
}

/// The whitespace-separated tokens of `s`, scanned left to right with `cur`
/// holding the partial token read so far.
pub open spec fn tokens_from(s: Seq<u8>, cur: Seq<u8>) -> Seq<Seq<u8>>
    decreases s.len(),
{
    if s.len() == 0 {
        if cur.len() == 0 {
            Seq::empty()
        } else {
            seq![cur]
        }
    } else if is_ws(s[0]) {
        if cur.len() == 0 {
            tokens_from(s.drop_first(), Seq::empty())
        } else {
            seq![cur] + tokens_from(s.drop_first(), Seq::empty())
        }
    } else {
        tokens_from(s.drop_first(), cur.push(s[0]))
    }
}

/// The maximal runs of non-whitespace bytes in `s`, in order.
pub open spec fn tokens(s: Seq<u8>) -> Seq<Seq<u8>> {
    tokens_from(s, Seq::empty())
}

/// Splits `s` into its whitespace-separated tokens.
pub fn split_tokens(s: &[u8]) -> (r: Vec<Vec<u8>>)
    ensures
        r.deep_view() == tokens(s@),
{
    let mut out: Vec<Vec<u8>> = Vec::new();
    let mut cur: Vec<u8> = Vec::new();
    let mut i: usize = 0;
    proof {
        assert(s@.skip(0) =~= s@);
        assert(out.deep_view() =~~= Seq::<Seq<u8>>::empty());
        assert(out.deep_view() + tokens_from(s@.skip(0), cur@) =~~= tokens_from(s@, cur@));
        assert(cur@ =~= Seq::<u8>::empty());
    }
    while i < s.len()
        invariant
            i <= s.len(),
            tokens(s@) == out.deep_view() + tokens_from(s@.skip(i as int), cur@),
        decreases s.len() - i,
    {
        proof {
            assert(s@.skip(i as int)[0] == s@[i as int]);
            assert(s@.skip(i as int).drop_first() =~= s@.skip(i as int + 1));
        }
        let b = s[i];
        if byte_is_ws(b) {
            if cur.len() > 0 {
                let ghost prev = out.deep_view();
                let ghost tok = cur@;
                out.push(cur);
                cur = Vec::new();
                proof {
                    assert(out.deep_view() =~~= prev + seq![tok]);
                    assert(cur@ =~= Seq::<u8>::empty());
                    assert(tokens_from(s@.skip(i as int), tok)
                        == seq![tok] + tokens_from(s@.skip(i as int + 1), cur@));
                    assert(out.deep_view() + tokens_from(s@.skip(i as int + 1), cur@)
                        =~~= prev + tokens_from(s@.skip(i as int), tok));
                }
            } else {
                proof {
                    assert(cur@ =~= Seq::<u8>::empty());
                    assert(tokens_from(s@.skip(i as int), cur@)
                        == tokens_from(s@.skip(i as int + 1), cur@));
                }
            }
        } else {
            let ghost prev_cur = cur@;
            cur.push(b);
            proof {
                assert(tokens_from(s@.skip(i as int), prev_cur)
                    == tokens_from(s@.skip(i as int + 1), cur@));
            }
        }
        i = i + 1;
    }
    proof {
        assert(s@.skip(s@.len() as int) =~= Seq::<u8>::empty());
    }
    if cur.len() > 0 {
        let ghost old_out = out.deep_view();
        out.push(cur);
        proof {
            assert(out.deep_view() =~~= old_out + seq![out@.last().deep_view()]);
            assert(out@.last().deep_view() =~= out@.last()@);
            assert(out.deep_view() =~~= tokens(s@));
        }
    } else {
        proof {
            assert(out.deep_view() =~~= tokens(s@));
        }
    }
    out
}

/// A line as yielded: a trailing carriage return is dropped, so that a file
/// with carriage-return/line-feed endings reads the same as one with bare
/// line feeds.
pub open spec fn strip_cr(l: Seq<u8>) -> Seq<u8> {
    if l.len() > 0 && l.last() == 13 {
        l.drop_last()
    } else {
        l
    }
}

/// The lines of `s`, scanned left to right with `cur` holding the partial
/// line read so far. Lines are separated by line feeds; the final line needs
/// no terminator, and a wholly empty input has no lines.
pub open spec fn lines_from(s: Seq<u8>, cur: Seq<u8>) -> Seq<Seq<u8>>
    decreases s.len(),
{
    if s.len() == 0 {
        if cur.len() == 0 {
            Seq::empty()
        } else {
            seq![cur]
        }
    } else if s[0] == 10 {
        seq![strip_cr(cur)] + lines_from(s.drop_first(), Seq::empty())
    } else {
        lines_from(s.drop_first(), cur.push(s[0]))
    }
}

/// The lines of `s`.
pub open spec fn lines(s: Seq<u8>) -> Seq<Seq<u8>> {
    lines_from(s, Seq::empty())
}

/// Splits `s` into its lines.
pub fn split_lines(s: &[u8]) -> (r: Vec<Vec<u8>>)
    ensures
        r.deep_view() == lines(s@),
{
    let mut out: Vec<Vec<u8>> = Vec::new();
    let mut cur: Vec<u8> = Vec::new();
    let mut i: usize = 0;
    proof {
        assert(s@.skip(0) =~= s@);
        assert(out.deep_view() =~~= Seq::<Seq<u8>>::empty());
        assert(out.deep_view() + lines_from(s@.skip(0), cur@) =~~= lines_from(s@, cur@));
        assert(cur@ =~= Seq::<u8>::empty());
    }
    while i < s.len()
        invariant
            i <= s.len(),
            lines(s@) == out.deep_view() + lines_from(s@.skip(i as int), cur@),
        decreases s.len() - i,
    {
        proof {
            assert(s@.skip(i as int)[0] == s@[i as int]);
            assert(s@.skip(i as int).drop_first() =~= s@.skip(i as int + 1));
        }
        let b = s[i];
        if b == 10 {
            let ghost prev = out.deep_view();
            let ghost line = cur@;
            if cur.len() > 0 && cur[cur.len() - 1] == 13 {
                cur.pop();
                proof {
                    assert(cur@ =~= strip_cr(line));
                }
            }
            proof {
                assert(cur@ == strip_cr(line));
            }
            out.push(cur);
            cur = Vec::new();
            proof {
                assert(out.deep_view() =~~= prev + seq![strip_cr(line)]);
                assert(cur@ =~= Seq::<u8>::empty());
                assert(lines_from(s@.skip(i as int), line)
                    == seq![strip_cr(line)] + lines_from(s@.skip(i as int + 1), cur@));
                assert(out.deep_view() + lines_from(s@.skip(i as int + 1), cur@)
                    =~~= prev + lines_from(s@.skip(i as int), line));
            }
        } else {
            let ghost prev_cur = cur@;
            cur.push(b);
            proof {
                assert(lines_from(s@.skip(i as int), prev_cur)
                    == lines_from(s@.skip(i as int + 1), cur@));
            }
        }
        i = i + 1;
    }
    proof {
        assert(s@.skip(s@.len() as int) =~= Seq::<u8>::empty());
    }
    if cur.len() > 0 {
        let ghost prev = out.deep_view();
        out.push(cur);
        proof {
            assert(out.deep_view() =~~= prev + seq![out@.last().deep_view()]);
            assert(out@.last().deep_view() =~= out@.last()@);
            assert(out.deep_view() =~~= lines(s@));
        }
    } else {
        proof {
            assert(cur@ =~= Seq::<u8>::empty());
            assert(out.deep_view() =~~= lines(s@));
        }
    }
    out
}

/// Whether two byte strings hold the same bytes.
pub fn bytes_eq(a: &[u8], b: &[u8]) -> (r: bool)
    ensures
        r <==> a@ == b@,
{
    if a.len() != b.len() {
        return false;
    }
    let mut i: usize = 0;
    while i < a.len()
        invariant
            i <= a.len(),
            a@.len() == b@.len(),
            forall|j: int| 0 <= j < i ==> a@[j] == b@[j],
        decreases a.len() - i,
    {
        if a[i] != b[i] {
            return false;
        }
        i = i + 1;
    }
    proof {
        assert(a@ =~= b@);
    }
    true
}

} // verus!
