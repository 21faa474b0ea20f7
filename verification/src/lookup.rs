//! Classifying a lookup request: a request that starts with a digit names a
//! page by position (written one-based, used zero-based); anything else is
//! a headword to search for.
use vstd::prelude::*;

use crate::audio::lemma_digits_val_mono;
use crate::audio::spec_all_digits;
use crate::audio::spec_digit_val;
use crate::audio::spec_digits_val;
use crate::audio::spec_is_digit;
use crate::error::Error;

verus! {

/// A classified lookup request.
#[derive(Debug, Clone)]
pub enum Query {
    /// A page position, already adjusted to zero-based.
    ByIndex(usize),
    /// A headword to search for.
    ByKeyword(String),
}

/// The view of a classified request.
pub enum QueryV {
    ByIndex(usize),
    ByKeyword(Seq<char>),
}

impl View for Query {
    type V = QueryV;

    open spec fn view(&self) -> QueryV {
        match self {
            Query::ByIndex(i) => QueryV::ByIndex(*i),
            Query::ByKeyword(s) => QueryV::ByKeyword(s@),
        }
    }
}

/// The end of the maximal digit run from `pos`.
pub open spec fn spec_digits_end(s: Seq<char>, pos: int) -> int
    decreases s.len() - pos,
{
    if pos < s.len() && spec_is_digit(s[pos]) {
        spec_digits_end(s, pos + 1)
    } else {
        pos
    }
}

pub proof fn lemma_digits_end(s: Seq<char>, pos: int)
    requires
        0 <= pos <= s.len(),
    ensures
        pos <= spec_digits_end(s, pos) <= s.len(),
        spec_all_digits(s.subrange(pos, spec_digits_end(s, pos))),
    decreases s.len() - pos,
{
    if pos < s.len() && spec_is_digit(s[pos]) {
        lemma_digits_end(s, pos + 1);
        let e = spec_digits_end(s, pos);
        assert(e == spec_digits_end(s, pos + 1));
        assert forall|k: int| 0 <= k < e - pos implies spec_is_digit(
            #[trigger] s.subrange(pos, e)[k],
        ) by {
            if k == 0 {
                assert(s.subrange(pos, e)[0] == s[pos]);
            } else {
                assert(s.subrange(pos, e)[k] == s.subrange(pos + 1, e)[k - 1]);
                assert(spec_is_digit(s.subrange(pos + 1, e)[k - 1]));
            }
        }
    } else {
        assert(s.subrange(pos, pos) =~= Seq::<char>::empty());
    }
}

/// What classifying a request yields, if the written position fits the
/// machine: a digit-led request is the value of its leading digit run,
/// less one (a position written as zero stays zero); anything else is a
/// keyword. Nothing is yielded when the written position overflows.
pub open spec fn spec_classify_query(s: Seq<char>) -> Option<QueryV> {
    if s.len() >= 1 && spec_is_digit(s[0]) {
        let ds = s.subrange(0, spec_digits_end(s, 0));
        if spec_digits_val(ds) <= usize::MAX {
            let v = spec_digits_val(ds);
            Some(
                QueryV::ByIndex(
                    (if v >= 1 {
                        v - 1
                    } else {
                        0
                    }) as usize,
                ),
            )
        } else {
            None
        }
    } else {
        Some(QueryV::ByKeyword(s))
    }
}

/// Classify a lookup request; a written position too large for the machine
/// is rejected.
pub fn classify_query(vocab: &str) -> (r: Result<Query, Error>)
    ensures
        match r {
            Ok(q) => spec_classify_query(vocab@) == Some(q@),
            Err(e) => spec_classify_query(vocab@) is None && e is InvalidIndex,
        },
{
    let s = crate::strutil::str_to_chars(vocab);
    if s.len() == 0 || !('0' <= s[0] && s[0] <= '9') {
        let kw = crate::strutil::chars_to_string(s.as_slice());
        return Ok(Query::ByKeyword(kw));
    }
    let mut i: usize = 0;
    let mut acc: usize = 0;
    proof {
        assert(s@.subrange(0, 0) =~= Seq::<char>::empty());
    }
    while i < s.len() && '0' <= s[i] && s[i] <= '9'
        invariant
            i <= s@.len(),
            s@ == vocab@,
            s@.len() >= 1,
            spec_is_digit(s@[0]),
            spec_digits_end(s@, 0) == spec_digits_end(s@, i as int),
            spec_all_digits(s@.subrange(0, i as int)),
            acc == spec_digits_val(s@.subrange(0, i as int)),
        decreases s@.len() - i,
    {
        let c = s[i];
        let d: usize = ((c as u32) - 48) as usize;
        proof {
            let pre = s@.subrange(0, i as int);
            let cur = s@.subrange(0, i + 1 as int);
            assert(cur.drop_last() =~= pre);
            assert(cur.last() == s@[i as int]);
            assert(spec_all_digits(cur)) by {
                assert(forall|k: int| 0 <= k < cur.len() - 1 ==> cur[k] == pre[k]);
            }
            assert(spec_digit_val(cur.last()) == d);
        }
        if acc > (usize::MAX - d) / 10 {
            proof {
                let e = spec_digits_end(s@, 0);
                assert(spec_digits_end(s@, i as int) == spec_digits_end(s@, i + 1));
                lemma_digits_end(s@, i + 1);
                let ds = s@.subrange(0, e);
                assert(acc * 10 + d > usize::MAX) by (nonlinear_arith)
                    requires
                        acc > (usize::MAX - d) / 10,
                        0 <= d <= 9,
                        acc >= 0,
                ;
                assert(spec_digits_val(s@.subrange(0, i + 1 as int)) > usize::MAX);
                let mid = s@.subrange(i + 1, e);
                assert forall|k: int| 0 <= k < e implies spec_is_digit(#[trigger] ds[k]) by {
                    if k < i + 1 {
                        assert(ds[k] == s@.subrange(0, i + 1 as int)[k]);
                    } else {
                        assert(ds[k] == mid[k - (i + 1)]);
                        assert(spec_is_digit(mid[k - (i + 1)]));
                    }
                }
                lemma_digits_val_mono(s@, i + 1, e);
                assert(spec_digits_val(ds) > usize::MAX);
            }
            return Err(Error::InvalidIndex);
        }
        acc = acc * 10 + d;
        i += 1;
    }
    proof {
        let e = spec_digits_end(s@, 0);
        assert(e == i as int);
        assert(s@.subrange(0, i as int) == s@.subrange(0, e));
    }
    let idx = if acc >= 1 {
        acc - 1
    } else {
        0
    };
    Ok(Query::ByIndex(idx))
}

} // verus!
