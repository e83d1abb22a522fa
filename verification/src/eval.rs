//! Dimensional-evaluation parsing: a completion must reduce to exactly
//! two numeric tokens, split on commas, to yield the energy and dopamine
//! adjustments.

use vstd::prelude::*;

use crate::decimal::Decimal;
use crate::decimal::parse_decimal;
use crate::decimal::parse_decimal_spec;
use crate::decimal::token_value;
use crate::text::spec_trim;
use crate::text::split_at_byte;
use crate::text::split_bytes;
use crate::text::trim_bytes;
use crate::types::FormatError;

verus! {

/// The values of the numeric tokens among the trimmed pieces, in order.
pub open spec fn piece_values(ps: Seq<Seq<u8>>) -> Seq<int>
    decreases ps.len(),
{
    if ps.len() == 0 {
        Seq::<int>::empty()
    } else {
        let t = spec_trim(ps[0]);
        let rest = piece_values(ps.drop_first());
        if parse_decimal_spec(t) is Some {
            seq![token_value(t)] + rest
        } else {
            rest
        }
    }
}

/// Scanning one more piece appends its value exactly when it parses.
pub proof fn lemma_piece_values_push(ps: Seq<Seq<u8>>, x: Seq<u8>)
    ensures
        piece_values(ps.push(x)) == if parse_decimal_spec(spec_trim(x)) is Some {
            piece_values(ps).push(token_value(spec_trim(x)))
        } else {
            piece_values(ps)
        },
    decreases ps.len(),
{
    if ps.len() == 0 {
        assert(ps.push(x)[0] == x);
        assert(ps.push(x).drop_first() =~= ps);
        if parse_decimal_spec(spec_trim(x)) is Some {
            assert(piece_values(ps.push(x)) =~= piece_values(ps).push(token_value(spec_trim(x))));
        }
    } else {
        lemma_piece_values_push(ps.drop_first(), x);
        assert(ps.push(x)[0] == ps[0]);
        assert(ps.push(x).drop_first() =~= ps.drop_first().push(x));
        if parse_decimal_spec(spec_trim(ps[0])) is Some {
            if parse_decimal_spec(spec_trim(x)) is Some {
                assert(seq![token_value(spec_trim(ps[0]))] + piece_values(ps.drop_first()).push(
                    token_value(spec_trim(x)),
                ) =~= (seq![token_value(spec_trim(ps[0]))] + piece_values(ps.drop_first())).push(
                    token_value(spec_trim(x)),
                ));
            }
        }
    }
}

/// The adjustment values a completion reduces to: split on commas, trim
/// each piece, keep the numeric tokens' values in order.
pub open spec fn adjustment_values(s: Seq<u8>) -> Seq<int> {
    piece_values(split_at_byte(s, 44))
}

/// The values of a sequence of decimals.
pub open spec fn decimal_values(ds: Seq<Decimal>) -> Seq<int> {
    ds.map_values(|d: Decimal| d.value())
}

/// Parse a dimensional-evaluation completion into the energy and
/// dopamine adjustments.
///
/// Succeeds exactly when the completion reduces to two numeric tokens,
/// returning their values in order; any other completion is rejected
/// with [`FormatError::InvalidAdjustments`].
#[verifier::loop_isolation(false)]
pub fn parse_adjustments(response: &[u8]) -> (r: Result<(Decimal, Decimal), FormatError>)
    ensures
        match r {
            Ok(p) => {
                &&& adjustment_values(response@).len() == 2
                &&& p.0.wf() && p.1.wf()
                &&& p.0.value() == adjustment_values(response@)[0]
                &&& p.1.value() == adjustment_values(response@)[1]
            },
            Err(e) => {
                &&& adjustment_values(response@).len() != 2
                &&& e == FormatError::InvalidAdjustments
            },
        },
{
    let pieces = split_bytes(response, 44);
    let ghost pv = pieces.deep_view();
    let n = pieces.len();
    let mut vals: Vec<Decimal> = Vec::new();
    let mut i: usize = 0;
    proof {
        assert(pv.take(0) =~= Seq::<Seq<u8>>::empty());
        assert(decimal_values(vals@) =~= piece_values(pv.take(0)));
    }
    while i < n
        invariant
            0 <= i <= n,
            n == pieces@.len(),
            pieces.deep_view() == pv,
            decimal_values(vals@) == piece_values(pv.take(i as int)),
            forall|m: int| 0 <= m < vals@.len() ==> (#[trigger] vals@[m]).wf(),
        decreases n - i,
    {
        let piece = &pieces[i];
        proof {
            assert(piece@ =~= pv[i as int]);
        }
        let t = trim_bytes(piece.as_slice());
        let ghost prev = vals@;
        match parse_decimal(t.as_slice()) {
            Some(d) => {
                vals.push(d);
                proof {
                    assert(decimal_values(vals@) =~= decimal_values(prev).push(d.value()));
                }
            },
            None => {},
        }
        proof {
            lemma_piece_values_push(pv.take(i as int), pv[i as int]);
            assert(pv.take(i as int).push(pv[i as int]) =~= pv.take(i + 1));
        }
        i += 1;
    }
    proof {
        assert(pv.take(n as int) =~= pv);
    }
    if vals.len() == 2 {
        proof {
            assert(adjustment_values(response@)[0] == decimal_values(vals@)[0]);
            assert(adjustment_values(response@)[1] == decimal_values(vals@)[1]);
        }
        let a = vals[0];
        let b = vals[1];
        Ok((a, b))
    } else {
        Err(FormatError::InvalidAdjustments)
    }
}

} // verus!
