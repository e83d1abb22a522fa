//! Thought-generation parsing: a completion must carry a
//! `THOUGHT:`...`RELEVANCE:` boundary and a parsable relevance number;
//! the `FACTORS:` section is optional.

use vstd::prelude::*;
use vstd::string::StrSliceExecFns;
use vstd::string::StringSliceAdditionalSpecFns;

use crate::decimal::Decimal;
use crate::decimal::parse_decimal;
use crate::decimal::parse_decimal_spec;
use crate::decimal::token_value;
use crate::text::copy_range;
use crate::text::find_sub;
use crate::text::first_match_idx;
use crate::text::lines;
use crate::text::spec_lines;
use crate::text::spec_trim;
use crate::text::trim_bytes;
use crate::types::FormatError;
use crate::types::GeneratedThought;

verus! {

/// The marker opening the thought text.
pub open spec fn thought_marker() -> Seq<u8> {
    "THOUGHT:".spec_bytes()
}

/// The marker opening the relevance score.
pub open spec fn relevance_marker() -> Seq<u8> {
    "RELEVANCE:".spec_bytes()
}

/// The marker opening the factors list.
pub open spec fn factors_marker() -> Seq<u8> {
    "FACTORS:".spec_bytes()
}

/// The piece of `s` after the first occurrence of `m`, up to the next
/// occurrence of `m` or the end; nothing when `m` is absent.
pub open spec fn piece_after_first(s: Seq<u8>, m: Seq<u8>) -> Option<Seq<u8>> {
    let i = first_match_idx(s, m);
    if i < 0 {
        None
    } else {
        let rest = s.skip(i + m.len());
        let j = first_match_idx(rest, m);
        if j < 0 {
            Some(rest)
        } else {
            Some(rest.take(j))
        }
    }
}

/// The line the relevance score is read from: the remainder of the
/// marker's line when it holds more than whitespace, else the line
/// immediately following.
pub open spec fn relevance_line(rest: Seq<u8>) -> Option<Seq<u8>> {
    let ls = spec_lines(rest);
    if ls.len() == 0 {
        None
    } else if spec_trim(ls[0]).len() > 0 {
        Some(ls[0])
    } else if ls.len() > 1 {
        Some(ls[1])
    } else {
        None
    }
}

/// The trimmed non-blank lines of `ls`, in order.
pub open spec fn nonblank_trimmed(ls: Seq<Seq<u8>>) -> Seq<Seq<u8>>
    decreases ls.len(),
{
    if ls.len() == 0 {
        Seq::<Seq<u8>>::empty()
    } else {
        let t = spec_trim(ls[0]);
        let rest = nonblank_trimmed(ls.drop_first());
        if t.len() > 0 {
            seq![t] + rest
        } else {
            rest
        }
    }
}

/// Scanning one more line keeps its trimmed form exactly when non-blank.
pub proof fn lemma_nonblank_push(ls: Seq<Seq<u8>>, x: Seq<u8>)
    ensures
        nonblank_trimmed(ls.push(x)) == if spec_trim(x).len() > 0 {
            nonblank_trimmed(ls).push(spec_trim(x))
        } else {
            nonblank_trimmed(ls)
        },
    decreases ls.len(),
{
    if ls.len() == 0 {
        assert(ls.push(x)[0] == x);
        assert(ls.push(x).drop_first() =~= ls);
        if spec_trim(x).len() > 0 {
            assert(nonblank_trimmed(ls.push(x)) =~= nonblank_trimmed(ls).push(spec_trim(x)));
        }
    } else {
        lemma_nonblank_push(ls.drop_first(), x);
        assert(ls.push(x)[0] == ls[0]);
        assert(ls.push(x).drop_first() =~= ls.drop_first().push(x));
        if spec_trim(ls[0]).len() > 0 && spec_trim(x).len() > 0 {
            assert(seq![spec_trim(ls[0])] + nonblank_trimmed(ls.drop_first()).push(spec_trim(x))
                =~= (seq![spec_trim(ls[0])] + nonblank_trimmed(ls.drop_first())).push(
                spec_trim(x),
            ));
        }
    }
}

/// The factors carried by the relevance section: the trimmed non-blank
/// lines after a `FACTORS:` marker, or none when the marker is absent.
pub open spec fn factors_of(rest: Seq<u8>) -> Seq<Seq<u8>> {
    match piece_after_first(rest, factors_marker()) {
        None => Seq::<Seq<u8>>::empty(),
        Some(f) => nonblank_trimmed(spec_lines(f)),
    }
}

/// What parsing a thought completion yields.
pub enum ThoughtParse {
    /// No `THOUGHT:` marker.
    MissingThought,
    /// No `RELEVANCE:` marker after the thought text.
    MissingRelevance,
    /// No parsable relevance number at the marker.
    InvalidRelevance,
    /// Thought content, relevance in micro-units, and factors.
    Parsed(Seq<u8>, int, Seq<Seq<u8>>),
}

/// The outcome of parsing a thought completion: the trimmed text between
/// the `THOUGHT:` and `RELEVANCE:` markers, the relevance number read at
/// the `RELEVANCE:` marker, and the factors after a `FACTORS:` marker.
pub open spec fn spec_parse_thought(s: Seq<u8>) -> ThoughtParse {
    match piece_after_first(s, thought_marker()) {
        None => ThoughtParse::MissingThought,
        Some(within) => {
            let i = first_match_idx(within, relevance_marker());
            if i < 0 {
                ThoughtParse::MissingRelevance
            } else {
                let content = spec_trim(within.take(i));
                let rest = piece_after_first(within, relevance_marker()).unwrap();
                match relevance_line(rest) {
                    None => ThoughtParse::InvalidRelevance,
                    Some(line) => {
                        let t = spec_trim(line);
                        if parse_decimal_spec(t) is Some {
                            ThoughtParse::Parsed(content, token_value(t), factors_of(rest))
                        } else {
                            ThoughtParse::InvalidRelevance
                        }
                    },
                }
            }
        },
    }
}

/// Extract the piece of `h` after the first occurrence of `m`, up to the
/// next occurrence of `m`, if `m` occurs at all.
fn piece_after_first_exec(h: &[u8], m: &[u8]) -> (r: Option<Vec<u8>>)
    ensures
        match r {
            Some(v) => piece_after_first(h@, m@) == Some(v@),
            None => piece_after_first(h@, m@) is None,
        },
{
    let hn = h.len();
    match find_sub(h, m) {
        None => None,
        Some(i) => {
            proof {
                crate::text::lemma_first_match(h@, m@);
                assert(i + m@.len() <= hn);
            }
            let after = copy_range(h, i + m.len(), h.len());
            proof {
                assert(after@ =~= h@.skip(i + m@.len()));
            }
            match find_sub(after.as_slice(), m) {
                None => Some(after),
                Some(j) => {
                    proof {
                        crate::text::lemma_first_match(after@, m@);
                    }
                    let piece = copy_range(after.as_slice(), 0, j);
                    proof {
                        assert(piece@ =~= after@.take(j as int));
                    }
                    Some(piece)
                },
            }
        },
    }
}

/// Parse a thought completion into its content, relevance and factors.
///
/// Fails with the matching [`FormatError`] exactly when the completion
/// lacks the `THOUGHT:` marker, lacks a `RELEVANCE:` marker after it, or
/// holds no numeric relevance token at that marker; otherwise returns
/// the parsed triple.
pub fn parse_thought_response(response: &[u8]) -> (r: Result<GeneratedThought, FormatError>)
    ensures
        ({
            let sp = spec_parse_thought(response@);
            match r {
                Ok(g) => {
                    &&& sp == ThoughtParse::Parsed(
                        g.content@,
                        g.relevance.value(),
                        g.factors.deep_view(),
                    )
                    &&& g.relevance.wf()
                },
                Err(e) => {
                    ||| (e == FormatError::MissingThought && sp == ThoughtParse::MissingThought)
                    ||| (e == FormatError::MissingRelevance && sp
                        == ThoughtParse::MissingRelevance)
                    ||| (e == FormatError::InvalidRelevance && sp
                        == ThoughtParse::InvalidRelevance)
                },
            }
        }),
{
    let tm = "THOUGHT:".as_bytes_vec();
    let rm = "RELEVANCE:".as_bytes_vec();
    let within = match piece_after_first_exec(response, tm.as_slice()) {
        None => {
            return Err(FormatError::MissingThought);
        },
        Some(w) => w,
    };
    let i2 = match find_sub(within.as_slice(), rm.as_slice()) {
        None => {
            return Err(FormatError::MissingRelevance);
        },
        Some(i2) => i2,
    };
    proof {
        crate::text::lemma_first_match(within@, rm@);
    }
    let content_raw = copy_range(within.as_slice(), 0, i2);
    proof {
        assert(content_raw@ =~= within@.take(i2 as int));
    }
    let content = trim_bytes(content_raw.as_slice());
    let rest = match piece_after_first_exec(within.as_slice(), rm.as_slice()) {
        None => {
            // The marker was just found, so a piece always exists.
            proof {
                assert(false);
            }
            return Err(FormatError::MissingRelevance);
        },
        Some(p) => p,
    };
    let rl = lines(rest.as_slice());
    let ghost lv = spec_lines(rest@);
    if rl.len() == 0 {
        return Err(FormatError::InvalidRelevance);
    }
    proof {
        assert(rl@[0]@ =~= lv[0]);
    }
    let first_trim = trim_bytes(rl[0].as_slice());
    let cand: &Vec<u8> = if first_trim.len() > 0 {
        &rl[0]
    } else if rl.len() > 1 {
        proof {
            assert(rl@[1]@ =~= lv[1]);
        }
        &rl[1]
    } else {
        return Err(FormatError::InvalidRelevance);
    };
    let t = trim_bytes(cand.as_slice());
    let d = match parse_decimal(t.as_slice()) {
        None => {
            return Err(FormatError::InvalidRelevance);
        },
        Some(d) => d,
    };
    // Factors: trimmed non-blank lines after a FACTORS: marker.
    let fm = "FACTORS:".as_bytes_vec();
    let mut factors: Vec<Vec<u8>> = Vec::new();
    match piece_after_first_exec(rest.as_slice(), fm.as_slice()) {
        None => {
            proof {
                assert(factors.deep_view() =~= factors_of(rest@));
            }
        },
        Some(f) => {
            let fl = lines(f.as_slice());
            let ghost flv = spec_lines(f@);
            let nf = fl.len();
            let mut k: usize = 0;
            proof {
                assert(flv.take(0) =~= Seq::<Seq<u8>>::empty());
                assert(factors.deep_view() =~= nonblank_trimmed(flv.take(0)));
            }
            while k < nf
                invariant
                    0 <= k <= nf,
                    nf == fl@.len(),
                    fl.deep_view() == flv,
                    factors.deep_view() == nonblank_trimmed(flv.take(k as int)),
                decreases nf - k,
            {
                let ghost prev = factors.deep_view();
                proof {
                    assert(fl@[k as int]@ =~= flv[k as int]);
                }
                let ft = trim_bytes(fl[k].as_slice());
                if ft.len() > 0 {
                    factors.push(ft);
                    proof {
                        assert(factors.deep_view() =~~= prev.push(spec_trim(flv[k as int])));
                    }
                }
                proof {
                    lemma_nonblank_push(flv.take(k as int), flv[k as int]);
                    assert(flv.take(k as int).push(flv[k as int]) =~= flv.take(k + 1));
                }
                k += 1;
            }
            proof {
                assert(flv.take(nf as int) =~= flv);
                assert(factors.deep_view() == factors_of(rest@));
            }
        },
    }
    Ok(GeneratedThought { content, relevance: d, factors })
}

} // verus!
