//! Byte-string utilities: trimming, line splitting, substring search,
//! joining and ASCII lowering.
//!
//! Completions arrive as free text; every parser in this crate works over
//! byte strings with these helpers, each tied to an exact sequence-level
//! model.

use vstd::prelude::*;

use crate::decimal::find_byte;
use crate::decimal::lemma_find_byte_is;

verus! {

/// `b` is an ASCII whitespace byte (the bytes `str::trim` removes from
/// ASCII text).
pub open spec fn is_space(b: u8) -> bool {
    b == 32 || b == 9 || b == 10 || b == 11 || b == 12 || b == 13
}

/// Number of leading whitespace bytes of `s`.
pub open spec fn lead_spaces(s: Seq<u8>) -> int
    decreases s.len(),
{
    if s.len() == 0 {
        0
    } else if is_space(s[0]) {
        1 + lead_spaces(s.drop_first())
    } else {
        0
    }
}

/// Number of trailing whitespace bytes of `s`.
pub open spec fn trail_spaces(s: Seq<u8>) -> int
    decreases s.len(),
{
    if s.len() == 0 {
        0
    } else if is_space(s.last()) {
        1 + trail_spaces(s.drop_last())
    } else {
        0
    }
}

/// `s` with leading and trailing whitespace removed.
pub open spec fn spec_trim(s: Seq<u8>) -> Seq<u8> {
    let a = lead_spaces(s);
    let b = s.len() - trail_spaces(s);
    if a >= b {
        Seq::<u8>::empty()
    } else {
        s.subrange(a, b)
    }
}

/// `lead_spaces` counts exactly the leading whitespace.
pub proof fn lemma_lead_spaces(s: Seq<u8>)
    ensures
        0 <= lead_spaces(s) <= s.len(),
        forall|j: int| 0 <= j < lead_spaces(s) ==> is_space(#[trigger] s[j]),
        lead_spaces(s) < s.len() ==> !is_space(s[lead_spaces(s)]),
    decreases s.len(),
{
    if s.len() > 0 && is_space(s[0]) {
        lemma_lead_spaces(s.drop_first());
        assert forall|j: int| 0 <= j < lead_spaces(s) implies is_space(#[trigger] s[j]) by {
            if j > 0 {
                assert(s.drop_first()[j - 1] == s[j]);
            }
        }
        if lead_spaces(s) < s.len() {
            assert(s.drop_first()[lead_spaces(s) - 1] == s[lead_spaces(s)]);
        }
    }
}

/// A boundary with spaces before it and a non-space at it pins `lead_spaces`.
pub proof fn lemma_lead_spaces_is(s: Seq<u8>, k: int)
    requires
        0 <= k <= s.len(),
        forall|j: int| 0 <= j < k ==> is_space(#[trigger] s[j]),
        k < s.len() ==> !is_space(s[k]),
    ensures
        lead_spaces(s) == k,
{
    lemma_lead_spaces(s);
    let a = lead_spaces(s);
    if a < k {
        assert(is_space(s[a]));
        assert(false);
    }
    if a > k {
        assert(is_space(s[k]));
        assert(false);
    }
}

/// `trail_spaces` counts exactly the trailing whitespace.
pub proof fn lemma_trail_spaces(s: Seq<u8>)
    ensures
        0 <= trail_spaces(s) <= s.len(),
        forall|j: int| s.len() - trail_spaces(s) <= j < s.len() ==> is_space(#[trigger] s[j]),
        trail_spaces(s) < s.len() ==> !is_space(s[s.len() - trail_spaces(s) - 1]),
    decreases s.len(),
{
    if s.len() > 0 && is_space(s.last()) {
        lemma_trail_spaces(s.drop_last());
        assert forall|j: int| s.len() - trail_spaces(s) <= j < s.len() implies is_space(
            #[trigger] s[j],
        ) by {
            if j < s.len() - 1 {
                assert(s.drop_last()[j] == s[j]);
            }
        }
        if trail_spaces(s) < s.len() {
            assert(s.drop_last()[s.len() - trail_spaces(s) - 1] == s[s.len() - trail_spaces(s)
                - 1]);
        }
    }
}

/// A boundary with spaces after it and a non-space before it pins
/// `trail_spaces`.
pub proof fn lemma_trail_spaces_is(s: Seq<u8>, k: int)
    requires
        0 <= k <= s.len(),
        forall|j: int| s.len() - k <= j < s.len() ==> is_space(#[trigger] s[j]),
        k < s.len() ==> !is_space(s[s.len() - k - 1]),
    ensures
        trail_spaces(s) == k,
{
    lemma_trail_spaces(s);
    let b = trail_spaces(s);
    if b < k {
        assert(is_space(s[s.len() - b - 1]));
        assert(false);
    }
    if b > k {
        assert(is_space(s[s.len() - k - 1]));
        assert(false);
    }
}

/// Whether `b` is an ASCII whitespace byte.
pub fn space(b: u8) -> (r: bool)
    ensures
        r == is_space(b),
{
    b == 32 || b == 9 || b == 10 || b == 11 || b == 12 || b == 13
}

/// Copy the byte range `t[i..j]`.
pub fn copy_range(t: &[u8], i: usize, j: usize) -> (r: Vec<u8>)
    requires
        i <= j <= t@.len(),
    ensures
        r@ == t@.subrange(i as int, j as int),
{
    let mut r: Vec<u8> = Vec::new();
    let mut k: usize = i;
    while k < j
        invariant
            i <= k <= j <= t@.len(),
            r@ =~= t@.subrange(i as int, k as int),
        decreases j - k,
    {
        r.push(t[k]);
        proof {
            assert(t@.subrange(i as int, k + 1) =~= t@.subrange(i as int, k as int).push(
                t@[k as int],
            ));
        }
        k += 1;
    }
    proof {
        assert(r@ =~= t@.subrange(i as int, j as int));
    }
    r
}

/// Remove leading and trailing ASCII whitespace.
#[verifier::loop_isolation(false)]
pub fn trim_bytes(s: &[u8]) -> (r: Vec<u8>)
    ensures
        r@ == spec_trim(s@),
{
    let n = s.len();
    let mut a: usize = 0;
    while a < n && space(s[a])
        invariant
            0 <= a <= n,
            forall|j: int| 0 <= j < a ==> is_space(#[trigger] s@[j]),
        decreases n - a,
    {
        a += 1;
    }
    proof {
        lemma_lead_spaces_is(s@, a as int);
    }
    let mut b: usize = n;
    while b > a && space(s[b - 1])
        invariant
            a <= b <= n,
            forall|j: int| b <= j < n ==> is_space(#[trigger] s@[j]),
        decreases b,
    {
        b -= 1;
    }
    if b == a {
        // All of `s` past the leading run is whitespace.
        proof {
            lemma_trail_spaces(s@);
            let ts = trail_spaces(s@);
            if n - ts > a {
                assert(is_space(s@[n - ts - 1]));
                assert(false);
            }
            assert(spec_trim(s@) =~= Seq::<u8>::empty());
        }
        Vec::new()
    } else {
        proof {
            lemma_trail_spaces_is(s@, n - b);
        }
        copy_range(s, a, b)
    }
}

/// `s` split on byte `b`; separators are consumed, empty pieces kept.
pub open spec fn split_at_byte(s: Seq<u8>, b: u8) -> Seq<Seq<u8>>
    decreases s.len(),
{
    let i = find_byte(s, b);
    if 0 <= i < s.len() {
        seq![s.take(i)] + split_at_byte(s.skip(i + 1), b)
    } else {
        seq![s]
    }
}

/// Split `s` on byte `b`.
pub fn split_bytes(s: &[u8], b: u8) -> (r: Vec<Vec<u8>>)
    ensures
        r.deep_view() == split_at_byte(s@, b),
{
    let n = s.len();
    let mut r: Vec<Vec<u8>> = Vec::new();
    let mut pos: usize = 0;
    proof {
        assert(s@.skip(0) =~= s@);
        assert(r.deep_view() =~= Seq::<Seq<u8>>::empty());
        assert(r.deep_view() + split_at_byte(s@.skip(0), b) =~= split_at_byte(s@, b));
    }
    loop
        invariant_except_break
            0 <= pos <= n,
            n == s@.len(),
            split_at_byte(s@, b) == r.deep_view() + split_at_byte(s@.skip(pos as int), b),
        ensures
            r.deep_view() == split_at_byte(s@, b),
        decreases n - pos,
    {
        let mut j: usize = pos;
        while j < n && s[j] != b
            invariant
                pos <= j <= n,
                n == s@.len(),
                forall|k: int| pos <= k < j ==> s@[k] != b,
            decreases n - j,
        {
            j += 1;
        }
        let ghost tail = s@.skip(pos as int);
        proof {
            assert forall|k: int| 0 <= k < j - pos implies tail[k] != b by {
                assert(tail[k] == s@[k + pos]);
            }
            if j < n {
                assert(tail[j - pos] == s@[j as int]);
            }
            lemma_find_byte_is(tail, b, j - pos);
        }
        let ghost rprev = r.deep_view();
        let piece = copy_range(s, pos, j);
        r.push(piece);
        proof {
            assert(piece@ =~= tail.take(j - pos));
            assert(r.deep_view() =~~= rprev.push(piece@));
        }
        if j == n {
            proof {
                assert(split_at_byte(tail, b) == seq![tail]);
                assert(tail.take(j - pos) =~= tail);
                assert(rprev + seq![tail] =~= rprev.push(piece@));
            }
            break;
        }
        proof {
            assert(split_at_byte(tail, b) == seq![tail.take(j - pos)] + split_at_byte(
                tail.skip(j - pos + 1),
                b,
            ));
            assert(tail.skip(j - pos + 1) =~= s@.skip(j + 1));
            assert(rprev + (seq![piece@] + split_at_byte(s@.skip(j + 1), b)) =~= rprev.push(
                piece@,
            ) + split_at_byte(s@.skip(j + 1), b));
        }
        pos = j + 1;
    }
    r
}

/// The line with a trailing carriage return removed.
pub open spec fn strip_cr(l: Seq<u8>) -> Seq<u8> {
    if l.len() > 0 && l.last() == 13 {
        l.drop_last()
    } else {
        l
    }
}

/// The lines of `s`, as `str::lines` yields them: split on newline, each
/// line without a trailing carriage return, no empty line after a final
/// newline.
pub open spec fn spec_lines(s: Seq<u8>) -> Seq<Seq<u8>> {
    if s.len() == 0 {
        Seq::<Seq<u8>>::empty()
    } else {
        let p = split_at_byte(s, 10);
        let q = if s.last() == 10 {
            p.drop_last()
        } else {
            p
        };
        q.map_values(|l: Seq<u8>| strip_cr(l))
    }
}

/// Remove a trailing carriage return.
pub fn strip_cr_bytes(l: Vec<u8>) -> (r: Vec<u8>)
    ensures
        r@ == strip_cr(l@),
{
    let mut l = l;
    if l.len() > 0 && l[l.len() - 1] == 13 {
        l.pop();
    }
    l
}

/// Every `split_at_byte` result has at least one piece.
pub proof fn lemma_split_len(s: Seq<u8>, b: u8)
    ensures
        split_at_byte(s, b).len() >= 1,
{
}

/// Split `s` into lines, as `str::lines` does.
#[verifier::loop_isolation(false)]
pub fn lines(s: &[u8]) -> (r: Vec<Vec<u8>>)
    ensures
        r.deep_view() == spec_lines(s@),
{
    let n = s.len();
    if n == 0 {
        let r: Vec<Vec<u8>> = Vec::new();
        proof {
            assert(r.deep_view() =~~= spec_lines(s@));
        }
        return r;
    }
    let mut p = split_bytes(s, 10);
    proof {
        lemma_split_len(s@, 10);
        assert(p@.len() == p.deep_view().len());
    }
    if s[n - 1] == 10 {
        p.pop();
        proof {
            assert(p.deep_view() =~~= split_at_byte(s@, 10).drop_last());
        }
    }
    let ghost q = if s@.last() == 10 {
        split_at_byte(s@, 10).drop_last()
    } else {
        split_at_byte(s@, 10)
    };
    let mut r: Vec<Vec<u8>> = Vec::new();
    let mut i: usize = 0;
    while i < p.len()
        invariant
            0 <= i <= p@.len(),
            p.deep_view() == q,
            r.deep_view() =~= q.take(i as int).map_values(|l: Seq<u8>| strip_cr(l)),
        decreases p@.len() - i,
    {
        let mut piece: Vec<u8> = Vec::new();
        let src = &p[i];
        let mut k: usize = 0;
        while k < src.len()
            invariant
                0 <= k <= src@.len(),
                piece@ =~= src@.take(k as int),
            decreases src@.len() - k,
        {
            piece.push(src[k]);
            k += 1;
        }
        proof {
            assert(piece@ =~= src@);
            assert(src@ =~= q[i as int]);
        }
        let ghost rprev = r.deep_view();
        let stripped = strip_cr_bytes(piece);
        r.push(stripped);
        proof {
            assert(r.deep_view() =~~= rprev.push(stripped@));
            assert(q.take(i + 1).map_values(|l: Seq<u8>| strip_cr(l)) =~= q.take(
                i as int,
            ).map_values(|l: Seq<u8>| strip_cr(l)).push(strip_cr(q[i as int])));
        }
        i += 1;
    }
    proof {
        assert(q.take(q.len() as int) =~= q);
        assert(r.deep_view() =~~= spec_lines(s@));
    }
    r
}

/// The pieces joined with `sep` between them.
pub open spec fn join_with(ls: Seq<Seq<u8>>, sep: Seq<u8>) -> Seq<u8>
    decreases ls.len(),
{
    if ls.len() == 0 {
        Seq::<u8>::empty()
    } else if ls.len() == 1 {
        ls[0]
    } else {
        ls[0] + sep + join_with(ls.drop_first(), sep)
    }
}

/// Appending one more piece extends the join by a separator and the piece.
pub proof fn lemma_join_push(ls: Seq<Seq<u8>>, sep: Seq<u8>, x: Seq<u8>)
    ensures
        join_with(ls.push(x), sep) == if ls.len() == 0 {
            x
        } else {
            join_with(ls, sep) + sep + x
        },
    decreases ls.len(),
{
    if ls.len() == 0 {
        assert(ls.push(x)[0] =~= x);
        assert(join_with(ls.push(x), sep) == x);
    } else if ls.len() == 1 {
        assert(ls.push(x).drop_first() =~= seq![x]);
        assert(join_with(seq![x], sep) == x);
        assert(ls.push(x)[0] == ls[0]);
        assert(join_with(ls.push(x), sep) == ls[0] + sep + x);
    } else {
        lemma_join_push(ls.drop_first(), sep, x);
        assert(ls.push(x)[0] == ls[0]);
        assert(ls.push(x).drop_first() =~= ls.drop_first().push(x));
        assert(ls[0] + sep + (join_with(ls.drop_first(), sep) + sep + x) =~= (ls[0] + sep
            + join_with(ls.drop_first(), sep)) + sep + x);
    }
}

/// Join byte-string pieces with the separator `sep`.
#[verifier::loop_isolation(false)]
pub fn join_bytes(ls: &Vec<Vec<u8>>, sep: &[u8]) -> (r: Vec<u8>)
    ensures
        r@ == join_with(ls.deep_view(), sep@),
{
    let mut r: Vec<u8> = Vec::new();
    let mut i: usize = 0;
    while i < ls.len()
        invariant
            0 <= i <= ls@.len(),
            r@ == join_with(ls.deep_view().take(i as int), sep@),
        decreases ls@.len() - i,
    {
        if i > 0 {
            let mut k: usize = 0;
            while k < sep.len()
                invariant
                    0 <= k <= sep@.len(),
                    r@ =~= join_with(ls.deep_view().take(i as int), sep@) + sep@.take(k as int),
                decreases sep@.len() - k,
            {
                r.push(sep[k]);
                k += 1;
            }
            proof {
                assert(sep@.take(sep@.len() as int) =~= sep@);
            }
        }
        let src = &ls[i];
        let mut k: usize = 0;
        let ghost base = r@;
        while k < src.len()
            invariant
                0 <= k <= src@.len(),
                r@ =~= base + src@.take(k as int),
            decreases src@.len() - k,
        {
            r.push(src[k]);
            k += 1;
        }
        proof {
            assert(src@.take(src@.len() as int) =~= src@);
            assert(src@ =~= ls.deep_view()[i as int]);
            lemma_join_push(ls.deep_view().take(i as int), sep@, ls.deep_view()[i as int]);
            assert(ls.deep_view().take(i as int).push(ls.deep_view()[i as int]) =~= ls.deep_view()
                .take(i + 1));
            if i == 0 {
                assert(r@ =~= join_with(ls.deep_view().take(i + 1), sep@));
            } else {
                assert(r@ =~= join_with(ls.deep_view().take(i as int), sep@) + sep@ + src@);
            }
        }
        i += 1;
    }
    proof {
        assert(ls.deep_view().take(ls.deep_view().len() as int) =~= ls.deep_view());
    }
    r
}

/// The needle `n` occurs in `h` starting at `i`.
pub open spec fn match_at(h: Seq<u8>, n: Seq<u8>, i: int) -> bool {
    0 <= i && i + n.len() <= h.len() && h.subrange(i, i + n.len()) == n
}

/// `n` occurs somewhere in `h`.
pub open spec fn contains_seq(h: Seq<u8>, n: Seq<u8>) -> bool {
    exists|i: int| match_at(h, n, i)
}

/// Index of the first occurrence of `n` in `h`, or `-1` if none.
pub open spec fn first_match_idx(h: Seq<u8>, n: Seq<u8>) -> int
    decreases h.len(),
{
    if h.len() < n.len() {
        -1
    } else if h.subrange(0, n.len() as int) =~= n {
        0
    } else if h.len() == 0 {
        -1
    } else {
        let r = first_match_idx(h.drop_first(), n);
        if r < 0 {
            -1
        } else {
            r + 1
        }
    }
}

/// `first_match_idx` finds the first occurrence, or reports none.
pub proof fn lemma_first_match(h: Seq<u8>, n: Seq<u8>)
    ensures
        first_match_idx(h, n) >= 0 ==> match_at(h, n, first_match_idx(h, n)) && (forall|j: int|
            0 <= j < first_match_idx(h, n) ==> !match_at(h, n, j)),
        first_match_idx(h, n) < 0 ==> forall|j: int| !match_at(h, n, j),
        (first_match_idx(h, n) >= 0) == contains_seq(h, n),
    decreases h.len(),
{
    let fm = first_match_idx(h, n);
    if h.len() < n.len() {
        assert(forall|j: int| !match_at(h, n, j));
    } else if h.subrange(0, n.len() as int) =~= n {
        assert(match_at(h, n, 0));
    } else if h.len() == 0 {
        assert(n.len() == 0);
        assert(h.subrange(0, 0) =~= n);
        assert(false);
    } else {
        lemma_first_match(h.drop_first(), n);
        assert forall|j: int| 1 <= j implies match_at(h, n, j) == match_at(
            h.drop_first(),
            n,
            j - 1,
        ) by {
            if match_at(h, n, j) {
                assert(h.drop_first().subrange(j - 1, j - 1 + n.len()) =~= h.subrange(
                    j,
                    j + n.len(),
                ));
            }
            if match_at(h.drop_first(), n, j - 1) {
                assert(h.subrange(j, j + n.len()) =~= h.drop_first().subrange(
                    j - 1,
                    j - 1 + n.len(),
                ));
            }
        }
        if fm >= 0 {
            assert(match_at(h.drop_first(), n, fm - 1));
            assert(match_at(h, n, fm));
            assert forall|j: int| 0 <= j < fm implies !match_at(h, n, j) by {
                if j == 0 {
                    assert(h.subrange(0, n.len() as int) != n);
                } else {
                    assert(!match_at(h.drop_first(), n, j - 1));
                }
            }
        } else {
            assert forall|j: int| !match_at(h, n, j) by {
                if j == 0 {
                    assert(h.subrange(0, n.len() as int) != n);
                } else if j >= 1 {
                    assert(!match_at(h.drop_first(), n, j - 1));
                }
            }
        }
    }
    if fm >= 0 {
        assert(contains_seq(h, n));
    }
}

/// Compare two byte strings for equality.
pub fn bytes_eq(a: &[u8], b: &[u8]) -> (r: bool)
    ensures
        r == (a@ == b@),
{
    if a.len() != b.len() {
        proof {
            assert(a@ != b@);
        }
        return false;
    }
    let mut k: usize = 0;
    while k < a.len()
        invariant
            0 <= k <= a@.len(),
            a@.len() == b@.len(),
            forall|m: int| 0 <= m < k ==> a@[m] == b@[m],
        decreases a@.len() - k,
    {
        if a[k] != b[k] {
            return false;
        }
        k += 1;
    }
    proof {
        assert(a@ =~= b@);
    }
    true
}

/// Whether `n` occurs in `h` starting exactly at `i`.
fn match_at_exec(h: &[u8], n: &[u8], i: usize) -> (r: bool)
    requires
        i + n@.len() <= h@.len(),
    ensures
        r == match_at(h@, n@, i as int),
{
    let hn = h.len();
    let mut k: usize = 0;
    while k < n.len()
        invariant
            0 <= k <= n@.len(),
            i + n@.len() <= h@.len(),
            hn == h@.len(),
            forall|m: int| 0 <= m < k ==> h@[i + m] == n@[m],
        decreases n@.len() - k,
    {
        if h[i + k] != n[k] {
            proof {
                assert(h@.subrange(i as int, i + n@.len())[k as int] == h@[i + k]);
            }
            return false;
        }
        k += 1;
    }
    proof {
        assert(h@.subrange(i as int, i + n@.len()) =~= n@);
    }
    true
}

/// Find the first occurrence of `n` in `h`.
#[verifier::loop_isolation(false)]
pub fn find_sub(h: &[u8], n: &[u8]) -> (r: Option<usize>)
    ensures
        r is Some ==> first_match_idx(h@, n@) == r.unwrap(),
        r is None ==> first_match_idx(h@, n@) < 0,
        (r is Some) == contains_seq(h@, n@),
{
    proof {
        lemma_first_match(h@, n@);
    }
    if n.len() > h.len() {
        return None;
    }
    let mut i: usize = 0;
    while i <= h.len() - n.len()
        invariant
            0 <= i <= h@.len() - n@.len() + 1,
            forall|j: int| 0 <= j < i ==> !match_at(h@, n@, j),
        decreases h@.len() - n@.len() - i + 1,
    {
        if match_at_exec(h, n, i) {
            proof {
                let fm = first_match_idx(h@, n@);
                assert(fm >= 0);
                if fm < i {
                    assert(!match_at(h@, n@, fm));
                    assert(false);
                }
                if fm > i {
                    assert(!match_at(h@, n@, i as int));
                    assert(false);
                }
            }
            return Some(i);
        }
        i += 1;
    }
    proof {
        assert forall|j: int| !match_at(h@, n@, j) by {
            if 0 <= j <= h@.len() - n@.len() {
                assert(!match_at(h@, n@, j));
            }
        }
    }
    None
}

/// Whether `h` contains `n` anywhere.
pub fn contains_sub(h: &[u8], n: &[u8]) -> (r: bool)
    ensures
        r == contains_seq(h@, n@),
{
    match find_sub(h, n) {
        Some(_) => true,
        None => false,
    }
}

/// `b` lowered if it is an ASCII capital letter.
pub open spec fn lower_byte(b: u8) -> u8 {
    if 65 <= b && b <= 90 {
        (b + 32) as u8
    } else {
        b
    }
}

/// The byte string with every ASCII capital lowered.
pub open spec fn lower_seq(s: Seq<u8>) -> Seq<u8> {
    s.map_values(|b: u8| lower_byte(b))
}

/// Lower every ASCII capital letter of `s`.
#[verifier::loop_isolation(false)]
pub fn to_lower(s: &[u8]) -> (r: Vec<u8>)
    ensures
        r@ == lower_seq(s@),
{
    let mut r: Vec<u8> = Vec::new();
    let mut k: usize = 0;
    while k < s.len()
        invariant
            0 <= k <= s@.len(),
            r@ =~= s@.take(k as int).map_values(|b: u8| lower_byte(b)),
        decreases s@.len() - k,
    {
        let b = s[k];
        if b >= 65 && b <= 90 {
            r.push(b + 32);
        } else {
            r.push(b);
        }
        proof {
            assert(s@.take(k + 1).map_values(|b: u8| lower_byte(b)) =~= s@.take(
                k as int,
            ).map_values(|b: u8| lower_byte(b)).push(lower_byte(s@[k as int])));
        }
        k += 1;
    }
    proof {
        assert(s@.take(s@.len() as int) =~= s@);
    }
    r
}

/// The decimal digits of `n`, most significant first.
pub open spec fn dec_digits(n: nat) -> Seq<u8>
    decreases n,
{
    if n < 10 {
        seq![(48 + n) as u8]
    } else {
        dec_digits(n / 10).push((48 + n % 10) as u8)
    }
}

/// Render `n` in decimal.
pub fn fmt_u64(n: u64) -> (r: Vec<u8>)
    ensures
        r@ == dec_digits(n as nat),
    decreases n,
{
    if n < 10 {
        let mut r: Vec<u8> = Vec::new();
        r.push(48 + (n as u8));
        proof {
            assert(r@ =~= dec_digits(n as nat));
        }
        r
    } else {
        let mut r = fmt_u64(n / 10);
        r.push(48 + ((n % 10) as u8));
        r
    }
}

/// Concatenate two byte strings.
pub fn concat_bytes(a: &[u8], b: &[u8]) -> (r: Vec<u8>)
    ensures
        r@ == a@ + b@,
{
    let mut r = copy_range(a, 0, a.len());
    let mut k: usize = 0;
    proof {
        assert(a@.subrange(0, a@.len() as int) =~= a@);
    }
    while k < b.len()
        invariant
            0 <= k <= b@.len(),
            r@ =~= a@ + b@.take(k as int),
        decreases b@.len() - k,
    {
        r.push(b[k]);
        k += 1;
    }
    proof {
        assert(b@.take(b@.len() as int) =~= b@);
    }
    r
}

} // verus!
