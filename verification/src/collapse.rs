//! The XiYi → XY search for the shared indication: the pair `(x ∈ Xi,
//! y ∈ Yi)` that co-occurs in most of the real fragments, ties going to the
//! lexicographically first pair, with the number of pairs that co-occur at all.

use vstd::prelude::*;
use crate::text::chars_of;
use crate::words::{strs, seq_lt, lowercase_of, to_lower, lemma_seq_lt_transitive,
    lemma_seq_lt_asymmetric, lemma_seq_lt_total, lemma_seq_lt_irreflexive};

verus! {

/// `needle` occurs in `hay`.
pub open spec fn holds(hay: Seq<char>, needle: Seq<char>) -> bool {
    exists|i: int|
        0 <= i && i + needle.len() <= hay.len() && #[trigger] hay.subrange(i, i + needle.len())
            == needle
}

/// Whether `needle` occurs in `hay`.
fn contains_text(hay: &Vec<char>, needle: &Vec<char>) -> (r: bool)
    ensures
        r == holds(hay@, needle@),
{
    let n = needle.len();
    if n > hay.len() {
        return false;
    }
    if n == 0 {
        assert(hay@.subrange(0int, 0int + needle@.len()) =~= needle@);
        return true;
    }
    let last = hay.len() - n;
    let mut i: usize = 0;
    while i <= last
        invariant
            n == needle@.len(),
            n >= 1,
            last == hay.len() - n,
            i <= last + 1,
            forall|k: int| 0 <= k < i ==> #[trigger] hay@.subrange(k, k + n) != needle@,
        decreases last + 1 - i,
    {
        let mut j: usize = 0;
        while j < n && hay[i + j] == needle[j]
            invariant
                n == needle@.len(),
                last == hay.len() - n,
                i <= last,
                i + n <= hay.len(),
                j <= n,
                forall|t: int| 0 <= t < j ==> hay@[i + t] == needle@[t],
            decreases n - j,
        {
            j += 1;
        }
        if j == n {
            assert(hay@.subrange(i as int, i + n) =~= needle@);
            return true;
        }
        proof {
            assert(hay@.subrange(i as int, i + n)[j as int] == hay@[i + j]);
        }
        i += 1;
    }
    proof {
        assert forall|k: int| 0 <= k && k + n <= hay@.len() implies #[trigger] hay@.subrange(
            k,
            k + n,
        ) != needle@ by {
            assert(k < i);
        }
    }
    false
}

/// The fragments, each lowercased.
pub open spec fn lowered_all(frags: Seq<String>) -> Seq<Seq<char>> {
    Seq::new(frags.len(), |i: int| lowercase_of(frags[i]@))
}

/// How many of the (lowercased) fragments contain both `x` and `y`.
pub open spec fn copresence(frags: Seq<Seq<char>>, x: Seq<char>, y: Seq<char>) -> nat
    decreases frags.len(),
{
    if frags.len() == 0 {
        0
    } else {
        let fl = frags.last();
        copresence(frags.drop_last(), x, y) + if holds(fl, x) && holds(fl, y) {
            1nat
        } else {
            0nat
        }
    }
}

/// Lexicographic order on pairs of texts.
pub open spec fn pair_lt(x: Seq<char>, y: Seq<char>, bx: Seq<char>, by: Seq<char>) -> bool {
    seq_lt(x, bx) || (x == bx && seq_lt(y, by))
}

/// The number of pairs `(xi[i], yi[j])` that co-occur, row by row.
pub open spec fn row_survivors(frags: Seq<Seq<char>>, x: Seq<char>, yi: Seq<Seq<char>>) -> nat
    decreases yi.len(),
{
    if yi.len() == 0 {
        0
    } else {
        row_survivors(frags, x, yi.drop_last()) + if copresence(frags, x, yi.last()) > 0 {
            1nat
        } else {
            0nat
        }
    }
}

pub open spec fn survivors(frags: Seq<Seq<char>>, xi: Seq<Seq<char>>, yi: Seq<Seq<char>>) -> nat
    decreases xi.len(),
{
    if xi.len() == 0 {
        0
    } else {
        survivors(frags, xi.drop_last(), yi) + row_survivors(frags, xi.last(), yi)
    }
}

/// `(x, y)` with count `c` beats every pair `(a, b)` that `seen` admits:
/// each of those co-occurs less, or as often and does not sort before it.
pub open spec fn beats(
    frags: Seq<Seq<char>>,
    x: Seq<char>,
    y: Seq<char>,
    c: nat,
    a: Seq<char>,
    b: Seq<char>,
) -> bool {
    copresence(frags, a, b) < c || (copresence(frags, a, b) == c && !pair_lt(a, b, x, y))
}

/// The shared indication: the co-occurring pair `(x, y)` of `Xi × Yi` with
/// the highest count, the lexicographically first among equals.
pub open spec fn is_best(
    frags: Seq<Seq<char>>,
    xi: Seq<Seq<char>>,
    yi: Seq<Seq<char>>,
    x: Seq<char>,
    y: Seq<char>,
    c: nat,
) -> bool {
    &&& xi.contains(x)
    &&& yi.contains(y)
    &&& c == copresence(frags, x, y)
    &&& c > 0
    &&& forall|i: int, j: int|
        0 <= i < xi.len() && 0 <= j < yi.len() ==> beats(frags, x, y, c, #[trigger] xi[i], #[trigger] yi[j])
}

proof fn lemma_pair_lt_order(a: Seq<char>, b: Seq<char>, x: Seq<char>, y: Seq<char>, p: Seq<char>, q: Seq<char>)
    ensures
        pair_lt(a, b, x, y) && pair_lt(x, y, p, q) ==> pair_lt(a, b, p, q),
        !(pair_lt(a, b, x, y) && pair_lt(x, y, a, b)),
        !pair_lt(a, b, x, y) ==> (a == x && b == y) || pair_lt(x, y, a, b),
{
    if pair_lt(a, b, x, y) && pair_lt(x, y, p, q) {
        if seq_lt(a, x) && seq_lt(x, p) {
            lemma_seq_lt_transitive(a, x, p);
        } else if seq_lt(b, y) && seq_lt(y, q) {
            lemma_seq_lt_transitive(b, y, q);
        }
    }
    lemma_seq_lt_asymmetric(a, x);
    lemma_seq_lt_asymmetric(b, y);
    lemma_seq_lt_irreflexive(a);
    lemma_seq_lt_irreflexive(b);
    if a != x {
        lemma_seq_lt_total(a, x);
    }
    if b != y {
        lemma_seq_lt_total(b, y);
    }
}

/// The number of (lowercased) fragments that contain both texts.
fn count_copresence(frags: &Vec<String>, x: &Vec<char>, y: &Vec<char>) -> (r: u32)
    requires
        copresence(strs(frags@), x@, y@) <= u32::MAX,
    ensures
        r == copresence(strs(frags@), x@, y@),
{
    let mut co: u32 = 0;
    let mut k: usize = 0;
    while k < frags.len()
        invariant
            k <= frags@.len(),
            co == copresence(strs(frags@).take(k as int), x@, y@),
            copresence(strs(frags@), x@, y@) <= u32::MAX,
        decreases frags@.len() - k,
    {
        proof {
            let fs = strs(frags@);
            lemma_copresence_prefix(fs, k + 1, x@, y@);
            assert(fs.take(k + 1).drop_last() =~= fs.take(k as int));
            assert(fs.take(k + 1).last() == frags@[k as int]@);
        }
        let fc = chars_of(frags[k].as_str());
        if contains_text(&fc, x) && contains_text(&fc, y) {
            co = co + 1;
        }
        k += 1;
    }
    assert(strs(frags@).take(k as int) =~= strs(frags@));
    co
}

proof fn lemma_copresence_bound(frags: Seq<Seq<char>>, x: Seq<char>, y: Seq<char>)
    ensures
        copresence(frags, x, y) <= frags.len(),
    decreases frags.len(),
{
    if frags.len() > 0 {
        lemma_copresence_bound(frags.drop_last(), x, y);
    }
}

proof fn lemma_row_bound(frags: Seq<Seq<char>>, x: Seq<char>, yi: Seq<Seq<char>>)
    ensures
        row_survivors(frags, x, yi) <= yi.len(),
    decreases yi.len(),
{
    if yi.len() > 0 {
        lemma_row_bound(frags, x, yi.drop_last());
    }
}

/// At most every pair co-occurs.
proof fn lemma_survivors_bound(frags: Seq<Seq<char>>, xi: Seq<Seq<char>>, yi: Seq<Seq<char>>)
    ensures
        survivors(frags, xi, yi) <= xi.len() * yi.len(),
    decreases xi.len(),
{
    if xi.len() > 0 {
        lemma_survivors_bound(frags, xi.drop_last(), yi);
        lemma_row_bound(frags, xi.last(), yi);
        let n = xi.len() as int;
        let m = yi.len() as int;
        assert((n - 1) * m + m == n * m) by (nonlinear_arith);
    }
}

proof fn lemma_copresence_prefix(frags: Seq<Seq<char>>, k: int, x: Seq<char>, y: Seq<char>)
    requires
        0 <= k <= frags.len(),
    ensures
        copresence(frags.take(k), x, y) <= copresence(frags, x, y),
    decreases frags.len(),
{
    if k < frags.len() {
        assert(frags.drop_last().take(k) =~= frags.take(k));
        lemma_copresence_prefix(frags.drop_last(), k, x, y);
    } else {
        assert(frags.take(k) =~= frags);
    }
}

proof fn lemma_row_prefix(frags: Seq<Seq<char>>, x: Seq<char>, yi: Seq<Seq<char>>, j: int)
    requires
        0 <= j <= yi.len(),
    ensures
        row_survivors(frags, x, yi.take(j)) <= row_survivors(frags, x, yi),
    decreases yi.len(),
{
    if j < yi.len() {
        assert(yi.drop_last().take(j) =~= yi.take(j));
        lemma_row_prefix(frags, x, yi.drop_last(), j);
    } else {
        assert(yi.take(j) =~= yi);
    }
}

proof fn lemma_survivors_prefix(frags: Seq<Seq<char>>, xi: Seq<Seq<char>>, yi: Seq<Seq<char>>, i: int)
    requires
        0 <= i <= xi.len(),
    ensures
        survivors(frags, xi.take(i), yi) <= survivors(frags, xi, yi),
    decreases xi.len(),
{
    if i < xi.len() {
        assert(xi.drop_last().take(i) =~= xi.take(i));
        lemma_survivors_prefix(frags, xi.drop_last(), yi, i);
    } else {
        assert(xi.take(i) =~= xi);
    }
}

/// Searches `Xi × Yi` for the pair that co-occurs most in the already
/// lowercased fragments (ties to the lexicographically first pair) and counts
/// the pairs that co-occur at all. Nothing is found when no pair co-occurs.
pub fn best_pair_in(frags: &Vec<String>, xi: &Vec<String>, yi: &Vec<String>) -> (r: (
    Option<(String, String, u32)>,
    u32,
))
    requires
        frags@.len() <= u32::MAX,
        survivors(strs(frags@), strs(xi@), strs(yi@)) <= u32::MAX,
    ensures
        r.1 == survivors(strs(frags@), strs(xi@), strs(yi@)),
        r.0 matches Some(t) ==> is_best(strs(frags@), strs(xi@), strs(yi@), t.0@, t.1@, t.2 as nat),
        r.0 is None ==> forall|i: int, j: int|
            0 <= i < xi@.len() && 0 <= j < yi@.len() ==> copresence(
                strs(frags@),
                #[trigger] strs(xi@)[i],
                #[trigger] strs(yi@)[j],
            ) == 0,
{
    let ghost xs = strs(xi@);
    let ghost ys = strs(yi@);
    let mut best: Option<(String, String, u32)> = None;
    let mut count: u32 = 0;
    let mut i: usize = 0;
    while i < xi.len()
        invariant
            xs == strs(xi@),
            ys == strs(yi@),
            frags@.len() <= u32::MAX,
            survivors(strs(frags@), xs, ys) <= u32::MAX,
            i <= xi@.len(),
            count == survivors(strs(frags@), xs.take(i as int), ys),
            best matches Some(t) ==> xs.contains(t.0@) && ys.contains(t.1@) && t.2 == copresence(
                strs(frags@),
                t.0@,
                t.1@,
            ) && t.2 > 0 && forall|p: int, q: int|
                0 <= p < i && 0 <= q < ys.len() ==> beats(strs(frags@), t.0@, t.1@, t.2 as nat, #[trigger] xs[p], #[trigger] ys[q]),
            best is None ==> forall|p: int, q: int|
                0 <= p < i && 0 <= q < ys.len() ==> copresence(strs(frags@), #[trigger] xs[p], #[trigger] ys[q]) == 0,
        decreases xi@.len() - i,
    {
        let xc = chars_of(xi[i].as_str());
        let ghost x = xs[i as int];
        assert(xc@ == x);
        let mut row: u32 = 0;
        proof {
            lemma_survivors_prefix(strs(frags@), xs, ys, i + 1);
            assert(xs.take(i + 1).drop_last() =~= xs.take(i as int));
            assert(xs.take(i + 1).last() == x);
            assert(survivors(strs(frags@), xs.take(i + 1), ys) == count + row_survivors(strs(frags@), x, ys));
        }
        let mut j: usize = 0;
        while j < yi.len()
            invariant
                xs == strs(xi@),
                ys == strs(yi@),
                frags@.len() <= u32::MAX,
                i < xi@.len(),
                x == xs[i as int],
                xc@ == x,
                j <= yi@.len(),
                row == row_survivors(strs(frags@), x, ys.take(j as int)),
                count as nat + row_survivors(strs(frags@), x, ys) <= u32::MAX,
                best matches Some(t) ==> xs.contains(t.0@) && ys.contains(t.1@) && t.2
                    == copresence(strs(frags@), t.0@, t.1@) && t.2 > 0 && (forall|p: int, q: int|
                    0 <= p < i && 0 <= q < ys.len() ==> beats(strs(frags@), t.0@, t.1@, t.2 as nat, #[trigger] xs[p], #[trigger] ys[q]))
                    && (forall|q: int| 0 <= q < j ==> beats(strs(frags@), t.0@, t.1@, t.2 as nat, x, #[trigger] ys[q])),
                best is None ==> (forall|p: int, q: int|
                    0 <= p < i && 0 <= q < ys.len() ==> copresence(strs(frags@), #[trigger] xs[p], #[trigger] ys[q]) == 0)
                    && (forall|q: int| 0 <= q < j ==> copresence(strs(frags@), x, #[trigger] ys[q]) == 0),
            decreases yi@.len() - j,
        {
            let yc = chars_of(yi[j].as_str());
            let ghost y = ys[j as int];
            assert(yc@ == y);
            proof {
                lemma_copresence_bound(strs(frags@), x, y);
            }
            let co = count_copresence(frags, &xc, &yc);
            proof {
                lemma_row_prefix(strs(frags@), x, ys, j + 1);
                assert(ys.take(j + 1).drop_last() =~= ys.take(j as int));
                assert(ys.take(j + 1).last() == y);
            }
            if co > 0 {
                row = row + 1;
            }
            let better = match &best {
                None => co > 0,
                Some(t) => co > t.2 || (co == t.2 && (crate::words::str_lt(xi[i].as_str(), t.0.as_str())
                    || (crate::text::str_eq(xi[i].as_str(), t.0.as_str()) && crate::words::str_lt(
                    yi[j].as_str(),
                    t.1.as_str(),
                )))),
            };
            proof {
                assert(xi@[i as int]@ == x);
                assert(yi@[j as int]@ == y);
                assert(xs.contains(x)) by {
                    assert(xs[i as int] == x);
                }
                assert(ys.contains(y)) by {
                    assert(ys[j as int] == y);
                }
                if let Some(t) = &best {
                    assert(better == (co > t.2 || (co == t.2 && pair_lt(x, y, t.0@, t.1@))));
                    if better {
                        assert forall|a: Seq<char>, b: Seq<char>|
                            beats(strs(frags@), t.0@, t.1@, t.2 as nat, a, b) implies beats(
                            strs(frags@),
                            x,
                            y,
                            co as nat,
                            a,
                            b,
                        ) by {
                            lemma_pair_lt_order(a, b, x, y, t.0@, t.1@);
                            lemma_pair_lt_order(x, y, t.0@, t.1@, a, b);
                            lemma_pair_lt_order(x, y, a, b, t.0@, t.1@);
                            lemma_pair_lt_order(t.0@, t.1@, a, b, x, y);
                            lemma_pair_lt_order(a, b, t.0@, t.1@, x, y);
                        }
                        lemma_pair_lt_order(x, y, x, y, x, y);
                    }
                } else if better {
                    lemma_pair_lt_order(x, y, x, y, x, y);
                }
            }
            if better {
                best = Some((xi[i].clone(), yi[j].clone(), co));
            }
            j += 1;
        }
        assert(ys.take(j as int) =~= ys);
        count = count + row;
        i += 1;
    }
    assert(xs.take(i as int) =~= xs);
    (best, count)
}

/// Searches `Xi × Yi` for the pair that co-occurs most in the fragments,
/// each lowercased first (ties to the lexicographically first pair), and
/// counts the pairs that co-occur at all. Nothing is found when no pair
/// co-occurs.
pub fn best_copresence(frags: &Vec<String>, xi: &Vec<String>, yi: &Vec<String>) -> (r: (
    Option<(String, String, u32)>,
    u32,
))
    requires
        frags@.len() <= u32::MAX,
        xi@.len() * yi@.len() <= u32::MAX,
    ensures
        r.1 == survivors(lowered_all(frags@), strs(xi@), strs(yi@)),
        r.0 matches Some(t) ==> is_best(
            lowered_all(frags@),
            strs(xi@),
            strs(yi@),
            t.0@,
            t.1@,
            t.2 as nat,
        ),
        r.0 is None ==> forall|i: int, j: int|
            0 <= i < xi@.len() && 0 <= j < yi@.len() ==> copresence(
                lowered_all(frags@),
                #[trigger] strs(xi@)[i],
                #[trigger] strs(yi@)[j],
            ) == 0,
{
    let mut lowered: Vec<String> = Vec::new();
    let mut k: usize = 0;
    while k < frags.len()
        invariant
            k <= frags@.len(),
            lowered@.len() == k,
            forall|t: int| 0 <= t < k ==> #[trigger] lowered@[t]@ == lowercase_of(frags@[t]@),
        decreases frags@.len() - k,
    {
        lowered.push(to_lower(frags[k].as_str()));
        k += 1;
    }
    assert(strs(lowered@) =~= lowered_all(frags@));
    proof {
        lemma_survivors_bound(strs(lowered@), strs(xi@), strs(yi@));
    }
    best_pair_in(&lowered, xi, yi)
}


/// Why the XiYi collapse proposes no pair.
#[derive(Debug, Clone, Copy, PartialEq, Eq, Structural)]
pub enum CollapseRefusal {
    /// Neither Xi nor Yi holds a primitive.
    NoPrimitiveMaterial,
    /// Only one of Xi and Yi holds primitives.
    OneSided,
    /// No pair of `Xi × Yi` co-occurs in a fragment.
    NoCopresence,
}

impl CollapseRefusal {
    pub open spec fn reason_spec(self) -> Seq<char> {
        match self {
            CollapseRefusal::NoPrimitiveMaterial => "pa material primitiv: Xi=∅ ∧ Yi=∅"@,
            CollapseRefusal::OneSided => "hapësirë e njëanshme: XiYi kërkon të dyja"@,
            CollapseRefusal::NoCopresence => "XiYi=∅: asnjë bashkëprezencë (x∈Xi, y∈Yi) në fragmente"@,
        }
    }

    /// The refusal's reason, as the collapse reports it.
    pub fn reason(self) -> (r: &'static str)
        ensures
            r@ == self.reason_spec(),
    {
        match self {
            CollapseRefusal::NoPrimitiveMaterial => "pa material primitiv: Xi=∅ ∧ Yi=∅",
            CollapseRefusal::OneSided => "hapësirë e njëanshme: XiYi kërkon të dyja",
            CollapseRefusal::NoCopresence => "XiYi=∅: asnjë bashkëprezencë (x∈Xi, y∈Yi) në fragmente",
        }
    }
}

/// The XiYi → XY collapse without its floating-point mass: refused when Xi
/// and Yi are both empty, when one of them is, or when no pair co-occurs;
/// else the most co-present pair (see `best_copresence`) and the number of
/// pairs that co-occur. A refusal counts no survivor.
pub fn collapse_search(frags: &Vec<String>, xi: &Vec<String>, yi: &Vec<String>) -> (r: (
    Result<(String, String, u32), CollapseRefusal>,
    u32,
))
    requires
        frags@.len() <= u32::MAX,
        xi@.len() * yi@.len() <= u32::MAX,
    ensures
        xi@.len() == 0 && yi@.len() == 0 ==> r == (Err::<(String, String, u32), _>(CollapseRefusal::NoPrimitiveMaterial), 0u32),
        (xi@.len() == 0) != (yi@.len() == 0) ==> r == (Err::<(String, String, u32), _>(CollapseRefusal::OneSided), 0u32),
        xi@.len() > 0 && yi@.len() > 0 ==> {
            &&& (r.0 matches Ok(t) ==> is_best(lowered_all(frags@), strs(xi@), strs(yi@), t.0@, t.1@, t.2 as nat))
            &&& (r.0 matches Ok(_) ==> r.1 == survivors(lowered_all(frags@), strs(xi@), strs(yi@)))
            &&& (r.0 is Err <==> forall|i: int, j: int|
                0 <= i < xi@.len() && 0 <= j < yi@.len() ==> copresence(
                    lowered_all(frags@),
                    #[trigger] strs(xi@)[i],
                    #[trigger] strs(yi@)[j],
                ) == 0)
            &&& (r.0 is Err ==> r == (Err::<(String, String, u32), _>(CollapseRefusal::NoCopresence), 0u32))
        },
{
    if xi.len() == 0 && yi.len() == 0 {
        return (Err(CollapseRefusal::NoPrimitiveMaterial), 0);
    }
    if xi.len() == 0 || yi.len() == 0 {
        return (Err(CollapseRefusal::OneSided), 0);
    }
    let (best, count) = best_copresence(frags, xi, yi);
    match best {
        Some(t) => {
            proof {
                let (x, y, c) = (t.0@, t.1@, t.2 as nat);
                let ys = strs(yi@);
                let xs = strs(xi@);
                let i = choose|i: int| 0 <= i < xs.len() && xs[i] == x;
                let j = choose|j: int| 0 <= j < ys.len() && ys[j] == y;
                assert(copresence(lowered_all(frags@), xs[i], ys[j]) > 0);
            }
            (Ok(t), count)
        },
        None => (Err(CollapseRefusal::NoCopresence), 0),
    }
}

} // verus!
