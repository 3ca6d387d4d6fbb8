//! Words of a text: lexicographic order on character sequences, sorted sets
//! of strings, and the tokenizer that splits a text into lowercased runs of
//! alphanumeric characters.

use vstd::prelude::*;
use crate::text::chars_of;

verus! {

/// The views of a sequence of strings.
pub open spec fn strs(v: Seq<String>) -> Seq<Seq<char>> {
    v.map_values(|s: String| s@)
}

/// Lexicographic order on character sequences, by code point. On UTF-8
/// strings it coincides with the byte order that `Ord for str` uses.
pub open spec fn seq_lt(a: Seq<char>, b: Seq<char>) -> bool
    decreases a.len(),
{
    if a.len() == 0 {
        b.len() > 0
    } else if b.len() == 0 {
        false
    } else if a[0] != b[0] {
        a[0] < b[0]
    } else {
        seq_lt(a.drop_first(), b.drop_first())
    }
}

pub proof fn lemma_seq_lt_irreflexive(a: Seq<char>)
    ensures
        !seq_lt(a, a),
    decreases a.len(),
{
    if a.len() > 0 {
        lemma_seq_lt_irreflexive(a.drop_first());
    }
}

pub proof fn lemma_seq_lt_asymmetric(a: Seq<char>, b: Seq<char>)
    ensures
        !(seq_lt(a, b) && seq_lt(b, a)),
    decreases a.len(),
{
    if a.len() > 0 && b.len() > 0 && a[0] == b[0] {
        lemma_seq_lt_asymmetric(a.drop_first(), b.drop_first());
    }
}

pub proof fn lemma_seq_lt_transitive(a: Seq<char>, b: Seq<char>, c: Seq<char>)
    requires
        seq_lt(a, b),
        seq_lt(b, c),
    ensures
        seq_lt(a, c),
    decreases a.len(),
{
    if a.len() > 0 && b.len() > 0 && c.len() > 0 && a[0] == b[0] && b[0] == c[0] {
        lemma_seq_lt_transitive(a.drop_first(), b.drop_first(), c.drop_first());
    }
}

pub proof fn lemma_seq_lt_total(a: Seq<char>, b: Seq<char>)
    requires
        a != b,
    ensures
        seq_lt(a, b) || seq_lt(b, a),
    decreases a.len(),
{
    if a.len() == 0 && b.len() == 0 {
        assert(a =~= b);
    } else if a.len() == 0 || b.len() == 0 {
    } else if a[0] != b[0] {
    } else {
        if a.drop_first() == b.drop_first() {
            assert(a =~= seq![a[0]] + a.drop_first());
            assert(b =~= seq![b[0]] + b.drop_first());
        }
        lemma_seq_lt_total(a.drop_first(), b.drop_first());
    }
}

/// With equal prefixes of length `i`, the order is decided by what follows.
proof fn lemma_seq_lt_skip(a: Seq<char>, b: Seq<char>, i: int)
    requires
        0 <= i <= a.len(),
        i <= b.len(),
        a.take(i) == b.take(i),
    ensures
        seq_lt(a, b) == seq_lt(a.skip(i), b.skip(i)),
    decreases i,
{
    if i > 0 {
        assert(a[0] == a.take(i)[0]);
        assert(b[0] == b.take(i)[0]);
        assert(a.drop_first().take(i - 1) =~= a.take(i).drop_first());
        assert(b.drop_first().take(i - 1) =~= b.take(i).drop_first());
        lemma_seq_lt_skip(a.drop_first(), b.drop_first(), i - 1);
        assert(a.drop_first().skip(i - 1) =~= a.skip(i));
        assert(b.drop_first().skip(i - 1) =~= b.skip(i));
    } else {
        assert(a.skip(0) =~= a);
        assert(b.skip(0) =~= b);
    }
}

/// Whether `a` sorts strictly before `b`.
pub fn str_lt(a: &str, b: &str) -> (r: bool)
    ensures
        r == seq_lt(a@, b@),
{
    let x = chars_of(a);
    let y = chars_of(b);
    let mut i: usize = 0;
    while i < x.len() && i < y.len()
        invariant
            x@ == a@,
            y@ == b@,
            i <= x@.len(),
            i <= y@.len(),
            a@.take(i as int) == b@.take(i as int),
        decreases x@.len() - i,
    {
        if x[i] != y[i] {
            proof {
                lemma_seq_lt_skip(a@, b@, i as int);
            }
            let lt = x[i] < y[i];
            return lt;
        }
        assert(a@.take(i + 1) =~= a@.take(i as int).push(a@[i as int]));
        assert(b@.take(i + 1) =~= b@.take(i as int).push(b@[i as int]));
        i += 1;
    }
    proof {
        lemma_seq_lt_skip(a@, b@, i as int);
    }
    i < y.len()
}

/// Strictly increasing in lexicographic order (so free of duplicates).
pub open spec fn strictly_sorted(s: Seq<Seq<char>>) -> bool {
    forall|i: int, j: int| 0 <= i < j < s.len() ==> seq_lt(#[trigger] s[i], #[trigger] s[j])
}

pub proof fn lemma_strictly_sorted_no_duplicates(s: Seq<Seq<char>>)
    requires
        strictly_sorted(s),
    ensures
        s.no_duplicates(),
{
    assert forall|i: int, j: int| 0 <= i < s.len() && 0 <= j < s.len() && i != j implies s[i]
        != s[j] by {
        if i < j {
            lemma_seq_lt_irreflexive(s[i]);
        } else {
            lemma_seq_lt_irreflexive(s[j]);
        }
    }
}

/// Inserts `w` into a strictly sorted vector unless it is already there.
pub fn insert_sorted(v: &mut Vec<String>, w: String)
    requires
        strictly_sorted(strs(old(v)@)),
    ensures
        strictly_sorted(strs(final(v)@)),
        strs(final(v)@).to_set() == strs(old(v)@).to_set().insert(w@),
{
    let ghost old_s = strs(v@);
    let mut i: usize = 0;
    while i < v.len() && str_lt(v[i].as_str(), w.as_str())
        invariant
            strs(v@) == old_s,
            strictly_sorted(old_s),
            i <= v@.len(),
            forall|j: int| 0 <= j < i ==> seq_lt(#[trigger] old_s[j], w@),
        decreases v@.len() - i,
    {
        i += 1;
    }
    if i < v.len() && !str_lt(w.as_str(), v[i].as_str()) {
        proof {
            if old_s[i as int] != w@ {
                lemma_seq_lt_total(old_s[i as int], w@);
            }
            assert(old_s.to_set().insert(w@) =~= old_s.to_set()) by {
                assert(old_s.to_set().contains(old_s[i as int]));
            }
        }
        return;
    }
    proof {
        assert forall|j: int| i <= j < old_s.len() implies seq_lt(w@, #[trigger] old_s[j]) by {
            if j == i {
            } else {
                lemma_seq_lt_transitive(w@, old_s[i as int], old_s[j]);
            }
        }
    }
    v.insert(i, w);
    proof {
        let ns = strs(v@);
        assert(ns =~= old_s.insert(i as int, w@));
        assert forall|a: int, b: int| 0 <= a < b < ns.len() implies seq_lt(
            #[trigger] ns[a],
            #[trigger] ns[b],
        ) by {
            if a < i && b > i {
                assert(ns[b] == old_s[b - 1]);
            } else if a == i {
                assert(ns[b] == old_s[b - 1]);
            } else if b == i {
                assert(ns[a] == old_s[a]);
            } else if a > i {
                assert(ns[a] == old_s[a - 1]);
                assert(ns[b] == old_s[b - 1]);
            }
        }
        assert(ns.to_set() =~= old_s.to_set().insert(w@)) by {
            assert forall|x: Seq<char>| ns.to_set().contains(x) implies old_s.to_set().insert(
                w@,
            ).contains(x) by {
                let k = choose|k: int| 0 <= k < ns.len() && ns[k] == x;
                if k < i {
                    assert(old_s[k] == x);
                } else if k > i {
                    assert(old_s[k - 1] == x);
                }
            }
            assert forall|x: Seq<char>| old_s.to_set().insert(w@).contains(x) implies ns.to_set().contains(
                x,
            ) by {
                if x == w@ {
                    assert(ns[i as int] == x);
                } else {
                    let k = choose|k: int| 0 <= k < old_s.len() && old_s[k] == x;
                    if k < i {
                        assert(ns[k] == x);
                    } else {
                        assert(ns[k + 1] == x);
                    }
                }
            }
        }
    }
}

/// Unicode `Alphabetic` or `Numeric`, as `char::is_alphanumeric` decides it.
pub uninterp spec fn alnum(c: char) -> bool;

/// Calls `char::is_alphanumeric`. Trusted: the answer is a function of the
/// character alone; which characters qualify (Unicode data) is not stated.
#[verifier::external_body]
fn is_alnum(c: char) -> (r: bool)
    ensures
        r == alnum(c),
{
    c.is_alphanumeric()
}

/// The Unicode lowercase mapping of a text, as `str::to_lowercase` gives it.
pub uninterp spec fn lowercase_of(s: Seq<char>) -> Seq<char>;

/// Calls `str::to_lowercase`. Trusted: the result is a function of the text
/// alone (the mapping uses no locale); the Unicode tables are not stated.
#[verifier::external_body]
pub(crate) fn to_lower(s: &str) -> (r: String)
    ensures
        r@ == lowercase_of(s@),
{
    s.to_lowercase()
}

/// The maximal runs of alphanumeric characters of `s`, in order.
pub open spec fn runs(s: Seq<char>) -> Seq<Seq<char>>
    decreases s.len(),
{
    if s.len() == 0 {
        Seq::empty()
    } else {
        let r = runs(s.drop_last());
        let c = s.last();
        if !alnum(c) {
            r
        } else if s.len() >= 2 && alnum(s[s.len() - 2]) {
            r.drop_last().push(r.last().push(c))
        } else {
            r.push(seq![c])
        }
    }
}

/// The words of a text: each maximal alphanumeric run, lowercased.
pub open spec fn tokens(s: Seq<char>) -> Seq<Seq<char>> {
    runs(s).map_values(|w: Seq<char>| lowercase_of(w))
}

/// Splits on every non-alphanumeric character, drops empty pieces and
/// lowercases what is left.
pub fn tokenize(content: &str) -> (r: Vec<String>)
    ensures
        strs(r@) == tokens(content@),
{
    let cs = chars_of(content);
    let mut out: Vec<String> = Vec::new();
    let mut cur: Vec<char> = Vec::new();
    let ghost mut done: Seq<Seq<char>> = Seq::empty();
    let mut i: usize = 0;
    while i < cs.len()
        invariant
            cs@ == content@,
            i <= cs@.len(),
            strs(out@) == done.map_values(|w: Seq<char>| lowercase_of(w)),
            cur@.len() > 0 ==> i > 0 && alnum(content@[i - 1]),
            i > 0 && alnum(content@[i - 1]) ==> cur@.len() > 0,
            runs(content@.take(i as int)) == if cur@.len() > 0 {
                done.push(cur@)
            } else {
                done
            },
        decreases cs@.len() - i,
    {
        let c = cs[i];
        let ghost t = content@.take(i + 1);
        let ghost r = runs(content@.take(i as int));
        assert(t.drop_last() =~= content@.take(i as int));
        assert(t.last() == c);
        if is_alnum(c) {
            if i > 0 {
                assert(t[t.len() - 2] == content@[i - 1]);
            }
            let ghost old_cur = cur@;
            cur.push(c);
            proof {
                if old_cur.len() > 0 {
                    assert(r == done.push(old_cur));
                    assert(r.drop_last() =~= done);
                    assert(runs(t) == r.drop_last().push(r.last().push(c)));
                    assert(runs(t) =~= done.push(cur@));
                } else {
                    assert(cur@ =~= seq![c]);
                    assert(runs(t) == r.push(seq![c]));
                }
            }
        } else if cur.len() > 0 {
            let w = crate::text::string_of_chars(&cur);
            let lw = to_lower(w.as_str());
            let ghost old_out = out@;
            let ghost old_done = done;
            out.push(lw);
            proof {
                done = done.push(cur@);
                assert(strs(out@) =~= strs(old_out).push(lw@));
                assert(done.map_values(|w: Seq<char>| lowercase_of(w)) =~= old_done.map_values(
                    |w: Seq<char>| lowercase_of(w),
                ).push(lowercase_of(cur@)));
            }
            cur = Vec::new();
            assert(runs(t) == r);
        } else {
            assert(runs(t) == r);
        }
        i += 1;
    }
    if cur.len() > 0 {
        let w = crate::text::string_of_chars(&cur);
        let lw = to_lower(w.as_str());
        let ghost old_out = out@;
        let ghost old_done = done;
        out.push(lw);
        proof {
            done = done.push(cur@);
            assert(strs(out@) =~= strs(old_out).push(lw@));
            assert(done.map_values(|w: Seq<char>| lowercase_of(w)) =~= old_done.map_values(
                |w: Seq<char>| lowercase_of(w),
            ).push(lowercase_of(cur@)));
        }
    }
    assert(content@.take(cs@.len() as int) =~= content@);
    out
}

} // verus!
