//! Character-level helpers on strings.
use vstd::prelude::*;
use vstd::string::StrSliceExecFns;
use vstd::string::StringExecFns;

verus! {

/// The characters of `s`, in order.
pub fn chars_of(s: &str) -> (v: Vec<char>)
    ensures
        v@ == s@,
{
    let mut v: Vec<char> = Vec::new();
    for c in it: s.chars()
        invariant
            v@ == it.seq().take(it.index() as int),
            it.seq() == s@,
    {
        v.push(c);
    }
    v
}

} // verus!

verus! {

/// `s` with every non-overlapping occurrence of `from` replaced by `to`,
/// occurrences taken from left to right. An empty `from` occurs before every
/// character and at the end, as with `str::replace`.
pub open spec fn replace_all(s: Seq<char>, from: Seq<char>, to: Seq<char>) -> Seq<char>
    decreases s.len(),
{
    if from.len() == 0 {
        if s.len() == 0 {
            to
        } else {
            to + seq![s[0]] + replace_all(s.skip(1), from, to)
        }
    } else if s.len() < from.len() {
        s
    } else if s.take(from.len() as int) == from {
        to + replace_all(s.skip(from.len() as int), from, to)
    } else {
        seq![s[0]] + replace_all(s.skip(1), from, to)
    }
}

proof fn lemma_replace_all_no_match_at(s: Seq<char>, from: Seq<char>, to: Seq<char>, i: int)
    requires
        0 <= i < s.len(),
        from.len() > 0,
        !(from.len() <= s.len() - i && s.subrange(i, i + from.len()) == from),
    ensures
        replace_all(s.skip(i), from, to) == seq![s[i]] + replace_all(s.skip(i + 1), from, to),
{
    let t = s.skip(i);
    assert(t.skip(1) =~= s.skip(i + 1));
    if t.len() < from.len() {
        assert(t =~= seq![s[i]] + s.skip(i + 1));
    } else {
        assert(t.take(from.len() as int) =~= s.subrange(i, i + from.len()));
    }
}

proof fn lemma_replace_all_match_at(s: Seq<char>, from: Seq<char>, to: Seq<char>, i: int)
    requires
        0 <= i < s.len(),
        from.len() > 0,
        from.len() <= s.len() - i,
        s.subrange(i, i + from.len()) == from,
    ensures
        replace_all(s.skip(i), from, to) == to + replace_all(s.skip(i + from.len()), from, to),
{
    let t = s.skip(i);
    assert(t.skip(from.len() as int) =~= s.skip(i + from.len()));
    assert(t.take(from.len() as int) =~= s.subrange(i, i + from.len()));
}

/// Whether `pat` occurs in `cs` starting at index `i`.
fn occurs_at(cs: &Vec<char>, i: usize, pat: &Vec<char>) -> (r: bool)
    requires
        i <= cs@.len(),
    ensures
        r == (pat@.len() <= cs@.len() - i && cs@.subrange(i as int, i + pat@.len()) == pat@),
{
    let n = cs.len();
    if pat.len() > n - i {
        return false;
    }
    let mut k: usize = 0;
    while k < pat.len()
        invariant
            n == cs@.len(),
            i <= n,
            pat@.len() <= n - i,
            0 <= k <= pat@.len(),
            forall|j: int| 0 <= j < k ==> cs@[i + j] == pat@[j],
        decreases pat@.len() - k,
    {
        if cs[i + k] != pat[k] {
            assert(cs@.subrange(i as int, i + pat@.len())[k as int] != pat@[k as int]);
            return false;
        }
        k = k + 1;
    }
    assert(cs@.subrange(i as int, i + pat@.len()) =~= pat@);
    true
}

/// Replaces every non-overlapping occurrence of `from` in `s`, from left to
/// right, by `to`.
pub fn replace_all_str(s: &str, from: &str, to: &str) -> (r: String)
    ensures
        r@ == replace_all(s@, from@, to@),
{
    if from.unicode_len() == 0 {
        return insert_everywhere(s, from, to);
    }
    let cs = chars_of(s);
    let pat = chars_of(from);
    let n = cs.len();
    let mut out = String::new();
    let mut last: usize = 0;
    let mut i: usize = 0;
    assert(s@.skip(0) =~= s@);
    while i < n
        invariant
            cs@ == s@,
            pat@ == from@,
            from@.len() > 0,
            n == s@.len(),
            0 <= last <= i <= n,
            out@ + s@.subrange(last as int, i as int) + replace_all(s@.skip(i as int), from@, to@)
                == replace_all(s@, from@, to@),
        decreases n - i,
    {
        if occurs_at(&cs, i, &pat) {
            proof {
                lemma_replace_all_match_at(s@, from@, to@, i as int);
            }
            let piece = s.substring_char(last, i);
            let ghost before = out@;
            out.append(piece);
            out.append(to);
            i = i + pat.len();
            last = i;
            assert(out@ + s@.subrange(last as int, i as int) =~= before + piece@ + to@);
        } else {
            proof {
                lemma_replace_all_no_match_at(s@, from@, to@, i as int);
                assert(s@.subrange(last as int, i + 1) =~= s@.subrange(last as int, i as int)
                    + seq![s@[i as int]]);
            }
            i = i + 1;
        }
    }
    let tail = s.substring_char(last, n);
    out.append(tail);
    proof {
        assert(s@.skip(n as int) =~= Seq::<char>::empty());
    }
    out
}

/// `to` before every character of `s` and at its end: what replacing the
/// empty pattern gives.
fn insert_everywhere(s: &str, from: &str, to: &str) -> (r: String)
    requires
        from@.len() == 0,
    ensures
        r@ == replace_all(s@, from@, to@),
{
    let n = s.unicode_len();
    let mut out = String::new();
    let mut i: usize = 0;
    assert(s@.skip(0) =~= s@);
    while i < n
        invariant
            n == s@.len(),
            from@.len() == 0,
            i <= n,
            out@ + replace_all(s@.skip(i as int), from@, to@) == replace_all(s@, from@, to@),
        decreases n - i,
    {
        let ghost before = out@;
        let piece = s.substring_char(i, i + 1);
        proof {
            let t = s@.skip(i as int);
            assert(t.skip(1) =~= s@.skip(i + 1));
            assert(t[0] == s@[i as int]);
            assert(piece@ =~= seq![s@[i as int]]);
        }
        out.append(to);
        out.append(piece);
        i = i + 1;
        assert(out@ =~= before + to@ + seq![s@[i - 1]]);
    }
    out.append(to);
    proof {
        assert(s@.skip(n as int) =~= Seq::<char>::empty());
    }
    out
}

/// Whether `pat` occurs somewhere in `s`.
pub open spec fn contains_seq(s: Seq<char>, pat: Seq<char>) -> bool {
    exists|i: int| 0 <= i && i + pat.len() <= s.len() && #[trigger] s.subrange(i, i + pat.len()) == pat
}

/// Whether `pat` occurs somewhere in `s` (an empty pattern occurs in every
/// string).
pub fn contains_str(s: &str, pat: &str) -> (r: bool)
    ensures
        r == contains_seq(s@, pat@),
{
    let cs = chars_of(s);
    let p = chars_of(pat);
    let n = cs.len();
    if p.len() == 0 {
        assert(s@.subrange(0, 0int + pat@.len()) =~= pat@);
        return true;
    }
    let mut i: usize = 0;
    while i < n
        invariant
            cs@ == s@,
            p@ == pat@,
            p@.len() > 0,
            n == s@.len(),
            i <= n,
            forall|j: int| 0 <= j < i ==> !(p@.len() <= n - j && #[trigger] s@.subrange(j, j + p@.len()) == p@),
        decreases n - i,
    {
        if occurs_at(&cs, i, &p) {
            return true;
        }
        i = i + 1;
    }
    false
}

} // verus!
