//! Small string routines over character sequences, with their meaning stated.
use vstd::prelude::*;

verus! {

/// `p` is a prefix of `s`.
pub open spec fn has_prefix(s: Seq<char>, p: Seq<char>) -> bool {
    p.len() <= s.len() && s.take(p.len() as int) == p
}

/// `s` without the prefix `p` when it has it, else `s`.
pub open spec fn strip_prefix(s: Seq<char>, p: Seq<char>) -> Seq<char> {
    if has_prefix(s, p) {
        s.skip(p.len() as int)
    } else {
        s
    }
}

/// Stripping a prefix that is there leaves what follows it, which the prefix
/// completes back to the whole; a string without the prefix is left as it is.
pub proof fn lemma_strip_prefix(s: Seq<char>, p: Seq<char>)
    ensures
        strip_prefix(p + s, p) == s,
        has_prefix(s, p) ==> p + strip_prefix(s, p) == s,
        !has_prefix(s, p) ==> strip_prefix(s, p) == s,
{
    assert((p + s).take(p.len() as int) =~= p);
    assert((p + s).skip(p.len() as int) =~= s);
    if has_prefix(s, p) {
        assert(p + s.skip(p.len() as int) =~= s);
    }
}

/// The code of `c` with ASCII capitals lowered.
pub open spec fn lower_code(c: char) -> u32 {
    if 65 <= (c as u32) <= 90 {
        ((c as u32) + 32) as u32
    } else {
        c as u32
    }
}

/// `p` occurs in `s` at `i` once ASCII capitals of `s` are lowered.
pub open spec fn occurs_lowered_at(s: Seq<char>, p: Seq<char>, i: int) -> bool {
    0 <= i && i + p.len() <= s.len() && forall|j: int| 0 <= j < p.len() ==> lower_code(#[trigger] s[i + j]) == p[j] as u32
}

/// `p` occurs in `s` once ASCII capitals of `s` are lowered.
pub open spec fn contains_lowered(s: Seq<char>, p: Seq<char>) -> bool {
    exists|i: int| occurs_lowered_at(s, p, i)
}

/// The characters of `s`, in a vector.
pub fn chars_of(s: &str) -> (r: Vec<char>)
    ensures
        r@ == s@,
{
    let n = s.unicode_len();
    let mut out: Vec<char> = Vec::new();
    for i in 0..n
        invariant
            n == s@.len(),
            out@ =~= s@.take(i as int),
    {
        out.push(s.get_char(i));
    }
    assert(s@.take(n as int) =~= s@);
    out
}

/// Whether `p` is a prefix of `s`.
pub fn starts_with(s: &str, p: &str) -> (r: bool)
    ensures
        r == has_prefix(s@, p@),
{
    let sv = chars_of(s);
    let pv = chars_of(p);
    if pv.len() > sv.len() {
        return false;
    }
    let n = pv.len();
    for i in 0..n
        invariant
            n == pv@.len(),
            n <= sv@.len(),
            sv@ == s@,
            pv@ == p@,
            forall|j: int| 0 <= j < i ==> sv@[j] == pv@[j],
    {
        if sv[i] != pv[i] {
            assert(s@.take(n as int)[i as int] != p@[i as int]);
            return false;
        }
    }
    assert(s@.take(n as int) =~= p@);
    true
}

/// `s` without the prefix `p` when it has it, else `s`.
pub fn strip<'a>(s: &'a str, p: &str) -> (r: &'a str)
    ensures
        r@ == strip_prefix(s@, p@),
{
    if starts_with(s, p) {
        let from = p.unicode_len();
        let to = s.unicode_len();
        let r = s.substring_char(from, to);
        assert(r@ =~= s@.skip(p@.len() as int));
        r
    } else {
        s
    }
}

/// Whether `p` occurs in `s` once the ASCII capitals of `s` are lowered.
pub fn contains_lowercased(s: &str, p: &str) -> (r: bool)
    ensures
        r == contains_lowered(s@, p@),
{
    let sv = chars_of(s);
    let pv = chars_of(p);
    let n = sv.len();
    let m = pv.len();
    if m > n {
        assert forall|i: int| !occurs_lowered_at(s@, p@, i) by {}
        return false;
    }
    let last = n - m;
    let mut i: usize = 0;
    while i <= last
        invariant
            n == sv@.len(),
            m == pv@.len(),
            m <= n,
            last == n - m,
            sv@ == s@,
            pv@ == p@,
            i <= last + 1,
            forall|k: int| 0 <= k < i ==> !occurs_lowered_at(s@, p@, k),
        decreases last + 1 - i,
    {
        let mut j: usize = 0;
        let mut ok = true;
        while j < m && ok
            invariant
                n == sv@.len(),
                m == pv@.len(),
                i + m <= n,
                sv@ == s@,
                pv@ == p@,
                j <= m,
                ok ==> forall|q: int| 0 <= q < j ==> lower_code(#[trigger] s@[i + q]) == p@[q] as u32,
                !ok ==> !occurs_lowered_at(s@, p@, i as int),
            decreases m - j + (if ok { 1int } else { 0int }),
        {
            let c = sv[i + j];
            let code = c as u32;
            let lowered = if 65 <= code && code <= 90 {
                code + 32
            } else {
                code
            };
            if lowered != pv[j] as u32 {
                assert(lower_code(s@[i + j]) != p@[j as int] as u32);
                ok = false;
            } else {
                j = j + 1;
            }
        }
        if ok {
            assert(occurs_lowered_at(s@, p@, i as int));
            return true;
        }
        i = i + 1;
    }
    assert forall|k: int| !occurs_lowered_at(s@, p@, k) by {
        if 0 <= k && k < i {
        } else if k > last {
        }
    }
    false
}

} // verus!
