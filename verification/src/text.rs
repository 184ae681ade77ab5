//! Character-level helpers shared by the summarizer and the channel payloads.

use vstd::prelude::*;

verus! {

/// Relies on String::push: appends the given char to the end of the string.
#[verifier::external_body]
pub(crate) fn push_char(s: &mut String, c: char)
    ensures
        final(s)@ == old(s)@.push(c),
{
    s.push(c)
}

/// The characters of `s`, as a vector, in order.
pub fn chars_of(s: &str) -> (r: Vec<char>)
    ensures
        r@ == s@,
{
    let n = s.unicode_len();
    let mut r: Vec<char> = Vec::new();
    let mut i: usize = 0;
    while i < n
        invariant
            n == s@.len(),
            i <= n,
            r@ == s@.take(i as int),
        decreases n - i,
    {
        let c = s.get_char(i);
        r.push(c);
        i = i + 1;
        proof {
            assert(r@ =~= s@.take(i as int));
        }
    }
    proof {
        assert(r@ =~= s@);
    }
    r
}

/// A string holding exactly the characters of `cs`, in order.
pub fn string_of(cs: &Vec<char>) -> (r: String)
    ensures
        r@ == cs@,
{
    let mut r = String::new();
    let mut i: usize = 0;
    while i < cs.len()
        invariant
            i <= cs@.len(),
            r@ == cs@.take(i as int),
        decreases cs@.len() - i,
    {
        push_char(&mut r, cs[i]);
        i = i + 1;
        proof {
            assert(r@ =~= cs@.take(i as int));
        }
    }
    proof {
        assert(r@ =~= cs@);
    }
    r
}

/// Whitespace for the purposes of trimming and blank detection.
pub open spec fn is_space(c: char) -> bool {
    c == ' ' || c == '\t' || c == '\r' || c == '\n'
}

/// Character-for-character string equality.
pub fn str_eq(a: &str, b: &str) -> (r: bool)
    ensures
        r == (a@ == b@),
{
    let na = a.unicode_len();
    let nb = b.unicode_len();
    if na != nb {
        return false;
    }
    let mut i: usize = 0;
    while i < na
        invariant
            na == a@.len(),
            nb == b@.len(),
            na == nb,
            i <= na,
            forall|k: int| 0 <= k < i ==> a@[k] == b@[k],
        decreases na - i,
    {
        if a.get_char(i) != b.get_char(i) {
            return false;
        }
        i = i + 1;
    }
    proof {
        assert(a@ =~= b@);
    }
    true
}

/// The characters of `cs` from `a` (inclusive) to `b` (exclusive), in order.
pub fn sub_vec(cs: &Vec<char>, a: usize, b: usize) -> (r: Vec<char>)
    requires
        a <= b <= cs@.len(),
    ensures
        r@ == cs@.subrange(a as int, b as int),
{
    let mut r: Vec<char> = Vec::new();
    let mut i: usize = a;
    while i < b
        invariant
            a <= i <= b <= cs@.len(),
            r@ == cs@.subrange(a as int, i as int),
        decreases b - i,
    {
        r.push(cs[i]);
        i = i + 1;
        proof {
            assert(r@ =~= cs@.subrange(a as int, i as int));
        }
    }
    r
}

/// `s` with every non-overlapping occurrence of `pat` replaced by `rep`,
/// scanning left to right.
pub open spec fn spec_replace(s: Seq<char>, pat: Seq<char>, rep: Seq<char>) -> Seq<char>
    decreases s.len(),
    when pat.len() >= 1
{
    if s.len() < pat.len() {
        s
    } else if s.take(pat.len() as int) == pat {
        rep + spec_replace(s.skip(pat.len() as int), pat, rep)
    } else {
        s.take(1) + spec_replace(s.drop_first(), pat, rep)
    }
}

/// The characters of `cs` starting at `i` begin with `pat`.
fn match_at(cs: &Vec<char>, i: usize, pat: &Vec<char>) -> (r: bool)
    requires
        i + pat@.len() <= cs@.len(),
    ensures
        r == (cs@.subrange(i as int, i + pat@.len()) == pat@),
{
    let n = cs.len();
    let mut k: usize = 0;
    while k < pat.len()
        invariant
            k <= pat@.len(),
            n == cs@.len(),
            i + pat@.len() <= cs@.len(),
            forall|j: int| 0 <= j < k ==> cs@[i + j] == pat@[j],
        decreases pat@.len() - k,
    {
        if cs[i + k] != pat[k] {
            proof {
                assert(cs@.subrange(i as int, i + pat@.len())[k as int] == cs@[i + k]);
            }
            return false;
        }
        k = k + 1;
    }
    proof {
        assert(cs@.subrange(i as int, i + pat@.len()) =~= pat@);
    }
    true
}

/// Replace every non-overlapping occurrence of `pat` in `cs` by `rep`,
/// scanning left to right.
pub fn replace_chars(cs: &Vec<char>, pat: &Vec<char>, rep: &Vec<char>) -> (r: Vec<char>)
    requires
        pat@.len() >= 1,
    ensures
        r@ == spec_replace(cs@, pat@, rep@),
{
    let mut out: Vec<char> = Vec::new();
    let mut i: usize = 0;
    proof {
        assert(cs@.skip(0) =~= cs@);
    }
    while i < cs.len()
        invariant
            i <= cs@.len(),
            pat@.len() >= 1,
            spec_replace(cs@, pat@, rep@) == out@ + spec_replace(cs@.skip(i as int), pat@, rep@),
        decreases cs@.len() - i,
    {
        let ghost rem = cs@.skip(i as int);
        if pat.len() <= cs.len() - i && match_at(cs, i, pat) {
            proof {
                assert(rem.take(pat@.len() as int) =~= cs@.subrange(i as int, i + pat@.len()));
                assert(rem.skip(pat@.len() as int) =~= cs@.skip(i + pat@.len()));
            }
            let mut rc = sub_vec(rep, 0, rep.len());
            proof {
                assert(rc@ =~= rep@);
            }
            out.append(&mut rc);
            i = i + pat.len();
        } else {
            proof {
                if i + pat@.len() <= cs@.len() {
                    assert(rem.take(pat@.len() as int) =~= cs@.subrange(i as int, i + pat@.len()));
                } else {
                    assert(rem.len() < pat@.len());
                }
                assert(rem.drop_first() =~= cs@.skip(i + 1));
                assert(rem.take(1) =~= seq![cs@[i as int]]);
            }
            out.push(cs[i]);
            i = i + 1;
        }
    }
    proof {
        assert(cs@.skip(i as int) =~= Seq::<char>::empty());
    }
    out
}

/// `s` without its leading whitespace.
pub open spec fn trim_front(s: Seq<char>) -> Seq<char>
    decreases s.len(),
{
    if s.len() > 0 && is_space(s[0]) {
        trim_front(s.drop_first())
    } else {
        s
    }
}

/// `s` without its trailing whitespace.
pub open spec fn trim_back(s: Seq<char>) -> Seq<char>
    decreases s.len(),
{
    if s.len() > 0 && is_space(s.last()) {
        trim_back(s.drop_last())
    } else {
        s
    }
}

/// `s` without leading and trailing whitespace.
pub open spec fn spec_trim(s: Seq<char>) -> Seq<char> {
    trim_back(trim_front(s))
}

/// The characters of `cs` without leading and trailing whitespace.
pub fn trim_chars(cs: &Vec<char>) -> (r: Vec<char>)
    ensures
        r@ == spec_trim(cs@),
{
    let n = cs.len();
    let mut lo: usize = 0;
    proof {
        assert(cs@.skip(0) =~= cs@);
    }
    while lo < n && is_space_at(cs, lo)
        invariant
            lo <= n,
            n == cs@.len(),
            trim_front(cs@) == trim_front(cs@.skip(lo as int)),
        decreases n - lo,
    {
        proof {
            assert(cs@.skip(lo as int).drop_first() =~= cs@.skip(lo + 1));
        }
        lo = lo + 1;
    }
    proof {
        assert(trim_front(cs@) == cs@.skip(lo as int));
    }
    let mut hi: usize = n;
    proof {
        assert(cs@.skip(lo as int) =~= cs@.subrange(lo as int, hi as int));
    }
    while hi > lo && is_space_at(cs, hi - 1)
        invariant
            lo <= hi <= n,
            n == cs@.len(),
            trim_front(cs@) == cs@.skip(lo as int),
            trim_back(cs@.skip(lo as int)) == trim_back(cs@.subrange(lo as int, hi as int)),
        decreases hi,
    {
        proof {
            assert(cs@.subrange(lo as int, hi as int).last() == cs@[hi - 1]);
            assert(cs@.subrange(lo as int, hi as int).drop_last() =~= cs@.subrange(
                lo as int,
                hi - 1,
            ));
        }
        hi = hi - 1;
    }
    let r = sub_vec(cs, lo, hi);
    proof {
        let t = cs@.subrange(lo as int, hi as int);
        assert(trim_back(t) == t);
    }
    r
}

/// The character at `i` is whitespace.
fn is_space_at(cs: &Vec<char>, i: usize) -> (r: bool)
    requires
        i < cs@.len(),
    ensures
        r == is_space(cs@[i as int]),
{
    let c = cs[i];
    c == ' ' || c == '\t' || c == '\r' || c == '\n'
}

/// The first `n` characters of `cs`, or all of them when fewer.
pub fn take_chars(cs: &Vec<char>, n: usize) -> (r: Vec<char>)
    ensures
        r@ == (if cs@.len() <= n {
            cs@
        } else {
            cs@.take(n as int)
        }),
{
    if cs.len() <= n {
        let r = sub_vec(cs, 0, cs.len());
        proof {
            assert(r@ =~= cs@);
        }
        r
    } else {
        sub_vec(cs, 0, n)
    }
}

/// The decimal digit character for `d`.
pub open spec fn spec_digit_char(d: int) -> char {
    if d == 0 {
        '0'
    } else if d == 1 {
        '1'
    } else if d == 2 {
        '2'
    } else if d == 3 {
        '3'
    } else if d == 4 {
        '4'
    } else if d == 5 {
        '5'
    } else if d == 6 {
        '6'
    } else if d == 7 {
        '7'
    } else if d == 8 {
        '8'
    } else {
        '9'
    }
}

/// The decimal rendering of `n`, most significant digit first.
pub open spec fn spec_dec(n: int) -> Seq<char>
    decreases n,
    when n >= 0
{
    if n < 10 {
        seq![spec_digit_char(n)]
    } else {
        spec_dec(n / 10).push(spec_digit_char(n % 10))
    }
}

pub(crate) fn digit_char(d: usize) -> (c: char)
    requires
        d < 10,
    ensures
        c == spec_digit_char(d as int),
{
    if d == 0 {
        '0'
    } else if d == 1 {
        '1'
    } else if d == 2 {
        '2'
    } else if d == 3 {
        '3'
    } else if d == 4 {
        '4'
    } else if d == 5 {
        '5'
    } else if d == 6 {
        '6'
    } else if d == 7 {
        '7'
    } else if d == 8 {
        '8'
    } else {
        '9'
    }
}

/// Render `n` in decimal.
pub fn usize_to_string(n: usize) -> (r: String)
    ensures
        r@ == spec_dec(n as int),
    decreases n,
{
    if n < 10 {
        let mut s = String::new();
        push_char(&mut s, digit_char(n));
        proof {
            assert(s@ =~= seq![spec_digit_char(n as int)]);
        }
        s
    } else {
        let mut s = usize_to_string(n / 10);
        push_char(&mut s, digit_char(n % 10));
        s
    }
}

} // verus!
