//! Small string helpers: building strings character by character and decimal
//! formatting of integers.

use vstd::prelude::*;

verus! {

/// Relies on `String::push`: appends the character to the end of the string.
pub assume_specification[ String::push ](s: &mut String, c: char)
    ensures
        final(s)@ == old(s)@.push(c),
;

/// The character for a single decimal digit.
pub open spec fn digit_char(d: int) -> char
    recommends
        0 <= d <= 9,
{
    ((48 + d) as u8) as char
}

/// Decimal representation of a natural number, most significant digit first.
pub open spec fn dec_rep(n: nat) -> Seq<char>
    decreases n,
{
    if n < 10 {
        seq![digit_char(n as int)]
    } else {
        dec_rep(n / 10).push(digit_char((n % 10) as int))
    }
}

/// The decimal digits of a value, most significant first, with no sign,
/// padding or separators; verified against [`dec_rep`].
pub fn u64_string(n: u64) -> (r: String)
    ensures
        r@ == dec_rep(n as nat),
    decreases n,
{
    if n < 10 {
        let mut s = String::new();
        s.push(((48 + n) as u8) as char);
        proof {
            assert(s@ =~= seq![digit_char(n as int)]);
        }
        s
    } else {
        let mut s = u64_string(n / 10);
        s.push(((48 + n % 10) as u8) as char);
        proof {
            assert(s@ =~= dec_rep((n / 10) as nat).push(digit_char((n % 10) as int)));
        }
        s
    }
}

/// Decimal representation of a signed value: a leading `-` for negatives.
pub open spec fn dec_rep_i64(n: int) -> Seq<char>
    recommends
        i64::MIN <= n <= i64::MAX,
{
    if n < 0 {
        seq!['-'] + dec_rep((-n) as nat)
    } else {
        dec_rep(n as nat)
    }
}

/// Decimal form of a signed 64-bit value.
pub fn i64_string(n: i64) -> (r: String)
    ensures
        r@ == dec_rep_i64(n as int),
{
    if n < 0 {
        let mut s = String::new();
        s.push('-');
        let mag: u64 = if n == i64::MIN {
            9223372036854775808u64
        } else {
            (-n) as u64
        };
        let digits = u64_string(mag);
        s.append(digits.as_str());
        proof {
            assert(s@ =~= dec_rep_i64(n as int));
        }
        s
    } else {
        u64_string(n as u64)
    }
}

/// Append `tail` onto `s`, returning the concatenation.
pub fn concat_str(s: String, tail: &str) -> (r: String)
    ensures
        r@ == s@ + tail@,
{
    let mut s = s;
    s.append(tail);
    s
}

/// Whether `p` is a prefix of `s`.
pub open spec fn spec_has_prefix(s: Seq<char>, p: Seq<char>) -> bool {
    s.len() >= p.len() && s.subrange(0, p.len() as int) == p
}

/// Whether the string starts with the given prefix.
pub fn has_prefix(s: &str, p: &str) -> (r: bool)
    ensures
        r == spec_has_prefix(s@, p@),
{
    let slen = s.unicode_len();
    let plen = p.unicode_len();
    if slen < plen {
        proof {
            assert(!spec_has_prefix(s@, p@));
        }
        return false;
    }
    let mut k: usize = 0;
    while k < plen
        invariant
            0 <= k <= plen,
            plen == p@.len(),
            slen == s@.len(),
            plen <= slen,
            forall|j: int| 0 <= j < k ==> s@[j] == p@[j],
        decreases plen - k,
    {
        if s.get_char(k) != p.get_char(k) {
            proof {
                assert(s@.subrange(0, plen as int)[k as int] == s@[k as int]);
            }
            return false;
        }
        k += 1;
    }
    proof {
        assert(s@.subrange(0, plen as int) =~= p@);
    }
    true
}

/// Index of the first newline in `s`, or `-1` when there is none.
pub open spec fn first_nl(s: Seq<char>) -> int
    decreases s.len(),
{
    if s.len() == 0 {
        -1
    } else if s[0] == '\n' {
        0
    } else {
        let r = first_nl(s.drop_first());
        if r == -1 {
            -1
        } else {
            r + 1
        }
    }
}

/// The lines of a text: segments separated by `\n`, a trailing newline
/// producing no extra empty line.
pub open spec fn spec_lines(s: Seq<char>) -> Seq<Seq<char>>
    decreases s.len(),
{
    if s.len() == 0 {
        Seq::empty()
    } else {
        let j = first_nl(s);
        if !(0 <= j < s.len()) {
            seq![s]
        } else {
            seq![s.subrange(0, j)] + spec_lines(s.subrange(j + 1, s.len() as int))
        }
    }
}

/// No newline occurs in `s`.
pub open spec fn nl_free(s: Seq<char>) -> bool {
    forall|i: int| 0 <= i < s.len() ==> s[i] != '\n'
}

proof fn lemma_first_nl_none(s: Seq<char>)
    requires
        nl_free(s),
    ensures
        first_nl(s) == -1,
    decreases s.len(),
{
    if s.len() > 0 {
        assert(s[0] != '\n');
        assert(nl_free(s.drop_first())) by {
            assert(forall|i: int|
                0 <= i < s.drop_first().len() ==> s.drop_first()[i] == s[i + 1]);
        }
        lemma_first_nl_none(s.drop_first());
    }
}

proof fn lemma_first_nl_concat(u: Seq<char>, rest: Seq<char>)
    requires
        nl_free(u),
        rest.len() > 0,
        rest[0] == '\n',
    ensures
        first_nl(u + rest) == u.len(),
    decreases u.len(),
{
    let w = u + rest;
    if u.len() == 0 {
        assert(w =~= rest);
    } else {
        assert(w[0] == u[0]);
        assert(u[0] != '\n');
        assert(nl_free(u.drop_first())) by {
            assert(forall|i: int|
                0 <= i < u.drop_first().len() ==> u.drop_first()[i] == u[i + 1]);
        }
        lemma_first_nl_concat(u.drop_first(), rest);
        assert(w.drop_first() =~= u.drop_first() + rest);
    }
}

/// Peeling one full line off the front of a text splits off exactly that
/// line.
proof fn lemma_lines_peel(u: Seq<char>, v: Seq<char>)
    requires
        nl_free(u),
    ensures
        spec_lines(u + seq!['\n'] + v) == seq![u] + spec_lines(v),
{
    let w = u + seq!['\n'] + v;
    lemma_first_nl_concat(u, seq!['\n'] + v);
    assert(u + (seq!['\n'] + v) =~= w);
    assert(first_nl(w) == u.len());
    assert(w.len() > 0);
    assert(w.subrange(0, u.len() as int) =~= u);
    assert(w.subrange(u.len() as int + 1, w.len() as int) =~= v);
}

/// Split a text into its lines: segments separated by `\n`, with a trailing
/// newline producing no extra empty line.
pub fn split_lines(s: &str) -> (r: Vec<String>)
    ensures
        r.deep_view() == spec_lines(s@),
{
    let len = s.unicode_len();
    let mut out: Vec<String> = Vec::new();
    let mut start: usize = 0;
    let mut i: usize = 0;
    proof {
        assert(s@.skip(0) =~= s@);
        assert(out.deep_view() + spec_lines(s@) =~= spec_lines(s@));
    }
    while i < len
        invariant
            0 <= start <= i <= len,
            len == s@.len(),
            nl_free(s@.subrange(start as int, i as int)),
            spec_lines(s@) == out.deep_view() + spec_lines(s@.skip(start as int)),
        decreases len - i,
    {
        if s.get_char(i) == '\n' {
            let line = s.substring_char(start, i);
            let ghost old_dv = out.deep_view();
            let ghost u = s@.subrange(start as int, i as int);
            out.push(String::from_str(line));
            proof {
                let v = s@.skip(i + 1);
                assert(out.deep_view() =~= old_dv + seq![u]);
                assert(s@.skip(start as int) =~= u + seq!['\n'] + v);
                lemma_lines_peel(u, v);
                assert(old_dv + (seq![u] + spec_lines(v)) =~= (old_dv + seq![u]) + spec_lines(
                    v,
                ));
            }
            start = i + 1;
        }
        i += 1;
        proof {
            let sub = s@.subrange(start as int, i as int);
            assert(forall|j: int| 0 <= j < sub.len() ==> sub[j] == s@[start + j]);
        }
    }
    if start < len {
        let line = s.substring_char(start, len);
        let ghost old_dv = out.deep_view();
        let ghost u = s@.subrange(start as int, len as int);
        out.push(String::from_str(line));
        proof {
            assert(u =~= s@.skip(start as int));
            lemma_first_nl_none(u);
            assert(spec_lines(u) =~= seq![u]);
            assert(out.deep_view() =~= old_dv + seq![u]);
        }
    } else {
        proof {
            assert(s@.skip(start as int).len() == 0);
            assert(spec_lines(s@.skip(start as int)) =~= Seq::<Seq<char>>::empty());
            assert(out.deep_view() + Seq::<Seq<char>>::empty() =~= out.deep_view());
        }
    }
    out
}

/// Whether the two strings hold the same characters.
pub fn str_eq(s: &str, p: &str) -> (r: bool)
    ensures
        r == (s@ == p@),
{
    let slen = s.unicode_len();
    let plen = p.unicode_len();
    if slen != plen {
        proof {
            assert(s@ != p@);
        }
        return false;
    }
    let r = has_prefix(s, p);
    proof {
        if r {
            assert(s@.subrange(0, plen as int) =~= s@);
        } else {
            assert(s@.subrange(0, plen as int) =~= s@);
        }
    }
    r
}

} // verus!
