//! Host/container port mappings from devcontainer configuration.
//!
//! A mapping is written either as a bare port number, mapping a port onto
//! itself, or as a `host:container` pair. Parsing and rendering are both
//! verified against one specification.

use vstd::prelude::*;

use crate::errors::Error;
use crate::strutil::{concat_str, dec_rep, u64_string};

verus! {

/// A host-to-container port mapping.
#[derive(Debug, Clone, Copy, PartialEq, Eq, Structural)]
pub struct PortMap {
    pub host: u16,
    pub container: u16,
}

/// Whether the character is a decimal digit.
pub open spec fn is_digit(c: char) -> bool {
    48 <= c as int && c as int <= 57
}

/// The numeric value of a digit character.
pub open spec fn digit_val(c: char) -> int {
    c as int - 48
}

/// Whether every character of `s` is a decimal digit.
pub open spec fn all_digits(s: Seq<char>) -> bool {
    forall|i: int| 0 <= i < s.len() ==> is_digit(#[trigger] s[i])
}

/// The number the digit string denotes.
pub open spec fn dec_val(s: Seq<char>) -> int
    decreases s.len(),
{
    if s.len() == 0 {
        0
    } else {
        dec_val(s.drop_last()) * 10 + digit_val(s.last())
    }
}

proof fn lemma_dec_val_nonneg(s: Seq<char>)
    requires
        all_digits(s),
    ensures
        dec_val(s) >= 0,
    decreases s.len(),
{
    if s.len() > 0 {
        assert(all_digits(s.drop_last()));
        lemma_dec_val_nonneg(s.drop_last());
        assert(digit_val(s.last()) >= 0);
    }
}

/// Extending a digit string never shrinks its value.
proof fn lemma_dec_val_grows(s: Seq<char>, i: int)
    requires
        all_digits(s),
        0 <= i <= s.len(),
    ensures
        dec_val(s) >= dec_val(s.take(i)),
    decreases s.len() - i,
{
    if i < s.len() {
        lemma_dec_val_grows(s, i + 1);
        assert(s.take(i + 1).drop_last() =~= s.take(i));
        assert(all_digits(s.take(i))) by {
            assert(forall|k: int| 0 <= k < i ==> s.take(i)[k] == s[k]);
        }
        lemma_dec_val_nonneg(s.take(i));
        assert(dec_val(s.take(i + 1)) == dec_val(s.take(i)) * 10 + digit_val(s.take(i + 1).last()));
        assert(digit_val(s.take(i + 1).last()) >= 0);
        assert(dec_val(s.take(i)) * 10 >= dec_val(s.take(i))) by (nonlinear_arith)
            requires
                dec_val(s.take(i)) >= 0,
        ;
    } else {
        assert(s.take(i) =~= s);
    }
}

/// What a digit string parses to as a 16-bit port: a value only when it is
/// nonempty, all digits, and in range.
pub open spec fn spec_parse_u16(s: Seq<char>) -> Option<u16> {
    if s.len() > 0 && all_digits(s) && dec_val(s) <= 65535 {
        Option::Some(dec_val(s) as u16)
    } else {
        Option::None
    }
}

/// Parse a 16-bit decimal number; `None` when the text is empty, has a
/// non-digit, or exceeds 65535.
#[verifier::loop_isolation(false)]
pub fn parse_u16(s: &str) -> (r: Option<u16>)
    ensures
        r == spec_parse_u16(s@),
{
    let len = s.unicode_len();
    if len == 0 {
        return Option::None;
    }
    let mut acc: u32 = 0;
    let mut i: usize = 0;
    while i < len
        invariant
            0 <= i <= len,
            len == s@.len(),
            all_digits(s@.take(i as int)),
            acc <= 65535,
            acc as int == dec_val(s@.take(i as int)),
        decreases len - i,
    {
        let c = s.get_char(i);
        let u = c as u32;
        if u < 48 || u > 57 {
            proof {
                assert(!is_digit(s@[i as int]));
            }
            return Option::None;
        }
        let d = u - 48;
        proof {
            assert(s@.take(i + 1).drop_last() =~= s@.take(i as int));
            assert(s@.take(i + 1).last() == s@[i as int]);
            assert(all_digits(s@.take(i + 1)));
        }
        let next = acc * 10 + d;
        if next > 65535 {
            proof {
                if all_digits(s@) {
                    lemma_dec_val_grows(s@, i + 1);
                    assert(s@.take(len as int) =~= s@);
                    assert(dec_val(s@) > 65535);
                }
            }
            return Option::None;
        }
        acc = next;
        i += 1;
    }
    proof {
        assert(s@.take(len as int) =~= s@);
    }
    Option::Some(acc as u16)
}

/// Index of the first `:` in `s`, or `-1` when there is none.
pub open spec fn first_colon(s: Seq<char>) -> int
    decreases s.len(),
{
    if s.len() == 0 {
        -1
    } else if s[0] == ':' {
        0
    } else {
        let r = first_colon(s.drop_first());
        if r == -1 {
            -1
        } else {
            r + 1
        }
    }
}

proof fn lemma_first_colon(s: Seq<char>)
    ensures
        -1 <= first_colon(s) < s.len(),
        first_colon(s) == -1 ==> forall|j: int| 0 <= j < s.len() ==> s[j] != ':',
        first_colon(s) >= 0 ==> s[first_colon(s)] == ':' && forall|j: int|
            0 <= j < first_colon(s) ==> s[j] != ':',
    decreases s.len(),
{
    if s.len() > 0 && s[0] != ':' {
        lemma_first_colon(s.drop_first());
        assert(forall|j: int| 1 <= j < s.len() ==> s[j] == s.drop_first()[j - 1]);
    }
}

/// What a port-mapping text parses to: `host:container` when it has a
/// colon (splitting at the first), a single port mapped onto itself when it
/// has none; absent when either side is not a valid port number.
pub open spec fn spec_parse_portmap(s: Seq<char>) -> Option<PortMap> {
    let j = first_colon(s);
    if 0 <= j < s.len() {
        match (spec_parse_u16(s.take(j)), spec_parse_u16(s.skip(j + 1))) {
            (Option::Some(h), Option::Some(c)) => Option::Some(PortMap { host: h, container: c }),
            _ => Option::None,
        }
    } else {
        match spec_parse_u16(s) {
            Option::Some(p) => Option::Some(PortMap { host: p, container: p }),
            Option::None => Option::None,
        }
    }
}

impl PortMap {
    /// The mapping a bare port number denotes: the port onto itself.
    pub fn from_number(port: u16) -> (r: PortMap)
        ensures
            r == (PortMap { host: port, container: port }),
    {
        PortMap { host: port, container: port }
    }

    /// Parse a port-mapping text: a bare port number maps the port onto
    /// itself, `host:container` maps them pairwise; anything else is a
    /// parse failure, if and only if `spec_parse_portmap` has no value.
    #[verifier::loop_isolation(false)]
    pub fn parse(s: &str) -> (r: Result<PortMap, Error>)
        ensures
            match r {
                Result::Ok(pm) => spec_parse_portmap(s@) == Option::Some(pm),
                Result::Err(e) => spec_parse_portmap(s@) is None && e matches Error::ParseFailure(
                    _,
                ),
            },
    {
        proof {
            lemma_first_colon(s@);
        }
        let len = s.unicode_len();
        let mut colon: usize = 0;
        let mut found = false;
        let mut i: usize = 0;
        while i < len
            invariant
                0 <= i <= len,
                len == s@.len(),
                !found ==> forall|j: int| 0 <= j < i ==> s@[j] != ':',
                found ==> 0 <= colon < i && s@[colon as int] == ':' && forall|j: int|
                    0 <= j < colon ==> s@[j] != ':',
            decreases len - i,
        {
            if !found && s.get_char(i) == ':' {
                colon = i;
                found = true;
            }
            i += 1;
        }
        if found {
            proof {
                let j = first_colon(s@);
                if j < colon {
                    assert(s@[j] != ':');
                }
                if j > colon as int {
                    assert(s@[colon as int] != ':');
                }
                assert(j == colon as int);
            }
            let head = s.substring_char(0, colon);
            let tail = s.substring_char(colon + 1, len);
            proof {
                assert(head@ =~= s@.take(colon as int));
                assert(tail@ =~= s@.skip(colon as int + 1));
            }
            match (parse_u16(head), parse_u16(tail)) {
                (Option::Some(h), Option::Some(c)) => Result::Ok(PortMap { host: h, container: c }),
                _ => Result::Err(
                    Error::ParseFailure(String::from_str("not a valid port mapping")),
                ),
            }
        } else {
            proof {
                let j = first_colon(s@);
                if j >= 0 {
                    assert(s@[j] != ':');
                }
                assert(j == -1);
            }
            match parse_u16(s) {
                Option::Some(p) => Result::Ok(PortMap { host: p, container: p }),
                Option::None => Result::Err(
                    Error::ParseFailure(String::from_str("not a valid port number")),
                ),
            }
        }
    }

    /// Render the mapping as `host:container`.
    pub fn to_port_string(&self) -> (r: String)
        ensures
            r@ == dec_rep(self.host as nat) + ":"@ + dec_rep(self.container as nat),
    {
        let h = u64_string(self.host as u64);
        let c = u64_string(self.container as u64);
        let r = concat_str(concat_str(h, ":"), c.as_str());
        r
    }
}

} // verus!
