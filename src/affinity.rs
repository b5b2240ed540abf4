use vstd::prelude::*;

verus! {

#[verifier::external_type_specification]
#[verifier::external_body]
pub struct ExParseIntError(core::num::ParseIntError);

/// The value of digit `c` in base `radix`: `0`..=`9`, then `a`..=`z` or
/// `A`..=`Z` for ten and up; `None` when `c` is no digit of that base.
pub open spec fn digit_value(c: char, radix: nat) -> Option<nat> {
    let d: int = if '0' <= c && c <= '9' {
        c as int - '0' as int
    } else if 'a' <= c && c <= 'z' {
        c as int - 'a' as int + 10
    } else if 'A' <= c && c <= 'Z' {
        c as int - 'A' as int + 10
    } else {
        radix as int
    };
    if d < radix {
        Some(d as nat)
    } else {
        None
    }
}

pub open spec fn all_digits(s: Seq<char>, radix: nat) -> bool {
    forall|i: int| 0 <= i < s.len() ==> (#[trigger] digit_value(s[i], radix)) is Some
}

/// The number written by the digits `s` in base `radix`, most significant first.
pub open spec fn digits_value(s: Seq<char>, radix: nat) -> nat
    decreases s.len(),
{
    if s.len() == 0 {
        0
    } else {
        digits_value(s.drop_last(), radix) * radix + digit_value(s.last(), radix)->Some_0
    }
}

/// The unsigned number that `s` writes in base `radix`: an optional `+`
/// followed by one or more digits, and nothing else.
pub open spec fn unsigned_value(s: Seq<char>, radix: nat) -> Option<nat> {
    let body = if s.len() > 0 && s[0] == '+' {
        s.skip(1)
    } else {
        s
    };
    if body.len() > 0 && all_digits(body, radix) {
        Some(digits_value(body, radix))
    } else {
        None
    }
}

/// The mask that `s` writes: hexadecimal after a `0x` prefix, decimal
/// otherwise.
pub open spec fn mask_value(s: Seq<char>) -> Option<nat> {
    if s.len() >= 2 && s[0] == '0' && s[1] == 'x' {
        unsigned_value(s.skip(2), 16)
    } else {
        unsigned_value(s, 10)
    }
}

/// Relies on usize::from_str_radix: `Ok` with the value when `s` is an
/// optional `+` and base-`radix` digits whose value fits in a usize, `Err`
/// otherwise.
#[verifier::external_body]
fn usize_from_str_radix(s: &str, radix: u32) -> (r: Result<usize, core::num::ParseIntError>)
    requires
        2 <= radix <= 36,
    ensures
        r matches Ok(v) ==> unsigned_value(s@, radix as nat) == Some(v as nat),
        r is Err ==> match unsigned_value(s@, radix as nat) {
            Some(n) => n > usize::MAX,
            None => true,
        },
{
    usize::from_str_radix(s, radix)
}

/// Relies on str::strip_prefix: the rest of `s` after `prefix` when `s`
/// starts with it.
#[verifier::external_body]
fn strip_prefix<'a>(s: &'a str, prefix: &str) -> (r: Option<&'a str>)
    ensures
        r matches Some(t) ==> s@ == prefix@ + t@,
        r is None ==> !prefix@.is_prefix_of(s@),
{
    s.strip_prefix(prefix)
}

/// A CPU affinity mask: bit `i` set allows the program to run on logical
/// core `i`. Any value is accepted; the OS judges it against the cores it has.
#[derive(Debug, Clone, Copy, PartialEq, Eq, Structural)]
pub struct Affinity(pub usize);

impl Affinity {
    /// The mask written by `s`: decimal, or hexadecimal after `0x`.
    pub fn parse(s: &str) -> (r: Result<Affinity, core::num::ParseIntError>)
        ensures
            r matches Ok(a) ==> mask_value(s@) == Some(a.0 as nat),
            r is Err ==> match mask_value(s@) {
                Some(n) => n > usize::MAX,
                None => true,
            },
    {
        proof {
            reveal_strlit("0x");
        }
        match strip_prefix(s, "0x") {
            Some(hex) => {
                assert(s@.skip(2) =~= hex@);
                let v = usize_from_str_radix(hex, 16)?;
                Ok(Affinity(v))
            },
            None => {
                assert(!(s@.len() >= 2 && s@[0] == '0' && s@[1] == 'x')) by {
                    if s@.len() >= 2 && s@[0] == '0' && s@[1] == 'x' {
                        assert("0x"@.is_prefix_of(s@));
                    }
                }
                let v = usize_from_str_radix(s, 10)?;
                Ok(Affinity(v))
            },
        }
    }

    /// The mask as the OS takes it: the value itself.
    pub fn mask(self) -> (r: usize)
        ensures
            r == self.0,
    {
        self.0
    }
}

impl core::str::FromStr for Affinity {
    type Err = core::num::ParseIntError;

    /// The mask written by `s`: decimal, or hexadecimal after `0x`.
    fn from_str(s: &str) -> (r: Result<Affinity, core::num::ParseIntError>)
        ensures
            r matches Ok(a) ==> mask_value(s@) == Some(a.0 as nat),
            r is Err ==> match mask_value(s@) {
                Some(n) => n > usize::MAX,
                None => true,
            },
    {
        Affinity::parse(s)
    }
}

} // verus!
