use vstd::prelude::*;
use crate::strutil::{str_eq, str_starts_with};

verus! {

/// A decimal digit character.
pub open spec fn spec_is_digit(c: char) -> bool {
    '0' as int <= c as int && c as int <= '9' as int
}

/// The numeric value of a digit character.
pub open spec fn spec_digit_val(c: char) -> int {
    c as int - '0' as int
}

/// Every character of `s` is a decimal digit.
pub open spec fn spec_all_digits(s: Seq<char>) -> bool {
    forall|i: int| 0 <= i < s.len() ==> spec_is_digit(s[i])
}

/// The value of a digit string read most significant digit first.
pub open spec fn spec_digits_val(s: Seq<char>) -> int
    decreases s.len(),
{
    if s.len() == 0 {
        0
    } else {
        spec_digits_val(s.drop_last()) * 10 + spec_digit_val(s.last())
    }
}

proof fn lemma_digits_val_nonneg(s: Seq<char>)
    requires
        spec_all_digits(s),
    ensures
        spec_digits_val(s) >= 0,
    decreases s.len(),
{
    if s.len() > 0 {
        assert(spec_all_digits(s.drop_last()));
        lemma_digits_val_nonneg(s.drop_last());
    }
}

proof fn lemma_digits_val_prefix_le(s: Seq<char>, k: int)
    requires
        spec_all_digits(s),
        0 <= k <= s.len(),
    ensures
        spec_digits_val(s.take(k)) <= spec_digits_val(s),
    decreases s.len() - k,
{
    if k < s.len() {
        assert(s.take(k + 1).drop_last() =~= s.take(k));
        assert(spec_all_digits(s.take(k)));
        lemma_digits_val_nonneg(s.take(k));
        assert(spec_digits_val(s.take(k + 1)) == spec_digits_val(s.take(k)) * 10 + spec_digit_val(
            s.take(k + 1).last(),
        ));
        lemma_digits_val_prefix_le(s, k + 1);
    } else {
        assert(s.take(k) =~= s);
    }
}

/// What parsing a port value means: an optional leading '+', then at least
/// one decimal digit, with a value of at most 65535. Anything else is rejected.
pub open spec fn spec_parse_u16(s: Seq<char>) -> Option<u16> {
    let body = if s.len() > 0 && s[0] == '+' {
        s.skip(1)
    } else {
        s
    };
    if body.len() > 0 && spec_all_digits(body) && spec_digits_val(body) <= 65535 {
        Some(spec_digits_val(body) as u16)
    } else {
        None
    }
}

/// Parses an unsigned 16-bit decimal number, mirroring `spec_parse_u16` exactly.
pub fn parse_u16(s: &str) -> (r: Option<u16>)
    ensures
        r == spec_parse_u16(s@),
{
    let len = s.unicode_len();
    let mut start: usize = 0;
    if len > 0 && s.get_char(0) == '+' {
        start = 1;
    }
    let ghost body = if start == 1 {
        s@.skip(1)
    } else {
        s@
    };
    if start >= len {
        return None;
    }
    let mut acc: u32 = 0;
    let mut i: usize = start;
    while i < len
        invariant
            len == s@.len(),
            start <= i <= len,
            start <= 1,
            start == 1 ==> len >= 1 && s@[0] == '+',
            start == 0 ==> !(s@.len() > 0 && s@[0] == '+'),
            body == (if start == 1 {
                s@.skip(1)
            } else {
                s@
            }),
            forall|j: int| 0 <= j < i - start ==> spec_is_digit(body[j]),
            acc == spec_digits_val(body.take(i - start)),
            acc <= 65535,
        decreases len - i,
    {
        let c = s.get_char(i);
        let v = c as u32;
        proof {
            assert(body[i - start] == s@[i as int]);
        }
        if v < 48 || v > 57 {
            proof {
                assert(!spec_is_digit(body[i - start]));
            }
            return None;
        }
        let d = v - 48;
        let next = acc * 10 + d;
        proof {
            assert(body.take(i + 1 - start).drop_last() =~= body.take(i - start));
            assert(spec_digits_val(body.take(i + 1 - start)) == acc * 10 + spec_digit_val(
                body[i - start],
            ));
        }
        if next > 65535 {
            proof {
                if spec_all_digits(body) {
                    lemma_digits_val_prefix_le(body, i + 1 - start);
                }
            }
            return None;
        }
        acc = next;
        i += 1;
    }
    proof {
        assert(body.take(i - start) =~= body);
    }
    Some(acc as u16)
}

/// The port override contributed by argument `i`, if any: either the exact
/// flag followed by a value argument, or `flag=value` in one argument.
pub open spec fn spec_arg_match(args: Seq<String>, i: int, flag: Seq<char>) -> Option<u16> {
    if args[i]@ == flag && i + 1 < args.len() {
        spec_parse_u16(args[i + 1]@)
    } else if args[i]@.len() >= flag.len() + 1 && args[i]@.subrange(0, flag.len() as int + 1)
        == flag + seq!['='] {
        spec_parse_u16(args[i]@.skip(flag.len() as int + 1))
    } else {
        None
    }
}

/// The port chosen after scanning `args[0..n]`: the last argument that
/// carries a well-formed override wins; with none, the default stands.
pub open spec fn spec_last_port(args: Seq<String>, flag: Seq<char>, n: int, default: u16) -> u16
    decreases n,
{
    if n <= 0 {
        default
    } else {
        match spec_arg_match(args, n - 1, flag) {
            Some(p) => p,
            None => spec_last_port(args, flag, n - 1, default),
        }
    }
}

/// The port chosen by a full scan of the startup arguments.
pub open spec fn spec_parse_port_arg(args: Seq<String>, flag: Seq<char>, default: u16) -> u16 {
    spec_last_port(args, flag, args.len() as int, default)
}

/// Whether some startup argument is exactly `flag`.
pub fn has_flag(args: &Vec<String>, flag: &str) -> (r: bool)
    ensures
        r == exists|i: int| 0 <= i < args@.len() && args@[i]@ == flag@,
{
    let mut i: usize = 0;
    while i < args.len()
        invariant
            i <= args@.len(),
            forall|j: int| 0 <= j < i ==> args@[j]@ != flag@,
        decreases args@.len() - i,
    {
        if str_eq(args[i].as_str(), flag) {
            proof {
                assert(args@[i as int]@ == flag@);
            }
            return true;
        }
        i += 1;
    }
    false
}

/// Scans startup arguments for `--flag value` and `--flag=value` overrides.
/// Malformed or out-of-range values are ignored and the default retained;
/// when the flag repeats, the last well-formed occurrence wins.
pub fn parse_port_arg(args: &Vec<String>, flag: &str, default_port: u16) -> (r: u16)
    ensures
        r == spec_parse_port_arg(args@, flag@, default_port),
{
    let mut acc = default_port;
    let flag_len = flag.unicode_len();
    let mut i: usize = 0;
    while i < args.len()
        invariant
            flag_len == flag@.len(),
            i <= args@.len(),
            acc == spec_last_port(args@, flag@, i as int, default_port),
        decreases args@.len() - i,
    {
        let a: &str = args[i].as_str();
        if str_eq(a, flag) {
            if i + 1 < args.len() {
                match parse_u16(args[i + 1].as_str()) {
                    Some(p) => {
                        acc = p;
                    },
                    None => {},
                }
            }
        } else {
            let alen = a.unicode_len();
            let mut matched = false;
            if alen > flag_len {
                if str_starts_with(a, flag) && a.get_char(flag_len) == '=' {
                    matched = true;
                    proof {
                        assert(args@[i as int]@.subrange(0, flag@.len() as int + 1) =~= flag@
                            + seq!['=']);
                    }
                    let rest = a.substring_char(flag_len + 1, alen);
                    proof {
                        assert(rest@ =~= args@[i as int]@.skip(flag@.len() as int + 1));
                    }
                    match parse_u16(rest) {
                        Some(p) => {
                            acc = p;
                        },
                        None => {},
                    }
                }
            }
            proof {
                if !matched && args@[i as int]@.len() >= flag@.len() + 1 && args@[i as int]@.subrange(
                    0,
                    flag@.len() as int + 1,
                ) == flag@ + seq!['='] {
                    let s = args@[i as int]@;
                    assert(s.subrange(0, flag@.len() as int) =~= flag@) by {
                        assert(forall|j: int|
                            0 <= j < flag@.len() ==> s.subrange(0, flag@.len() as int + 1)[j]
                                == (flag@ + seq!['='])[j]);
                    }
                    assert(s[flag@.len() as int] == (flag@ + seq!['='])[flag@.len() as int]);
                }
            }
        }
        i += 1;
    }
    acc
}

} // verus!
