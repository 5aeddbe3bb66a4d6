//! Turning a user's breakpoint token into a code address.
//!
//! A breakpoint request is one of three forms, tried in a fixed, explicit
//! order: a hex-prefixed token (`0x…`, or `*0x…`) is a raw code address; any
//! other token that parses as a decimal number is first looked up as a source
//! line; everything else — including a decimal token no line matched — is
//! looked up as a function name.  When nothing resolves, the request is
//! refused with a message naming the original token and no breakpoint is
//! registered.  The symbol lookups themselves are answered by the resolver
//! outside the library; the parsing and the precedence are decided here.

use vstd::prelude::*;
use vstd::string::{StrSliceExecFns, StringExecFns};

verus! {

/// Whether `c` is a hexadecimal digit.
pub open spec fn is_hex_digit(c: char) -> bool {
    (48 <= c as u32 && c as u32 <= 57) || (97 <= c as u32 && c as u32 <= 102) || (65 <= c as u32
        && c as u32 <= 70)
}

/// The value of a hexadecimal digit.
pub open spec fn hex_digit_val(c: char) -> nat
    recommends
        is_hex_digit(c),
{
    if 48 <= c as u32 && c as u32 <= 57 {
        (c as u32 - 48) as nat
    } else if 97 <= c as u32 && c as u32 <= 102 {
        (c as u32 - 87) as nat
    } else if 65 <= c as u32 && c as u32 <= 70 {
        (c as u32 - 55) as nat
    } else {
        0
    }
}

pub open spec fn all_hex(s: Seq<char>) -> bool {
    forall|i: int| 0 <= i < s.len() ==> is_hex_digit(#[trigger] s[i])
}

/// The number a sequence of hexadecimal digits denotes, most significant
/// digit first.
pub open spec fn hex_value(s: Seq<char>) -> nat
    decreases s.len(),
{
    if s.len() == 0 {
        0
    } else {
        hex_value(s.drop_last()) * 16 + hex_digit_val(s.last())
    }
}

/// A non-empty, all-hex token whose value fits a 64-bit address.
pub open spec fn hex_ok(s: Seq<char>) -> bool {
    s.len() > 0 && all_hex(s) && hex_value(s) <= u64::MAX
}

/// Whether `c` is a decimal digit.
pub open spec fn is_dec_digit(c: char) -> bool {
    48 <= c as u32 && c as u32 <= 57
}

pub open spec fn all_dec(s: Seq<char>) -> bool {
    forall|i: int| 0 <= i < s.len() ==> is_dec_digit(#[trigger] s[i])
}

/// The value of a decimal digit.
pub open spec fn dec_digit_val(c: char) -> nat
    recommends
        is_dec_digit(c),
{
    if is_dec_digit(c) {
        (c as u32 - 48) as nat
    } else {
        0
    }
}

/// The number a sequence of decimal digits denotes.
pub open spec fn dec_value(s: Seq<char>) -> nat
    decreases s.len(),
{
    if s.len() == 0 {
        0
    } else {
        dec_value(s.drop_last()) * 10 + dec_digit_val(s.last())
    }
}

/// A non-empty, all-decimal token whose value fits 64 bits.
pub open spec fn dec_ok(s: Seq<char>) -> bool {
    s.len() > 0 && all_dec(s) && dec_value(s) <= u64::MAX
}

/// Growing a digit string never shrinks its value.
proof fn lemma_hex_prefix_le(s: Seq<char>, i: int)
    requires
        0 <= i <= s.len(),
    ensures
        hex_value(s.take(i)) <= hex_value(s),
    decreases s.len() - i,
{
    if i == s.len() {
        assert(s.take(i) =~= s);
    } else {
        lemma_hex_prefix_le(s, i + 1);
        assert(s.take(i + 1).drop_last() =~= s.take(i));
        assert(s.take(i + 1).last() == s[i]);
    }
}

proof fn lemma_dec_prefix_le(s: Seq<char>, i: int)
    requires
        0 <= i <= s.len(),
    ensures
        dec_value(s.take(i)) <= dec_value(s),
    decreases s.len() - i,
{
    if i == s.len() {
        assert(s.take(i) =~= s);
    } else {
        lemma_dec_prefix_le(s, i + 1);
        assert(s.take(i + 1).drop_last() =~= s.take(i));
        assert(s.take(i + 1).last() == s[i]);
    }
}

/// The value of one hexadecimal digit character, if it is one.
fn hex_digit(c: char) -> (r: Option<u8>)
    ensures
        r is Some <==> is_hex_digit(c),
        r matches Some(d) ==> d == hex_digit_val(c) && d < 16,
{
    let u = c as u32;
    if 48 <= u && u <= 57 {
        Some((u - 48) as u8)
    } else if 97 <= u && u <= 102 {
        Some((u - 87) as u8)
    } else if 65 <= u && u <= 70 {
        Some((u - 55) as u8)
    } else {
        None
    }
}

/// Parses a whole string of hexadecimal digits into the address it denotes.
/// Refused when the string is empty, holds a non-hex character, or denotes a
/// number too large for an address.
pub fn parse_hex(s: &str) -> (r: Option<u64>)
    ensures
        match r {
            Some(v) => hex_ok(s@) && v == hex_value(s@),
            None => !hex_ok(s@),
        },
{
    let n = s.unicode_len();
    if n == 0 {
        return None;
    }
    let mut acc: u128 = 0;
    let mut i: usize = 0;
    while i < n
        invariant
            i <= n,
            n == s@.len(),
            all_hex(s@.take(i as int)),
            acc == hex_value(s@.take(i as int)),
            acc <= u64::MAX,
        decreases n - i,
    {
        let c = s.get_char(i);
        match hex_digit(c) {
            None => {
                return None;
            },
            Some(d) => {
                acc = acc * 16 + (d as u128);
                proof {
                    assert(s@.take(i + 1).drop_last() =~= s@.take(i as int));
                    assert(s@.take(i + 1).last() == s@[i as int]);
                }
                if acc > u64::MAX as u128 {
                    proof {
                        lemma_hex_prefix_le(s@, i + 1);
                    }
                    return None;
                }
            },
        }
        i = i + 1;
    }
    proof {
        assert(s@.take(n as int) =~= s@);
    }
    Some(acc as u64)
}

/// Parses a whole string of decimal digits into the number it denotes.
/// Refused when the string is empty, holds a non-decimal character, or
/// denotes a number too large for 64 bits.
pub fn parse_dec(s: &str) -> (r: Option<u64>)
    ensures
        match r {
            Some(v) => dec_ok(s@) && v == dec_value(s@),
            None => !dec_ok(s@),
        },
{
    let n = s.unicode_len();
    if n == 0 {
        return None;
    }
    let mut acc: u128 = 0;
    let mut i: usize = 0;
    while i < n
        invariant
            i <= n,
            n == s@.len(),
            all_dec(s@.take(i as int)),
            acc == dec_value(s@.take(i as int)),
            acc <= u64::MAX,
        decreases n - i,
    {
        let c = s.get_char(i);
        let u = c as u32;
        if 48 <= u && u <= 57 {
            acc = acc * 10 + ((u - 48) as u128);
            proof {
                assert(s@.take(i + 1).drop_last() =~= s@.take(i as int));
                assert(s@.take(i + 1).last() == s@[i as int]);
            }
            if acc > u64::MAX as u128 {
                proof {
                    lemma_dec_prefix_le(s@, i + 1);
                }
                return None;
            }
        } else {
            return None;
        }
        i = i + 1;
    }
    proof {
        assert(s@.take(n as int) =~= s@);
    }
    Some(acc as u64)
}

/// A token written `0x…` (or `0X…`): a raw address.
pub open spec fn has_hex_prefix(s: Seq<char>) -> bool {
    s.len() >= 2 && s[0] == '0' && (s[1] == 'x' || s[1] == 'X')
}

/// A token written `*0x…` (or `*0X…`): a raw address in the dereference
/// spelling.
pub open spec fn has_star_prefix(s: Seq<char>) -> bool {
    s.len() >= 3 && s[0] == '*' && s[1] == '0' && (s[2] == 'x' || s[2] == 'X')
}

/// Whether the token is in address form at all.
pub open spec fn addr_form(s: Seq<char>) -> bool {
    has_star_prefix(s) || has_hex_prefix(s)
}

/// The digits of an address-form token.
pub open spec fn addr_body(s: Seq<char>) -> Seq<char>
    recommends
        addr_form(s),
{
    if has_star_prefix(s) {
        s.skip(3)
    } else {
        s.skip(2)
    }
}

/// How a breakpoint token is to be resolved.
#[derive(PartialEq, Eq, Structural, Clone, Copy, Debug)]
pub enum BreakPlan {
    /// A hex-prefixed token: use this address directly, no lookup.
    AtAddress(u64),
    /// A decimal token: ask the resolver for this source line first, then
    /// fall back to a function-name lookup.
    TryLine(u64),
    /// Any other token: ask the resolver for a function of that name.
    TryFunction,
    /// Hex-prefixed but not a well-formed address: refused outright.
    Malformed,
}

/// Classifies a breakpoint token.  The precedence is fixed: a hex prefix
/// means a raw address, a decimal token means a line lookup with a function
/// fallback, anything else a function lookup.
pub fn plan_break(token: &str) -> (r: BreakPlan)
    ensures
        addr_form(token@) && hex_ok(addr_body(token@)) ==> r == BreakPlan::AtAddress(
            hex_value(addr_body(token@)) as u64,
        ),
        addr_form(token@) && !hex_ok(addr_body(token@)) ==> r == BreakPlan::Malformed,
        !addr_form(token@) && dec_ok(token@) ==> r == BreakPlan::TryLine(
            dec_value(token@) as u64,
        ),
        !addr_form(token@) && !dec_ok(token@) ==> r == BreakPlan::TryFunction,
{
    let n = token.unicode_len();
    let star = n >= 3 && token.get_char(0) == '*' && token.get_char(1) == '0' && (token.get_char(2)
        == 'x' || token.get_char(2) == 'X');
    let hex = n >= 2 && token.get_char(0) == '0' && (token.get_char(1) == 'x' || token.get_char(1)
        == 'X');
    if star || hex {
        let body = if star {
            token.substring_char(3, n)
        } else {
            token.substring_char(2, n)
        };
        proof {
            if star {
                assert(body@ =~= addr_body(token@));
            } else {
                assert(body@ =~= addr_body(token@));
            }
        }
        match parse_hex(body) {
            Some(a) => BreakPlan::AtAddress(a),
            None => BreakPlan::Malformed,
        }
    } else {
        match parse_dec(token) {
            Some(line) => BreakPlan::TryLine(line),
            None => BreakPlan::TryFunction,
        }
    }
}

/// Combines a plan with the resolver's answers: a raw address stands on its
/// own; a line lookup falls back to the function lookup; a malformed or
/// unresolved token yields nothing, and no breakpoint is registered.
pub fn resolve_break(plan: &BreakPlan, line_addr: Option<u64>, fn_addr: Option<u64>) -> (r: Option<
    u64,
>)
    ensures
        match plan {
            BreakPlan::AtAddress(a) => r == Some(*a),
            BreakPlan::TryLine(_) => r == (if line_addr is Some {
                line_addr
            } else {
                fn_addr
            }),
            BreakPlan::TryFunction => r == fn_addr,
            BreakPlan::Malformed => r is None,
        },
{
    match plan {
        BreakPlan::AtAddress(a) => Some(*a),
        BreakPlan::TryLine(_) => {
            match line_addr {
                Some(a) => Some(a),
                None => fn_addr,
            }
        },
        BreakPlan::TryFunction => fn_addr,
        BreakPlan::Malformed => None,
    }
}

/// The refusal message for a token no form of lookup resolved; it names the
/// original token.
pub fn unresolved_message(token: &str) -> (r: String)
    ensures
        r@ == "No such breakpoint location "@ + token@,
{
    String::from_str("No such breakpoint location ").concat(token)
}

} // verus!
