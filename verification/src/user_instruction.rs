//! The command surface: one variant per user instruction, and the
//! line parser that produces them. The grammar is a single letter per
//! command, with `m` and `b` taking a `0x`-prefixed hexadecimal
//! address; surrounding Unicode whitespace is ignored.

use vstd::prelude::*;
use vstd::slice::slice_subrange;
use vstd::string::StringSliceAdditionalSpecFns;

verus! {

/// One structured command from the user.
#[derive(Clone, Copy, PartialEq, Eq, Structural, Debug)]
pub enum UserInstruction {
    /// `b <addr>`: record a breakpoint at the address.
    AddBreakpoint { address: u64 },
    /// `c`: run until a breakpoint trap or other stop.
    ContinueUntilBreakpoint,
    /// `s`: run until the next system-call boundary.
    ContinueUntilSyscall,
    /// `h`: show the command summary.
    ShowHelp,
    /// `m <addr>`: read the machine word at the address.
    ShowMemory { address: u64 },
    /// `r`: show the register snapshot.
    ShowRegisters,
    /// `n`: advance by a single instruction.
    SingleStep,
}

/// Why a line was not a command.
#[derive(Clone, Copy, PartialEq, Eq, Structural, Debug)]
pub enum UserInstructionParseError {
    /// The line matched no command.
    UnknownInstruction,
    /// The address did not start with `0x`.
    AddressShouldStartWith0x,
    /// After `0x` there was no digit, a non-hexadecimal byte, or a
    /// value past the largest 64-bit address.
    UnparseableAddress,
}

/// ASCII whitespace: space, tab, line feed, vertical tab, form feed,
/// carriage return.
pub open spec fn is_ascii_space(b: u8) -> bool {
    b == 32 || b == 9 || b == 10 || b == 11 || b == 12 || b == 13
}

/// Whether `b` is an ASCII hexadecimal digit.
pub open spec fn is_hex_digit(b: u8) -> bool {
    (48 <= b && b <= 57) || (97 <= b && b <= 102) || (65 <= b && b <= 70)
}

/// The numeric value of the hexadecimal digit `b`.
pub open spec fn hex_digit_value(b: u8) -> int
    recommends
        is_hex_digit(b),
{
    if 48 <= b && b <= 57 {
        b - 48
    } else if 97 <= b && b <= 102 {
        b - 87
    } else {
        b - 55
    }
}

/// Every byte of `d` is a hexadecimal digit.
pub open spec fn all_hex_digits(d: Seq<u8>) -> bool {
    forall|i: int| 0 <= i < d.len() ==> is_hex_digit(d[i])
}

/// The number the digit string `d` denotes, most significant first.
pub open spec fn hex_value(d: Seq<u8>) -> int
    decreases d.len(),
{
    if d.len() == 0 {
        0
    } else {
        hex_value(d.drop_last()) * 16 + hex_digit_value(d.last())
    }
}

/// A Unicode whitespace character encoded in two bytes of UTF-8:
/// next line (U+0085) or no-break space (U+00A0).
pub open spec fn is_two_byte_space(b0: u8, b1: u8) -> bool {
    b0 == 0xc2 && (b1 == 0x85 || b1 == 0xa0)
}

/// A Unicode whitespace character encoded in three bytes of UTF-8:
/// ogham space mark (U+1680), the spaces U+2000 through U+200A, line
/// separator (U+2028), paragraph separator (U+2029), narrow no-break
/// space (U+202F), medium mathematical space (U+205F), or ideographic
/// space (U+3000).
pub open spec fn is_three_byte_space(b0: u8, b1: u8, b2: u8) -> bool {
    (b0 == 0xe1 && b1 == 0x9a && b2 == 0x80) || (b0 == 0xe2 && b1 == 0x80 && (0x80 <= b2 && b2
        <= 0x8a)) || (b0 == 0xe2 && b1 == 0x80 && (b2 == 0xa8 || b2 == 0xa9 || b2 == 0xaf)) || (b0
        == 0xe2 && b1 == 0x81 && b2 == 0x9f) || (b0 == 0xe3 && b1 == 0x80 && b2 == 0x80)
}

/// How many bytes of whitespace stand at the front of `b`: the length
/// of one whitespace character's UTF-8 encoding, or zero. The UTF-8
/// lead bytes 0xc2, 0xe1, 0xe2 and 0xe3 are disjoint from the ASCII
/// whitespace bytes, so the cases cannot overlap.
pub open spec fn leading_space_len(b: Seq<u8>) -> int {
    if b.len() >= 1 && is_ascii_space(b[0]) {
        1
    } else if b.len() >= 2 && is_two_byte_space(b[0], b[1]) {
        2
    } else if b.len() >= 3 && is_three_byte_space(b[0], b[1], b[2]) {
        3
    } else {
        0
    }
}

/// How many bytes of whitespace stand at the back of `b`. On valid
/// UTF-8 this recognizes exactly the encodings `leading_space_len`
/// does: none of the multi-byte patterns starts with a continuation
/// byte, so a match at the end cannot begin inside another character.
pub open spec fn trailing_space_len(b: Seq<u8>) -> int {
    let n = b.len() as int;
    if n >= 1 && is_ascii_space(b[n - 1]) {
        1
    } else if n >= 2 && is_two_byte_space(b[n - 2], b[n - 1]) {
        2
    } else if n >= 3 && is_three_byte_space(b[n - 3], b[n - 2], b[n - 1]) {
        3
    } else {
        0
    }
}

/// `b` with leading Unicode whitespace removed, one encoded character
/// at a time.
pub open spec fn trim_front(b: Seq<u8>) -> Seq<u8>
    decreases b.len(),
{
    let k = leading_space_len(b);
    if k > 0 {
        trim_front(b.subrange(k, b.len() as int))
    } else {
        b
    }
}

/// `b` with trailing Unicode whitespace removed, one encoded
/// character at a time.
pub open spec fn trim_back(b: Seq<u8>) -> Seq<u8>
    decreases b.len(),
{
    let k = trailing_space_len(b);
    if k > 0 {
        trim_back(b.subrange(0, b.len() - k))
    } else {
        b
    }
}

/// `b` with surrounding Unicode whitespace removed.
pub open spec fn spec_trim(b: Seq<u8>) -> Seq<u8> {
    trim_back(trim_front(b))
}

/// What parsing a `0x`-prefixed hexadecimal address yields: the
/// denoted number when the prefix is present, at least one digit
/// follows it, every byte after it is a digit, and the value fits in
/// 64 bits; the matching error otherwise.
pub open spec fn spec_parse_hex_address(b: Seq<u8>) -> Result<u64, UserInstructionParseError> {
    if !(b.len() >= 2 && b[0] == 48 && b[1] == 120) {
        Err(UserInstructionParseError::AddressShouldStartWith0x)
    } else {
        let d = b.subrange(2, b.len() as int);
        if d.len() > 0 && all_hex_digits(d) && hex_value(d) <= u64::MAX {
            Ok(hex_value(d) as u64)
        } else {
            Err(UserInstructionParseError::UnparseableAddress)
        }
    }
}

/// What parsing one input line yields, over its bytes with
/// surrounding whitespace ignored.
pub open spec fn spec_parse(b: Seq<u8>) -> Result<UserInstruction, UserInstructionParseError> {
    let t = spec_trim(b);
    if t == seq![99u8] {  // c
        Ok(UserInstruction::ContinueUntilBreakpoint)
    } else if t == seq![115u8] {  // s
        Ok(UserInstruction::ContinueUntilSyscall)
    } else if t == seq![104u8] {  // h
        Ok(UserInstruction::ShowHelp)
    } else if t == seq![114u8] {  // r
        Ok(UserInstruction::ShowRegisters)
    } else if t == seq![110u8] {  // n
        Ok(UserInstruction::SingleStep)
    } else if t.len() >= 2 && t[0] == 109 && t[1] == 32 {  // "m "
        match spec_parse_hex_address(t.subrange(2, t.len() as int)) {
            Ok(address) => Ok(UserInstruction::ShowMemory { address }),
            Err(e) => Err(e),
        }
    } else if t.len() >= 2 && t[0] == 98 && t[1] == 32 {  // "b "
        match spec_parse_hex_address(t.subrange(2, t.len() as int)) {
            Ok(address) => Ok(UserInstruction::AddBreakpoint { address }),
            Err(e) => Err(e),
        }
    } else {
        Err(UserInstructionParseError::UnknownInstruction)
    }
}

/// Extending a digit string by one digit multiplies its value by the
/// base and adds the digit.
proof fn lemma_hex_value_take_succ(d: Seq<u8>, i: int)
    requires
        0 <= i < d.len(),
    ensures
        hex_value(d.take(i + 1)) == hex_value(d.take(i)) * 16 + hex_digit_value(d[i]),
{
    assert(d.take(i + 1).drop_last() =~= d.take(i));
    assert(d.take(i + 1).last() == d[i]);
}

/// A hexadecimal digit string denotes a nonnegative number.
proof fn lemma_hex_value_nonneg(d: Seq<u8>)
    requires
        all_hex_digits(d),
    ensures
        hex_value(d) >= 0,
    decreases d.len(),
{
    if d.len() > 0 {
        assert(all_hex_digits(d.drop_last()));
        lemma_hex_value_nonneg(d.drop_last());
        assert(is_hex_digit(d.last()));
    }
}

/// A hexadecimal digit string's value never shrinks as digits are
/// appended.
proof fn lemma_hex_value_take_monotone(d: Seq<u8>, i: int, j: int)
    requires
        0 <= i <= j <= d.len(),
        all_hex_digits(d),
    ensures
        hex_value(d.take(i)) <= hex_value(d.take(j)),
    decreases j - i,
{
    if i < j {
        lemma_hex_value_take_succ(d, i);
        assert(all_hex_digits(d.take(i)));
        lemma_hex_value_nonneg(d.take(i));
        assert(is_hex_digit(d[i]));
        lemma_hex_value_take_monotone(d, i + 1, j);
    }
}

/// Whether the full hexadecimal digit string `d` is well formed and
/// denotes a 64-bit value.
pub open spec fn valid_hex_digits(d: Seq<u8>) -> bool {
    d.len() > 0 && all_hex_digits(d) && hex_value(d) <= u64::MAX
}

/// Parses a bare string of hexadecimal digits, most significant
/// first: the denoted value when every byte is a digit, there is at
/// least one, and the value fits in 64 bits; the address error
/// otherwise.
fn parse_hex_digits(d: &[u8]) -> (r: Result<u64, UserInstructionParseError>)
    ensures
        (r matches Ok(v) ==> valid_hex_digits(d@) && v == hex_value(d@)),
        (r is Err ==> !valid_hex_digits(d@) && r == Err::<u64, UserInstructionParseError>(
            UserInstructionParseError::UnparseableAddress,
        )),
{
    let n = d.len();
    if n == 0 {
        return Err(UserInstructionParseError::UnparseableAddress);
    }
    let mut value: u64 = 0;
    let mut i: usize = 0;
    while i < n
        invariant
            0 <= i <= n,
            n == d@.len(),
            all_hex_digits(d@.take(i as int)),
            value == hex_value(d@.take(i as int)),
        decreases n - i,
    {
        let b = d[i];
        let digit: u64 = if b >= 48 && b <= 57 {
            (b - 48) as u64
        } else if b >= 97 && b <= 102 {
            (b - 87) as u64
        } else if b >= 65 && b <= 70 {
            (b - 55) as u64
        } else {
            proof {
                assert(!is_hex_digit(d@[i as int]));
            }
            return Err(UserInstructionParseError::UnparseableAddress);
        };
        if value > 0xfffffffffffffff {
            proof {
                if all_hex_digits(d@) {
                    lemma_hex_value_take_succ(d@, i as int);
                    lemma_hex_value_take_monotone(d@, i as int + 1, n as int);
                    assert(d@.take(n as int) =~= d@);
                }
            }
            return Err(UserInstructionParseError::UnparseableAddress);
        }
        proof {
            lemma_hex_value_take_succ(d@, i as int);
            assert(is_hex_digit(d@[i as int]));
            assert(digit == hex_digit_value(d@[i as int]));
        }
        value = value * 16 + digit;
        i += 1;
    }
    proof {
        assert(d@.take(n as int) =~= d@);
    }
    Ok(value)
}

/// Parses the bytes of a `0x`-prefixed hexadecimal address.
fn parse_hex_address_bytes(b: &[u8]) -> (r: Result<u64, UserInstructionParseError>)
    ensures
        r == spec_parse_hex_address(b@),
{
    if !(b.len() >= 2 && b[0] == 48 && b[1] == 120) {
        return Err(UserInstructionParseError::AddressShouldStartWith0x);
    }
    let digits = slice_subrange(b, 2, b.len());
    parse_hex_digits(digits)
}

/// Parses a `0x`-prefixed hexadecimal address, as used by the `m` and
/// `b` commands.
pub fn parse_hex_address(hex: &str) -> (r: Result<u64, UserInstructionParseError>)
    ensures
        r == spec_parse_hex_address(hex.spec_bytes()),
{
    parse_hex_address_bytes(hex.as_bytes())
}

/// The width in bytes of the whitespace character starting at `lo`,
/// or zero when none starts there.
fn leading_space_width(bytes: &[u8], lo: usize) -> (k: usize)
    requires
        lo <= bytes@.len(),
    ensures
        k == leading_space_len(bytes@.subrange(lo as int, bytes@.len() as int)),
        lo + k <= bytes@.len(),
{
    let n = bytes.len();
    if lo < n {
        let b0 = bytes[lo];
        if b0 == 32 || (b0 >= 9 && b0 <= 13) {
            return 1;
        }
        if lo + 1 < n {
            let b1 = bytes[lo + 1];
            if b0 == 0xc2 && (b1 == 0x85 || b1 == 0xa0) {
                return 2;
            }
            if lo + 2 < n {
                let b2 = bytes[lo + 2];
                if (b0 == 0xe1 && b1 == 0x9a && b2 == 0x80) || (b0 == 0xe2 && b1 == 0x80 && (b2
                    >= 0x80 && b2 <= 0x8a)) || (b0 == 0xe2 && b1 == 0x80 && (b2 == 0xa8 || b2
                    == 0xa9 || b2 == 0xaf)) || (b0 == 0xe2 && b1 == 0x81 && b2 == 0x9f) || (b0
                    == 0xe3 && b1 == 0x80 && b2 == 0x80) {
                    return 3;
                }
            }
        }
    }
    0
}

/// The width in bytes of the whitespace character ending at `hi`
/// within `bytes[lo..hi]`, or zero when none ends there.
fn trailing_space_width(bytes: &[u8], lo: usize, hi: usize) -> (k: usize)
    requires
        lo <= hi <= bytes@.len(),
    ensures
        k == trailing_space_len(bytes@.subrange(lo as int, hi as int)),
        k <= hi - lo,
{
    if hi > lo {
        let last = bytes[hi - 1];
        if last == 32 || (last >= 9 && last <= 13) {
            return 1;
        }
        if hi - 1 > lo {
            let second = bytes[hi - 2];
            if second == 0xc2 && (last == 0x85 || last == 0xa0) {
                return 2;
            }
            if hi - 2 > lo {
                let third = bytes[hi - 3];
                if (third == 0xe1 && second == 0x9a && last == 0x80) || (third == 0xe2 && second
                    == 0x80 && (last >= 0x80 && last <= 0x8a)) || (third == 0xe2 && second == 0x80
                    && (last == 0xa8 || last == 0xa9 || last == 0xaf)) || (third == 0xe2 && second
                    == 0x81 && last == 0x9f) || (third == 0xe3 && second == 0x80 && last == 0x80) {
                    return 3;
                }
            }
        }
    }
    0
}

impl UserInstruction {
    /// Parses one input line into a command, ignoring surrounding
    /// Unicode whitespace: the ASCII whitespace bytes and the UTF-8
    /// encodings of the other whitespace code points, trimmed one
    /// encoded character at a time from either end.
    pub fn parse(input: &str) -> (r: Result<UserInstruction, UserInstructionParseError>)
        ensures
            r == spec_parse(input.spec_bytes()),
    {
        let bytes = input.as_bytes();
        let n = bytes.len();
        let ghost full = input.spec_bytes();
        proof {
            assert(full.subrange(0, n as int) =~= full);
        }
        let mut lo: usize = 0;
        loop
            invariant
                lo <= n,
                n == full.len(),
                bytes@ == full,
                trim_front(full.subrange(lo as int, n as int)) == trim_front(full),
            ensures
                lo <= n,
                full.subrange(lo as int, n as int) == trim_front(full),
            decreases n - lo,
        {
            let k = leading_space_width(bytes, lo);
            if k == 0 {
                break ;
            }
            proof {
                let rest = full.subrange(lo as int, n as int);
                assert(rest.subrange(k as int, rest.len() as int) =~= full.subrange(
                    lo as int + k as int,
                    n as int,
                ));
            }
            lo += k;
        }
        let mut hi: usize = n;
        loop
            invariant
                lo <= hi <= n,
                n == full.len(),
                bytes@ == full,
                trim_back(full.subrange(lo as int, hi as int)) == spec_trim(full),
            ensures
                lo <= hi <= n,
                full.subrange(lo as int, hi as int) == spec_trim(full),
            decreases hi - lo,
        {
            let k = trailing_space_width(bytes, lo, hi);
            if k == 0 {
                break ;
            }
            proof {
                let part = full.subrange(lo as int, hi as int);
                assert(part.subrange(0, part.len() - k as int) =~= full.subrange(
                    lo as int,
                    hi as int - k as int,
                ));
            }
            hi -= k;
        }
        let t = slice_subrange(bytes, lo, hi);
        let ghost ts = spec_trim(full);
        proof {
            assert(t@ == ts);
        }
        if t.len() == 1 {
            let c = t[0];
            proof {
                assert(ts[0] == c);
                assert(seq![99u8].len() == 1 && seq![99u8][0] == 99);
                assert(seq![115u8].len() == 1 && seq![115u8][0] == 115);
                assert(seq![104u8].len() == 1 && seq![104u8][0] == 104);
                assert(seq![114u8].len() == 1 && seq![114u8][0] == 114);
                assert(seq![110u8].len() == 1 && seq![110u8][0] == 110);
            }
            if c == 99 {
                proof {
                    assert(ts =~= seq![99u8]);
                }
                Ok(UserInstruction::ContinueUntilBreakpoint)
            } else if c == 115 {
                proof {
                    assert(ts =~= seq![115u8]);
                }
                Ok(UserInstruction::ContinueUntilSyscall)
            } else if c == 104 {
                proof {
                    assert(ts =~= seq![104u8]);
                }
                Ok(UserInstruction::ShowHelp)
            } else if c == 114 {
                proof {
                    assert(ts =~= seq![114u8]);
                }
                Ok(UserInstruction::ShowRegisters)
            } else if c == 110 {
                proof {
                    assert(ts =~= seq![110u8]);
                }
                Ok(UserInstruction::SingleStep)
            } else {
                Err(UserInstructionParseError::UnknownInstruction)
            }
        } else if t.len() >= 2 && t[0] == 109 && t[1] == 32 {
            let rest = slice_subrange(t, 2, t.len());
            proof {
                assert(rest@ =~= ts.subrange(2, ts.len() as int));
            }
            match parse_hex_address_bytes(rest) {
                Ok(address) => Ok(UserInstruction::ShowMemory { address }),
                Err(e) => Err(e),
            }
        } else if t.len() >= 2 && t[0] == 98 && t[1] == 32 {
            let rest = slice_subrange(t, 2, t.len());
            proof {
                assert(rest@ =~= ts.subrange(2, ts.len() as int));
            }
            match parse_hex_address_bytes(rest) {
                Ok(address) => Ok(UserInstruction::AddBreakpoint { address }),
                Err(e) => Err(e),
            }
        } else {
            proof {
                assert(ts.len() != 1);
            }
            Err(UserInstructionParseError::UnknownInstruction)
        }
    }
}

} // verus!
