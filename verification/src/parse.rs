//! Parsing of user-entered breakpoint targets: hexadecimal addresses (with
//! or without a `0x` prefix) and decimal line numbers.

use vstd::prelude::*;
use vstd::string::StringSliceAdditionalSpecFns;

verus! {

/// ASCII code of `0`.
const DIGIT_0: u8 = 48;

/// ASCII code of `9`.
const DIGIT_9: u8 = 57;

/// Whether `b` is an ASCII hexadecimal digit.
pub open spec fn is_hex_digit(b: u8) -> bool {
    (48 <= b <= 57) || (97 <= b <= 102) || (65 <= b <= 70)
}

/// The value of the hexadecimal digit `b`.
pub open spec fn hex_digit_val(b: u8) -> u8 {
    if 48 <= b <= 57 {
        (b - 48) as u8
    } else if 97 <= b <= 102 {
        (b - 87) as u8
    } else if 65 <= b <= 70 {
        (b - 55) as u8
    } else {
        0
    }
}

/// Whether every byte of `s` is a hexadecimal digit.
pub open spec fn all_hex(s: Seq<u8>) -> bool {
    forall|i: int| 0 <= i < s.len() ==> is_hex_digit(s[i])
}

/// The number the hexadecimal digit string `s` denotes.
pub open spec fn hex_val(s: Seq<u8>) -> nat
    decreases s.len(),
{
    if s.len() == 0 {
        0
    } else {
        (hex_val(s.drop_last()) * 16 + hex_digit_val(s.last())) as nat
    }
}

/// Whether `b` is an ASCII decimal digit.
pub open spec fn is_dec_digit(b: u8) -> bool {
    48 <= b <= 57
}

/// The value of the decimal digit `b`.
pub open spec fn dec_digit_val(b: u8) -> u8 {
    if 48 <= b <= 57 {
        (b - 48) as u8
    } else {
        0
    }
}

/// Whether every byte of `s` is a decimal digit.
pub open spec fn all_dec(s: Seq<u8>) -> bool {
    forall|i: int| 0 <= i < s.len() ==> is_dec_digit(s[i])
}

/// The number the decimal digit string `s` denotes.
pub open spec fn dec_val(s: Seq<u8>) -> nat
    decreases s.len(),
{
    if s.len() == 0 {
        0
    } else {
        (dec_val(s.drop_last()) * 10 + dec_digit_val(s.last())) as nat
    }
}

/// Whether `b` starts with `0x` or `0X`.
pub open spec fn has_hex_prefix(b: Seq<u8>) -> bool {
    b.len() >= 2 && b[0] == 48 && (b[1] == 120 || b[1] == 88)
}

/// What parsing a hexadecimal address out of the bytes `b` yields: the
/// digits after an optional `0x`/`0X` prefix, provided there is at least
/// one, all are hexadecimal, and the value fits a machine address.
pub open spec fn spec_parse_address(b: Seq<u8>) -> Option<usize> {
    let t = if has_hex_prefix(b) {
        b.subrange(2, b.len() as int)
    } else {
        b
    };
    if t.len() > 0 && all_hex(t) && hex_val(t) <= usize::MAX {
        Some(hex_val(t) as usize)
    } else {
        None
    }
}

/// What parsing a decimal line number out of the bytes `b` yields.
pub open spec fn spec_parse_decimal(b: Seq<u8>) -> Option<usize> {
    if b.len() > 0 && all_dec(b) && dec_val(b) <= usize::MAX {
        Some(dec_val(b) as usize)
    } else {
        None
    }
}

proof fn lemma_hex_val_take_mono(s: Seq<u8>, k: int)
    requires
        0 <= k <= s.len(),
    ensures
        hex_val(s) >= hex_val(s.take(k)),
    decreases s.len(),
{
    if k < s.len() {
        assert(s.drop_last().take(k) =~= s.take(k));
        lemma_hex_val_take_mono(s.drop_last(), k);
    } else {
        assert(s.take(k) =~= s);
    }
}

proof fn lemma_dec_val_take_mono(s: Seq<u8>, k: int)
    requires
        0 <= k <= s.len(),
    ensures
        dec_val(s) >= dec_val(s.take(k)),
    decreases s.len(),
{
    if k < s.len() {
        assert(s.drop_last().take(k) =~= s.take(k));
        lemma_dec_val_take_mono(s.drop_last(), k);
    } else {
        assert(s.take(k) =~= s);
    }
}

/// Parses the hexadecimal digits of `bytes` from position `start` on.
/// Yields the value exactly when there is at least one digit, every byte
/// from `start` on is a hexadecimal digit, and the value fits in `usize`.
fn parse_hex_from(bytes: &[u8], start: usize) -> (r: Option<usize>)
    requires
        start <= bytes@.len(),
    ensures
        ({
            let t = bytes@.subrange(start as int, bytes@.len() as int);
            r == if t.len() > 0 && all_hex(t) && hex_val(t) <= usize::MAX {
                Some(hex_val(t) as usize)
            } else {
                None::<usize>
            }
        }),
{
    let ghost t = bytes@.subrange(start as int, bytes@.len() as int);
    let n = bytes.len();
    if start == n {
        return None;
    }
    let mut acc: usize = 0;
    let mut i: usize = start;
    while i < n
        invariant
            start <= i <= n,
            n == bytes@.len(),
            t == bytes@.subrange(start as int, n as int),
            all_hex(t.take(i - start)),
            acc == hex_val(t.take(i - start)),
        decreases n - i,
    {
        let b = bytes[i];
        proof {
            assert(t.take(i + 1 - start).drop_last() =~= t.take(i - start));
            assert(t.take(i + 1 - start).last() == bytes@[i as int]);
        }
        let d: u8;
        if DIGIT_0 <= b && b <= DIGIT_9 {
            d = b - DIGIT_0;
        } else if 97 <= b && b <= 102 {
            d = b - 87;
        } else if 65 <= b && b <= 70 {
            d = b - 55;
        } else {
            return None;
        }
        if acc > (usize::MAX - d as usize) / 16 {
            proof {
                lemma_hex_val_take_mono(t, i + 1 - start);
                assert(hex_val(t.take(i + 1 - start)) > usize::MAX);
            }
            return None;
        }
        acc = acc * 16 + d as usize;
        i += 1;
    }
    proof {
        assert(t.take(n - start) =~= t);
    }
    Some(acc)
}

/// Parses the hexadecimal address that starts at byte `start` of `s`:
/// digits, optionally prefixed by `0x` or `0X`.
pub fn parse_address_tail(s: &str, start: usize) -> (r: Option<usize>)
    requires
        start <= s.spec_bytes().len(),
    ensures
        r == spec_parse_address(
            s.spec_bytes().subrange(start as int, s.spec_bytes().len() as int),
        ),
{
    let bytes = s.as_bytes();
    let n = bytes.len();
    let ghost t = bytes@.subrange(start as int, n as int);
    let from: usize = if n - start >= 2 && bytes[start] == DIGIT_0 && (bytes[start + 1] == 120
        || bytes[start + 1] == 88) {
        start + 2
    } else {
        start
    };
    proof {
        if from == start + 2 {
            assert(has_hex_prefix(t));
            assert(bytes@.subrange(from as int, n as int) =~= t.subrange(2, t.len() as int));
        } else {
            assert(!has_hex_prefix(t));
            assert(bytes@.subrange(from as int, n as int) =~= t);
        }
    }
    parse_hex_from(bytes, from)
}

/// Parses a breakpoint target given as a raw address: hexadecimal digits,
/// optionally prefixed by `0x` or `0X`.
pub fn parse_address(s: &str) -> (r: Option<usize>)
    ensures
        r == spec_parse_address(s.spec_bytes()),
{
    proof {
        assert(s.spec_bytes().subrange(0, s.spec_bytes().len() as int) =~= s.spec_bytes());
    }
    parse_address_tail(s, 0)
}

/// Parses a breakpoint target given as a decimal source line number.
pub fn parse_decimal(s: &str) -> (r: Option<usize>)
    ensures
        r == spec_parse_decimal(s.spec_bytes()),
{
    let bytes = s.as_bytes();
    let n = bytes.len();
    if n == 0 {
        return None;
    }
    let mut acc: usize = 0;
    let mut i: usize = 0;
    while i < n
        invariant
            i <= n,
            n == bytes@.len(),
            bytes@ == s.spec_bytes(),
            all_dec(bytes@.take(i as int)),
            acc == dec_val(bytes@.take(i as int)),
        decreases n - i,
    {
        let b = bytes[i];
        proof {
            assert(bytes@.take(i + 1).drop_last() =~= bytes@.take(i as int));
            assert(bytes@.take(i + 1).last() == bytes@[i as int]);
        }
        if !(DIGIT_0 <= b && b <= DIGIT_9) {
            proof {
                assert(!is_dec_digit(bytes@[i as int]));
                assert(!all_dec(bytes@));
            }
            return None;
        }
        let d: u8 = b - DIGIT_0;
        if acc > (usize::MAX - d as usize) / 10 {
            proof {
                assert(dec_val(bytes@.take(i + 1)) == acc * 10 + d);
                assert(acc * 10 + d > usize::MAX);
                lemma_dec_val_take_mono(bytes@, i + 1);
                assert(dec_val(bytes@) > usize::MAX);
            }
            return None;
        }
        acc = acc * 10 + d as usize;
        i += 1;
    }
    proof {
        assert(bytes@.take(n as int) =~= bytes@);
    }
    Some(acc)
}

} // verus!
