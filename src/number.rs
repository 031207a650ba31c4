//! Unsigned 32-bit numbers written in decimal or hexadecimal, and colors
//! written as `#AARRGGBB`.

use vstd::prelude::*;
use vstd::string::StrSliceExecFns;

verus! {

/// The value of the digit `c` in base `radix` (10 or 16; hexadecimal letters in either case).
pub open spec fn digit_value(c: char, radix: nat) -> Option<nat> {
    if '0' <= c && c <= '9' {
        Some((c as nat - '0' as nat) as nat)
    } else if radix == 16 && 'a' <= c && c <= 'f' {
        Some((c as nat - 'a' as nat + 10) as nat)
    } else if radix == 16 && 'A' <= c && c <= 'F' {
        Some((c as nat - 'A' as nat + 10) as nat)
    } else {
        None
    }
}

/// Every character of `s` is a digit in base `radix`.
pub open spec fn all_digits(s: Seq<char>, radix: nat) -> bool {
    forall|i: int| 0 <= i < s.len() ==> (#[trigger] digit_value(s[i], radix)) is Some
}

/// The number the digits `s` write in base `radix`, most significant first.
pub open spec fn value_of(s: Seq<char>, radix: nat) -> nat
    decreases s.len(),
{
    if s.len() == 0 {
        0
    } else {
        value_of(s.drop_last(), radix) * radix + match digit_value(s.last(), radix) {
            Some(d) => d,
            None => 0,
        }
    }
}

/// `s` without one leading `+`.
pub open spec fn unsigned_text(s: Seq<char>) -> Seq<char> {
    if s.len() > 0 && s[0] == '+' {
        s.drop_first()
    } else {
        s
    }
}

/// The `u32` that `s` writes in base `radix`: an optional `+`, then at least one
/// digit, with a value that fits; `None` for any other text.
pub open spec fn parsed_u32(s: Seq<char>, radix: nat) -> Option<u32> {
    let d = unsigned_text(s);
    if d.len() > 0 && all_digits(d, radix) && value_of(d, radix) <= u32::MAX {
        Some(value_of(d, radix) as u32)
    } else {
        None
    }
}

/// `s` without all of its leading `#` characters.
pub open spec fn strip_hashes(s: Seq<char>) -> Seq<char>
    decreases s.len(),
{
    if s.len() > 0 && s[0] == '#' {
        strip_hashes(s.drop_first())
    } else {
        s
    }
}

/// The color `s` writes: hexadecimal after any leading `#`.
pub open spec fn color_of(s: Seq<char>) -> Option<u32> {
    parsed_u32(strip_hashes(s), 16)
}

/// Digits never make a number smaller: a prefix of `s` writes at most what `s` writes.
proof fn lemma_prefix_value(s: Seq<char>, radix: nat, k: int)
    requires
        0 <= k <= s.len(),
        radix >= 1,
    ensures
        value_of(s.subrange(0, k), radix) <= value_of(s, radix),
    decreases s.len() - k,
{
    if k < s.len() {
        lemma_prefix_value(s, radix, k + 1);
        let p = s.subrange(0, k + 1);
        assert(p.drop_last() =~= s.subrange(0, k));
        let v = value_of(s.subrange(0, k), radix);
        assert(v * radix >= v) by (nonlinear_arith)
            requires
                radix >= 1,
        ;
    } else {
        assert(s.subrange(0, k) =~= s);
    }
}

/// The value of the digit `c` in base `radix`.
fn digit(c: char, radix: u32) -> (r: Option<u32>)
    requires
        radix == 10 || radix == 16,
    ensures
        r matches Some(d) ==> digit_value(c, radix as nat) == Some(d as nat) && d < radix,
        r is None ==> digit_value(c, radix as nat) is None,
{
    if '0' <= c && c <= '9' {
        Some((c as u32) - ('0' as u32))
    } else if radix == 16 && 'a' <= c && c <= 'f' {
        Some((c as u32) - ('a' as u32) + 10)
    } else if radix == 16 && 'A' <= c && c <= 'F' {
        Some((c as u32) - ('A' as u32) + 10)
    } else {
        None
    }
}

/// The number that `s` writes from position `start` on, in base `radix`: an
/// optional `+`, then digits.
fn parse_u32_at(s: &str, start: usize, radix: u32) -> (r: Option<u32>)
    requires
        radix == 10 || radix == 16,
        start <= s@.len(),
    ensures
        r == parsed_u32(s@.subrange(start as int, s@.len() as int), radix as nat),
{
    let ghost text = s@.subrange(start as int, s@.len() as int);
    let len: usize = s.unicode_len();
    let mut i: usize = start;
    if i < len && s.get_char(i) == '+' {
        i = i + 1;
    }
    let ghost d = s@.subrange(i as int, len as int);
    assert(d =~= unsigned_text(text));
    if i == len {
        return None;
    }
    let first: usize = i;
    let mut acc: u64 = 0;
    while i < len
        invariant
            first <= i <= len,
            len == s@.len(),
            radix == 10 || radix == 16,
            d == s@.subrange(first as int, len as int),
            d == unsigned_text(s@.subrange(start as int, len as int)),
            d.len() > 0,
            all_digits(s@.subrange(first as int, i as int), radix as nat),
            acc == value_of(s@.subrange(first as int, i as int), radix as nat),
            acc <= u32::MAX,
        decreases len - i,
    {
        let c = s.get_char(i);
        let ghost before = s@.subrange(first as int, i as int);
        let ghost after = s@.subrange(first as int, i + 1);
        assert(after.drop_last() =~= before);
        assert(after =~= d.subrange(0, i + 1 - first));
        match digit(c, radix) {
            None => {
                assert(!all_digits(d, radix as nat)) by {
                    assert(d[i - first] == c);
                }
                return None;
            },
            Some(v) => {
                assert(acc * (radix as u64) <= 0xFFFF_FFFFu64 * 16) by (nonlinear_arith)
                    requires
                        acc <= 0xFFFF_FFFFu64,
                        radix <= 16,
                ;
                acc = acc * (radix as u64) + (v as u64);
                assert(all_digits(after, radix as nat)) by {
                    assert forall|j: int| 0 <= j < after.len() implies (#[trigger] digit_value(
                        after[j],
                        radix as nat,
                    )) is Some by {
                        if j < before.len() {
                            assert(after[j] == before[j]);
                        }
                    }
                }
                if acc > 0xFFFF_FFFFu64 {
                    proof {
                        assert(d.subrange(0, i + 1 - first) =~= after);
                        lemma_prefix_value(d, radix as nat, i + 1 - first);
                    }
                    return None;
                }
            },
        }
        i = i + 1;
    }
    assert(s@.subrange(first as int, len as int) =~= d);
    Some(acc as u32)
}

/// The number `s` writes in base ten, as `str::parse::<u32>` reads it.
pub fn parse_decimal(s: &str) -> (r: Option<u32>)
    ensures
        r == parsed_u32(s@, 10),
{
    let r = parse_u32_at(s, 0, 10);
    assert(s@.subrange(0, s@.len() as int) =~= s@);
    r
}

/// The color `s` writes: any leading `#` characters, then a hexadecimal `u32`.
pub fn parse_color(s: &str) -> (r: Option<u32>)
    ensures
        r == color_of(s@),
{
    let len: usize = s.unicode_len();
    let mut i: usize = 0;
    assert(s@.subrange(0, len as int) =~= s@);
    while i < len && s.get_char(i) == '#'
        invariant
            i <= len,
            len == s@.len(),
            strip_hashes(s@.subrange(i as int, len as int)) == strip_hashes(s@),
        decreases len - i,
    {
        assert(s@.subrange(i as int, len as int).drop_first() =~= s@.subrange(i + 1, len as int));
        i = i + 1;
    }
    assert(strip_hashes(s@.subrange(i as int, len as int)) == s@.subrange(i as int, len as int));
    parse_u32_at(s, i, 16)
}

} // verus!
