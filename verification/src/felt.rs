//! The 256-bit field-element container used for block hashes, state
//! commitments and class hashes, stored as four big-endian 64-bit limbs,
//! with its hexadecimal presentation: the form the value takes on the wire,
//! a `0x` prefix and the shortest run of lowercase digits.
use vstd::prelude::*;
use vstd::arithmetic::div_mod::lemma_div_denominator;
use vstd::arithmetic::div_mod::lemma_div_multiples_vanish;
use vstd::arithmetic::div_mod::lemma_div_multiples_vanish_fancy;
use vstd::arithmetic::div_mod::lemma_mod_multiples_vanish;
use vstd::arithmetic::div_mod::lemma_small_mod;
use vstd::arithmetic::power::lemma_pow_increases;
use vstd::arithmetic::power::lemma_pow_positive;
use vstd::arithmetic::power::pow;
use vstd::string::StrSliceExecFns;
use vstd::string::StringExecFns;

verus! {

/// A 256-bit value in four limbs, `d0` the most significant.
#[derive(Clone, Copy, PartialEq, Eq, Structural, Debug, Hash)]
pub struct Felt {
    pub d0: u64,
    pub d1: u64,
    pub d2: u64,
    pub d3: u64,
}

/// The all-zero element; a state update carrying it as its block hash is
/// still pending.
pub open spec fn felt_zero() -> Felt {
    Felt { d0: 0, d1: 0, d2: 0, d3: 0 }
}

impl Felt {
    pub fn zero() -> (r: Felt)
        ensures
            r == felt_zero(),
    {
        Felt { d0: 0, d1: 0, d2: 0, d3: 0 }
    }

    pub fn from_limbs(d0: u64, d1: u64, d2: u64, d3: u64) -> (r: Felt)
        ensures
            r == (Felt { d0, d1, d2, d3 }),
    {
        Felt { d0, d1, d2, d3 }
    }

    pub fn is_zero(&self) -> (r: bool)
        ensures
            r == (*self == felt_zero()),
    {
        self.d0 == 0 && self.d1 == 0 && self.d2 == 0 && self.d3 == 0
    }

    /// Whether the value needs more than 251 bits, i.e. is at least `2^251`;
    /// addresses and other 251-bit-restricted quantities must reject such
    /// values.
    pub fn has_more_than_251_bits(&self) -> (r: bool)
        ensures
            r == (self.d0 >= 0x0800_0000_0000_0000),
    {
        self.d0 >= 0x0800_0000_0000_0000
    }
}

/// `16^e`.
pub open spec fn pow16(e: nat) -> int {
    pow(16, e)
}

/// Hex digit `i` of a limb, `0` the most significant of its sixteen.
pub open spec fn limb_nibble(l: u64, i: int) -> u8 {
    (((l as int) / pow16((15 - i) as nat)) % 16) as u8
}

/// The sixteen hex digits of a limb, most significant first.
pub open spec fn limb_nibbles(l: u64) -> Seq<u8> {
    Seq::new(16, |i: int| limb_nibble(l, i))
}

/// The sixty-four hex digits of a value, most significant first.
pub open spec fn nibbles(f: Felt) -> Seq<u8> {
    limb_nibbles(f.d0) + limb_nibbles(f.d1) + limb_nibbles(f.d2) + limb_nibbles(f.d3)
}

/// Drops leading zero digits, always keeping at least one digit, so the
/// zero value keeps a single `0`.
pub open spec fn strip_leading_zeros(s: Seq<u8>) -> Seq<u8>
    decreases s.len(),
{
    if s.len() <= 1 {
        s
    } else if s[0] == 0 {
        strip_leading_zeros(s.drop_first())
    } else {
        s
    }
}

/// The lowercase character of one hex digit.
pub open spec fn hex_char(n: u8) -> char {
    if n == 0 {
        '0'
    } else if n == 1 {
        '1'
    } else if n == 2 {
        '2'
    } else if n == 3 {
        '3'
    } else if n == 4 {
        '4'
    } else if n == 5 {
        '5'
    } else if n == 6 {
        '6'
    } else if n == 7 {
        '7'
    } else if n == 8 {
        '8'
    } else if n == 9 {
        '9'
    } else if n == 10 {
        'a'
    } else if n == 11 {
        'b'
    } else if n == 12 {
        'c'
    } else if n == 13 {
        'd'
    } else if n == 14 {
        'e'
    } else {
        'f'
    }
}

/// Each digit of a run as its character.
pub open spec fn hex_chars(s: Seq<u8>) -> Seq<char> {
    Seq::new(s.len(), |i: int| hex_char(s[i]))
}

/// The hexadecimal presentation of a value: `0x`, then the shortest run of
/// lowercase digits.
pub open spec fn hex_str_of(f: Felt) -> Seq<char> {
    seq!['0', 'x'] + hex_chars(strip_leading_zeros(nibbles(f)))
}

/// The two powers of sixteen the digit extraction leans on.
proof fn lemma_pow16_fifteen()
    ensures
        pow16(15) == 0x1000_0000_0000_0000,
        pow16(16) == 0x1_0000_0000_0000_0000,
{
    reveal_with_fuel(pow, 17);
}

/// Extracts the sixteen hex digits of a limb, most significant first.
fn push_limb_nibbles(l: u64, out: &mut Vec<u8>)
    ensures
        final(out)@ == old(out)@ + limb_nibbles(l),
{
    let mut p: u64 = 0x1000_0000_0000_0000;
    proof {
        lemma_pow16_fifteen();
    }
    for j in 0..16usize
        invariant
            out@ == old(out)@ + limb_nibbles(l).take(j as int),
            j < 16 ==> p as int == pow16((15 - j) as nat),
    {
        proof {
            lemma_pow_positive(16, (15 - j) as nat);
        }
        let d = ((l / p) % 16) as u8;
        proof {
            assert(d == limb_nibble(l, j as int));
            vstd::prelude::Seq::lemma_take_succ_push(limb_nibbles(l), j as int);
        }
        out.push(d);
        if j < 15 {
            proof {
                vstd::arithmetic::power::lemma_pow1(16);
                vstd::arithmetic::power::lemma_pow_adds(16, 1, (14 - j) as nat);
                assert((15 - j) as nat == 1 + (14 - j) as nat);
                assert(pow16((15 - j) as nat) == 16 * pow16((14 - j) as nat));
                lemma_div_multiples_vanish(pow16((14 - j) as nat), 16);
            }
            p = p / 16;
        }
    }
    proof {
        assert(limb_nibbles(l).take(16) =~= limb_nibbles(l));
    }
}

/// Appends the character of one hex digit.
fn push_hex_char(s: &mut String, n: u8)
    requires
        n < 16,
    ensures
        final(s)@ == old(s)@.push(hex_char(n)),
{
    if n == 0 {
        proof {
            reveal_strlit("0");
            assert(old(s)@ + "0"@ =~= old(s)@.push('0'));
        }
        s.append("0");
    } else if n == 1 {
        proof {
            reveal_strlit("1");
            assert(old(s)@ + "1"@ =~= old(s)@.push('1'));
        }
        s.append("1");
    } else if n == 2 {
        proof {
            reveal_strlit("2");
            assert(old(s)@ + "2"@ =~= old(s)@.push('2'));
        }
        s.append("2");
    } else if n == 3 {
        proof {
            reveal_strlit("3");
            assert(old(s)@ + "3"@ =~= old(s)@.push('3'));
        }
        s.append("3");
    } else if n == 4 {
        proof {
            reveal_strlit("4");
            assert(old(s)@ + "4"@ =~= old(s)@.push('4'));
        }
        s.append("4");
    } else if n == 5 {
        proof {
            reveal_strlit("5");
            assert(old(s)@ + "5"@ =~= old(s)@.push('5'));
        }
        s.append("5");
    } else if n == 6 {
        proof {
            reveal_strlit("6");
            assert(old(s)@ + "6"@ =~= old(s)@.push('6'));
        }
        s.append("6");
    } else if n == 7 {
        proof {
            reveal_strlit("7");
            assert(old(s)@ + "7"@ =~= old(s)@.push('7'));
        }
        s.append("7");
    } else if n == 8 {
        proof {
            reveal_strlit("8");
            assert(old(s)@ + "8"@ =~= old(s)@.push('8'));
        }
        s.append("8");
    } else if n == 9 {
        proof {
            reveal_strlit("9");
            assert(old(s)@ + "9"@ =~= old(s)@.push('9'));
        }
        s.append("9");
    } else if n == 10 {
        proof {
            reveal_strlit("a");
            assert(old(s)@ + "a"@ =~= old(s)@.push('a'));
        }
        s.append("a");
    } else if n == 11 {
        proof {
            reveal_strlit("b");
            assert(old(s)@ + "b"@ =~= old(s)@.push('b'));
        }
        s.append("b");
    } else if n == 12 {
        proof {
            reveal_strlit("c");
            assert(old(s)@ + "c"@ =~= old(s)@.push('c'));
        }
        s.append("c");
    } else if n == 13 {
        proof {
            reveal_strlit("d");
            assert(old(s)@ + "d"@ =~= old(s)@.push('d'));
        }
        s.append("d");
    } else if n == 14 {
        proof {
            reveal_strlit("e");
            assert(old(s)@ + "e"@ =~= old(s)@.push('e'));
        }
        s.append("e");
    } else {
        proof {
            reveal_strlit("f");
            assert(old(s)@ + "f"@ =~= old(s)@.push('f'));
        }
        s.append("f");
    }
}

/// Dropping a run of known leading zeros does not change what stripping
/// leaves.
proof fn lemma_strip_skip(s: Seq<u8>, k: int)
    requires
        0 <= k < s.len(),
        forall|j: int| 0 <= j < k ==> s[j] == 0,
    ensures
        strip_leading_zeros(s) == strip_leading_zeros(s.skip(k)),
    decreases k,
{
    if k == 0 {
        assert(s.skip(0) =~= s);
    } else {
        assert(s.len() > 1);
        assert(s[0] == 0);
        assert(strip_leading_zeros(s) == strip_leading_zeros(s.drop_first()));
        assert(s.drop_first().skip(k - 1) =~= s.skip(k));
        lemma_strip_skip(s.drop_first(), k - 1);
    }
}

impl Felt {
    /// The hexadecimal presentation of the value: `0x`, then the shortest
    /// run of lowercase digits.
    pub fn to_hex_string(&self) -> (r: String)
        ensures
            r@ == hex_str_of(*self),
    {
        let mut nibs: Vec<u8> = Vec::new();
        push_limb_nibbles(self.d0, &mut nibs);
        push_limb_nibbles(self.d1, &mut nibs);
        push_limb_nibbles(self.d2, &mut nibs);
        push_limb_nibbles(self.d3, &mut nibs);
        proof {
            assert(nibs@ =~= nibbles(*self));
            assert(forall|i: int| 0 <= i < nibs@.len() ==> nibs@[i] < 16) by {
                assert(forall|l: u64, i: int|
                    0 <= i < 16 ==> #[trigger] limb_nibbles(l)[i] < 16);
            }
        }
        let mut start: usize = 0;
        while start < 63 && nibs[start] == 0
            invariant
                nibs@ == nibbles(*self),
                nibs@.len() == 64,
                start <= 63,
                forall|j: int| 0 <= j < start ==> nibs@[j] == 0,
                forall|i: int| 0 <= i < nibs@.len() ==> nibs@[i] < 16,
            decreases 63 - start,
        {
            start = start + 1;
        }
        proof {
            if start > 0 {
                lemma_strip_skip(nibs@, start as int);
            } else {
                assert(nibs@.skip(0) =~= nibs@);
            }
            let tail = nibs@.skip(start as int);
            assert(tail.len() == 64 - start);
            if start == 63 {
                assert(tail.len() == 1);
                assert(strip_leading_zeros(tail) == tail);
            } else {
                assert(tail[0] == nibs@[start as int]);
                assert(tail[0] != 0);
                assert(strip_leading_zeros(tail) == tail);
            }
            assert(strip_leading_zeros(nibs@) == nibs@.skip(start as int));
        }
        let mut r = String::new();
        proof {
            reveal_strlit("0x");
            assert("0x"@ =~= seq!['0', 'x']);
        }
        r.append("0x");
        let ghost prefix = seq!['0', 'x'];
        proof {
            assert(r@ =~= prefix + hex_chars(nibs@.subrange(start as int, start as int)));
        }
        for j in start..64usize
            invariant
                nibs@ == nibbles(*self),
                nibs@.len() == 64,
                start <= j,
                forall|i: int| 0 <= i < nibs@.len() ==> nibs@[i] < 16,
                r@ == prefix + hex_chars(nibs@.subrange(start as int, j as int)),
                prefix == seq!['0', 'x'],
        {
            push_hex_char(&mut r, nibs[j]);
            proof {
                assert((prefix + hex_chars(nibs@.subrange(start as int, j as int))).push(
                    hex_char(nibs@[j as int]),
                ) =~= prefix + hex_chars(nibs@.subrange(start as int, j + 1)));
            }
        }
        proof {
            assert(nibs@.subrange(start as int, 64) =~= nibs@.skip(start as int));
            assert(r@ =~= hex_str_of(*self));
        }
        r
    }
}

/// Why a hexadecimal string was rejected.
#[derive(Clone, Copy, PartialEq, Eq, Structural, Debug)]
pub enum HexParseError {
    /// No digits at all, or more than sixty-four.
    InvalidLength,
    /// A character that is no hex digit.
    InvalidNibble,
}

/// The value of one hex character; uppercase is accepted too.
pub open spec fn spec_hex_value(c: char) -> Option<u8> {
    if c == '0' {
        Some(0u8)
    } else if c == '1' {
        Some(1u8)
    } else if c == '2' {
        Some(2u8)
    } else if c == '3' {
        Some(3u8)
    } else if c == '4' {
        Some(4u8)
    } else if c == '5' {
        Some(5u8)
    } else if c == '6' {
        Some(6u8)
    } else if c == '7' {
        Some(7u8)
    } else if c == '8' {
        Some(8u8)
    } else if c == '9' {
        Some(9u8)
    } else if c == 'a' || c == 'A' {
        Some(10u8)
    } else if c == 'b' || c == 'B' {
        Some(11u8)
    } else if c == 'c' || c == 'C' {
        Some(12u8)
    } else if c == 'd' || c == 'D' {
        Some(13u8)
    } else if c == 'e' || c == 'E' {
        Some(14u8)
    } else if c == 'f' || c == 'F' {
        Some(15u8)
    } else {
        None
    }
}

fn hex_value(c: char) -> (r: Option<u8>)
    ensures
        r == spec_hex_value(c),
{
    match c {
        '0' => Some(0u8),
        '1' => Some(1u8),
        '2' => Some(2u8),
        '3' => Some(3u8),
        '4' => Some(4u8),
        '5' => Some(5u8),
        '6' => Some(6u8),
        '7' => Some(7u8),
        '8' => Some(8u8),
        '9' => Some(9u8),
        'a' | 'A' => Some(10u8),
        'b' | 'B' => Some(11u8),
        'c' | 'C' => Some(12u8),
        'd' | 'D' => Some(13u8),
        'e' | 'E' => Some(14u8),
        'f' | 'F' => Some(15u8),
        _ => None,
    }
}

/// The digit run of a hexadecimal string: what follows the optional `0x`
/// prefix.
pub open spec fn hex_digits_of(s: Seq<char>) -> Seq<char> {
    if s.len() >= 2 && s[0] == '0' && s[1] == 'x' {
        s.skip(2)
    } else {
        s
    }
}

/// Whether every character of the run is a hex digit.
pub open spec fn all_hex(s: Seq<char>) -> bool {
    forall|i: int| 0 <= i < s.len() ==> (#[trigger] spec_hex_value(s[i])) is Some
}

/// The digit values of a run of hex characters.
pub open spec fn digit_values(s: Seq<char>) -> Seq<u8>
    recommends
        all_hex(s),
{
    Seq::new(s.len(), |i: int| spec_hex_value(s[i])->0)
}

/// A digit run zero-extended on the left to the full sixty-four digits.
pub open spec fn pad64(d: Seq<u8>) -> Seq<u8>
    recommends
        d.len() <= 64,
{
    Seq::new(64, |i: int| if i < 64 - d.len() {
        0u8
    } else {
        d[i - (64 - d.len())]
    })
}

/// The value of a digit run read most significant first.
pub open spec fn nib_val(s: Seq<u8>) -> int
    decreases s.len(),
{
    if s.len() == 0 {
        0
    } else {
        nib_val(s.drop_last()) * 16 + s.last()
    }
}

/// A run of `n` digits, each below sixteen, stands for a value below
/// `16^n`.
proof fn lemma_nib_val_bound(s: Seq<u8>)
    requires
        forall|i: int| 0 <= i < s.len() ==> s[i] < 16,
    ensures
        0 <= nib_val(s) < pow16(s.len()),
    decreases s.len(),
{
    if s.len() == 0 {
        reveal_with_fuel(pow, 1);
    } else {
        lemma_nib_val_bound(s.drop_last());
        vstd::arithmetic::power::lemma_pow1(16);
        vstd::arithmetic::power::lemma_pow_adds(16, 1, (s.len() - 1) as nat);
        assert(pow16(s.len()) == 16 * pow16((s.len() - 1) as nat));
        assert(s.last() < 16);
    }
}

/// Digit `i` of a run can be read back out of its value by division and
/// remainder.
proof fn lemma_nib_val_digit(s: Seq<u8>, i: int)
    requires
        forall|j: int| 0 <= j < s.len() ==> s[j] < 16,
        0 <= i < s.len(),
    ensures
        (nib_val(s) / pow16((s.len() - 1 - i) as nat)) % 16 == s[i],
    decreases s.len(),
{
    let l = s.len() as int;
    let dl = s.drop_last();
    lemma_nib_val_bound(dl);
    if i == l - 1 {
        reveal_with_fuel(pow, 1);
        assert(nib_val(s) / pow16(0) == nib_val(s));
        lemma_mod_multiples_vanish(nib_val(dl), s.last() as int, 16);
        lemma_small_mod(s.last() as nat, 16);
    } else {
        let e = (l - 1 - i) as nat;
        assert(e >= 1);
        lemma_div_multiples_vanish_fancy(nib_val(dl), s.last() as int, 16);
        assert(nib_val(s) / 16 == nib_val(dl));
        vstd::arithmetic::power::lemma_pow1(16);
        vstd::arithmetic::power::lemma_pow_adds(16, 1, (e - 1) as nat);
        assert(pow16(e) == 16 * pow16((e - 1) as nat));
        lemma_pow_positive(16, (e - 1) as nat);
        lemma_div_denominator(nib_val(s), 16, pow16((e - 1) as nat));
        assert(nib_val(s) / pow16(e) == nib_val(dl) / pow16((e - 1) as nat));
        lemma_nib_val_digit(dl, i);
        assert(dl[i] == s[i]);
    }
}

/// Packs sixteen digits, most significant first, into one limb.
fn pack_limb(nibs: &Vec<u8>, off: usize) -> (l: u64)
    requires
        off + 16 <= nibs@.len(),
        forall|i: int| 0 <= i < nibs@.len() ==> nibs@[i] < 16,
    ensures
        limb_nibbles(l) == nibs@.subrange(off as int, off + 16),
{
    let mut l: u64 = 0;
    let nlen = nibs.len();
    proof {
        lemma_pow16_fifteen();
        reveal_with_fuel(pow, 1);
        assert(nibs@.subrange(off as int, off as int) =~= Seq::<u8>::empty());
    }
    for j in 0..16usize
        invariant
            nlen == nibs@.len(),
            off + 16 <= nlen,
            forall|i: int| 0 <= i < nibs@.len() ==> nibs@[i] < 16,
            l as int == nib_val(nibs@.subrange(off as int, off + j)),
            (l as int) < pow16(j as nat),
            pow16(15) == 0x1000_0000_0000_0000,
            pow16(16) == 0x1_0000_0000_0000_0000,
    {
        let ghost prefix = nibs@.subrange(off as int, off + j);
        let ghost next = nibs@.subrange(off as int, off + j + 1);
        proof {
            assert(next.drop_last() =~= prefix);
            assert(next.last() == nibs@[off + j]);
            lemma_pow_increases(16, j as nat, 15);
            assert(pow16(j as nat) <= pow16(15));
            vstd::arithmetic::power::lemma_pow1(16);
            vstd::arithmetic::power::lemma_pow_adds(16, 1, j as nat);
            assert(pow16((j + 1) as nat) == 16 * pow16(j as nat));
            assert(nibs@[off + j] < 16);
            assert((l as int) * 16 + 15 < 0x1_0000_0000_0000_0000);
        }
        l = l * 16 + (nibs[off + j] as u64);
    }
    proof {
        let s = nibs@.subrange(off as int, off + 16);
        assert(l as int == nib_val(s));
        assert forall|i: int| 0 <= i < 16 implies limb_nibbles(l)[i] == s[i] by {
            lemma_nib_val_digit(s, i);
        }
        assert(limb_nibbles(l) =~= s);
    }
    l
}

impl Felt {
    /// Reads a value from its hexadecimal presentation: an optional `0x`
    /// prefix, then one to sixty-four hex digits, lowercase or uppercase.
    /// An empty or over-long digit run is one kind of rejection, a stray
    /// character the other.
    pub fn from_hex_str(s: &str) -> (r: Result<Felt, HexParseError>)
        ensures
            ({
                let d = hex_digits_of(s@);
                &&& (r is Ok <==> (1 <= d.len() <= 64 && all_hex(d)))
                &&& (r matches Ok(f) ==> nibbles(f) == pad64(digit_values(d)))
                &&& ((d.len() == 0 || d.len() > 64) ==> r == Err::<Felt, HexParseError>(
                    HexParseError::InvalidLength,
                ))
                &&& ((1 <= d.len() <= 64 && !all_hex(d)) ==> r == Err::<Felt, HexParseError>(
                    HexParseError::InvalidNibble,
                ))
            }),
    {
        let len = s.unicode_len();
        let start: usize = if len >= 2 && s.get_char(0) == '0' && s.get_char(1) == 'x' {
            2
        } else {
            0
        };
        proof {
            assert(hex_digits_of(s@) =~= s@.skip(start as int));
        }
        let dcount = len - start;
        if dcount == 0 || dcount > 64 {
            return Err(HexParseError::InvalidLength);
        }
        let mut vals: Vec<u8> = Vec::new();
        for i in start..len
            invariant
                start <= i <= len,
                len == s@.len(),
                1 <= len - start <= 64,
                start == 0 || start == 2,
                hex_digits_of(s@) == s@.skip(start as int),
                vals@.len() == i - start,
                forall|j: int|
                    0 <= j < vals@.len() ==> (#[trigger] spec_hex_value(s@[start + j])) is Some,
                forall|j: int|
                    0 <= j < vals@.len() ==> #[trigger] vals@[j] == spec_hex_value(
                        s@[start + j],
                    )->0,
        {
            match hex_value(s.get_char(i)) {
                Some(v) => {
                    let ghost vpre = vals@;
                    vals.push(v);
                    proof {
                        let m = vpre.len() as int;
                        assert(vals@ =~= vpre.push(v));
                        assert(vals@[m] == v);
                        assert(start + m == i as int);
                        assert(forall|j: int| 0 <= j < m ==> vals@[j] == vpre[j]);
                    }
                },
                None => {
                    proof {
                        let d = hex_digits_of(s@);
                        assert(d[i - start] == s@[i as int]);
                        assert(!all_hex(d));
                    }
                    return Err(HexParseError::InvalidNibble);
                },
            }
        }
        let ghost d = hex_digits_of(s@);
        proof {
            assert forall|i: int| 0 <= i < d.len() implies (#[trigger] spec_hex_value(d[i]))
                is Some by {
                assert(d[i] == s@[start + i]);
                assert(vals@[i] == spec_hex_value(s@[start + i])->0);
            }
            assert(vals@ =~= digit_values(d));
        }
        let mut padded: Vec<u8> = Vec::new();
        let pad = 64 - dcount;
        while padded.len() < pad
            invariant
                pad <= 64,
                padded@.len() <= pad,
                forall|j: int| 0 <= j < padded@.len() ==> padded@[j] == 0,
            decreases pad - padded@.len(),
        {
            padded.push(0u8);
        }
        let n = vals.len();
        for k in 0..n
            invariant
                n == vals@.len(),
                pad + n == 64,
                padded@.len() == pad + k,
                forall|j: int| 0 <= j < pad ==> padded@[j] == 0,
                forall|j: int| 0 <= j < k ==> padded@[pad + j] == vals@[j],
                forall|j: int| 0 <= j < vals@.len() ==> vals@[j] < 16,
        {
            padded.push(vals[k]);
        }
        proof {
            assert(padded@ =~= pad64(vals@));
            assert(forall|i: int| 0 <= i < padded@.len() ==> padded@[i] < 16);
        }
        let d0 = pack_limb(&padded, 0);
        let d1 = pack_limb(&padded, 16);
        let d2 = pack_limb(&padded, 32);
        let d3 = pack_limb(&padded, 48);
        let f = Felt { d0, d1, d2, d3 };
        proof {
            assert(nibbles(f) =~= padded@);
        }
        Ok(f)
    }
}

/// The first `k` digits of a limb stand for the limb's value with the
/// remaining digits divided away.
proof fn lemma_limb_prefix_value(l: u64, k: int)
    requires
        0 <= k <= 16,
    ensures
        nib_val(limb_nibbles(l).take(k)) == (l as int) / pow16((16 - k) as nat),
    decreases k,
{
    lemma_pow16_fifteen();
    if k == 0 {
        assert(limb_nibbles(l).take(0) =~= Seq::<u8>::empty());
        vstd::arithmetic::div_mod::lemma_basic_div(l as int, pow16(16));
    } else {
        lemma_limb_prefix_value(l, k - 1);
        let s = limb_nibbles(l);
        assert(s.take(k).drop_last() =~= s.take(k - 1));
        assert(s.take(k).last() == s[k - 1]);
        assert(s[k - 1] == limb_nibble(l, k - 1));
        let c = pow16((16 - k) as nat);
        lemma_pow_positive(16, (16 - k) as nat);
        vstd::arithmetic::power::lemma_pow1(16);
        vstd::arithmetic::power::lemma_pow_adds(16, (16 - k) as nat, 1);
        assert(pow16((17 - k) as nat) == c * 16);
        lemma_div_denominator(l as int, c, 16);
        assert(((l as int) / c) / 16 == (l as int) / pow16((17 - k) as nat));
        vstd::arithmetic::div_mod::lemma_fundamental_div_mod((l as int) / c, 16);
        assert((l as int) / c == 16 * (((l as int) / c) / 16) + ((l as int) / c) % 16);
    }
}

/// A limb is recovered whole from its sixteen digits.
proof fn lemma_limb_reconstruct(l: u64)
    ensures
        nib_val(limb_nibbles(l)) == l as int,
{
    lemma_limb_prefix_value(l, 16);
    assert(limb_nibbles(l).take(16) =~= limb_nibbles(l));
    reveal_with_fuel(pow, 1);
}

/// Two values with the same digits are the same value: the hexadecimal
/// presentation identifies a `Felt` uniquely.
pub proof fn lemma_nibbles_injective(a: Felt, b: Felt)
    requires
        nibbles(a) == nibbles(b),
    ensures
        a == b,
{
    assert(limb_nibbles(a.d0) =~= limb_nibbles(b.d0)) by {
        assert(forall|i: int|
            0 <= i < 16 ==> nibbles(a)[i] == #[trigger] limb_nibbles(a.d0)[i] && nibbles(b)[i]
                == limb_nibbles(b.d0)[i]);
    }
    assert(limb_nibbles(a.d1) =~= limb_nibbles(b.d1)) by {
        assert(forall|i: int|
            0 <= i < 16 ==> nibbles(a)[i + 16] == #[trigger] limb_nibbles(a.d1)[i] && nibbles(
                b,
            )[i + 16] == limb_nibbles(b.d1)[i]);
    }
    assert(limb_nibbles(a.d2) =~= limb_nibbles(b.d2)) by {
        assert(forall|i: int|
            0 <= i < 16 ==> nibbles(a)[i + 32] == #[trigger] limb_nibbles(a.d2)[i] && nibbles(
                b,
            )[i + 32] == limb_nibbles(b.d2)[i]);
    }
    assert(limb_nibbles(a.d3) =~= limb_nibbles(b.d3)) by {
        assert(forall|i: int|
            0 <= i < 16 ==> nibbles(a)[i + 48] == #[trigger] limb_nibbles(a.d3)[i] && nibbles(
                b,
            )[i + 48] == limb_nibbles(b.d3)[i]);
    }
    lemma_limb_reconstruct(a.d0);
    lemma_limb_reconstruct(b.d0);
    lemma_limb_reconstruct(a.d1);
    lemma_limb_reconstruct(b.d1);
    lemma_limb_reconstruct(a.d2);
    lemma_limb_reconstruct(b.d2);
    lemma_limb_reconstruct(a.d3);
    lemma_limb_reconstruct(b.d3);
}

/// Stripping removes a run of zeros and nothing else: what is left is a
/// nonempty suffix, and every digit dropped before it was zero.
proof fn lemma_strip_suffix(s: Seq<u8>)
    requires
        s.len() >= 1,
    ensures
        1 <= strip_leading_zeros(s).len() <= s.len(),
        strip_leading_zeros(s) == s.skip(s.len() - strip_leading_zeros(s).len()),
        forall|j: int| 0 <= j < s.len() - strip_leading_zeros(s).len() ==> s[j] == 0,
    decreases s.len(),
{
    if s.len() <= 1 {
        assert(s.skip(0) =~= s);
    } else if s[0] == 0 {
        let t = s.drop_first();
        lemma_strip_suffix(t);
        let m = strip_leading_zeros(t).len();
        assert(s.skip(s.len() - m) =~= t.skip(t.len() - m));
        assert forall|j: int| 0 <= j < s.len() - strip_leading_zeros(s).len() implies s[j]
            == 0 by {
            if j >= 1 {
                assert(t[j - 1] == 0);
            }
        }
    } else {
        assert(s.skip(0) =~= s);
    }
}

/// Zero-extending the stripped digits back to the full width restores the
/// digits exactly.
proof fn lemma_pad_strip(s: Seq<u8>)
    requires
        s.len() == 64,
    ensures
        pad64(strip_leading_zeros(s)) == s,
{
    lemma_strip_suffix(s);
    let m = strip_leading_zeros(s).len() as int;
    assert(pad64(strip_leading_zeros(s)) =~= s) by {
        assert(forall|i: int|
            64 - m <= i < 64 ==> #[trigger] strip_leading_zeros(s)[i - (64 - m)] == s[i]);
    }
}

/// Every digit of a value is below sixteen.
proof fn lemma_nibbles_in_range(f: Felt)
    ensures
        forall|i: int| 0 <= i < 64 ==> #[trigger] nibbles(f)[i] < 16,
{
    assert(forall|l: u64, i: int| 0 <= i < 16 ==> #[trigger] limb_nibbles(l)[i] < 16);
}

/// The characters of digits read back as those digits.
proof fn lemma_hex_chars_read_back(d: Seq<u8>)
    requires
        forall|i: int| 0 <= i < d.len() ==> d[i] < 16,
    ensures
        all_hex(hex_chars(d)),
        digit_values(hex_chars(d)) == d,
{
    assert(forall|n: u8| n < 16 ==> #[trigger] spec_hex_value(hex_char(n)) == Some(n));
    assert(digit_values(hex_chars(d)) =~= d);
}

/// The hexadecimal presentation of a value parses back to exactly that
/// value: its digit run is well-formed, and the digits it carries are the
/// value's own, so — with `lemma_nibbles_injective` — formatting with
/// `to_hex_string` and parsing with `from_hex_str` is the identity.
pub proof fn lemma_hex_round_trip(f: Felt)
    ensures
        ({
            let d = hex_digits_of(hex_str_of(f));
            &&& 1 <= d.len() <= 64
            &&& all_hex(d)
            &&& pad64(digit_values(d)) == nibbles(f)
        }),
{
    let stripped = strip_leading_zeros(nibbles(f));
    let h = hex_str_of(f);
    lemma_strip_suffix(nibbles(f));
    lemma_nibbles_in_range(f);
    assert(forall|i: int| 0 <= i < stripped.len() ==> #[trigger] stripped[i] < 16) by {
        assert(forall|i: int|
            0 <= i < stripped.len() ==> stripped[i] == #[trigger] nibbles(f)[i + (64
                - stripped.len())]);
    }
    lemma_hex_chars_read_back(stripped);
    assert(h[0] == '0' && h[1] == 'x');
    assert(hex_digits_of(h) =~= hex_chars(stripped));
    assert(digit_values(hex_digits_of(h)) == stripped);
    lemma_pad_strip(nibbles(f));
}

} // verus!
