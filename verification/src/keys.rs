//! Store keys: the byte order the store keeps them in, and the decimal
//! keys under which a track list files its positions.

use vstd::prelude::*;

verus! {

/// Lexicographic order on byte strings: the order in which the store
/// walks its keys.
pub open spec fn bytes_lt(a: Seq<u8>, b: Seq<u8>) -> bool
    decreases a.len(),
{
    if b.len() == 0 {
        false
    } else if a.len() == 0 {
        true
    } else if a[0] != b[0] {
        a[0] < b[0]
    } else {
        bytes_lt(a.drop_first(), b.drop_first())
    }
}

/// No byte string sorts before itself.
pub proof fn lemma_bytes_lt_irreflexive(a: Seq<u8>)
    ensures
        !bytes_lt(a, a),
    decreases a.len(),
{
    if a.len() > 0 {
        lemma_bytes_lt_irreflexive(a.drop_first());
    }
}

/// The byte order is transitive.
pub proof fn lemma_bytes_lt_transitive(a: Seq<u8>, b: Seq<u8>, c: Seq<u8>)
    requires
        bytes_lt(a, b),
        bytes_lt(b, c),
    ensures
        bytes_lt(a, c),
    decreases a.len(),
{
    if a.len() > 0 && a[0] == b[0] && b[0] == c[0] {
        lemma_bytes_lt_transitive(a.drop_first(), b.drop_first(), c.drop_first());
    }
}

/// The byte `0`..`9` that writes the digit `d`.
pub open spec fn digit_byte(d: nat) -> u8
    recommends
        d < 10,
{
    (0x30 + d) as u8
}

pub open spec fn is_digit(b: u8) -> bool {
    0x30 <= b <= 0x39
}

pub open spec fn all_digits(s: Seq<u8>) -> bool {
    forall|i: int| 0 <= i < s.len() ==> is_digit(#[trigger] s[i])
}

/// The number that a run of decimal digits writes, most significant first.
pub open spec fn digits_value(s: Seq<u8>) -> nat
    decreases s.len(),
{
    if s.len() == 0 {
        0
    } else {
        digits_value(s.drop_last()) * 10 + (s.last() - 0x30) as nat
    }
}

/// The decimal digits of `n`, without leading zeros.
pub open spec fn decimal_of(n: nat) -> Seq<u8>
    decreases n,
{
    if n < 10 {
        seq![digit_byte(n)]
    } else {
        decimal_of(n / 10).push(digit_byte(n % 10))
    }
}

/// The position that a key stands for: its decimal value, with an optional
/// leading `+`; any other key, and any value beyond `usize`, stands for
/// `usize::MAX`.
pub open spec fn position_of_key(key: Seq<u8>) -> usize {
    let digits = if key.len() > 0 && key[0] == 0x2b {
        key.drop_first()
    } else {
        key
    };
    if digits.len() > 0 && all_digits(digits) && digits_value(digits) <= usize::MAX {
        digits_value(digits) as usize
    } else {
        usize::MAX
    }
}

/// Reading back the decimal digits of a number gives the number.
pub proof fn lemma_decimal_round_trip(n: nat)
    ensures
        decimal_of(n).len() > 0,
        all_digits(decimal_of(n)),
        decimal_of(n)[0] != 0x2b,
        digits_value(decimal_of(n)) == n,
    decreases n,
{
    if n < 10 {
        let s = decimal_of(n);
        assert(s.drop_last() =~= Seq::<u8>::empty());
        assert(digits_value(s.drop_last()) == 0);
    } else {
        lemma_decimal_round_trip(n / 10);
        let s = decimal_of(n);
        assert(s.drop_last() =~= decimal_of(n / 10));
    }
}

/// A position's key stands for that position.
pub proof fn lemma_position_key_round_trip(i: usize)
    ensures
        position_of_key(decimal_of(i as nat)) == i,
{
    lemma_decimal_round_trip(i as nat);
}

/// Dropping digits from the end never gives a larger number.
pub proof fn lemma_digits_value_prefix(s: Seq<u8>, n: int)
    requires
        0 <= n <= s.len(),
        all_digits(s),
    ensures
        digits_value(s.take(n)) <= digits_value(s),
    decreases s.len() - n,
{
    if n == s.len() {
        assert(s.take(n) =~= s);
    } else {
        lemma_digits_value_prefix(s, n + 1);
        assert(s.take(n + 1).drop_last() =~= s.take(n));
        assert(is_digit(s[n]));
    }
}

/// The key under which position `i` is filed: its decimal digits.
pub fn position_key(i: usize) -> (key: Vec<u8>)
    ensures
        key@ == decimal_of(i as nat),
    decreases i,
{
    if i < 10 {
        let mut key: Vec<u8> = Vec::new();
        key.push(0x30u8 + (i as u8));
        assert(key@ =~= decimal_of(i as nat));
        key
    } else {
        let mut key: Vec<u8> = position_key(i / 10);
        key.push(0x30u8 + ((i % 10) as u8));
        key
    }
}

/// The position that `key` stands for.
pub fn key_position(key: &[u8]) -> (position: usize)
    ensures
        position == position_of_key(key@),
{
    let start: usize = if key.len() > 0 && key[0] == 0x2bu8 { 1 } else { 0 };
    let ghost digits = key@.subrange(start as int, key@.len() as int);
    proof {
        if start == 1 {
            assert(digits =~= key@.drop_first());
        } else {
            assert(digits =~= key@);
        }
    }
    if start == key.len() {
        return usize::MAX;
    }
    let mut value: usize = 0;
    let mut i: usize = start;
    while i < key.len()
        invariant
            start <= i <= key.len(),
            digits == key@.subrange(start as int, key@.len() as int),
            digits.len() > 0,
            position_of_key(key@) == (if all_digits(digits) && digits_value(digits)
                <= usize::MAX {
                digits_value(digits) as usize
            } else {
                usize::MAX
            }),
            all_digits(digits.take(i - start)),
            value == digits_value(digits.take(i - start)),
        decreases key.len() - i,
    {
        let b: u8 = key[i];
        let ghost seen = digits.take(i - start + 1);
        proof {
            assert(seen.drop_last() =~= digits.take(i - start));
            assert(seen.last() == b);
        }
        if b < 0x30u8 || b > 0x39u8 {
            assert(!is_digit(digits[i - start]));
            return usize::MAX;
        }
        let d: usize = (b - 0x30u8) as usize;
        proof {
            assert forall|j: int| 0 <= j < seen.len() implies is_digit(#[trigger] seen[j]) by {
                if j < seen.len() - 1 {
                    assert(seen[j] == digits.take(i - start)[j]);
                }
            }
        }
        if value > (usize::MAX - d) / 10 {
            proof {
                if all_digits(digits) {
                    lemma_digits_value_prefix(digits, i - start + 1);
                }
            }
            return usize::MAX;
        }
        value = value * 10 + d;
        i += 1;
    }
    proof {
        assert(digits.take(i - start) =~= digits);
    }
    value
}

/// Whether two byte strings are the same.
pub fn same_bytes(a: &[u8], b: &[u8]) -> (same: bool)
    ensures
        same == (a@ == b@),
{
    if a.len() != b.len() {
        return false;
    }
    let mut i: usize = 0;
    while i < a.len()
        invariant
            i <= a.len(),
            a.len() == b.len(),
            forall|j: int| 0 <= j < i ==> a[j] == b[j],
        decreases a.len() - i,
    {
        if a[i] != b[i] {
            return false;
        }
        i += 1;
    }
    proof {
        assert(a@ =~= b@);
    }
    true
}

} // verus!
