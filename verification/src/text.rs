//! Byte order on texts and decimal numerals.

use vstd::prelude::*;
use vstd::string::StringExecFns;
use vstd::string::StringSliceAdditionalSpecFns;

verus! {

/// Strict lexicographic order on byte strings: at the first place where the
/// two differ the smaller byte decides, and a proper prefix comes first.
pub open spec fn bytes_lt(a: Seq<u8>, b: Seq<u8>) -> bool
    decreases a.len(),
{
    if b.len() == 0 {
        false
    } else if a.len() == 0 {
        true
    } else if a[0] != b[0] {
        a[0] < b[0]
    } else {
        bytes_lt(a.drop_first(), b.drop_first())
    }
}

/// No byte string comes before itself.
pub proof fn lemma_bytes_lt_irreflexive(a: Seq<u8>)
    ensures
        !bytes_lt(a, a),
    decreases a.len(),
{
    if a.len() > 0 {
        lemma_bytes_lt_irreflexive(a.drop_first());
    }
}

/// The order is transitive.
pub proof fn lemma_bytes_lt_transitive(a: Seq<u8>, b: Seq<u8>, c: Seq<u8>)
    requires
        bytes_lt(a, b),
        bytes_lt(b, c),
    ensures
        bytes_lt(a, c),
    decreases a.len(),
{
    if a.len() > 0 && a[0] == b[0] && b[0] == c[0] {
        lemma_bytes_lt_transitive(a.drop_first(), b.drop_first(), c.drop_first());
    }
}

/// Of two byte strings one comes first, or they are the same.
pub proof fn lemma_bytes_lt_total(a: Seq<u8>, b: Seq<u8>)
    ensures
        bytes_lt(a, b) || a == b || bytes_lt(b, a),
    decreases a.len(),
{
    if a.len() > 0 && b.len() > 0 && a[0] == b[0] {
        lemma_bytes_lt_total(a.drop_first(), b.drop_first());
        if a.drop_first() == b.drop_first() {
            assert(a =~= seq![a[0]] + a.drop_first());
            assert(b =~= seq![b[0]] + b.drop_first());
        }
    } else if a.len() == 0 && b.len() == 0 {
        assert(a =~= b);
    }
}

/// Two byte strings that agree on their first `n` bytes compare as what
/// follows those bytes.
proof fn lemma_bytes_lt_skip(a: Seq<u8>, b: Seq<u8>, n: int)
    requires
        0 <= n <= a.len(),
        n <= b.len(),
        forall|k: int| 0 <= k < n ==> a[k] == b[k],
    ensures
        bytes_lt(a, b) == bytes_lt(a.skip(n), b.skip(n)),
    decreases n,
{
    if n > 0 {
        assert(a.drop_first().skip(n - 1) =~= a.skip(n));
        assert(b.drop_first().skip(n - 1) =~= b.skip(n));
        lemma_bytes_lt_skip(a.drop_first(), b.drop_first(), n - 1);
    } else {
        assert(a.skip(0) =~= a);
        assert(b.skip(0) =~= b);
    }
}

/// How two byte strings stand to each other.
#[derive(Clone, Copy, Debug, PartialEq, Eq, Structural)]
pub enum Rank {
    Before,
    Same,
    After,
}

/// The rank of `a` against `b` in the order `bytes_lt`.
pub open spec fn rank_of(a: Seq<u8>, b: Seq<u8>) -> Rank {
    if bytes_lt(a, b) {
        Rank::Before
    } else if a == b {
        Rank::Same
    } else {
        Rank::After
    }
}

/// Compares two byte strings lexicographically.
pub fn rank_bytes(a: &[u8], b: &[u8]) -> (rank: Rank)
    ensures
        rank == rank_of(a@, b@),
{
    let mut i: usize = 0;
    while i < a.len() && i < b.len() && a[i] == b[i]
        invariant
            i <= a.len(),
            i <= b.len(),
            forall|k: int| 0 <= k < i ==> a@[k] == b@[k],
        decreases a.len() - i,
    {
        i += 1;
    }
    proof {
        lemma_bytes_lt_skip(a@, b@, i as int);
        lemma_bytes_lt_skip(b@, a@, i as int);
        if i == a.len() && i == b.len() {
            assert(a@ =~= b@);
            lemma_bytes_lt_irreflexive(a@);
        }
    }
    if i == a.len() {
        if i == b.len() {
            Rank::Same
        } else {
            Rank::Before
        }
    } else if i == b.len() {
        Rank::After
    } else if a[i] < b[i] {
        Rank::Before
    } else {
        Rank::After
    }
}

/// The bytes by which a text is ordered: its UTF-8 encoding.
pub open spec fn text_key(text: Seq<char>) -> Seq<u8> {
    vstd::utf8::encode_utf8(text)
}

/// Compares two texts by their bytes.
pub fn rank_texts(a: &str, b: &str) -> (rank: Rank)
    ensures
        rank == rank_of(text_key(a@), text_key(b@)),
{
    rank_bytes(a.as_bytes(), b.as_bytes())
}

/// The characters of each text, in the same order.
pub open spec fn texts_of(texts: Seq<String>) -> Seq<Seq<char>> {
    Seq::new(texts.len(), |i: int| texts[i]@)
}

/// The decimal digit that stands for `d`, for `d` below ten.
pub open spec fn digit_char(d: int) -> char {
    if d == 0 {
        '0'
    } else if d == 1 {
        '1'
    } else if d == 2 {
        '2'
    } else if d == 3 {
        '3'
    } else if d == 4 {
        '4'
    } else if d == 5 {
        '5'
    } else if d == 6 {
        '6'
    } else if d == 7 {
        '7'
    } else if d == 8 {
        '8'
    } else {
        '9'
    }
}

/// The decimal numeral of `n`: no sign, no leading zero but for zero itself.
pub open spec fn decimal(n: nat) -> Seq<char>
    decreases n,
{
    if n < 10 {
        seq![digit_char(n as int)]
    } else {
        decimal(n / 10).push(digit_char((n % 10) as int))
    }
}

fn digit_text(d: u32) -> (text: &'static str)
    requires
        d < 10,
    ensures
        text@ == seq![digit_char(d as int)],
{
    proof {
        reveal_strlit("0");
        reveal_strlit("1");
        reveal_strlit("2");
        reveal_strlit("3");
        reveal_strlit("4");
        reveal_strlit("5");
        reveal_strlit("6");
        reveal_strlit("7");
        reveal_strlit("8");
        reveal_strlit("9");
    }
    if d == 0 {
        "0"
    } else if d == 1 {
        "1"
    } else if d == 2 {
        "2"
    } else if d == 3 {
        "3"
    } else if d == 4 {
        "4"
    } else if d == 5 {
        "5"
    } else if d == 6 {
        "6"
    } else if d == 7 {
        "7"
    } else if d == 8 {
        "8"
    } else {
        "9"
    }
}

/// Appends the decimal numeral of `n` to `out`.
pub fn append_decimal(out: &mut String, n: u32)
    ensures
        final(out)@ == old(out)@ + decimal(n as nat),
    decreases n,
{
    if n >= 10 {
        append_decimal(out, n / 10);
    }
    out.append(digit_text(n % 10));
}

/// The value of a decimal digit, and `None` for any other character.
pub open spec fn digit_of(c: char) -> Option<nat> {
    if c == '0' {
        Some(0)
    } else if c == '1' {
        Some(1)
    } else if c == '2' {
        Some(2)
    } else if c == '3' {
        Some(3)
    } else if c == '4' {
        Some(4)
    } else if c == '5' {
        Some(5)
    } else if c == '6' {
        Some(6)
    } else if c == '7' {
        Some(7)
    } else if c == '8' {
        Some(8)
    } else if c == '9' {
        Some(9)
    } else {
        None
    }
}

/// Whether every character of `s` is a decimal digit.
pub open spec fn all_digits(s: Seq<char>) -> bool {
    forall|i: int| 0 <= i < s.len() ==> (#[trigger] digit_of(s[i])) is Some
}

/// The number that a string of decimal digits writes, read from the left.
pub open spec fn digits_value(s: Seq<char>) -> nat
    decreases s.len(),
{
    if s.len() == 0 {
        0
    } else {
        digits_value(s.drop_last()) * 10 + match digit_of(s.last()) {
            Some(d) => d,
            None => 0,
        }
    }
}

/// What is left of a numeral once one leading plus sign is taken away.
pub open spec fn unsigned_part(s: Seq<char>) -> Seq<char> {
    if s.len() > 0 && s[0] == '+' {
        s.drop_first()
    } else {
        s
    }
}

/// The number that `s` writes, where `s` is a numeral of a 32-bit unsigned
/// integer: an optional plus sign, then one digit or more, with a value that
/// fits. Any other text writes no number.
pub open spec fn parsed_u32(s: Seq<char>) -> Option<u32> {
    let digits = unsigned_part(s);
    if digits.len() > 0 && all_digits(digits) && digits_value(digits) <= u32::MAX {
        Some(digits_value(digits) as u32)
    } else {
        None
    }
}

fn digit_value(c: char) -> (value: Option<u64>)
    ensures
        match value {
            Some(d) => digit_of(c) == Some(d as nat) && d < 10,
            None => digit_of(c) is None,
        },
{
    if c == '0' {
        Some(0)
    } else if c == '1' {
        Some(1)
    } else if c == '2' {
        Some(2)
    } else if c == '3' {
        Some(3)
    } else if c == '4' {
        Some(4)
    } else if c == '5' {
        Some(5)
    } else if c == '6' {
        Some(6)
    } else if c == '7' {
        Some(7)
    } else if c == '8' {
        Some(8)
    } else if c == '9' {
        Some(9)
    } else {
        None
    }
}

/// A string of digits writes at least what any of its prefixes writes.
proof fn lemma_digits_value_grows(s: Seq<char>, k: int)
    requires
        0 <= k <= s.len(),
    ensures
        digits_value(s.take(k)) <= digits_value(s),
    decreases s.len() - k,
{
    if k < s.len() {
        assert(s.take(k + 1).drop_last() =~= s.take(k));
        lemma_digits_value_grows(s, k + 1);
    } else {
        assert(s.take(k) =~= s);
    }
}

/// A digit stands for its own value.
proof fn lemma_digit_of_digit_char(d: int)
    requires
        0 <= d < 10,
    ensures
        digit_of(digit_char(d)) == Some(d as nat),
{
}

/// The numeral of `n` is made of digits and writes `n`.
pub proof fn lemma_decimal_writes(n: nat)
    ensures
        decimal(n).len() > 0,
        all_digits(decimal(n)),
        digits_value(decimal(n)) == n,
    decreases n,
{
    let numeral = decimal(n);
    if n < 10 {
        lemma_digit_of_digit_char(n as int);
        assert(numeral.drop_last() =~= Seq::<char>::empty());
        assert(digits_value(numeral.drop_last()) == 0);
    } else {
        lemma_decimal_writes(n / 10);
        lemma_digit_of_digit_char((n % 10) as int);
        assert(numeral.drop_last() =~= decimal(n / 10));
        assert forall|i: int| 0 <= i < numeral.len() implies (#[trigger] digit_of(
            numeral[i],
        )) is Some by {
            if i < numeral.len() - 1 {
                assert(numeral[i] == decimal(n / 10)[i]);
            }
        }
    }
}

/// To read the numeral that `append_decimal` writes gives the number back.
pub proof fn law_decimal_reads_back(n: u32)
    ensures
        parsed_u32(decimal(n as nat)) == Some(n),
{
    let numeral = decimal(n as nat);
    lemma_decimal_writes(n as nat);
    assert(digit_of(numeral[0]) is Some);
}

/// Reads a numeral of a 32-bit unsigned integer.
pub fn parse_u32(s: &str) -> (number: Option<u32>)
    ensures
        number == parsed_u32(s@),
{
    let mut value: u64 = 0;
    let mut first: bool = true;
    let mut any_digit: bool = false;
    let ghost digits = unsigned_part(s@);
    let ghost mut count: int = 0;
    for c in it: s.chars()
        invariant
            it.seq() == s@,
            digits == unsigned_part(s@),
            first <==> it.index() == 0,
            any_digit <==> count > 0,
            0 <= count <= it.index(),
            it.index() - count == s@.len() - digits.len() || (it.index() == 0 && count == 0),
            all_digits(digits.take(count)),
            value == digits_value(digits.take(count)),
            value <= u32::MAX,
    {
        if first && c == '+' {
            first = false;
        } else {
            first = false;
            match digit_value(c) {
                None => {
                    assert(digit_of(digits[count]) is None);
                    return None;
                },
                Some(d) => {
                    proof {
                        assert(digits.take(count + 1).drop_last() =~= digits.take(count));
                        lemma_digits_value_grows(digits, count + 1);
                        count = count + 1;
                    }
                    value = value * 10 + d;
                    any_digit = true;
                    if value > 0xffff_ffff {
                        return None;
                    }
                },
            }
        }
    }
    assert(digits.take(count) =~= digits);
    if any_digit {
        Some(value as u32)
    } else {
        None
    }
}

} // verus!
