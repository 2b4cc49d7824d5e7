//! Small operations on strings: their characters, the order in which strings
//! sort, splitting at commas, and decimal numerals.

use vstd::prelude::*;
use vstd::string::{StrSliceExecFns, StringSliceAdditionalSpecFns};
use vstd::utf8::encode_utf8;

verus! {

/// The characters of `s`, in order.
pub fn chars_of(s: &str) -> (out: Vec<char>)
    ensures
        out@ == s@,
{
    let mut out: Vec<char> = Vec::new();
    for c in it: s.chars()
        invariant
            out@ == it.seq().take(it.index()),
            it.seq() == s@,
    {
        out.push(c);
    }
    out
}

/// How one string stands to another in sorted order.
#[derive(Clone, Copy, Debug, PartialEq, Eq, Structural)]
pub enum Order {
    Before,
    Same,
    After,
}

/// `a` sorts strictly before `b`: at the first place where they differ `a`
/// has the smaller byte, or `a` ends there and `b` goes on.
pub open spec fn precedes(a: Seq<u8>, b: Seq<u8>) -> bool {
    exists|k: int| first_difference(a, b, k) && (k == a.len() || a[k] < b[k])
}

/// `a` and `b` agree on their first `k` bytes and differ at place `k`, where
/// at most `a` may have ended.
pub open spec fn first_difference(a: Seq<u8>, b: Seq<u8>, k: int) -> bool {
    &&& 0 <= k <= a.len()
    &&& k < b.len()
    &&& forall|i: int| 0 <= i < k ==> a[i] == b[i]
    &&& k < a.len() ==> a[k] != b[k]
}

/// The order of two strings is the order of their UTF-8 encodings, which is
/// the order `String` has in the standard library.
pub open spec fn sorts_before(a: Seq<char>, b: Seq<char>) -> bool {
    precedes(encode_utf8(a), encode_utf8(b))
}

/// No byte sequence sorts before itself.
pub proof fn lemma_precedes_irreflexive(a: Seq<u8>)
    ensures
        !precedes(a, a),
{
}

/// Sorting before is transitive.
pub proof fn lemma_precedes_transitive(a: Seq<u8>, b: Seq<u8>, c: Seq<u8>)
    requires
        precedes(a, b),
        precedes(b, c),
    ensures
        precedes(a, c),
{
    let k1 = choose|k: int| first_difference(a, b, k) && (k == a.len() || a[k] < b[k]);
    let k2 = choose|k: int| first_difference(b, c, k) && (k == b.len() || b[k] < c[k]);
    let k = if k1 <= k2 { k1 } else { k2 };
    assert(first_difference(a, c, k) && (k == a.len() || a[k] < c[k]));
}

/// Strings with the same UTF-8 encoding are the same string.
pub proof fn lemma_same_encoding(a: Seq<char>, b: Seq<char>)
    requires
        encode_utf8(a) == encode_utf8(b),
    ensures
        a == b,
{
    vstd::utf8::encode_utf8_decode_utf8(a);
    vstd::utf8::encode_utf8_decode_utf8(b);
}

/// Compares two byte slices in sorted order.
pub fn compare_bytes(a: &[u8], b: &[u8]) -> (order: Order)
    ensures
        order == Order::Before <==> precedes(a@, b@),
        order == Order::Same <==> a@ == b@,
        order == Order::After <==> precedes(b@, a@),
{
    let mut i: usize = 0;
    while i < a.len() && i < b.len()
        invariant
            i <= a.len(),
            i <= b.len(),
            forall|j: int| 0 <= j < i ==> a@[j] == b@[j],
        decreases a.len() - i,
    {
        if a[i] < b[i] {
            proof {
                assert(first_difference(a@, b@, i as int));
                lemma_precedes_asymmetric(a@, b@);
            }
            return Order::Before;
        }
        if a[i] > b[i] {
            proof {
                assert(first_difference(b@, a@, i as int));
                lemma_precedes_asymmetric(b@, a@);
            }
            return Order::After;
        }
        i += 1;
    }
    if i < b.len() {
        proof {
            assert(first_difference(a@, b@, i as int));
            lemma_precedes_asymmetric(a@, b@);
        }
        Order::Before
    } else if i < a.len() {
        proof {
            assert(first_difference(b@, a@, i as int));
            lemma_precedes_asymmetric(b@, a@);
        }
        Order::After
    } else {
        proof {
            assert(a@ =~= b@);
            lemma_precedes_irreflexive(a@);
        }
        Order::Same
    }
}

/// If `a` sorts before `b`, then they differ and `b` does not sort before `a`.
pub proof fn lemma_precedes_asymmetric(a: Seq<u8>, b: Seq<u8>)
    requires
        precedes(a, b),
    ensures
        a != b,
        !precedes(b, a),
{
    if precedes(b, a) {
        lemma_precedes_transitive(a, b, a);
        lemma_precedes_irreflexive(a);
    }
    lemma_precedes_irreflexive(a);
}

/// Compares two strings in sorted order.
pub fn compare(a: &str, b: &str) -> (order: Order)
    ensures
        order == Order::Before <==> sorts_before(a@, b@),
        order == Order::Same <==> a@ == b@,
        order == Order::After <==> sorts_before(b@, a@),
{
    let order = compare_bytes(a.as_bytes(), b.as_bytes());
    proof {
        if a.spec_bytes() == b.spec_bytes() {
            lemma_same_encoding(a@, b@);
        }
    }
    order
}

/// Whether two strings hold the same characters.
pub fn same_text(a: &str, b: &str) -> (same: bool)
    ensures
        same == (a@ == b@),
{
    match compare(a, b) {
        Order::Same => true,
        _ => false,
    }
}

/// The pieces put together again, with `sep` between each two.
pub open spec fn joined(pieces: Seq<Seq<char>>, sep: char) -> Seq<char>
    decreases pieces.len(),
{
    if pieces.len() == 0 {
        Seq::empty()
    } else if pieces.len() == 1 {
        pieces[0]
    } else {
        joined(pieces.drop_last(), sep) + seq![sep] + pieces.last()
    }
}

/// What stands before a further piece: nothing, or the pieces so far and `sep`.
pub open spec fn opened(pieces: Seq<Seq<char>>, sep: char) -> Seq<char> {
    if pieces.len() == 0 {
        Seq::empty()
    } else {
        joined(pieces, sep) + seq![sep]
    }
}

/// `sep` does not occur in `piece`.
pub open spec fn free_of(piece: Seq<char>, sep: char) -> bool {
    forall|i: int| 0 <= i < piece.len() ==> piece[i] != sep
}

/// The characters of each string of a list.
pub open spec fn texts(strings: Seq<String>) -> Seq<Seq<char>> {
    strings.map_values(|s: String| s@)
}

/// The parts of `text` between the occurrences of `sep`: one more than
/// there are occurrences, empty where two of them meet or `text` ends.
pub fn split(text: &str, sep: char) -> (pieces: Vec<String>)
    ensures
        pieces.len() >= 1,
        joined(texts(pieces@), sep) == text@,
        forall|i: int| 0 <= i < pieces.len() ==> free_of(#[trigger] pieces[i]@, sep),
{
    let chars = chars_of(text);
    let mut pieces: Vec<String> = Vec::new();
    let mut start: usize = 0;
    let mut i: usize = 0;
    while i < chars.len()
        invariant
            start <= i <= chars.len(),
            chars@ == text@,
            opened(texts(pieces@), sep) == chars@.take(start as int),
            forall|j: int| 0 <= j < pieces.len() ==> free_of(#[trigger] pieces[j]@, sep),
            forall|j: int| start <= j < i ==> chars@[j] != sep,
        decreases chars.len() - i,
    {
        if chars[i] == sep {
            let piece = text.substring_char(start, i).to_owned();
            proof {
                let before = texts(pieces@);
                let after = texts(pieces@.push(piece));
                assert(after.drop_last() =~= before);
            }
            pieces.push(piece);
            start = i + 1;
        }
        i += 1;
    }
    let piece = text.substring_char(start, chars.len()).to_owned();
    proof {
        let before = texts(pieces@);
        let after = texts(pieces@.push(piece));
        assert(after.drop_last() =~= before);
    }
    pieces.push(piece);
    pieces
}

/// `b` is one of the digits `0` to `9` in ASCII.
pub open spec fn is_digit(b: u8) -> bool {
    48 <= b <= 57
}

/// Every byte is a digit.
pub open spec fn all_digits(s: Seq<u8>) -> bool {
    forall|i: int| 0 <= i < s.len() ==> is_digit(#[trigger] s[i])
}

/// The number that the digits write in base ten.
pub open spec fn digits_value(s: Seq<u8>) -> nat
    decreases s.len(),
{
    if s.len() == 0 {
        0
    } else {
        digits_value(s.drop_last()) * 10 + (s.last() - 48) as nat
    }
}

/// The number that `s` writes: one digit or more, with or without a plus
/// sign before them, and nothing else.
pub open spec fn unsigned_value(s: Seq<u8>) -> Option<nat> {
    let digits = if s.len() > 0 && s[0] == 43 {
        s.drop_first()
    } else {
        s
    };
    if digits.len() > 0 && all_digits(digits) {
        Some(digits_value(digits))
    } else {
        None
    }
}

/// Further digits do not make a number smaller.
proof fn lemma_digits_grow(s: Seq<u8>, k: int)
    requires
        0 <= k <= s.len(),
        all_digits(s),
    ensures
        digits_value(s.take(k)) <= digits_value(s),
    decreases s.len() - k,
{
    if k < s.len() {
        lemma_digits_grow(s, k + 1);
        assert(s.take(k + 1).drop_last() =~= s.take(k));
    } else {
        assert(s.take(k) =~= s);
    }
}

/// Reads a number as `unsigned_value` says, if it is small enough to be held.
pub fn parse_unsigned(s: &[u8]) -> (value: Option<usize>)
    ensures
        value == match unsigned_value(s@) {
            Some(n) => if n <= usize::MAX {
                Some(n as usize)
            } else {
                None
            },
            None => None,
        },
{
    let start: usize = if s.len() > 0 && s[0] == 43 { 1 } else { 0 };
    let ghost digits = s@.subrange(start as int, s.len() as int);
    assert(start == 0 ==> digits =~= s@);
    if start >= s.len() {
        return None;
    }
    let mut value: usize = 0;
    let mut i: usize = start;
    while i < s.len()
        invariant
            start <= i <= s.len(),
            digits == s@.subrange(start as int, s.len() as int),
            unsigned_value(s@) == if all_digits(digits) {
                Some(digits_value(digits))
            } else {
                None
            },
            all_digits(digits.take(i - start)),
            value == digits_value(digits.take(i - start)),
        decreases s.len() - i,
    {
        let b = s[i];
        if b < 48 || b > 57 {
            assert(!is_digit(digits[i - start]));
            return None;
        }
        proof {
            assert(digits.take(i + 1 - start).drop_last() =~= digits.take(i - start));
            assert forall|j: int| 0 <= j < i + 1 - start implies is_digit(
                #[trigger] digits.take(i + 1 - start)[j],
            ) by {}
        }
        let next = match value.checked_mul(10) {
            Some(tens) => tens.checked_add((b - 48) as usize),
            None => None,
        };
        match next {
            Some(n) => {
                value = n;
            },
            None => {
                proof {
                    if all_digits(digits) {
                        lemma_digits_grow(digits, i + 1 - start);
                    }
                }
                return None;
            },
        }
        i += 1;
    }
    assert(digits.take(i - start) =~= digits);
    Some(value)
}

/// The digits of `n` in base ten, without leading zeros.
pub open spec fn decimal_digits(n: nat) -> Seq<u8>
    decreases n,
{
    if n < 10 {
        seq![(48 + n) as u8]
    } else {
        decimal_digits(n / 10).push((48 + n % 10) as u8)
    }
}

/// The numeral of `n` in base ten.
pub open spec fn decimal(n: nat) -> Seq<char> {
    decimal_digits(n).map_values(|b: u8| b as char)
}

/// A numeral is read back as the number it was written for.
pub proof fn lemma_decimal_round_trip(n: nat)
    ensures
        decimal_digits(n).len() > 0,
        all_digits(decimal_digits(n)),
        decimal_digits(n)[0] != 43,
        digits_value(decimal_digits(n)) == n,
        unsigned_value(decimal_digits(n)) == Some(n),
    decreases n,
{
    if n < 10 {
        let s = decimal_digits(n);
        assert(digits_value(s.drop_last()) == 0);
    } else {
        lemma_decimal_round_trip(n / 10);
        let s = decimal_digits(n);
        assert(s.drop_last() =~= decimal_digits(n / 10));
    }
}

/// One digit as text.
fn digit_text(digit: u64) -> (text: &'static str)
    requires
        digit < 10,
    ensures
        text@ == seq![(48 + digit) as u8 as char],
{
    proof {
        reveal_strlit("0");
        reveal_strlit("1");
        reveal_strlit("2");
        reveal_strlit("3");
        reveal_strlit("4");
        reveal_strlit("5");
        reveal_strlit("6");
        reveal_strlit("7");
        reveal_strlit("8");
        reveal_strlit("9");
    }
    let text = match digit {
        0 => "0",
        1 => "1",
        2 => "2",
        3 => "3",
        4 => "4",
        5 => "5",
        6 => "6",
        7 => "7",
        8 => "8",
        _ => "9",
    };
    text
}

/// Writes `n` in base ten.
pub fn decimal_text(n: u64) -> (text: String)
    ensures
        text@ == decimal(n as nat),
    decreases n,
{
    if n < 10 {
        let text = digit_text(n).to_owned();
        text
    } else {
        let mut text = decimal_text(n / 10);
        text.append(digit_text(n % 10));
        text
    }
}

/// `pattern` stands in `text` at place `at`.
pub open spec fn occurs_at(text: Seq<char>, pattern: Seq<char>, at: int) -> bool {
    0 <= at && at + pattern.len() <= text.len() && text.subrange(at, at + pattern.len()) == pattern
}

/// `text` up to the first place where `pattern` stands in it is `head`; all
/// of `text` where `pattern` does not stand in it.
pub open spec fn is_head(text: Seq<char>, pattern: Seq<char>, head: Seq<char>) -> bool {
    &&& head.len() <= text.len()
    &&& head == text.take(head.len() as int)
    &&& forall|at: int| 0 <= at < head.len() ==> !occurs_at(text, pattern, at)
    &&& head.len() < text.len() ==> occurs_at(text, pattern, head.len() as int)
}

/// The part of `text` before the first occurrence of `pattern`.
pub open spec fn head(text: Seq<char>, pattern: Seq<char>) -> Seq<char> {
    choose|head: Seq<char>| is_head(text, pattern, head)
}

/// There is one such part only.
pub proof fn lemma_one_head(text: Seq<char>, pattern: Seq<char>, found: Seq<char>)
    requires
        is_head(text, pattern, found),
    ensures
        head(text, pattern) == found,
{
    let other = head(text, pattern);
    if other.len() < found.len() {
        assert(occurs_at(text, pattern, other.len() as int));
    } else if found.len() < other.len() {
        assert(occurs_at(text, pattern, found.len() as int));
    }
}

/// The part of `text` before the first occurrence of `pattern`.
pub fn head_before(text: &str, pattern: &str) -> (found: String)
    ensures
        is_head(text@, pattern@, found@),
        found@ == head(text@, pattern@),
{
    let chars = chars_of(text);
    let wanted = chars_of(pattern);
    let n = chars.len();
    let m = wanted.len();
    let mut at: usize = 0;
    while at < n
        invariant
            at <= n,
            n == chars.len(),
            m == wanted.len(),
            chars@ == text@,
            wanted@ == pattern@,
            forall|k: int| 0 <= k < at ==> !occurs_at(text@, pattern@, k),
        decreases n - at,
    {
        if m <= n - at {
            let mut j: usize = 0;
            while j < m && chars[at + j] == wanted[j]
                invariant
                    j <= m,
                    m <= n - at,
                    n == chars.len(),
                    m == wanted.len(),
                    forall|k: int| 0 <= k < j ==> chars@[at + k] == wanted@[k],
                decreases m - j,
            {
                j += 1;
            }
            if j == m {
                assert(text@.subrange(at as int, at + m) =~= pattern@);
                let found = text.substring_char(0, at).to_owned();
                proof {
                    lemma_one_head(text@, pattern@, found@);
                }
                return found;
            }
            assert(!occurs_at(text@, pattern@, at as int)) by {
                if occurs_at(text@, pattern@, at as int) {
                    assert(text@.subrange(at as int, at + m)[j as int] == pattern@[j as int]);
                }
            }
        }
        at += 1;
    }
    let found = text.substring_char(0, n).to_owned();
    proof {
        lemma_one_head(text@, pattern@, found@);
    }
    found
}

} // verus!
