//! Numerals: digits, integers and byte words in hexadecimal, decimal and binary.
use crate::error::{
    bytes_outcome, integer_outcome, AnonymousEvaluationError, ErrorKind, Fault,
};
use crate::text::{char_string, chars_of, slice_chars, string_from_chars};
use vstd::arithmetic::power2::{lemma2_to64, pow2};
use vstd::prelude::*;

verus! {

pub open spec fn is_hex_digit(c: char) -> bool {
    ('0' <= c && c <= '9') || ('A' <= c && c <= 'F') || ('a' <= c && c <= 'f')
}

pub open spec fn hex_digit_value(c: char) -> nat {
    if '0' <= c && c <= '9' {
        (c as u32 - '0' as u32) as nat
    } else if 'A' <= c && c <= 'F' {
        (c as u32 - 'A' as u32 + 10) as nat
    } else {
        (c as u32 - 'a' as u32 + 10) as nat
    }
}

pub open spec fn is_binary_digit(c: char) -> bool {
    c == '0' || c == '1'
}

pub open spec fn binary_digit_value(c: char) -> nat {
    if c == '1' {
        1
    } else {
        0
    }
}

pub open spec fn is_decimal_digit(c: char) -> bool {
    '0' <= c && c <= '9'
}

pub open spec fn all_hex(s: Seq<char>) -> bool {
    forall|i: int| 0 <= i < s.len() ==> is_hex_digit(#[trigger] s[i])
}

pub open spec fn all_binary(s: Seq<char>) -> bool {
    forall|i: int| 0 <= i < s.len() ==> is_binary_digit(#[trigger] s[i])
}

pub open spec fn all_decimal(s: Seq<char>) -> bool {
    forall|i: int| 0 <= i < s.len() ==> is_decimal_digit(#[trigger] s[i])
}

/// The value of a word of hexadecimal digits, most significant first.
pub open spec fn hex_value(s: Seq<char>) -> nat
    decreases s.len(),
{
    if s.len() == 0 {
        0
    } else {
        hex_value(s.drop_last()) * 16 + hex_digit_value(s.last())
    }
}

/// The value of a word of binary digits, most significant first.
pub open spec fn binary_value(s: Seq<char>) -> nat
    decreases s.len(),
{
    if s.len() == 0 {
        0
    } else {
        binary_value(s.drop_last()) * 2 + binary_digit_value(s.last())
    }
}

/// The value of a word of decimal digits, most significant first.
pub open spec fn decimal_value(s: Seq<char>) -> nat
    decreases s.len(),
{
    if s.len() == 0 {
        0
    } else {
        decimal_value(s.drop_last()) * 10 + (s.last() as u32 - '0' as u32) as nat
    }
}

/// The bytes of a hexadecimal word of even length: one for each pair of digits.
pub open spec fn hex_pairs(s: Seq<char>) -> Seq<u8> {
    Seq::new(
        s.len() / 2,
        |i: int| (hex_digit_value(s[2 * i]) * 16 + hex_digit_value(s[2 * i + 1])) as u8,
    )
}

/// The bytes of a binary word whose length is a multiple of eight.
pub open spec fn binary_octets(s: Seq<char>) -> Seq<u8> {
    Seq::new(s.len() / 8, |i: int| binary_value(s.subrange(8 * i, 8 * i + 8)) as u8)
}

/// The shortest big-endian bytes of `n` (none for zero).
pub open spec fn be_bytes(n: nat) -> Seq<u8>
    decreases n,
{
    if n == 0 {
        Seq::empty()
    } else {
        be_bytes(n / 256).push((n % 256) as u8)
    }
}

/// `count` zero digits.
pub open spec fn zeros(count: nat) -> Seq<char> {
    Seq::new(count, |i: int| '0')
}

/// A hexadecimal word as an integer of the machine word.
pub open spec fn hex_integer(s: Seq<char>) -> Result<nat, Fault> {
    if !all_hex(s) {
        Err(Fault::InvalidHexDigit(s))
    } else if hex_value(s) > usize::MAX {
        Err(Fault::NumberTooLarge(s))
    } else {
        Ok(hex_value(s))
    }
}

/// A binary word as an integer of the machine word.
pub open spec fn binary_integer(s: Seq<char>) -> Result<nat, Fault> {
    if !all_binary(s) {
        Err(Fault::InvalidBinaryDigit(s))
    } else if binary_value(s) > usize::MAX {
        Err(Fault::NumberTooLarge(s))
    } else {
        Ok(binary_value(s))
    }
}

/// The digits of a decimal literal, after an optional leading `+`.
pub open spec fn unsigned_digits(s: Seq<char>) -> Seq<char> {
    if s.len() > 0 && s[0] == '+' {
        s.drop_first()
    } else {
        s
    }
}

/// A decimal literal as std reads an unsigned integer: an optional `+`,
/// then one or more decimal digits, of a value that fits the machine word.
pub open spec fn decimal_integer(s: Seq<char>) -> Result<nat, Fault> {
    let d = unsigned_digits(s);
    if d.len() == 0 || !all_decimal(d) {
        Err(Fault::InvalidDecimal(s))
    } else if decimal_value(d) > usize::MAX {
        Err(Fault::DecimalTooLarge(s))
    } else {
        Ok(decimal_value(d))
    }
}

/// The bytes of a hexadecimal word. An odd length is an error when `strict`,
/// and otherwise reads as if a `0` stood in front.
pub open spec fn hex_bytes(s: Seq<char>, strict: bool) -> Result<Seq<u8>, Fault> {
    if s.len() % 2 != 0 && strict {
        Err(Fault::OddHexLength(s))
    } else {
        let t = if s.len() % 2 != 0 {
            seq!['0'] + s
        } else {
            s
        };
        if !all_hex(t) {
            Err(Fault::InvalidHexDigit(s))
        } else {
            Ok(hex_pairs(t))
        }
    }
}

/// The bytes of a decimal literal: its value in the fewest big-endian bytes.
pub open spec fn decimal_bytes(s: Seq<char>) -> Result<Seq<u8>, Fault> {
    match decimal_integer(s) {
        Ok(n) => Ok(be_bytes(n)),
        Err(f) => Err(f),
    }
}

/// The bytes of a binary word. A length that is not a multiple of eight is an
/// error when `strict`, and otherwise reads as if zeros stood in front.
pub open spec fn binary_bytes(s: Seq<char>, strict: bool) -> Result<Seq<u8>, Fault> {
    if s.len() % 8 != 0 && strict {
        Err(Fault::BinaryLength(s))
    } else {
        let t = if s.len() % 8 != 0 {
            zeros((8 - s.len() % 8) as nat) + s
        } else {
            s
        };
        if !all_binary(t) {
            Err(Fault::InvalidBinaryDigit(s))
        } else {
            Ok(binary_octets(t))
        }
    }
}

pub open spec fn has_prefix(s: Seq<char>, a: char, b: char) -> bool {
    s.len() >= 2 && s[0] == a && s[1] == b
}

/// The bytes of a number literal, by its prefix: `0x` hexadecimal, `0d`
/// decimal, `0b` binary, none hexadecimal.
#[verifier::opaque]
pub open spec fn number_bytes(s: Seq<char>, strict: bool) -> Result<Seq<u8>, Fault> {
    if has_prefix(s, '0', 'x') {
        hex_bytes(s.skip(2), strict)
    } else if has_prefix(s, '0', 'd') {
        decimal_bytes(s.skip(2))
    } else if has_prefix(s, '0', 'b') {
        binary_bytes(s.skip(2), strict)
    } else {
        hex_bytes(s, strict)
    }
}

/// The integer of a number literal, by its prefix as for [`number_bytes`].
#[verifier::opaque]
pub open spec fn number_integer(s: Seq<char>) -> Result<nat, Fault> {
    if has_prefix(s, '0', 'x') {
        hex_integer(s.skip(2))
    } else if has_prefix(s, '0', 'd') {
        decimal_integer(s.skip(2))
    } else if has_prefix(s, '0', 'b') {
        binary_integer(s.skip(2))
    } else {
        hex_integer(s)
    }
}

proof fn lemma_hex_value_prefix(s: Seq<char>, i: int)
    requires
        0 <= i <= s.len(),
    ensures
        hex_value(s.subrange(0, i)) <= hex_value(s),
    decreases s.len(),
{
    if i < s.len() {
        assert(s.drop_last() =~= s.subrange(0, s.len() - 1));
        lemma_hex_value_prefix(s.drop_last(), i);
        assert(s.drop_last().subrange(0, i) =~= s.subrange(0, i));
    } else {
        assert(s.subrange(0, i) =~= s);
    }
}

proof fn lemma_binary_value_prefix(s: Seq<char>, i: int)
    requires
        0 <= i <= s.len(),
    ensures
        binary_value(s.subrange(0, i)) <= binary_value(s),
    decreases s.len(),
{
    if i < s.len() {
        lemma_binary_value_prefix(s.drop_last(), i);
        assert(s.drop_last().subrange(0, i) =~= s.subrange(0, i));
    } else {
        assert(s.subrange(0, i) =~= s);
    }
}

proof fn lemma_decimal_value_prefix(s: Seq<char>, i: int)
    requires
        0 <= i <= s.len(),
    ensures
        decimal_value(s.subrange(0, i)) <= decimal_value(s),
    decreases s.len(),
{
    if i < s.len() {
        lemma_decimal_value_prefix(s.drop_last(), i);
        assert(s.drop_last().subrange(0, i) =~= s.subrange(0, i));
    } else {
        assert(s.subrange(0, i) =~= s);
    }
}

proof fn lemma_binary_value_bound(s: Seq<char>)
    ensures
        binary_value(s) < pow2(s.len()),
    decreases s.len(),
{
    if s.len() > 0 {
        lemma_binary_value_bound(s.drop_last());
        vstd::arithmetic::power2::lemma_pow2_unfold(s.len());
    } else {
        lemma2_to64();
    }
}

pub fn byte_from_hexadecimal_digit(digit: char) -> (r: Result<u8, AnonymousEvaluationError>)
    ensures
        is_hex_digit(digit) ==> r == Ok::<u8, AnonymousEvaluationError>(
            hex_digit_value(digit) as u8,
        ),
        !is_hex_digit(digit) ==> (r matches Err(e) && e@ == Fault::InvalidHexDigit(seq![digit])),
        r matches Ok(v) ==> v < 16,
{
    if '0' <= digit && digit <= '9' {
        Ok((digit as u32 - '0' as u32) as u8)
    } else if 'A' <= digit && digit <= 'F' {
        Ok((digit as u32 - 'A' as u32 + 10) as u8)
    } else if 'a' <= digit && digit <= 'f' {
        Ok((digit as u32 - 'a' as u32 + 10) as u8)
    } else {
        Err(AnonymousEvaluationError::new(ErrorKind::InvalidHexDigit(char_string(digit))))
    }
}

pub fn byte_from_binary_digit(digit: char) -> (r: Result<u8, AnonymousEvaluationError>)
    ensures
        is_binary_digit(digit) ==> r == Ok::<u8, AnonymousEvaluationError>(
            binary_digit_value(digit) as u8,
        ),
        !is_binary_digit(digit) ==> (r matches Err(e) && e@ == Fault::InvalidBinaryDigit(seq![digit])),
{
    if digit == '0' {
        Ok(0)
    } else if digit == '1' {
        Ok(1)
    } else {
        Err(AnonymousEvaluationError::new(ErrorKind::InvalidBinaryDigit(char_string(digit))))
    }
}

fn check_all_hex(s: &Vec<char>) -> (r: bool)
    ensures
        r == all_hex(s@),
{
    let mut i: usize = 0;
    while i < s.len()
        invariant
            i <= s@.len(),
            forall|j: int| 0 <= j < i ==> is_hex_digit(#[trigger] s@[j]),
        decreases s@.len() - i,
    {
        if byte_from_hexadecimal_digit(s[i]).is_err() {
            return false;
        }
        i += 1;
    }
    true
}

fn check_all_binary(s: &Vec<char>) -> (r: bool)
    ensures
        r == all_binary(s@),
{
    let mut i: usize = 0;
    while i < s.len()
        invariant
            i <= s@.len(),
            forall|j: int| 0 <= j < i ==> is_binary_digit(#[trigger] s@[j]),
        decreases s@.len() - i,
    {
        if byte_from_binary_digit(s[i]).is_err() {
            return false;
        }
        i += 1;
    }
    true
}

/// The integer of a hexadecimal word given as characters.
fn hex_integer_of(s: &Vec<char>) -> (r: Result<usize, AnonymousEvaluationError>)
    ensures
        integer_outcome(r) == hex_integer(s@),
{
    if !check_all_hex(s) {
        return Err(AnonymousEvaluationError::new(ErrorKind::InvalidHexDigit(string_from_chars(s))));
    }
    let mut result: usize = 0;
    let mut i: usize = 0;
    while i < s.len()
        invariant
            i <= s@.len(),
            all_hex(s@),
            result as nat == hex_value(s@.subrange(0, i as int)),
        decreases s@.len() - i,
    {
        let d = byte_from_hexadecimal_digit(s[i]).unwrap();
        proof {
            assert(s@.subrange(0, i + 1).drop_last() =~= s@.subrange(0, i as int));
        }
        let next = match result.checked_mul(16) {
            Some(m) => m.checked_add(d as usize),
            None => None,
        };
        match next {
            Some(n) => {
                result = n;
            },
            None => {
                proof {
                    lemma_hex_value_prefix(s@, i + 1);
                }
                return Err(AnonymousEvaluationError::new(ErrorKind::NumberTooLarge(string_from_chars(s))));
            },
        }
        i += 1;
    }
    assert(s@.subrange(0, s@.len() as int) =~= s@);
    Ok(result)
}

/// The integer of a binary word given as characters.
fn binary_integer_of(s: &Vec<char>) -> (r: Result<usize, AnonymousEvaluationError>)
    ensures
        integer_outcome(r) == binary_integer(s@),
{
    if !check_all_binary(s) {
        return Err(AnonymousEvaluationError::new(ErrorKind::InvalidBinaryDigit(string_from_chars(s))));
    }
    let mut result: usize = 0;
    let mut i: usize = 0;
    while i < s.len()
        invariant
            i <= s@.len(),
            all_binary(s@),
            result as nat == binary_value(s@.subrange(0, i as int)),
        decreases s@.len() - i,
    {
        let d = byte_from_binary_digit(s[i]).unwrap();
        proof {
            assert(s@.subrange(0, i + 1).drop_last() =~= s@.subrange(0, i as int));
        }
        let next = match result.checked_mul(2) {
            Some(m) => m.checked_add(d as usize),
            None => None,
        };
        match next {
            Some(n) => {
                result = n;
            },
            None => {
                proof {
                    lemma_binary_value_prefix(s@, i + 1);
                }
                return Err(AnonymousEvaluationError::new(ErrorKind::NumberTooLarge(string_from_chars(s))));
            },
        }
        i += 1;
    }
    assert(s@.subrange(0, s@.len() as int) =~= s@);
    Ok(result)
}

/// The integer of a decimal literal given as characters.
fn decimal_integer_of(s: &Vec<char>) -> (r: Result<usize, AnonymousEvaluationError>)
    ensures
        integer_outcome(r) == decimal_integer(s@),
{
    let start: usize = if s.len() > 0 && s[0] == '+' {
        1
    } else {
        0
    };
    let ghost d = unsigned_digits(s@);
    assert(d =~= s@.subrange(start as int, s@.len() as int));
    if start == s.len() {
        return Err(AnonymousEvaluationError::new(ErrorKind::InvalidDecimal(string_from_chars(s))));
    }
    let mut k: usize = start;
    while k < s.len()
        invariant
            start <= k <= s@.len(),
            d == unsigned_digits(s@),
            d =~= s@.subrange(start as int, s@.len() as int),
            forall|j: int| 0 <= j < k - start ==> is_decimal_digit(#[trigger] d[j]),
        decreases s@.len() - k,
    {
        if !('0' <= s[k] && s[k] <= '9') {
            assert(d[k - start] == s@[k as int]);
            return Err(AnonymousEvaluationError::new(ErrorKind::InvalidDecimal(string_from_chars(s))));
        }
        k += 1;
    }
    let mut result: usize = 0;
    let mut i: usize = start;
    while i < s.len()
        invariant
            start <= i <= s@.len(),
            d == unsigned_digits(s@),
            d =~= s@.subrange(start as int, s@.len() as int),
            all_decimal(d),
            result as nat == decimal_value(d.subrange(0, i - start)),
        decreases s@.len() - i,
    {
        let c = s[i];
        assert(is_decimal_digit(d[i - start]));
        let v = (c as u32 - '0' as u32) as usize;
        proof {
            assert(d[i - start] == c);
            assert(d.subrange(0, i - start + 1).last() == c);
            assert(d.subrange(0, i - start + 1).drop_last() =~= d.subrange(0, i - start));
        }
        let next = match result.checked_mul(10) {
            Some(m) => m.checked_add(v),
            None => None,
        };
        match next {
            Some(n) => {
                result = n;
            },
            None => {
                proof {
                    lemma_decimal_value_prefix(d, i - start + 1);
                }
                return Err(AnonymousEvaluationError::new(ErrorKind::DecimalTooLarge(string_from_chars(s))));
            },
        }
        i += 1;
    }
    assert(d.subrange(0, d.len() as int) =~= d);
    Ok(result)
}

/// The bytes of a hexadecimal word of even length made of hexadecimal digits.
fn hex_pairs_of(t: &Vec<char>) -> (r: Vec<u8>)
    requires
        t@.len() % 2 == 0,
        all_hex(t@),
    ensures
        r@ == hex_pairs(t@),
{
    let mut result: Vec<u8> = Vec::new();
    let mut i: usize = 0;
    let len = t.len();
    let n = len / 2;
    while i < n
        invariant
            len == t@.len(),
            n == t@.len() / 2,
            t@.len() % 2 == 0,
            all_hex(t@),
            i <= n,
            result@ =~= hex_pairs(t@).subrange(0, i as int),
        decreases n - i,
    {
        assert(2 * i + 2 <= t@.len());
        let high = byte_from_hexadecimal_digit(t[2 * i]).unwrap();
        let low = byte_from_hexadecimal_digit(t[2 * i + 1]).unwrap();
        result.push(high * 16 + low);
        i += 1;
        assert(result@ =~= hex_pairs(t@).subrange(0, i as int));
    }
    result
}

/// The bytes of a binary word whose length is a multiple of eight, made of
/// binary digits.
fn binary_octets_of(t: &Vec<char>) -> (r: Vec<u8>)
    requires
        t@.len() % 8 == 0,
        all_binary(t@),
    ensures
        r@ == binary_octets(t@),
{
    let mut result: Vec<u8> = Vec::new();
    let mut i: usize = 0;
    let len = t.len();
    let n = len / 8;
    while i < n
        invariant
            len == t@.len(),
            n == t@.len() / 8,
            t@.len() % 8 == 0,
            all_binary(t@),
            i <= n,
            result@ =~= binary_octets(t@).subrange(0, i as int),
        decreases n - i,
    {
        let mut byte: u32 = 0;
        let mut j: usize = 0;
        let ghost base = 8 * i;
        while j < 8
            invariant
                i < n,
                len == t@.len(),
                n == t@.len() / 8,
                base == 8 * i,
                all_binary(t@),
                j <= 8,
                byte as nat == binary_value(t@.subrange(base as int, base + j)),
            decreases 8 - j,
        {
            assert(8 * i + 8 <= t@.len());
            let bit = byte_from_binary_digit(t[8 * i + j]).unwrap();
            proof {
                assert(t@.subrange(base as int, base + j + 1).drop_last() =~= t@.subrange(
                    base as int,
                    base + j,
                ));
                lemma_binary_value_bound(t@.subrange(base as int, base + j));
                lemma2_to64();
                vstd::arithmetic::power2::lemma_pow2_strictly_increases(j as nat, 8);
            }
            byte = byte * 2 + bit as u32;
            j += 1;
        }
        proof {
            lemma_binary_value_bound(t@.subrange(base as int, base + 8));
            lemma2_to64();
        }
        result.push(byte as u8);
        i += 1;
        assert(result@ =~= binary_octets(t@).subrange(0, i as int));
    }
    result
}

fn hex_bytes_of(s: &Vec<char>, strict: bool) -> (r: Result<Vec<u8>, AnonymousEvaluationError>)
    ensures
        bytes_outcome(r) == hex_bytes(s@, strict),
{
    if s.len() % 2 != 0 && strict {
        return Err(AnonymousEvaluationError::new(ErrorKind::OddHexLength(string_from_chars(s))));
    }
    let mut t: Vec<char> = Vec::new();
    if s.len() % 2 != 0 {
        t.push('0');
    }
    let mut i: usize = 0;
    let ghost pre = t@;
    while i < s.len()
        invariant
            i <= s@.len(),
            t@ == pre + s@.subrange(0, i as int),
        decreases s@.len() - i,
    {
        t.push(s[i]);
        i += 1;
        assert(t@ =~= pre + s@.subrange(0, i as int));
    }
    assert(s@.subrange(0, s@.len() as int) =~= s@);
    if s.len() % 2 != 0 {
        assert(pre =~= seq!['0']);
    } else {
        assert(t@ =~= s@);
    }
    if !check_all_hex(&t) {
        return Err(AnonymousEvaluationError::new(ErrorKind::InvalidHexDigit(string_from_chars(s))));
    }
    Ok(hex_pairs_of(&t))
}

fn binary_bytes_of(s: &Vec<char>, strict: bool) -> (r: Result<Vec<u8>, AnonymousEvaluationError>)
    ensures
        bytes_outcome(r) == binary_bytes(s@, strict),
{
    if s.len() % 8 != 0 && strict {
        return Err(AnonymousEvaluationError::new(ErrorKind::BinaryLength(string_from_chars(s))));
    }
    let mut t: Vec<char> = Vec::new();
    if s.len() % 8 != 0 {
        let pad = 8 - s.len() % 8;
        let mut k: usize = 0;
        while k < pad
            invariant
                k <= pad,
                t@ =~= zeros(k as nat),
            decreases pad - k,
        {
            t.push('0');
            k += 1;
            assert(t@ =~= zeros(k as nat));
        }
    }
    let mut i: usize = 0;
    let ghost pre = t@;
    while i < s.len()
        invariant
            i <= s@.len(),
            t@ == pre + s@.subrange(0, i as int),
        decreases s@.len() - i,
    {
        t.push(s[i]);
        i += 1;
        assert(t@ =~= pre + s@.subrange(0, i as int));
    }
    assert(s@.subrange(0, s@.len() as int) =~= s@);
    if s.len() % 8 == 0 {
        assert(t@ =~= s@);
    }
    if !check_all_binary(&t) {
        return Err(AnonymousEvaluationError::new(ErrorKind::InvalidBinaryDigit(string_from_chars(s))));
    }
    Ok(binary_octets_of(&t))
}

/// The shortest big-endian bytes of `n`.
fn be_bytes_of(n: usize) -> (r: Vec<u8>)
    ensures
        r@ == be_bytes(n as nat),
{
    let mut result: Vec<u8> = Vec::new();
    let mut work: usize = n;
    while work > 0
        invariant
            be_bytes(n as nat) == be_bytes(work as nat) + result@,
        decreases work,
    {
        let ghost old_result = result@;
        result.insert(0, (work % 256) as u8);
        proof {
            assert(be_bytes(work as nat) == be_bytes((work / 256) as nat).push(
                (work % 256) as u8,
            ));
            assert(be_bytes((work / 256) as nat).push((work % 256) as u8) + old_result
                =~= be_bytes((work / 256) as nat) + result@);
        }
        work = work / 256;
    }
    assert(be_bytes(0) + result@ =~= result@);
    result
}

fn decimal_bytes_of(s: &Vec<char>) -> (r: Result<Vec<u8>, AnonymousEvaluationError>)
    ensures
        bytes_outcome(r) == decimal_bytes(s@),
{
    match decimal_integer_of(s) {
        Ok(n) => Ok(be_bytes_of(n)),
        Err(e) => Err(e),
    }
}

fn starts_with_pair(s: &Vec<char>, a: char, b: char) -> (r: bool)
    ensures
        r == has_prefix(s@, a, b),
{
    s.len() >= 2 && s[0] == a && s[1] == b
}

/// The bytes of a number literal given as characters.
pub fn number_bytes_of(s: &Vec<char>, strict: bool) -> (r: Result<
    Vec<u8>,
    AnonymousEvaluationError,
>)
    ensures
        bytes_outcome(r) == number_bytes(s@, strict),
{
    reveal(number_bytes);
    if starts_with_pair(s, '0', 'x') {
        hex_bytes_of(&slice_chars(s, 2, s.len()), strict)
    } else if starts_with_pair(s, '0', 'd') {
        decimal_bytes_of(&slice_chars(s, 2, s.len()))
    } else if starts_with_pair(s, '0', 'b') {
        binary_bytes_of(&slice_chars(s, 2, s.len()), strict)
    } else {
        hex_bytes_of(s, strict)
    }
}

/// The integer of a number literal given as characters.
pub fn number_integer_of(s: &Vec<char>) -> (r: Result<usize, AnonymousEvaluationError>)
    ensures
        integer_outcome(r) == number_integer(s@),
{
    reveal(number_integer);
    if starts_with_pair(s, '0', 'x') {
        hex_integer_of(&slice_chars(s, 2, s.len()))
    } else if starts_with_pair(s, '0', 'd') {
        decimal_integer_of(&slice_chars(s, 2, s.len()))
    } else if starts_with_pair(s, '0', 'b') {
        binary_integer_of(&slice_chars(s, 2, s.len()))
    } else {
        hex_integer_of(s)
    }
}

pub fn integer_from_hexadecimal(string: &str) -> (r: Result<usize, AnonymousEvaluationError>)
    ensures
        integer_outcome(r) == hex_integer(string@),
{
    hex_integer_of(&chars_of(string))
}

pub fn bytes_from_hexadecimal(string: &str, strict: bool) -> (r: Result<
    Vec<u8>,
    AnonymousEvaluationError,
>)
    ensures
        bytes_outcome(r) == hex_bytes(string@, strict),
{
    hex_bytes_of(&chars_of(string), strict)
}

pub fn integer_from_decimal(string: &str) -> (r: Result<usize, AnonymousEvaluationError>)
    ensures
        integer_outcome(r) == decimal_integer(string@),
{
    decimal_integer_of(&chars_of(string))
}

pub fn bytes_from_decimal(string: &str) -> (r: Result<Vec<u8>, AnonymousEvaluationError>)
    ensures
        bytes_outcome(r) == decimal_bytes(string@),
{
    decimal_bytes_of(&chars_of(string))
}

pub fn integer_from_binary(string: &str) -> (r: Result<usize, AnonymousEvaluationError>)
    ensures
        integer_outcome(r) == binary_integer(string@),
{
    binary_integer_of(&chars_of(string))
}

pub fn bytes_from_binary(string: &str, strict: bool) -> (r: Result<
    Vec<u8>,
    AnonymousEvaluationError,
>)
    ensures
        bytes_outcome(r) == binary_bytes(string@, strict),
{
    binary_bytes_of(&chars_of(string), strict)
}

pub fn bytes_from_number(string: &str, strict: bool) -> (r: Result<
    Vec<u8>,
    AnonymousEvaluationError,
>)
    ensures
        bytes_outcome(r) == number_bytes(string@, strict),
{
    number_bytes_of(&chars_of(string), strict)
}

pub fn integer_from_number(string: &str) -> (r: Result<usize, AnonymousEvaluationError>)
    ensures
        integer_outcome(r) == number_integer(string@),
{
    number_integer_of(&chars_of(string))
}

} // verus!
