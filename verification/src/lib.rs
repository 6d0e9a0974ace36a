//! Validation and normalization of SEDOL identifiers.
//!
//! A SEDOL is a seven-character securities identifier used in UK/Ireland
//! markets. The last character is a check digit computed from the first six
//! by a weighted checksum. This crate offers a cleaner that strips characters
//! that can never appear in a SEDOL, a validator that applies the character
//! set, length, old-format and check-digit rules in a fixed order, and the
//! check-digit calculator itself, each with a proved contract.

use vstd::prelude::*;

mod errors;

pub use errors::SedolError;

verus! {

// ---------------------------------------------------------------------------
// The alphabet: ten digits followed by the 21 consonant letters B..Z.
// Vowels never appear in a SEDOL. A character's checksum value is its face
// value for a digit, and for a letter its position in the full A..Z run plus
// ten, so the positions where vowels would sit are simply left unused
// (B is 11, C is 12, D is 13, F is 15, and so on up to Z at 35).
// ---------------------------------------------------------------------------

/// An ASCII decimal digit `0`..=`9`.
pub open spec fn is_digit_char(c: char) -> bool {
    '0' as int <= c as int <= '9' as int
}

/// An uppercase consonant letter allowed in a SEDOL: B..Z except the vowels
/// E, I, O and U (A is already outside the range).
pub open spec fn is_alphabet_letter(c: char) -> bool {
    &&& 'B' as int <= c as int <= 'Z' as int
    &&& c as int != 'E' as int
    &&& c as int != 'I' as int
    &&& c as int != 'O' as int
    &&& c as int != 'U' as int
}

/// Membership in the 31-symbol SEDOL alphabet.
pub open spec fn in_alphabet(c: char) -> bool {
    is_digit_char(c) || is_alphabet_letter(c)
}

/// The checksum value of an alphabet character: face value for a digit,
/// alphabetical position plus ten for a letter.
pub open spec fn char_value(c: char) -> int {
    if is_digit_char(c) {
        c as int - '0' as int
    } else {
        c as int - 'A' as int + 10
    }
}

/// Exec test for membership in the SEDOL alphabet.
fn is_allowed_char(c: char) -> (r: bool)
    ensures
        r == in_alphabet(c),
{
    let u = c as u32;
    (48 <= u && u <= 57) || (66 <= u && u <= 90 && u != 69 && u != 73 && u != 79 && u != 85)
}

/// Exec checksum value of an alphabet character.
fn char_value_exec(c: char) -> (v: u32)
    requires
        in_alphabet(c),
    ensures
        v == char_value(c),
        v <= 35,
{
    let u = c as u32;
    if u <= 57 {
        u - 48
    } else {
        u - 55
    }
}

// ---------------------------------------------------------------------------
// The check digit: the first six characters are weighted by [1,3,1,7,3,9],
// the products summed, and the digit chosen so that the sum plus the digit
// is a multiple of ten.
// ---------------------------------------------------------------------------

/// The positional weight applied to character `i` of the candidate.
pub open spec fn weight(i: int) -> int {
    if i == 0 {
        1
    } else if i == 1 {
        3
    } else if i == 2 {
        1
    } else if i == 3 {
        7
    } else if i == 4 {
        3
    } else {
        9
    }
}

/// The weighted sum of the first `n` characters of `s`.
pub open spec fn weighted_sum_prefix(s: Seq<char>, n: int) -> int
    decreases n,
{
    if n <= 0 {
        0
    } else {
        weighted_sum_prefix(s, n - 1) + weight(n - 1) * char_value(s[n - 1])
    }
}

/// The weighted sum of the six characters that the check digit covers.
pub open spec fn weighted_sum(s: Seq<char>) -> int {
    weighted_sum_prefix(s, 6)
}

/// The ASCII digit character for a value between 0 and 9.
pub open spec fn digit_char_of(d: int) -> char {
    if d == 0 {
        '0'
    } else if d == 1 {
        '1'
    } else if d == 2 {
        '2'
    } else if d == 3 {
        '3'
    } else if d == 4 {
        '4'
    } else if d == 5 {
        '5'
    } else if d == 6 {
        '6'
    } else if d == 7 {
        '7'
    } else if d == 8 {
        '8'
    } else {
        '9'
    }
}

/// The check digit of a candidate whose first six characters are drawn from
/// the alphabet: the decimal digit that brings the weighted sum up to the
/// next multiple of ten.
pub open spec fn spec_check_digit(s: Seq<char>) -> char {
    digit_char_of((10 - weighted_sum(s) % 10) % 10)
}

/// Exec weight lookup.
fn weight_exec(i: usize) -> (w: u32)
    requires
        i < 6,
    ensures
        w == weight(i as int),
        w <= 9,
{
    if i == 0 {
        1
    } else if i == 1 {
        3
    } else if i == 2 {
        1
    } else if i == 3 {
        7
    } else if i == 4 {
        3
    } else {
        9
    }
}

/// Exec conversion of a value between 0 and 9 to its ASCII digit character.
fn digit_char_exec(d: u32) -> (c: char)
    requires
        d <= 9,
    ensures
        c == digit_char_of(d as int),
{
    if d == 0 {
        '0'
    } else if d == 1 {
        '1'
    } else if d == 2 {
        '2'
    } else if d == 3 {
        '3'
    } else if d == 4 {
        '4'
    } else if d == 5 {
        '5'
    } else if d == 6 {
        '6'
    } else if d == 7 {
        '7'
    } else if d == 8 {
        '8'
    } else {
        '9'
    }
}

/// Calculate the check digit for a SEDOL candidate.
///
/// Only the first six characters are consumed; the candidate may be longer,
/// and its overall length is not checked here. The caller must have
/// established that those six characters are in the alphabet.
pub fn calc_check_digit(sedol: &str) -> (r: char)
    requires
        sedol@.len() >= 6,
        forall|i: int| 0 <= i < 6 ==> in_alphabet(#[trigger] sedol@[i]),
    ensures
        r == spec_check_digit(sedol@),
        is_digit_char(r),
{
    let mut sum: u32 = 0;
    let mut i: usize = 0;
    while i < 6
        invariant
            i <= 6,
            sedol@.len() >= 6,
            forall|j: int| 0 <= j < 6 ==> in_alphabet(#[trigger] sedol@[j]),
            sum == weighted_sum_prefix(sedol@, i as int),
            sum <= 315 * i,
        decreases 6 - i,
    {
        let c = sedol.get_char(i);
        let v = char_value_exec(c);
        let w = weight_exec(i);
        assert(w * v <= 315) by (nonlinear_arith)
            requires
                w <= 9,
                v <= 35,
        ;
        sum = sum + w * v;
        i = i + 1;
    }
    let d = (10 - sum % 10) % 10;
    let r = digit_char_exec(d);
    proof {
        lemma_check_digit_in_range(sedol@);
    }
    r
}

/// The check digit of a candidate whose first six characters are in the
/// alphabet is itself an ASCII decimal digit.
pub proof fn lemma_check_digit_in_range(s: Seq<char>)
    requires
        s.len() >= 6,
        forall|i: int| 0 <= i < 6 ==> in_alphabet(#[trigger] s[i]),
    ensures
        is_digit_char(spec_check_digit(s)),
{
}

// ---------------------------------------------------------------------------
// Validation: character set, length, old format, check digit, in that order,
// with the first failing rule deciding the error.
// ---------------------------------------------------------------------------

/// Every character of `s` is in the SEDOL alphabet.
pub open spec fn all_in_alphabet(s: Seq<char>) -> bool {
    forall|i: int| 0 <= i < s.len() ==> in_alphabet(#[trigger] s[i])
}

/// Every character of `s` is an ASCII decimal digit.
pub open spec fn all_digit_chars(s: Seq<char>) -> bool {
    forall|i: int| 0 <= i < s.len() ==> is_digit_char(#[trigger] s[i])
}

/// The first character of `s` that is outside the alphabet; meaningful only
/// when such a character exists.
pub open spec fn first_invalid_char(s: Seq<char>) -> char
    decreases s.len(),
{
    if s.len() == 0 {
        ' '
    } else if !in_alphabet(s[0]) {
        s[0]
    } else {
        first_invalid_char(s.drop_first())
    }
}

/// The outcome of validating a candidate `s`: the unchanged input when every
/// rule holds, and otherwise the error of the first rule that fails.
pub open spec fn spec_validate(s: Seq<char>) -> Result<Seq<char>, SedolError> {
    if !all_in_alphabet(s) {
        Err(SedolError::InvalidCharacter { character: first_invalid_char(s) })
    } else if s.len() != 7 {
        Err(SedolError::InvalidLength)
    } else if is_digit_char(s[0]) && !all_digit_chars(s) {
        Err(SedolError::InvalidOldFormat)
    } else if s[6] != spec_check_digit(s) {
        Err(
            SedolError::InvalidCheckDigit {
                got_check_digit: s[6],
                calc_check_digit: spec_check_digit(s),
            },
        )
    } else {
        Ok(s)
    }
}

/// A character outside the alphabet, preceded only by characters inside it,
/// is the one that `first_invalid_char` picks.
proof fn lemma_first_invalid_char(s: Seq<char>, i: int)
    requires
        0 <= i < s.len(),
        !in_alphabet(s[i]),
        forall|j: int| 0 <= j < i ==> in_alphabet(#[trigger] s[j]),
    ensures
        first_invalid_char(s) == s[i],
    decreases i,
{
    if i > 0 {
        lemma_first_invalid_char(s.drop_first(), i - 1);
    }
}

/// Check whether a candidate is a valid SEDOL.
///
/// The rules run in a fixed order and the first failure decides the error:
/// a character outside the alphabet, a length other than seven, a digit-led
/// string that is not all digits, and finally a check-digit mismatch.
/// Success returns the input unchanged.
pub fn validate<'a>(sedol: &'a str) -> (r: Result<&'a str, SedolError>)
    ensures
        match r {
            Ok(out) => out@ == sedol@ && spec_validate(sedol@) == Ok::<Seq<char>, SedolError>(
                sedol@,
            ),
            Err(e) => spec_validate(sedol@) == Err::<Seq<char>, SedolError>(e),
        },
{
    let len = sedol.unicode_len();
    let mut i: usize = 0;
    while i < len
        invariant
            i <= len,
            len == sedol@.len(),
            forall|j: int| 0 <= j < i ==> in_alphabet(#[trigger] sedol@[j]),
        decreases len - i,
    {
        let c = sedol.get_char(i);
        if !is_allowed_char(c) {
            proof {
                lemma_first_invalid_char(sedol@, i as int);
            }
            return Err(SedolError::InvalidCharacter { character: c });
        }
        i = i + 1;
    }
    if len != 7 {
        return Err(SedolError::InvalidLength);
    }
    let first = sedol.get_char(0);
    if is_digit_char_exec(first) {
        let mut j: usize = 1;
        while j < 7
            invariant
                1 <= j <= 7,
                sedol@.len() == 7,
                all_in_alphabet(sedol@),
                is_digit_char(sedol@[0]),
                forall|k: int| 0 <= k < j ==> is_digit_char(#[trigger] sedol@[k]),
            decreases 7 - j,
        {
            let c = sedol.get_char(j);
            if !is_digit_char_exec(c) {
                proof {
                    assert(!is_digit_char(sedol@[j as int]));
                }
                return Err(SedolError::InvalidOldFormat);
            }
            j = j + 1;
        }
    }
    let got_check_digit = sedol.get_char(6);
    let calc_check_digit = calc_check_digit(sedol);
    if got_check_digit != calc_check_digit {
        return Err(SedolError::InvalidCheckDigit { got_check_digit, calc_check_digit });
    }
    Ok(sedol)
}

/// Exec test for an ASCII decimal digit.
fn is_digit_char_exec(c: char) -> (r: bool)
    ensures
        r == is_digit_char(c),
{
    let u = c as u32;
    48 <= u && u <= 57
}

// ---------------------------------------------------------------------------
// The cleaner: drop every character that is not an ASCII letter or digit.
// Case is preserved; lowercase letters survive cleaning and are rejected
// later by the validator, whose alphabet is uppercase-only.
// ---------------------------------------------------------------------------

/// A character the cleaner keeps: an ASCII letter (either case) or an ASCII
/// decimal digit.
pub open spec fn is_clean_char(c: char) -> bool {
    ||| '0' as int <= c as int <= '9' as int
    ||| 'A' as int <= c as int <= 'Z' as int
    ||| 'a' as int <= c as int <= 'z' as int
}

/// The characters of `s` that the cleaner keeps, in their original order.
pub open spec fn spec_clean(s: Seq<char>) -> Seq<char> {
    s.filter(|c: char| is_clean_char(c))
}

/// Appending one character to the input extends the cleaned result by that
/// character exactly when the cleaner keeps it.
proof fn lemma_clean_push(s: Seq<char>, c: char)
    ensures
        spec_clean(s.push(c)) == if is_clean_char(c) {
            spec_clean(s).push(c)
        } else {
            spec_clean(s)
        },
{
    reveal(Seq::filter);
    assert(s.push(c).drop_last() =~= s);
}

/// Cleaning is idempotent: a cleaned string passes through the cleaner
/// unchanged.
pub proof fn lemma_clean_idempotent(s: Seq<char>)
    ensures
        spec_clean(spec_clean(s)) == spec_clean(s),
    decreases s.len(),
{
    reveal(Seq::filter);
    if s.len() > 0 {
        let dl = s.drop_last();
        let c = s.last();
        lemma_clean_idempotent(dl);
        assert(s =~= dl.push(c));
        lemma_clean_push(dl, c);
        if is_clean_char(c) {
            lemma_clean_push(spec_clean(dl), c);
        }
    }
}

/// Exec test for a character the cleaner keeps.
fn is_clean_char_exec(c: char) -> (r: bool)
    ensures
        r == is_clean_char(c),
{
    let u = c as u32;
    (48 <= u && u <= 57) || (65 <= u && u <= 90) || (97 <= u && u <= 122)
}

/// Relies on String::push: appends the given character to the end of the
/// string, leaving the rest unchanged.
#[verifier::external_body]
pub(crate) fn push_char(s: &mut String, c: char)
    ensures
        final(s)@ == old(s)@.push(c),
{
    s.push(c);
}

/// Remove from the input every character that is not an ASCII letter or an
/// ASCII digit, keeping the rest in their original order.
pub fn clean(sedol: &str) -> (r: String)
    ensures
        r@ == spec_clean(sedol@),
{
    let len = sedol.unicode_len();
    let mut r = String::new();
    let mut i: usize = 0;
    while i < len
        invariant
            i <= len,
            len == sedol@.len(),
            r@ == spec_clean(sedol@.subrange(0, i as int)),
        decreases len - i,
    {
        let c = sedol.get_char(i);
        if is_clean_char_exec(c) {
            push_char(&mut r, c);
        }
        proof {
            assert(sedol@.subrange(0, i + 1 as int) =~= sedol@.subrange(0, i as int).push(
                sedol@[i as int],
            ));
            lemma_clean_push(sedol@.subrange(0, i as int), sedol@[i as int]);
        }
        i = i + 1;
    }
    proof {
        assert(sedol@.subrange(0, len as int) =~= sedol@);
    }
    r
}

// ---------------------------------------------------------------------------
// Laws of the library as a whole.
// ---------------------------------------------------------------------------

/// Validation is deterministic: any two results that `validate`'s contract
/// admits for the same character sequence are equal.
pub proof fn lemma_validate_deterministic(
    s: Seq<char>,
    r1: Result<Seq<char>, SedolError>,
    r2: Result<Seq<char>, SedolError>,
)
    requires
        r1 == spec_validate(s),
        r2 == spec_validate(s),
    ensures
        r1 == r2,
{
}

/// The check-digit calculation is deterministic: any two results that
/// `calc_check_digit`'s contract admits for the same character sequence are
/// equal.
pub proof fn lemma_check_digit_deterministic(s: Seq<char>, c1: char, c2: char)
    requires
        c1 == spec_check_digit(s),
        c2 == spec_check_digit(s),
    ensures
        c1 == c2,
{
}

/// The character-set rule runs before the length rule: an input holding a
/// character outside the alphabet fails on that character even when its
/// length is also wrong.
pub proof fn lemma_character_error_precedes_length_error(s: Seq<char>)
    requires
        !all_in_alphabet(s),
        s.len() != 7,
    ensures
        spec_validate(s) == Err::<Seq<char>, SedolError>(
            (SedolError::InvalidCharacter { character: first_invalid_char(s) }),
        ),
{
}

} // verus!
