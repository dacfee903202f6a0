//! Text utilities shared by the parser, the evaluator and the laws:
//! character classes, conversion between `&str` and character vectors, and
//! verified decimal formatting and parsing of 64-bit integers.
use vstd::prelude::*;

verus! {

// ---------------------------------------------------------------------------
// Character classes
// ---------------------------------------------------------------------------
/// Decimal digit.
pub open spec fn is_digit(c: char) -> bool {
    '0' <= c <= '9'
}

/// Whitespace accepted between tokens.
pub open spec fn is_space(c: char) -> bool {
    c == ' ' || c == '\t' || c == '\r' || c == '\n'
}

/// ASCII letter.
pub open spec fn is_letter(c: char) -> bool {
    ('a' <= c <= 'z') || ('A' <= c <= 'Z')
}

/// A character that may continue an identifier.
pub open spec fn is_ident_cont(c: char) -> bool {
    is_letter(c) || is_digit(c) || c == '_'
}

/// Numeric value of a decimal digit.
pub open spec fn digit_val(c: char) -> int {
    c as int - '0' as int
}

/// The digit character for a value below ten.
pub open spec fn digit_char(d: int) -> char {
    ('0' as u8 + d as u8) as char
}

/// Executable test for a decimal digit.
pub fn digit(c: char) -> (r: bool)
    ensures
        r == is_digit(c),
{
    '0' <= c && c <= '9'
}

/// Executable test for whitespace.
pub fn space(c: char) -> (r: bool)
    ensures
        r == is_space(c),
{
    c == ' ' || c == '\t' || c == '\r' || c == '\n'
}

/// Executable test for an ASCII letter.
pub fn letter(c: char) -> (r: bool)
    ensures
        r == is_letter(c),
{
    ('a' <= c && c <= 'z') || ('A' <= c && c <= 'Z')
}

/// Executable test for an identifier-continuation character.
pub fn ident_cont(c: char) -> (r: bool)
    ensures
        r == is_ident_cont(c),
{
    letter(c) || digit(c) || c == '_'
}

// ---------------------------------------------------------------------------
// Strings and character vectors
// ---------------------------------------------------------------------------
/// The characters of a string, in order.
pub fn str_chars(s: &str) -> (v: Vec<char>)
    ensures
        v@ == s@,
{
    let n = s.unicode_len();
    let mut v: Vec<char> = Vec::new();
    for i in 0..n
        invariant
            n == s@.len(),
            v@ == s@.take(i as int),
    {
        v.push(s.get_char(i));
        assert(v@ =~= s@.take(i as int + 1));
    }
    assert(v@ =~= s@);
    v
}

/// Appends one character to owned text.
///
/// Relies on `String::push`: it appends exactly the given character.
#[verifier::external_body]
fn push_char(s: &mut String, c: char)
    ensures
        final(s)@ == old(s)@.push(c),
{
    s.push(c);
}

/// Whether two string slices hold the same characters.
///
/// Relies on `str::eq`: string slices compare equal exactly when their
/// character sequences are equal.
#[verifier::external_body]
pub fn str_eq(a: &str, b: &str) -> (r: bool)
    ensures
        r == (a@ == b@),
{
    a == b
}

/// Owned text holding exactly the given characters.
pub fn chars_to_string(v: &[char]) -> (s: String)
    ensures
        s@ == v@,
{
    let mut s = String::new();
    let n = v.len();
    for i in 0..n
        invariant
            n == v@.len(),
            s@ == v@.take(i as int),
    {
        push_char(&mut s, v[i]);
        assert(s@ =~= v@.take(i as int + 1));
    }
    assert(s@ =~= v@);
    s
}

// ---------------------------------------------------------------------------
// Decimal formatting
// ---------------------------------------------------------------------------
/// Decimal digits of a natural number, most significant first, no sign and
/// no superfluous leading zero.
pub open spec fn dec_digits_of(n: nat) -> Seq<char>
    decreases n,
{
    if n < 10 {
        seq![digit_char(n as int)]
    } else {
        dec_digits_of(n / 10).push(digit_char((n % 10) as int))
    }
}

/// The decimal text of an integer: a `-` sign for negative values, then the
/// digits of the magnitude.
pub open spec fn int_to_dec_str(i: int) -> Seq<char> {
    if i < 0 {
        seq!['-'] + dec_digits_of((-i) as nat)
    } else {
        dec_digits_of(i as nat)
    }
}

/// The digit character of a value below ten.
fn exec_digit_char(d: u64) -> (c: char)
    requires
        d < 10,
    ensures
        c == digit_char(d as int),
{
    (48u8 + d as u8) as char
}

/// Decimal digits of a 64-bit natural number.
pub fn u64_dec_digits(n: u64) -> (v: Vec<char>)
    ensures
        v@ == dec_digits_of(n as nat),
    decreases n,
{
    if n < 10 {
        let mut v: Vec<char> = Vec::new();
        v.push(exec_digit_char(n));
        assert(v@ =~= dec_digits_of(n as nat));
        v
    } else {
        let mut v = u64_dec_digits(n / 10);
        v.push(exec_digit_char(n % 10));
        assert(v@ =~= dec_digits_of(n as nat));
        v
    }
}

/// Decimal text of a 64-bit signed integer, as `print` and the `string`
/// cast produce it.
pub fn format_i64(x: i64) -> (v: Vec<char>)
    ensures
        v@ == int_to_dec_str(x as int),
{
    if x >= 0 {
        u64_dec_digits(x as u64)
    } else {
        let mag: u64 = if x == i64::MIN {
            9223372036854775808u64
        } else {
            (-x) as u64
        };
        assert(mag == -(x as int));
        let digits = u64_dec_digits(mag);
        let mut v: Vec<char> = Vec::new();
        v.push('-');
        let n = digits.len();
        for i in 0..n
            invariant
                n == digits@.len(),
            v@ == seq!['-'] + digits@.take(i as int),
        {
            v.push(digits[i]);
            assert(v@ =~= seq!['-'] + digits@.take(i as int + 1));
        }
        assert(v@ =~= seq!['-'] + digits@);
        v
    }
}

// ---------------------------------------------------------------------------
// Decimal parsing
// ---------------------------------------------------------------------------
/// Every character is a decimal digit.
pub open spec fn all_digits(s: Seq<char>) -> bool {
    forall|i: int| 0 <= i < s.len() ==> is_digit(s[i])
}

/// The value of a digit string, most significant digit first.
pub open spec fn dec_val(s: Seq<char>) -> int
    decreases s.len(),
{
    if s.len() == 0 {
        0
    } else {
        dec_val(s.drop_last()) * 10 + digit_val(s.last())
    }
}

/// The text after an optional leading sign.
pub open spec fn digits_part(s: Seq<char>) -> Seq<char> {
    if s.len() > 0 && (s[0] == '+' || s[0] == '-') {
        s.skip(1)
    } else {
        s
    }
}

/// Whether text has the shape of a decimal integer: an optional sign
/// followed by one or more digits.
pub open spec fn is_int_text(s: Seq<char>) -> bool {
    digits_part(s).len() > 0 && all_digits(digits_part(s))
}

/// The signed value of decimal-integer text.
pub open spec fn int_text_val(s: Seq<char>) -> int {
    if s.len() > 0 && s[0] == '-' {
        -dec_val(digits_part(s))
    } else {
        dec_val(digits_part(s))
    }
}

/// What parsing text as a 64-bit integer yields: the value when the text is
/// a decimal integer in range, nothing otherwise.
pub open spec fn parse_i64_spec(s: Seq<char>) -> Option<i64> {
    if is_int_text(s) && i64::MIN <= int_text_val(s) <= i64::MAX {
        Option::Some(int_text_val(s) as i64)
    } else {
        Option::None
    }
}

/// Ten to the `k`.
pub open spec fn pow10(k: nat) -> int
    decreases k,
{
    if k == 0 {
        1
    } else {
        10 * pow10((k - 1) as nat)
    }
}

/// A digit string's value is bounded by ten to its length.
pub proof fn lemma_dec_val_upper(s: Seq<char>)
    requires
        all_digits(s),
    ensures
        0 <= dec_val(s) < pow10(s.len()),
    decreases s.len(),
{
    if s.len() > 0 {
        assert(all_digits(s.drop_last()));
        lemma_dec_val_upper(s.drop_last());
        assert(is_digit(s.last()));
        assert(0 <= digit_val(s.last()) <= 9);
        assert(pow10(s.len()) == 10 * pow10((s.len() - 1) as nat));
        assert(dec_val(s) == dec_val(s.drop_last()) * 10 + digit_val(s.last()));
        assert(dec_val(s.drop_last()) * 10 <= (pow10((s.len() - 1) as nat) - 1) * 10);
    } else {
        assert(pow10(0) == 1);
        assert(dec_val(s) == 0);
    }
}

/// A digit string without a leading zero reaches ten to one less than its
/// length.
pub proof fn lemma_dec_val_lower(s: Seq<char>)
    requires
        all_digits(s),
        s.len() > 0,
        s[0] != '0',
    ensures
        dec_val(s) >= pow10((s.len() - 1) as nat),
    decreases s.len(),
{
    if s.len() == 1 {
        assert(is_digit(s[0]));
        assert(s.last() == s[0]);
        assert(digit_val(s[0]) >= 1);
        assert(dec_val(s.drop_last()) == 0);
        assert(pow10(0) == 1);
    } else {
        assert(s.drop_last()[0] == s[0]);
        assert(all_digits(s.drop_last()));
        lemma_dec_val_lower(s.drop_last());
        assert(is_digit(s.last()));
        assert(digit_val(s.last()) >= 0);
        assert(pow10((s.len() - 1) as nat) == 10 * pow10((s.len() - 2) as nat));
        assert(dec_val(s) == dec_val(s.drop_last()) * 10 + digit_val(s.last()));
        assert(dec_val(s.drop_last()) * 10 >= pow10((s.len() - 2) as nat) * 10);
    }
}

/// A leading zero does not change a digit string's value.
pub proof fn lemma_dec_val_drop_zero(s: Seq<char>)
    requires
        s.len() > 0,
        s[0] == '0',
    ensures
        dec_val(s) == dec_val(s.skip(1)),
    decreases s.len(),
{
    if s.len() == 1 {
        assert(s.skip(1).len() == 0);
        assert(dec_val(s.skip(1)) == 0);
        assert(s.drop_last().len() == 0);
        assert(dec_val(s.drop_last()) == 0);
        assert(s.last() == s[0]);
        assert(digit_val('0') == 0);
        assert(dec_val(s) == dec_val(s.drop_last()) * 10 + digit_val(s.last()));
    } else {
        assert(s.drop_last()[0] == '0');
        lemma_dec_val_drop_zero(s.drop_last());
        assert(s.drop_last().skip(1) =~= s.skip(1).drop_last());
        assert(s.skip(1).last() == s.last());
        assert(s.skip(1).len() > 0);
        assert(dec_val(s) == dec_val(s.drop_last()) * 10 + digit_val(s.last()));
        assert(dec_val(s.skip(1)) == dec_val(s.skip(1).drop_last()) * 10 + digit_val(
            s.skip(1).last(),
        ));
    }
}

/// Any run of leading zeros may be dropped without changing the value.
pub proof fn lemma_dec_val_skip_zeros(s: Seq<char>, k: int)
    requires
        0 <= k <= s.len(),
        forall|i: int| 0 <= i < k ==> s[i] == '0',
    ensures
        dec_val(s) == dec_val(s.skip(k)),
    decreases k,
{
    if k > 0 {
        lemma_dec_val_drop_zero(s);
        assert(s.skip(1).skip(k - 1) =~= s.skip(k));
        lemma_dec_val_skip_zeros(s.skip(1), k - 1);
    } else {
        assert(s.skip(0) =~= s);
    }
}

/// The digits of a natural number are digits, and read back to the number.
pub proof fn lemma_dec_digits_val(n: nat)
    ensures
        all_digits(dec_digits_of(n)),
        dec_val(dec_digits_of(n)) == n,
        dec_digits_of(n).len() >= 1,
        dec_digits_of(n)[0] != '0' || n < 10,
    decreases n,
{
    if n < 10 {
        let s = seq![digit_char(n as int)];
        assert(dec_digits_of(n) =~= s);
        assert(is_digit(digit_char(n as int)));
        assert(digit_val(digit_char(n as int)) == n);
        assert(s.drop_last() =~= Seq::<char>::empty());
        assert(dec_val(Seq::<char>::empty()) == 0);
        assert(dec_val(s) == dec_val(s.drop_last()) * 10 + digit_val(s.last()));
        assert(dec_val(s) == n);
    } else {
        lemma_dec_digits_val(n / 10);
        let pre = dec_digits_of(n / 10);
        let whole = pre.push(digit_char((n % 10) as int));
        assert(whole.drop_last() =~= pre);
        assert(whole.last() == digit_char((n % 10) as int));
        assert(is_digit(digit_char((n % 10) as int)));
        assert(digit_val(digit_char((n % 10) as int)) == n % 10);
        assert(dec_val(whole) == dec_val(pre) * 10 + n % 10);
        assert(dec_val(pre) == n / 10);
        assert(n / 10 * 10 + n % 10 == n);
        assert(whole[0] == pre[0]);
        if n / 10 >= 10 {
            assert(pre[0] != '0');
        } else {
            assert(pre[0] == digit_char((n / 10) as int));
            assert(n / 10 >= 1);
            assert(digit_char((n / 10) as int) != '0');
        }
    }
}

/// Digit value of a digit character, executable.
fn exec_digit_val(c: char) -> (d: u64)
    requires
        is_digit(c),
    ensures
        d == digit_val(c),
        d < 10,
{
    (c as u64) - 48
}

/// Parses text as a 64-bit signed decimal integer, exactly as the `int`
/// cast accepts it: an optional sign, then one or more digits, value in
/// range.
pub fn parse_i64(v: &[char]) -> (r: Option<i64>)
    ensures
        r == parse_i64_spec(v@),
{
    let n = v.len();
    if n == 0 {
        return None;
    }
    let first = v[0];
    let neg = first == '-';
    let start: usize = if first == '-' || first == '+' {
        1
    } else {
        0
    };
    if start >= n {
        assert(digits_part(v@).len() == 0);
        return None;
    }
    assert(digits_part(v@) =~= v@.subrange(start as int, n as int));
    let mut i = start;
    while i < n
        invariant
            start <= i <= n == v@.len(),
            start < n,
            start as int == (if v@[0] == '+' || v@[0] == '-' {
                1int
            } else {
                0int
            }),
            forall|j: int| start <= j < i ==> is_digit(v@[j]),
        decreases n - i,
    {
        if !digit(v[i]) {
            proof {
                let sub = v@.subrange(start as int, n as int);
                assert(digits_part(v@) =~= sub);
                assert(sub[i - start] == v@[i as int]);
                assert(!is_digit(sub[i - start]));
                assert(!all_digits(sub));
                assert(!is_int_text(v@));
            }
            return None;
        }
        i = i + 1;
    }
    let ghost d = digits_part(v@);
    assert(all_digits(d));
    // skip leading zeros, keeping at least one digit
    let mut k = start;
    while k < n - 1 && v[k] == '0'
        invariant
            start <= k <= n - 1,
            n == v@.len(),
            forall|j: int| start <= j < k ==> v@[j] == '0',
        decreases n - k,
    {
        k = k + 1;
    }
    proof {
        assert(d.skip(k - start) =~= v@.subrange(k as int, n as int));
        lemma_dec_val_skip_zeros(d, k - start);
    }
    let m = n - k;  // digit count after leading zeros
    let ghost mag = v@.subrange(k as int, n as int);
    assert(dec_val(d) == dec_val(mag));
    assert(all_digits(mag));
    if m > 19 {
        // at least 10^19 in magnitude: outside the 64-bit range either way
        proof {
            assert(mag[0] == v@[k as int]);
            assert(mag[0] != '0' || m == 1);
            lemma_dec_val_lower(mag);
            assert(pow10(19) == 10000000000000000000) by {
                reveal_with_fuel(pow10, 20);
            }
            assert(pow10((mag.len() - 1) as nat) >= pow10(19)) by {
                lemma_pow10_mono(19, (mag.len() - 1) as nat);
            }
        }
        return None;
    }
    let mut acc: u64 = 0;
    let mut j = k;
    proof {
        assert(v@.subrange(k as int, k as int) =~= Seq::<char>::empty());
        assert(dec_val(Seq::<char>::empty()) == 0);
        assert(pow10(0) == 1);
    }
    while j < n
        invariant
            k <= j <= n == v@.len(),
            n - k <= 19,
            forall|jj: int| k <= jj < n ==> is_digit(v@[jj]),
            acc == dec_val(v@.subrange(k as int, j as int)),
            acc < pow10((j - k) as nat),
        decreases n - j,
    {
        let dv = exec_digit_val(v[j]);
        proof {
            let pre = v@.subrange(k as int, j as int);
            let ext = v@.subrange(k as int, j + 1 as int);
            assert(ext.drop_last() =~= pre);
            assert(ext.last() == v@[j as int]);
            assert(dec_val(ext) == dec_val(pre) * 10 + digit_val(v@[j as int]));
            assert(pow10((j + 1 - k) as nat) == 10 * pow10((j - k) as nat));
            assert(pow10((j - k) as nat) <= pow10(18)) by {
                lemma_pow10_mono((j - k) as nat, 18);
            }
            assert(pow10(18) == 1000000000000000000) by {
                reveal_with_fuel(pow10, 19);
            }
        }
        acc = acc * 10 + dv;
        j = j + 1;
    }
    proof {
        assert(v@.subrange(k as int, n as int) =~= mag);
        assert(pow10(19) == 10000000000000000000) by {
            reveal_with_fuel(pow10, 20);
        }
        assert(acc < pow10((n - k) as nat));
        assert(pow10((n - k) as nat) <= pow10(19)) by {
            lemma_pow10_mono((n - k) as nat, 19);
        }
    }
    assert(acc == dec_val(d));
    assert(is_int_text(v@));
    if neg {
        if acc > 9223372036854775808u64 {
            return None;
        }
        let r: i64 = if acc == 9223372036854775808u64 {
            i64::MIN
        } else {
            -(acc as i64)
        };
        assert(r as int == -(acc as int));
        Some(r)
    } else {
        if acc > 9223372036854775807u64 {
            return None;
        }
        Some(acc as i64)
    }
}

/// The value of an unsigned digit string, when it fits in a 64-bit signed
/// integer.
pub(crate) fn parse_digits_checked(v: &[char]) -> (r: Option<i64>)
    requires
        all_digits(v@),
        v@.len() > 0,
    ensures
        r == (if dec_val(v@) <= i64::MAX {
            Option::Some(dec_val(v@) as i64)
        } else {
            Option::<i64>::None
        }),
{
    proof {
        lemma_dec_val_upper(v@);
    }
    let n = v.len();
    // skip leading zeros, keeping at least one digit
    let mut k: usize = 0;
    while k < n - 1 && v[k] == '0'
        invariant
            k <= n - 1,
            n == v@.len(),
            n >= 1,
            forall|j: int| 0 <= j < k ==> v@[j] == '0',
        decreases n - k,
    {
        k = k + 1;
    }
    proof {
        assert(v@.skip(k as int) =~= v@.subrange(k as int, n as int));
        lemma_dec_val_skip_zeros(v@, k as int);
    }
    let ghost mag = v@.subrange(k as int, n as int);
    assert(dec_val(v@) == dec_val(mag));
    assert(all_digits(mag));
    if n - k > 19 {
        proof {
            assert(mag[0] == v@[k as int]);
            assert(mag[0] != '0' || n - k == 1);
            lemma_dec_val_lower(mag);
            assert(pow10(19) == 10000000000000000000) by {
                reveal_with_fuel(pow10, 20);
            }
            assert(pow10((mag.len() - 1) as nat) >= pow10(19)) by {
                lemma_pow10_mono(19, (mag.len() - 1) as nat);
            }
        }
        return None;
    }
    let mut acc: u64 = 0;
    let mut j = k;
    proof {
        assert(v@.subrange(k as int, k as int) =~= Seq::<char>::empty());
        assert(dec_val(Seq::<char>::empty()) == 0);
        assert(pow10(0) == 1);
    }
    while j < n
        invariant
            k <= j <= n == v@.len(),
            n - k <= 19,
            all_digits(v@),
            acc == dec_val(v@.subrange(k as int, j as int)),
            acc < pow10((j - k) as nat),
        decreases n - j,
    {
        let dv = exec_digit_val(v[j]);
        proof {
            let pre = v@.subrange(k as int, j as int);
            let ext = v@.subrange(k as int, j + 1 as int);
            assert(ext.drop_last() =~= pre);
            assert(ext.last() == v@[j as int]);
            assert(dec_val(ext) == dec_val(pre) * 10 + digit_val(v@[j as int]));
            assert(pow10((j + 1 - k) as nat) == 10 * pow10((j - k) as nat));
            assert(pow10((j - k) as nat) <= pow10(18)) by {
                lemma_pow10_mono((j - k) as nat, 18);
            }
            assert(pow10(18) == 1000000000000000000) by {
                reveal_with_fuel(pow10, 19);
            }
        }
        acc = acc * 10 + dv;
        j = j + 1;
    }
    proof {
        assert(v@.subrange(k as int, n as int) =~= mag);
    }
    assert(acc == dec_val(v@));
    if acc > 9223372036854775807u64 {
        None
    } else {
        Some(acc as i64)
    }
}

/// Ten to the `k` grows with `k`.
pub proof fn lemma_pow10_mono(a: nat, b: nat)
    requires
        a <= b,
    ensures
        pow10(a) <= pow10(b),
        pow10(a) >= 1,
    decreases b,
{
    if a == b {
        lemma_pow10_pos(a);
    } else {
        lemma_pow10_mono(a, (b - 1) as nat);
    }
}

/// Ten to the `k` is positive.
pub proof fn lemma_pow10_pos(k: nat)
    ensures
        pow10(k) >= 1,
    decreases k,
{
    if k > 0 {
        lemma_pow10_pos((k - 1) as nat);
    }
}

// ---------------------------------------------------------------------------
// Boolean text
// ---------------------------------------------------------------------------
/// The characters of `true`.
pub open spec fn true_text() -> Seq<char> {
    seq!['t', 'r', 'u', 'e']
}

/// The characters of `false`.
pub open spec fn false_text() -> Seq<char> {
    seq!['f', 'a', 'l', 's', 'e']
}

/// The text of a boolean, as `print` and the `string` cast produce it.
pub open spec fn bool_text(b: bool) -> Seq<char> {
    if b {
        true_text()
    } else {
        false_text()
    }
}

/// Executable boolean formatting.
pub fn format_bool(b: bool) -> (v: Vec<char>)
    ensures
        v@ == bool_text(b),
{
    let mut v: Vec<char> = Vec::new();
    if b {
        v.push('t');
        v.push('r');
        v.push('u');
        v.push('e');
        assert(v@ =~= true_text());
    } else {
        v.push('f');
        v.push('a');
        v.push('l');
        v.push('s');
        v.push('e');
        assert(v@ =~= false_text());
    }
    v
}

/// What parsing text as a boolean yields: exactly `true` or `false`.
pub open spec fn parse_bool_spec(s: Seq<char>) -> Option<bool> {
    if s == true_text() {
        Option::Some(true)
    } else if s == false_text() {
        Option::Some(false)
    } else {
        Option::None
    }
}

/// Executable boolean parsing, as the `bool` cast accepts it.
pub fn parse_bool(v: &[char]) -> (r: Option<bool>)
    ensures
        r == parse_bool_spec(v@),
{
    let n = v.len();
    if n == 4 && v[0] == 't' && v[1] == 'r' && v[2] == 'u' && v[3] == 'e' {
        assert(v@ =~= true_text());
        Some(true)
    } else if n == 5 && v[0] == 'f' && v[1] == 'a' && v[2] == 'l' && v[3] == 's' && v[4] == 'e' {
        assert(v@ =~= false_text());
        Some(false)
    } else {
        assert(v@ != true_text() && v@ != false_text()) by {
            if v@ == true_text() {
                assert(v@.len() == 4 && v@[0] == 't' && v@[1] == 'r' && v@[2] == 'u' && v@[3]
                    == 'e');
            }
            if v@ == false_text() {
                assert(v@.len() == 5 && v@[0] == 'f' && v@[1] == 'a' && v@[2] == 'l' && v@[3] == 's'
                    && v@[4] == 'e');
            }
        }
        None
    }
}

/// Round trip: the decimal text of any 64-bit integer parses back to the
/// same integer.
pub proof fn lemma_int_text_roundtrip(x: i64)
    ensures
        parse_i64_spec(int_to_dec_str(x as int)) == Option::Some(x),
{
    if x >= 0 {
        let s = dec_digits_of(x as nat);
        lemma_dec_digits_val(x as nat);
        assert(s[0] != '+' && s[0] != '-') by {
            assert(is_digit(s[0]));
        }
        assert(is_int_text(s));
        assert(int_text_val(s) == x);
    } else {
        let m = (-(x as int)) as nat;
        let s = seq!['-'] + dec_digits_of(m);
        lemma_dec_digits_val(m);
        assert(s[0] == '-');
        assert(s.skip(1) =~= dec_digits_of(m));
        assert(is_int_text(s));
        assert(int_text_val(s) == -(m as int) == x);
    }
}

/// Round trip: the text of any boolean parses back to the same boolean.
pub proof fn lemma_bool_text_roundtrip(b: bool)
    ensures
        parse_bool_spec(bool_text(b)) == Option::Some(b),
{
    assert(true_text().len() == 4 && false_text().len() == 5);
}

} // verus!
