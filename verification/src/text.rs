//! Character-level text handling shared by the link, log and RPC code.
//!
//! Strings are handled through their character sequences (`Seq<char>`), the
//! view that vstd gives to `str` and `String`.
use vstd::prelude::*;

verus! {

// ---------------------------------------------------------------------------
// Character classes
// ---------------------------------------------------------------------------

/// ASCII decimal digit.
pub open spec fn is_dec_digit(c: char) -> bool {
    '0' <= c && c <= '9'
}

/// ASCII hexadecimal digit, either case (`char::is_ascii_hexdigit`).
pub open spec fn is_hex_digit(c: char) -> bool {
    ('0' <= c && c <= '9') || ('a' <= c && c <= 'f') || ('A' <= c && c <= 'F')
}

/// Value of a hexadecimal (or decimal) digit.
pub open spec fn digit_value(c: char) -> nat {
    if '0' <= c && c <= '9' {
        (c as nat - '0' as nat) as nat
    } else if 'a' <= c && c <= 'f' {
        (c as nat - 'a' as nat + 10) as nat
    } else {
        (c as nat - 'A' as nat + 10) as nat
    }
}

/// Whether `c` is a digit in base 10 or base 16.
pub open spec fn is_radix_digit(c: char, radix: nat) -> bool {
    if radix == 16 {
        is_hex_digit(c)
    } else {
        is_dec_digit(c)
    }
}

/// Unicode `White_Space`, the property that `char::is_whitespace` and
/// `str::trim` go by.
pub open spec fn is_unicode_whitespace(c: char) -> bool {
    ||| ('\u{9}' <= c && c <= '\u{d}')
    ||| c == ' '
    ||| c == '\u{85}'
    ||| c == '\u{a0}'
    ||| c == '\u{1680}'
    ||| ('\u{2000}' <= c && c <= '\u{200a}')
    ||| c == '\u{2028}'
    ||| c == '\u{2029}'
    ||| c == '\u{202f}'
    ||| c == '\u{205f}'
    ||| c == '\u{3000}'
}

/// ASCII lower-casing of one character.
pub open spec fn lower_char(c: char) -> char {
    if 'A' <= c && c <= 'Z' {
        ((c as u32) + 32) as char
    } else {
        c
    }
}

/// ASCII upper-casing of one character.
pub open spec fn upper_char(c: char) -> char {
    if 'a' <= c && c <= 'z' {
        ((c as u32) - 32) as char
    } else {
        c
    }
}

pub open spec fn ascii_lower(s: Seq<char>) -> Seq<char> {
    Seq::new(s.len(), |i: int| lower_char(s[i]))
}

pub open spec fn ascii_upper(s: Seq<char>) -> Seq<char> {
    Seq::new(s.len(), |i: int| upper_char(s[i]))
}

pub open spec fn all_hex(s: Seq<char>) -> bool {
    forall|i: int| 0 <= i < s.len() ==> is_hex_digit(#[trigger] s[i])
}

// ---------------------------------------------------------------------------
// Sequence predicates
// ---------------------------------------------------------------------------

pub open spec fn starts_with(s: Seq<char>, prefix: Seq<char>) -> bool {
    prefix.len() <= s.len() && s.subrange(0, prefix.len() as int) == prefix
}

pub open spec fn ends_with(s: Seq<char>, suffix: Seq<char>) -> bool {
    suffix.len() <= s.len() && s.subrange(s.len() - suffix.len(), s.len() as int) == suffix
}

/// `pat` occurs in `s` at position `i`.
pub open spec fn occurs_at(s: Seq<char>, pat: Seq<char>, i: int) -> bool {
    0 <= i && i + pat.len() <= s.len() && s.subrange(i, i + pat.len()) == pat
}

/// `pat` occurs somewhere in `s` (`str::contains`).
pub open spec fn contains(s: Seq<char>, pat: Seq<char>) -> bool {
    exists|i: int| occurs_at(s, pat, i)
}

/// Position of the first occurrence of `pat` (`str::find`).
pub open spec fn first_occurrence(s: Seq<char>, pat: Seq<char>) -> Option<int> {
    if contains(s, pat) {
        Some(choose|i: int| occurs_at(s, pat, i) && forall|j: int| 0 <= j < i ==> !occurs_at(s, pat, j))
    } else {
        None
    }
}

/// `str::trim_start`.
pub open spec fn trim_start(s: Seq<char>) -> Seq<char>
    decreases s.len(),
{
    if s.len() > 0 && is_unicode_whitespace(s[0]) {
        trim_start(s.drop_first())
    } else {
        s
    }
}

/// `str::trim_end`.
pub open spec fn trim_end(s: Seq<char>) -> Seq<char>
    decreases s.len(),
{
    if s.len() > 0 && is_unicode_whitespace(s.last()) {
        trim_end(s.drop_last())
    } else {
        s
    }
}

/// `str::trim`.
pub open spec fn trim(s: Seq<char>) -> Seq<char> {
    trim_end(trim_start(s))
}

/// `str::trim_start_matches(prefix)`: every leading copy of a non-empty prefix removed.
pub open spec fn trim_prefix_all(s: Seq<char>, prefix: Seq<char>) -> Seq<char>
    decreases s.len(),
{
    if prefix.len() > 0 && starts_with(s, prefix) {
        trim_prefix_all(s.subrange(prefix.len() as int, s.len() as int), prefix)
    } else {
        s
    }
}

/// `str::split(sep)` for a one-character separator.
pub open spec fn split_on(s: Seq<char>, sep: char) -> Seq<Seq<char>>
    decreases s.len(),
{
    if s.len() == 0 {
        seq![Seq::empty()]
    } else {
        let rest = split_on(s.drop_first(), sep);
        if s[0] == sep {
            seq![Seq::empty()] + rest
        } else {
            seq![seq![s[0]] + rest[0]] + rest.drop_first()
        }
    }
}

/// Number of non-overlapping occurrences of `pat`, scanning from the left
/// (`str::matches(pat).count()` for a non-empty pattern).
pub open spec fn count_matches(s: Seq<char>, pat: Seq<char>) -> nat
    decreases s.len(),
{
    if pat.len() == 0 || s.len() < pat.len() {
        0
    } else if starts_with(s, pat) {
        1 + count_matches(s.subrange(pat.len() as int, s.len() as int), pat)
    } else {
        count_matches(s.drop_first(), pat)
    }
}

// ---------------------------------------------------------------------------
// Numbers as text
// ---------------------------------------------------------------------------

pub open spec fn digit_char(d: nat) -> char {
    if d < 10 {
        ((d + '0' as nat) as u32) as char
    } else {
        ((d - 10 + 'a' as nat) as u32) as char
    }
}

/// Decimal digits of `n`, without leading zeros (`"{}"`).
pub open spec fn decimal(n: nat) -> Seq<char>
    decreases n,
{
    if n < 10 {
        seq![digit_char(n)]
    } else {
        decimal(n / 10).push(digit_char(n % 10))
    }
}

/// Lowercase hexadecimal digits of `n`, without leading zeros (`"{:x}"`).
pub open spec fn hex_quantity(n: nat) -> Seq<char>
    decreases n,
{
    if n < 16 {
        seq![digit_char(n)]
    } else {
        hex_quantity(n / 16).push(digit_char(n % 16))
    }
}

/// Two lowercase hexadecimal digits per byte (`hex::encode`).
pub open spec fn hex_lower(data: Seq<u8>) -> Seq<char>
    decreases data.len(),
{
    if data.len() == 0 {
        Seq::empty()
    } else {
        hex_lower(data.drop_last()) + seq![
            digit_char((data.last() / 16) as nat),
            digit_char((data.last() % 16) as nat),
        ]
    }
}

/// Bytes denoted by an even-length run of hexadecimal digits.
pub open spec fn hex_bytes(s: Seq<char>) -> Seq<u8>
    decreases s.len(),
{
    if s.len() < 2 {
        Seq::empty()
    } else {
        hex_bytes(s.subrange(0, s.len() - 2)).push(
            (digit_value(s[s.len() - 2]) * 16 + digit_value(s[s.len() - 1])) as u8,
        )
    }
}

/// Why text is not an unsigned integer (the kinds of `core::num::ParseIntError`).
#[derive(Debug, Clone, Copy, PartialEq, Eq, Structural)]
pub enum IntErrorKind {
    Empty,
    InvalidDigit,
    PosOverflow,
}

/// Left-to-right digit scan of `from_str_radix`: each character must be a
/// digit, and the value must stay within `max`.
pub open spec fn scan_digits(d: Seq<char>, radix: nat, acc: nat, max: nat) -> Result<nat, IntErrorKind>
    decreases d.len(),
{
    if d.len() == 0 {
        Ok(acc)
    } else if !is_radix_digit(d[0], radix) {
        Err(IntErrorKind::InvalidDigit)
    } else if acc * radix + digit_value(d[0]) > max {
        Err(IntErrorKind::PosOverflow)
    } else {
        scan_digits(d.drop_first(), radix, acc * radix + digit_value(d[0]), max)
    }
}

/// `uN::from_str_radix(s, radix)` for an unsigned type whose largest value is
/// `max`: an optional `+`, then at least one digit.
pub open spec fn parse_unsigned(s: Seq<char>, radix: nat, max: nat) -> Result<nat, IntErrorKind> {
    if s.len() == 0 {
        Err(IntErrorKind::Empty)
    } else if s.len() == 1 && (s[0] == '+' || s[0] == '-') {
        Err(IntErrorKind::InvalidDigit)
    } else if s[0] == '+' {
        scan_digits(s.drop_first(), radix, 0, max)
    } else {
        scan_digits(s, radix, 0, max)
    }
}

/// The `Display` text of `ParseIntError` for each kind.
pub open spec fn int_error_message(k: IntErrorKind) -> Seq<char> {
    match k {
        IntErrorKind::Empty => "cannot parse integer from empty string"@,
        IntErrorKind::InvalidDigit => "invalid digit found in string"@,
        IntErrorKind::PosOverflow => "number too large to fit in target type"@,
    }
}

// ---------------------------------------------------------------------------
// Lemmas
// ---------------------------------------------------------------------------

pub proof fn lemma_split_nonempty(s: Seq<char>, sep: char)
    ensures
        split_on(s, sep).len() >= 1,
    decreases s.len(),
{
    if s.len() > 0 {
        lemma_split_nonempty(s.drop_first(), sep);
    }
}

/// Splitting `x ++ [sep] ++ y` splits `x` and `y` apart.
pub proof fn lemma_split_concat(x: Seq<char>, y: Seq<char>, sep: char)
    ensures
        split_on(x + seq![sep] + y, sep) == split_on(x, sep) + split_on(y, sep),
    decreases x.len(),
{
    let s = x + seq![sep] + y;
    if x.len() == 0 {
        assert(s.drop_first() =~= y);
        assert(s[0] == sep);
        assert(split_on(x, sep) =~= seq![Seq::<char>::empty()]);
        assert(split_on(s, sep) =~= split_on(x, sep) + split_on(y, sep));
    } else {
        let x1 = x.drop_first();
        assert(s.drop_first() =~= x1 + seq![sep] + y);
        lemma_split_concat(x1, y, sep);
        lemma_split_nonempty(x1, sep);
        let rest = split_on(x1, sep) + split_on(y, sep);
        assert(s[0] == x[0]);
        if x[0] == sep {
            assert(split_on(s, sep) =~= seq![Seq::<char>::empty()] + rest);
            assert(split_on(x, sep) =~= seq![Seq::<char>::empty()] + split_on(x1, sep));
            assert(split_on(s, sep) =~= split_on(x, sep) + split_on(y, sep));
        } else {
            assert(rest[0] == split_on(x1, sep)[0]);
            assert(rest.drop_first() =~= split_on(x1, sep).drop_first() + split_on(y, sep));
            assert(split_on(s, sep) =~= split_on(x, sep) + split_on(y, sep));
        }
    }
}

/// A piece without the separator splits into itself.
pub proof fn lemma_split_single(x: Seq<char>, sep: char)
    requires
        forall|i: int| 0 <= i < x.len() ==> #[trigger] x[i] != sep,
    ensures
        split_on(x, sep) == seq![x],
    decreases x.len(),
{
    if x.len() == 0 {
        assert(x =~= Seq::<char>::empty());
    } else {
        let x1 = x.drop_first();
        assert forall|i: int| 0 <= i < x1.len() implies #[trigger] x1[i] != sep by {
            assert(x1[i] == x[i + 1]);
        }
        lemma_split_single(x1, sep);
        assert(x[0] != sep);
        assert(seq![x[0]] + x1 =~= x);
        assert(split_on(x, sep) =~= seq![x]);
    }
}

/// One more character after a scanned prefix.
pub proof fn lemma_scan_push(s: Seq<char>, c: char, radix: nat, acc: nat, max: nat)
    ensures
        scan_digits(s.push(c), radix, acc, max) == match scan_digits(s, radix, acc, max) {
            Ok(v) => if !is_radix_digit(c, radix) {
                Err(IntErrorKind::InvalidDigit)
            } else if v * radix + digit_value(c) > max {
                Err(IntErrorKind::PosOverflow)
            } else {
                Ok(v * radix + digit_value(c))
            },
            Err(e) => Err(e),
        },
    decreases s.len(),
{
    if s.len() == 0 {
        assert(s.push(c).drop_first() =~= Seq::<char>::empty());
        assert(s.push(c)[0] == c);
        assert(scan_digits(Seq::<char>::empty(), radix, acc * radix + digit_value(c), max) == Ok::<nat, IntErrorKind>(acc * radix + digit_value(c)));
        assert(scan_digits(s, radix, acc, max) == Ok::<nat, IntErrorKind>(acc));
    } else {
        assert(s.push(c).drop_first() =~= s.drop_first().push(c));
        assert(s.push(c)[0] == s[0]);
        if is_radix_digit(s[0], radix) && acc * radix + digit_value(s[0]) <= max {
            lemma_scan_push(s.drop_first(), c, radix, acc * radix + digit_value(s[0]), max);
        }
    }
}

pub proof fn lemma_decimal_digits(n: nat)
    ensures
        decimal(n).len() >= 1,
        forall|i: int| 0 <= i < decimal(n).len() ==> is_dec_digit(#[trigger] decimal(n)[i]),
    decreases n,
{
    if n >= 10 {
        lemma_decimal_digits(n / 10);
    }
}

/// Decimal text reads back as its number.
pub proof fn lemma_digit_char(d: nat)
    requires
        d < 10,
    ensures
        is_dec_digit(digit_char(d)),
        digit_value(digit_char(d)) == d,
{
    assert(digit_char(d) as u32 == d + 48);
}

pub proof fn lemma_decimal_scan(n: nat, max: nat)
    requires
        n <= max,
    ensures
        scan_digits(decimal(n), 10, 0, max) == Ok::<nat, IntErrorKind>(n),
    decreases n,
{
    if n < 10 {
        assert(decimal(n) == seq![digit_char(n)]);
        assert(seq![digit_char(n)].drop_first() =~= Seq::<char>::empty());
        lemma_digit_char(n);
        assert(scan_digits(Seq::<char>::empty(), 10, n, max) == Ok::<nat, IntErrorKind>(n));
    } else {
        lemma_decimal_scan(n / 10, max);
        lemma_scan_push(decimal(n / 10), digit_char(n % 10), 10, 0, max);
        lemma_digit_char(n % 10);
    }
}

pub proof fn lemma_hex_digit_char(d: nat)
    requires
        d < 16,
    ensures
        is_hex_digit(digit_char(d)),
        digit_value(digit_char(d)) == d,
        digit_char(d) != '+',
{
    assert(digit_char(d) as u32 == if d < 10 {
        d + 48
    } else {
        d + 87
    });
}

pub proof fn lemma_hex_quantity_digits(n: nat)
    ensures
        hex_quantity(n).len() >= 1,
        forall|i: int| 0 <= i < hex_quantity(n).len() ==> is_lower_hex_digit(#[trigger] hex_quantity(n)[i]),
    decreases n,
{
    if n >= 16 {
        lemma_hex_quantity_digits(n / 16);
    }
    lemma_hex_digit_char(n % 16);
    assert(digit_char(n % 16) as u32 == if n % 16 < 10 {
        n % 16 + 48
    } else {
        n % 16 + 87
    });
}

/// Hex text of a number reads back as that number.
pub proof fn lemma_hex_quantity_scan(n: nat, max: nat)
    requires
        n <= max,
    ensures
        scan_digits(hex_quantity(n), 16, 0, max) == Ok::<nat, IntErrorKind>(n),
    decreases n,
{
    if n < 16 {
        assert(seq![digit_char(n)].drop_first() =~= Seq::<char>::empty());
        lemma_hex_digit_char(n);
        assert(scan_digits(Seq::<char>::empty(), 16, n, max) == Ok::<nat, IntErrorKind>(n));
    } else {
        lemma_hex_quantity_scan(n / 16, max);
        lemma_scan_push(hex_quantity(n / 16), digit_char(n % 16), 16, 0, max);
        lemma_hex_digit_char(n % 16);
    }
}

/// `from_str_radix(decimal(n), 10)` gives `n` back.
pub proof fn lemma_parse_decimal(n: nat, max: nat)
    requires
        n <= max,
    ensures
        parse_unsigned(decimal(n), 10, max) == Ok::<nat, IntErrorKind>(n),
{
    lemma_decimal_digits(n);
    lemma_decimal_scan(n, max);
    assert(is_dec_digit(decimal(n)[0]));
}

/// Bytes that a character takes in UTF-8.
pub open spec fn utf8_width(c: char) -> nat {
    if (c as u32) < 0x80 {
        1
    } else if (c as u32) < 0x800 {
        2
    } else if (c as u32) < 0x10000 {
        3
    } else {
        4
    }
}

/// Bytes that a text takes in UTF-8.
pub open spec fn utf8_len(s: Seq<char>) -> nat
    decreases s.len(),
{
    if s.len() == 0 {
        0
    } else {
        utf8_len(s.drop_last()) + utf8_width(s.last())
    }
}

/// Lowercase hex digit characters.
pub open spec fn is_lower_hex_digit(c: char) -> bool {
    ('0' <= c && c <= '9') || ('a' <= c && c <= 'f')
}

/// Exactly `n` lowercase hex digits.
pub open spec fn is_lower_hex_text(s: Seq<char>, n: nat) -> bool {
    s.len() == n && forall|i: int| 0 <= i < s.len() ==> is_lower_hex_digit(#[trigger] s[i])
}

pub proof fn lemma_hex_lower_shape(b: Seq<u8>)
    ensures
        hex_lower(b).len() == 2 * b.len(),
        forall|i: int| 0 <= i < hex_lower(b).len() ==> is_lower_hex_digit(#[trigger] hex_lower(b)[i]),
    decreases b.len(),
{
    if b.len() > 0 {
        lemma_hex_lower_shape(b.drop_last());
        let h = hex_lower(b.drop_last());
        let t = seq![digit_char((b.last() / 16) as nat), digit_char((b.last() % 16) as nat)];
        assert forall|i: int| 0 <= i < hex_lower(b).len() implies is_lower_hex_digit(#[trigger] hex_lower(b)[i]) by {
            if i < h.len() {
                assert(hex_lower(b)[i] == h[i]);
            } else {
                assert(hex_lower(b)[i] == t[i - h.len()]);
            }
        }
    }
}

/// On lowercase hex text, trimming and lower-casing change nothing.
pub proof fn lemma_lower_hex_fixed(s: Seq<char>)
    requires
        forall|i: int| 0 <= i < s.len() ==> is_lower_hex_digit(#[trigger] s[i]),
    ensures
        trim(s) == s,
        ascii_lower(s) == s,
        all_hex(s),
{
    if s.len() > 0 {
        assert(is_lower_hex_digit(s[0]));
        assert(is_lower_hex_digit(s.last()));
    }
    assert(trim_start(s) == s);
    assert(trim_end(s) == s);
    assert(ascii_lower(s) =~= s);
}

// ---------------------------------------------------------------------------
// Executable helpers
// ---------------------------------------------------------------------------

/// The characters of a string slice, in order.
pub fn chars_of(s: &str) -> (res: Vec<char>)
    ensures
        res@ == s@,
{
    let mut out: Vec<char> = Vec::new();
    for c in it: s.chars()
        invariant
            out@ == it.seq().take(it.index() as int),
            it.seq() == s@,
    {
        out.push(c);
    }
    out
}

/// Collects characters into a `String` (`FromIterator<char>` for `String`).
#[verifier::external_body]
pub(crate) fn string_from_chars(chars: &[char]) -> (res: String)
    ensures
        res@ == chars@,
{
    chars.iter().collect()
}

/// Unicode lower-casing of a string, character by character and
/// context-sensitive where Unicode says so.
pub uninterp spec fn unicode_lowercase(s: Seq<char>) -> Seq<char>;

/// Every character is ASCII.
pub open spec fn is_ascii_text(s: Seq<char>) -> bool {
    forall|i: int| 0 <= i < s.len() ==> (#[trigger] s[i] as u32) < 128
}

/// Lower-cased text: on ASCII text `A`-`Z` become `a`-`z` and nothing else
/// changes; beyond ASCII, the Unicode mapping.
pub open spec fn lower_text(s: Seq<char>) -> Seq<char> {
    if is_ascii_text(s) {
        ascii_lower(s)
    } else {
        unicode_lowercase(s)
    }
}

/// `str::to_lowercase`: the contract names the result, and states it for
/// ASCII text, where the Unicode `Lowercase` mapping that the documentation
/// defines it by takes `A`-`Z` to `a`-`z` and leaves every other character
/// as it is. Beyond ASCII the mapping is not restated here.
#[verifier::external_body]
pub(crate) fn lowercase(s: &str) -> (res: String)
    ensures
        res@ == unicode_lowercase(s@),
        res@ == lower_text(s@),
{
    s.to_lowercase()
}

/// A string literal's characters as an owned vector.
pub fn lit(s: &str) -> (res: Vec<char>)
    ensures
        res@ == s@,
{
    chars_of(s)
}

/// Appends all of `src` to `dst`.
pub fn push_all(dst: &mut Vec<char>, src: &[char])
    ensures
        final(dst)@ == old(dst)@ + src@,
{
    let mut i: usize = 0;
    while i < src.len()
        invariant
            0 <= i <= src@.len(),
            dst@ == old(dst)@ + src@.subrange(0, i as int),
        decreases src@.len() - i,
    {
        dst.push(src[i]);
        i = i + 1;
        assert(src@.subrange(0, i as int) == src@.subrange(0, i - 1 as int).push(src@[i - 1]));
    }
    assert(src@.subrange(0, src@.len() as int) == src@);
}

/// Copies `s[start..end]`.
pub fn slice_chars(s: &[char], start: usize, end: usize) -> (res: Vec<char>)
    requires
        start <= end <= s@.len(),
    ensures
        res@ == s@.subrange(start as int, end as int),
{
    let mut out: Vec<char> = Vec::new();
    let mut i: usize = start;
    while i < end
        invariant
            start <= i <= end <= s@.len(),
            out@ == s@.subrange(start as int, i as int),
        decreases end - i,
    {
        out.push(s[i]);
        i = i + 1;
        assert(s@.subrange(start as int, i as int) == s@.subrange(start as int, i - 1 as int).push(
            s@[i - 1],
        ));
    }
    out
}

pub fn chars_eq(a: &[char], b: &[char]) -> (res: bool)
    ensures
        res == (a@ == b@),
{
    if a.len() != b.len() {
        return false;
    }
    let mut i: usize = 0;
    while i < a.len()
        invariant
            a@.len() == b@.len(),
            0 <= i <= a@.len(),
            forall|j: int| 0 <= j < i ==> a@[j] == b@[j],
        decreases a@.len() - i,
    {
        if a[i] != b[i] {
            return false;
        }
        i = i + 1;
    }
    assert(a@ =~= b@);
    true
}

/// `pat` occurs in `s` at `i`.
pub fn matches_at(s: &[char], pat: &[char], i: usize) -> (res: bool)
    ensures
        res == occurs_at(s@, pat@, i as int),
{
    if i > s.len() || pat.len() > s.len() - i {
        return false;
    }
    let slen = s.len();
    let mut k: usize = 0;
    while k < pat.len()
        invariant
            slen == s@.len(),
            i <= s@.len(),
            i + pat@.len() <= s@.len(),
            0 <= k <= pat@.len(),
            forall|j: int| 0 <= j < k ==> s@[i + j] == pat@[j],
        decreases pat@.len() - k,
    {
        if s[i + k] != pat[k] {
            assert(s@.subrange(i as int, i + pat@.len())[k as int] != pat@[k as int]);
            return false;
        }
        k = k + 1;
    }
    assert(s@.subrange(i as int, i + pat@.len()) =~= pat@);
    true
}

pub fn starts_with_chars(s: &[char], prefix: &[char]) -> (res: bool)
    ensures
        res == starts_with(s@, prefix@),
{
    matches_at(s, prefix, 0)
}

pub fn ends_with_chars(s: &[char], suffix: &[char]) -> (res: bool)
    ensures
        res == ends_with(s@, suffix@),
{
    if suffix.len() > s.len() {
        return false;
    }
    matches_at(s, suffix, s.len() - suffix.len())
}

/// First position at which `pat` occurs (`str::find`).
pub fn find_chars(s: &[char], pat: &[char]) -> (res: Option<usize>)
    ensures
        res == (match first_occurrence(s@, pat@) {
            Some(i) => Some(i as usize),
            None => None::<usize>,
        }),
        res matches Some(i) ==> occurs_at(s@, pat@, i as int) && first_occurrence(s@, pat@) == Some(i as int),
{
    if pat.len() == 0 {
        assert(occurs_at(s@, pat@, 0)) by {
            assert(s@.subrange(0, 0) =~= pat@);
        }
        assert(contains(s@, pat@));
        proof {
            let w = choose|w: int|
                occurs_at(s@, pat@, w) && forall|j: int| 0 <= j < w ==> !occurs_at(s@, pat@, j);
            assert(occurs_at(s@, pat@, w) && forall|j: int| 0 <= j < w ==> !occurs_at(s@, pat@, j));
            assert(!(w > 0));
        }
        return Some(0);
    }
    let mut i: usize = 0;
    while i < s.len()
        invariant
            0 <= i <= s@.len(),
            pat@.len() > 0,
            forall|j: int| 0 <= j < i ==> !occurs_at(s@, pat@, j),
        decreases s@.len() - i,
    {
        if matches_at(s, pat, i) {
            assert(contains(s@, pat@));
            proof {
                let w = choose|w: int|
                    occurs_at(s@, pat@, w) && forall|j: int| 0 <= j < w ==> !occurs_at(s@, pat@, j);
                assert(occurs_at(s@, pat@, w) && forall|j: int| 0 <= j < w ==> !occurs_at(s@, pat@, j));
                assert(!(w < i));
                assert(!(w > i));
            }
            return Some(i);
        }
        i = i + 1;
    }
    assert forall|j: int| !occurs_at(s@, pat@, j) by {
        if 0 <= j && j + pat@.len() <= s@.len() {
            assert(j < i);
        }
    }
    None
}

pub fn contains_chars(s: &[char], pat: &[char]) -> (res: bool)
    ensures
        res == contains(s@, pat@),
{
    let r = find_chars(s, pat);
    r.is_some()
}

pub fn to_ascii_lower(s: &[char]) -> (res: Vec<char>)
    ensures
        res@ == ascii_lower(s@),
{
    let mut out: Vec<char> = Vec::new();
    let mut i: usize = 0;
    while i < s.len()
        invariant
            0 <= i <= s@.len(),
            out@ =~= ascii_lower(s@.subrange(0, i as int)),
        decreases s@.len() - i,
    {
        let c = s[i];
        let d = if 'A' <= c && c <= 'Z' {
            ((c as u8) + 32) as char
        } else {
            c
        };
        assert(d == lower_char(c)) by {
            if 'A' <= c && c <= 'Z' {
                assert((c as u8) as u32 == c as u32);
            }
        }
        out.push(d);
        i = i + 1;
    }
    assert(s@.subrange(0, s@.len() as int) == s@);
    out
}

pub fn to_ascii_upper(s: &[char]) -> (res: Vec<char>)
    ensures
        res@ == ascii_upper(s@),
{
    let mut out: Vec<char> = Vec::new();
    let mut i: usize = 0;
    while i < s.len()
        invariant
            0 <= i <= s@.len(),
            out@ =~= ascii_upper(s@.subrange(0, i as int)),
        decreases s@.len() - i,
    {
        let c = s[i];
        let d = if 'a' <= c && c <= 'z' {
            ((c as u8) - 32) as char
        } else {
            c
        };
        assert(d == upper_char(c)) by {
            if 'a' <= c && c <= 'z' {
                assert((c as u8) as u32 == c as u32);
            }
        }
        out.push(d);
        i = i + 1;
    }
    assert(s@.subrange(0, s@.len() as int) == s@);
    out
}

pub fn is_hex_digit_exec(c: char) -> (res: bool)
    ensures
        res == is_hex_digit(c),
{
    ('0' <= c && c <= '9') || ('a' <= c && c <= 'f') || ('A' <= c && c <= 'F')
}

/// Every character is an ASCII hexadecimal digit.
pub fn all_hex_exec(s: &[char]) -> (res: bool)
    ensures
        res == all_hex(s@),
{
    let mut i: usize = 0;
    while i < s.len()
        invariant
            0 <= i <= s@.len(),
            forall|j: int| 0 <= j < i ==> is_hex_digit(#[trigger] s@[j]),
        decreases s@.len() - i,
    {
        if !is_hex_digit_exec(s[i]) {
            return false;
        }
        i = i + 1;
    }
    true
}

pub fn is_whitespace_exec(c: char) -> (res: bool)
    ensures
        res == is_unicode_whitespace(c),
{
    ('\u{9}' <= c && c <= '\u{d}') || c == ' ' || c == '\u{85}' || c == '\u{a0}' || c == '\u{1680}'
        || ('\u{2000}' <= c && c <= '\u{200a}') || c == '\u{2028}' || c == '\u{2029}' || c
        == '\u{202f}' || c == '\u{205f}' || c == '\u{3000}'
}

proof fn lemma_trim_start_skip(s: Seq<char>, i: int)
    requires
        0 <= i <= s.len(),
        forall|j: int| 0 <= j < i ==> is_unicode_whitespace(#[trigger] s[j]),
    ensures
        trim_start(s) == trim_start(s.subrange(i, s.len() as int)),
    decreases i,
{
    if i > 0 {
        assert(s.drop_first().subrange(i - 1, s.drop_first().len() as int) =~= s.subrange(
            i,
            s.len() as int,
        ));
        lemma_trim_start_skip(s.drop_first(), i - 1);
    } else {
        assert(s.subrange(0, s.len() as int) =~= s);
    }
}

proof fn lemma_trim_end_skip(s: Seq<char>, e: int)
    requires
        0 <= e <= s.len(),
        forall|j: int| e <= j < s.len() ==> is_unicode_whitespace(#[trigger] s[j]),
    ensures
        trim_end(s) == trim_end(s.subrange(0, e)),
    decreases s.len() - e,
{
    if e < s.len() {
        assert(s.drop_last().subrange(0, e) =~= s.subrange(0, e));
        lemma_trim_end_skip(s.drop_last(), e);
    } else {
        assert(s.subrange(0, e) =~= s);
    }
}

/// `str::trim`: whitespace removed from both ends.
pub fn trim_chars(s: &[char]) -> (res: Vec<char>)
    ensures
        res@ == trim(s@),
{
    let mut i: usize = 0;
    while i < s.len() && is_whitespace_exec(s[i])
        invariant
            0 <= i <= s@.len(),
            forall|j: int| 0 <= j < i ==> is_unicode_whitespace(#[trigger] s@[j]),
        decreases s@.len() - i,
    {
        i = i + 1;
    }
    proof {
        lemma_trim_start_skip(s@, i as int);
    }
    let ghost t = s@.subrange(i as int, s@.len() as int);
    assert(trim_start(t) == t);
    let mut e: usize = s.len();
    while e > i && is_whitespace_exec(s[e - 1])
        invariant
            i <= e <= s@.len(),
            forall|j: int| e <= j < s@.len() ==> is_unicode_whitespace(#[trigger] s@[j]),
        decreases e,
    {
        e = e - 1;
    }
    proof {
        let u = e - i;
        assert forall|j: int| u <= j < t.len() implies is_unicode_whitespace(#[trigger] t[j]) by {
            assert(t[j] == s@[j + i]);
        }
        lemma_trim_end_skip(t, u as int);
        assert(t.subrange(0, u as int) =~= s@.subrange(i as int, e as int));
        if e > i {
            assert(s@.subrange(i as int, e as int).last() == s@[e - 1]);
        }
    }
    slice_chars(s, i, e)
}

/// `str::trim_start_matches(prefix)` for a non-empty prefix.
pub fn trim_prefix_all_chars(s: &[char], prefix: &[char]) -> (res: Vec<char>)
    requires
        prefix@.len() > 0,
    ensures
        res@ == trim_prefix_all(s@, prefix@),
{
    let mut i: usize = 0;
    let slen = s.len();
    assert(s@.subrange(0, s@.len() as int) =~= s@);
    loop
        invariant
            slen == s@.len(),
            0 <= i <= s@.len(),
            prefix@.len() > 0,
            trim_prefix_all(s@, prefix@) == trim_prefix_all(s@.subrange(i as int, s@.len() as int), prefix@),
        ensures
            0 <= i <= s@.len(),
            !occurs_at(s@, prefix@, i as int),
            trim_prefix_all(s@, prefix@) == trim_prefix_all(s@.subrange(i as int, s@.len() as int), prefix@),
        decreases s@.len() - i,
    {
        if !matches_at(s, prefix, i) {
            break;
        }
        let ghost r = s@.subrange(i as int, s@.len() as int);
        assert(r.subrange(0, prefix@.len() as int) =~= s@.subrange(i as int, i + prefix@.len()));
        assert(r.subrange(prefix@.len() as int, r.len() as int) =~= s@.subrange(
            i + prefix@.len(),
            s@.len() as int,
        ));
        i = i + prefix.len();
    }
    let ghost r = s@.subrange(i as int, s@.len() as int);
    assert(!starts_with(r, prefix@)) by {
        if starts_with(r, prefix@) {
            assert(r.subrange(0, prefix@.len() as int) =~= s@.subrange(i as int, i + prefix@.len()));
        }
    }
    slice_chars(s, i, s.len())
}

/// Appends the decimal digits of `n`.
pub fn push_decimal(out: &mut Vec<char>, n: u128)
    ensures
        final(out)@ == old(out)@ + decimal(n as nat),
    decreases n,
{
    if n >= 10 {
        push_decimal(out, n / 10);
    }
    let d = (n % 10) as u8;
    let c = (d + 48) as char;
    assert(c == digit_char((n % 10) as nat));
    out.push(c);
}

/// Appends the lowercase hexadecimal digits of `n`.
pub fn push_hex_quantity(out: &mut Vec<char>, n: u128)
    ensures
        final(out)@ == old(out)@ + hex_quantity(n as nat),
    decreases n,
{
    if n >= 16 {
        push_hex_quantity(out, n / 16);
    }
    let d = (n % 16) as u8;
    let c = if d < 10 {
        (d + 48) as char
    } else {
        (d - 10 + 97) as char
    };
    assert(c == digit_char((n % 16) as nat));
    out.push(c);
}

/// `uN::from_str_radix(s, radix)` for radix 10 or 16 and an unsigned type
/// whose largest value is `max`.
pub fn parse_unsigned_exec(s: &[char], radix: u32, max: u128) -> (res: Result<u128, IntErrorKind>)
    requires
        radix == 10 || radix == 16,
    ensures
        match res {
            Ok(v) => parse_unsigned(s@, radix as nat, max as nat) == Ok::<nat, IntErrorKind>(v as nat),
            Err(k) => parse_unsigned(s@, radix as nat, max as nat) == Err::<nat, IntErrorKind>(k),
        },
        res matches Ok(v) ==> v <= max,
{
    if s.len() == 0 {
        return Err(IntErrorKind::Empty);
    }
    if s.len() == 1 && (s[0] == '+' || s[0] == '-') {
        return Err(IntErrorKind::InvalidDigit);
    }
    let start: usize = if s[0] == '+' {
        1
    } else {
        0
    };
    let ghost d = s@.subrange(start as int, s@.len() as int);
    assert(d == (if s@[0] == '+' {
        s@.drop_first()
    } else {
        s@
    }));
    let mut acc: u128 = 0;
    let mut i: usize = start;
    while i < s.len()
        invariant
            start <= i <= s@.len(),
            radix == 10 || radix == 16,
            acc <= max,
            parse_unsigned(s@, radix as nat, max as nat) == scan_digits(d, radix as nat, 0, max as nat),
            scan_digits(d, radix as nat, 0, max as nat) == scan_digits(
                s@.subrange(i as int, s@.len() as int),
                radix as nat,
                acc as nat,
                max as nat,
            ),
        decreases s@.len() - i,
    {
        let c = s[i];
        let ghost r = s@.subrange(i as int, s@.len() as int);
        assert(r[0] == c);
        assert(r.drop_first() =~= s@.subrange(i + 1, s@.len() as int));
        let is_digit = if radix == 16 {
            is_hex_digit_exec(c)
        } else {
            '0' <= c && c <= '9'
        };
        if !is_digit {
            return Err(IntErrorKind::InvalidDigit);
        }
        let v: u128 = if '0' <= c && c <= '9' {
            (c as u32 - '0' as u32) as u128
        } else if 'a' <= c && c <= 'f' {
            (c as u32 - 'a' as u32 + 10) as u128
        } else {
            (c as u32 - 'A' as u32 + 10) as u128
        };
        assert(v == digit_value(c));
        let r128 = radix as u128;
        if v > max || acc > (max - v) / r128 {
            proof {
                if acc * radix + v <= max {
                    let a = acc as int;
                    let m = (max - v) as int;
                    let r = r128 as int;
                    assert(a * r <= m);
                    assert(a <= m / r) by (nonlinear_arith)
                        requires
                            a * r <= m,
                            r > 0,
                            m >= 0,
                    ;
                }
            }
            return Err(IntErrorKind::PosOverflow);
        }
        proof {
            let a = acc as int;
            let m = (max - v) as int;
            let r = r128 as int;
            assert(a * r <= m) by (nonlinear_arith)
                requires
                    a <= m / r,
                    r > 0,
                    m >= 0,
            ;
        }
        acc = acc * r128 + v;
        i = i + 1;
    }
    assert(s@.subrange(i as int, s@.len() as int) =~= Seq::<char>::empty());
    Ok(acc)
}

/// Appends the `Display` text of a `ParseIntError` of the given kind.
pub fn push_int_error_message(out: &mut Vec<char>, k: IntErrorKind)
    ensures
        final(out)@ == old(out)@ + int_error_message(k),
{
    let m = match k {
        IntErrorKind::Empty => lit("cannot parse integer from empty string"),
        IntErrorKind::InvalidDigit => lit("invalid digit found in string"),
        IntErrorKind::PosOverflow => lit("number too large to fit in target type"),
    };
    push_all(out, &m);
}

/// Splits on a one-character separator (`str::split(sep)`).
pub fn split_chars(s: &[char], sep: char) -> (res: Vec<Vec<char>>)
    ensures
        res@.len() == split_on(s@, sep).len(),
        forall|i: int| 0 <= i < res@.len() ==> #[trigger] res@[i]@ == split_on(s@, sep)[i],
{
    // Work from the right so that each piece is finished before it is stored.
    let mut parts: Vec<Vec<char>> = Vec::new();
    let mut cur: Vec<char> = Vec::new();
    let mut i: usize = s.len();
    while i > 0
        invariant
            0 <= i <= s@.len(),
            split_on(s@.subrange(i as int, s@.len() as int), sep) =~= seq![cur@] + Seq::new(
                parts@.len(),
                |k: int| parts@[parts@.len() - 1 - k]@,
            ),
        decreases i,
    {
        let c = s[i - 1];
        let ghost before = split_on(s@.subrange(i as int, s@.len() as int), sep);
        let ghost t = s@.subrange(i - 1, s@.len() as int);
        assert(t.drop_first() =~= s@.subrange(i as int, s@.len() as int));
        assert(t[0] == c);
        if c == sep {
            let finished = cur;
            parts.push(finished);
            cur = Vec::new();
            assert(split_on(t, sep) =~= seq![Seq::<char>::empty()] + before);
        } else {
            let mut next: Vec<char> = Vec::new();
            next.push(c);
            let old_cur = cur;
            push_all(&mut next, &old_cur);
            cur = next;
            assert(split_on(t, sep) =~= seq![seq![c] + before[0]] + before.drop_first());
        }
        i = i - 1;
    }
    assert(s@.subrange(0, s@.len() as int) =~= s@);
    let mut out: Vec<Vec<char>> = Vec::new();
    out.push(cur);
    let ghost full = split_on(s@, sep);
    let ghost n = parts@.len();
    while parts.len() > 0
        invariant
            parts@.len() <= n,
            full =~= seq![full[0]] + Seq::new(n, |j: int| full[j + 1]),
            forall|j: int| 0 <= j < parts@.len() ==> #[trigger] parts@[j]@ == full[n - j],
            out@.len() == n - parts@.len() + 1,
            forall|j: int| 0 <= j < out@.len() ==> #[trigger] out@[j]@ == full[j],
        decreases parts@.len(),
    {
        let p = parts.pop().unwrap();
        out.push(p);
    }
    out
}

} // verus!
