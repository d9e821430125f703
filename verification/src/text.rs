use vstd::prelude::*;

verus! {

/// Unicode `White_Space` characters, which Rust's `char::is_whitespace`
/// recognises.
pub open spec fn is_whitespace_spec(c: char) -> bool {
    let v = c as u32;
    ||| 0x09 <= v <= 0x0D
    ||| v == 0x20
    ||| v == 0x85
    ||| v == 0xA0
    ||| v == 0x1680
    ||| 0x2000 <= v <= 0x200A
    ||| v == 0x2028
    ||| v == 0x2029
    ||| v == 0x202F
    ||| v == 0x205F
    ||| v == 0x3000
}

/// Whether `c` is white space in the Unicode sense.
pub fn is_whitespace(c: char) -> (r: bool)
    ensures
        r == is_whitespace_spec(c),
{
    let v = c as u32;
    (0x09 <= v && v <= 0x0D) || v == 0x20 || v == 0x85 || v == 0xA0 || v == 0x1680 || (0x2000 <= v
        && v <= 0x200A) || v == 0x2028 || v == 0x2029 || v == 0x202F || v == 0x205F || v == 0x3000
}

/// Characters that no text field accepts: ASCII control characters and the
/// Unicode private use areas.
pub open spec fn is_printable_spec(c: char) -> bool {
    let v = c as u32;
    let private = (0xE000 <= v <= 0xF8FF) || (0xF0000 <= v <= 0xFFFFD) || (0x100000 <= v
        <= 0x10FFFD);
    let control = v <= 0x1F || v == 0x7F;
    !private && !control
}

/// Whether `chr` may be typed into a text field: neither an ASCII control
/// character nor a private use character.
pub fn is_printable_char(chr: char) -> (r: bool)
    ensures
        r == is_printable_spec(chr),
{
    let v = chr as u32;
    let is_private = (0xE000 <= v && v <= 0xF8FF) || (0xF0000 <= v && v <= 0xFFFFD) || (0x100000
        <= v && v <= 0x10FFFD);
    let is_control = v <= 0x1F || v == 0x7F;
    !is_private && !is_control
}

/// Among ASCII characters exactly the visible ones and the space
/// (`0x20..=0x7E`) may be typed; outside ASCII every character may be typed
/// except those of the private use areas (`U+E000..=U+F8FF`,
/// `U+F0000..=U+FFFFD` and `U+100000..=U+10FFFD`).
pub proof fn lemma_printable_chars(c: char)
    ensures
        (c as u32) < 0x80 ==> (is_printable_spec(c) <==> 0x20 <= (c as u32) && (c as u32) <= 0x7E),
        (c as u32) >= 0x80 ==> (is_printable_spec(c) <==> !(0xE000 <= (c as u32) && (c as u32)
            <= 0xF8FF) && !(0xF0000 <= (c as u32) && (c as u32) <= 0xFFFFD) && !(0x100000 <= (
        c as u32) && (c as u32) <= 0x10FFFD)),
{
}

/// Whether every character of `s` satisfies `is_printable_spec`.
pub open spec fn all_printable_spec(s: Seq<char>) -> bool {
    forall|i: int| 0 <= i < s.len() ==> is_printable_spec(#[trigger] s[i])
}

/// Whether every character of `text` may be typed into a text field.
pub fn all_printable(text: &str) -> (r: bool)
    ensures
        r == all_printable_spec(text@),
{
    let n = text.unicode_len();
    let mut i: usize = 0;
    while i < n
        invariant
            n == text@.len(),
            i <= n,
            forall|j: int| 0 <= j < i ==> is_printable_spec(#[trigger] text@[j]),
        decreases n - i,
    {
        if !is_printable_char(text.get_char(i)) {
            return false;
        }
        i = i + 1;
    }
    true
}

/// `s[a..b]` is `s` with leading and trailing white space removed.
pub open spec fn is_trim_range(s: Seq<char>, a: int, b: int) -> bool {
    &&& 0 <= a <= b <= s.len()
    &&& forall|i: int| 0 <= i < a ==> is_whitespace_spec(#[trigger] s[i])
    &&& forall|i: int| b <= i < s.len() ==> is_whitespace_spec(#[trigger] s[i])
    &&& a < b ==> !is_whitespace_spec(s[a]) && !is_whitespace_spec(s[b - 1])
}

/// Whether `s` holds only white space.
pub open spec fn is_blank_spec(s: Seq<char>) -> bool {
    forall|i: int| 0 <= i < s.len() ==> is_whitespace_spec(#[trigger] s[i])
}

/// Bounds `(a, b)` of `s` without its leading and trailing white space.
pub fn trim_bounds(s: &str) -> (r: (usize, usize))
    ensures
        is_trim_range(s@, r.0 as int, r.1 as int),
{
    let n = s.unicode_len();
    let mut a: usize = 0;
    while a < n && is_whitespace(s.get_char(a))
        invariant
            n == s@.len(),
            a <= n,
            forall|i: int| 0 <= i < a ==> is_whitespace_spec(#[trigger] s@[i]),
        decreases n - a,
    {
        a = a + 1;
    }
    let mut b: usize = n;
    while b > a && is_whitespace(s.get_char(b - 1))
        invariant
            n == s@.len(),
            a <= b <= n,
            a < n ==> !is_whitespace_spec(s@[a as int]),
            forall|i: int| 0 <= i < a ==> is_whitespace_spec(#[trigger] s@[i]),
            forall|i: int| b <= i < n ==> is_whitespace_spec(#[trigger] s@[i]),
        decreases b - a,
    {
        b = b - 1;
    }
    (a, b)
}

/// `s` without its leading and trailing white space.
pub fn trim(s: &str) -> (t: &str)
    ensures
        exists|a: int, b: int| is_trim_range(s@, a, b) && t@ == s@.subrange(a, b),
{
    let (a, b) = trim_bounds(s);
    let t = s.substring_char(a, b);
    assert(is_trim_range(s@, a as int, b as int) && t@ == s@.subrange(a as int, b as int));
    t
}

/// Whether `s` holds only white space (it trims to nothing).
pub fn is_blank(s: &str) -> (r: bool)
    ensures
        r == is_blank_spec(s@),
{
    let (a, b) = trim_bounds(s);
    a == b
}

/// `value`, unless it is blank, in which case `placeholder`.
pub fn display_or_placeholder<'a>(value: &'a str, placeholder: &'a str) -> (r: &'a str)
    ensures
        r@ == (if is_blank_spec(value@) {
            placeholder@
        } else {
            value@
        }),
{
    if is_blank(value) {
        placeholder
    } else {
        value
    }
}

/// The marker shown beside a text field: whether it is being typed into.
pub fn focus_marker(active: bool) -> (r: &'static str)
    ensures
        r@ == (if active {
            "typing"@
        } else {
            "idle"@
        }),
{
    if active {
        "typing"
    } else {
        "idle"
    }
}

/// Appends one character to a string.
///
/// Calls `String::push`; claims that the string afterwards is the old one
/// followed by `c`.
#[verifier::external_body]
pub(crate) fn push_char(s: &mut String, c: char)
    ensures
        final(s)@ == old(s)@.push(c),
{
    s.push(c)
}

/// Removes the last character of a string and returns it.
///
/// Calls `String::pop`; claims that it returns `None` and leaves the string
/// alone when it is empty, and otherwise returns its last character and
/// drops it.
#[verifier::external_body]
pub(crate) fn pop_char(s: &mut String) -> (c: Option<char>)
    ensures
        old(s)@.len() == 0 ==> c is None && final(s)@ == old(s)@,
        old(s)@.len() > 0 ==> c == Some(old(s)@.last()) && final(s)@ == old(s)@.drop_last(),
{
    s.pop()
}

/// The character of a decimal digit `d < 10`.
pub open spec fn digit_char(d: int) -> char {
    (d + 48) as char
}

/// The decimal notation of `n`, without leading zeros.
pub open spec fn decimal(n: nat) -> Seq<char>
    decreases n,
{
    if n < 10 {
        seq![digit_char(n as int)]
    } else {
        decimal(n / 10).push(digit_char((n % 10) as int))
    }
}

/// The character of the decimal digit `d`.
fn digit_of(d: u64) -> (c: char)
    requires
        d < 10,
    ensures
        c == digit_char(d as int),
{
    if d == 0 {
        '0'
    } else if d == 1 {
        '1'
    } else if d == 2 {
        '2'
    } else if d == 3 {
        '3'
    } else if d == 4 {
        '4'
    } else if d == 5 {
        '5'
    } else if d == 6 {
        '6'
    } else if d == 7 {
        '7'
    } else if d == 8 {
        '8'
    } else {
        '9'
    }
}

/// Appends the decimal notation of `n` to `s`.
pub fn write_decimal(s: &mut String, n: u64)
    ensures
        final(s)@ == old(s)@ + decimal(n as nat),
    decreases n,
{
    if n >= 10 {
        write_decimal(s, n / 10);
    }
    let c = digit_of(n % 10);
    push_char(s, c);
    assert(s@ =~= old(s)@ + decimal(n as nat));
}

/// Whether `c` is an ASCII decimal digit.
pub open spec fn is_digit(c: char) -> bool {
    '0' <= c <= '9'
}

/// The value of a string of decimal digits (most significant first).
pub open spec fn digits_value(s: Seq<char>) -> nat
    decreases s.len(),
{
    if s.len() == 0 {
        0
    } else {
        digits_value(s.drop_last()) * 10 + ((s.last() as u32) - 48) as nat
    }
}

/// `s` without one leading `+` sign.
pub open spec fn unsigned_digits(s: Seq<char>) -> Seq<char> {
    if s.len() > 0 && s[0] == '+' {
        s.drop_first()
    } else {
        s
    }
}

/// Whether every character of `d` is a decimal digit.
pub open spec fn all_digits(d: Seq<char>) -> bool {
    forall|i: int| 0 <= i < d.len() ==> is_digit(#[trigger] d[i])
}

/// What parsing `s` as a `u16` gives: an optional `+` sign followed by at
/// least one decimal digit, whose value must fit in 16 bits.
pub open spec fn parse_u16_spec(s: Seq<char>) -> Option<u16> {
    let d = unsigned_digits(s);
    if d.len() == 0 || !all_digits(d) || digits_value(d) > u16::MAX {
        None
    } else {
        Some(digits_value(d) as u16)
    }
}

proof fn lemma_digits_value_monotone(d: Seq<char>, k: int)
    requires
        0 <= k <= d.len(),
        forall|i: int| 0 <= i < d.len() ==> is_digit(#[trigger] d[i]),
    ensures
        digits_value(d.take(k)) <= digits_value(d),
    decreases d.len() - k,
{
    if k < d.len() {
        lemma_digits_value_monotone(d, k + 1);
        assert(d.take(k + 1).drop_last() =~= d.take(k));
    } else {
        assert(d.take(k) =~= d);
    }
}

/// Parses a port number the way `str::parse::<u16>` does.
pub fn parse_u16(s: &str) -> (r: Option<u16>)
    ensures
        r == parse_u16_spec(s@),
{
    let n = s.unicode_len();
    let mut start: usize = 0;
    if n > 0 && s.get_char(0) == '+' {
        start = 1;
    }
    let ghost d = unsigned_digits(s@);
    assert(d =~= s@.subrange(start as int, n as int));
    if start == n {
        return None;
    }
    let mut i: usize = start;
    let mut acc: u32 = 0;
    while i < n
        invariant
            n == s@.len(),
            start <= i <= n,
            d == s@.subrange(start as int, n as int),
            d == unsigned_digits(s@),
            d.len() > 0,
            forall|j: int| start <= j < i ==> is_digit(#[trigger] s@[j]),
            acc == digits_value(d.take(i - start)),
            acc <= u16::MAX,
        decreases n - i,
    {
        let c = s.get_char(i);
        assert(d[i - start] == c);
        if !('0' <= c && c <= '9') {
            assert(!is_digit(d[i - start]));
            return None;
        }
        let v = (c as u32) - 48;
        let ghost t = d.take(i + 1 - start);
        assert(t.drop_last() =~= d.take(i - start));
        assert(t.last() == c);
        acc = acc * 10 + v;
        assert(acc == digits_value(t));
        if acc > 65535 {
            proof {
                if all_digits(d) {
                    lemma_digits_value_monotone(d, i + 1 - start);
                }
            }
            return None;
        }
        i = i + 1;
    }
    assert(d.take(n - start) =~= d);
    Some(acc as u16)
}

/// Parsing the decimal notation of a `u16` gives it back.
pub proof fn lemma_parse_decimal_u16(n: u16)
    ensures
        parse_u16_spec(decimal(n as nat)) == Some(n),
{
    lemma_decimal_digits(n as nat);
}

proof fn lemma_decimal_digits(n: nat)
    ensures
        decimal(n).len() > 0,
        decimal(n)[0] != '+',
        forall|i: int| 0 <= i < decimal(n).len() ==> is_digit(#[trigger] decimal(n)[i]),
        digits_value(decimal(n)) == n,
    decreases n,
{
    if n < 10 {
        assert((digit_char(n as int) as u32) as int == n + 48);
        assert(decimal(n).drop_last() =~= Seq::<char>::empty());
        assert(digits_value(Seq::<char>::empty()) == 0);
        assert(digits_value(decimal(n)) == digits_value(decimal(n).drop_last()) * 10 + ((
            decimal(n).last() as u32) - 48) as nat);
        assert(digits_value(decimal(n)) == n);
    } else {
        lemma_decimal_digits(n / 10);
        let d = decimal(n);
        assert(d.drop_last() =~= decimal(n / 10));
        let r = (n % 10) as int;
        assert((digit_char(r) as u32) as int == r + 48);
        assert((n / 10) * 10 + r == n) by (nonlinear_arith)
            requires
                r == n % 10,
        ;
        assert(d.last() == digit_char(r));
        assert(digits_value(d) == digits_value(d.drop_last()) * 10 + r);
        assert forall|i: int| 0 <= i < d.len() implies is_digit(#[trigger] d[i]) by {
            if i < d.len() - 1 {
                assert(d[i] == decimal(n / 10)[i]);
            }
        }
    }
}

} // verus!
