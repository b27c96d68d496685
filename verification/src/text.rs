//! Text helpers: characters, decimal numbers and byte sizes.

use vstd::arithmetic::power::pow;
use vstd::prelude::*;
use vstd::string::*;

verus! {

/// `String::push`: appends one character at the end.
pub assume_specification[ String::push ](s: &mut String, c: char)
    ensures
        final(s)@ == old(s)@.push(c),
;

/// The decimal digit of value `d` (`d < 10`).
pub open spec fn digit_char(d: nat) -> char {
    (('0' as u32) + d) as char
}

/// The decimal digits of `n`, most significant first, without leading zeros.
pub open spec fn decimal(n: nat) -> Seq<char>
    decreases n,
{
    if n < 10 {
        seq![digit_char(n)]
    } else {
        decimal(n / 10).push(digit_char(n % 10))
    }
}

/// Writes `n` in decimal.
pub fn format_decimal(n: u128) -> (text: String)
    ensures
        text@ == decimal(n as nat),
    decreases n,
{
    let mut text = if n < 10 {
        String::new()
    } else {
        format_decimal(n / 10)
    };
    let digit: u32 = 48 + (n % 10) as u32;
    text.push(char_of_digit(digit));
    text
}

fn char_of_digit(code: u32) -> (c: char)
    requires
        48 <= code <= 57,
    ensures
        c == code as char,
{
    code as u8 as char
}

/// `n / unit` rounded to the nearest integer, a tie to the even one.
pub open spec fn round_half_even(n: nat, unit: nat) -> nat {
    let quotient = n / unit;
    let rest = n % unit;
    if 2 * rest < unit || (2 * rest == unit && quotient % 2 == 0) {
        quotient
    } else {
        quotient + 1
    }
}

fn round_to_unit(n: u128, unit: u128) -> (rounded: u128)
    requires
        0 < unit <= 0x1_0000_0000,
        n < 0x1_0000_0000_0000_0000_0000_0000,
    ensures
        rounded == round_half_even(n as nat, unit as nat),
{
    let quotient: u128 = n / unit;
    let rest: u128 = n % unit;
    assert(quotient <= n) by (nonlinear_arith)
        requires
            quotient == n / unit,
            unit > 0,
    ;
    if 2 * rest < unit || (2 * rest == unit && quotient % 2 == 0) {
        quotient
    } else {
        quotient + 1
    }
}

/// The distance between neighbouring numbers of 53 significant bits around `n`.
pub open spec fn significand_step(n: nat) -> nat
    decreases n,
{
    if n < 0x20_0000_0000_0000 {
        1
    } else {
        2 * significand_step(n / 2)
    }
}

fn step_of(n: u64) -> (step: u64)
    ensures
        step == significand_step(n as nat),
        step >= 1,
        n >= 0x10_0000_0000_0000 ==> step * 0x10_0000_0000_0000 <= n,
        n < 0x10_0000_0000_0000 ==> step == 1,
    decreases n,
{
    if n < 0x20_0000_0000_0000 {
        1
    } else {
        2 * step_of(n / 2)
    }
}

/// `n` rounded to 53 significant bits, a tie to the even significand.
pub open spec fn to_significand(n: nat) -> nat {
    round_half_even(n, significand_step(n)) * significand_step(n)
}

fn significand_of(n: u64) -> (rounded: u128)
    ensures
        rounded == to_significand(n as nat),
        rounded <= n + 4096,
{
    let step: u64 = step_of(n);
    let units: u128 = round_to_unit(n as u128, step as u128);
    assert(units * step <= n + step) by (nonlinear_arith)
        requires
            units <= n / step + 1,
            step >= 1,
    ;
    units * step as u128
}

/// A quantity given in `1 / scale` parts, with `scale` a power of ten: its
/// whole part, a point, and one digit per zero of `scale`.
pub open spec fn fixed_point(parts: nat, places: nat) -> Seq<char>
    decreases places,
{
    if places == 0 {
        decimal(parts) + "."@
    } else {
        fixed_point(parts / 10, (places - 1) as nat).push(digit_char(parts % 10))
    }
}

fn format_fixed_point(parts: u128, places: u8) -> (text: String)
    ensures
        text@ == fixed_point(parts as nat, places as nat),
    decreases places,
{
    if places == 0 {
        let mut text = format_decimal(parts);
        text.append(".");
        text
    } else {
        let mut text = format_fixed_point(parts / 10, places - 1);
        text.push(char_of_digit(48 + (parts % 10) as u32));
        text
    }
}

pub const KB: u64 = 1024;

pub const MB: u64 = 1_048_576;

pub const GB: u64 = 1_073_741_824;

/// A size for humans: gigabytes with two decimals, megabytes with one,
/// kilobytes without, or bytes. Decimals are rounded to nearest, ties to even,
/// after the size itself was rounded to 53 significant bits.
pub open spec fn bytes_text(bytes: nat) -> Seq<char> {
    let size = to_significand(bytes);
    if bytes >= GB {
        fixed_point(round_half_even(size * 100, GB as nat), 2) + " GB"@
    } else if bytes >= MB {
        fixed_point(round_half_even(size * 10, MB as nat), 1) + " MB"@
    } else if bytes >= KB {
        decimal(round_half_even(size, KB as nat)) + " KB"@
    } else {
        decimal(bytes) + " B"@
    }
}

/// Writes a size for humans.
pub fn format_bytes(bytes: u64) -> (text: String)
    ensures
        text@ == bytes_text(bytes as nat),
{
    let size: u128 = significand_of(bytes);
    if bytes >= GB {
        let mut text = format_fixed_point(round_to_unit(size * 100, GB as u128), 2);
        text.append(" GB");
        text
    } else if bytes >= MB {
        let mut text = format_fixed_point(round_to_unit(size * 10, MB as u128), 1);
        text.append(" MB");
        text
    } else if bytes >= KB {
        let mut text = format_decimal(round_to_unit(size, KB as u128));
        text.append(" KB");
        text
    } else {
        let mut text = format_decimal(bytes as u128);
        text.append(" B");
        text
    }
}

/// A duration for humans: seconds, minutes and seconds, or hours and minutes.
pub open spec fn duration_text(secs: nat) -> Seq<char> {
    if secs < 60 {
        decimal(secs) + "s"@
    } else if secs < 3600 {
        decimal(secs / 60) + "m "@ + decimal(secs % 60) + "s"@
    } else {
        decimal(secs / 3600) + "h "@ + decimal((secs % 3600) / 60) + "m"@
    }
}

/// Writes a duration for humans.
pub fn format_duration(secs: u64) -> (text: String)
    ensures
        text@ == duration_text(secs as nat),
{
    if secs < 60 {
        let mut text = format_decimal(secs as u128);
        text.append("s");
        text
    } else if secs < 3600 {
        let mut text = format_decimal((secs / 60) as u128);
        text.append("m ");
        text.append(format_decimal((secs % 60) as u128).as_str());
        text.append("s");
        text
    } else {
        let mut text = format_decimal((secs / 3600) as u128);
        text.append("h ");
        text.append(format_decimal(((secs % 3600) / 60) as u128).as_str());
        text.append("m");
        text
    }
}

/// The characters of `s`, in order.
pub fn chars_of(s: &str) -> (chars: Vec<char>)
    ensures
        chars@ == s@,
{
    let mut chars: Vec<char> = Vec::new();
    for c in it: s.chars()
        invariant
            chars@ == it.seq().take(it.index() as int),
            it.seq() == s@,
    {
        chars.push(c);
    }
    chars
}

/// The characters of each string.
pub open spec fn texts(strings: Seq<String>) -> Seq<Seq<char>> {
    strings.map_values(|s: String| s@)
}

/// Adds a line.
pub fn push_line(lines: &mut Vec<String>, line: &str)
    ensures
        texts(final(lines)@) == texts(old(lines)@).push(line@),
{
    lines.push(line.to_owned());
    assert(texts(lines@) =~= texts(old(lines)@).push(line@));
}

/// Adds a line of two parts.
pub fn push_pair(lines: &mut Vec<String>, label: &str, value: &str)
    ensures
        texts(final(lines)@) == texts(old(lines)@).push(label@ + value@),
{
    let mut line = label.to_owned();
    line.append(value);
    push_line(lines, line.as_str());
}

/// The string made of `chars[start..end]`.
pub fn string_of(chars: &Vec<char>, start: usize, end: usize) -> (text: String)
    requires
        start <= end <= chars@.len(),
    ensures
        text@ == chars@.subrange(start as int, end as int),
{
    let mut text = String::new();
    let mut i: usize = start;
    while i < end
        invariant
            start <= i <= end <= chars@.len(),
            text@ == chars@.subrange(start as int, i as int),
        decreases end - i,
    {
        text.push(chars[i]);
        assert(chars@.subrange(start as int, i as int).push(chars@[i as int])
            =~= chars@.subrange(start as int, i + 1));
        i = i + 1;
    }
    text
}

/// The first position at or after `from` that holds `c`, or the end.
pub open spec fn find_from(s: Seq<char>, c: char, from: nat) -> nat
    decreases s.len() - from,
{
    if from >= s.len() || s[from as int] == c {
        from
    } else {
        find_from(s, c, from + 1)
    }
}

/// `find_from` looks forward, and no further than the end.
pub proof fn lemma_find_from(s: Seq<char>, c: char, from: nat)
    ensures
        find_from(s, c, from) >= from,
        from <= s.len() ==> find_from(s, c, from) <= s.len(),
    decreases s.len() - from,
{
    if from < s.len() && s[from as int] != c {
        lemma_find_from(s, c, from + 1);
    }
}

/// Finds the first `c` at or after `from`; the end if there is none.
pub fn find(chars: &Vec<char>, c: char, from: usize) -> (at: usize)
    requires
        from <= chars@.len(),
    ensures
        at == find_from(chars@, c, from as nat),
        from <= at <= chars@.len(),
        at < chars@.len() ==> chars@[at as int] == c,
{
    let mut at: usize = from;
    while at < chars.len() && chars[at] != c
        invariant
            from <= at <= chars@.len(),
            find_from(chars@, c, at as nat) == find_from(chars@, c, from as nat),
        decreases chars@.len() - at,
    {
        at = at + 1;
    }
    at
}

/// The first position at or after `from` that does not hold `c`, or the end.
pub open spec fn skip_from(s: Seq<char>, c: char, from: nat) -> nat
    decreases s.len() - from,
{
    if from >= s.len() || s[from as int] != c {
        from
    } else {
        skip_from(s, c, from + 1)
    }
}

/// Finds the first character at or after `from` that is not `c`.
pub fn skip(chars: &Vec<char>, c: char, from: usize) -> (at: usize)
    requires
        from <= chars@.len(),
    ensures
        at == skip_from(chars@, c, from as nat),
        from <= at <= chars@.len(),
{
    let mut at: usize = from;
    while at < chars.len() && chars[at] == c
        invariant
            from <= at <= chars@.len(),
            skip_from(chars@, c, at as nat) == skip_from(chars@, c, from as nat),
        decreases chars@.len() - at,
    {
        at = at + 1;
    }
    at
}

/// `c` with `a` to `z` made capital.
pub open spec fn ascii_upper(c: char) -> char {
    if 'a' <= c <= 'z' {
        ((c as u32) - 32) as char
    } else {
        c
    }
}

/// Makes an ASCII letter capital.
pub fn to_ascii_upper(c: char) -> (upper: char)
    ensures
        upper == ascii_upper(c),
{
    if 'a' <= c && c <= 'z' {
        let code: u8 = c as u8;
        (code - 32) as char
    } else {
        c
    }
}

/// Makes an ASCII letter small.
pub fn to_ascii_lower(c: char) -> (lower: char)
    ensures
        lower == ascii_lower(c),
{
    if 'A' <= c && c <= 'Z' {
        let code: u8 = c as u8;
        (code + 32) as char
    } else {
        c
    }
}

/// Whether two texts are equal but for the case of ASCII letters.
pub open spec fn same_but_ascii_case(a: Seq<char>, b: Seq<char>) -> bool {
    a.map_values(|c: char| ascii_lower(c)) == b.map_values(|c: char| ascii_lower(c))
}

/// Compares two texts, ignoring the case of ASCII letters.
pub fn eq_ignore_ascii_case(a: &str, b: &str) -> (equal: bool)
    ensures
        equal == same_but_ascii_case(a@, b@),
{
    let left = chars_of(a);
    let right = chars_of(b);
    let ghost lowered = |s: Seq<char>| s.map_values(|c: char| ascii_lower(c));
    if left.len() != right.len() {
        assert(lowered(a@).len() != lowered(b@).len());
        return false;
    }
    let mut i: usize = 0;
    while i < left.len()
        invariant
            i <= left@.len() == right@.len(),
            left@ == a@,
            right@ == b@,
            forall|j: int| 0 <= j < i ==> ascii_lower(#[trigger] a@[j]) == ascii_lower(b@[j]),
        decreases left@.len() - i,
    {
        if to_ascii_lower(left[i]) != to_ascii_lower(right[i]) {
            proof {
                let l = a@.map_values(|c: char| ascii_lower(c));
                let r = b@.map_values(|c: char| ascii_lower(c));
                assert(l[i as int] != r[i as int]);
            }
            return false;
        }
        i = i + 1;
    }
    assert(a@.map_values(|c: char| ascii_lower(c)) =~= b@.map_values(|c: char| ascii_lower(c)));
    true
}

/// `c` with `A` to `Z` made small.
pub open spec fn ascii_lower(c: char) -> char {
    if 'A' <= c <= 'Z' {
        ((c as u32) + 32) as char
    } else {
        c
    }
}

/// What `str::to_lowercase` returns.
pub uninterp spec fn lowercase(s: Seq<char>) -> Seq<char>;

/// `str::to_lowercase`: the Unicode lower-case form. On ASCII text it makes
/// `A` to `Z` small and keeps everything else.
pub assume_specification[ str::to_lowercase ](s: &str) -> (lower: String)
    ensures
        lower@ == lowercase(s@),
        (forall|i: int| 0 <= i < s@.len() ==> (#[trigger] s@[i] as u32) < 128) ==> lower@
            == s@.map_values(|c: char| ascii_lower(c)),
;

/// The hexadecimal digit of value `d` (`d < 16`).
pub open spec fn hex_char(d: nat) -> char {
    if d < 10 {
        (('0' as u32) + d) as char
    } else {
        (('a' as u32) + d - 10) as char
    }
}

/// The last `width` hexadecimal digits of `n`, most significant first.
pub open spec fn hex_text(n: nat, width: nat) -> Seq<char>
    decreases width,
{
    if width == 0 {
        Seq::empty()
    } else {
        hex_text(n / 16, (width - 1) as nat).push(hex_char(n % 16))
    }
}

fn hex_digits(n: u64, width: u8) -> (text: String)
    ensures
        text@ == hex_text(n as nat, width as nat),
        text@.len() == width,
        is_lower_hex(text@),
    decreases width,
{
    if width == 0 {
        String::new()
    } else {
        let mut text = hex_digits(n / 16, width - 1);
        let digit: u8 = (n % 16) as u8;
        let c: char = if digit < 10 {
            (48 + digit) as char
        } else {
            (87 + digit) as char
        };
        text.push(c);
        text
    }
}

/// Writes `n` with 16 hexadecimal digits.
pub fn format_hex(n: u64) -> (text: String)
    ensures
        text@ == hex_text(n as nat, 16),
        text@.len() == 16,
        is_lower_hex(text@),
{
    hex_digits(n, 16)
}

/// Whether every character of `s` is one of `0` to `9`, `a` to `f`.
pub open spec fn is_lower_hex(s: Seq<char>) -> bool {
    forall|i: int|
        0 <= i < s.len() ==> ('0' <= #[trigger] s[i] <= '9' || 'a' <= s[i] <= 'f')
}

/// The first `c` at or after `from` is at `at` if it stands there and nowhere before.
pub proof fn lemma_found_at(s: Seq<char>, c: char, from: nat, at: nat)
    requires
        from <= at <= s.len(),
        forall|i: int| from <= i < at ==> #[trigger] s[i] != c,
        at < s.len() ==> s[at as int] == c,
    ensures
        find_from(s, c, from) == at,
    decreases at - from,
{
    if from < at {
        lemma_found_at(s, c, from + 1, at);
    }
}

/// The first character at or after `from` that is not `c` is at `at` if all before
/// are.
pub proof fn lemma_skipped_to(s: Seq<char>, c: char, from: nat, at: nat)
    requires
        from <= at <= s.len(),
        forall|i: int| from <= i < at ==> #[trigger] s[i] == c,
        at < s.len() ==> s[at as int] != c,
    ensures
        skip_from(s, c, from) == at,
    decreases at - from,
{
    if from < at {
        lemma_skipped_to(s, c, from + 1, at);
    }
}

/// The value of a digit: `0` to `9`, then `a` to `f`.
pub open spec fn digit_value(c: char) -> nat {
    if '0' <= c <= '9' {
        ((c as u32) - ('0' as u32)) as nat
    } else {
        ((c as u32) - ('a' as u32) + 10) as nat
    }
}

/// The number that some digits write in the given base.
pub open spec fn number_of(digits: Seq<char>, base: nat) -> nat
    decreases digits.len(),
{
    if digits.len() == 0 {
        0
    } else {
        number_of(digits.drop_last(), base) * base + digit_value(digits.last())
    }
}

/// A number is written as its decimal digits: they give the number back, and there is
/// no zero before them.
pub proof fn law_decimal_digits_give_the_number(n: u128, text: String)
    requires
        call_ensures(format_decimal, (n,), text),
    ensures
        number_of(text@, 10) == n,
        text@.len() > 0,
        text@.len() > 1 ==> text@[0] != '0',
        forall|i: int| 0 <= i < text@.len() ==> '0' <= #[trigger] text@[i] <= '9',
{
    lemma_decimal(n as nat);
}

proof fn lemma_decimal(n: nat)
    ensures
        number_of(decimal(n), 10) == n,
        decimal(n).len() > 0,
        decimal(n)[0] == '0' <==> n == 0,
        forall|i: int| 0 <= i < decimal(n).len() ==> '0' <= #[trigger] decimal(n)[i] <= '9',
    decreases n,
{
    reveal_with_fuel(number_of, 2);
    let front = decimal(n).drop_last();
    if n < 10 {
        assert(front =~= Seq::<char>::empty());
    } else {
        lemma_decimal(n / 10);
        assert(front =~= decimal(n / 10));
    }
}

/// Different numbers are written differently.
pub proof fn law_decimal_is_unambiguous(a: nat, b: nat)
    requires
        decimal(a) == decimal(b),
    ensures
        a == b,
{
    lemma_decimal(a);
    lemma_decimal(b);
}

/// A number is written as its sixteen hexadecimal digits: they give the number back.
pub proof fn law_hexadecimal_digits_give_the_number(n: u64, text: String)
    requires
        call_ensures(format_hex, (n,), text),
    ensures
        number_of(text@, 16) == n,
        text@.len() == 16,
{
    reveal_with_fuel(pow, 17);
    assert(pow(16, 16) == 0x1_0000_0000_0000_0000);
    lemma_hexadecimal(n as nat, 16);
}

proof fn lemma_hexadecimal(n: nat, width: nat)
    requires
        n < pow(16, width),
    ensures
        number_of(hex_text(n, width), 16) == n,
        hex_text(n, width).len() == width,
    decreases width,
{
    reveal(pow);
    if width > 0 {
        lemma_hexadecimal(n / 16, (width - 1) as nat);
        assert(hex_text(n, width).drop_last() =~= hex_text(n / 16, (width - 1) as nat));
    }
}

/// Rounding goes to the nearest multiple, and to the even one of two that are equally
/// near.
pub proof fn law_rounding_goes_to_the_nearest(n: nat, unit: nat)
    requires
        unit > 0,
    ensures
        ({
            let near = round_half_even(n, unit) * unit;
            &&& -(unit as int) <= 2 * (near - n) <= unit
            &&& 2 * (near - n) == unit || 2 * (n - near) == unit ==> round_half_even(n, unit) % 2
                == 0
        }),
{
    let quotient = n / unit;
    let rest = n % unit;
    assert(n == quotient * unit + rest && rest < unit) by (nonlinear_arith)
        requires
            unit > 0,
            quotient == n / unit,
            rest == n % unit,
    ;
    assert((quotient + 1) * unit == quotient * unit + unit) by (nonlinear_arith);
}

/// A size that has no more than 53 bits is not rounded before it is written.
pub proof fn law_common_sizes_are_exact(n: nat)
    requires
        n < 0x20_0000_0000_0000,
    ensures
        to_significand(n) == n,
{
    assert(n / 1 == n && n % 1 == 0) by (nonlinear_arith);
    assert(n * 1 == n);
}

/// A size for humans is in the largest unit that it fills, and the number before the
/// unit is as near to the size as the shown places allow.
pub proof fn law_size_is_shown_in_its_unit(bytes: u64, text: String)
    requires
        call_ensures(format_bytes, (bytes,), text),
        bytes < 0x20_0000_0000_0000,
    ensures
        bytes < 1024 ==> text@ == decimal(bytes as nat) + " B"@,
        1024 <= bytes < 1024 * 1024 ==> exists|k: nat|
            text@ == #[trigger] decimal(k) + " KB"@ && -1024 <= 2 * (k * 1024 - bytes) <= 1024,
        1024 * 1024 <= bytes < 1024 * 1024 * 1024 ==> exists|k: nat|
            text@ == #[trigger] fixed_point(k, 1) + " MB"@ && -1_048_576 <= 2 * (k * 1_048_576 - 10
                * bytes) <= 1_048_576,
        1024 * 1024 * 1024 <= bytes ==> exists|k: nat|
            text@ == #[trigger] fixed_point(k, 2) + " GB"@ && -1_073_741_824 <= 2 * (k
                * 1_073_741_824 - 100 * bytes) <= 1_073_741_824,
{
    let size = bytes as nat;
    law_common_sizes_are_exact(size);
    law_rounding_goes_to_the_nearest(size, KB as nat);
    law_rounding_goes_to_the_nearest(size * 10, MB as nat);
    law_rounding_goes_to_the_nearest(size * 100, GB as nat);
    if KB <= bytes < MB {
        let k = round_half_even(size, KB as nat);
        assert(text@ == decimal(k) + " KB"@);
    } else if MB <= bytes < GB {
        let k = round_half_even(size * 10, MB as nat);
        assert(text@ == fixed_point(k, 1) + " MB"@);
    } else if GB <= bytes {
        let k = round_half_even(size * 100, GB as nat);
        assert(text@ == fixed_point(k, 2) + " GB"@);
    }
}

/// What is given in tenths or hundredths is written as its whole part, a point and one
/// digit or two.
pub proof fn law_point_stands_before_the_places(parts: nat)
    ensures
        fixed_point(parts, 1) == decimal(parts / 10) + "."@ + seq![digit_char(parts % 10)],
        fixed_point(parts, 2) == decimal(parts / 100) + "."@ + seq![
            digit_char(parts / 10 % 10),
            digit_char(parts % 10),
        ],
{
    reveal_with_fuel(fixed_point, 3);
    assert(parts / 10 / 10 == parts / 100);
    assert(fixed_point(parts, 1) =~= decimal(parts / 10) + "."@ + seq![digit_char(parts % 10)]);
    assert(fixed_point(parts, 2) =~= decimal(parts / 100) + "."@ + seq![
        digit_char(parts / 10 % 10),
        digit_char(parts % 10),
    ]);
}

/// A duration is shown in seconds below a minute, in minutes and seconds below an
/// hour, and from then on in hours and minutes; the parts make up the duration, but
/// for the seconds beside hours.
pub proof fn law_duration_is_the_sum_of_its_parts(secs: u64, text: String)
    requires
        call_ensures(format_duration, (secs,), text),
    ensures
        secs < 60 ==> text@ == decimal(secs as nat) + "s"@,
        60 <= secs < 3600 ==> exists|m: nat, s: nat|
            text@ == #[trigger] decimal(m) + "m "@ + #[trigger] decimal(s) + "s"@ && 60 * m + s
                == secs && s < 60,
        3600 <= secs ==> exists|h: nat, m: nat|
            text@ == #[trigger] decimal(h) + "h "@ + #[trigger] decimal(m) + "m"@ && 3600 * h + 60
                * m <= secs < 3600 * h + 60 * m + 60 && m < 60,
{
    let n = secs as nat;
    if 60 <= n < 3600 {
        assert(text@ == decimal(n / 60) + "m "@ + decimal(n % 60) + "s"@);
    } else if 3600 <= n {
        assert(text@ == decimal(n / 3600) + "h "@ + decimal((n % 3600) / 60) + "m"@);
    }
}

/// Two texts are taken for equal if and only if they are equally long and differ at
/// most in that one has a capital letter where the other has the same letter small.
pub proof fn law_only_the_case_of_letters_is_ignored(a: &str, b: &str, equal: bool)
    requires
        call_ensures(eq_ignore_ascii_case, (a, b), equal),
    ensures
        equal <==> a@.len() == b@.len() && (forall|i: int|
            0 <= i < a@.len() ==> {
                ||| #[trigger] a@[i] == b@[i]
                ||| 'A' <= a@[i] <= 'Z' && b@[i] as u32 == a@[i] as u32 + 32
                ||| 'A' <= b@[i] <= 'Z' && a@[i] as u32 == b@[i] as u32 + 32
            }),
{
    let low_a = a@.map_values(|c: char| ascii_lower(c));
    let low_b = b@.map_values(|c: char| ascii_lower(c));
    if equal {
        assert(low_a.len() == low_b.len());
        assert forall|i: int| 0 <= i < a@.len() implies {
            ||| #[trigger] a@[i] == b@[i]
            ||| 'A' <= a@[i] <= 'Z' && b@[i] as u32 == a@[i] as u32 + 32
            ||| 'A' <= b@[i] <= 'Z' && a@[i] as u32 == b@[i] as u32 + 32
        } by {
            assert(low_a[i] == low_b[i]);
        }
    } else if a@.len() == b@.len() && (forall|i: int|
        0 <= i < a@.len() ==> {
            ||| #[trigger] a@[i] == b@[i]
            ||| 'A' <= a@[i] <= 'Z' && b@[i] as u32 == a@[i] as u32 + 32
            ||| 'A' <= b@[i] <= 'Z' && a@[i] as u32 == b@[i] as u32 + 32
        }) {
        assert forall|i: int| 0 <= i < low_a.len() implies low_a[i] == low_b[i] by {
            assert(a@[i] == a@[i]);
        }
        assert(low_a =~= low_b);
    }
}

/// What is found is the first: the character is not between the start and there.
pub proof fn lemma_found_first(s: Seq<char>, c: char, from: nat)
    requires
        from <= s.len(),
    ensures
        from <= find_from(s, c, from) <= s.len(),
        forall|i: int| from <= i < find_from(s, c, from) ==> #[trigger] s[i] != c,
        find_from(s, c, from) < s.len() ==> s[find_from(s, c, from) as int] == c,
    decreases s.len() - from,
{
    if from < s.len() && s[from as int] != c {
        lemma_found_first(s, c, from + 1);
    }
}

} // verus!
