//! Character-level helpers on strings, stated over their `Seq<char>` views.
use vstd::prelude::*;
use vstd::std_specs::iter::IteratorSpec;

verus! {

broadcast use vstd::string::group_string_axioms;

/// `needle` occurs in `haystack` starting at `start`.
pub open spec fn occurs_at(haystack: Seq<char>, needle: Seq<char>, start: int) -> bool {
    &&& 0 <= start
    &&& start + needle.len() <= haystack.len()
    &&& haystack.subrange(start, start + needle.len()) == needle
}

/// `needle` occurs somewhere in `haystack`.
pub open spec fn seq_contains(haystack: Seq<char>, needle: Seq<char>) -> bool {
    exists|start: int| occurs_at(haystack, needle, start)
}

/// `prefix` is a prefix of `value`.
pub open spec fn seq_starts_with(value: Seq<char>, prefix: Seq<char>) -> bool {
    occurs_at(value, prefix, 0)
}

/// The characters of `s`, in order.
pub fn chars_of(s: &str) -> (v: Vec<char>)
    ensures
        v@ == s@,
{
    let mut v: Vec<char> = Vec::new();
    for c in it: s.chars()
        invariant
            it.seq() == s@,
            v@ == it.seq().take(it.index() as int),
    {
        v.push(c);
        assert(v@ =~= it.seq().take(it.index() as int + 1));
    }
    assert(v@ =~= s@);
    v
}

/// Appends one character to a string (`String::push`).
#[verifier::external_body]
pub(crate) fn push_char(s: &mut String, c: char)
    ensures
        final(s)@ == old(s)@.push(c),
{
    s.push(c);
}

/// Builds a string from its characters.
pub fn string_from_chars(chars: &[char]) -> (s: String)
    ensures
        s@ == chars@,
{
    let mut s = String::new();
    let mut i: usize = 0;
    while i < chars.len()
        invariant
            i <= chars@.len(),
            s@ == chars@.take(i as int),
        decreases chars@.len() - i,
    {
        push_char(&mut s, chars[i]);
        i = i + 1;
        assert(s@ =~= chars@.take(i as int));
    }
    assert(chars@.take(chars@.len() as int) =~= chars@);
    s
}

/// The lowercase mapping that `str::to_lowercase` applies to a character sequence.
pub uninterp spec fn lowercase(s: Seq<char>) -> Seq<char>;

/// Unicode lowercase form of `s` (`str::to_lowercase`).
#[verifier::external_body]
pub(crate) fn to_lowercase(s: &str) -> (r: String)
    ensures
        r@ == lowercase(s@),
{
    s.to_lowercase()
}

/// Whether `needle` occurs in `haystack` starting at `start`.
pub fn occurs_at_exec(haystack: &[char], needle: &[char], start: usize) -> (r: bool)
    ensures
        r == occurs_at(haystack@, needle@, start as int),
{
    if start > haystack.len() || needle.len() > haystack.len() - start {
        return false;
    }
    let mut k: usize = 0;
    while k < needle.len()
        invariant
            start + needle@.len() <= haystack@.len(),
            haystack@.len() <= usize::MAX,
            k <= needle@.len(),
            forall|j: int| 0 <= j < k ==> haystack@[start + j] == needle@[j],
        decreases needle@.len() - k,
    {
        if haystack[start + k] != needle[k] {
            assert(haystack@.subrange(start as int, start + needle@.len())[k as int] != needle@[k as int]);
            return false;
        }
        k = k + 1;
    }
    assert(haystack@.subrange(start as int, start + needle@.len()) =~= needle@);
    true
}

/// Whether `needle` occurs anywhere in `haystack`.
pub fn contains_chars(haystack: &[char], needle: &[char]) -> (r: bool)
    ensures
        r == seq_contains(haystack@, needle@),
{
    if needle.len() > haystack.len() {
        assert(!seq_contains(haystack@, needle@));
        return false;
    }
    let last = haystack.len() - needle.len();
    let mut start: usize = 0;
    loop
        invariant
            last == haystack@.len() - needle@.len(),
            start <= last,
            forall|j: int| 0 <= j < start ==> !occurs_at(haystack@, needle@, j),
        ensures
            forall|j: int| 0 <= j <= last ==> !occurs_at(haystack@, needle@, j),
        decreases last - start,
    {
        if occurs_at_exec(haystack, needle, start) {
            return true;
        }
        if start == last {
            break;
        }
        start = start + 1;
    }
    assert forall|j: int| !occurs_at(haystack@, needle@, j) by {
        if 0 <= j && j + needle@.len() <= haystack@.len() {
            assert(j <= last);
        }
    }
    false
}

/// Whether `value` starts with `prefix`.
pub fn starts_with_chars(value: &[char], prefix: &[char]) -> (r: bool)
    ensures
        r == seq_starts_with(value@, prefix@),
{
    occurs_at_exec(value, prefix, 0)
}

/// Whether two character sequences are equal.
pub fn chars_equal(a: &[char], b: &[char]) -> (r: bool)
    ensures
        r == (a@ == b@),
{
    if a.len() != b.len() {
        return false;
    }
    let r = occurs_at_exec(a, b, 0);
    proof {
        if r {
            assert(a@.subrange(0, b@.len() as int) =~= a@);
        } else {
            assert(a@.subrange(0, b@.len() as int) =~= a@);
        }
    }
    r
}

/// Unicode `White_Space` characters, the set `char::is_whitespace` tests.
pub open spec fn is_whitespace(c: char) -> bool {
    let v = c as u32;
    (0x09 <= v <= 0x0d) || v == 0x20 || v == 0x85 || v == 0xa0 || v == 0x1680 || (0x2000 <= v
        <= 0x200a) || v == 0x2028 || v == 0x2029 || v == 0x202f || v == 0x205f || v == 0x3000
}

pub fn char_is_whitespace(c: char) -> (r: bool)
    ensures
        r == is_whitespace(c),
{
    let v = c as u32;
    (0x09 <= v && v <= 0x0d) || v == 0x20 || v == 0x85 || v == 0xa0 || v == 0x1680 || (0x2000 <= v
        && v <= 0x200a) || v == 0x2028 || v == 0x2029 || v == 0x202f || v == 0x205f || v == 0x3000
}

/// `s` without its leading whitespace.
pub open spec fn trim_start(s: Seq<char>) -> Seq<char>
    decreases s.len(),
{
    if s.len() > 0 && is_whitespace(s[0]) {
        trim_start(s.drop_first())
    } else {
        s
    }
}

/// `s` without its trailing whitespace.
pub open spec fn trim_end(s: Seq<char>) -> Seq<char>
    decreases s.len(),
{
    if s.len() > 0 && is_whitespace(s.last()) {
        trim_end(s.drop_last())
    } else {
        s
    }
}

/// `s` without leading and trailing whitespace, as `str::trim` returns it.
pub open spec fn trim(s: Seq<char>) -> Seq<char> {
    trim_end(trim_start(s))
}

proof fn lemma_trim_start(s: Seq<char>, i: int)
    requires
        0 <= i <= s.len(),
        forall|j: int| 0 <= j < i ==> is_whitespace(s[j]),
        i == s.len() || !is_whitespace(s[i]),
    ensures
        trim_start(s) == s.subrange(i, s.len() as int),
    decreases i,
{
    if i > 0 {
        assert forall|j: int| 0 <= j < i - 1 implies is_whitespace(s.drop_first()[j]) by {
            assert(s.drop_first()[j] == s[j + 1]);
        }
        lemma_trim_start(s.drop_first(), i - 1);
        assert(s.drop_first().subrange(i - 1, s.len() - 1) =~= s.subrange(i, s.len() as int));
    } else {
        assert(s.subrange(0, s.len() as int) =~= s);
    }
}

proof fn lemma_trim_end(s: Seq<char>, e: int)
    requires
        0 <= e <= s.len(),
        forall|j: int| e <= j < s.len() ==> is_whitespace(s[j]),
        e == 0 || !is_whitespace(s[e - 1]),
    ensures
        trim_end(s) == s.subrange(0, e),
    decreases s.len() - e,
{
    if e < s.len() {
        lemma_trim_end(s.drop_last(), e);
        assert(s.drop_last().subrange(0, e) =~= s.subrange(0, e));
    } else {
        assert(s.subrange(0, e) =~= s);
    }
}

/// The characters of `s` without leading and trailing whitespace.
pub fn trim_chars(s: &[char]) -> (r: Vec<char>)
    ensures
        r@ == trim(s@),
{
    let mut start: usize = 0;
    while start < s.len() && char_is_whitespace(s[start])
        invariant
            start <= s@.len(),
            forall|j: int| 0 <= j < start ==> is_whitespace(s@[j]),
        decreases s@.len() - start,
    {
        start = start + 1;
    }
    proof {
        lemma_trim_start(s@, start as int);
    }
    let mut end: usize = s.len();
    while end > start && char_is_whitespace(s[end - 1])
        invariant
            start <= end <= s@.len(),
            forall|j: int| end <= j < s@.len() ==> is_whitespace(s@[j]),
        decreases end,
    {
        end = end - 1;
    }
    let ghost rest = s@.subrange(start as int, s@.len() as int);
    proof {
        assert forall|j: int| end - start <= j < rest.len() implies is_whitespace(rest[j]) by {
            assert(rest[j] == s@[start + j]);
        }
        if end > start {
            assert(rest[end - start - 1] == s@[end - 1]);
        }
        lemma_trim_end(rest, (end - start) as int);
        assert(rest.subrange(0, (end - start) as int) =~= s@.subrange(start as int, end as int));
    }
    let mut r: Vec<char> = Vec::new();
    let mut i = start;
    while i < end
        invariant
            start <= i <= end <= s@.len(),
            r@ == s@.subrange(start as int, i as int),
        decreases end - i,
    {
        r.push(s[i]);
        i = i + 1;
        assert(r@ =~= s@.subrange(start as int, i as int));
    }
    r
}

/// ASCII lowercase of one character; other characters are unchanged.
pub open spec fn ascii_lower(c: char) -> char {
    if 'A' <= c <= 'Z' {
        ((c as u32) + 32) as char
    } else {
        c
    }
}

/// ASCII lowercase of a character sequence.
pub open spec fn ascii_lower_seq(s: Seq<char>) -> Seq<char> {
    s.map_values(|c: char| ascii_lower(c))
}

pub fn ascii_lower_char(c: char) -> (r: char)
    ensures
        r == ascii_lower(c),
{
    if 'A' <= c && c <= 'Z' {
        let v = (c as u8) + 32;
        assert((v as char) == (((c as u32) + 32) as char));
        v as char
    } else {
        c
    }
}

/// Whether two sequences are equal once ASCII letters are lowercased.
pub fn eq_ignore_ascii_case(a: &[char], b: &[char]) -> (r: bool)
    ensures
        r == (ascii_lower_seq(a@) == ascii_lower_seq(b@)),
{
    if a.len() != b.len() {
        assert(ascii_lower_seq(a@).len() != ascii_lower_seq(b@).len());
        return false;
    }
    let mut i: usize = 0;
    while i < a.len()
        invariant
            a@.len() == b@.len(),
            i <= a@.len(),
            forall|j: int| 0 <= j < i ==> ascii_lower(a@[j]) == ascii_lower(b@[j]),
        decreases a@.len() - i,
    {
        if ascii_lower_char(a[i]) != ascii_lower_char(b[i]) {
            assert(ascii_lower_seq(a@)[i as int] != ascii_lower_seq(b@)[i as int]);
            return false;
        }
        i = i + 1;
    }
    assert(ascii_lower_seq(a@) =~= ascii_lower_seq(b@));
    true
}

/// Value of digit `c` in `radix`, if it is one (letters in either case stand for 10 to 35).
pub open spec fn digit_value(c: char, radix: u32) -> Option<nat> {
    let v = c as u32;
    let d: int = if 0x30 <= v <= 0x39 {
        v - 0x30
    } else if 0x61 <= v <= 0x7a {
        v - 0x61 + 10
    } else if 0x41 <= v <= 0x5a {
        v - 0x41 + 10
    } else {
        99
    };
    if d < radix {
        Some(d as nat)
    } else {
        None
    }
}

/// Value of a digit string in `radix`, if every character is a digit.
pub open spec fn digits_value(s: Seq<char>, radix: u32) -> Option<nat>
    decreases s.len(),
{
    if s.len() == 0 {
        Some(0)
    } else {
        match (digits_value(s.drop_last(), radix), digit_value(s.last(), radix)) {
            (Some(high), Some(low)) => Some((high * radix + low) as nat),
            _ => None,
        }
    }
}

/// What `u64::from_str_radix` returns: an optional `+` then at least one digit, with a
/// value that fits in 64 bits.
pub open spec fn spec_parse_u64(s: Seq<char>, radix: u32) -> Option<u64> {
    let digits = if s.len() > 0 && s[0] == '+' {
        s.drop_first()
    } else {
        s
    };
    if digits.len() == 0 {
        None
    } else {
        match digits_value(digits, radix) {
            Some(v) => if v <= u64::MAX {
                Some(v as u64)
            } else {
                None
            },
            None => None,
        }
    }
}

fn digit_value_exec(c: char, radix: u32) -> (r: Option<u64>)
    requires
        2 <= radix <= 36,
    ensures
        r == match digit_value(c, radix) {
            Some(d) => Some(d as u64),
            None => None::<u64>,
        },
{
    let v = c as u32;
    let d: u32 = if 0x30 <= v && v <= 0x39 {
        v - 0x30
    } else if 0x61 <= v && v <= 0x7a {
        v - 0x61 + 10
    } else if 0x41 <= v && v <= 0x5a {
        v - 0x41 + 10
    } else {
        99
    };
    if d < radix {
        Some(d as u64)
    } else {
        None
    }
}

proof fn lemma_digits_grow(s: Seq<char>, radix: u32)
    requires
        radix >= 2,
        digits_value(s, radix) is Some,
        s.len() > 0,
    ensures
        digits_value(s, radix).unwrap() >= digits_value(s.drop_last(), radix).unwrap(),
{
    let high = digits_value(s.drop_last(), radix).unwrap();
    assert(high * radix >= high) by (nonlinear_arith)
        requires
            radix >= 2,
            high >= 0,
    ;
}

proof fn lemma_digits_none_extends(s: Seq<char>, t: Seq<char>, radix: u32)
    requires
        radix >= 2,
        t.len() > s.len(),
        s == t.subrange(0, s.len() as int),
        digits_value(s, radix) is None || digits_value(s, radix).unwrap() > u64::MAX,
    ensures
        digits_value(t, radix) is None || digits_value(t, radix).unwrap() > u64::MAX,
    decreases t.len(),
{
    if t.len() > s.len() + 1 {
        assert(t.drop_last().subrange(0, s.len() as int) =~= s);
        lemma_digits_none_extends(s, t.drop_last(), radix);
    } else {
        assert(t.drop_last() =~= s);
    }
    if digits_value(t, radix) is Some {
        lemma_digits_grow(t, radix);
    }
}

/// Parses an unsigned integer the way `u64::from_str_radix` does.
pub fn parse_u64(s: &[char], radix: u32) -> (r: Option<u64>)
    requires
        2 <= radix <= 36,
    ensures
        r == spec_parse_u64(s@, radix),
{
    let mut start: usize = 0;
    if s.len() > 0 && s[0] == '+' {
        start = 1;
    }
    let ghost digits = if s@.len() > 0 && s@[0] == '+' {
        s@.drop_first()
    } else {
        s@
    };
    assert(digits =~= s@.subrange(start as int, s@.len() as int));
    if start == s.len() {
        return None;
    }
    let mut value: u64 = 0;
    let mut i = start;
    while i < s.len()
        invariant
            2 <= radix <= 36,
            start <= i <= s@.len(),
            digits == s@.subrange(start as int, s@.len() as int),
            digits == (if s@.len() > 0 && s@[0] == '+' {
                s@.drop_first()
            } else {
                s@
            }),
            digits_value(s@.subrange(start as int, i as int), radix) == Some(value as nat),
        decreases s@.len() - i,
    {
        let ghost prefix = s@.subrange(start as int, i as int);
        let ghost next = s@.subrange(start as int, i as int + 1);
        assert(next.drop_last() =~= prefix);
        assert(next.last() == s@[i as int]);
        let d = match digit_value_exec(s[i], radix) {
            Some(d) => d,
            None => {
                proof {
                    assert(digit_value(next.last(), radix) is None);
                    assert(digits_value(next, radix) is None);
                    if i + 1 < s@.len() {
                        assert(digits.subrange(0, next.len() as int) =~= next);
                        lemma_digits_none_extends(next, digits, radix);
                    } else {
                        assert(next =~= digits);
                    }
                    assert(digits_value(digits, radix) is None || digits_value(digits, radix).unwrap() > u64::MAX);
                    assert(digits.len() > 0);
                }
                return None;
            },
        };
        if value > (u64::MAX - d) / (radix as u64) {
            proof {
                assert((value as int) * (radix as int) + d > u64::MAX) by (nonlinear_arith)
                    requires
                        value > (u64::MAX - d) / (radix as int),
                        radix >= 2,
                        d < radix,
                ;
                assert(digit_value(next.last(), radix) == Some(d as nat));
                assert(digits_value(next, radix) == Some(((value as int) * (radix as int) + d) as nat));
                if i + 1 < s@.len() {
                    assert(digits.subrange(0, next.len() as int) =~= next);
                    lemma_digits_none_extends(next, digits, radix);
                } else {
                    assert(next =~= digits);
                }
            }
            return None;
        }
        proof {
            assert((value as int) * (radix as int) + d <= u64::MAX) by (nonlinear_arith)
                requires
                    value <= (u64::MAX - d) / (radix as int),
                    radix >= 2,
                    d <= u64::MAX,
            ;
        }
        value = value * (radix as u64) + d;
        i = i + 1;
    }
    assert(s@.subrange(start as int, s@.len() as int) =~= digits);
    Some(value)
}

/// Uppercase hexadecimal digit for `d` (`0 <= d < 16`).
pub open spec fn upper_hex_digit(d: int) -> char {
    if d < 10 {
        (0x30 + d) as char
    } else {
        (0x41 + d - 10) as char
    }
}

/// Uppercase hexadecimal digits of `v` without leading zeros (`"0"` for zero).
pub open spec fn upper_hex(v: nat) -> Seq<char>
    decreases v,
{
    if v < 16 {
        seq![upper_hex_digit(v as int)]
    } else {
        upper_hex(v / 16).push(upper_hex_digit((v % 16) as int))
    }
}

/// `digits` left-padded with zeros to at least `width` characters.
pub open spec fn zero_pad(digits: Seq<char>, width: nat) -> Seq<char> {
    if digits.len() >= width {
        digits
    } else {
        Seq::new((width - digits.len()) as nat, |i: int| '0') + digits
    }
}

/// `0x` followed by the uppercase hex digits of `v`, zero-padded to eight digits, as
/// `format!("0x{v:08X}")` writes it.
pub open spec fn hex8(v: nat) -> Seq<char> {
    seq!['0', 'x'] + zero_pad(upper_hex(v), 8)
}

fn upper_hex_digit_exec(d: u64) -> (c: char)
    requires
        d < 16,
    ensures
        c == upper_hex_digit(d as int),
{
    if d < 10 {
        let b = (0x30 + d) as u8;
        b as char
    } else {
        let b = (0x41 + d - 10) as u8;
        b as char
    }
}

fn push_upper_hex(v: u64, out: &mut Vec<char>)
    ensures
        final(out)@ == old(out)@ + upper_hex(v as nat),
    decreases v,
{
    if v >= 16 {
        push_upper_hex(v / 16, out);
    }
    out.push(upper_hex_digit_exec(v % 16));
    assert(final(out)@ =~= old(out)@ + upper_hex(v as nat)) by {
        if v < 16 {
            assert(upper_hex(v as nat) == seq![upper_hex_digit(v as int)]);
        } else {
            assert(upper_hex(v as nat) == upper_hex((v / 16) as nat).push(upper_hex_digit((v % 16) as int)));
        }
    }
}

/// Characters of `0x` and the value in uppercase hex, zero-padded to eight digits.
pub fn format_hex8(v: u64) -> (r: Vec<char>)
    ensures
        r@ == hex8(v as nat),
{
    let mut digits: Vec<char> = Vec::new();
    push_upper_hex(v, &mut digits);
    assert(digits@ =~= upper_hex(v as nat));
    let mut r: Vec<char> = vec!['0', 'x'];
    let mut pad = digits.len();
    while pad < 8
        invariant
            digits@ == upper_hex(v as nat),
            digits@.len() <= pad,
            pad <= 8 || pad == digits@.len(),
            r@ == seq!['0', 'x'] + Seq::new((pad - digits@.len()) as nat, |i: int| '0'),
        decreases 8 - pad,
    {
        r.push('0');
        pad = pad + 1;
        assert(r@ =~= seq!['0', 'x'] + Seq::new((pad - digits@.len()) as nat, |i: int| '0'));
    }
    let ghost head = r@;
    let mut i: usize = 0;
    while i < digits.len()
        invariant
            i <= digits@.len(),
            r@ == head + digits@.take(i as int),
        decreases digits@.len() - i,
    {
        r.push(digits[i]);
        i = i + 1;
        assert(r@ =~= head + digits@.take(i as int));
    }
    assert(digits@.take(i as int) =~= digits@);
    assert(r@ =~= hex8(v as nat));
    r
}


/// Lowercase hexadecimal digit for `d` (`0 <= d < 16`).
pub open spec fn lower_hex_digit(d: int) -> char {
    if d < 10 {
        (0x30 + d) as char
    } else {
        (0x61 + d - 10) as char
    }
}

/// Lowercase hexadecimal digits of `v` without leading zeros (`"0"` for zero).
pub open spec fn lower_hex(v: nat) -> Seq<char>
    decreases v,
{
    if v < 16 {
        seq![lower_hex_digit(v as int)]
    } else {
        lower_hex(v / 16).push(lower_hex_digit((v % 16) as int))
    }
}

fn lower_hex_digit_exec(d: u64) -> (c: char)
    requires
        d < 16,
    ensures
        c == lower_hex_digit(d as int),
{
    if d < 10 {
        let b = (0x30 + d) as u8;
        b as char
    } else {
        let b = (0x61 + d - 10) as u8;
        b as char
    }
}

/// Appends the lowercase hex digits of `v`, as `format!("{v:x}")` writes them.
pub fn push_lower_hex(v: u64, out: &mut Vec<char>)
    ensures
        final(out)@ == old(out)@ + lower_hex(v as nat),
    decreases v,
{
    if v >= 16 {
        push_lower_hex(v / 16, out);
    }
    out.push(lower_hex_digit_exec(v % 16));
    assert(final(out)@ =~= old(out)@ + lower_hex(v as nat)) by {
        if v < 16 {
            assert(lower_hex(v as nat) == seq![lower_hex_digit(v as int)]);
        } else {
            assert(lower_hex(v as nat) == lower_hex((v / 16) as nat).push(lower_hex_digit((v % 16) as int)));
        }
    }
}

/// Decimal digits of `v` without leading zeros (`"0"` for zero).
pub open spec fn decimal(v: nat) -> Seq<char>
    decreases v,
{
    if v < 10 {
        seq![(0x30 + v) as char]
    } else {
        decimal(v / 10).push((0x30 + v % 10) as char)
    }
}

/// Appends the decimal digits of `v`, as `format!("{v}")` writes them.
pub fn push_decimal(v: u64, out: &mut Vec<char>)
    ensures
        final(out)@ == old(out)@ + decimal(v as nat),
    decreases v,
{
    if v >= 10 {
        push_decimal(v / 10, out);
    }
    let b = (0x30 + v % 10) as u8;
    out.push(b as char);
    assert(final(out)@ =~= old(out)@ + decimal(v as nat)) by {
        if v < 10 {
            assert(decimal(v as nat) == seq![(0x30 + v) as char]);
        } else {
            assert(decimal(v as nat) == decimal((v / 10) as nat).push((0x30 + v % 10) as char));
        }
    }
}

/// Appends the characters of `more`.
pub fn push_chars(out: &mut Vec<char>, more: &[char])
    ensures
        final(out)@ == old(out)@ + more@,
{
    let ghost start = out@;
    let mut i: usize = 0;
    while i < more.len()
        invariant
            i <= more@.len(),
            out@ == start + more@.take(i as int),
        decreases more@.len() - i,
    {
        out.push(more[i]);
        i = i + 1;
        assert(out@ =~= start + more@.take(i as int));
    }
    assert(more@.take(more@.len() as int) =~= more@);
}

/// Appends the characters of `s`.
pub fn push_str(out: &mut Vec<char>, s: &str)
    ensures
        final(out)@ == old(out)@ + s@,
{
    let chars = chars_of(s);
    push_chars(out, chars.as_slice());
}

} // verus!
