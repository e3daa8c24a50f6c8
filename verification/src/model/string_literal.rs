use vstd::prelude::*;

use crate::text::{chars_of, seq_starts_with, starts_with_chars, string_from_chars};

verus! {

/// Stable index into managed IL2CPP string-literal records.
#[derive(Debug, Clone, Copy, PartialEq, Eq, Hash, Structural)]
pub struct StringLiteralId(pub usize);

/// Decoded managed-code literal, distinct from metadata identifier strings.
#[derive(Debug, Clone, PartialEq, Eq)]
pub struct StringLiteral {
    pub id: StringLiteralId,
    pub value: String,
    pub metadata_index: usize,
    pub data_index: u32,
    pub byte_length: u32,
    pub metadata_file_offset: Option<u64>,
    pub valid_utf8: bool,
}

/// Lowercase hexadecimal digit for `d` (`0 <= d < 16`).
pub open spec fn hex_digit(d: int) -> char {
    if d == 0 { '0' } else if d == 1 { '1' } else if d == 2 { '2' } else if d == 3 { '3' }
    else if d == 4 { '4' } else if d == 5 { '5' } else if d == 6 { '6' } else if d == 7 { '7' }
    else if d == 8 { '8' } else if d == 9 { '9' } else if d == 10 { 'a' } else if d == 11 { 'b' }
    else if d == 12 { 'c' } else if d == 13 { 'd' } else if d == 14 { 'e' } else { 'f' }
}

/// Lowercase hexadecimal digits of `v` without leading zeros (`"0"` for zero).
pub open spec fn hex_digits(v: nat) -> Seq<char>
    decreases v,
{
    if v < 16 {
        seq![hex_digit(v as int)]
    } else {
        hex_digits(v / 16).push(hex_digit((v % 16) as int))
    }
}

/// Escape of one character as `char::escape_default` writes it.
pub open spec fn escape_char(c: char) -> Seq<char> {
    if c == '\t' {
        seq!['\\', 't']
    } else if c == '\r' {
        seq!['\\', 'r']
    } else if c == '\n' {
        seq!['\\', 'n']
    } else if c == '\\' {
        seq!['\\', '\\']
    } else if c == '\'' {
        seq!['\\', '\'']
    } else if c == '"' {
        seq!['\\', '"']
    } else if 0x20 <= (c as u32) <= 0x7e {
        seq![c]
    } else {
        seq!['\\', 'u', '{'] + hex_digits(c as u32 as nat) + seq!['}']
    }
}

/// Escape of a character sequence: each character escaped in turn.
pub open spec fn escape_seq(s: Seq<char>) -> Seq<char>
    decreases s.len(),
{
    if s.len() == 0 {
        Seq::empty()
    } else {
        escape_seq(s.drop_last()) + escape_char(s.last())
    }
}

/// Prefixes that mark a literal as a URL.
pub open spec fn url_prefixes() -> Seq<Seq<char>> {
    seq![
        seq!['h', 't', 't', 'p', ':', '/', '/'],
        seq!['h', 't', 't', 'p', 's', ':', '/', '/'],
        seq!['w', 's', ':', '/', '/'],
        seq!['w', 's', 's', ':', '/', '/'],
    ]
}

/// `value` starts with one of the URL prefixes.
pub open spec fn spec_is_url(value: Seq<char>) -> bool {
    exists|i: int| 0 <= i < url_prefixes().len() && seq_starts_with(value, #[trigger] url_prefixes()[i])
}

fn hex_digit_exec(d: u32) -> (c: char)
    requires
        d < 16,
    ensures
        c == hex_digit(d as int),
{
    match d {
        0 => '0',
        1 => '1',
        2 => '2',
        3 => '3',
        4 => '4',
        5 => '5',
        6 => '6',
        7 => '7',
        8 => '8',
        9 => '9',
        10 => 'a',
        11 => 'b',
        12 => 'c',
        13 => 'd',
        14 => 'e',
        _ => 'f',
    }
}

fn push_hex_digits(v: u32, out: &mut Vec<char>)
    ensures
        final(out)@ == old(out)@ + hex_digits(v as nat),
    decreases v,
{
    if v >= 16 {
        push_hex_digits(v / 16, out);
    }
    out.push(hex_digit_exec(v % 16));
    proof {
        if v >= 16 {
            assert(hex_digits(v as nat) == hex_digits((v / 16) as nat).push(hex_digit((v % 16) as int)));
        }
    }
    assert(final(out)@ =~= old(out)@ + hex_digits(v as nat)) by {
        if v < 16 {
            assert(hex_digits(v as nat) == seq![hex_digit(v as int)]);
        }
    }
}

fn push_escaped(c: char, out: &mut Vec<char>)
    ensures
        final(out)@ == old(out)@ + escape_char(c),
{
    let ghost start = out@;
    if c == '\t' {
        out.push('\\');
        out.push('t');
    } else if c == '\r' {
        out.push('\\');
        out.push('r');
    } else if c == '\n' {
        out.push('\\');
        out.push('n');
    } else if c == '\\' {
        out.push('\\');
        out.push('\\');
    } else if c == '\'' {
        out.push('\\');
        out.push('\'');
    } else if c == '"' {
        out.push('\\');
        out.push('"');
    } else if 0x20 <= (c as u32) && (c as u32) <= 0x7e {
        out.push(c);
    } else {
        out.push('\\');
        out.push('u');
        out.push('{');
        push_hex_digits(c as u32, out);
        out.push('}');
    }
    assert(out@ =~= start + escape_char(c));
}

impl StringLiteral {
    /// The value with every character escaped as `char::escape_default` does.
    pub fn escaped(&self) -> (r: String)
        ensures
            r@ == escape_seq(self.value@),
    {
        let chars = chars_of(self.value.as_str());
        let mut out: Vec<char> = Vec::new();
        let mut i: usize = 0;
        while i < chars.len()
            invariant
                i <= chars@.len(),
                out@ == escape_seq(chars@.take(i as int)),
            decreases chars@.len() - i,
        {
            push_escaped(chars[i], &mut out);
            assert(chars@.take(i as int + 1).drop_last() =~= chars@.take(i as int));
            i = i + 1;
        }
        assert(chars@.take(chars@.len() as int) =~= chars@);
        string_from_chars(out.as_slice())
    }

    /// Whether the value starts with `http://`, `https://`, `ws://` or `wss://`.
    pub fn is_url(&self) -> (r: bool)
        ensures
            r == spec_is_url(self.value@),
    {
        let value = chars_of(self.value.as_str());
        let prefixes: Vec<Vec<char>> = vec![
            vec!['h', 't', 't', 'p', ':', '/', '/'],
            vec!['h', 't', 't', 'p', 's', ':', '/', '/'],
            vec!['w', 's', ':', '/', '/'],
            vec!['w', 's', 's', ':', '/', '/'],
        ];
        let mut i: usize = 0;
        while i < prefixes.len()
            invariant
                value@ == self.value@,
                prefixes@.len() == 4,
                forall|k: int| 0 <= k < 4 ==> (#[trigger] prefixes@[k])@ == url_prefixes()[k],
                i <= 4,
                forall|k: int| 0 <= k < i ==> !seq_starts_with(value@, #[trigger] url_prefixes()[k]),
            decreases 4 - i,
        {
            if starts_with_chars(value.as_slice(), prefixes[i].as_slice()) {
                assert(seq_starts_with(value@, url_prefixes()[i as int]));
                assert(url_prefixes().len() == 4);
                assert(value@ == self.value@);
                assert(0 <= i < url_prefixes().len() && seq_starts_with(self.value@, url_prefixes()[i as int]));
                return true;
            }
            i = i + 1;
        }
        assert(!spec_is_url(self.value@)) by {
            if spec_is_url(self.value@) {
                let k = choose|k: int| 0 <= k < url_prefixes().len() && seq_starts_with(self.value@, #[trigger] url_prefixes()[k]);
                assert(!seq_starts_with(value@, url_prefixes()[k]));
            }
        }
        false
    }
}

} // verus!
