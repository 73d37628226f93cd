//! Serialization of the field map to a JSON object, for storage
//! beside the fixed record columns.
use vstd::prelude::*;

use crate::record::MetaMap;
use crate::text::string_from_chars;

verus! {

/// The lower-case hexadecimal digit for `n`.
pub open spec fn hex_digit(n: int) -> char {
    if n == 0 {
        '0'
    } else if n == 1 {
        '1'
    } else if n == 2 {
        '2'
    } else if n == 3 {
        '3'
    } else if n == 4 {
        '4'
    } else if n == 5 {
        '5'
    } else if n == 6 {
        '6'
    } else if n == 7 {
        '7'
    } else if n == 8 {
        '8'
    } else if n == 9 {
        '9'
    } else if n == 10 {
        'a'
    } else if n == 11 {
        'b'
    } else if n == 12 {
        'c'
    } else if n == 13 {
        'd'
    } else if n == 14 {
        'e'
    } else {
        'f'
    }
}

/// The JSON escape of one character: quotes and backslashes are
/// escaped, control characters take their short form or a `\u00XX`
/// escape, everything else stands for itself.
pub open spec fn escape_char(c: char) -> Seq<char> {
    if c == '"' {
        seq!['\\', '"']
    } else if c == '\\' {
        seq!['\\', '\\']
    } else if c == '\u{8}' {
        seq!['\\', 'b']
    } else if c == '\u{c}' {
        seq!['\\', 'f']
    } else if c == '\n' {
        seq!['\\', 'n']
    } else if c == '\r' {
        seq!['\\', 'r']
    } else if c == '\t' {
        seq!['\\', 't']
    } else if (c as u32) < 32 {
        seq!['\\', 'u', '0', '0', hex_digit((c as u32 / 16) as int), hex_digit((c as u32 % 16) as int)]
    } else {
        seq![c]
    }
}

/// The JSON escape of a whole string body.
pub open spec fn escape(s: Seq<char>) -> Seq<char>
    decreases s.len(),
{
    if s.len() == 0 {
        Seq::empty()
    } else {
        escape(s.drop_last()) + escape_char(s.last())
    }
}

/// A JSON string literal: the escaped body between double quotes.
pub open spec fn json_string(s: Seq<char>) -> Seq<char> {
    seq!['"'] + escape(s) + seq!['"']
}

/// The members of a JSON object for the first `n` entries, joined
/// with commas.
pub open spec fn json_members(entries: Seq<(Seq<char>, Seq<char>)>, n: int) -> Seq<char>
    decreases n,
{
    if n <= 0 {
        Seq::empty()
    } else if n == 1 {
        json_string(entries[0].0) + seq![':'] + json_string(entries[0].1)
    } else {
        json_members(entries, n - 1) + seq![','] + json_string(entries[n - 1].0) + seq![':']
            + json_string(entries[n - 1].1)
    }
}

/// The JSON object text for a field map.
pub open spec fn json_object(entries: Seq<(Seq<char>, Seq<char>)>) -> Seq<char> {
    seq!['{'] + json_members(entries, entries.len() as int) + seq!['}']
}

fn hex_digit_x(n: u32) -> (c: char)
    requires
        n < 16,
    ensures
        c == hex_digit(n as int),
{
    if n == 0 {
        '0'
    } else if n == 1 {
        '1'
    } else if n == 2 {
        '2'
    } else if n == 3 {
        '3'
    } else if n == 4 {
        '4'
    } else if n == 5 {
        '5'
    } else if n == 6 {
        '6'
    } else if n == 7 {
        '7'
    } else if n == 8 {
        '8'
    } else if n == 9 {
        '9'
    } else if n == 10 {
        'a'
    } else if n == 11 {
        'b'
    } else if n == 12 {
        'c'
    } else if n == 13 {
        'd'
    } else if n == 14 {
        'e'
    } else {
        'f'
    }
}

fn push_escaped(out: &mut Vec<char>, c: char)
    ensures
        final(out)@ == old(out)@ + escape_char(c),
{
    if c == '"' {
        out.push('\\');
        out.push('"');
    } else if c == '\\' {
        out.push('\\');
        out.push('\\');
    } else if c == '\u{8}' {
        out.push('\\');
        out.push('b');
    } else if c == '\u{c}' {
        out.push('\\');
        out.push('f');
    } else if c == '\n' {
        out.push('\\');
        out.push('n');
    } else if c == '\r' {
        out.push('\\');
        out.push('r');
    } else if c == '\t' {
        out.push('\\');
        out.push('t');
    } else if (c as u32) < 32 {
        out.push('\\');
        out.push('u');
        out.push('0');
        out.push('0');
        out.push(hex_digit_x((c as u32) / 16));
        out.push(hex_digit_x((c as u32) % 16));
    } else {
        out.push(c);
    }
    proof {
        assert(out@ =~= old(out)@ + escape_char(c));
    }
}

fn push_json_string(out: &mut Vec<char>, s: &String)
    ensures
        final(out)@ == old(out)@ + json_string(s@),
{
    out.push('"');
    let sv = crate::text::chars_vec(s.as_str());
    let mut i: usize = 0;
    while i < sv.len()
        invariant
            sv@ == s@,
            i <= sv@.len(),
            out@ == old(out)@ + seq!['"'] + escape(sv@.subrange(0, i as int)),
        decreases sv@.len() - i,
    {
        push_escaped(out, sv[i]);
        i = i + 1;
        proof {
            let pre = sv@.subrange(0, i as int);
            assert(pre.drop_last() =~= sv@.subrange(0, i - 1));
            assert(pre.last() == sv@[i - 1]);
            assert(out@ =~= old(out)@ + seq!['"'] + escape(pre));
        }
    }
    out.push('"');
    proof {
        assert(sv@.subrange(0, sv@.len() as int) =~= s@);
        assert(out@ =~= old(out)@ + json_string(s@));
    }
}

/// Serialize the field map to a JSON object, entries in their stored
/// order.
pub fn meta_json(m: &MetaMap) -> (r: String)
    ensures
        r@ == json_object(m@),
{
    let mut out: Vec<char> = Vec::new();
    out.push('{');
    let n = m.len();
    let mut i: usize = 0;
    while i < n
        invariant
            n == m@.len(),
            i <= n,
            out@ == seq!['{'] + json_members(m@, i as int),
        decreases n - i,
    {
        if i > 0 {
            out.push(',');
        }
        let kv = m.entry_at(i);
        push_json_string(&mut out, kv.0);
        out.push(':');
        push_json_string(&mut out, kv.1);
        i = i + 1;
        proof {
            assert(out@ =~= seq!['{'] + json_members(m@, i as int));
        }
    }
    out.push('}');
    proof {
        assert(out@ =~= json_object(m@));
    }
    string_from_chars(&out)
}

} // verus!
