//! The wire payload: a batch is encoded as the JSON object
//! `{"streams":[{"stream":{<labels>},"values":[["<ts>","<line>"],...]}]}`,
//! with timestamps rendered as decimal strings and all strings escaped by
//! the JSON rules (quote, backslash, and control characters below 0x20).

use vstd::prelude::*;
use vstd::string::StrSliceExecFns;
use vstd::string::StringExecFns;

use crate::batch::LogEntry;

verus! {

/// The decimal digit character for a value below ten.
pub open spec fn spec_dec_digit(d: nat) -> char {
    if d == 0 {
        '0'
    } else if d == 1 {
        '1'
    } else if d == 2 {
        '2'
    } else if d == 3 {
        '3'
    } else if d == 4 {
        '4'
    } else if d == 5 {
        '5'
    } else if d == 6 {
        '6'
    } else if d == 7 {
        '7'
    } else if d == 8 {
        '8'
    } else {
        '9'
    }
}

/// The hexadecimal digit character (lower case) for a value below sixteen.
pub open spec fn spec_hex_digit(d: nat) -> char {
    if d < 10 {
        spec_dec_digit(d)
    } else if d == 10 {
        'a'
    } else if d == 11 {
        'b'
    } else if d == 12 {
        'c'
    } else if d == 13 {
        'd'
    } else if d == 14 {
        'e'
    } else {
        'f'
    }
}

/// The decimal rendering of a natural number, most significant digit
/// first, with no leading zeros (a single `'0'` for zero).
pub open spec fn dec_digits(n: nat) -> Seq<char>
    decreases n,
{
    if n < 10 {
        seq![spec_dec_digit(n)]
    } else {
        dec_digits(n / 10).push(spec_dec_digit(n % 10))
    }
}

/// The JSON escaping of one character: quote and backslash get a
/// backslash escape, control characters below 0x20 get their short escape
/// or a `\u00xx` escape, and every other character stands for itself.
pub open spec fn json_escaped_char(c: char) -> Seq<char> {
    if c == '"' {
        seq!['\\', '"']
    } else if c == '\\' {
        seq!['\\', '\\']
    } else if c == '\u{8}' {
        seq!['\\', 'b']
    } else if c == '\u{c}' {
        seq!['\\', 'f']
    } else if c == '\n' {
        seq!['\\', 'n']
    } else if c == '\r' {
        seq!['\\', 'r']
    } else if c == '\t' {
        seq!['\\', 't']
    } else if (c as u32) < 0x20 {
        seq!['\\', 'u', '0', '0', spec_hex_digit((c as u32 / 16) as nat), spec_hex_digit((c as u32 % 16) as nat)]
    } else {
        seq![c]
    }
}

/// The JSON escaping of a whole string.
pub open spec fn json_escaped(s: Seq<char>) -> Seq<char>
    decreases s.len(),
{
    if s.len() == 0 {
        Seq::empty()
    } else {
        json_escaped(s.drop_last()) + json_escaped_char(s.last())
    }
}

/// One label rendered as a JSON object member: `"key":"value"`.
pub open spec fn label_json(k: Seq<char>, v: Seq<char>) -> Seq<char> {
    ("\"")@ + json_escaped(k) + ("\":\"")@ + json_escaped(v) + ("\"")@
}

/// A label set rendered as the comma-separated members of a JSON object.
pub open spec fn labels_json(ls: Seq<(String, String)>) -> Seq<char>
    decreases ls.len(),
{
    if ls.len() == 0 {
        Seq::empty()
    } else if ls.len() == 1 {
        label_json(ls[0].0@, ls[0].1@)
    } else {
        labels_json(ls.drop_last()) + (",")@ + label_json(ls.last().0@, ls.last().1@)
    }
}

/// One entry rendered as the JSON pair `["<timestamp>","<line>"]`.
pub open spec fn entry_json(e: LogEntry) -> Seq<char> {
    ("[\"")@ + dec_digits(e.timestamp as nat) + ("\",\"")@ + json_escaped(e.line@) + ("\"]")@
}

/// An entry list rendered as the comma-separated elements of a JSON array.
pub open spec fn entries_json(es: Seq<LogEntry>) -> Seq<char>
    decreases es.len(),
{
    if es.len() == 0 {
        Seq::empty()
    } else if es.len() == 1 {
        entry_json(es[0])
    } else {
        entries_json(es.drop_last()) + (",")@ + entry_json(es.last())
    }
}

/// The complete push payload for one batch.
pub open spec fn payload_json(labels: Seq<(String, String)>, entries: Seq<LogEntry>) -> Seq<char> {
    ("{\"streams\":[{\"stream\":{")@ + labels_json(labels) + ("},\"values\":[")@ + entries_json(
        entries,
    ) + ("]}]}")@
}

/// Relies on `String::push`: appends exactly the given character.
#[verifier::external_body]
pub(crate) fn push_char(s: &mut String, c: char)
    ensures
        final(s)@ == old(s)@.push(c),
{
    s.push(c);
}

/// The digit character for a value below ten.
pub(crate) fn dec_digit_char(d: u8) -> (c: char)
    requires
        d < 10,
    ensures
        c == spec_dec_digit(d as nat),
{
    match d {
        0 => '0',
        1 => '1',
        2 => '2',
        3 => '3',
        4 => '4',
        5 => '5',
        6 => '6',
        7 => '7',
        8 => '8',
        _ => '9',
    }
}

/// The hexadecimal digit character (lower case) for a value below sixteen.
pub(crate) fn hex_digit_char(d: u8) -> (c: char)
    requires
        d < 16,
    ensures
        c == spec_hex_digit(d as nat),
{
    if d < 10 {
        dec_digit_char(d)
    } else {
        match d {
            10 => 'a',
            11 => 'b',
            12 => 'c',
            13 => 'd',
            14 => 'e',
            _ => 'f',
        }
    }
}

/// Append the decimal rendering of `n` to `dst`.
pub fn append_dec(dst: &mut String, n: u128)
    ensures
        final(dst)@ == old(dst)@ + dec_digits(n as nat),
{
    let mut digits: Vec<char> = Vec::new();
    let mut v: u128 = n;
    loop
        invariant_except_break
            dec_digits(n as nat) == dec_digits(v as nat) + digits@,
        ensures
            digits@ == dec_digits(n as nat),
        decreases v,
    {
        let d: u8 = (v % 10) as u8;
        digits.insert(0, dec_digit_char(d));
        proof {
            if v >= 10 {
                assert(dec_digits(v as nat) == dec_digits((v / 10) as nat) + digits@.take(1));
                assert(dec_digits(v as nat) + digits@.drop_first() =~= dec_digits(
                    (v / 10) as nat,
                ) + digits@);
            } else {
                assert(dec_digits(v as nat) =~= digits@.take(1));
            }
        }
        v = v / 10;
        if v == 0 {
            break;
        }
    }
    let m = digits.len();
    for i in 0..m
        invariant
            m == digits@.len(),
            digits@ == dec_digits(n as nat),
            dst@ == old(dst)@ + digits@.take(i as int),
    {
        push_char(dst, digits[i]);
        proof {
            assert(old(dst)@ + digits@.take(i as int) + seq![digits@[i as int]] =~= old(dst)@
                + digits@.take(i + 1 as int));
        }
    }
    proof {
        assert(digits@.take(m as int) =~= digits@);
    }
}

/// Append the JSON escaping of `s` to `dst`.
pub fn append_json_escaped(dst: &mut String, s: &str)
    ensures
        final(dst)@ == old(dst)@ + json_escaped(s@),
{
    let n = s.unicode_len();
    for i in 0..n
        invariant
            n == s@.len(),
            dst@ == old(dst)@ + json_escaped(s@.take(i as int)),
    {
        let c = s.get_char(i);
        if c == '"' {
            push_char(dst, '\\');
            push_char(dst, '"');
        } else if c == '\\' {
            push_char(dst, '\\');
            push_char(dst, '\\');
        } else if c == '\u{8}' {
            push_char(dst, '\\');
            push_char(dst, 'b');
        } else if c == '\u{c}' {
            push_char(dst, '\\');
            push_char(dst, 'f');
        } else if c == '\n' {
            push_char(dst, '\\');
            push_char(dst, 'n');
        } else if c == '\r' {
            push_char(dst, '\\');
            push_char(dst, 'r');
        } else if c == '\t' {
            push_char(dst, '\\');
            push_char(dst, 't');
        } else if (c as u32) < 0x20 {
            let u = c as u32;
            push_char(dst, '\\');
            push_char(dst, 'u');
            push_char(dst, '0');
            push_char(dst, '0');
            push_char(dst, hex_digit_char((u / 16) as u8));
            push_char(dst, hex_digit_char((u % 16) as u8));
        } else {
            push_char(dst, c);
        }
        proof {
            assert(s@.take(i + 1 as int).drop_last() =~= s@.take(i as int));
            assert(s@.take(i + 1 as int).last() == s@[i as int]);
            assert(dst@ =~= old(dst)@ + json_escaped(s@.take(i + 1 as int)));
        }
    }
    proof {
        assert(s@.take(n as int) =~= s@);
    }
}

/// Append one rendered label, `"key":"value"`, to `dst`.
fn append_label(dst: &mut String, k: &String, v: &String)
    ensures
        final(dst)@ == old(dst)@ + label_json(k@, v@),
{
    dst.append("\"");
    append_json_escaped(dst, k.as_str());
    dst.append("\":\"");
    append_json_escaped(dst, v.as_str());
    dst.append("\"");
}

/// Append one rendered entry, `["<timestamp>","<line>"]`, to `dst`.
fn append_entry(dst: &mut String, timestamp: u128, line: &String)
    ensures
        final(dst)@ == old(dst)@ + entry_json(LogEntry { timestamp, line: *line }),
{
    dst.append("[\"");
    append_dec(dst, timestamp);
    dst.append("\",\"");
    append_json_escaped(dst, line.as_str());
    dst.append("\"]");
}

/// Encode one batch's labels and entries as the complete push payload.
pub fn encode_payload(labels: &Vec<(String, String)>, entries: &Vec<LogEntry>) -> (r: String)
    ensures
        r@ == payload_json(labels@, entries@),
{
    let mut out = String::new();
    out.append("{\"streams\":[{\"stream\":{");
    let nl = labels.len();
    for i in 0..nl
        invariant
            nl == labels@.len(),
            out@ == ("{\"streams\":[{\"stream\":{")@ + labels_json(labels@.take(i as int)),
    {
        if i > 0 {
            out.append(",");
        }
        let pair = &labels[i];
        append_label(&mut out, &pair.0, &pair.1);
        proof {
            assert(labels@.take(i + 1 as int).drop_last() =~= labels@.take(i as int));
            assert(labels@.take(i + 1 as int).last() == labels@[i as int]);
            assert(out@ =~= ("{\"streams\":[{\"stream\":{")@ + labels_json(
                labels@.take(i + 1 as int),
            ));
        }
    }
    proof {
        assert(labels@.take(nl as int) =~= labels@);
    }
    out.append("},\"values\":[");
    let ne = entries.len();
    for i in 0..ne
        invariant
            ne == entries@.len(),
            out@ == ("{\"streams\":[{\"stream\":{")@ + labels_json(labels@) + ("},\"values\":[")@
                + entries_json(entries@.take(i as int)),
    {
        if i > 0 {
            out.append(",");
        }
        let e = &entries[i];
        append_entry(&mut out, e.timestamp, &e.line);
        proof {
            assert(entries@.take(i + 1 as int).drop_last() =~= entries@.take(i as int));
            assert(entries@.take(i + 1 as int).last() == entries@[i as int]);
            assert(entries@[i as int] == LogEntry {
                timestamp: entries@[i as int].timestamp,
                line: entries@[i as int].line,
            });
            assert(out@ =~= ("{\"streams\":[{\"stream\":{")@ + labels_json(labels@) + (
            "},\"values\":[")@ + entries_json(entries@.take(i + 1 as int)));
        }
    }
    proof {
        assert(entries@.take(ne as int) =~= entries@);
    }
    out.append("]}]}");
    proof {
        assert(out@ =~= payload_json(labels@, entries@));
    }
    out
}

} // verus!
