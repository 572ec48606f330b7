//! The default formatter: logfmt, a plain-text `key=value` rendering of
//! a log record. Keys are stripped of characters that logfmt cannot
//! carry, duplicate keys are dropped, and values are quoted and escaped
//! when they contain whitespace, `=`, backslashes, quotes, or control
//! characters.

use vstd::prelude::*;
use vstd::string::StrSliceExecFns;
use vstd::string::StringExecFns;

use crate::fmt::LogRecord;
use crate::fmt::LokiFormatter;
use crate::payload::dec_digits;
use crate::payload::append_dec;
use crate::payload::hex_digit_char;
use crate::payload::push_char;
use crate::payload::spec_hex_digit;

verus! {

/// Render a `level` field with the level the message was logged at.
pub const LOGFMT_LEVEL: u32 = 1;

/// Render a `message` field with the log message itself.
pub const LOGFMT_MESSAGE: u32 = 2;

/// Render a `target` field with the target of the log directive.
pub const LOGFMT_TARGET: u32 = 4;

/// Render a `module` field with the module path of the log record.
pub const LOGFMT_MODULE: u32 = 8;

/// Render a `file` field with the source file of the log directive.
pub const LOGFMT_FILE: u32 = 16;

/// Render a `line` field with the source line of the log directive.
pub const LOGFMT_LINE: u32 = 32;

/// `LogfmtAutoFields` selects which fields of a log record are rendered
/// into the final logfmt string, as a set of `LOGFMT_*` bits. The
/// default set is `LOGFMT_LEVEL | LOGFMT_MESSAGE | LOGFMT_MODULE`.
#[derive(Clone, Copy, Debug, PartialEq, Eq, Structural)]
pub struct LogfmtAutoFields {
    pub bits: u32,
}

impl LogfmtAutoFields {
    /// The field set with exactly the given `LOGFMT_*` bits.
    pub fn new(bits: u32) -> (r: LogfmtAutoFields)
        ensures
            r.bits == bits,
    {
        LogfmtAutoFields { bits }
    }

    /// Whether every field of `flags` is selected.
    pub fn contains(&self, flags: u32) -> (r: bool)
        ensures
            r == (self.bits & flags == flags),
    {
        self.bits & flags == flags
    }
}

impl Default for LogfmtAutoFields {
    /// The default field set: level, message, and module path.
    fn default() -> (r: LogfmtAutoFields)
        ensures
            r.bits == (LOGFMT_LEVEL | LOGFMT_MESSAGE | LOGFMT_MODULE),
    {
        LogfmtAutoFields { bits: LOGFMT_LEVEL | LOGFMT_MESSAGE | LOGFMT_MODULE }
    }
}

/// Characters that may not appear in logfmt keys.
pub open spec fn valid_key_char(c: char) -> bool {
    c != ' ' && c != '=' && c != '"'
}

/// A key with its invalid characters stripped.
pub open spec fn filtered_key(k: Seq<char>) -> Seq<char>
    decreases k.len(),
{
    if k.len() == 0 {
        Seq::empty()
    } else {
        filtered_key(k.drop_last()) + (if valid_key_char(k.last()) {
            seq![k.last()]
        } else {
            Seq::<char>::empty()
        })
    }
}

/// The normalized form of a key: stripped of invalid characters, and a
/// single underscore if nothing remains.
pub open spec fn normalized_key(k: Seq<char>) -> Seq<char> {
    if filtered_key(k).len() == 0 {
        seq!['_']
    } else {
        filtered_key(k)
    }
}

/// A Unicode control character (the Cc category).
pub open spec fn is_ctrl(c: char) -> bool {
    (c as u32) < 0x20 || (0x7f <= c as u32 && c as u32 <= 0x9f)
}

/// The hexadecimal rendering (lower case) of a natural number, most
/// significant digit first, with no leading zeros.
pub open spec fn hex_digits(n: nat) -> Seq<char>
    decreases n,
{
    if n < 16 {
        seq![spec_hex_digit(n)]
    } else {
        hex_digits(n / 16).push(spec_hex_digit(n % 16))
    }
}

/// The `\u{..}` escape of a character, as `char::escape_unicode` renders
/// it.
pub open spec fn unicode_escape(c: char) -> Seq<char> {
    ("\\u{")@ + hex_digits((c as u32) as nat) + ("}")@
}

/// Whether a character forces the value it appears in to be quoted.
pub open spec fn needs_quoting_char(c: char) -> bool {
    c == '\\' || c == '"' || c == ' ' || c == '=' || c == '\n' || c == '\r' || c == '\t'
        || is_ctrl(c)
}

/// How one character of a value is rendered: backslashes and quotes get
/// a backslash prefix, `\n`/`\r`/`\t` get one only when newline escaping
/// is on, other control characters become a `\u{..}` escape, and
/// everything else stands for itself.
pub open spec fn logfmt_value_char(c: char, escape_newlines: bool) -> Seq<char> {
    if c == '\\' || c == '"' {
        seq!['\\', c]
    } else if c == ' ' || c == '=' {
        seq![c]
    } else if c == '\n' || c == '\r' || c == '\t' {
        if escape_newlines {
            seq!['\\', c]
        } else {
            seq![c]
        }
    } else if is_ctrl(c) {
        unicode_escape(c)
    } else {
        seq![c]
    }
}

/// The rendered form of a whole value.
pub open spec fn formatted_value(v: Seq<char>, escape_newlines: bool) -> Seq<char>
    decreases v.len(),
{
    if v.len() == 0 {
        Seq::empty()
    } else {
        formatted_value(v.drop_last(), escape_newlines) + logfmt_value_char(
            v.last(),
            escape_newlines,
        )
    }
}

/// Whether a value must be rendered in quotes.
pub open spec fn needs_quoting(v: Seq<char>) -> bool
    decreases v.len(),
{
    if v.len() == 0 {
        false
    } else {
        needs_quoting(v.drop_last()) || needs_quoting_char(v.last())
    }
}

/// One rendered pair: the normalized key, `=`, and the rendered value,
/// in quotes when it needs them.
pub open spec fn rendered_pair(key_norm: Seq<char>, v: Seq<char>, escape_newlines: bool) -> Seq<
    char,
> {
    if needs_quoting(v) {
        key_norm + ("=\"")@ + formatted_value(v, escape_newlines) + ("\"")@
    } else {
        key_norm + ("=")@ + formatted_value(v, escape_newlines)
    }
}

/// A rendered pair with its separator: pairs are space-separated, so
/// every pair but the first of a line is preceded by one space.
pub open spec fn separated(sep: bool, pair: Seq<char>) -> Seq<char> {
    if sep {
        (" ")@ + pair
    } else {
        pair
    }
}

/// Whether a normalized key was already rendered.
pub open spec fn used_contains(used: Seq<String>, key: Seq<char>) -> bool {
    exists|i: int| 0 <= i < used.len() && used[i]@ == key
}

/// Append the hexadecimal rendering of `n`.
fn append_hex(dst: &mut String, n: u32)
    ensures
        final(dst)@ == old(dst)@ + hex_digits(n as nat),
{
    let mut digits: Vec<char> = Vec::new();
    let mut v: u32 = n;
    loop
        invariant_except_break
            hex_digits(n as nat) == hex_digits(v as nat) + digits@,
        ensures
            digits@ == hex_digits(n as nat),
        decreases v,
    {
        let d: u8 = (v % 16) as u8;
        digits.insert(0, hex_digit_char(d));
        proof {
            if v >= 16 {
                assert(hex_digits(v as nat) == hex_digits((v / 16) as nat) + digits@.take(1));
                assert(hex_digits(v as nat) + digits@.drop_first() =~= hex_digits(
                    (v / 16) as nat,
                ) + digits@);
            } else {
                assert(hex_digits(v as nat) =~= digits@.take(1));
            }
        }
        v = v / 16;
        if v == 0 {
            break;
        }
    }
    let m = digits.len();
    for i in 0..m
        invariant
            m == digits@.len(),
            digits@ == hex_digits(n as nat),
            dst@ == old(dst)@ + digits@.take(i as int),
    {
        push_char(dst, digits[i]);
        proof {
            assert(old(dst)@ + digits@.take(i as int) + seq![digits@[i as int]] =~= old(dst)@
                + digits@.take(i + 1 as int));
        }
    }
    proof {
        assert(digits@.take(m as int) =~= digits@);
    }
}

/// The normalized form of a key, as a fresh string.
fn build_normalized_key(key: &str) -> (r: String)
    ensures
        r@ == normalized_key(key@),
{
    let mut out = String::new();
    let n = key.unicode_len();
    for i in 0..n
        invariant
            n == key@.len(),
            out@ == filtered_key(key@.take(i as int)),
    {
        let c = key.get_char(i);
        if c != ' ' && c != '=' && c != '"' {
            push_char(&mut out, c);
        }
        proof {
            assert(key@.take(i + 1 as int).drop_last() =~= key@.take(i as int));
            assert(key@.take(i + 1 as int).last() == key@[i as int]);
            assert(out@ =~= filtered_key(key@.take(i + 1 as int)));
        }
    }
    proof {
        assert(key@.take(n as int) =~= key@);
    }
    if out.as_str().is_empty() {
        push_char(&mut out, '_');
        proof {
            assert(out@ =~= seq!['_']);
        }
    }
    out
}

/// Whether `key` was already rendered into this line.
fn used_contains_exec(used: &Vec<String>, key: &String) -> (r: bool)
    ensures
        r == used_contains(used@, key@),
{
    let n = used.len();
    for i in 0..n
        invariant
            n == used@.len(),
            forall|j: int| 0 <= j < i ==> used@[j]@ != key@,
    {
        if used[i].eq(key) {
            return true;
        }
    }
    false
}

/// The rendered form of a value, and whether it must be quoted.
fn format_value(val: &str, escape_newlines: bool) -> (r: (String, bool))
    ensures
        r.0@ == formatted_value(val@, escape_newlines),
        r.1 == needs_quoting(val@),
{
    let mut out = String::new();
    let mut quote: bool = false;
    let n = val.unicode_len();
    for i in 0..n
        invariant
            n == val@.len(),
            out@ == formatted_value(val@.take(i as int), escape_newlines),
            quote == needs_quoting(val@.take(i as int)),
    {
        let c = val.get_char(i);
        if c == '\\' || c == '"' {
            quote = true;
            push_char(&mut out, '\\');
            push_char(&mut out, c);
        } else if c == ' ' || c == '=' {
            quote = true;
            push_char(&mut out, c);
        } else if c == '\n' || c == '\r' || c == '\t' {
            quote = true;
            if escape_newlines {
                push_char(&mut out, '\\');
            }
            push_char(&mut out, c);
        } else {
            let u = c as u32;
            if u < 0x20 || (0x7f <= u && u <= 0x9f) {
                quote = true;
                out.append("\\u{");
                append_hex(&mut out, u);
                out.append("}");
            } else {
                push_char(&mut out, c);
            }
        }
        proof {
            assert(val@.take(i + 1 as int).drop_last() =~= val@.take(i as int));
            assert(val@.take(i + 1 as int).last() == val@[i as int]);
            assert(out@ =~= formatted_value(val@.take(i + 1 as int), escape_newlines));
        }
    }
    proof {
        assert(val@.take(n as int) =~= val@);
    }
    (out, quote)
}

/// `LogfmtFormatter` marshals log records in the logfmt format: plain
/// text, easy for humans and machines alike. It is the default
/// formatter of this crate.
pub struct LogfmtFormatter {
    pub include_fields: LogfmtAutoFields,
    pub escape_newlines: bool,
}

impl LogfmtFormatter {
    /// Create a new `LogfmtFormatter`. Fields are auto-inserted
    /// according to `include_fields`; `\r`, `\n` and `\t` are escaped
    /// only when `escape_newlines` is set (the endpoint does not require
    /// it).
    pub fn new(include_fields: LogfmtAutoFields, escape_newlines: bool) -> (r: LogfmtFormatter)
        ensures
            r.include_fields == include_fields,
            r.escape_newlines == escape_newlines,
    {
        LogfmtFormatter { include_fields, escape_newlines }
    }

    /// Write a key-value pair to `dst`: the key is normalized first, a
    /// pair whose normalized key was already written is dropped, and
    /// every pair but the line's first is preceded by a separator space.
    pub fn write_pair(&self, dst: &mut String, used_fields: &mut Vec<String>, key: &str, val: &str)
        ensures
            used_contains(old(used_fields)@, normalized_key(key@)) ==> final(dst)@ == old(dst)@
                && final(used_fields)@ == old(used_fields)@,
            !used_contains(old(used_fields)@, normalized_key(key@)) ==> {
                &&& final(dst)@ == old(dst)@ + separated(
                    old(used_fields)@.len() > 0,
                    rendered_pair(normalized_key(key@), val@, self.escape_newlines),
                )
                &&& final(used_fields)@.len() == old(used_fields)@.len() + 1
                &&& final(used_fields)@.take(old(used_fields)@.len() as int) == old(used_fields)@
                &&& final(used_fields)@.last()@ == normalized_key(key@)
            },
    {
        let norm = build_normalized_key(key);
        if used_contains_exec(used_fields, &norm) {
            return ;
        }
        if used_fields.len() > 0 {
            dst.append(" ");
        }
        used_fields.push(norm.clone());
        proof {
            assert(used_fields@.take(old(used_fields)@.len() as int) =~= old(used_fields)@);
        }
        let (fv, quote) = format_value(val, self.escape_newlines);
        dst.append(norm.as_str());
        if quote {
            dst.append("=\"");
            dst.append(fv.as_str());
            dst.append("\"");
        } else {
            dst.append("=");
            dst.append(fv.as_str());
        }
        proof {
            assert(dst@ =~= old(dst)@ + separated(
                old(used_fields)@.len() > 0,
                rendered_pair(normalized_key(key@), val@, self.escape_newlines),
            ));
        }
    }
}

/// The complete logfmt rendering of a record: the selected fields in
/// their fixed order, each one `key=value` pair, space-separated, with
/// no separator before the line's first pair. `message` and `target`
/// are rendered only when non-empty; `module`, `file` and `line` only
/// when the record carries them.
pub open spec fn record_rendering(fmt: LogfmtFormatter, rec: LogRecord) -> Seq<char> {
    let esc = fmt.escape_newlines;
    let bits = fmt.include_fields.bits;
    let c1 = bits & LOGFMT_LEVEL == LOGFMT_LEVEL;
    let c2 = bits & LOGFMT_MESSAGE == LOGFMT_MESSAGE && rec.message@.len() > 0;
    let c3 = bits & LOGFMT_TARGET == LOGFMT_TARGET && rec.target@.len() > 0;
    let c4 = bits & LOGFMT_MODULE == LOGFMT_MODULE && rec.module is Some;
    let c5 = bits & LOGFMT_FILE == LOGFMT_FILE && rec.file is Some;
    let c6 = bits & LOGFMT_LINE == LOGFMT_LINE && rec.line is Some;
    (if c1 {
        rendered_pair(("level")@, rec.level.spec_name(), esc)
    } else {
        Seq::empty()
    }) + (if c2 {
        separated(c1, rendered_pair(("message")@, rec.message@, esc))
    } else {
        Seq::empty()
    }) + (if c3 {
        separated(c1 || c2, rendered_pair(("target")@, rec.target@, esc))
    } else {
        Seq::empty()
    }) + (if c4 {
        separated(c1 || c2 || c3, rendered_pair(("module")@, (rec.module->0)@, esc))
    } else {
        Seq::empty()
    }) + (if c5 {
        separated(c1 || c2 || c3 || c4, rendered_pair(("file")@, (rec.file->0)@, esc))
    } else {
        Seq::empty()
    }) + (if c6 {
        separated(
            c1 || c2 || c3 || c4 || c5,
            rendered_pair(("line")@, dec_digits((rec.line->0) as nat), esc),
        )
    } else {
        Seq::empty()
    })
}

impl LogfmtFormatter {
    /// Append one pair whose key is already in normalized form (the
    /// fixed field names are), with a separator space when the line
    /// already holds a pair.
    fn append_known_pair(&self, dst: &mut String, key: &str, val: &str, sep: bool)
        ensures
            final(dst)@ == old(dst)@ + separated(
                sep,
                rendered_pair(key@, val@, self.escape_newlines),
            ),
    {
        if sep {
            dst.append(" ");
        }
        let (fv, quote) = format_value(val, self.escape_newlines);
        dst.append(key);
        if quote {
            dst.append("=\"");
            dst.append(fv.as_str());
            dst.append("\"");
        } else {
            dst.append("=");
            dst.append(fv.as_str());
        }
    }

    /// Render a whole record into `dst`: each selected field of the
    /// record becomes one `key=value` pair, and the pairs are separated
    /// by single spaces.
    #[verifier::rlimit(100)]
    #[verifier::spinoff_prover]
    pub fn render_record(&self, dst: &mut String, rec: &LogRecord)
        ensures
            final(dst)@ == old(dst)@ + record_rendering(*self, *rec),
    {
        let ghost esc = self.escape_newlines;
        let ghost bits = self.include_fields.bits;
        let ghost c1 = bits & LOGFMT_LEVEL == LOGFMT_LEVEL;
        let ghost c2 = bits & LOGFMT_MESSAGE == LOGFMT_MESSAGE && rec.message@.len() > 0;
        let ghost c3 = bits & LOGFMT_TARGET == LOGFMT_TARGET && rec.target@.len() > 0;
        let ghost c4 = bits & LOGFMT_MODULE == LOGFMT_MODULE && rec.module is Some;
        let ghost c5 = bits & LOGFMT_FILE == LOGFMT_FILE && rec.file is Some;
        let ghost c6 = bits & LOGFMT_LINE == LOGFMT_LINE && rec.line is Some;
        let ghost p1 = if c1 {
            rendered_pair(("level")@, rec.level.spec_name(), esc)
        } else {
            Seq::empty()
        };
        let ghost p2 = if c2 {
            separated(c1, rendered_pair(("message")@, rec.message@, esc))
        } else {
            Seq::empty()
        };
        let ghost p3 = if c3 {
            separated(c1 || c2, rendered_pair(("target")@, rec.target@, esc))
        } else {
            Seq::empty()
        };
        let ghost p4 = if c4 {
            separated(c1 || c2 || c3, rendered_pair(("module")@, (rec.module->0)@, esc))
        } else {
            Seq::empty()
        };
        let ghost p5 = if c5 {
            separated(c1 || c2 || c3 || c4, rendered_pair(("file")@, (rec.file->0)@, esc))
        } else {
            Seq::empty()
        };
        let ghost p6 = if c6 {
            separated(
                c1 || c2 || c3 || c4 || c5,
                rendered_pair(("line")@, dec_digits((rec.line->0) as nat), esc),
            )
        } else {
            Seq::empty()
        };
        let mut any: bool = false;
        if self.include_fields.contains(LOGFMT_LEVEL) {
            self.append_known_pair(dst, "level", rec.level.as_str(), any);
            any = true;
        }
        proof {
            if p1.len() == 0 {
                Seq::<char>::add_empty_right(old(dst)@, p1);
            }
            assert(dst@ == old(dst)@ + p1);
            assert(any == c1);
        }
        let ghost s1 = dst@;
        if self.include_fields.contains(LOGFMT_MESSAGE) && !rec.message.as_str().is_empty() {
            self.append_known_pair(dst, "message", rec.message.as_str(), any);
            any = true;
        }
        proof {
            if p2.len() == 0 {
                Seq::<char>::add_empty_right(s1, p2);
            }
            assert(dst@ == s1 + p2);
            assert(any == (c1 || c2));
        }
        let ghost s2 = dst@;
        if self.include_fields.contains(LOGFMT_TARGET) && !rec.target.as_str().is_empty() {
            self.append_known_pair(dst, "target", rec.target.as_str(), any);
            any = true;
        }
        proof {
            if p3.len() == 0 {
                Seq::<char>::add_empty_right(s2, p3);
            }
            assert(dst@ == s2 + p3);
            assert(any == (c1 || c2 || c3));
        }
        let ghost s3 = dst@;
        if self.include_fields.contains(LOGFMT_MODULE) {
            match &rec.module {
                Some(m) => {
                    self.append_known_pair(dst, "module", m.as_str(), any);
                    any = true;
                },
                None => {},
            }
        }
        proof {
            if p4.len() == 0 {
                Seq::<char>::add_empty_right(s3, p4);
            }
            assert(dst@ == s3 + p4);
            assert(any == (c1 || c2 || c3 || c4));
        }
        let ghost s4 = dst@;
        if self.include_fields.contains(LOGFMT_FILE) {
            match &rec.file {
                Some(f) => {
                    self.append_known_pair(dst, "file", f.as_str(), any);
                    any = true;
                },
                None => {},
            }
        }
        proof {
            if p5.len() == 0 {
                Seq::<char>::add_empty_right(s4, p5);
            }
            assert(dst@ == s4 + p5);
            assert(any == (c1 || c2 || c3 || c4 || c5));
        }
        let ghost s5 = dst@;
        if self.include_fields.contains(LOGFMT_LINE) {
            match rec.line {
                Some(l) => {
                    let mut value = String::new();
                    append_dec(&mut value, l as u128);
                    self.append_known_pair(dst, "line", value.as_str(), any);
                },
                None => {},
            }
        }
        proof {
            if p6.len() == 0 {
                Seq::<char>::add_empty_right(s5, p6);
            }
            assert(dst@ == s5 + p6);
            assert(record_rendering(*self, *rec) == p1 + p2 + p3 + p4 + p5 + p6);
            vstd::seq_lib::lemma_concat_associative(old(dst)@, p1, p2);
            vstd::seq_lib::lemma_concat_associative(old(dst)@, p1 + p2, p3);
            vstd::seq_lib::lemma_concat_associative(old(dst)@, p1 + p2 + p3, p4);
            vstd::seq_lib::lemma_concat_associative(old(dst)@, p1 + p2 + p3 + p4, p5);
            vstd::seq_lib::lemma_concat_associative(old(dst)@, p1 + p2 + p3 + p4 + p5, p6);
        }
    }
}

impl LokiFormatter for LogfmtFormatter {
    fn write_record(&self, dst: &mut String, rec: &LogRecord) {
        self.render_record(dst, rec);
    }
}

impl Default for LogfmtFormatter {
    /// The default logfmt formatter: the default field set, newline
    /// escaping off.
    fn default() -> (r: LogfmtFormatter)
        ensures
            r.include_fields.bits == (LOGFMT_LEVEL | LOGFMT_MESSAGE | LOGFMT_MODULE),
            !r.escape_newlines,
    {
        LogfmtFormatter {
            include_fields: LogfmtAutoFields { bits: LOGFMT_LEVEL | LOGFMT_MESSAGE | LOGFMT_MODULE },
            escape_newlines: false,
        }
    }
}

} // verus!
