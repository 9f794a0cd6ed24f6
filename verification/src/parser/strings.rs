//! String literals: escapes, interpolation, and the embedded expressions of
//! `"... ${expr} ..."`.
use vstd::prelude::*;
use crate::ast::{BinaryOp, Expr};
use crate::diagnostic::Diagnostic;
use crate::lexer::{lex_str, Token, TokenKind};
use crate::text::{
    char_is_alnum, char_is_alpha, char_is_lower, chars_of, concat_strings, is_ascii_alpha,
    is_ascii_digit, is_ascii_lower, push_char, string_from_chars, string_from_range,
};
use super::Parser;

verus! {

/// Whether `value` starts with an ASCII lowercase letter.
pub fn starts_lower(value: &str) -> (b: bool)
    ensures
        b == (value@.len() > 0 && is_ascii_lower(value@[0])),
{
    let chars = chars_of(value);
    chars.len() > 0 && char_is_lower(chars[0])
}

/// A triple-quoted literal: it begins and ends with `"""`.
pub open spec fn spec_is_multiline(raw: Seq<char>) -> bool {
    &&& raw.len() >= 3
    &&& raw[0] == '"' && raw[1] == '"' && raw[2] == '"'
    &&& raw[raw.len() - 1] == '"' && raw[raw.len() - 2] == '"' && raw[raw.len() - 3] == '"'
}

pub fn is_multiline_string(raw: &str) -> (b: bool)
    ensures
        b == spec_is_multiline(raw@),
{
    let c = chars_of(raw);
    let n = c.len();
    n >= 3 && c[0] == '"' && c[1] == '"' && c[2] == '"' && c[n - 1] == '"' && c[n - 2] == '"'
        && c[n - 3] == '"'
}

/// Some `$` in `raw` is followed by another character.
pub open spec fn spec_has_interpolation(raw: Seq<char>) -> bool {
    exists|i: int| 0 <= i < raw.len() - 1 && raw[i] == '$'
}

pub fn string_has_interpolation(raw: &str) -> (b: bool)
    ensures
        b == spec_has_interpolation(raw@),
{
    let chars = chars_of(raw);
    let mut i: usize = 0;
    while i < chars.len()
        invariant
            chars@ == raw@,
            i <= chars@.len(),
            forall|j: int| 0 <= j < i && j < chars@.len() - 1 ==> chars@[j] != '$',
        decreases chars@.len() - i,
    {
        if chars[i] == '$' && i + 1 < chars.len() {
            return true;
        }
        i = i + 1;
    }
    false
}

/// The character that the escape `\c` stands for, if `c` names one.
pub open spec fn unescape(c: char) -> Option<char> {
    if c == 'n' { Some('\n') }
    else if c == 't' { Some('\t') }
    else if c == 'r' { Some('\r') }
    else if c == '\\' { Some('\\') }
    else if c == '"' { Some('"') }
    else if c == '$' { Some('$') }
    else { None }
}

/// The text that string contents `raw` denote, or `None` when an escape is
/// dangling or unknown.
pub open spec fn spec_decode(raw: Seq<char>) -> Option<Seq<char>>
    decreases raw.len(),
{
    if raw.len() == 0 {
        Some(Seq::empty())
    } else if raw[0] != '\\' {
        match spec_decode(raw.drop_first()) {
            Some(rest) => Some(seq![raw[0]] + rest),
            None => None,
        }
    } else if raw.len() == 1 {
        None
    } else {
        match (unescape(raw[1]), spec_decode(raw.subrange(2, raw.len() as int))) {
            (Some(c), Some(rest)) => Some(seq![c] + rest),
            _ => None,
        }
    }
}

/// The escape sequence written for `c` inside a string literal.
pub open spec fn escape_char(c: char) -> Seq<char> {
    if c == '\n' { seq!['\\', 'n'] }
    else if c == '\t' { seq!['\\', 't'] }
    else if c == '\r' { seq!['\\', 'r'] }
    else if c == '\\' { seq!['\\', '\\'] }
    else if c == '"' { seq!['\\', '"'] }
    else { seq![c] }
}

/// `value` with every character written as `escape_char` writes it.
pub open spec fn spec_escape(value: Seq<char>) -> Seq<char>
    decreases value.len(),
{
    if value.len() == 0 {
        Seq::empty()
    } else {
        spec_escape(value.drop_last()) + escape_char(value.last())
    }
}

/// Why `spec_decode` fails on `raw`: its first escape is dangling, or names
/// no character (empty when nothing fails).
pub open spec fn decode_failure(raw: Seq<char>) -> Seq<char>
    decreases raw.len(),
{
    if raw.len() == 0 {
        Seq::empty()
    } else if raw[0] != '\\' {
        decode_failure(raw.drop_first())
    } else if raw.len() == 1 {
        "dangling escape"@
    } else if unescape(raw[1]) is None {
        "unsupported escape \\"@.push(raw[1])
    } else {
        decode_failure(raw.subrange(2, raw.len() as int))
    }
}

/// Decodes the escapes in string contents (without the quotes).
pub fn decode_string_contents(raw: &str) -> (r: Result<String, String>)
    ensures
        r is Ok <==> spec_decode(raw@) is Some,
        r matches Ok(s) ==> spec_decode(raw@) == Some(s@),
        r matches Err(m) ==> m@ == decode_failure(raw@),
{
    let chars = chars_of(raw);
    let mut out = String::new();
    let mut i: usize = 0;
    let ghost full = raw@;
    proof {
        assert(full.subrange(0, full.len() as int) =~= full);
        if let Some(rest) = spec_decode(full) {
            assert(out@ + rest =~= rest);
        }
    }
    while i < chars.len()
        invariant
            chars@ == full,
            full == raw@,
            i <= chars@.len(),
            spec_decode(full) == (match spec_decode(full.subrange(i as int, full.len() as int)) {
                Some(rest) => Some(out@ + rest),
                None => None::<Seq<char>>,
            }),
            decode_failure(full) == decode_failure(full.subrange(i as int, full.len() as int)),
        decreases chars@.len() - i,
    {
        let ghost tail = full.subrange(i as int, full.len() as int);
        let ch = chars[i];
        if ch != '\\' {
            proof {
                assert(tail.drop_first() =~= full.subrange(i + 1, full.len() as int));
                match spec_decode(tail.drop_first()) {
                    Some(rest) => {
                        assert(out@.push(ch) + rest =~= out@ + (seq![ch] + rest));
                    },
                    None => {},
                }
            }
            push_char(&mut out, ch);
            i = i + 1;
            continue;
        }
        if i + 1 >= chars.len() {
            proof {
                assert(tail.len() == 1 && tail[0] == '\\');
                assert(spec_decode(tail) is None);
                assert(spec_decode(full) is None);
            }
            return Err(String::from_str("dangling escape"));
        }
        let next = chars[i + 1];
        proof {
            assert(tail[0] == '\\' && tail[1] == next && tail.len() >= 2);
        }
        proof {
            assert(tail.subrange(2, tail.len() as int) =~= full.subrange(i + 2, full.len() as int));
        }
        let decoded = if next == 'n' {
            '\n'
        } else if next == 't' {
            '\t'
        } else if next == 'r' {
            '\r'
        } else if next == '\\' {
            '\\'
        } else if next == '"' {
            '"'
        } else if next == '$' {
            '$'
        } else {
            proof {
                assert(unescape(next) is None);
                assert(spec_decode(tail) is None);
                assert(spec_decode(full) is None);
            }
            let mut message = String::from_str("unsupported escape \\");
            push_char(&mut message, next);
            return Err(message);
        };
        proof {
            match spec_decode(full.subrange(i + 2, full.len() as int)) {
                Some(rest) => {
                    assert(out@.push(decoded) + rest =~= out@ + (seq![decoded] + rest));
                },
                None => {},
            }
        }
        push_char(&mut out, decoded);
        i = i + 2;
    }
    proof {
        assert(full.subrange(i as int, full.len() as int) =~= Seq::<char>::empty());
        assert(out@ + Seq::<char>::empty() =~= out@);
    }
    Ok(out)
}

/// A regular string literal for `value`: quotes around its escaped text.
pub fn encode_string_literal(value: &str) -> (s: String)
    ensures
        s@ == seq!['"'] + spec_escape(value@) + seq!['"'],
{
    let chars = chars_of(value);
    let mut raw = String::from_str("\"");
    proof {
        reveal_strlit("\"");
    }
    let mut i: usize = 0;
    while i < chars.len()
        invariant
            chars@ == value@,
            i <= chars@.len(),
            raw@ == seq!['"'] + spec_escape(chars@.subrange(0, i as int)),
        decreases chars@.len() - i,
    {
        let ch = chars[i];
        proof {
            assert(chars@.subrange(0, i + 1).drop_last() =~= chars@.subrange(0, i as int));
        }
        if ch == '\n' {
            push_char(&mut raw, '\\');
            push_char(&mut raw, 'n');
        } else if ch == '\t' {
            push_char(&mut raw, '\\');
            push_char(&mut raw, 't');
        } else if ch == '\r' {
            push_char(&mut raw, '\\');
            push_char(&mut raw, 'r');
        } else if ch == '\\' {
            push_char(&mut raw, '\\');
            push_char(&mut raw, '\\');
        } else if ch == '"' {
            push_char(&mut raw, '\\');
            push_char(&mut raw, '"');
        } else {
            push_char(&mut raw, ch);
        }
        i = i + 1;
        proof {
            assert(raw@ =~= seq!['"'] + spec_escape(chars@.subrange(0, i as int)));
        }
    }
    push_char(&mut raw, '"');
    proof {
        assert(chars@.subrange(0, chars@.len() as int) =~= chars@);
    }
    raw
}

/// Decoding the escaped text of a value gives the value back.
pub proof fn lemma_decode_escape(value: Seq<char>)
    ensures
        spec_decode(spec_escape(value)) == Some(value),
    decreases value.len(),
{
    if value.len() > 0 {
        lemma_decode_escape_append(spec_escape(value.drop_last()), value.drop_last(), value.last());
        assert(value.drop_last().push(value.last()) =~= value);
    } else {
        assert(spec_escape(value) =~= Seq::<char>::empty());
    }
}

proof fn lemma_decode_escape_append(prefix: Seq<char>, decoded: Seq<char>, c: char)
    requires
        prefix == spec_escape(decoded),
    ensures
        spec_decode(prefix + escape_char(c)) == Some(decoded.push(c)),
    decreases decoded.len(),
{
    lemma_decode_escape_char(c);
    lemma_decode_concat(prefix, escape_char(c), decoded);
    assert(decoded + seq![c] =~= decoded.push(c));
}

/// One character's escape decodes back to that character.
proof fn lemma_decode_escape_char(c: char)
    ensures
        spec_decode(escape_char(c)) == Some(seq![c]),
{
    reveal_with_fuel(spec_decode, 2);
    let e = escape_char(c);
    assert(spec_decode(Seq::<char>::empty()) == Some(Seq::<char>::empty()));
    if c == '\n' || c == '\t' || c == '\r' || c == '\\' || c == '"' {
        assert(e.subrange(2, e.len() as int) =~= Seq::<char>::empty());
        assert(seq![c] + Seq::<char>::empty() =~= seq![c]);
    } else {
        assert(e.drop_first() =~= Seq::<char>::empty());
        assert(seq![c] + Seq::<char>::empty() =~= seq![c]);
    }
}

/// Decoding distributes over a prefix made of whole escapes.
proof fn lemma_decode_concat(prefix: Seq<char>, suffix: Seq<char>, decoded: Seq<char>)
    requires
        prefix == spec_escape(decoded),
        spec_decode(suffix) is Some,
    ensures
        spec_decode(prefix + suffix) == Some(decoded + spec_decode(suffix)->0),
    decreases decoded.len(),
{
    if decoded.len() == 0 {
        assert(prefix =~= Seq::<char>::empty());
        assert(prefix + suffix =~= suffix);
        assert(decoded + spec_decode(suffix)->0 =~= spec_decode(suffix)->0);
    } else {
        let last = decoded.last();
        let init = decoded.drop_last();
        let p0 = spec_escape(init);
        let e = escape_char(last);
        assert(prefix == p0 + e);
        lemma_decode_escape_char(last);
        lemma_decode_concat_one(e, suffix, last);
        lemma_decode_concat(p0, e + suffix, init);
        assert(prefix + suffix =~= p0 + (e + suffix));
        assert(init + (seq![last] + spec_decode(suffix)->0) =~= decoded + spec_decode(suffix)->0);
    }
}

/// Decoding an escape followed by more text.
proof fn lemma_decode_concat_one(e: Seq<char>, suffix: Seq<char>, c: char)
    requires
        e == escape_char(c),
        spec_decode(suffix) is Some,
    ensures
        spec_decode(e + suffix) == Some(seq![c] + spec_decode(suffix)->0),
{
    let s = e + suffix;
    if c == '\n' || c == '\t' || c == '\r' || c == '\\' || c == '"' {
        assert(s[0] == '\\');
        assert(s.subrange(2, s.len() as int) =~= suffix);
    } else {
        assert(s.drop_first() =~= suffix);
    }
}

/// The escapes that string contents know: `\n` is a line feed, `\t` a tab,
/// `\r` a carriage return, `\\` a backslash, `\"` a quote and `\$` a dollar
/// sign, whatever decodable text follows them.
pub proof fn lemma_known_escapes(rest: Seq<char>)
    requires
        spec_decode(rest) is Some,
    ensures
        spec_decode(seq!['\\', 'n'] + rest) == Some(seq!['\n'] + spec_decode(rest)->0),
        spec_decode(seq!['\\', 't'] + rest) == Some(seq!['\t'] + spec_decode(rest)->0),
        spec_decode(seq!['\\', 'r'] + rest) == Some(seq!['\r'] + spec_decode(rest)->0),
        spec_decode(seq!['\\', '\\'] + rest) == Some(seq!['\\'] + spec_decode(rest)->0),
        spec_decode(seq!['\\', '"'] + rest) == Some(seq!['"'] + spec_decode(rest)->0),
        spec_decode(seq!['\\', '$'] + rest) == Some(seq!['$'] + spec_decode(rest)->0),
{
    assert((seq!['\\', 'n'] + rest).subrange(2, (seq!['\\', 'n'] + rest).len() as int) =~= rest);
    assert((seq!['\\', 't'] + rest).subrange(2, (seq!['\\', 't'] + rest).len() as int) =~= rest);
    assert((seq!['\\', 'r'] + rest).subrange(2, (seq!['\\', 'r'] + rest).len() as int) =~= rest);
    assert((seq!['\\', '\\'] + rest).subrange(2, (seq!['\\', '\\'] + rest).len() as int) =~= rest);
    assert((seq!['\\', '"'] + rest).subrange(2, (seq!['\\', '"'] + rest).len() as int) =~= rest);
    assert((seq!['\\', '$'] + rest).subrange(2, (seq!['\\', '$'] + rest).len() as int) =~= rest);
}

/// Encoding writes a line feed as `\n`, a tab as `\t`, a carriage return as
/// `\r`, a backslash as `\\` and a quote as `\"`, after whatever the text
/// before it encodes to; any other character is written as itself.
pub proof fn lemma_encoded_escapes(value: Seq<char>, c: char)
    ensures
        spec_escape(value.push('\n')) == spec_escape(value) + seq!['\\', 'n'],
        spec_escape(value.push('\t')) == spec_escape(value) + seq!['\\', 't'],
        spec_escape(value.push('\r')) == spec_escape(value) + seq!['\\', 'r'],
        spec_escape(value.push('\\')) == spec_escape(value) + seq!['\\', '\\'],
        spec_escape(value.push('"')) == spec_escape(value) + seq!['\\', '"'],
        c != '\n' && c != '\t' && c != '\r' && c != '\\' && c != '"'
            ==> spec_escape(value.push(c)) == spec_escape(value) + seq![c],
{
    assert(value.push('\n').drop_last() =~= value);
    assert(value.push('\t').drop_last() =~= value);
    assert(value.push('\r').drop_last() =~= value);
    assert(value.push('\\').drop_last() =~= value);
    assert(value.push('"').drop_last() =~= value);
    assert(value.push(c).drop_last() =~= value);
}

/// One piece of an interpolated string: literal text (still escaped) or the
/// source of an embedded expression.
#[derive(Debug)]
pub struct InterpolatedStringPart {
    pub is_literal: bool,
    pub text: String,
}

/// A part as a plain value: whether it is literal text, and its text.
pub open spec fn part_view(p: InterpolatedStringPart) -> (bool, Seq<char>) {
    (p.is_literal, p.text@)
}

pub open spec fn parts_view(parts: Seq<InterpolatedStringPart>) -> Seq<(bool, Seq<char>)> {
    parts.map_values(|p: InterpolatedStringPart| part_view(p))
}

/// `acc` with the pending literal text `literal` added as a part, if any.
pub open spec fn flush_parts(acc: Seq<(bool, Seq<char>)>, literal: Seq<char>) -> Seq<(bool, Seq<char>)> {
    if literal.len() == 0 { acc } else { acc.push((true, literal)) }
}

/// A character that may begin a `$name`: an ASCII letter, and `_` too when
/// `underscore` is set.
pub open spec fn name_start(c: char, underscore: bool) -> bool {
    is_ascii_alpha(c) || (underscore && c == '_')
}

/// A character that may continue a `$name`: an ASCII letter or digit, and `_`
/// too when `underscore` is set.
pub open spec fn name_continue(c: char, underscore: bool) -> bool {
    is_ascii_alpha(c) || is_ascii_digit(c) || (underscore && c == '_')
}

/// The end of the run of name characters in `runes[j..n]` that starts at `j`.
pub open spec fn name_end(runes: Seq<char>, j: int, n: int, underscore: bool) -> int
    decreases n - j,
{
    if j >= n || !name_continue(runes[j], underscore) { j } else { name_end(runes, j + 1, n, underscore) }
}

/// A name run stays within `j..n` and stops at the first character that
/// cannot continue a name.
pub proof fn lemma_name_end(runes: Seq<char>, j: int, n: int, underscore: bool)
    requires
        j <= n,
    ensures
        j <= name_end(runes, j, n, underscore) <= n,
        forall|k: int| j <= k < name_end(runes, j, n, underscore) ==> name_continue(#[trigger] runes[k], underscore),
        name_end(runes, j, n, underscore) < n ==> !name_continue(runes[name_end(runes, j, n, underscore)], underscore),
    decreases n - j,
{
    if j < n && name_continue(runes[j], underscore) {
        lemma_name_end(runes, j + 1, n, underscore);
    }
}

/// The parts of `runes[i..n]`, given the parts `acc` found before `i` and the
/// literal text `literal` still pending; when the text is malformed, the
/// message that says why.
/// Literal text gathers characters, `\$` standing for `$`; `${expr}` runs to
/// the `}` that `interp_close` finds and must not be empty; `$name` takes the
/// longest run of name characters after a name start; a `$` before anything
/// else, or at the end, is malformed.
pub open spec fn interp_parts(
    runes: Seq<char>,
    i: int,
    n: int,
    underscore: bool,
    literal: Seq<char>,
    acc: Seq<(bool, Seq<char>)>,
) -> Result<Seq<(bool, Seq<char>)>, Seq<char>>
    decreases n - i,
    when 0 <= i && n <= runes.len()
{
    if i >= n {
        Ok(flush_parts(acc, literal))
    } else if runes[i] == '\\' && i + 1 < n && runes[i + 1] == '$' {
        interp_parts(runes, i + 2, n, underscore, literal.push('$'), acc)
    } else if runes[i] == '\\' {
        interp_parts(runes, i + 1, n, underscore, literal.push('\\'), acc)
    } else if runes[i] == '$' {
        if i + 1 >= n {
            Err("dangling '$'"@)
        } else if runes[i + 1] == '{' {
            proof {
                lemma_interp_close_bounds(runes, i + 2, n, 1, None);
            }
            match interp_close(runes, i + 2, n, 1, None) {
                Ok(e) => {
                    if e == i + 2 {
                        Err("empty interpolation"@)
                    } else {
                        interp_parts(runes, e + 1, n, underscore, Seq::empty(),
                            flush_parts(acc, literal).push((false, runes.subrange(i + 2, e))))
                    }
                },
                Err(quote) => Err(close_failure(quote)),
            }
        } else if !name_start(runes[i + 1], underscore) {
            Err("expected identifier or '{' after '$'"@)
        } else {
            proof {
                lemma_name_end(runes, i + 2, n, underscore);
            }
            let e = name_end(runes, i + 2, n, underscore);
            interp_parts(runes, e, n, underscore, Seq::empty(),
                flush_parts(acc, literal).push((false, runes.subrange(i + 1, e))))
        }
    } else {
        interp_parts(runes, i + 1, n, underscore, literal.push(runes[i]), acc)
    }
}

/// Pushes the pending literal text as a part, if there is any.
pub(crate) fn flush_literal(parts: &mut Vec<InterpolatedStringPart>, literal: &mut Vec<char>)
    ensures
        final(literal)@.len() == 0,
        old(literal)@.len() == 0 ==> final(parts)@ == old(parts)@,
        old(literal)@.len() > 0 ==> final(parts)@.len() == old(parts)@.len() + 1
            && (forall|k: int| 0 <= k < old(parts)@.len() ==> final(parts)@[k] == old(parts)@[k])
            && final(parts)@.last().is_literal
            && final(parts)@.last().text@ == old(literal)@,
        parts_view(final(parts)@) == flush_parts(parts_view(old(parts)@), old(literal)@),
{
    if literal.len() == 0 {
        return;
    }
    let text = string_from_chars(literal);
    let ghost before = parts@;
    parts.push(InterpolatedStringPart { is_literal: true, text });
    proof {
        assert(parts_view(parts@) =~= parts_view(before).push((true, literal@)));
    }
    *literal = Vec::new();
}

/// Splits a regular string literal (with its quotes) into literal and
/// interpolated parts: `$name` and `${expr}` start interpolations, `\$` is a
/// literal dollar sign.
pub fn parse_interpolated_string_parts(raw: &str) -> (r: Result<Vec<InterpolatedStringPart>, String>)
    requires
        raw@.len() < usize::MAX - 2,
    ensures
        r is Ok <==> raw@.len() >= 2 && raw@[0] == '"' && raw@[raw@.len() - 1] == '"'
            && interp_parts(raw@, 1, raw@.len() - 1, false, Seq::empty(), Seq::empty()) is Ok,
        r matches Ok(parts) ==> interp_parts(raw@, 1, raw@.len() - 1, false, Seq::empty(), Seq::empty())
            == Ok::<Seq<(bool, Seq<char>)>, Seq<char>>(parts_view(parts@)),
        r matches Err(m) ==> m@ == (if raw@.len() >= 2 && raw@[0] == '"' && raw@[raw@.len() - 1] == '"' {
            interp_parts(raw@, 1, raw@.len() - 1, false, Seq::empty(), Seq::empty())->Err_0
        } else {
            "expected regular string literal"@
        }),
        r matches Ok(parts) ==> forall|k: int|
            0 <= k < parts@.len() ==> #[trigger] parts@[k].text@.len() + 2 <= raw@.len(),
        r matches Ok(parts) ==> forall|k: int|
            0 <= k < parts@.len() ==> (#[trigger] parts@[k]).text@.len() > 0,
{
    let all = chars_of(raw);
    if !(all.len() >= 2 && all[0] == '"' && all[all.len() - 1] == '"') {
        return Err(String::from_str("expected regular string literal"));
    }
    let n = all.len() - 1;
    let mut parts: Vec<InterpolatedStringPart> = Vec::new();
    let mut literal: Vec<char> = Vec::new();
    let mut i: usize = 1;
    let ghost whole = interp_parts(all@, 1, n as int, false, Seq::empty(), Seq::empty());
    proof {
        assert(parts_view(parts@) =~= Seq::<(bool, Seq<char>)>::empty());
    }
    while i < n
        invariant
            whole == interp_parts(all@, 1, n as int, false, Seq::empty(), Seq::empty()),
            interp_parts(all@, i as int, n as int, false, literal@, parts_view(parts@)) == whole,
            all@ == raw@,
            all@.len() >= 2 && all@[0] == '"' && all@[all@.len() - 1] == '"',
            all@.len() < usize::MAX - 2,
            n == all@.len() - 1,
            1 <= i <= n,
            literal@.len() + 1 <= i,
            forall|k: int| 0 <= k < parts@.len() ==> #[trigger] parts@[k].text@.len() + 1 <= i,
            forall|k: int| 0 <= k < parts@.len() ==> (#[trigger] parts@[k]).text@.len() > 0,
        decreases n + 1 - i,
    {
        let ch = all[i];
        if ch == '\\' && i + 1 < n && all[i + 1] == '$' {
            literal.push('$');
            i = i + 2;
        } else if ch == '\\' {
            literal.push('\\');
            i = i + 1;
        } else if ch == '$' {
            if i + 1 >= n {
                return Err(String::from_str("dangling '$'"));
            }
            let ghost pending = flush_parts(parts_view(parts@), literal@);
            flush_literal(&mut parts, &mut literal);
            if all[i + 1] == '{' {
                let start = i + 2;
                proof {
                    lemma_interp_close_bounds(all@, start as int, n as int, 1, None);
                }
                let end = find_interpolated_expr_end(&all, start, n)?;
                if end == start {
                    return Err(String::from_str("empty interpolation"));
                }
                let text = string_from_range(&all, start, end);
                let ghost before = parts@;
                parts.push(InterpolatedStringPart { is_literal: false, text });
                proof {
                    assert(parts_view(parts@) =~= pending.push((false, all@.subrange(start as int, end as int))));
                    assert(literal@ =~= Seq::<char>::empty());
                }
                i = end + 1;
            } else {
                if !char_is_alpha(all[i + 1]) {
                    return Err(String::from_str("expected identifier or '{' after '$'"));
                }
                let start = i + 1;
                let mut end = start + 1;
                proof {
                    lemma_name_end(all@, end as int, n as int, false);
                }
                while end < n && char_is_alnum(all[end])
                    invariant
                        start < end <= n,
                        n == all@.len() - 1,
                        name_end(all@, end as int, n as int, false) == name_end(all@, start + 1, n as int, false),
                    decreases n - end,
                {
                    end = end + 1;
                }
                let text = string_from_range(&all, start, end);
                parts.push(InterpolatedStringPart { is_literal: false, text });
                proof {
                    assert(parts_view(parts@) =~= pending.push((false, all@.subrange(start as int, end as int))));
                    assert(literal@ =~= Seq::<char>::empty());
                }
                i = end;
            }
        } else {
            literal.push(ch);
            i = i + 1;
        }
    }
    flush_literal(&mut parts, &mut literal);
    Ok(parts)
}

/// Scanning `runes[i..limit]` for the `}` that closes an interpolation, with
/// `depth` braces open and, when `quote` is set, inside a quoted string or
/// rune opened by that character. Braces count only outside quotes; inside
/// them a backslash hides the next character. The result is the index of the
/// closing brace, or, when `limit` comes first, the quote still open (`None`
/// when none is).
pub open spec fn interp_close(runes: Seq<char>, i: int, limit: int, depth: int, quote: Option<char>) -> Result<int, Option<char>>
    decreases limit - i,
{
    if i >= limit {
        Err(quote)
    } else {
        match quote {
            Some(q) => {
                if runes[i] == '\\' {
                    if i + 1 >= limit { Err(quote) } else { interp_close(runes, i + 2, limit, depth, quote) }
                } else if runes[i] == q {
                    interp_close(runes, i + 1, limit, depth, None)
                } else {
                    interp_close(runes, i + 1, limit, depth, quote)
                }
            },
            None => {
                if runes[i] == '{' {
                    interp_close(runes, i + 1, limit, depth + 1, None)
                } else if runes[i] == '}' {
                    if depth <= 1 { Ok(i) } else { interp_close(runes, i + 1, limit, depth - 1, None) }
                } else if runes[i] == '"' || runes[i] == '\'' {
                    interp_close(runes, i + 1, limit, depth, Some(runes[i]))
                } else {
                    interp_close(runes, i + 1, limit, depth, None)
                }
            },
        }
    }
}

/// Why no closing brace was found: a quoted string or rune left open, or the
/// interpolation itself.
pub open spec fn close_failure(quote: Option<char>) -> Seq<char> {
    match quote {
        Some(q) => if q == '"' {
            "unterminated string inside interpolation"@
        } else {
            "unterminated rune inside interpolation"@
        },
        None => "unterminated '${...}'"@,
    }
}

/// A closing index found by `interp_close` lies in `i..limit` on a `}`.
pub proof fn lemma_interp_close_bounds(runes: Seq<char>, i: int, limit: int, depth: int, quote: Option<char>)
    requires
        limit <= runes.len(),
        0 <= i,
    ensures
        interp_close(runes, i, limit, depth, quote) matches Ok(e) ==> i <= e < limit && runes[e] == '}',
    decreases limit - i,
{
    if i < limit {
        match quote {
            Some(q) => {
                if runes[i] == '\\' {
                    if i + 1 < limit {
                        lemma_interp_close_bounds(runes, i + 2, limit, depth, quote);
                    }
                } else if runes[i] == q {
                    lemma_interp_close_bounds(runes, i + 1, limit, depth, None);
                } else {
                    lemma_interp_close_bounds(runes, i + 1, limit, depth, quote);
                }
            },
            None => {
                if runes[i] == '{' {
                    lemma_interp_close_bounds(runes, i + 1, limit, depth + 1, None);
                } else if runes[i] == '}' {
                    if depth > 1 {
                        lemma_interp_close_bounds(runes, i + 1, limit, depth - 1, None);
                    }
                } else if runes[i] == '"' || runes[i] == '\'' {
                    lemma_interp_close_bounds(runes, i + 1, limit, depth, Some(runes[i]));
                } else {
                    lemma_interp_close_bounds(runes, i + 1, limit, depth, None);
                }
            },
        }
    }
}

/// The index of the `}` that closes a `${` whose contents begin at `start`,
/// skipping nested braces and quoted strings or runes; only `runes[..limit]`
/// is looked at.
pub fn find_interpolated_expr_end(runes: &Vec<char>, start: usize, limit: usize) -> (r: Result<usize, String>)
    requires
        limit <= runes@.len(),
        runes@.len() < usize::MAX - 2,
    ensures
        r matches Ok(e) ==> start <= e < limit && runes@[e as int] == '}',
        r is Ok <==> interp_close(runes@, start as int, limit as int, 1, None) is Ok,
        r matches Ok(e) ==> interp_close(runes@, start as int, limit as int, 1, None) == Ok::<int, Option<char>>(e as int),
        r matches Err(m) ==> interp_close(runes@, start as int, limit as int, 1, None) matches Err(q)
            && m@ == close_failure(q),
{
    proof {
        lemma_interp_close_bounds(runes@, start as int, limit as int, 1, None);
    }
    let ghost whole = interp_close(runes@, start as int, limit as int, 1, None);
    let mut depth: usize = 1;
    let mut i = start;
    while i < limit
        invariant
            limit <= runes@.len(),
            runes@.len() < usize::MAX - 2,
            start <= i,
            1 <= depth <= i - start + 1,
            interp_close(runes@, i as int, limit as int, depth as int, None) == whole,
            whole == interp_close(runes@, start as int, limit as int, 1, None),
        decreases limit - i,
    {
        let c = runes[i];
        if c == '{' {
            depth = depth + 1;
        } else if c == '}' {
            depth = depth - 1;
            if depth == 0 {
                return Ok(i);
            }
        } else if c == '"' || c == '\'' {
            let quote = c;
            i = i + 1;
            let ghost i0 = i;
            while i < limit
                invariant
                    limit <= runes@.len(),
                    runes@.len() < usize::MAX - 2,
                    start <= i <= limit,
                    i >= i0,
                    1 <= depth <= i - start + 1,
                    interp_close(runes@, i as int, limit as int, depth as int, Some(quote)) == whole,
                    whole == interp_close(runes@, start as int, limit as int, 1, None),
                ensures
                    start <= i <= limit,
                    1 <= depth <= i - start + 1,
                    interp_close(runes@, i as int, limit as int, depth as int, Some(quote)) == whole,
                    i < limit ==> runes@[i as int] == quote,
                decreases limit - i,
            {
                if runes[i] == '\\' {
                    proof {
                        if i + 2 > limit {
                            assert(interp_close(runes@, limit as int, limit as int, depth as int, Some(quote)) == Err::<int, Option<char>>(Some(quote)));
                        }
                    }
                    i = i + 2;
                    if i > limit {
                        i = limit;
                    }
                    continue;
                }
                if runes[i] == quote {
                    break;
                }
                i = i + 1;
            }
            if i >= limit {
                proof {
                    reveal_strlit("unterminated string inside interpolation");
                    reveal_strlit("unterminated rune inside interpolation");
                }
                if quote == '"' {
                    return Err(String::from_str("unterminated string inside interpolation"));
                }
                return Err(String::from_str("unterminated rune inside interpolation"));
            }
        }
        i = i + 1;
    }
    Err(String::from_str("unterminated '${...}'"))
}

impl<'a> Parser<'a> {
    /// The expression for a string literal token: the literal itself, or, for
    /// a regular literal with interpolations, the concatenation (`+`) of its
    /// literal pieces (re-encoded) and embedded expressions, starting with an
    /// empty literal when it begins with an interpolation.
    pub(crate) fn parse_string_expr(&mut self, token: Token) -> (r: Option<Expr>)
        requires
            old(self).wf(),
            token.lexeme@.len() <= old(self).bound@,
        ensures
            r is None ==> final(self).diagnostics@.len() > old(self).diagnostics@.len(),
            final(self).follows(*old(self)),
            spec_is_multiline(token.lexeme@) || !spec_has_interpolation(token.lexeme@) ==> r
                == Some(Expr::String { raw: token.lexeme, span: token.span }),
            !spec_is_multiline(token.lexeme@) && spec_has_interpolation(token.lexeme@) && !(
                token.lexeme@.len() >= 2 && token.lexeme@[0] == '"' && token.lexeme@[token.lexeme@.len() - 1] == '"'
                && interp_parts(token.lexeme@, 1, token.lexeme@.len() - 1, false, Seq::empty(), Seq::empty()) is Ok)
                ==> r is None,
            !spec_is_multiline(token.lexeme@) && spec_has_interpolation(token.lexeme@)
                ==> (r matches Some(e) ==> interpolation_built(token.lexeme@, e)),
        decreases old(self).bound@, old(self).remaining(), 1nat,
    {
        if is_multiline_string(token.lexeme.as_str()) {
            return Some(Expr::String { raw: token.lexeme, span: token.span });
        }
        if !string_has_interpolation(token.lexeme.as_str()) {
            return Some(Expr::String { raw: token.lexeme, span: token.span });
        }
        let parts = match parse_interpolated_string_parts(token.lexeme.as_str()) {
            Ok(parts) => parts,
            Err(message) => {
                let text = concat_strings(String::from_str("invalid string interpolation: "), &message);
                self.diagnostics.push(Diagnostic::error("invalid_string_interpolation", text, token.span));
                return None;
            },
        };

        let ghost pv = parts_view(parts@);
        let ghost offset: int = if parts@.len() == 0 || !parts@[0].is_literal { 1 } else { 0 };
        let ghost mut leaves: Seq<Expr> = Seq::empty();
        let mut acc: Option<Expr> = None;
        if parts.len() == 0 || !parts[0].is_literal {
            let empty = Expr::String { raw: encode_string_literal(""), span: token.span };
            proof {
                reveal_strlit("");
                assert(spec_escape(Seq::<char>::empty()) =~= Seq::<char>::empty());
                assert(seq!['"'] + spec_escape(Seq::<char>::empty()) + seq!['"'] =~= seq!['"', '"']);
                leaves = seq![empty];
            }
            acc = Some(empty);
        }
        let mut i: usize = 0;
        while i < parts.len()
            invariant
                pv == parts_view(parts@),
                pv.len() == parts@.len(),
                offset == (if pv.len() == 0 || !pv[0].0 { 1int } else { 0int }),
                leaves.len() == i + offset,
                acc matches Some(a) ==> left_add_chain(a, leaves),
                acc is None ==> leaves.len() == 0,
                offset == 1 ==> (leaves[0] matches Expr::String { raw, .. } && raw@ == seq!['"', '"']),
                forall|k: int| 0 <= k < i ==> #[trigger] piece_for(pv[k], leaves[k + offset]),
                self.follows(*old(self)),
                token.lexeme@.len() <= old(self).bound@,
                !(spec_is_multiline(token.lexeme@) || !spec_has_interpolation(token.lexeme@)),
                forall|k: int| 0 <= k < parts@.len() ==> #[trigger] parts@[k].text@.len() + 2 <= token.lexeme@.len(),
                i <= parts@.len(),
                acc is Some || (i == 0 && parts@.len() > 0 && parts@[0].is_literal),
            decreases parts@.len() - i,
        {
            let part = &parts[i];
            let next = if part.is_literal {
                let decoded = match decode_string_contents(part.text.as_str()) {
                    Ok(decoded) => decoded,
                    Err(message) => {
                        let text = concat_strings(String::from_str("invalid string literal: "), &message);
                        self.diagnostics.push(Diagnostic::error("invalid_string_literal", text, token.span));
                        return None;
                    },
                };
                Expr::String { raw: encode_string_literal(decoded.as_str()), span: token.span }
            } else {
                match parse_embedded_expr(part.text.as_str()) {
                    Ok(expr) => expr,
                    Err(message) => {
                        let text = concat_strings(String::from_str("invalid string interpolation: "), &message);
                        self.diagnostics.push(Diagnostic::error("invalid_string_interpolation", text, token.span));
                        return None;
                    },
                }
            };
            proof {
                assert(pv[i as int] == part_view(parts@[i as int]));
                let old_leaves = leaves;
                leaves = leaves.push(next);
                assert(leaves.drop_last() =~= old_leaves);
                assert(piece_for(pv[i as int], leaves[i + offset]));
                assert forall|k: int| 0 <= k < i + 1 implies #[trigger] piece_for(pv[k], leaves[k + offset]) by {
                    if k < i {
                        assert(leaves[k + offset] == old_leaves[k + offset]);
                    }
                }
            }
            acc = match acc {
                None => Some(next),
                Some(left) => Some(Expr::Binary {
                    left: Box::new(left),
                    op: BinaryOp::Add,
                    right: Box::new(next),
                    span: token.span,
                }),
            };
            i = i + 1;
        }
        proof {
            if offset == 1 {
                assert forall|k: int| 0 <= k < pv.len() implies #[trigger] piece_for(pv[k], leaves[k + 1]) by {
                    assert(piece_for(pv[k], leaves[k + offset]));
                }
            } else {
                assert forall|k: int| 0 <= k < pv.len() implies #[trigger] piece_for(pv[k], leaves[k]) by {
                    assert(piece_for(pv[k], leaves[k + offset]));
                }
            }
            assert(pieces_of_parts(pv, leaves));
            assert(acc is Some);
            assert(left_add_chain(acc->Some_0, leaves));
            assert(interp_parts(token.lexeme@, 1, token.lexeme@.len() - 1, false, Seq::empty(), Seq::empty())
                == Ok::<Seq<(bool, Seq<char>)>, Seq<char>>(pv));
            let raw = token.lexeme@;
            assert(interp_parts(raw, 1, raw.len() - 1, false, Seq::empty(), Seq::empty())->Ok_0 == pv);
            assert(pieces_of_parts(interp_parts(raw, 1, raw.len() - 1, false, Seq::empty(), Seq::empty())->Ok_0, leaves));
            assert(interpolation_built(raw, acc->Some_0));
        }
        acc
    }
}

/// `e` joins `leaves` with `+`, nested to the left: the first leaf is
/// the innermost left operand and each later leaf is the right operand of
/// the next `+` out, so `[a, b, c]` is `(a + b) + c`.
pub open spec fn left_add_chain(e: Expr, leaves: Seq<Expr>) -> bool
    decreases leaves.len(),
{
    if leaves.len() == 0 {
        false
    } else if leaves.len() == 1 {
        e == leaves[0]
    } else {
        &&& e matches Expr::Binary { left, op, right, .. }
        &&& op == BinaryOp::Add
        &&& *right == leaves.last()
        &&& left_add_chain(*left, leaves.drop_last())
    }
}

/// The piece that part `p` of an interpolated literal gives: literal text is
/// decoded and written again as a regular literal; an embedded expression
/// may be any expression.
pub open spec fn piece_for(p: (bool, Seq<char>), e: Expr) -> bool {
    p.0 ==> (spec_decode(p.1) matches Some(d) && e matches Expr::String { raw, .. }
        && raw@ == seq!['"'] + spec_escape(d) + seq!['"'])
}

/// The pieces of an interpolated literal with parts `ps`, in the order of
/// the parts, after an empty literal `""` when the first part is not
/// literal text.
pub open spec fn pieces_of_parts(ps: Seq<(bool, Seq<char>)>, leaves: Seq<Expr>) -> bool {
    if ps.len() == 0 || !ps[0].0 {
        &&& leaves.len() == ps.len() + 1
        &&& leaves[0] matches Expr::String { raw, .. } && raw@ == seq!['"', '"']
        &&& forall|k: int| 0 <= k < ps.len() ==> #[trigger] piece_for(ps[k], leaves[k + 1])
    } else {
        &&& leaves.len() == ps.len()
        &&& forall|k: int| 0 <= k < ps.len() ==> #[trigger] piece_for(ps[k], leaves[k])
    }
}

/// `e` is what the interpolated regular literal `raw` (quotes included)
/// stands for: the `+` chain, nested to the left, of the pieces of its parts
/// in their order.
pub open spec fn interpolation_built(raw: Seq<char>, e: Expr) -> bool {
    &&& interp_parts(raw, 1, raw.len() - 1, false, Seq::empty(), Seq::empty()) is Ok
    &&& exists|leaves: Seq<Expr>| left_add_chain(e, leaves) && #[trigger] pieces_of_parts(
        interp_parts(raw, 1, raw.len() - 1, false, Seq::empty(), Seq::empty())->Ok_0, leaves)
}

/// Parses the source of one `${...}` interpolation as a single expression.
pub(crate) fn parse_embedded_expr(source: &str) -> (r: Result<Expr, String>)
    requires
        source@.len() + 3 < usize::MAX,
    decreases source@.len() + 1, 0nat, 0nat,
{
    let lexed = lex_str(source);
    if lexed.diagnostics.len() > 0 {
        return Err(lexed.diagnostics[0].message.clone());
    }
    let n = lexed.tokens.len();
    proof {
        let ts = lexed.tokens@;
        assert forall|i: int| 0 <= i < ts.len() implies #[trigger] ts[i].lexeme@.len() <= source@.len() by {
            if i < ts.len() - 1 {
                assert(ts.drop_last()[i] == ts[i]);
                assert(crate::lexer::token_matches_text(ts.drop_last()[i], source@));
            } else {
                assert(ts.last() == ts[i]);
            }
        }
        assert(ts.last() == ts[ts.len() - 1]);
    }
    let mut parser = Parser::new(lexed.tokens.as_slice(), Ghost(source@.len()));
    let expr = match parser.parse_expr() {
        Some(expr) => expr,
        None => return Err(String::from_str("empty interpolation")),
    };
    parser.skip_newlines();
    if !parser.at(TokenKind::Eof) {
        return Err(String::from_str("unexpected trailing tokens in interpolation"));
    }
    if parser.diagnostics.len() > 0 {
        return Err(parser.diagnostics[0].message.clone());
    }
    Ok(expr)
}

} // verus!
