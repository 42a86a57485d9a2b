//! Text primitives shared by the renderers: runs of spaces, byte lengths
//! and string escaping.

use crate::options::FracturedJsonOptions;
use std::borrow::Cow;
use vstd::prelude::*;
use vstd::std_specs::iter::IteratorSpec;
use vstd::string::StringExecFns;
use vstd::utf8::encode_utf8;

verus! {

/// `String::push` appends exactly the given character to the end of the
/// string.
pub assume_specification[ std::string::String::push ](s: &mut std::string::String, c: char)
    ensures
        final(s)@ == old(s)@.push(c),
;

/// A run of `n` copies of the character `c`.
pub open spec fn repeated(c: char, n: nat) -> Seq<char> {
    Seq::new(n, |i: int| c)
}

/// A run of `n` spaces.
pub open spec fn spaces(n: nat) -> Seq<char> {
    repeated(' ', n)
}

/// The length of a text in bytes when it is stored as a string.
pub open spec fn byte_len(s: Seq<char>) -> nat {
    encode_utf8(s).len()
}

/// How many spaces bring a text of length `len` to `width`: the difference,
/// or none if the text is already that long.
pub open spec fn fill(width: nat, len: nat) -> nat {
    if width > len {
        (width - len) as nat
    } else {
        0
    }
}

/// A value that does not fit a machine integer counts as the largest one.
pub open spec fn capped(x: int) -> nat {
    if x > usize::MAX {
        usize::MAX as nat
    } else if x < 0 {
        0
    } else {
        x as nat
    }
}

/// The byte length of a text made of two parts is the sum of theirs.
pub proof fn lemma_byte_len_concat(a: Seq<char>, b: Seq<char>)
    ensures
        byte_len(a + b) == byte_len(a) + byte_len(b),
    decreases a.len(),
{
    if a.len() == 0 {
        assert(a + b =~= b);
    } else {
        lemma_byte_len_concat(a.drop_first(), b);
        assert((a + b).drop_first() =~= a.drop_first() + b);
        assert((a + b)[0] == a[0]);
    }
}

/// A run of spaces is as many bytes long as it has spaces.
pub proof fn lemma_byte_len_spaces(n: nat)
    ensures
        byte_len(spaces(n)) == n,
{
    assert(vstd::utf8::is_ascii_chars(spaces(n)));
    vstd::utf8::is_ascii_chars_encode_utf8(spaces(n));
}

/// Appending two parts one after the other appends their concatenation.
pub proof fn lemma_join2(x: Seq<char>, a: Seq<char>, b: Seq<char>)
    ensures
        x + (a + b) == x + a + b,
{
    assert(x + (a + b) =~= x + a + b);
}

/// Appending three parts one after the other appends their concatenation.
pub proof fn lemma_join3(x: Seq<char>, a: Seq<char>, b: Seq<char>, c: Seq<char>)
    ensures
        x + (a + b + c) == x + a + b + c,
{
    assert(x + (a + b + c) =~= x + a + b + c);
}

/// Appending four parts one after the other appends their concatenation.
pub proof fn lemma_join4(x: Seq<char>, a: Seq<char>, b: Seq<char>, c: Seq<char>, d: Seq<char>)
    ensures
        x + (a + b + c + d) == x + a + b + c + d,
{
    lemma_join3(x, a, b, c);
    lemma_join2(x, a + b + c, d);
}

/// Appending five parts one after the other appends their concatenation.
pub proof fn lemma_join5(
    x: Seq<char>,
    a: Seq<char>,
    b: Seq<char>,
    c: Seq<char>,
    d: Seq<char>,
    e: Seq<char>,
)
    ensures
        x + (a + b + c + d + e) == x + a + b + c + d + e,
{
    lemma_join4(x, a, b, c, d);
    lemma_join2(x, a + b + c + d, e);
}

/// Appending six parts one after the other appends their concatenation.
pub proof fn lemma_join6(
    x: Seq<char>,
    a: Seq<char>,
    b: Seq<char>,
    c: Seq<char>,
    d: Seq<char>,
    e: Seq<char>,
    f: Seq<char>,
)
    ensures
        x + (a + b + c + d + e + f) == x + a + b + c + d + e + f,
{
    lemma_join5(x, a, b, c, d, e);
    lemma_join2(x, a + b + c + d + e, f);
}

/// Appending seven parts one after the other appends their concatenation.
pub proof fn lemma_join7(
    x: Seq<char>,
    a: Seq<char>,
    b: Seq<char>,
    c: Seq<char>,
    d: Seq<char>,
    e: Seq<char>,
    f: Seq<char>,
    g: Seq<char>,
)
    ensures
        x + (a + b + c + d + e + f + g) == x + a + b + c + d + e + f + g,
{
    lemma_join6(x, a, b, c, d, e, f);
    lemma_join2(x, a + b + c + d + e + f, g);
}

/// Appending eight parts one after the other appends their concatenation.
pub proof fn lemma_join8(
    x: Seq<char>,
    a: Seq<char>,
    b: Seq<char>,
    c: Seq<char>,
    d: Seq<char>,
    e: Seq<char>,
    f: Seq<char>,
    g: Seq<char>,
    h: Seq<char>,
)
    ensures
        x + (a + b + c + d + e + f + g + h) == x + a + b + c + d + e + f + g + h,
{
    lemma_join7(x, a, b, c, d, e, f, g);
    lemma_join2(x, a + b + c + d + e + f + g, h);
}

/// Appending nothing changes nothing.
pub proof fn lemma_join0(x: Seq<char>)
    ensures
        x + Seq::<char>::empty() == x,
{
    assert(x + Seq::<char>::empty() =~= x);
}

/// The length of a string in bytes.
pub fn text_len(s: &str) -> (r: usize)
    ensures
        r == byte_len(s@),
{
    s.as_bytes().len()
}

/// Appends `count` spaces to `buffer`.
pub fn write_spaces(buffer: &mut String, count: usize)
    ensures
        final(buffer)@ == old(buffer)@ + spaces(count as nat),
{
    let mut written: usize = 0;
    while written < count
        invariant
            written <= count,
            buffer@ == old(buffer)@ + spaces(written as nat),
        decreases count - written,
    {
        buffer.push(' ');
        written += 1;
        assert(buffer@ =~= old(buffer)@ + spaces(written as nat));
    }
}

/// The indentation of a line at depth `indent`: one tab per level, or
/// `indent_spaces` spaces per level.
pub open spec fn indentation(opts: FracturedJsonOptions, indent: nat) -> Seq<char> {
    if opts.use_tab_to_indent {
        repeated('\t', indent)
    } else {
        spaces((indent * opts.indent_spaces) as nat)
    }
}

/// One space where `on` holds, nothing otherwise.
pub open spec fn padding(on: bool) -> Seq<char> {
    if on {
        seq![' ']
    } else {
        Seq::empty()
    }
}

/// The separator after a sibling: a comma, and a space with comma padding.
pub open spec fn comma(opts: FracturedJsonOptions) -> Seq<char> {
    seq![','] + padding(opts.comma_padding)
}

/// A text between double quotes, escaped.
pub open spec fn quoted(s: Seq<char>) -> Seq<char> {
    seq!['"'] + escape_text(s) + seq!['"']
}

/// A member name between double quotes, as it stands.
pub open spec fn quoted_name(s: Seq<char>) -> Seq<char> {
    seq!['"'] + s + seq!['"']
}

/// Appends the indentation of depth `indent`.
pub fn write_indent(options: &FracturedJsonOptions, indent: usize, buffer: &mut String)
    ensures
        final(buffer)@ == old(buffer)@ + indentation(*options, indent as nat),
{
    let mut level: usize = 0;
    while level < indent
        invariant
            level <= indent,
            options.use_tab_to_indent ==> buffer@ == old(buffer)@ + repeated('\t', level as nat),
            !options.use_tab_to_indent ==> buffer@ == old(buffer)@ + spaces(
                (level * options.indent_spaces) as nat,
            ),
        decreases indent - level,
    {
        if options.use_tab_to_indent {
            buffer.push('\t');
            assert(buffer@ =~= old(buffer)@ + repeated('\t', (level + 1) as nat));
        } else {
            write_spaces(buffer, options.indent_spaces);
            assert(level * options.indent_spaces + options.indent_spaces == (level + 1)
                * options.indent_spaces) by (nonlinear_arith);
            assert(level * options.indent_spaces >= 0) by (nonlinear_arith);
            assert(buffer@ =~= old(buffer)@ + spaces(((level + 1) * options.indent_spaces) as nat));
        }
        level += 1;
    }
}

/// Appends a comma and, with comma padding, a space.
pub fn write_comma(options: &FracturedJsonOptions, buffer: &mut String)
    ensures
        final(buffer)@ == old(buffer)@ + comma(*options),
{
    buffer.push(',');
    if options.comma_padding {
        buffer.push(' ');
    }
    assert(buffer@ =~= old(buffer)@ + comma(*options));
}

/// Appends a separator if `on` holds.
pub fn write_comma_if(on: bool, options: &FracturedJsonOptions, buffer: &mut String)
    ensures
        final(buffer)@ == old(buffer)@ + (if on {
            comma(*options)
        } else {
            Seq::empty()
        }),
{
    if on {
        write_comma(options, buffer);
    } else {
        proof {
            lemma_join0(buffer@);
        }
    }
}

/// Appends the indentation of depth `indent` if `on` holds.
pub fn write_indent_if(on: bool, options: &FracturedJsonOptions, indent: usize, buffer: &mut String)
    ensures
        final(buffer)@ == old(buffer)@ + (if on {
            indentation(*options, indent as nat)
        } else {
            Seq::empty()
        }),
{
    if on {
        write_indent(options, indent, buffer);
    } else {
        proof {
            lemma_join0(buffer@);
        }
    }
}

/// Appends the line ending if `on` holds.
pub fn write_eol_if(on: bool, options: &FracturedJsonOptions, buffer: &mut String)
    ensures
        final(buffer)@ == old(buffer)@ + (if on {
            options.eol()
        } else {
            Seq::empty()
        }),
{
    if on {
        buffer.append(options.eol_string());
    } else {
        proof {
            lemma_join0(buffer@);
        }
    }
}

/// Appends one space if `on` holds.
pub fn write_padding(on: bool, buffer: &mut String)
    ensures
        final(buffer)@ == old(buffer)@ + padding(on),
{
    if on {
        buffer.push(' ');
    }
    assert(buffer@ =~= old(buffer)@ + padding(on));
}

/// Appends a text between double quotes, escaped.
pub fn write_quotes(s: &str, buffer: &mut String)
    ensures
        final(buffer)@ == old(buffer)@ + quoted(s@),
{
    buffer.push('"');
    match escape_string(s) {
        Cow::Borrowed(plain) => buffer.append(plain),
        Cow::Owned(escaped) => buffer.append(escaped.as_str()),
    }
    buffer.push('"');
    assert(buffer@ =~= old(buffer)@ + quoted(s@));
}

/// Appends a member name between double quotes, as it stands.
pub fn write_quoted_property_name(s: &str, buffer: &mut String)
    ensures
        final(buffer)@ == old(buffer)@ + quoted_name(s@),
{
    buffer.push('"');
    buffer.append(s);
    buffer.push('"');
    assert(buffer@ =~= old(buffer)@ + quoted_name(s@));
}

/// Whether a character cannot stand unescaped inside a quoted string.
pub open spec fn needs_escape(c: char) -> bool {
    c == '\\' || c == '"' || (c as u32) <= 0x1f
}

/// The lower-case hexadecimal digit for a value below sixteen.
pub open spec fn hex_digit(v: nat) -> char {
    if v == 0 { '0' }
    else if v == 1 { '1' }
    else if v == 2 { '2' }
    else if v == 3 { '3' }
    else if v == 4 { '4' }
    else if v == 5 { '5' }
    else if v == 6 { '6' }
    else if v == 7 { '7' }
    else if v == 8 { '8' }
    else if v == 9 { '9' }
    else if v == 10 { 'a' }
    else if v == 11 { 'b' }
    else if v == 12 { 'c' }
    else if v == 13 { 'd' }
    else if v == 14 { 'e' }
    else { 'f' }
}

/// What one character becomes inside a quoted string: a two-character
/// escape for backslash, double quote and the usual control characters, a
/// `\u00XX` escape for the other control characters, itself otherwise.
pub open spec fn escape_char(c: char) -> Seq<char> {
    if c == '\\' {
        seq!['\\', '\\']
    } else if c == '"' {
        seq!['\\', '"']
    } else if c == '\n' {
        seq!['\\', 'n']
    } else if c == '\t' {
        seq!['\\', 't']
    } else if c == '\r' {
        seq!['\\', 'r']
    } else if c == '\x08' {
        seq!['\\', 'b']
    } else if c == '\x0c' {
        seq!['\\', 'f']
    } else if (c as u32) <= 0x1f {
        seq!['\\', 'u', '0', '0', hex_digit(((c as u32) / 16) as nat), hex_digit(((c as u32) % 16) as nat)]
    } else {
        seq![c]
    }
}

/// The escaped form of a whole text: the escapes of its characters, in
/// order.
pub open spec fn escape_text(s: Seq<char>) -> Seq<char>
    decreases s.len(),
{
    if s.len() == 0 {
        Seq::empty()
    } else {
        escape_text(s.drop_last()) + escape_char(s.last())
    }
}

/// How many bytes escaping adds to one character: one for a
/// two-character escape, five for a `\u00XX` escape, none otherwise.
pub open spec fn char_overhead(c: char) -> nat {
    if c == '\\' || c == '"' || c == '\n' || c == '\t' || c == '\r' || c == '\x08' || c
        == '\x0c' {
        1
    } else if (c as u32) <= 0x1f {
        5
    } else {
        0
    }
}

/// How many bytes escaping adds to a text.
pub open spec fn escape_overhead(s: Seq<char>) -> nat
    decreases s.len(),
{
    if s.len() == 0 {
        0
    } else {
        escape_overhead(s.drop_last()) + char_overhead(s.last())
    }
}

proof fn lemma_escaped_char_length(c: char)
    ensures
        byte_len(escape_char(c)) == byte_len(seq![c]) + char_overhead(c),
{
    let escaped = escape_char(c);
    if needs_escape(c) {
        assert(vstd::utf8::is_ascii_chars(escaped));
        vstd::utf8::is_ascii_chars_encode_utf8(escaped);
        assert(vstd::utf8::is_ascii_chars(seq![c]));
        vstd::utf8::is_ascii_chars_encode_utf8(seq![c]);
    }
}

/// The escaped form of a text is longer than the text by exactly its
/// escape overhead.
pub proof fn lemma_escaped_length(s: Seq<char>)
    ensures
        byte_len(escape_text(s)) == byte_len(s) + escape_overhead(s),
    decreases s.len(),
{
    if s.len() > 0 {
        lemma_escaped_length(s.drop_last());
        lemma_escaped_char_length(s.last());
        lemma_byte_len_concat(escape_text(s.drop_last()), escape_char(s.last()));
        lemma_byte_len_concat(s.drop_last(), seq![s.last()]);
        assert(s.drop_last() + seq![s.last()] =~= s);
    } else {
        assert(escape_text(s) =~= s);
    }
}

/// Whether no character of the text needs an escape.
pub open spec fn is_plain(s: Seq<char>) -> bool {
    forall|i: int| 0 <= i < s.len() ==> !needs_escape(#[trigger] s[i])
}

/// A text without characters that need escaping is its own escaped form.
pub proof fn lemma_escape_plain(s: Seq<char>)
    requires
        is_plain(s),
    ensures
        escape_text(s) == s,
    decreases s.len(),
{
    if s.len() > 0 {
        lemma_escape_plain(s.drop_last());
        assert(!needs_escape(s.last()));
        assert(escape_text(s) =~= s);
    }
}

fn hex_char(v: u32) -> (r: char)
    requires
        v < 16,
    ensures
        r == hex_digit(v as nat),
{
    if v == 0 { '0' }
    else if v == 1 { '1' }
    else if v == 2 { '2' }
    else if v == 3 { '3' }
    else if v == 4 { '4' }
    else if v == 5 { '5' }
    else if v == 6 { '6' }
    else if v == 7 { '7' }
    else if v == 8 { '8' }
    else if v == 9 { '9' }
    else if v == 10 { 'a' }
    else if v == 11 { 'b' }
    else if v == 12 { 'c' }
    else if v == 13 { 'd' }
    else if v == 14 { 'e' }
    else { 'f' }
}

/// Appends the escaped form of one character.
fn push_escaped(result: &mut String, c: char)
    ensures
        final(result)@ == old(result)@ + escape_char(c),
{
    let code: u32 = c as u32;
    if c == '\\' {
        result.push('\\');
        result.push('\\');
    } else if c == '"' {
        result.push('\\');
        result.push('"');
    } else if c == '\n' {
        result.push('\\');
        result.push('n');
    } else if c == '\t' {
        result.push('\\');
        result.push('t');
    } else if c == '\r' {
        result.push('\\');
        result.push('r');
    } else if c == '\x08' {
        result.push('\\');
        result.push('b');
    } else if c == '\x0c' {
        result.push('\\');
        result.push('f');
    } else if code <= 0x1f {
        result.push('\\');
        result.push('u');
        result.push('0');
        result.push('0');
        result.push(hex_char(code / 16));
        result.push(hex_char(code % 16));
    } else {
        result.push(c);
    }
    assert(result@ =~= old(result)@ + escape_char(c));
}

/// Escapes a text for use inside double quotes. A text that needs no
/// escape is handed back borrowed, without a copy.
pub fn escape_string(s: &str) -> (r: Cow<'_, str>)
    ensures
        r@ == escape_text(s@),
        r is Borrowed <==> is_plain(s@),
{
    let mut plain = true;
    let mut scan = s.chars();
    let ghost mut seen: int = 0;
    loop
        invariant
            0 <= seen <= s@.len(),
            scan.remaining() == s@.skip(seen),
            plain <==> is_plain(s@.take(seen)),
        ensures
            plain <==> is_plain(s@),
        decreases s@.len() - seen,
    {
        match scan.next() {
            Some(c) => {
                if c == '\\' || c == '"' || c as u32 <= 0x1f {
                    plain = false;
                }
                proof {
                    assert(c == s@[seen]);
                    let before = s@.take(seen);
                    let after = s@.take(seen + 1);
                    assert(before =~= after.drop_last());
                    assert(after.last() == c);
                    if is_plain(before) && !needs_escape(c) {
                        assert forall|i: int| 0 <= i < after.len() implies !needs_escape(
                            #[trigger] after[i],
                        ) by {
                            if i < seen {
                                assert(after[i] == before[i]);
                            }
                        }
                    }
                    if is_plain(after) {
                        assert(!needs_escape(after[seen]));
                        assert forall|i: int| 0 <= i < before.len() implies !needs_escape(
                            #[trigger] before[i],
                        ) by {
                            assert(before[i] == after[i]);
                        }
                    }
                    seen = seen + 1;
                }
            },
            None => {
                assert(s@.take(seen) =~= s@);
                break;
            },
        }
    }
    if plain {
        proof {
            lemma_escape_plain(s@);
        }
        return Cow::Borrowed(s);
    }
    let mut result = String::new();
    let mut rest = s.chars();
    let ghost mut done: int = 0;
    loop
        invariant
            0 <= done <= s@.len(),
            rest.remaining() == s@.skip(done),
            result@ == escape_text(s@.take(done)),
        ensures
            result@ == escape_text(s@),
        decreases s@.len() - done,
    {
        match rest.next() {
            Some(c) => {
                push_escaped(&mut result, c);
                proof {
                    assert(c == s@[done]);
                    assert(s@.take(done) =~= s@.take(done + 1).drop_last());
                    done = done + 1;
                }
            },
            None => {
                assert(s@.take(done) =~= s@);
                break;
            },
        }
    }
    Cow::Owned(result)
}

} // verus!
