//! The tagged messages exchanged over a link and their wire record: one
//! compact JSON object per frame, `{"type":"<Kind>", <fields>...}`, whose
//! string values are escaped the way common JSON writers escape them.
use vstd::prelude::*;
use vstd::utf8::char_u32_cast;

use crate::text::{chars_of, push_char};

verus! {

/// One protocol message.
#[derive(Clone, Debug, PartialEq, Eq)]
pub enum Message {
    Hello { name: String },
    Clipboard { text: String },
    File { name: String, data: String },
    BringToFront,
}

/// Mathematical model of a [`Message`].
pub enum MessageView {
    Hello { name: Seq<char> },
    Clipboard { text: Seq<char> },
    File { name: Seq<char>, data: Seq<char> },
    BringToFront,
}

impl View for Message {
    type V = MessageView;

    open spec fn view(&self) -> MessageView {
        match self {
            Message::Hello { name } => MessageView::Hello { name: name@ },
            Message::Clipboard { text } => MessageView::Clipboard { text: text@ },
            Message::File { name, data } => MessageView::File { name: name@, data: data@ },
            Message::BringToFront => MessageView::BringToFront,
        }
    }
}

/// Why an inbound record was not turned into a message.
#[derive(Clone, Copy, Debug, PartialEq, Eq, Structural)]
pub enum RecordError {
    /// The record is not a flat JSON object of string members.
    Malformed,
    /// The record is well formed but names no known kind, or lacks a field
    /// that its kind needs.
    Unrecognized,
}

/// A record member: key and value.
pub type FieldView = (Seq<char>, Seq<char>);

// ---------------------------------------------------------------------
// Escaping
// ---------------------------------------------------------------------

/// Lower-case hexadecimal digit of `n` (`n < 16`).
pub open spec fn hex_char(n: u8) -> char {
    if n < 10 {
        ((n + 48) as u8) as char
    } else {
        ((n + 87) as u8) as char
    }
}

/// The escape sequence written for one character of a string value.
pub open spec fn esc_char(c: char) -> Seq<char> {
    if c == '"' {
        seq!['\\', '"']
    } else if c == '\\' {
        seq!['\\', '\\']
    } else if c == '\n' {
        seq!['\\', 'n']
    } else if c == '\r' {
        seq!['\\', 'r']
    } else if c == '\t' {
        seq!['\\', 't']
    } else if c == '\u{8}' {
        seq!['\\', 'b']
    } else if c == '\u{c}' {
        seq!['\\', 'f']
    } else if (c as u32) < 32 {
        seq!['\\', 'u', '0', '0', hex_char(((c as u32) / 16) as u8), hex_char(((c as u32) % 16) as u8)]
    } else {
        seq![c]
    }
}

/// The escaped form of a whole string value (without the quotes).
pub open spec fn escaped(s: Seq<char>) -> Seq<char>
    decreases s.len(),
{
    if s.len() == 0 {
        Seq::empty()
    } else {
        escaped(s.drop_last()) + esc_char(s.last())
    }
}

/// A member `"key":"value"` as written.
pub open spec fn member(f: FieldView) -> Seq<char> {
    seq!['"'] + escaped(f.0) + seq!['"', ':', '"'] + escaped(f.1) + seq!['"']
}

/// Members separated by commas.
pub open spec fn members(fs: Seq<FieldView>) -> Seq<char>
    decreases fs.len(),
{
    if fs.len() == 0 {
        Seq::empty()
    } else if fs.len() == 1 {
        member(fs[0])
    } else {
        member(fs[0]) + seq![','] + members(fs.drop_first())
    }
}

/// A whole record: the members between braces.
pub open spec fn record(fs: Seq<FieldView>) -> Seq<char> {
    seq!['{'] + members(fs) + seq!['}']
}

/// The members that stand for a message, the kind first.
pub open spec fn fields_of(m: MessageView) -> Seq<FieldView> {
    match m {
        MessageView::Hello { name } => seq![("type"@, "Hello"@), ("name"@, name)],
        MessageView::Clipboard { text } => seq![("type"@, "Clipboard"@), ("text"@, text)],
        MessageView::File { name, data } => seq![
            ("type"@, "File"@),
            ("name"@, name),
            ("data"@, data),
        ],
        MessageView::BringToFront => seq![("type"@, "BringToFront"@)],
    }
}

/// The wire record of a message.
pub open spec fn encode_spec(m: MessageView) -> Seq<char> {
    record(fields_of(m))
}

// ---------------------------------------------------------------------
// Parsing
// ---------------------------------------------------------------------

/// Value of a hexadecimal digit of either case.
pub open spec fn hex_value(c: char) -> Option<u8> {
    let u = c as u32;
    if 48 <= u <= 57 {
        Some((u - 48) as u8)
    } else if 97 <= u <= 102 {
        Some((u - 87) as u8)
    } else if 65 <= u <= 70 {
        Some((u - 55) as u8)
    } else {
        None
    }
}

/// Number of characters of an escape sequence whose letter is `e`,
/// the backslash included.
pub open spec fn escape_width(e: char) -> int {
    if e == 'u' {
        6
    } else {
        2
    }
}

/// The character an escape sequence stands for; `i` is the position of
/// the letter after the backslash. `\u` escapes are read up to `ÿ`.
pub open spec fn unescape_at(s: Seq<char>, i: int) -> Option<char> {
    if i < 0 || i >= s.len() {
        None
    } else {
        let e = s[i];
        if e == '"' {
            Some('"')
        } else if e == '\\' {
            Some('\\')
        } else if e == '/' {
            Some('/')
        } else if e == 'b' {
            Some('\u{8}')
        } else if e == 'f' {
            Some('\u{c}')
        } else if e == 'n' {
            Some('\n')
        } else if e == 'r' {
            Some('\r')
        } else if e == 't' {
            Some('\t')
        } else if e == 'u' && i + 4 < s.len() {
            match (hex_value(s[i + 1]), hex_value(s[i + 2]), hex_value(s[i + 3]), hex_value(s[i + 4])) {
                (Some(a), Some(b), Some(h), Some(l)) => if a == 0 && b == 0 {
                    Some(((h * 16 + l) as u8) as char)
                } else {
                    None
                },
                _ => None,
            }
        } else {
            None
        }
    }
}

/// Prepends `p` to the text of a parse result.
pub open spec fn prefix_with(p: Seq<char>, r: Option<(Seq<char>, int)>) -> Option<(Seq<char>, int)> {
    match r {
        Some((t, k)) => Some((p + t, k)),
        None => None,
    }
}

/// Reads a string value whose opening quote stands just before `i`: the
/// unescaped text and the position after the closing quote.
pub open spec fn parse_str(s: Seq<char>, i: int) -> Option<(Seq<char>, int)>
    decreases s.len() - i,
{
    if i < 0 || i >= s.len() {
        None
    } else if s[i] == '"' {
        Some((Seq::empty(), i + 1))
    } else if s[i] == '\\' {
        if i + 1 < s.len() {
            match unescape_at(s, i + 1) {
                Some(c) => prefix_with(seq![c], parse_str(s, i + escape_width(s[i + 1]))),
                None => None,
            }
        } else {
            None
        }
    } else if (s[i] as u32) < 32 {
        None
    } else {
        prefix_with(seq![s[i]], parse_str(s, i + 1))
    }
}

/// Reads the members from `i` (a member's opening quote) to the closing
/// brace, which must end the record.
pub open spec fn parse_members(s: Seq<char>, i: int) -> Option<Seq<FieldView>>
    decreases s.len() - i,
{
    if i < 0 || i >= s.len() || s[i] != '"' {
        None
    } else {
        match parse_str(s, i + 1) {
            None => None,
            Some((k, j)) => if j <= i || j + 1 >= s.len() || s[j] != ':' || s[j + 1] != '"' {
                None
            } else {
                match parse_str(s, j + 2) {
                    None => None,
                    Some((v, l)) => if l <= i || l >= s.len() {
                        None
                    } else if s[l] == '}' && l + 1 == s.len() {
                        Some(seq![(k, v)])
                    } else if s[l] == ',' {
                        match parse_members(s, l + 1) {
                            Some(rest) => Some(seq![(k, v)] + rest),
                            None => None,
                        }
                    } else {
                        None
                    }
                }
            },
        }
    }
}

/// Reads a whole record into its members, in order.
pub open spec fn parse_record(s: Seq<char>) -> Option<Seq<FieldView>> {
    if s.len() >= 2 && s[0] == '{' {
        if s.len() == 2 && s[1] == '}' {
            Some(Seq::empty())
        } else {
            parse_members(s, 1)
        }
    } else {
        None
    }
}

/// The value of the first member with key `k`.
pub open spec fn lookup(fs: Seq<FieldView>, k: Seq<char>) -> Option<Seq<char>>
    decreases fs.len(),
{
    if fs.len() == 0 {
        None
    } else if fs[0].0 == k {
        Some(fs[0].1)
    } else {
        lookup(fs.drop_first(), k)
    }
}

/// The message that a list of members stands for, if any. Members with
/// other keys are ignored.
pub open spec fn message_of_fields(fs: Seq<FieldView>) -> Option<MessageView> {
    let ty = lookup(fs, "type"@);
    if ty == Some("Hello"@) {
        match lookup(fs, "name"@) {
            Some(name) => Some(MessageView::Hello { name }),
            None => None,
        }
    } else if ty == Some("Clipboard"@) {
        match lookup(fs, "text"@) {
            Some(text) => Some(MessageView::Clipboard { text }),
            None => None,
        }
    } else if ty == Some("File"@) {
        match (lookup(fs, "name"@), lookup(fs, "data"@)) {
            (Some(name), Some(data)) => Some(MessageView::File { name, data }),
            _ => None,
        }
    } else if ty == Some("BringToFront"@) {
        Some(MessageView::BringToFront)
    } else {
        None
    }
}

/// What decoding a record gives.
pub open spec fn decode_spec(s: Seq<char>) -> Result<MessageView, RecordError> {
    match parse_record(s) {
        None => Err(RecordError::Malformed),
        Some(fs) => match message_of_fields(fs) {
            Some(m) => Ok(m),
            None => Err(RecordError::Unrecognized),
        },
    }
}

// ---------------------------------------------------------------------
// Lemmas
// ---------------------------------------------------------------------

proof fn lemma_escaped_concat(a: Seq<char>, b: Seq<char>)
    ensures
        escaped(a + b) == escaped(a) + escaped(b),
    decreases b.len(),
{
    if b.len() == 0 {
        assert(a + b =~= a);
        assert(escaped(a) + escaped(b) =~= escaped(a));
    } else {
        assert((a + b).drop_last() =~= a + b.drop_last());
        assert((a + b).last() == b.last());
        lemma_escaped_concat(a, b.drop_last());
        assert(escaped(a) + escaped(b) =~= escaped(a) + escaped(b.drop_last()) + esc_char(b.last()));
    }
}

proof fn lemma_escaped_first(x: Seq<char>)
    requires
        x.len() > 0,
    ensures
        escaped(x) == esc_char(x[0]) + escaped(x.drop_first()),
{
    let h = seq![x[0]];
    assert(h + x.drop_first() =~= x);
    lemma_escaped_concat(h, x.drop_first());
    assert(h.drop_last() =~= Seq::<char>::empty());
    assert(escaped(h.drop_last()) == Seq::<char>::empty());
    assert(escaped(h) =~= Seq::<char>::empty() + esc_char(x[0]));
}

proof fn lemma_hex_round_trip(n: u8)
    requires
        n < 16,
    ensures
        hex_value(hex_char(n)) == Some(n),
{
}

/// Reading back an escaped string value gives the string.
proof fn lemma_parse_escaped(s: Seq<char>, i: int, x: Seq<char>)
    requires
        0 <= i,
        i + escaped(x).len() < s.len(),
        s.subrange(i, i + escaped(x).len()) == escaped(x),
        s[i + escaped(x).len()] == '"',
    ensures
        parse_str(s, i) == Some((x, i + escaped(x).len() + 1)),
    decreases x.len(),
{
    if x.len() == 0 {
        assert(x =~= Seq::<char>::empty());
    } else {
        let c = x[0];
        let rest = x.drop_first();
        lemma_escaped_first(x);
        let e = esc_char(c);
        let n = e.len() as int;
        assert(s.subrange(i, i + n) =~= e) by {
            assert(s.subrange(i, i + n) =~= s.subrange(i, i + escaped(x).len()).subrange(0, n));
        }
        assert(s.subrange(i + n, i + n + escaped(rest).len()) =~= escaped(rest)) by {
            assert(s.subrange(i + n, i + n + escaped(rest).len()) =~= s.subrange(
                i,
                i + escaped(x).len(),
            ).subrange(n, escaped(x).len() as int));
        }
        lemma_parse_escaped(s, i + n, rest);
        assert(s[i] == e[0]);
        if c == '"' || c == '\\' || c == '\n' || c == '\r' || c == '\t' || c == '\u{8}' || c
            == '\u{c}' {
            assert(s[i + 1] == e[1]);
            assert(seq![c] + rest =~= x);
        } else if (c as u32) < 32 {
            let u = c as u32;
            assert(s[i + 1] == e[1]);
            assert(s[i + 2] == e[2]);
            assert(s[i + 3] == e[3]);
            assert(s[i + 4] == e[4]);
            assert(s[i + 5] == e[5]);
            lemma_hex_round_trip(0);
            lemma_hex_round_trip((u / 16) as u8);
            lemma_hex_round_trip((u % 16) as u8);
            assert(((u / 16) as u8) * 16 + ((u % 16) as u8) == u);
            char_u32_cast(c, u);
            assert(((((u / 16) as u8) * 16 + ((u % 16) as u8)) as u8) as char == c);
            assert(seq![c] + rest =~= x);
        } else {
            assert(seq![c] + rest =~= x);
        }
    }
}

proof fn lemma_parse_members(s: Seq<char>, i: int, fs: Seq<FieldView>)
    requires
        fs.len() >= 1,
        0 <= i,
        i + members(fs).len() + 1 == s.len(),
        s.subrange(i, i + members(fs).len()) == members(fs),
        s[i + members(fs).len()] == '}',
    ensures
        parse_members(s, i) == Some(fs),
    decreases fs.len(),
{
    let f = fs[0];
    let ek = escaped(f.0);
    let ev = escaped(f.1);
    let m = member(f);
    let nk = ek.len() as int;
    let nv = ev.len() as int;
    let nm = m.len() as int;
    assert(nm == nk + nv + 5);
    let body = members(fs);
    assert(body.subrange(0, nm) =~= m);
    assert(s.subrange(i, i + nm) =~= m) by {
        assert(s.subrange(i, i + nm) =~= s.subrange(i, i + body.len()).subrange(
            0,
            nm,
        ));
    }
    assert(s[i] == m[0]);
    assert(s.subrange(i + 1, i + 1 + nk) =~= ek) by {
        assert(s.subrange(i + 1, i + 1 + nk) =~= s.subrange(i, i + nm).subrange(
            1,
            1 + nk,
        ));
        assert(m.subrange(1, 1 + nk) =~= ek);
    }
    assert(s[i + 1 + nk] == m[1 + nk]);
    lemma_parse_escaped(s, i + 1, f.0);
    let j = i + 1 + nk + 1;
    assert(s[j] == m[2 + nk]);
    assert(s[j + 1] == m[3 + nk]);
    assert(s.subrange(j + 2, j + 2 + nv) =~= ev) by {
        assert(s.subrange(j + 2, j + 2 + nv) =~= s.subrange(i, i + nm).subrange(
            4 + nk,
            4 + nk + nv,
        ));
        assert(m.subrange(4 + nk, 4 + nk + nv) =~= ev);
    }
    assert(s[j + 2 + nv] == m[4 + nk + nv]);
    lemma_parse_escaped(s, j + 2, f.1);
    let l = j + 2 + nv + 1;
    assert(l == i + nm);
    if fs.len() == 1 {
        assert(seq![(f.0, f.1)] =~= fs);
    } else {
        let rest = fs.drop_first();
        assert(body == m + seq![','] + members(rest));
        assert(s[l] == body[nm]);
        assert(s.subrange(l + 1, l + 1 + members(rest).len()) =~= members(rest)) by {
            assert(s.subrange(l + 1, l + 1 + members(rest).len()) =~= s.subrange(
                i,
                i + body.len(),
            ).subrange(nm + 1, body.len() as int));
            assert(body.subrange(nm + 1, body.len() as int) =~= members(rest));
        }
        lemma_parse_members(s, l + 1, rest);
        assert(seq![(f.0, f.1)] + rest =~= fs);
    }
}

/// Reading back a written record gives its members.
pub proof fn lemma_parse_record(fs: Seq<FieldView>)
    ensures
        parse_record(record(fs)) == Some(fs),
{
    let s = record(fs);
    if fs.len() == 0 {
        assert(s =~= seq!['{', '}']);
        assert(fs =~= Seq::<FieldView>::empty());
    } else {
        let body = members(fs);
        assert(body.len() > 0) by {
            if fs.len() > 1 {
                assert(members(fs) == member(fs[0]) + seq![','] + members(fs.drop_first()));
            }
        }
        assert(s.subrange(1, 1 + body.len() as int) =~= body);
        assert(s[1 + body.len() as int] == '}');
        lemma_parse_members(s, 1, fs);
        if s.len() == 2 {
            assert(false);
        }
    }
}

/// Decoding the record of a message gives the same message back, whatever
/// its text fields hold (file payloads included).
pub proof fn lemma_decode_encode(m: MessageView)
    ensures
        decode_spec(encode_spec(m)) == Ok::<MessageView, RecordError>(m),
{
    lemma_parse_record(fields_of(m));
    reveal_strlit("type");
    reveal_strlit("name");
    reveal_strlit("text");
    reveal_strlit("data");
    reveal_strlit("Hello");
    reveal_strlit("Clipboard");
    reveal_strlit("File");
    reveal_strlit("BringToFront");
    let fs = fields_of(m);
    assert(fs.len() >= 1);
    match m {
        MessageView::Hello { name } => {
            assert(fs.drop_first() =~= seq![("name"@, name)]);
            assert("type"@[0] != "name"@[0]);
            assert(lookup(fs.drop_first(), "name"@) == Some(name));
            assert(lookup(fs, "name"@) == Some(name));
        },
        MessageView::Clipboard { text } => {
            assert(fs.drop_first() =~= seq![("text"@, text)]);
            assert("type"@[1] != "text"@[1]);
            assert("Clipboard"@ != "Hello"@);
            assert(lookup(fs.drop_first(), "text"@) == Some(text));
            assert(lookup(fs, "text"@) == Some(text));
        },
        MessageView::File { name, data } => {
            assert(fs.drop_first() =~= seq![("name"@, name), ("data"@, data)]);
            assert(fs.drop_first().drop_first() =~= seq![("data"@, data)]);
            assert("type"@[0] != "name"@[0]);
            assert("type"@[0] != "data"@[0]);
            assert("name"@[0] != "data"@[0]);
            assert("File"@ != "Hello"@);
            assert("File"@ != "Clipboard"@);
            assert(lookup(fs.drop_first(), "name"@) == Some(name));
            assert(lookup(fs, "name"@) == Some(name));
            assert(lookup(fs.drop_first().drop_first(), "data"@) == Some(data));
            assert(lookup(fs.drop_first(), "data"@) == Some(data));
            assert(lookup(fs, "data"@) == Some(data));
        },
        MessageView::BringToFront => {
            assert("BringToFront"@ != "Hello"@);
            assert("BringToFront"@ != "Clipboard"@);
            assert("BringToFront"@ != "File"@);
        },
    }
}


// ---------------------------------------------------------------------
// Executable codec
// ---------------------------------------------------------------------

fn hex_digit(n: u8) -> (c: char)
    requires
        n < 16,
    ensures
        c == hex_char(n),
{
    if n < 10 {
        (n + 48) as char
    } else {
        (n + 87) as char
    }
}

fn write_escaped(out: &mut String, s: &str)
    ensures
        final(out)@ == old(out)@ + escaped(s@),
{
    let cs = chars_of(s);
    let ghost start = out@;
    let mut i: usize = 0;
    while i < cs.len()
        invariant
            i <= cs@.len(),
            cs@ == s@,
            out@ == start + escaped(cs@.subrange(0, i as int)),
        decreases cs.len() - i,
    {
        let c = cs[i];
        let u = c as u32;
        if c == '"' || c == '\\' {
            push_char(out, '\\');
            push_char(out, c);
        } else if c == '\n' {
            push_char(out, '\\');
            push_char(out, 'n');
        } else if c == '\r' {
            push_char(out, '\\');
            push_char(out, 'r');
        } else if c == '\t' {
            push_char(out, '\\');
            push_char(out, 't');
        } else if c == '\u{8}' {
            push_char(out, '\\');
            push_char(out, 'b');
        } else if c == '\u{c}' {
            push_char(out, '\\');
            push_char(out, 'f');
        } else if u < 32 {
            push_char(out, '\\');
            push_char(out, 'u');
            push_char(out, '0');
            push_char(out, '0');
            push_char(out, hex_digit((u / 16) as u8));
            push_char(out, hex_digit((u % 16) as u8));
        } else {
            push_char(out, c);
        }
        proof {
            let next = cs@.subrange(0, i + 1);
            assert(next.drop_last() =~= cs@.subrange(0, i as int));
            assert(next.last() == c);
            assert(out@ =~= start + escaped(next));
        }
        i = i + 1;
    }
    proof {
        assert(cs@.subrange(0, i as int) =~= s@);
    }
}

fn write_member(out: &mut String, key: &str, value: &str)
    ensures
        final(out)@ == old(out)@ + member((key@, value@)),
{
    let ghost start = out@;
    push_char(out, '"');
    write_escaped(out, key);
    push_char(out, '"');
    push_char(out, ':');
    push_char(out, '"');
    write_escaped(out, value);
    push_char(out, '"');
    assert(out@ =~= start + member((key@, value@)));
}

/// Writes the wire record of a message.
pub fn encode(m: &Message) -> (r: String)
    ensures
        r@ == encode_spec(m@),
        decode_spec(r@) == Ok::<MessageView, RecordError>(m@),
{
    let mut out = String::new();
    push_char(&mut out, '{');
    match m {
        Message::Hello { name } => {
            write_member(&mut out, "type", "Hello");
            push_char(&mut out, ',');
            write_member(&mut out, "name", name.as_str());
        },
        Message::Clipboard { text } => {
            write_member(&mut out, "type", "Clipboard");
            push_char(&mut out, ',');
            write_member(&mut out, "text", text.as_str());
        },
        Message::File { name, data } => {
            write_member(&mut out, "type", "File");
            push_char(&mut out, ',');
            write_member(&mut out, "name", name.as_str());
            push_char(&mut out, ',');
            write_member(&mut out, "data", data.as_str());
        },
        Message::BringToFront => {
            write_member(&mut out, "type", "BringToFront");
        },
    }
    push_char(&mut out, '}');
    proof {
        let fs = fields_of(m@);
        if fs.len() == 1 {
            assert(members(fs) == member(fs[0]));
        } else if fs.len() == 2 {
            let t = fs.drop_first();
            assert(t.len() == 1 && t[0] == fs[1]);
            assert(members(t) == member(fs[1]));
            assert(members(fs) == member(fs[0]) + seq![','] + member(fs[1]));
        } else {
            let t = fs.drop_first();
            let u = t.drop_first();
            assert(t.len() == 2 && t[0] == fs[1]);
            assert(u.len() == 1 && u[0] == fs[2]);
            assert(members(u) == member(fs[2]));
            assert(members(fs.drop_first()) == member(fs[1]) + seq![','] + member(fs[2]));
            assert(members(fs) == member(fs[0]) + seq![','] + member(fs[1]) + seq![',']
                + member(fs[2]));
        }
        assert(out@ =~= encode_spec(m@));
        lemma_decode_encode(m@);
    }
    out
}

fn hex_digit_value(c: char) -> (r: Option<u8>)
    ensures
        r == hex_value(c),
{
    let u = c as u32;
    if 48 <= u && u <= 57 {
        Some((u - 48) as u8)
    } else if 97 <= u && u <= 102 {
        Some((u - 87) as u8)
    } else if 65 <= u && u <= 70 {
        Some((u - 55) as u8)
    } else {
        None
    }
}

fn unescape(s: &Vec<char>, i: usize) -> (r: Option<char>)
    ensures
        r == unescape_at(s@, i as int),
{
    if i >= s.len() {
        return None;
    }
    let e = s[i];
    if e == '"' {
        Some('"')
    } else if e == '\\' {
        Some('\\')
    } else if e == '/' {
        Some('/')
    } else if e == 'b' {
        Some('\u{8}')
    } else if e == 'f' {
        Some('\u{c}')
    } else if e == 'n' {
        Some('\n')
    } else if e == 'r' {
        Some('\r')
    } else if e == 't' {
        Some('\t')
    } else if e == 'u' && s.len() - i > 4 {
        let a = hex_digit_value(s[i + 1]);
        let b = hex_digit_value(s[i + 2]);
        let h = hex_digit_value(s[i + 3]);
        let l = hex_digit_value(s[i + 4]);
        match (a, b, h, l) {
            (Some(a), Some(b), Some(h), Some(l)) => if a == 0 && b == 0 {
                Some((h * 16 + l) as char)
            } else {
                None
            },
            _ => None,
        }
    } else {
        None
    }
}

/// Reads a string value whose opening quote stands just before `start`.
fn read_string(s: &Vec<char>, start: usize) -> (r: Option<(String, usize)>)
    ensures
        match r {
            Some((t, k)) => parse_str(s@, start as int) == Some((t@, k as int)),
            None => parse_str(s@, start as int) is None,
        },
{
    let mut out = String::new();
    let mut i: usize = start;
    loop
        invariant
            start <= i,
            parse_str(s@, start as int) == prefix_with(out@, parse_str(s@, i as int)),
        decreases s@.len() - i,
    {
        if i >= s.len() {
            return None;
        }
        let c = s[i];
        if c == '"' {
            assert(out@ + Seq::<char>::empty() =~= out@);
            return Some((out, i + 1));
        } else if c == '\\' {
            if i + 1 >= s.len() {
                return None;
            }
            match unescape(s, i + 1) {
                None => return None,
                Some(e) => {
                    let ghost before = out@;
                    push_char(&mut out, e);
                    let width: usize = if s[i + 1] == 'u' {
                        6
                    } else {
                        2
                    };
                    proof {
                        let rest = parse_str(s@, i + width);
                        match rest {
                            Some((t, k)) => {
                                assert(before + (seq![e] + t) =~= out@ + t);
                            },
                            None => {},
                        }
                    }
                    i = i + width;
                },
            }
        } else if (c as u32) < 32 {
            return None;
        } else {
            let ghost before = out@;
            push_char(&mut out, c);
            proof {
                match parse_str(s@, i + 1) {
                    Some((t, k)) => {
                        assert(before + (seq![c] + t) =~= out@ + t);
                    },
                    None => {},
                }
            }
            i = i + 1;
        }
    }
}

/// The mathematical list of members held by `v`.
pub open spec fn fields_view(v: Seq<(String, String)>) -> Seq<FieldView> {
    v.map_values(|p: (String, String)| (p.0@, p.1@))
}

/// Reads the members of a record from `start` to its closing brace.
fn read_members(s: &Vec<char>, start: usize) -> (r: Option<Vec<(String, String)>>)
    ensures
        match r {
            Some(v) => parse_members(s@, start as int) == Some(fields_view(v@)),
            None => parse_members(s@, start as int) is None,
        },
{
    let mut acc: Vec<(String, String)> = Vec::new();
    let mut i: usize = start;
    loop
        invariant
            start <= i,
            parse_members(s@, start as int) == match parse_members(s@, i as int) {
                Some(rest) => Some(fields_view(acc@) + rest),
                None => None,
            },
        decreases s@.len() - i,
    {
        if i >= s.len() || s[i] != '"' {
            return None;
        }
        let (k, j) = match read_string(s, i + 1) {
            None => return None,
            Some(p) => p,
        };
        if j <= i || j >= s.len() - 1 || s[j] != ':' || s[j + 1] != '"' {
            return None;
        }
        let (v, l) = match read_string(s, j + 2) {
            None => return None,
            Some(p) => p,
        };
        if l <= i || l >= s.len() {
            return None;
        }
        let ghost before = acc@;
        let ghost f: FieldView = (k@, v@);
        acc.push((k, v));
        proof {
            assert(fields_view(acc@) =~= fields_view(before) + seq![f]);
        }
        if s[l] == '}' && l + 1 == s.len() {
            assert(fields_view(before) + seq![f] =~= fields_view(acc@));
            return Some(acc);
        } else if s[l] == ',' {
            proof {
                match parse_members(s@, l + 1) {
                    Some(rest) => {
                        assert(fields_view(before) + (seq![f] + rest) =~= fields_view(acc@)
                            + rest);
                    },
                    None => {},
                }
            }
            i = l + 1;
        } else {
            return None;
        }
    }
}

/// The position of the first member with the given key.
fn find_field(fields: &Vec<(String, String)>, key: &String) -> (r: Option<usize>)
    ensures
        match r {
            Some(j) => j < fields@.len() && lookup(fields_view(fields@), key@) == Some(
                fields@[j as int].1@,
            ),
            None => lookup(fields_view(fields@), key@) is None,
        },
{
    let ghost fs = fields_view(fields@);
    assert(fs.subrange(0, fs.len() as int) =~= fs);
    let mut i: usize = 0;
    while i < fields.len()
        invariant
            i <= fields@.len(),
            fs == fields_view(fields@),
            lookup(fs, key@) == lookup(fs.subrange(i as int, fs.len() as int), key@),
        decreases fields.len() - i,
    {
        let ghost tail = fs.subrange(i as int, fs.len() as int);
        assert(tail[0] == (fields@[i as int].0@, fields@[i as int].1@));
        if fields[i].0 == *key {
            return Some(i);
        }
        assert(tail.drop_first() =~= fs.subrange(i + 1, fs.len() as int));
        i = i + 1;
    }
    None
}

/// Turns a wire record back into a message.
pub fn decode(text: &str) -> (r: Result<Message, RecordError>)
    ensures
        match r {
            Ok(m) => decode_spec(text@) == Ok::<MessageView, RecordError>(m@),
            Err(e) => decode_spec(text@) == Err::<MessageView, RecordError>(e),
        },
{
    let s = chars_of(text);
    if s.len() < 2 || s[0] != '{' {
        return Err(RecordError::Malformed);
    }
    let fields = if s.len() == 2 && s[1] == '}' {
        Vec::new()
    } else {
        match read_members(&s, 1) {
            Some(v) => v,
            None => return Err(RecordError::Malformed),
        }
    };
    proof {
        assert(fields_view(fields@) =~= parse_record(text@)->Some_0);
    }
    let ty = match find_field(&fields, &String::from_str("type")) {
        Some(j) => j,
        None => return Err(RecordError::Unrecognized),
    };
    let kind = &fields[ty].1;
    if *kind == String::from_str("Hello") {
        match find_field(&fields, &String::from_str("name")) {
            Some(n) => Ok(Message::Hello { name: fields[n].1.clone() }),
            None => Err(RecordError::Unrecognized),
        }
    } else if *kind == String::from_str("Clipboard") {
        match find_field(&fields, &String::from_str("text")) {
            Some(t) => Ok(Message::Clipboard { text: fields[t].1.clone() }),
            None => Err(RecordError::Unrecognized),
        }
    } else if *kind == String::from_str("File") {
        match (
            find_field(&fields, &String::from_str("name")),
            find_field(&fields, &String::from_str("data")),
        ) {
            (Some(n), Some(d)) => Ok(
                Message::File { name: fields[n].1.clone(), data: fields[d].1.clone() },
            ),
            _ => Err(RecordError::Unrecognized),
        }
    } else if *kind == String::from_str("BringToFront") {
        Ok(Message::BringToFront)
    } else {
        Err(RecordError::Unrecognized)
    }
}

} // verus!
