//! The pretty text form of a JSON value: what documents look like on disk
//! and what `to_str` shows.
use vstd::prelude::*;
use crate::json::{Json, JsonV, json_view, list_view, entries_view};
use vstd::utf8::encode_utf8;

verus! {

/// The text of a decimal digit.
pub open spec fn digit_char(d: int) -> char {
    if d == 0 {
        '0'
    } else if d == 1 {
        '1'
    } else if d == 2 {
        '2'
    } else if d == 3 {
        '3'
    } else if d == 4 {
        '4'
    } else if d == 5 {
        '5'
    } else if d == 6 {
        '6'
    } else if d == 7 {
        '7'
    } else if d == 8 {
        '8'
    } else {
        '9'
    }
}

/// The text of a hexadecimal digit (lower case).
pub open spec fn hex_char(d: int) -> char {
    if d < 10 {
        digit_char(d)
    } else if d == 10 {
        'a'
    } else if d == 11 {
        'b'
    } else if d == 12 {
        'c'
    } else if d == 13 {
        'd'
    } else if d == 14 {
        'e'
    } else {
        'f'
    }
}

/// The decimal text of a natural number, without leading zeros.
pub open spec fn nat_text(n: nat) -> Seq<char>
    decreases n,
{
    if n < 10 {
        seq![digit_char(n as int)]
    } else {
        nat_text(n / 10) + seq![digit_char((n % 10) as int)]
    }
}

/// The decimal text of an integer.
pub open spec fn int_text(n: int) -> Seq<char> {
    if n < 0 {
        seq!['-'] + nat_text((-n) as nat)
    } else {
        nat_text(n as nat)
    }
}

/// How one character of a string is written between quotes.
pub open spec fn escape_char(c: char) -> Seq<char> {
    if c == '"' {
        seq!['\\', '"']
    } else if c == '\\' {
        seq!['\\', '\\']
    } else if c == '\n' {
        seq!['\\', 'n']
    } else if c == '\r' {
        seq!['\\', 'r']
    } else if c == '\t' {
        seq!['\\', 't']
    } else if (c as u32) == 8 {
        seq!['\\', 'b']
    } else if (c as u32) == 12 {
        seq!['\\', 'f']
    } else if (c as u32) < 32 {
        seq!['\\', 'u', '0', '0', hex_char((c as u32) as int / 16), hex_char((c as u32) as int % 16)]
    } else {
        seq![c]
    }
}

pub open spec fn escape_text(s: Seq<char>) -> Seq<char>
    decreases s.len(),
{
    if s.len() == 0 {
        Seq::empty()
    } else {
        escape_text(s.drop_last()) + escape_char(s.last())
    }
}

/// A string literal.
pub open spec fn quoted(s: Seq<char>) -> Seq<char> {
    seq!['"'] + escape_text(s) + seq!['"']
}

pub open spec fn two_spaces() -> Seq<char> {
    seq![' ', ' ']
}

/// The elements of a list, each on its own line, separated by commas.
pub open spec fn list_body(l: Seq<JsonV>, ind: Seq<char>) -> Seq<char>
    decreases l,
{
    if l.len() == 0 {
        Seq::empty()
    } else if l.len() == 1 {
        ind + two_spaces() + pretty(l[0], ind + two_spaces())
    } else {
        list_body(l.drop_last(), ind) + seq![',', '\n'] + ind + two_spaces() + pretty(
            l.last(),
            ind + two_spaces(),
        )
    }
}

/// The members of an object, each on its own line, separated by commas.
pub open spec fn object_body(o: Seq<(Seq<char>, JsonV)>, ind: Seq<char>) -> Seq<char>
    decreases o,
{
    if o.len() == 0 {
        Seq::empty()
    } else if o.len() == 1 {
        ind + two_spaces() + quoted(o[0].0) + seq![':', ' '] + pretty(o[0].1, ind + two_spaces())
    } else {
        object_body(o.drop_last(), ind) + seq![',', '\n'] + ind + two_spaces() + quoted(
            o.last().0,
        ) + seq![':', ' '] + pretty(o.last().1, ind + two_spaces())
    }
}

/// The pretty text of `j`, whose first line is already indented by `ind`.
pub open spec fn pretty(j: JsonV, ind: Seq<char>) -> Seq<char>
    decreases j,
{
    match j {
        JsonV::Null => seq!['n', 'u', 'l', 'l'],
        JsonV::Boolean(b) => if b {
            seq!['t', 'r', 'u', 'e']
        } else {
            seq!['f', 'a', 'l', 's', 'e']
        },
        JsonV::Number(n) => int_text(n),
        JsonV::Str(s) => quoted(s),
        JsonV::List(l) => if l.len() == 0 {
            seq!['[', ']']
        } else {
            seq!['[', '\n'] + list_body(l, ind) + seq!['\n'] + ind + seq![']']
        },
        JsonV::Object(o) => if o.len() == 0 {
            seq!['{', '}']
        } else {
            seq!['{', '\n'] + object_body(o, ind) + seq!['\n'] + ind + seq!['}']
        },
    }
}

/// The pretty text of a whole document.
pub open spec fn doc_text(j: JsonV) -> Seq<char> {
    pretty(j, Seq::empty())
}


// ---------------------------------------------------------------------------
// Reading the text back
// ---------------------------------------------------------------------------

/// The value of a hexadecimal digit (either case), or -1.
pub open spec fn hex_value(c: char) -> int {
    if '0' <= c && c <= '9' {
        c as int - '0' as int
    } else if 'a' <= c && c <= 'f' {
        c as int - 'a' as int + 10
    } else if 'A' <= c && c <= 'F' {
        c as int - 'A' as int + 10
    } else {
        -1
    }
}

/// How many characters the escape sequence at the front of `t` takes: two
/// for a backslash and one letter, six for `\uXXXX`; zero where `t` does not
/// start with a valid escape.
pub open spec fn escape_len(t: Seq<char>) -> int {
    if t.len() < 2 || t[0] != '\\' {
        0
    } else if t[1] == '"' || t[1] == '\\' || t[1] == '/' || t[1] == 'n' || t[1] == 'r' || t[1] == 't'
        || t[1] == 'b' || t[1] == 'f' {
        2
    } else if t[1] == 'u' && t.len() >= 6 && hex_value(t[2]) >= 0 && hex_value(t[3]) >= 0 && hex_value(t[4]) >= 0
        && hex_value(t[5]) >= 0 {
        6
    } else {
        0
    }
}

/// The character that the valid escape sequence at the front of `t` stands for.
pub open spec fn escaped_char(t: Seq<char>) -> char {
    if t[1] == 'n' {
        '\n'
    } else if t[1] == 'r' {
        '\r'
    } else if t[1] == 't' {
        '\t'
    } else if t[1] == 'b' {
        '\x08'
    } else if t[1] == 'f' {
        '\x0c'
    } else if t[1] == 'u' {
        (hex_value(t[2]) * 4096 + hex_value(t[3]) * 256 + hex_value(t[4]) * 16 + hex_value(t[5])) as char
    } else {
        t[1]
    }
}

/// Reads the body of a JSON string literal, up to its closing quote, as a
/// JSON reader does: the characters it stands for, and the text after the
/// closing quote.  None where there is no closing quote, a bad escape, or a
/// raw control character.
pub open spec fn read_string_body(t: Seq<char>) -> Option<(Seq<char>, Seq<char>)>
    decreases t.len(),
{
    if t.len() == 0 {
        None
    } else if t[0] == '"' {
        Some((Seq::empty(), t.drop_first()))
    } else if t[0] == '\\' {
        let n = escape_len(t);
        if 2 <= n <= t.len() {
            match read_string_body(t.subrange(n, t.len() as int)) {
                Some((b, rest)) => Some((seq![escaped_char(t)] + b, rest)),
                None => None,
            }
        } else {
            None
        }
    } else if (t[0] as u32) < 32 {
        None
    } else {
        match read_string_body(t.drop_first()) {
            Some((b, rest)) => Some((seq![t[0]] + b, rest)),
            None => None,
        }
    }
}

/// Reads a JSON string literal at the front of `t`: its characters and the
/// text after it.
pub open spec fn read_string(t: Seq<char>) -> Option<(Seq<char>, Seq<char>)> {
    if t.len() > 0 && t[0] == '"' {
        read_string_body(t.drop_first())
    } else {
        None
    }
}

proof fn lemma_escape_text_front(s: Seq<char>)
    requires
        s.len() > 0,
    ensures
        escape_text(s) == escape_char(s[0]) + escape_text(s.drop_first()),
    decreases s.len(),
{
    if s.len() == 1 {
        assert(s.drop_last().len() == 0);
        assert(s.drop_first().len() == 0);
        assert(escape_text(s.drop_first()) =~= Seq::<char>::empty());
        assert(escape_text(s.drop_last()) =~= Seq::<char>::empty());
        assert(s.last() == s[0]);
        assert(escape_text(s) =~= escape_char(s[0]));
    } else {
        lemma_escape_text_front(s.drop_last());
        assert(s.drop_last().drop_first() =~= s.drop_first().drop_last());
        assert(s.drop_first().last() == s.last());
        assert(escape_text(s) =~= escape_char(s[0]) + escape_text(s.drop_first()));
    }
}

proof fn lemma_hex_char_value(d: int)
    requires
        0 <= d < 16,
    ensures
        hex_value(hex_char(d)) == d,
{
}

proof fn lemma_read_escaped_char(c: char, tail: Seq<char>)
    ensures
        read_string_body(escape_char(c) + tail) == match read_string_body(tail) {
            Some((b, rest)) => Some((seq![c] + b, rest)),
            None => None::<(Seq<char>, Seq<char>)>,
        },
{
    let t = escape_char(c) + tail;
    let code = (c as u32) as int;
    if c == '"' || c == '\\' || c == '\n' || c == '\r' || c == '\t' || code == 8 || code == 12 {
        assert(t.subrange(2, t.len() as int) =~= tail);
        if code == 8 {
            assert(c == '\x08');
        }
        if code == 12 {
            assert(c == '\x0c');
        }
    } else if code < 32 {
        lemma_hex_char_value(code / 16);
        lemma_hex_char_value(code % 16);
        assert(t.subrange(6, t.len() as int) =~= tail);
        assert(hex_value('0') == 0);
        assert(code / 16 * 16 + code % 16 == code);
        assert((code as char) == c);
    } else {
        assert(t.drop_first() =~= tail);
    }
}

/// Reading back a written string gives the string again: every quote,
/// backslash and control character in it is escaped, so a JSON reader finds
/// the end of the string exactly where the writer put it and decodes each
/// character as it was.
pub proof fn lemma_quoted_reads_back(s: Seq<char>, rest: Seq<char>)
    ensures
        read_string_body(escape_text(s) + seq!['"'] + rest) == Some((s, rest)),
        read_string(quoted(s) + rest) == Some((s, rest)),
    decreases s.len(),
{
    if s.len() == 0 {
        assert(escape_text(s) + seq!['"'] + rest =~= seq!['"'] + rest);
        assert((seq!['"'] + rest).drop_first() =~= rest);
        assert(s =~= Seq::<char>::empty());
    } else {
        lemma_quoted_reads_back(s.drop_first(), rest);
        lemma_escape_text_front(s);
        let tail = escape_text(s.drop_first()) + seq!['"'] + rest;
        assert(escape_text(s) + seq!['"'] + rest =~= escape_char(s[0]) + tail);
        lemma_read_escaped_char(s[0], tail);
        assert(seq![s[0]] + s.drop_first() =~= s);
    }
    assert((quoted(s) + rest).drop_first() =~= escape_text(s) + seq!['"'] + rest);
}

/// The pretty text of a string value reads back as that string, with
/// nothing left over.
pub proof fn lemma_string_doc_reads_back(s: Seq<char>)
    ensures
        read_string(doc_text(JsonV::Str(s))) == Some((s, Seq::<char>::empty())),
{
    lemma_quoted_reads_back(s, Seq::empty());
    assert(quoted(s) + Seq::<char>::empty() =~= quoted(s));
}

/// Whether `c` is white space between JSON tokens.
pub open spec fn is_ws(c: char) -> bool {
    c == ' ' || c == '\n' || c == '\t' || c == '\r'
}

/// `t` without the white space at its front.
pub open spec fn skip_ws(t: Seq<char>) -> Seq<char>
    decreases t.len(),
{
    if t.len() > 0 && is_ws(t[0]) {
        skip_ws(t.drop_first())
    } else {
        t
    }
}

pub open spec fn is_digit(c: char) -> bool {
    '0' <= c && c <= '9'
}

/// How many decimal digits `t` starts with.
pub open spec fn digit_run(t: Seq<char>) -> nat
    decreases t.len(),
{
    if t.len() > 0 && is_digit(t[0]) {
        1 + digit_run(t.drop_first())
    } else {
        0
    }
}

/// The number that a run of decimal digits writes.
pub open spec fn digits_value(d: Seq<char>) -> int
    decreases d.len(),
{
    if d.len() == 0 {
        0
    } else {
        digits_value(d.drop_last()) * 10 + (d.last() as int - '0' as int)
    }
}

/// Reads a natural number at the front of `t`, and what follows it.
pub open spec fn read_nat(t: Seq<char>) -> Option<(int, Seq<char>)> {
    let n = digit_run(t);
    if n == 0 {
        None
    } else {
        Some((digits_value(t.take(n as int)), t.skip(n as int)))
    }
}

/// Reads an integer, with an optional minus sign, at the front of `t`.
pub open spec fn read_number(t: Seq<char>) -> Option<(int, Seq<char>)> {
    if t.len() > 0 && t[0] == '-' {
        match read_nat(t.drop_first()) {
            Some((n, r)) => Some((-n, r)),
            None => None,
        }
    } else {
        read_nat(t)
    }
}

/// Reads one JSON value at the front of `t` (after any white space), in at
/// most `fuel` nested steps: the value and the text after it.
pub open spec fn read_value(t: Seq<char>, fuel: nat) -> Option<(JsonV, Seq<char>)>
    decreases fuel,
{
    if fuel == 0 {
        None
    } else {
        let u = skip_ws(t);
        if u.len() == 0 {
            None
        } else if u[0] == 'n' {
            if u.len() >= 4 && u.take(4) == seq!['n', 'u', 'l', 'l'] {
                Some((JsonV::Null, u.skip(4)))
            } else {
                None
            }
        } else if u[0] == 't' {
            if u.len() >= 4 && u.take(4) == seq!['t', 'r', 'u', 'e'] {
                Some((JsonV::Boolean(true), u.skip(4)))
            } else {
                None
            }
        } else if u[0] == 'f' {
            if u.len() >= 5 && u.take(5) == seq!['f', 'a', 'l', 's', 'e'] {
                Some((JsonV::Boolean(false), u.skip(5)))
            } else {
                None
            }
        } else if u[0] == '"' {
            match read_string(u) {
                Some((s, r)) => Some((JsonV::Str(s), r)),
                None => None,
            }
        } else if u[0] == '[' {
            let v = skip_ws(u.drop_first());
            if v.len() > 0 && v[0] == ']' {
                Some((JsonV::List(Seq::empty()), v.drop_first()))
            } else {
                read_items(u.drop_first(), Seq::empty(), (fuel - 1) as nat)
            }
        } else if u[0] == '{' {
            let v = skip_ws(u.drop_first());
            if v.len() > 0 && v[0] == '}' {
                Some((JsonV::Object(Seq::empty()), v.drop_first()))
            } else {
                read_members(u.drop_first(), Seq::empty(), (fuel - 1) as nat)
            }
        } else {
            match read_number(u) {
                Some((n, r)) => Some((JsonV::Number(n), r)),
                None => None,
            }
        }
    }
}

/// Reads the elements of a list after its `[`, or after a `,`, appending
/// them to `acc`, up to the closing `]`.
pub open spec fn read_items(t: Seq<char>, acc: Seq<JsonV>, fuel: nat) -> Option<(JsonV, Seq<char>)>
    decreases fuel,
{
    if fuel == 0 {
        None
    } else {
        match read_value(t, (fuel - 1) as nat) {
            Some((v, r)) => {
                let r2 = skip_ws(r);
                if r2.len() > 0 && r2[0] == ',' {
                    read_items(r2.drop_first(), acc.push(v), (fuel - 1) as nat)
                } else if r2.len() > 0 && r2[0] == ']' {
                    Some((JsonV::List(acc.push(v)), r2.drop_first()))
                } else {
                    None
                }
            },
            None => None,
        }
    }
}

/// Reads the members of an object after its `{`, or after a `,`, appending
/// them to `acc`, up to the closing `}`.
pub open spec fn read_members(t: Seq<char>, acc: Seq<(Seq<char>, JsonV)>, fuel: nat) -> Option<(JsonV, Seq<char>)>
    decreases fuel,
{
    if fuel == 0 {
        None
    } else {
        match read_string(skip_ws(t)) {
            Some((k, r)) => {
                let r1 = skip_ws(r);
                if r1.len() > 0 && r1[0] == ':' {
                    match read_value(r1.drop_first(), (fuel - 1) as nat) {
                        Some((v, r2)) => {
                            let r3 = skip_ws(r2);
                            if r3.len() > 0 && r3[0] == ',' {
                                read_members(r3.drop_first(), acc.push((k, v)), (fuel - 1) as nat)
                            } else if r3.len() > 0 && r3[0] == '}' {
                                Some((JsonV::Object(acc.push((k, v))), r3.drop_first()))
                            } else {
                                None
                            }
                        },
                        None => None,
                    }
                } else {
                    None
                }
            },
            None => None,
        }
    }
}

/// The elements after the first of a pretty list, each after `,`, a line
/// break and its indentation.
pub open spec fn items_text(m: Seq<JsonV>, ind: Seq<char>) -> Seq<char>
    decreases m.len(),
{
    if m.len() == 0 {
        Seq::empty()
    } else {
        seq![',', '\n'] + ind + two_spaces() + pretty(m[0], ind + two_spaces()) + items_text(m.drop_first(), ind)
    }
}

/// The members after the first of a pretty object, each after `,`, a line
/// break and its indentation.
pub open spec fn members_text(o: Seq<(Seq<char>, JsonV)>, ind: Seq<char>) -> Seq<char>
    decreases o.len(),
{
    if o.len() == 0 {
        Seq::empty()
    } else {
        seq![',', '\n'] + ind + two_spaces() + quoted(o[0].0) + seq![':', ' '] + pretty(o[0].1, ind + two_spaces())
            + members_text(o.drop_first(), ind)
    }
}

pub open spec fn all_spaces(s: Seq<char>) -> bool {
    forall|i: int| 0 <= i < s.len() ==> #[trigger] s[i] == ' '
}

/// Text that may follow a value inside a pretty document.
pub open spec fn ends_ok(rest: Seq<char>) -> bool {
    rest.len() == 0 || rest[0] == ',' || rest[0] == '\n'
}

proof fn lemma_skip_spaces(w: Seq<char>, t: Seq<char>)
    requires
        forall|i: int| 0 <= i < w.len() ==> #[trigger] is_ws(w[i]),
    ensures
        skip_ws(w + t) == skip_ws(t),
    decreases w.len(),
{
    if w.len() > 0 {
        assert((w + t)[0] == w[0]);
        assert((w + t).drop_first() =~= w.drop_first() + t);
        assert forall|i: int| 0 <= i < w.drop_first().len() implies #[trigger] is_ws(w.drop_first()[i]) by {
            assert(is_ws(w[i + 1]));
        }
        lemma_skip_spaces(w.drop_first(), t);
    } else {
        assert(w + t =~= t);
    }
}

proof fn lemma_items_back(m: Seq<JsonV>, ind: Seq<char>)
    requires
        m.len() > 0,
    ensures
        items_text(m, ind) == items_text(m.drop_last(), ind) + seq![',', '\n'] + ind + two_spaces() + pretty(
            m.last(),
            ind + two_spaces(),
        ),
    decreases m.len(),
{
    if m.len() == 1 {
        assert(items_text(m.drop_first(), ind) =~= Seq::<char>::empty());
        assert(items_text(m.drop_last(), ind) =~= Seq::<char>::empty());
        assert(m.last() == m[0]);
    } else {
        lemma_items_back(m.drop_first(), ind);
        assert(m.drop_first().drop_last() =~= m.drop_last().drop_first());
        assert(m.drop_last()[0] == m[0]);
        assert(m.drop_first().last() == m.last());
    }
}

proof fn lemma_list_body_front(l: Seq<JsonV>, ind: Seq<char>)
    requires
        l.len() > 0,
    ensures
        list_body(l, ind) == ind + two_spaces() + pretty(l[0], ind + two_spaces()) + items_text(l.drop_first(), ind),
    decreases l.len(),
{
    if l.len() == 1 {
        assert(items_text(l.drop_first(), ind) =~= Seq::<char>::empty());
    } else {
        lemma_list_body_front(l.drop_last(), ind);
        lemma_items_back(l.drop_first(), ind);
        assert(l.drop_last().drop_first() =~= l.drop_first().drop_last());
        assert(l.drop_last()[0] == l[0]);
        assert(l.drop_first().last() == l.last());
    }
}

proof fn lemma_members_back(o: Seq<(Seq<char>, JsonV)>, ind: Seq<char>)
    requires
        o.len() > 0,
    ensures
        members_text(o, ind) == members_text(o.drop_last(), ind) + seq![',', '\n'] + ind + two_spaces() + quoted(
            o.last().0,
        ) + seq![':', ' '] + pretty(o.last().1, ind + two_spaces()),
    decreases o.len(),
{
    if o.len() == 1 {
        assert(members_text(o.drop_first(), ind) =~= Seq::<char>::empty());
        assert(members_text(o.drop_last(), ind) =~= Seq::<char>::empty());
        assert(o.last() == o[0]);
    } else {
        lemma_members_back(o.drop_first(), ind);
        assert(o.drop_first().drop_last() =~= o.drop_last().drop_first());
        assert(o.drop_last()[0] == o[0]);
        assert(o.drop_first().last() == o.last());
    }
}

proof fn lemma_object_body_front(o: Seq<(Seq<char>, JsonV)>, ind: Seq<char>)
    requires
        o.len() > 0,
    ensures
        object_body(o, ind) == ind + two_spaces() + quoted(o[0].0) + seq![':', ' '] + pretty(o[0].1, ind + two_spaces())
            + members_text(o.drop_first(), ind),
    decreases o.len(),
{
    if o.len() == 1 {
        assert(members_text(o.drop_first(), ind) =~= Seq::<char>::empty());
    } else {
        lemma_object_body_front(o.drop_last(), ind);
        lemma_members_back(o.drop_first(), ind);
        assert(o.drop_last().drop_first() =~= o.drop_first().drop_last());
        assert(o.drop_last()[0] == o[0]);
        assert(o.drop_first().last() == o.last());
    }
}

proof fn lemma_digit_chars(d: int)
    requires
        0 <= d < 10,
    ensures
        is_digit(digit_char(d)),
        digit_char(d) as int - '0' as int == d,
{
}

proof fn lemma_nat_text_digits(n: nat)
    ensures
        nat_text(n).len() > 0,
        forall|i: int| 0 <= i < nat_text(n).len() ==> #[trigger] is_digit(nat_text(n)[i]),
        digits_value(nat_text(n)) == n,
    decreases n,
{
    if n < 10 {
        lemma_digit_chars(n as int);
        assert(nat_text(n).drop_last() =~= Seq::<char>::empty());
        assert(digits_value(Seq::<char>::empty()) == 0);
        assert(digits_value(nat_text(n)) == digits_value(nat_text(n).drop_last()) * 10 + (digit_char(n as int) as int - '0' as int));
    } else {
        lemma_nat_text_digits(n / 10);
        lemma_digit_chars((n % 10) as int);
        let t = nat_text(n);
        assert(t.drop_last() =~= nat_text(n / 10));
        assert(t.last() == digit_char((n % 10) as int));
        assert forall|i: int| 0 <= i < t.len() implies #[trigger] is_digit(t[i]) by {
            if i < nat_text(n / 10).len() {
                assert(t[i] == nat_text(n / 10)[i]);
            }
        }
        assert((n / 10) * 10 + n % 10 == n) by (nonlinear_arith);
        assert(digits_value(t) == digits_value(t.drop_last()) * 10 + (t.last() as int - '0' as int));
    }
}

proof fn lemma_digit_run(d: Seq<char>, rest: Seq<char>)
    requires
        forall|i: int| 0 <= i < d.len() ==> #[trigger] is_digit(d[i]),
        rest.len() == 0 || !is_digit(rest[0]),
    ensures
        digit_run(d + rest) == d.len(),
    decreases d.len(),
{
    if d.len() == 0 {
        assert(d + rest =~= rest);
    } else {
        assert((d + rest)[0] == d[0]);
        assert((d + rest).drop_first() =~= d.drop_first() + rest);
        assert forall|i: int| 0 <= i < d.drop_first().len() implies #[trigger] is_digit(d.drop_first()[i]) by {
            assert(is_digit(d[i + 1]));
        }
        lemma_digit_run(d.drop_first(), rest);
    }
}

proof fn lemma_nat_reads_back(n: nat, rest: Seq<char>)
    requires
        rest.len() == 0 || !is_digit(rest[0]),
    ensures
        read_nat(nat_text(n) + rest) == Some((n as int, rest)),
        is_digit((nat_text(n) + rest)[0]),
{
    lemma_nat_text_digits(n);
    lemma_digit_run(nat_text(n), rest);
    let t = nat_text(n) + rest;
    assert(t.take(nat_text(n).len() as int) =~= nat_text(n));
    assert(t.skip(nat_text(n).len() as int) =~= rest);
    assert(t[0] == nat_text(n)[0]);
}

proof fn lemma_pretty_starts(j: JsonV, ind: Seq<char>)
    ensures
        pretty(j, ind).len() > 0,
        !is_ws(pretty(j, ind)[0]),
        pretty(j, ind)[0] != ']' && pretty(j, ind)[0] != '}',
{
    match j {
        JsonV::Number(n) => {
            if n < 0 {
                lemma_nat_text_digits((-n) as nat);
            } else {
                lemma_nat_text_digits(n as nat);
                assert(is_digit(nat_text(n as nat)[0]));
            }
        },
        _ => {},
    }
}

proof fn lemma_spaces_ws(ind: Seq<char>)
    requires
        all_spaces(ind),
    ensures
        forall|i: int| 0 <= i < ind.len() ==> #[trigger] is_ws(ind[i]),
        all_spaces(ind + two_spaces()),
        forall|i: int| 0 <= i < (seq!['\n'] + ind + two_spaces()).len() ==> #[trigger] is_ws((seq!['\n'] + ind + two_spaces())[i]),
        forall|i: int| 0 <= i < (seq!['\n'] + ind).len() ==> #[trigger] is_ws((seq!['\n'] + ind)[i]),
{
    assert forall|i: int| 0 <= i < (ind + two_spaces()).len() implies #[trigger] (ind + two_spaces())[i] == ' ' by {
        if i < ind.len() {
            assert((ind + two_spaces())[i] == ind[i]);
        }
    }
    assert forall|i: int| 0 <= i < (seq!['\n'] + ind + two_spaces()).len() implies #[trigger] is_ws(
        (seq!['\n'] + ind + two_spaces())[i],
    ) by {
        if i > 0 {
            assert((seq!['\n'] + ind + two_spaces())[i] == (ind + two_spaces())[i - 1]);
        }
    }
    assert forall|i: int| 0 <= i < (seq!['\n'] + ind).len() implies #[trigger] is_ws((seq!['\n'] + ind)[i]) by {
        if i > 0 {
            assert((seq!['\n'] + ind)[i] == ind[i - 1]);
        }
    }
}

proof fn lemma_read_value_skips(w: Seq<char>, t: Seq<char>, fuel: nat)
    requires
        forall|i: int| 0 <= i < w.len() ==> #[trigger] is_ws(w[i]),
    ensures
        read_value(w + t, fuel) == read_value(t, fuel),
{
    lemma_skip_spaces(w, t);
}

proof fn lemma_atom_reads_back(j: JsonV, ind: Seq<char>, rest: Seq<char>, f: nat)
    requires
        f >= 1,
        ends_ok(rest),
        !(j is List),
        !(j is Object),
    ensures
        read_value(pretty(j, ind) + rest, f) == Some((j, rest)),
{
    let t = pretty(j, ind) + rest;
    lemma_pretty_starts(j, ind);
    assert(t[0] == pretty(j, ind)[0]);
    assert(skip_ws(t) == t);
    match j {
        JsonV::Null => {
            assert(t.take(4) =~= seq!['n', 'u', 'l', 'l']);
            assert(t.skip(4) =~= rest);
        },
        JsonV::Boolean(b) => {
            if b {
                assert(t.take(4) =~= seq!['t', 'r', 'u', 'e']);
                assert(t.skip(4) =~= rest);
            } else {
                assert(t.take(5) =~= seq!['f', 'a', 'l', 's', 'e']);
                assert(t.skip(5) =~= rest);
            }
        },
        JsonV::Number(n) => {
            if n < 0 {
                lemma_nat_reads_back((-n) as nat, rest);
                assert(t =~= seq!['-'] + (nat_text((-n) as nat) + rest));
                assert(t.drop_first() =~= nat_text((-n) as nat) + rest);
            } else {
                lemma_nat_reads_back(n as nat, rest);
            }
        },
        JsonV::Str(s) => {
            lemma_quoted_reads_back(s, rest);
        },
        _ => {},
    }
}

proof fn lemma_read_open(u: Seq<char>, f: nat)
    requires
        f >= 1,
        u.len() > 0,
        u[0] == '[' || u[0] == '{',
        skip_ws(u.drop_first()).len() > 0,
        skip_ws(u.drop_first())[0] != ']',
        skip_ws(u.drop_first())[0] != '}',
    ensures
        u[0] == '[' ==> read_value(u, f) == read_items(u.drop_first(), Seq::empty(), (f - 1) as nat),
        u[0] == '{' ==> read_value(u, f) == read_members(u.drop_first(), Seq::empty(), (f - 1) as nat),
{
    assert(skip_ws(u) == u);
}

proof fn lemma_read_empty(rest: Seq<char>, f: nat)
    requires
        f >= 1,
    ensures
        read_value(seq!['[', ']'] + rest, f) == Some((JsonV::List(Seq::empty()), rest)),
        read_value(seq!['{', '}'] + rest, f) == Some((JsonV::Object(Seq::empty()), rest)),
{
    let a = seq!['[', ']'] + rest;
    let b = seq!['{', '}'] + rest;
    assert(skip_ws(a) == a);
    assert(skip_ws(b) == b);
    assert(a.drop_first() =~= seq![']'] + rest);
    assert(b.drop_first() =~= seq!['}'] + rest);
    assert(skip_ws(seq![']'] + rest) == seq![']'] + rest);
    assert(skip_ws(seq!['}'] + rest) == seq!['}'] + rest);
    assert((seq![']'] + rest).drop_first() =~= rest);
    assert((seq!['}'] + rest).drop_first() =~= rest);
}

proof fn lemma_read_items_next(t: Seq<char>, acc: Seq<JsonV>, f: nat, v: JsonV, r: Seq<char>)
    requires
        f >= 1,
        read_value(t, (f - 1) as nat) == Some((v, r)),
        r.len() > 0,
        r[0] == ',',
    ensures
        read_items(t, acc, f) == read_items(r.drop_first(), acc.push(v), (f - 1) as nat),
{
    assert(skip_ws(r) == r);
}

proof fn lemma_read_items_last(t: Seq<char>, acc: Seq<JsonV>, f: nat, v: JsonV, r: Seq<char>, rest: Seq<char>)
    requires
        f >= 1,
        read_value(t, (f - 1) as nat) == Some((v, r)),
        skip_ws(r) == seq![']'] + rest,
    ensures
        read_items(t, acc, f) == Some((JsonV::List(acc.push(v)), rest)),
{
    assert((seq![']'] + rest).drop_first() =~= rest);
}

proof fn lemma_read_members_next(
    t: Seq<char>,
    acc: Seq<(Seq<char>, JsonV)>,
    f: nat,
    k: Seq<char>,
    r: Seq<char>,
    v: JsonV,
    r2: Seq<char>,
)
    requires
        f >= 1,
        read_string(skip_ws(t)) == Some((k, r)),
        skip_ws(r) == r,
        r.len() > 0,
        r[0] == ':',
        read_value(r.drop_first(), (f - 1) as nat) == Some((v, r2)),
        r2.len() > 0,
        r2[0] == ',',
    ensures
        read_members(t, acc, f) == read_members(r2.drop_first(), acc.push((k, v)), (f - 1) as nat),
{
    assert(skip_ws(r2) == r2);
}

proof fn lemma_read_members_last(
    t: Seq<char>,
    acc: Seq<(Seq<char>, JsonV)>,
    f: nat,
    k: Seq<char>,
    r: Seq<char>,
    v: JsonV,
    r2: Seq<char>,
    rest: Seq<char>,
)
    requires
        f >= 1,
        read_string(skip_ws(t)) == Some((k, r)),
        skip_ws(r) == r,
        r.len() > 0,
        r[0] == ':',
        read_value(r.drop_first(), (f - 1) as nat) == Some((v, r2)),
        skip_ws(r2) == seq!['}'] + rest,
    ensures
        read_members(t, acc, f) == Some((JsonV::Object(acc.push((k, v))), rest)),
{
    assert((seq!['}'] + rest).drop_first() =~= rest);
}

/// Reading the elements of a pretty list from the line break before one of
/// them gives them all, appended to what was read before.
proof fn lemma_items_read_back(m: Seq<JsonV>, ind: Seq<char>, rest: Seq<char>, acc: Seq<JsonV>) -> (f0: nat)
    requires
        m.len() > 0,
        all_spaces(ind),
    ensures
        forall|f: nat| f0 <= f ==> read_items(
            seq!['\n'] + ind + two_spaces() + pretty(m[0], ind + two_spaces()) + items_text(m.drop_first(), ind)
                + seq!['\n'] + ind + seq![']'] + rest,
            acc,
            f,
        ) == Some((JsonV::List(acc + m), rest)),
    decreases m,
{
    let ind2 = ind + two_spaces();
    lemma_spaces_ws(ind);
    let tm = m.subrange(1, m.len() as int);
    assert(tm =~= m.drop_first());
    let tail = items_text(tm, ind) + seq!['\n'] + ind + seq![']'] + rest;
    let ws = seq!['\n'] + ind2;
    let x = m[0];
    let t = seq!['\n'] + ind + two_spaces() + pretty(x, ind2) + items_text(m.drop_first(), ind) + seq!['\n'] + ind
        + seq![']'] + rest;
    assert(t =~= ws + (pretty(x, ind2) + tail));
    if tm.len() > 0 {
        assert(items_text(tm, ind) =~= seq![',', '\n'] + ind + two_spaces() + pretty(tm[0], ind2) + items_text(
            tm.drop_first(),
            ind,
        ));
        assert(tail[0] == ',');
        let fe = lemma_pretty_reads_back(x, ind2, tail);
        let fr = lemma_items_read_back(tm, ind, rest, acc.push(x));
        assert(acc.push(x) + tm =~= acc + m);
        assert(tail.drop_first() =~= seq!['\n'] + ind + two_spaces() + pretty(tm[0], ind2) + items_text(
            tm.drop_first(),
            ind,
        ) + seq!['\n'] + ind + seq![']'] + rest);
        let f0 = 1 + if fe > fr {
            fe
        } else {
            fr
        };
        assert forall|f: nat| f0 <= f implies read_items(t, acc, f) == Some((JsonV::List(acc + m), rest)) by {
            lemma_read_value_skips(ws, pretty(x, ind2) + tail, (f - 1) as nat);
            lemma_read_items_next(t, acc, f, x, tail);
        }
        f0
    } else {
        assert(items_text(tm, ind) =~= Seq::<char>::empty());
        assert(tail =~= (seq!['\n'] + ind) + (seq![']'] + rest));
        assert(tail[0] == '\n');
        let fe = lemma_pretty_reads_back(x, ind2, tail);
        lemma_skip_spaces(seq!['\n'] + ind, seq![']'] + rest);
        assert(skip_ws(seq![']'] + rest) == seq![']'] + rest);
        assert(acc.push(x) =~= acc + m);
        let f0 = 1 + fe;
        assert forall|f: nat| f0 <= f implies read_items(t, acc, f) == Some((JsonV::List(acc + m), rest)) by {
            lemma_read_value_skips(ws, pretty(x, ind2) + tail, (f - 1) as nat);
            lemma_read_items_last(t, acc, f, x, tail, rest);
        }
        f0
    }
}

/// Reading the members of a pretty object from the line break before one
/// of them gives them all, appended to what was read before.
proof fn lemma_members_read_back(
    o: Seq<(Seq<char>, JsonV)>,
    ind: Seq<char>,
    rest: Seq<char>,
    acc: Seq<(Seq<char>, JsonV)>,
) -> (f0: nat)
    requires
        o.len() > 0,
        all_spaces(ind),
    ensures
        forall|f: nat| f0 <= f ==> read_members(
            seq!['\n'] + ind + two_spaces() + quoted(o[0].0) + seq![':', ' '] + pretty(o[0].1, ind + two_spaces())
                + members_text(o.drop_first(), ind) + seq!['\n'] + ind + seq!['}'] + rest,
            acc,
            f,
        ) == Some((JsonV::Object(acc + o), rest)),
    decreases o,
{
    let ind2 = ind + two_spaces();
    lemma_spaces_ws(ind);
    let to = o.subrange(1, o.len() as int);
    assert(to =~= o.drop_first());
    let tail = members_text(to, ind) + seq!['\n'] + ind + seq!['}'] + rest;
    let ws = seq!['\n'] + ind2;
    let k = o[0].0;
    let x = o[0].1;
    let after_key = seq![':', ' '] + pretty(x, ind2) + tail;
    let t = seq!['\n'] + ind + two_spaces() + quoted(k) + seq![':', ' '] + pretty(x, ind2) + members_text(
        o.drop_first(),
        ind,
    ) + seq!['\n'] + ind + seq!['}'] + rest;
    assert(t =~= ws + (quoted(k) + after_key));
    lemma_skip_spaces(ws, quoted(k) + after_key);
    assert(skip_ws(quoted(k) + after_key) == quoted(k) + after_key);
    lemma_quoted_reads_back(k, after_key);
    assert(skip_ws(after_key) == after_key);
    assert(after_key.drop_first() =~= seq![' '] + (pretty(x, ind2) + tail));
    assert((k, x) == o[0]);
    if to.len() > 0 {
        assert(members_text(to, ind) =~= seq![',', '\n'] + ind + two_spaces() + quoted(to[0].0) + seq![':', ' ']
            + pretty(to[0].1, ind2) + members_text(to.drop_first(), ind));
        assert(tail[0] == ',');
        let fe = lemma_pretty_reads_back(x, ind2, tail);
        let fr = lemma_members_read_back(to, ind, rest, acc.push((k, x)));
        assert(acc.push((k, x)) + to =~= acc + o);
        assert(tail.drop_first() =~= seq!['\n'] + ind + two_spaces() + quoted(to[0].0) + seq![':', ' '] + pretty(
            to[0].1,
            ind2,
        ) + members_text(to.drop_first(), ind) + seq!['\n'] + ind + seq!['}'] + rest);
        let f0 = 1 + if fe > fr {
            fe
        } else {
            fr
        };
        assert forall|f: nat| f0 <= f implies read_members(t, acc, f) == Some((JsonV::Object(acc + o), rest)) by {
            lemma_read_value_skips(seq![' '], pretty(x, ind2) + tail, (f - 1) as nat);
            lemma_read_members_next(t, acc, f, k, after_key, x, tail);
        }
        f0
    } else {
        assert(members_text(to, ind) =~= Seq::<char>::empty());
        assert(tail =~= (seq!['\n'] + ind) + (seq!['}'] + rest));
        assert(tail[0] == '\n');
        let fe = lemma_pretty_reads_back(x, ind2, tail);
        lemma_skip_spaces(seq!['\n'] + ind, seq!['}'] + rest);
        assert(skip_ws(seq!['}'] + rest) == seq!['}'] + rest);
        assert(acc.push((k, x)) =~= acc + o);
        let f0 = 1 + fe;
        assert forall|f: nat| f0 <= f implies read_members(t, acc, f) == Some((JsonV::Object(acc + o), rest)) by {
            lemma_read_value_skips(seq![' '], pretty(x, ind2) + tail, (f - 1) as nat);
            lemma_read_members_last(t, acc, f, k, after_key, x, tail, rest);
        }
        f0
    }
}

/// Reading back the pretty text of a value, indented by spaces and followed
/// by what may follow a value in a document, gives the value again.
#[verifier::spinoff_prover]
#[verifier::rlimit(60)]
proof fn lemma_pretty_reads_back(j: JsonV, ind: Seq<char>, rest: Seq<char>) -> (f0: nat)
    requires
        all_spaces(ind),
        ends_ok(rest),
    ensures
        forall|f: nat| f0 <= f ==> read_value(pretty(j, ind) + rest, f) == Some((j, rest)),
    decreases j,
{
    let t = pretty(j, ind) + rest;
    let ind2 = ind + two_spaces();
    match j {
        JsonV::List(l) => {
            if l.len() == 0 {
                assert(t =~= seq!['[', ']'] + rest);
                assert(l =~= Seq::<JsonV>::empty());
                assert forall|f: nat| 1 <= f implies read_value(t, f) == Some((j, rest)) by {
                    lemma_read_empty(rest, f);
                }
                1
            } else {
                lemma_spaces_ws(ind);
                lemma_list_body_front(l, ind);
                let fi = lemma_items_read_back(l, ind, rest, Seq::empty());
                let body = pretty(l[0], ind2) + items_text(l.drop_first(), ind) + seq!['\n'] + ind + seq![']'] + rest;
                let inner = seq!['\n'] + ind + two_spaces() + pretty(l[0], ind2) + items_text(l.drop_first(), ind)
                    + seq!['\n'] + ind + seq![']'] + rest;
                assert(t =~= seq!['['] + inner);
                assert(t.drop_first() =~= inner);
                assert(Seq::<JsonV>::empty() + l =~= l);
                assert(inner =~= (seq!['\n'] + ind2) + body);
                lemma_skip_spaces(seq!['\n'] + ind2, body);
                lemma_pretty_starts(l[0], ind2);
                assert(body[0] == pretty(l[0], ind2)[0]);
                assert(skip_ws(body) == body);
                assert forall|f: nat| 1 + fi <= f implies read_value(t, f) == Some((j, rest)) by {
                    lemma_read_open(t, f);
                }
                1 + fi
            }
        },
        JsonV::Object(o) => {
            if o.len() == 0 {
                assert(t =~= seq!['{', '}'] + rest);
                assert(o =~= Seq::<(Seq<char>, JsonV)>::empty());
                assert forall|f: nat| 1 <= f implies read_value(t, f) == Some((j, rest)) by {
                    lemma_read_empty(rest, f);
                }
                1
            } else {
                lemma_spaces_ws(ind);
                lemma_object_body_front(o, ind);
                let fi = lemma_members_read_back(o, ind, rest, Seq::empty());
                let body = quoted(o[0].0) + seq![':', ' '] + pretty(o[0].1, ind2) + members_text(o.drop_first(), ind)
                    + seq!['\n'] + ind + seq!['}'] + rest;
                let inner = seq!['\n'] + ind + two_spaces() + quoted(o[0].0) + seq![':', ' '] + pretty(o[0].1, ind2)
                    + members_text(o.drop_first(), ind) + seq!['\n'] + ind + seq!['}'] + rest;
                assert(t =~= seq!['{'] + inner);
                assert(t.drop_first() =~= inner);
                assert(Seq::<(Seq<char>, JsonV)>::empty() + o =~= o);
                assert(inner =~= (seq!['\n'] + ind2) + body);
                lemma_skip_spaces(seq!['\n'] + ind2, body);
                assert(body[0] == '"');
                assert(skip_ws(body) == body);
                assert forall|f: nat| 1 + fi <= f implies read_value(t, f) == Some((j, rest)) by {
                    lemma_read_open(t, f);
                }
                1 + fi
            }
        },
        _ => {
            assert forall|f: nat| 1 <= f implies read_value(t, f) == Some((j, rest)) by {
                lemma_atom_reads_back(j, ind, rest, f);
            }
            1
        },
    }
}


/// Reading back the pretty text of any JSON document with a JSON reader
/// gives the document again, with nothing left over: strings come back with
/// every character they held (quotes, backslashes and control characters
/// included), numbers with their value, lists and objects with their
/// elements and members in order.  The reader needs some number of nested
/// steps, and any number beyond that does as well.
pub proof fn lemma_doc_text_reads_back(j: JsonV) -> (f0: nat)
    ensures
        forall|f: nat| f0 <= f ==> read_value(doc_text(j), f) == Some((j, Seq::<char>::empty())),
{
    let e: Seq<char> = Seq::empty();
    assert(all_spaces(e));
    let f0 = lemma_pretty_reads_back(j, e, e);
    assert(pretty(j, e) + e =~= doc_text(j));
    f0
}

// ---------------------------------------------------------------------------
// Writing the text
// ---------------------------------------------------------------------------

/// The characters of a string, in order.
pub(crate) fn string_chars(s: &String) -> (r: Vec<char>)
    ensures
        r@ == s@,
{
    broadcast use vstd::string::axiom_spec_iter;
    let mut r: Vec<char> = Vec::new();
    for c in it: s.as_str().chars()
        invariant
            r@ == it.seq().take(it.index()),
    {
        r.push(c);
    }
    assert(r@ =~= s@);
    r
}

/// `String::push`: appends one character.
#[verifier::external_body]
fn push_char(s: &mut String, c: char)
    ensures
        final(s)@ == old(s)@.push(c),
{
    s.push(c);
}

/// A string made of the given characters.
pub(crate) fn chars_to_string(v: &Vec<char>) -> (r: String)
    ensures
        r@ == v@,
{
    let mut r = String::new();
    let mut i: usize = 0;
    while i < v.len()
        invariant
            i <= v@.len(),
            r@ == v@.take(i as int),
        decreases v@.len() - i,
    {
        push_char(&mut r, v[i]);
        i = i + 1;
        assert(r@ =~= v@.take(i as int));
    }
    assert(v@.take(v@.len() as int) =~= v@);
    r
}

fn digit(d: u64) -> (c: char)
    requires
        d < 10,
    ensures
        c == digit_char(d as int),
{
    if d == 0 {
        '0'
    } else if d == 1 {
        '1'
    } else if d == 2 {
        '2'
    } else if d == 3 {
        '3'
    } else if d == 4 {
        '4'
    } else if d == 5 {
        '5'
    } else if d == 6 {
        '6'
    } else if d == 7 {
        '7'
    } else if d == 8 {
        '8'
    } else {
        '9'
    }
}

fn hex_digit(d: u32) -> (c: char)
    requires
        d < 16,
    ensures
        c == hex_char(d as int),
{
    if d < 10 {
        digit(d as u64)
    } else if d == 10 {
        'a'
    } else if d == 11 {
        'b'
    } else if d == 12 {
        'c'
    } else if d == 13 {
        'd'
    } else if d == 14 {
        'e'
    } else {
        'f'
    }
}

pub(crate) fn push_all(out: &mut Vec<char>, s: &Vec<char>)
    ensures
        final(out)@ == old(out)@ + s@,
{
    let mut i: usize = 0;
    while i < s.len()
        invariant
            i <= s@.len(),
            out@ == old(out)@ + s@.take(i as int),
        decreases s@.len() - i,
    {
        out.push(s[i]);
        i = i + 1;
        assert(s@.take(i as int) =~= s@.take(i - 1) + seq![s@[i - 1]]);
    }
    assert(s@.take(s@.len() as int) =~= s@);
}

fn write_nat(n: u64, out: &mut Vec<char>)
    ensures
        final(out)@ == old(out)@ + nat_text(n as nat),
    decreases n,
{
    if n >= 10 {
        write_nat(n / 10, out);
    }
    out.push(digit(n % 10));
    assert(out@ =~= old(out)@ + nat_text(n as nat));
}

pub(crate) fn write_int(n: i64, out: &mut Vec<char>)
    ensures
        final(out)@ == old(out)@ + int_text(n as int),
{
    if n < 0 {
        out.push('-');
        let m: u64 = (0i128 - n as i128) as u64;
        write_nat(m, out);
        assert(out@ =~= old(out)@ + int_text(n as int));
    } else {
        write_nat(n as u64, out);
    }
}

fn write_escaped_char(c: char, out: &mut Vec<char>)
    ensures
        final(out)@ == old(out)@ + escape_char(c),
{
    let code: u32 = c as u32;
    if c == '"' {
        out.push('\\');
        out.push('"');
    } else if c == '\\' {
        out.push('\\');
        out.push('\\');
    } else if c == '\n' {
        out.push('\\');
        out.push('n');
    } else if c == '\r' {
        out.push('\\');
        out.push('r');
    } else if c == '\t' {
        out.push('\\');
        out.push('t');
    } else if code == 8 {
        out.push('\\');
        out.push('b');
    } else if code == 12 {
        out.push('\\');
        out.push('f');
    } else if code < 32 {
        out.push('\\');
        out.push('u');
        out.push('0');
        out.push('0');
        out.push(hex_digit(code / 16));
        out.push(hex_digit(code % 16));
    } else {
        out.push(c);
    }
    assert(out@ =~= old(out)@ + escape_char(c));
}

fn write_quoted(s: &String, out: &mut Vec<char>)
    ensures
        final(out)@ == old(out)@ + quoted(s@),
{
    let cs = string_chars(s);
    out.push('"');
    let ghost start = out@;
    let mut i: usize = 0;
    while i < cs.len()
        invariant
            i <= cs@.len(),
            cs@ == s@,
            out@ == start + escape_text(cs@.take(i as int)),
        decreases cs@.len() - i,
    {
        write_escaped_char(cs[i], out);
        i = i + 1;
        assert(cs@.take(i as int).drop_last() =~= cs@.take(i - 1));
    }
    assert(cs@.take(cs@.len() as int) =~= cs@);
    out.push('"');
    assert(out@ =~= old(out)@ + quoted(s@));
}

fn write_pretty(j: &Json, ind: &Vec<char>, out: &mut Vec<char>)
    ensures
        final(out)@ == old(out)@ + pretty(j@, ind@),
    decreases j,
{
    match j {
        Json::Null => {
            out.push('n');
            out.push('u');
            out.push('l');
            out.push('l');
            assert(out@ =~= old(out)@ + pretty(j@, ind@));
        },
        Json::Boolean(b) => {
            if *b {
                out.push('t');
                out.push('r');
                out.push('u');
                out.push('e');
            } else {
                out.push('f');
                out.push('a');
                out.push('l');
                out.push('s');
                out.push('e');
            }
            assert(out@ =~= old(out)@ + pretty(j@, ind@));
        },
        Json::Number(n) => {
            write_int(*n, out);
        },
        Json::String(s) => {
            write_quoted(s, out);
        },
        Json::List(v) => {
            if v.len() == 0 {
                out.push('[');
                out.push(']');
                assert(out@ =~= old(out)@ + pretty(j@, ind@));
            } else {
                let ghost l = list_view(v@);
                let mut inner = ind.clone();
                inner.push(' ');
                inner.push(' ');
                assert(inner@ =~= ind@ + two_spaces());
                out.push('[');
                out.push('\n');
                let ghost start = out@;
                let mut i: usize = 0;
                while i < v.len()
                    invariant
                        i <= v@.len(),
                        l == list_view(v@),
                        inner@ == ind@ + two_spaces(),
                        out@ == start + list_body(l.take(i as int), ind@),
                        decreases_to!(*j => *v),
                    decreases v@.len() - i,
                {
                    proof {
                        assert(decreases_to!(*v => v@[i as int]));
                        assert(decreases_to!(*j => v@[i as int]));
                    }
                    if i > 0 {
                        out.push(',');
                        out.push('\n');
                    }
                    push_all(out, &inner);
                    write_pretty(&v[i], &inner, out);
                    i = i + 1;
                    proof {
                        let t = l.take(i as int);
                        assert(t.last() == json_view(v@[i - 1]));
                        if i > 1 {
                            assert(t.drop_last() =~= l.take(i - 1));
                        } else {
                            assert(t.len() == 1);
                        }
                        assert(out@ =~= start + list_body(l.take(i as int), ind@));
                    }
                }
                assert(l.take(v@.len() as int) =~= l);
                out.push('\n');
                push_all(out, ind);
                out.push(']');
                assert(out@ =~= old(out)@ + pretty(j@, ind@));
            }
        },
        Json::Object(o) => {
            let e = o.as_entries();
            if e.len() == 0 {
                out.push('{');
                out.push('}');
                assert(out@ =~= old(out)@ + pretty(j@, ind@));
            } else {
                let ghost m = o@;
                let mut inner = ind.clone();
                inner.push(' ');
                inner.push(' ');
                assert(inner@ =~= ind@ + two_spaces());
                out.push('{');
                out.push('\n');
                let ghost start = out@;
                let mut i: usize = 0;
                while i < e.len()
                    invariant
                        i <= e@.len(),
                        m == entries_view(e@),
                        inner@ == ind@ + two_spaces(),
                        out@ == start + object_body(m.take(i as int), ind@),
                        decreases_to!(*j => *o),
                        forall|k: int| 0 <= k < e@.len() ==> decreases_to!(*o => #[trigger] e@[k].1),
                    decreases e@.len() - i,
                {
                    proof {
                        assert(decreases_to!(*o => e@[i as int].1));
                        assert(decreases_to!(*j => e@[i as int].1));
                    }
                    if i > 0 {
                        out.push(',');
                        out.push('\n');
                    }
                    push_all(out, &inner);
                    write_quoted(&e[i].0, out);
                    out.push(':');
                    out.push(' ');
                    write_pretty(&e[i].1, &inner, out);
                    i = i + 1;
                    proof {
                        let t = m.take(i as int);
                        assert(t.last() == (e@[i - 1].0@, json_view(e@[i - 1].1)));
                        if i > 1 {
                            assert(t.drop_last() =~= m.take(i - 1));
                        } else {
                            assert(t.len() == 1);
                        }
                        assert(out@ =~= start + object_body(m.take(i as int), ind@));
                    }
                }
                assert(m.take(e@.len() as int) =~= m);
                out.push('\n');
                push_all(out, ind);
                out.push('}');
                assert(out@ =~= old(out)@ + pretty(j@, ind@));
            }
        },
    }
}

impl Json {
    /// The pretty text of this value.
    pub fn to_text(&self) -> (r: String)
        ensures
            r@ == doc_text(self@),
    {
        let mut out: Vec<char> = Vec::new();
        let ind: Vec<char> = Vec::new();
        write_pretty(self, &ind, &mut out);
        assert(out@ =~= doc_text(self@));
        chars_to_string(&out)
    }

    /// The UTF-8 bytes of the pretty text of this value.
    pub fn to_bytes(&self) -> (r: Vec<u8>)
        ensures
            r@ == encode_utf8(doc_text(self@)),
    {
        let t = self.to_text();
        t.as_str().as_bytes_vec()
    }
}

} // verus!
