//! The JSON text form of the handshake control frames.
//!
//! The emitter writes the canonical form — objects, arrays, strings,
//! number lexemes, `true`, `false` and `null`, with no whitespace
//! between tokens, escaping `"` and `\` with a backslash and control
//! characters as `\u00XX`.  The parser accepts standard texts: any
//! insignificant whitespace between tokens, the short escapes `\/`,
//! `\b`, `\f`, `\n`, `\r` and `\t`, and any `\uXXXX` escape, a high
//! surrogate followed by a low one naming the combined scalar.  A text
//! outside the grammar is not a control frame: the protocol wrapper
//! degrades it to a raw frame.
//!
//! Number lexemes are carried verbatim and never interpreted: the
//! handshake reads only strings and arrays of strings, and any `data`
//! payload is echoed as it came.

use vstd::prelude::*;

verus! {

broadcast use vstd::seq::group_seq_axioms;

/// One JSON value; numbers keep their lexeme verbatim.
#[derive(Debug, PartialEq)]
pub enum JsonValue {
    Null,
    Bool(bool),
    Num(String),
    Str(String),
    Arr(Vec<JsonValue>),
    Obj(Vec<(String, JsonValue)>),
}

/// The mathematical model of a [`JsonValue`].
pub enum JsonModel {
    Null,
    Bool(bool),
    Num(Seq<char>),
    Str(Seq<char>),
    Arr(Seq<JsonModel>),
    Obj(Seq<(Seq<char>, JsonModel)>),
}

/// The model of a [`JsonValue`].
pub open spec fn jv_model(v: JsonValue) -> JsonModel
    decreases v,
{
    match v {
        JsonValue::Null => JsonModel::Null,
        JsonValue::Bool(b) => JsonModel::Bool(b),
        JsonValue::Num(s) => JsonModel::Num(s@),
        JsonValue::Str(s) => JsonModel::Str(s@),
        JsonValue::Arr(items) => JsonModel::Arr(jv_models(items@)),
        JsonValue::Obj(members) => JsonModel::Obj(jv_member_models(members@)),
    }
}

/// The models of a sequence of values, in order.
pub open spec fn jv_models(s: Seq<JsonValue>) -> Seq<JsonModel>
    decreases s,
{
    if s.len() == 0 {
        Seq::empty()
    } else {
        seq![jv_model(s[0])] + jv_models(s.subrange(1, s.len() as int))
    }
}

/// The models of a sequence of members, in order.
pub open spec fn jv_member_models(s: Seq<(String, JsonValue)>) -> Seq<(Seq<char>, JsonModel)>
    decreases s,
{
    if s.len() == 0 {
        Seq::empty()
    } else {
        seq![(s[0].0@, jv_model(s[0].1))] + jv_member_models(s.subrange(1, s.len() as int))
    }
}

impl View for JsonValue {
    type V = JsonModel;

    open spec fn view(&self) -> JsonModel {
        jv_model(*self)
    }
}

// ---------------------------------------------------------------------
// Serialization
// ---------------------------------------------------------------------

/// The lower-case hex digit for a nibble.
pub open spec fn hex_char(n: u8) -> char
    recommends
        n < 16,
{
    if n == 0 { '0' } else if n == 1 { '1' } else if n == 2 { '2' } else if n == 3 { '3' }
    else if n == 4 { '4' } else if n == 5 { '5' } else if n == 6 { '6' } else if n == 7 { '7' }
    else if n == 8 { '8' } else if n == 9 { '9' } else if n == 10 { 'a' } else if n == 11 { 'b' }
    else if n == 12 { 'c' } else if n == 13 { 'd' } else if n == 14 { 'e' } else { 'f' }
}

/// The escape of one character inside a JSON string literal.
pub open spec fn esc_char(c: char) -> Seq<char> {
    if c == '"' {
        seq!['\\', '"']
    } else if c == '\\' {
        seq!['\\', '\\']
    } else if (c as u32) < 0x20 {
        seq![
            '\\',
            'u',
            '0',
            '0',
            hex_char(((c as u32) / 16) as u8),
            hex_char(((c as u32) % 16) as u8),
        ]
    } else {
        seq![c]
    }
}

/// The escaped content of a JSON string literal.
pub open spec fn ser_chars(s: Seq<char>) -> Seq<char>
    decreases s.len(),
{
    if s.len() == 0 {
        Seq::empty()
    } else {
        esc_char(s[0]) + ser_chars(s.drop_first())
    }
}

/// A JSON string literal: quoted, escaped content.
pub open spec fn ser_string(s: Seq<char>) -> Seq<char> {
    seq!['"'] + ser_chars(s) + seq!['"']
}

/// The canonical text of a JSON value: no whitespace between tokens.
pub open spec fn ser_value(v: JsonModel) -> Seq<char>
    decreases v,
{
    match v {
        JsonModel::Null => seq!['n', 'u', 'l', 'l'],
        JsonModel::Bool(b) => if b {
            seq!['t', 'r', 'u', 'e']
        } else {
            seq!['f', 'a', 'l', 's', 'e']
        },
        JsonModel::Num(lex) => lex,
        JsonModel::Str(s) => ser_string(s),
        JsonModel::Arr(items) => seq!['['] + ser_items(items) + seq![']'],
        JsonModel::Obj(members) => seq!['{'] + ser_members(members) + seq!['}'],
    }
}

/// The comma-separated texts of array elements.
pub open spec fn ser_items(items: Seq<JsonModel>) -> Seq<char>
    decreases items,
{
    if items.len() == 0 {
        Seq::empty()
    } else if items.len() == 1 {
        ser_value(items[0])
    } else {
        ser_value(items[0]) + seq![','] + ser_items(items.drop_first())
    }
}

/// The comma-separated texts of object members.
pub open spec fn ser_members(members: Seq<(Seq<char>, JsonModel)>) -> Seq<char>
    decreases members,
{
    if members.len() == 0 {
        Seq::empty()
    } else if members.len() == 1 {
        ser_string(members[0].0) + seq![':'] + ser_value(members[0].1)
    } else {
        ser_string(members[0].0) + seq![':'] + ser_value(members[0].1) + seq![',']
            + ser_members(members.drop_first())
    }
}

// ---------------------------------------------------------------------
// Well-formedness
// ---------------------------------------------------------------------

/// The characters that may appear in a number lexeme.
pub open spec fn num_char(c: char) -> bool {
    (0x30 <= (c as u32) && (c as u32) <= 0x39)  // digits
        || c == '-' || c == '+' || c == '.' || c == 'e' || c == 'E'
}

/// A number lexeme the parser will take whole: nonempty, made of number
/// characters, starting with a digit or a minus sign.
pub open spec fn wf_num(lex: Seq<char>) -> bool {
    &&& lex.len() > 0
    &&& forall|i: int| 0 <= i < lex.len() ==> num_char(#[trigger] lex[i])
    &&& ((0x30 <= (lex[0] as u32) && (lex[0] as u32) <= 0x39) || lex[0] == '-')
}

/// A value whose canonical text parses back to itself: every number
/// lexeme in it is well formed.
pub open spec fn wf_value(v: JsonModel) -> bool
    decreases v,
{
    match v {
        JsonModel::Null => true,
        JsonModel::Bool(_) => true,
        JsonModel::Num(lex) => wf_num(lex),
        JsonModel::Str(_) => true,
        JsonModel::Arr(items) => forall|i: int|
            0 <= i < items.len() ==> wf_value(#[trigger] items[i]),
        JsonModel::Obj(members) => forall|i: int|
            0 <= i < members.len() ==> wf_value(#[trigger] members[i].1),
    }
}

// ---------------------------------------------------------------------
// Parsing
// ---------------------------------------------------------------------

/// The value of a hex digit, either case.
pub open spec fn hex_val(c: char) -> Option<u8> {
    let u = c as u32;
    if 0x30 <= u && u <= 0x39 {
        Some((u - 0x30) as u8)
    } else if 0x61 <= u && u <= 0x66 {
        Some((u - 0x61 + 10) as u8)
    } else if 0x41 <= u && u <= 0x46 {
        Some((u - 0x41 + 10) as u8)
    } else {
        None
    }
}

/// The character named by a one-letter escape, if any.
pub open spec fn esc_short(e: char) -> Option<char> {
    if e == '"' {
        Some('"')
    } else if e == '\\' {
        Some('\\')
    } else if e == '/' {
        Some('/')
    } else if e == 'b' {
        Some('\u{0008}')
    } else if e == 'f' {
        Some('\u{000C}')
    } else if e == 'n' {
        Some('\n')
    } else if e == 'r' {
        Some('\r')
    } else if e == 't' {
        Some('\t')
    } else {
        None
    }
}

/// The insignificant whitespace characters of JSON.
pub open spec fn ws_char(c: char) -> bool {
    c == ' ' || c == '\t' || c == '\n' || c == '\r'
}

/// The length of the whitespace run starting at `i`.
pub open spec fn ws_count(s: Seq<char>, i: int) -> nat
    recommends
        0 <= i <= s.len(),
    decreases s.len() - i,
{
    if 0 <= i && i < s.len() && ws_char(s[i]) {
        (1 + ws_count(s, i + 1)) as nat
    } else {
        0
    }
}

/// The position after the whitespace at `i`, never past the end.
pub open spec fn after_ws(s: Seq<char>, i: int) -> int {
    if i + ws_count(s, i) <= s.len() {
        i + ws_count(s, i)
    } else {
        s.len() as int
    }
}

/// The whitespace run never reaches past the end.
proof fn lemma_ws_count_le(s: Seq<char>, i: int)
    requires
        0 <= i <= s.len(),
    ensures
        i + ws_count(s, i) <= s.len(),
        after_ws(s, i) == i + ws_count(s, i),
    decreases s.len() - i,
{
    if i < s.len() && ws_char(s[i]) {
        lemma_ws_count_le(s, i + 1);
    }
}

/// Where nothing is whitespace, nothing is skipped.
proof fn lemma_after_ws_here(s: Seq<char>, i: int)
    requires
        0 <= i <= s.len(),
        i == s.len() || !ws_char(s[i]),
    ensures
        after_ws(s, i) == i,
{
}

/// The value of four hex digits, highest first.
pub open spec fn hex4(h0: u8, h1: u8, h2: u8, h3: u8) -> u32
    recommends
        h0 < 16 && h1 < 16 && h2 < 16 && h3 < 16,
{
    (((h0 as int) * 0x1000 + (h1 as int) * 0x100 + (h2 as int) * 16 + (h3 as int))) as u32
}

/// Parse the body of a string literal at `i` (just after the opening
/// quote): the content, and the count consumed including the closing
/// quote.  Raw control characters and unknown escapes are refused; a
/// `\u` escape may name any scalar, a high surrogate followed by a
/// low one naming the combined scalar.
pub open spec fn parse_chars(s: Seq<char>, i: int) -> Option<(Seq<char>, nat)>
    recommends
        0 <= i <= s.len(),
    decreases s.len() - i, 1int,
{
    if i < 0 || i >= s.len() {
        None
    } else {
        let c = s[i];
        if c == '"' {
            Some((Seq::empty(), 1))
        } else if c == '\\' {
            if i + 1 >= s.len() {
                None
            } else {
                let e = s[i + 1];
                if e == 'u' {
                    if i + 6 > s.len() {
                        None
                    } else if hex_val(s[i + 2]) is Some && hex_val(s[i + 3]) is Some
                        && hex_val(s[i + 4]) is Some && hex_val(s[i + 5]) is Some {
                        let v = hex4(
                            hex_val(s[i + 2])->0,
                            hex_val(s[i + 3])->0,
                            hex_val(s[i + 4])->0,
                            hex_val(s[i + 5])->0,
                        );
                        if 0xD800 <= v && v <= 0xDBFF {
                            // a high surrogate: a low one must follow
                            if i + 12 > s.len() {
                                None
                            } else if s[i + 6] == '\\' && s[i + 7] == 'u'
                                && hex_val(s[i + 8]) is Some && hex_val(s[i + 9]) is Some
                                && hex_val(s[i + 10]) is Some && hex_val(s[i + 11]) is Some {
                                let w = hex4(
                                    hex_val(s[i + 8])->0,
                                    hex_val(s[i + 9])->0,
                                    hex_val(s[i + 10])->0,
                                    hex_val(s[i + 11])->0,
                                );
                                if 0xDC00 <= w && w <= 0xDFFF {
                                    let cp = (0x10000 + (v - 0xD800) * 0x400
                                        + (w - 0xDC00)) as u32;
                                    let ch = cp as char;
                                    match parse_chars(s, i + 12) {
                                        Some((cs, k)) => Some((seq![ch] + cs, (k + 12) as nat)),
                                        None => None,
                                    }
                                } else {
                                    None
                                }
                            } else {
                                None
                            }
                        } else if 0xDC00 <= v && v <= 0xDFFF {
                            // a lone low surrogate names nothing
                            None
                        } else {
                            let ch = v as char;
                            match parse_chars(s, i + 6) {
                                Some((cs, k)) => Some((seq![ch] + cs, (k + 6) as nat)),
                                None => None,
                            }
                        }
                    } else {
                        None
                    }
                } else {
                    match esc_short(e) {
                        Some(c2) => match parse_chars(s, i + 2) {
                            Some((cs, k)) => Some((seq![c2] + cs, (k + 2) as nat)),
                            None => None,
                        },
                        None => None,
                    }
                }
            }
        } else if (c as u32) < 0x20 {
            None
        } else {
            match parse_chars(s, i + 1) {
                Some((cs, k)) => Some((seq![c] + cs, (k + 1) as nat)),
                None => None,
            }
        }
    }
}

/// The length of the run of number characters starting at `i`.
pub open spec fn count_num(s: Seq<char>, i: int) -> nat
    recommends
        0 <= i <= s.len(),
    decreases s.len() - i,
{
    if 0 <= i && i < s.len() && num_char(s[i]) {
        (1 + count_num(s, i + 1)) as nat
    } else {
        0
    }
}

/// Parse one JSON value at `i`, leading whitespace included: the value
/// and the count consumed.
pub open spec fn parse_value(s: Seq<char>, i: int) -> Option<(JsonModel, nat)>
    recommends
        0 <= i <= s.len(),
    decreases s.len() - i, 0int,
{
    let i0 = after_ws(s, i);
    if i < 0 || i0 >= s.len() {
        None
    } else {
        let c = s[i0];
        if c == '{' {
            let je = after_ws(s, i0 + 1);
            if je < s.len() && s[je] == '}' {
                Some((JsonModel::Obj(Seq::empty()), (je + 1 - i) as nat))
            } else {
                match parse_members(s, i0 + 1) {
                    Some((ms, k)) => {
                        let j = after_ws(s, i0 + 1 + k);
                        if j < s.len() && s[j] == '}' {
                            Some((JsonModel::Obj(ms), (j + 1 - i) as nat))
                        } else {
                            None
                        }
                    },
                    None => None,
                }
            }
        } else if c == '[' {
            let je = after_ws(s, i0 + 1);
            if je < s.len() && s[je] == ']' {
                Some((JsonModel::Arr(Seq::empty()), (je + 1 - i) as nat))
            } else {
                match parse_items(s, i0 + 1) {
                    Some((items, k)) => {
                        let j = after_ws(s, i0 + 1 + k);
                        if j < s.len() && s[j] == ']' {
                            Some((JsonModel::Arr(items), (j + 1 - i) as nat))
                        } else {
                            None
                        }
                    },
                    None => None,
                }
            }
        } else if c == '"' {
            match parse_chars(s, i0 + 1) {
                Some((cs, k)) => Some((JsonModel::Str(cs), (i0 + 1 + k - i) as nat)),
                None => None,
            }
        } else if c == 't' {
            if i0 + 4 <= s.len() && s[i0 + 1] == 'r' && s[i0 + 2] == 'u' && s[i0 + 3] == 'e' {
                Some((JsonModel::Bool(true), (i0 + 4 - i) as nat))
            } else {
                None
            }
        } else if c == 'f' {
            if i0 + 5 <= s.len() && s[i0 + 1] == 'a' && s[i0 + 2] == 'l' && s[i0 + 3] == 's'
                && s[i0 + 4] == 'e' {
                Some((JsonModel::Bool(false), (i0 + 5 - i) as nat))
            } else {
                None
            }
        } else if c == 'n' {
            if i0 + 4 <= s.len() && s[i0 + 1] == 'u' && s[i0 + 2] == 'l' && s[i0 + 3] == 'l' {
                Some((JsonModel::Null, (i0 + 4 - i) as nat))
            } else {
                None
            }
        } else if (0x30 <= (c as u32) && (c as u32) <= 0x39) || c == '-' {
            let k = count_num(s, i0);
            Some((JsonModel::Num(s.subrange(i0, i0 + k)), (i0 + k - i) as nat))
        } else {
            None
        }
    }
}

/// Parse a nonempty comma-separated run of object members at `i`,
/// leading whitespace included, stopping before any whitespace that
/// precedes the closing brace.
pub open spec fn parse_members(s: Seq<char>, i: int) -> Option<(Seq<(Seq<char>, JsonModel)>, nat)>
    recommends
        0 <= i <= s.len(),
    decreases s.len() - i, 1int,
{
    let i0 = after_ws(s, i);
    if i < 0 || i0 >= s.len() || s[i0] != '"' {
        None
    } else {
        match parse_chars(s, i0 + 1) {
            Some((key, k1)) => {
                let j = after_ws(s, i0 + 1 + k1);
                if j < s.len() && s[j] == ':' {
                    match parse_value(s, j + 1) {
                        Some((v, k2)) => {
                            let j2 = j + 1 + k2;
                            let j3 = after_ws(s, j2);
                            if j3 < s.len() && s[j3] == ',' {
                                match parse_members(s, j3 + 1) {
                                    Some((rest, k3)) => Some(
                                        (seq![(key, v)] + rest, (j3 + 1 + k3 - i) as nat),
                                    ),
                                    None => None,
                                }
                            } else {
                                Some((seq![(key, v)], (j2 - i) as nat))
                            }
                        },
                        None => None,
                    }
                } else {
                    None
                }
            },
            None => None,
        }
    }
}

/// Parse a nonempty comma-separated run of array elements at `i`,
/// leading whitespace included, stopping before any whitespace that
/// precedes the closing bracket.
pub open spec fn parse_items(s: Seq<char>, i: int) -> Option<(Seq<JsonModel>, nat)>
    recommends
        0 <= i <= s.len(),
    decreases s.len() - i, 1int,
{
    if i < 0 || i > s.len() {
        None
    } else {
        match parse_value(s, i) {
            Some((v, k)) => {
                let j = i + k;
                let j2 = after_ws(s, j);
                if j2 < s.len() && s[j2] == ',' {
                    match parse_items(s, j2 + 1) {
                        Some((rest, k2)) => Some((seq![v] + rest, (j2 + 1 + k2 - i) as nat)),
                        None => None,
                    }
                } else {
                    Some((seq![v], k))
                }
            },
            None => None,
        }
    }
}

// ---------------------------------------------------------------------
// The serializer/parser round trip
// ---------------------------------------------------------------------

/// `pat` occurs in `t` starting at `i`.
pub open spec fn matches_at(t: Seq<char>, i: int, pat: Seq<char>) -> bool {
    0 <= i && i + pat.len() <= t.len() && t.subrange(i, i + pat.len()) == pat
}

/// A match against a concatenation splits into two matches.
proof fn lemma_matches_split(t: Seq<char>, i: int, a: Seq<char>, b: Seq<char>)
    requires
        matches_at(t, i, a + b),
    ensures
        matches_at(t, i, a),
        matches_at(t, i + a.len(), b),
{
    let al = a.len() as int;
    let bl = b.len() as int;
    assert forall|k: int| 0 <= k < al implies t.subrange(i, i + al)[k] == a[k] by {
        assert(t.subrange(i, i + al)[k] == t[i + k]);
        assert(t.subrange(i, i + al + bl)[k] == t[i + k]);
        assert((a + b)[k] == a[k]);
    }
    assert(t.subrange(i, i + al) =~= a);
    assert forall|k: int| 0 <= k < bl implies t.subrange(i + al, i + al + bl)[k] == b[k] by {
        assert(t.subrange(i + al, i + al + bl)[k] == t[i + al + k]);
        assert(t.subrange(i, i + al + bl)[al + k] == t[i + (al + k)]);
        assert((a + b)[al + k] == b[k]);
    }
    assert(t.subrange(i + al, i + al + bl) =~= b);
}

/// A match pins each character of the matched range.
proof fn lemma_matches_char(t: Seq<char>, i: int, pat: Seq<char>, k: int)
    requires
        matches_at(t, i, pat),
        0 <= k < pat.len(),
    ensures
        t[i + k] == pat[k],
{
    assert(t.subrange(i, i + pat.len() as int)[k] == t[i + k]);
}

/// Reading back the hex digit the serializer wrote yields the nibble.
proof fn lemma_hex_round_trip(n: u8)
    requires
        n < 16,
    ensures
        hex_val(hex_char(n)) == Some(n),
{
}

/// Parsing the serialized body of a string literal (with its closing
/// quote) yields the original characters.
proof fn lemma_parse_ser_chars(t: Seq<char>, i: int, s: Seq<char>)
    requires
        matches_at(t, i, ser_chars(s) + seq!['"']),
    ensures
        parse_chars(t, i) == Some((s, (ser_chars(s).len() + 1) as nat)),
    decreases s.len(),
{
    let pat = ser_chars(s) + seq!['"'];
    if s.len() == 0 {
        assert(ser_chars(s) =~= Seq::<char>::empty());
        lemma_matches_char(t, i, pat, 0);
        assert(t[i] == '"');
        assert(parse_chars(t, i) == Some((Seq::<char>::empty(), 1nat)));
        assert(s =~= Seq::<char>::empty());
    } else {
        let c = s[0];
        let e = esc_char(c);
        let rest = s.drop_first();
        assert(s =~= seq![c] + rest);
        assert(ser_chars(s) == e + ser_chars(rest));
        assert(pat =~= e + (ser_chars(rest) + seq!['"']));
        lemma_matches_split(t, i, e, ser_chars(rest) + seq!['"']);
        lemma_parse_ser_chars(t, i + e.len(), rest);
        if c == '"' {
            lemma_matches_char(t, i, e, 0);
            lemma_matches_char(t, i, e, 1);
            assert(t[i] == '\\' && t[i + 1] == '"');
            assert(seq!['"'] + rest =~= s);
        } else if c == '\\' {
            lemma_matches_char(t, i, e, 0);
            lemma_matches_char(t, i, e, 1);
            assert(t[i] == '\\' && t[i + 1] == '\\');
            assert(seq!['\\'] + rest =~= s);
        } else if (c as u32) < 0x20 {
            lemma_matches_char(t, i, e, 0);
            lemma_matches_char(t, i, e, 1);
            lemma_matches_char(t, i, e, 2);
            lemma_matches_char(t, i, e, 3);
            lemma_matches_char(t, i, e, 4);
            lemma_matches_char(t, i, e, 5);
            let u = c as u32;
            let hi = ((u / 16) as u8);
            let lo = ((u % 16) as u8);
            assert(t[i] == '\\' && t[i + 1] == 'u' && t[i + 2] == '0' && t[i + 3] == '0');
            assert(t[i + 4] == hex_char(hi) && t[i + 5] == hex_char(lo));
            assert(hi < 16 && lo < 16) by {
                vstd::arithmetic::div_mod::lemma_mod_bound(u as int, 16);
            }
            lemma_hex_round_trip(hi);
            lemma_hex_round_trip(lo);
            assert(hex_val(t[i + 4]) == Some(hi) && hex_val(t[i + 5]) == Some(lo));
            assert((hi * 16 + lo) as u32 == u) by {
                vstd::arithmetic::div_mod::lemma_fundamental_div_mod(u as int, 16);
            }
            let ch = ((hi * 16 + lo) as u8) as char;
            assert(ch == ((u as u8) as char));
            assert(ch as u32 == u);
            vstd::utf8::char_u32_cast(c, u);
            assert((u as char) == c);
            assert(ch == c);
            assert(seq![c] + rest =~= s);
            // the escape branch is taken: '\\' is not '"', and 'u' selects \u
            assert(t[i] != '"');
        } else {
            lemma_matches_char(t, i, e, 0);
            assert(t[i] == c);
            assert(seq![c] + rest =~= s);
        }
    }
}

/// No number character continues at `j`: a number lexeme ending there
/// is taken whole.
pub open spec fn non_num_follows(t: Seq<char>, j: int) -> bool {
    j == t.len() || !num_char(t[j])
}

/// A well-formed number lexeme embedded at `i` with nothing numeric
/// after it is consumed exactly.
proof fn lemma_count_num(t: Seq<char>, i: int, lex: Seq<char>)
    requires
        matches_at(t, i, lex),
        forall|k: int| 0 <= k < lex.len() ==> num_char(#[trigger] lex[k]),
        non_num_follows(t, i + lex.len()),
    ensures
        count_num(t, i) == lex.len(),
    decreases lex.len(),
{
    if lex.len() == 0 {
    } else {
        lemma_matches_char(t, i, lex, 0);
        assert(t[i] == lex[0]);
        assert(num_char(lex[0]));
        let rest = lex.drop_first();
        assert(lex =~= seq![lex[0]] + rest);
        lemma_matches_split(t, i, seq![lex[0]], rest);
        assert forall|k: int| 0 <= k < rest.len() implies num_char(#[trigger] rest[k]) by {
            assert(rest[k] == lex[k + 1]);
        }
        lemma_count_num(t, i + 1, rest);
    }
}

/// The first character of a value's canonical text.
pub open spec fn value_start(c: char) -> bool {
    c == '{' || c == '[' || c == '"' || c == 't' || c == 'f' || c == 'n'
        || (0x30 <= (c as u32) && (c as u32) <= 0x39) || c == '-'
}

/// A well-formed value's text is nonempty and starts with a character
/// that opens a value.
proof fn lemma_ser_value_first(v: JsonModel)
    requires
        wf_value(v),
    ensures
        ser_value(v).len() > 0,
        value_start(ser_value(v)[0]),
{
    match v {
        JsonModel::Null => {},
        JsonModel::Bool(_) => {},
        JsonModel::Num(lex) => {},
        JsonModel::Str(s) => {
            assert(ser_value(v)[0] == '"');
        },
        JsonModel::Arr(items) => {},
        JsonModel::Obj(members) => {},
    }
}

/// Parsing the canonical text of a well-formed value, embedded with a
/// non-numeric follower, yields the value back.
proof fn lemma_parse_ser_value(t: Seq<char>, i: int, v: JsonModel)
    requires
        wf_value(v),
        matches_at(t, i, ser_value(v)),
        non_num_follows(t, i + ser_value(v).len()),
    ensures
        parse_value(t, i) == Some((v, ser_value(v).len() as nat)),
    decreases v, 0int,
{
    let sv = ser_value(v);
    match v {
        JsonModel::Null => {
            lemma_matches_char(t, i, sv, 0);
            lemma_matches_char(t, i, sv, 1);
            lemma_matches_char(t, i, sv, 2);
            lemma_matches_char(t, i, sv, 3);
        },
        JsonModel::Bool(b) => {
            lemma_matches_char(t, i, sv, 0);
            lemma_matches_char(t, i, sv, 1);
            lemma_matches_char(t, i, sv, 2);
            lemma_matches_char(t, i, sv, 3);
            if !b {
                lemma_matches_char(t, i, sv, 4);
            }
        },
        JsonModel::Num(lex) => {
            lemma_matches_char(t, i, sv, 0);
            assert(t[i] == lex[0]);
            lemma_count_num(t, i, lex);
            assert(t.subrange(i, i + lex.len() as int) == lex);
        },
        JsonModel::Str(s) => {
            assert(sv =~= seq!['"'] + (ser_chars(s) + seq!['"']));
            lemma_matches_split(t, i, seq!['"'], ser_chars(s) + seq!['"']);
            lemma_matches_char(t, i, seq!['"'], 0);
            lemma_parse_ser_chars(t, i + 1, s);
        },
        JsonModel::Arr(items) => {
            if items.len() == 0 {
                assert(ser_items(items) =~= Seq::<char>::empty());
                assert(sv =~= seq!['[', ']']);
                lemma_matches_char(t, i, sv, 0);
                lemma_matches_char(t, i, sv, 1);
                assert(parse_value(t, i) == Some((JsonModel::Arr(Seq::<JsonModel>::empty()), 2nat)));
                assert(items =~= Seq::<JsonModel>::empty());
            } else {
                let si = ser_items(items);
                assert(sv =~= seq!['['] + (si + seq![']']));
                lemma_matches_split(t, i, seq!['['], si + seq![']']);
                lemma_matches_split(t, i + 1, si, seq![']']);
                lemma_matches_char(t, i, seq!['['], 0);
                let end = i + 1 + si.len() as int;
                lemma_matches_char(t, end, seq![']'], 0);
                assert(t[end] == ']');
                assert(wf_value(items[0]));
                lemma_ser_value_first(items[0]);
                assert(si[0] == ser_value(items[0])[0]);
                lemma_matches_char(t, i + 1, si, 0);
                assert(t[i + 1] == si[0]);
                assert(t[i + 1] != ']');
                lemma_parse_ser_items(t, i + 1, items);
            }
        },
        JsonModel::Obj(members) => {
            if members.len() == 0 {
                assert(ser_members(members) =~= Seq::<char>::empty());
                assert(sv =~= seq!['{', '}']);
                lemma_matches_char(t, i, sv, 0);
                lemma_matches_char(t, i, sv, 1);
                assert(parse_value(t, i) == Some((
                    JsonModel::Obj(Seq::<(Seq<char>, JsonModel)>::empty()),
                    2nat,
                )));
                assert(members =~= Seq::<(Seq<char>, JsonModel)>::empty());
            } else {
                let sm = ser_members(members);
                assert(sv =~= seq!['{'] + (sm + seq!['}']));
                lemma_matches_split(t, i, seq!['{'], sm + seq!['}']);
                lemma_matches_split(t, i + 1, sm, seq!['}']);
                lemma_matches_char(t, i, seq!['{'], 0);
                let end = i + 1 + sm.len() as int;
                lemma_matches_char(t, end, seq!['}'], 0);
                assert(t[end] == '}');
                assert(sm[0] == '"');
                lemma_matches_char(t, i + 1, sm, 0);
                assert(t[i + 1] == '"');
                assert(t[i + 1] != '}');
                lemma_parse_ser_members(t, i + 1, members);
            }
        },
    }
}

/// Parsing the canonical text of a nonempty run of array elements,
/// followed by its closing bracket, yields the elements back.
proof fn lemma_parse_ser_items(t: Seq<char>, i: int, items: Seq<JsonModel>)
    requires
        items.len() >= 1,
        forall|k: int| 0 <= k < items.len() ==> wf_value(#[trigger] items[k]),
        matches_at(t, i, ser_items(items)),
        i + ser_items(items).len() < t.len(),
        t[i + ser_items(items).len()] == ']',
    ensures
        parse_items(t, i) == Some((items, ser_items(items).len() as nat)),
    decreases items, 1int,
{
    let si = ser_items(items);
    let end = i + si.len() as int;
    if items.len() == 1 {
        assert(si == ser_value(items[0]));
        lemma_parse_ser_value(t, i, items[0]);
        assert(seq![items[0]] =~= items);
    } else {
        let rest = items.drop_first();
        assert(si == ser_value(items[0]) + seq![','] + ser_items(rest));
        assert(si =~= ser_value(items[0]) + (seq![','] + ser_items(rest)));
        lemma_matches_split(t, i, ser_value(items[0]), seq![','] + ser_items(rest));
        let j = i + ser_value(items[0]).len() as int;
        lemma_matches_split(t, j, seq![','], ser_items(rest));
        lemma_matches_char(t, j, seq![','], 0);
        assert(t[j] == ',');
        lemma_parse_ser_value(t, i, items[0]);
        assert forall|k: int| 0 <= k < rest.len() implies wf_value(#[trigger] rest[k]) by {
            assert(rest[k] == items[k + 1]);
        }
        lemma_parse_ser_items(t, j + 1, rest);
        assert(seq![items[0]] + rest =~= items);
    }
}

/// Parsing the canonical text of a nonempty run of object members,
/// followed by its closing brace, yields the members back.
proof fn lemma_parse_ser_members(t: Seq<char>, i: int, members: Seq<(Seq<char>, JsonModel)>)
    requires
        members.len() >= 1,
        forall|k: int| 0 <= k < members.len() ==> wf_value(#[trigger] members[k].1),
        matches_at(t, i, ser_members(members)),
        i + ser_members(members).len() < t.len(),
        t[i + ser_members(members).len()] == '}',
    ensures
        parse_members(t, i) == Some((members, ser_members(members).len() as nat)),
    decreases members, 1int,
{
    let sm = ser_members(members);
    let end = i + sm.len() as int;
    let key = members[0].0;
    let val = members[0].1;
    let head = ser_string(key) + seq![':'] + ser_value(val);
    if members.len() == 1 {
        assert(sm == head);
    } else {
        assert(sm == head + seq![','] + ser_members(members.drop_first()));
    }
    assert(sm =~= ser_string(key)
        + (seq![':'] + (ser_value(val) + sm.subrange(head.len() as int, sm.len() as int))));
    let tail = sm.subrange(head.len() as int, sm.len() as int);
    lemma_matches_split(t, i, ser_string(key), seq![':'] + (ser_value(val) + tail));
    let j = i + ser_string(key).len() as int;
    lemma_matches_split(t, j, seq![':'], ser_value(val) + tail);
    lemma_matches_split(t, j + 1, ser_value(val), tail);
    lemma_matches_char(t, j, seq![':'], 0);
    assert(t[j] == ':');
    assert(ser_string(key) =~= seq!['"'] + (ser_chars(key) + seq!['"']));
    lemma_matches_split(t, i, seq!['"'], ser_chars(key) + seq!['"']);
    lemma_matches_char(t, i, seq!['"'], 0);
    assert(t[i] == '"');
    lemma_parse_ser_chars(t, i + 1, key);
    let j2 = j + 1 + ser_value(val).len() as int;
    if members.len() == 1 {
        assert(tail =~= Seq::<char>::empty());
        assert(j2 == end);
        lemma_parse_ser_value(t, j + 1, val);
        assert(t[j2] == '}');
        assert(seq![(key, val)] =~= members);
    } else {
        let rest = members.drop_first();
        assert(tail =~= seq![','] + ser_members(rest));
        lemma_matches_split(t, j2, seq![','], ser_members(rest));
        lemma_matches_char(t, j2, seq![','], 0);
        assert(t[j2] == ',');
        lemma_parse_ser_value(t, j + 1, val);
        assert forall|k: int| 0 <= k < rest.len() implies wf_value(#[trigger] rest[k].1) by {
            assert(rest[k] == members[k + 1]);
        }
        lemma_parse_ser_members(t, j2 + 1, rest);
        assert(seq![(key, val)] + rest =~= members);
    }
}

/// The serializer/parser round trip: the canonical text of every
/// well-formed value parses back to that value, with nothing left over.
pub proof fn lemma_parse_ser_text(v: JsonModel)
    requires
        wf_value(v),
    ensures
        parse_text(ser_value(v)) == Some(v),
{
    let t = ser_value(v);
    assert(t.subrange(0, t.len() as int) =~= t);
    lemma_parse_ser_value(t, 0, v);
}

/// Parse a whole text as one JSON value: only whitespace may follow.
pub open spec fn parse_text(s: Seq<char>) -> Option<JsonModel> {
    match parse_value(s, 0) {
        Some((v, k)) => if after_ws(s, k as int) == s.len() { Some(v) } else { None },
        None => None,
    }
}

// ---------------------------------------------------------------------
// Structural lemmas used by the executable code
// ---------------------------------------------------------------------

/// `jv_models` maps the sequence elementwise.
pub proof fn lemma_jv_models_index(s: Seq<JsonValue>)
    ensures
        jv_models(s).len() == s.len(),
        forall|k: int|
            #![trigger jv_models(s)[k]]
            #![trigger s[k]]
            0 <= k < s.len() ==> jv_models(s)[k] == jv_model(s[k]),
    decreases s,
{
    if s.len() > 0 {
        let rest = s.subrange(1, s.len() as int);
        lemma_jv_models_index(rest);
        assert forall|k: int| 0 <= k < s.len() implies jv_models(s)[k] == jv_model(
            #[trigger] s[k],
        ) by {
            if k > 0 {
                assert(jv_models(s)[k] == jv_models(rest)[k - 1]);
                assert(rest[k - 1] == s[k]);
            }
        }
    }
}

/// `jv_member_models` maps the sequence elementwise.
pub proof fn lemma_jv_member_models_index(s: Seq<(String, JsonValue)>)
    ensures
        jv_member_models(s).len() == s.len(),
        forall|k: int|
            #![trigger jv_member_models(s)[k]]
            #![trigger s[k]]
            0 <= k < s.len() ==> jv_member_models(s)[k] == (s[k].0@, jv_model(s[k].1)),
    decreases s,
{
    if s.len() > 0 {
        let rest = s.subrange(1, s.len() as int);
        lemma_jv_member_models_index(rest);
        assert forall|k: int| 0 <= k < s.len() implies jv_member_models(s)[k]
            == ((#[trigger] s[k]).0@, jv_model(s[k].1)) by {
            if k > 0 {
                assert(jv_member_models(s)[k] == jv_member_models(rest)[k - 1]);
                assert(rest[k - 1] == s[k]);
            }
        }
    }
}

/// Escaping distributes over concatenation.
proof fn lemma_ser_chars_app(a: Seq<char>, b: Seq<char>)
    ensures
        ser_chars(a + b) == ser_chars(a) + ser_chars(b),
    decreases a.len(),
{
    if a.len() == 0 {
        assert(a + b =~= b);
        assert(ser_chars(a) =~= Seq::<char>::empty());
        assert(ser_chars(a) + ser_chars(b) =~= ser_chars(b));
    } else {
        assert((a + b).drop_first() =~= a.drop_first() + b);
        lemma_ser_chars_app(a.drop_first(), b);
        assert((a + b)[0] == a[0]);
        assert(ser_chars(a + b) =~= ser_chars(a) + ser_chars(b));
    }
}

/// Appending one element extends the comma-separated element text.
proof fn lemma_ser_items_snoc(s: Seq<JsonModel>, x: JsonModel)
    ensures
        ser_items(s.push(x)) == if s.len() == 0 {
            ser_value(x)
        } else {
            ser_items(s) + seq![','] + ser_value(x)
        },
    decreases s.len(),
{
    let sx = s.push(x);
    if s.len() == 0 {
        assert(sx.len() == 1);
        assert(sx[0] == x);
        assert(ser_items(sx) == ser_value(x));
    } else {
        assert(sx.len() >= 2);
        assert(sx[0] == s[0]);
        assert(sx.drop_first() =~= s.drop_first().push(x));
        lemma_ser_items_snoc(s.drop_first(), x);
        if s.len() == 1 {
            assert(ser_items(s) == ser_value(s[0]));
            assert(ser_items(sx) =~= ser_items(s) + seq![','] + ser_value(x));
        } else {
            assert(ser_items(sx) =~= ser_items(s) + seq![','] + ser_value(x));
        }
    }
}

/// Appending one member extends the comma-separated member text.
proof fn lemma_ser_members_snoc(s: Seq<(Seq<char>, JsonModel)>, x: (Seq<char>, JsonModel))
    ensures
        ser_members(s.push(x)) == if s.len() == 0 {
            ser_string(x.0) + seq![':'] + ser_value(x.1)
        } else {
            ser_members(s) + seq![','] + ser_string(x.0) + seq![':'] + ser_value(x.1)
        },
    decreases s.len(),
{
    let sx = s.push(x);
    if s.len() == 0 {
        assert(sx.len() == 1);
        assert(sx[0] == x);
    } else {
        assert(sx.len() >= 2);
        assert(sx[0] == s[0]);
        assert(sx.drop_first() =~= s.drop_first().push(x));
        lemma_ser_members_snoc(s.drop_first(), x);
        if s.len() == 1 {
            assert(ser_members(sx) =~= ser_members(s) + seq![','] + ser_string(x.0) + seq![':']
                + ser_value(x.1));
        } else {
            assert(ser_members(sx) =~= ser_members(s) + seq![','] + ser_string(x.0) + seq![':']
                + ser_value(x.1));
        }
    }
}

/// The nesting height of a value, the termination measure for the
/// executable walkers.
pub open spec fn jm_height(m: JsonModel) -> nat
    decreases m,
{
    match m {
        JsonModel::Null => 0,
        JsonModel::Bool(_) => 0,
        JsonModel::Num(_) => 0,
        JsonModel::Str(_) => 0,
        JsonModel::Arr(items) => 1 + jm_heights(items),
        JsonModel::Obj(members) => 1 + jm_member_heights(members),
    }
}

/// The largest height among a sequence of values.
pub open spec fn jm_heights(s: Seq<JsonModel>) -> nat
    decreases s,
{
    if s.len() == 0 {
        0
    } else if jm_height(s[0]) >= jm_heights(s.subrange(1, s.len() as int)) {
        jm_height(s[0])
    } else {
        jm_heights(s.subrange(1, s.len() as int))
    }
}

/// The largest height among a sequence of members' values.
pub open spec fn jm_member_heights(s: Seq<(Seq<char>, JsonModel)>) -> nat
    decreases s,
{
    if s.len() == 0 {
        0
    } else if jm_height(s[0].1) >= jm_member_heights(s.subrange(1, s.len() as int)) {
        jm_height(s[0].1)
    } else {
        jm_member_heights(s.subrange(1, s.len() as int))
    }
}

/// Each element's height is bounded by the sequence bound.
proof fn lemma_jm_heights_bound(s: Seq<JsonModel>, k: int)
    requires
        0 <= k < s.len(),
    ensures
        jm_height(s[k]) <= jm_heights(s),
    decreases s.len(),
{
    if k > 0 {
        let rest = s.subrange(1, s.len() as int);
        lemma_jm_heights_bound(rest, k - 1);
        assert(rest[k - 1] == s[k]);
    }
}

/// Each member's value height is bounded by the sequence bound.
proof fn lemma_jm_member_heights_bound(s: Seq<(Seq<char>, JsonModel)>, k: int)
    requires
        0 <= k < s.len(),
    ensures
        jm_height(s[k].1) <= jm_member_heights(s),
    decreases s.len(),
{
    if k > 0 {
        let rest = s.subrange(1, s.len() as int);
        lemma_jm_member_heights_bound(rest, k - 1);
        assert(rest[k - 1] == s[k]);
    }
}

// ---------------------------------------------------------------------
// The executable emitter
// ---------------------------------------------------------------------

/// Relies on `String::push`: it appends exactly the one character.
#[verifier::external_body]
fn push_char(out: &mut String, c: char)
    ensures
        final(out)@ == old(out)@ + seq![c],
{
    out.push(c);
}

/// The lower-case hex digit for a nibble.
fn hex_char_exec(n: u8) -> (r: char)
    requires
        n < 16,
    ensures
        r == hex_char(n),
{
    if n == 0 { '0' } else if n == 1 { '1' } else if n == 2 { '2' } else if n == 3 { '3' }
    else if n == 4 { '4' } else if n == 5 { '5' } else if n == 6 { '6' } else if n == 7 { '7' }
    else if n == 8 { '8' } else if n == 9 { '9' } else if n == 10 { 'a' } else if n == 11 { 'b' }
    else if n == 12 { 'c' } else if n == 13 { 'd' } else if n == 14 { 'e' } else { 'f' }
}

/// Append the escaped content of `s` to `out`.
fn write_escaped(out: &mut String, s: &str)
    ensures
        final(out)@ == old(out)@ + ser_chars(s@),
{
    let n: usize = s.unicode_len();
    let mut i: usize = 0;
    while i < n
        invariant
            i <= n,
            n == s@.len(),
            out@ == old(out)@ + ser_chars(s@.subrange(0, i as int)),
        decreases n - i,
    {
        let c = s.get_char(i);
        if c == '"' {
            push_char(out, '\\');
            push_char(out, '"');
        } else if c == '\\' {
            push_char(out, '\\');
            push_char(out, '\\');
        } else if (c as u32) < 0x20 {
            let u = c as u32;
            push_char(out, '\\');
            push_char(out, 'u');
            push_char(out, '0');
            push_char(out, '0');
            push_char(out, hex_char_exec((u / 16) as u8));
            proof {
                vstd::arithmetic::div_mod::lemma_mod_bound(u as int, 16);
            }
            push_char(out, hex_char_exec((u % 16) as u8));
        } else {
            push_char(out, c);
        }
        proof {
            let pre = s@.subrange(0, i as int);
            let pre1 = s@.subrange(0, i + 1);
            let one = seq![s@[i as int]];
            assert(pre1 =~= pre + one);
            lemma_ser_chars_app(pre, one);
            assert(one.drop_first() =~= Seq::<char>::empty());
            assert(ser_chars(one) == esc_char(s@[i as int]) + ser_chars(one.drop_first()));
            assert(ser_chars(one) =~= esc_char(s@[i as int]));
            assert(out@ =~= old(out)@ + ser_chars(pre1));
        }
        i = i + 1;
    }
    proof {
        assert(s@.subrange(0, n as int) =~= s@);
    }
}

/// Append a JSON string literal holding `s` to `out`.
fn write_string(out: &mut String, s: &str)
    ensures
        final(out)@ == old(out)@ + ser_string(s@),
{
    push_char(out, '"');
    write_escaped(out, s);
    push_char(out, '"');
    proof {
        assert(final(out)@ =~= old(out)@ + ser_string(s@));
    }
}

/// Append the canonical text of `v` to `out`.
pub fn write_value(out: &mut String, v: &JsonValue)
    ensures
        final(out)@ == old(out)@ + ser_value(v@),
    decreases jm_height(jv_model(*v)),
{
    match v {
        JsonValue::Null => {
            push_char(out, 'n');
            push_char(out, 'u');
            push_char(out, 'l');
            push_char(out, 'l');
            proof {
                assert(final(out)@ =~= old(out)@ + ser_value(v@));
            }
        },
        JsonValue::Bool(b) => {
            if *b {
                push_char(out, 't');
                push_char(out, 'r');
                push_char(out, 'u');
                push_char(out, 'e');
            } else {
                push_char(out, 'f');
                push_char(out, 'a');
                push_char(out, 'l');
                push_char(out, 's');
                push_char(out, 'e');
            }
            proof {
                assert(final(out)@ =~= old(out)@ + ser_value(v@));
            }
        },
        JsonValue::Num(lex) => {
            out.append(lex.as_str());
        },
        JsonValue::Str(s) => {
            write_string(out, s.as_str());
        },
        JsonValue::Arr(items) => {
            push_char(out, '[');
            let ghost ms = jv_models(items@);
            proof {
                lemma_jv_models_index(items@);
            }
            let n: usize = items.len();
            let mut j: usize = 0;
            while j < n
                invariant
                    j <= n,
                    n == items@.len(),
                    ms == jv_models(items@),
                    ms.len() == n,
                    jv_model(*v) == JsonModel::Arr(ms),
                    forall|k: int| 0 <= k < n ==> ms[k] == jv_model(#[trigger] items@[k]),
                    out@ == old(out)@ + seq!['['] + ser_items(ms.subrange(0, j as int)),
                decreases n - j,
            {
                if j > 0 {
                    push_char(out, ',');
                }
                proof {
                    lemma_jm_heights_bound(ms, j as int);
                    assert(jv_model(*v) == JsonModel::Arr(ms));
                    assert(jm_height(jv_model(items@[j as int])) < jm_height(jv_model(*v)));
                }
                write_value(out, &items[j]);
                proof {
                    let prefix = ms.subrange(0, j as int);
                    assert(ms.subrange(0, j + 1) =~= prefix.push(ms[j as int]));
                    lemma_ser_items_snoc(prefix, ms[j as int]);
                    assert(out@ =~= old(out)@ + seq!['['] + ser_items(ms.subrange(0, j + 1)));
                }
                j = j + 1;
            }
            push_char(out, ']');
            proof {
                assert(ms.subrange(0, n as int) =~= ms);
                assert(final(out)@ =~= old(out)@ + ser_value(v@));
            }
        },
        JsonValue::Obj(members) => {
            push_char(out, '{');
            let ghost ms = jv_member_models(members@);
            proof {
                lemma_jv_member_models_index(members@);
            }
            let n: usize = members.len();
            let mut j: usize = 0;
            while j < n
                invariant
                    j <= n,
                    n == members@.len(),
                    ms == jv_member_models(members@),
                    ms.len() == n,
                    jv_model(*v) == JsonModel::Obj(ms),
                    forall|k: int| 0 <= k < n ==> ms[k]
                        == ((#[trigger] members@[k]).0@, jv_model(members@[k].1)),
                    out@ == old(out)@ + seq!['{'] + ser_members(ms.subrange(0, j as int)),
                decreases n - j,
            {
                if j > 0 {
                    push_char(out, ',');
                }
                write_string(out, members[j].0.as_str());
                push_char(out, ':');
                proof {
                    lemma_jm_member_heights_bound(ms, j as int);
                    assert(jv_model(*v) == JsonModel::Obj(ms));
                    assert(jm_height(jv_model(members@[j as int].1)) < jm_height(jv_model(*v)));
                }
                write_value(out, &members[j].1);
                proof {
                    let prefix = ms.subrange(0, j as int);
                    assert(ms.subrange(0, j + 1) =~= prefix.push(ms[j as int]));
                    lemma_ser_members_snoc(prefix, ms[j as int]);
                    assert(out@ =~= old(out)@ + seq!['{'] + ser_members(ms.subrange(0, j + 1)));
                }
                j = j + 1;
            }
            push_char(out, '}');
            proof {
                assert(ms.subrange(0, n as int) =~= ms);
                assert(final(out)@ =~= old(out)@ + ser_value(v@));
            }
        },
    }
}

// ---------------------------------------------------------------------
// The executable parser
// ---------------------------------------------------------------------

/// Prepending one element to a member sequence prepends its model.
proof fn lemma_jv_member_models_cons(x: (String, JsonValue), r: Seq<(String, JsonValue)>)
    ensures
        jv_member_models(seq![x] + r) == seq![(x.0@, jv_model(x.1))] + jv_member_models(r),
{
    let xs = seq![x] + r;
    assert(xs[0] == x);
    assert(xs.subrange(1, xs.len() as int) =~= r);
}

/// Prepending one element to a value sequence prepends its model.
proof fn lemma_jv_models_cons(x: JsonValue, r: Seq<JsonValue>)
    ensures
        jv_models(seq![x] + r) == seq![jv_model(x)] + jv_models(r),
{
    let xs = seq![x] + r;
    assert(xs[0] == x);
    assert(xs.subrange(1, xs.len() as int) =~= r);
}

/// The value of a hex digit, either case.
fn hex_val_exec(c: char) -> (r: Option<u8>)
    ensures
        r == hex_val(c),
        r matches Some(n) ==> n < 16,
{
    let u = c as u32;
    if 0x30 <= u && u <= 0x39 {
        Some((u - 0x30) as u8)
    } else if 0x61 <= u && u <= 0x66 {
        Some((u - 0x61 + 10) as u8)
    } else if 0x41 <= u && u <= 0x46 {
        Some((u - 0x41 + 10) as u8)
    } else {
        None
    }
}

/// The character named by a one-letter escape, if any.
fn esc_short_exec(e: char) -> (r: Option<char>)
    ensures
        r == esc_short(e),
{
    if e == '"' {
        Some('"')
    } else if e == '\\' {
        Some('\\')
    } else if e == '/' {
        Some('/')
    } else if e == 'b' {
        Some('\u{0008}')
    } else if e == 'f' {
        Some('\u{000C}')
    } else if e == 'n' {
        Some('\n')
    } else if e == 'r' {
        Some('\r')
    } else if e == 't' {
        Some('\t')
    } else {
        None
    }
}

/// Whether `c` may appear in a number lexeme.
fn num_char_exec(c: char) -> (r: bool)
    ensures
        r == num_char(c),
{
    let u = c as u32;
    (0x30 <= u && u <= 0x39) || c == '-' || c == '+' || c == '.' || c == 'e' || c == 'E'
}

/// The length of the run of number characters starting at `i`.
fn count_num_exec(s: &str, i: usize) -> (r: usize)
    requires
        i as nat <= s@.len(),
    ensures
        r as nat == count_num(s@, i as int),
        i + r <= s@.len(),
    decreases s@.len() - i,
{
    let n: usize = s.unicode_len();
    if i < n {
        let c = s.get_char(i);
        if num_char_exec(c) {
            let k = count_num_exec(s, i + 1);
            k + 1
        } else {
            0
        }
    } else {
        0
    }
}

/// Skip the insignificant whitespace at `i`.
fn after_ws_exec(s: &str, i: usize) -> (r: usize)
    requires
        i as nat <= s@.len(),
    ensures
        r as int == after_ws(s@, i as int),
        i <= r,
        r as nat <= s@.len(),
{
    let n: usize = s.unicode_len();
    let mut j: usize = i;
    loop
        invariant_except_break
            i <= j,
            j as nat <= s@.len(),
            n == s@.len(),
            after_ws(s@, i as int) == after_ws(s@, j as int),
        ensures
            i <= j,
            j as nat <= s@.len(),
            j as int == after_ws(s@, i as int),
        decreases s@.len() - j,
    {
        if j >= n {
            proof {
                lemma_after_ws_here(s@, j as int);
            }
            break;
        }
        let c = s.get_char(j);
        if !(c == ' ' || c == '\t' || c == '\n' || c == '\r') {
            proof {
                lemma_after_ws_here(s@, j as int);
            }
            break;
        }
        proof {
            lemma_ws_count_le(s@, j as int);
            lemma_ws_count_le(s@, j as int + 1);
        }
        j = j + 1;
    }
    j
}

/// Relies on `char::from_u32`: it succeeds exactly on the Unicode
/// scalar values and returns the character with that value.
#[verifier::external_body]
fn char_from_u32(v: u32) -> (r: Option<char>)
    ensures
        r is Some <==> (v < 0xD800 || (0xE000 <= v && v <= 0x10FFFF)),
        r matches Some(c) ==> c as u32 == v,
{
    char::from_u32(v)
}

/// Parse the body of a string literal at `i`, just after the opening
/// quote.
fn parse_chars_exec(s: &str, i: usize) -> (r: Option<(String, usize)>)
    requires
        i as nat <= s@.len(),
    ensures
        match r {
            Some(p) => {
                &&& parse_chars(s@, i as int) == Some((p.0@, p.1 as nat))
                &&& i + p.1 <= s@.len()
            },
            None => parse_chars(s@, i as int) is None,
        },
    decreases s@.len() - i,
{
    let n: usize = s.unicode_len();
    if i >= n {
        return None;
    }
    let c = s.get_char(i);
    if c == '"' {
        Some((String::new(), 1))
    } else if c == '\\' {
        if n - i < 2 {
            return None;
        }
        let e = s.get_char(i + 1);
        if e == 'u' {
            if n - i < 6 {
                return None;
            }
            let h0 = hex_val_exec(s.get_char(i + 2));
            let h1 = hex_val_exec(s.get_char(i + 3));
            let h2 = hex_val_exec(s.get_char(i + 4));
            let h3 = hex_val_exec(s.get_char(i + 5));
            match (h0, h1, h2, h3) {
                (Some(d0), Some(d1), Some(d2), Some(d3)) => {
                    let v: u32 = (d0 as u32) * 0x1000 + (d1 as u32) * 0x100 + (d2 as u32) * 16
                        + (d3 as u32);
                    if 0xD800 <= v && v <= 0xDBFF {
                        // a high surrogate: a low one must follow
                        if n - i < 12 {
                            return None;
                        }
                        if s.get_char(i + 6) != '\\' || s.get_char(i + 7) != 'u' {
                            return None;
                        }
                        let g0 = hex_val_exec(s.get_char(i + 8));
                        let g1 = hex_val_exec(s.get_char(i + 9));
                        let g2 = hex_val_exec(s.get_char(i + 10));
                        let g3 = hex_val_exec(s.get_char(i + 11));
                        match (g0, g1, g2, g3) {
                            (Some(f0), Some(f1), Some(f2), Some(f3)) => {
                                let w: u32 = (f0 as u32) * 0x1000 + (f1 as u32) * 0x100
                                    + (f2 as u32) * 16 + (f3 as u32);
                                if 0xDC00 <= w && w <= 0xDFFF {
                                    let cp: u32 = 0x10000 + (v - 0xD800) * 0x400 + (w - 0xDC00);
                                    match char_from_u32(cp) {
                                        Some(ch) => {
                                            proof {
                                                vstd::utf8::char_u32_cast(ch, cp);
                                            }
                                            match parse_chars_exec(s, i + 12) {
                                                Some((cs, k)) => {
                                                    let mut out = String::new();
                                                    push_char(&mut out, ch);
                                                    out.append(cs.as_str());
                                                    Some((out, k + 12))
                                                },
                                                None => None,
                                            }
                                        },
                                        None => vstd::pervasive::unreached(),
                                    }
                                } else {
                                    None
                                }
                            },
                            _ => None,
                        }
                    } else if 0xDC00 <= v && v <= 0xDFFF {
                        // a lone low surrogate names nothing
                        None
                    } else {
                        match char_from_u32(v) {
                            Some(ch) => {
                                proof {
                                    vstd::utf8::char_u32_cast(ch, v);
                                }
                                match parse_chars_exec(s, i + 6) {
                                    Some((cs, k)) => {
                                        let mut out = String::new();
                                        push_char(&mut out, ch);
                                        out.append(cs.as_str());
                                        Some((out, k + 6))
                                    },
                                    None => None,
                                }
                            },
                            None => vstd::pervasive::unreached(),
                        }
                    }
                },
                _ => None,
            }
        } else {
            match esc_short_exec(e) {
                Some(c2) => match parse_chars_exec(s, i + 2) {
                    Some((cs, k)) => {
                        let mut out = String::new();
                        push_char(&mut out, c2);
                        out.append(cs.as_str());
                        Some((out, k + 2))
                    },
                    None => None,
                },
                None => None,
            }
        }
    } else if (c as u32) < 0x20 {
        None
    } else {
        match parse_chars_exec(s, i + 1) {
            Some((cs, k)) => {
                let mut out = String::new();
                push_char(&mut out, c);
                out.append(cs.as_str());
                Some((out, k + 1))
            },
            None => None,
        }
    }
}

/// Parse one JSON value at `i`, leading whitespace included.
pub fn parse_value_exec(s: &str, i: usize) -> (r: Option<(JsonValue, usize)>)
    requires
        i as nat <= s@.len(),
    ensures
        match r {
            Some(p) => {
                &&& parse_value(s@, i as int) == Some((p.0@, p.1 as nat))
                &&& i + p.1 <= s@.len()
            },
            None => parse_value(s@, i as int) is None,
        },
    decreases s@.len() - i, 0int,
{
    let n: usize = s.unicode_len();
    let i0 = after_ws_exec(s, i);
    if i0 >= n {
        return None;
    }
    let c = s.get_char(i0);
    if c == '{' {
        let je = after_ws_exec(s, i0 + 1);
        if je < n && s.get_char(je) == '}' {
            let out: Vec<(String, JsonValue)> = Vec::new();
            proof {
                assert(jv_member_models(out@) =~= Seq::<(Seq<char>, JsonModel)>::empty());
            }
            return Some((JsonValue::Obj(out), je + 1 - i));
        }
        match parse_members_exec(s, i0 + 1) {
            Some((ms, k)) => {
                let j = after_ws_exec(s, i0 + 1 + k);
                if j < n && s.get_char(j) == '}' {
                    Some((JsonValue::Obj(ms), j + 1 - i))
                } else {
                    None
                }
            },
            None => None,
        }
    } else if c == '[' {
        let je = after_ws_exec(s, i0 + 1);
        if je < n && s.get_char(je) == ']' {
            let out: Vec<JsonValue> = Vec::new();
            proof {
                assert(jv_models(out@) =~= Seq::<JsonModel>::empty());
            }
            return Some((JsonValue::Arr(out), je + 1 - i));
        }
        match parse_items_exec(s, i0 + 1) {
            Some((items, k)) => {
                let j = after_ws_exec(s, i0 + 1 + k);
                if j < n && s.get_char(j) == ']' {
                    Some((JsonValue::Arr(items), j + 1 - i))
                } else {
                    None
                }
            },
            None => None,
        }
    } else if c == '"' {
        match parse_chars_exec(s, i0 + 1) {
            Some((cs, k)) => Some((JsonValue::Str(cs), i0 + 1 + k - i)),
            None => None,
        }
    } else if c == 't' {
        if n - i0 >= 4 && s.get_char(i0 + 1) == 'r' && s.get_char(i0 + 2) == 'u'
            && s.get_char(i0 + 3) == 'e' {
            Some((JsonValue::Bool(true), i0 + 4 - i))
        } else {
            None
        }
    } else if c == 'f' {
        if n - i0 >= 5 && s.get_char(i0 + 1) == 'a' && s.get_char(i0 + 2) == 'l'
            && s.get_char(i0 + 3) == 's' && s.get_char(i0 + 4) == 'e' {
            Some((JsonValue::Bool(false), i0 + 5 - i))
        } else {
            None
        }
    } else if c == 'n' {
        if n - i0 >= 4 && s.get_char(i0 + 1) == 'u' && s.get_char(i0 + 2) == 'l'
            && s.get_char(i0 + 3) == 'l' {
            Some((JsonValue::Null, i0 + 4 - i))
        } else {
            None
        }
    } else if (0x30 <= (c as u32) && (c as u32) <= 0x39) || c == '-' {
        let k = count_num_exec(s, i0);
        let lex = s.substring_char(i0, i0 + k).to_owned();
        Some((JsonValue::Num(lex), i0 + k - i))
    } else {
        None
    }
}

/// Parse a nonempty comma-separated run of object members at `i`.
fn parse_members_exec(s: &str, i: usize) -> (r: Option<(Vec<(String, JsonValue)>, usize)>)
    requires
        i as nat <= s@.len(),
    ensures
        match r {
            Some(p) => {
                &&& parse_members(s@, i as int) == Some((jv_member_models(p.0@), p.1 as nat))
                &&& i + p.1 <= s@.len()
            },
            None => parse_members(s@, i as int) is None,
        },
    decreases s@.len() - i, 1int,
{
    let n: usize = s.unicode_len();
    let i0 = after_ws_exec(s, i);
    if i0 >= n {
        return None;
    }
    if s.get_char(i0) != '"' {
        return None;
    }
    match parse_chars_exec(s, i0 + 1) {
        Some((key, k1)) => {
            let j = after_ws_exec(s, i0 + 1 + k1);
            if j < n && s.get_char(j) == ':' {
                match parse_value_exec(s, j + 1) {
                    Some((v, k2)) => {
                        let j2 = j + 1 + k2;
                        let j3 = after_ws_exec(s, j2);
                        if j3 < n && s.get_char(j3) == ',' {
                            match parse_members_exec(s, j3 + 1) {
                                Some((rest, k3)) => {
                                    let ghost rest_seq = rest@;
                                    let ghost rest_m = jv_member_models(rest@);
                                    let mut out: Vec<(String, JsonValue)> = Vec::new();
                                    out.push((key, v));
                                    let mut tail = rest;
                                    out.append(&mut tail);
                                    proof {
                                        let head = out@[0];
                                        let back = out@.subrange(1, out@.len() as int);
                                        assert(out@ =~= seq![head] + back);
                                        assert(back =~= rest_seq);
                                        lemma_jv_member_models_cons(head, back);
                                    }
                                    Some((out, j3 + 1 + k3 - i))
                                },
                                None => None,
                            }
                        } else {
                            let mut out: Vec<(String, JsonValue)> = Vec::new();
                            out.push((key, v));
                            proof {
                                let head = out@[0];
                                let back = out@.subrange(1, out@.len() as int);
                                assert(out@ =~= seq![head] + back);
                                assert(back =~= Seq::<(String, JsonValue)>::empty());
                                lemma_jv_member_models_cons(head, back);
                                assert(jv_member_models(back) =~= Seq::<(
                                    Seq<char>,
                                    JsonModel,
                                )>::empty());
                                assert(jv_member_models(out@) =~= seq![(head.0@, jv_model(head.1))]);
                            }
                            Some((out, j2 - i))
                        }
                    },
                    None => None,
                }
            } else {
                None
            }
        },
        None => None,
    }
}

/// Parse a nonempty comma-separated run of array elements at `i`.
fn parse_items_exec(s: &str, i: usize) -> (r: Option<(Vec<JsonValue>, usize)>)
    requires
        i as nat <= s@.len(),
    ensures
        match r {
            Some(p) => {
                &&& parse_items(s@, i as int) == Some((jv_models(p.0@), p.1 as nat))
                &&& i + p.1 <= s@.len()
            },
            None => parse_items(s@, i as int) is None,
        },
    decreases s@.len() - i, 1int,
{
    let n: usize = s.unicode_len();
    match parse_value_exec(s, i) {
        Some((v, k)) => {
            let j = i + k;
            let j2 = after_ws_exec(s, j);
            if j2 < n && s.get_char(j2) == ',' {
                match parse_items_exec(s, j2 + 1) {
                    Some((rest, k2)) => {
                        let ghost rest_seq = rest@;
                        let mut out: Vec<JsonValue> = Vec::new();
                        out.push(v);
                        let mut tail = rest;
                        out.append(&mut tail);
                        proof {
                            let head = out@[0];
                            let back = out@.subrange(1, out@.len() as int);
                            assert(out@ =~= seq![head] + back);
                            assert(back =~= rest_seq);
                            lemma_jv_models_cons(head, back);
                        }
                        Some((out, j2 + 1 + k2 - i))
                    },
                    None => None,
                }
            } else {
                let mut out: Vec<JsonValue> = Vec::new();
                out.push(v);
                proof {
                    let head = out@[0];
                    let back = out@.subrange(1, out@.len() as int);
                    assert(out@ =~= seq![head] + back);
                    assert(back =~= Seq::<JsonValue>::empty());
                    lemma_jv_models_cons(head, back);
                    assert(jv_models(back) =~= Seq::<JsonModel>::empty());
                    assert(jv_models(out@) =~= seq![jv_model(head)]);
                }
                Some((out, k))
            }
        },
        None => None,
    }
}

/// Parse a whole text as one JSON value; only whitespace may follow.
pub fn parse_text_exec(s: &str) -> (r: Option<JsonValue>)
    ensures
        match r {
            Some(v) => parse_text(s@) == Some(v@),
            None => parse_text(s@) is None,
        },
{
    let n: usize = s.unicode_len();
    match parse_value_exec(s, 0) {
        Some((v, k)) => {
            let e = after_ws_exec(s, k);
            if e == n {
                Some(v)
            } else {
                None
            }
        },
        None => None,
    }
}

/// Whether two string slices hold the same characters.
pub fn str_eq(a: &str, b: &str) -> (r: bool)
    ensures
        r == (a@ == b@),
{
    let na: usize = a.unicode_len();
    let nb: usize = b.unicode_len();
    if na != nb {
        return false;
    }
    let mut i: usize = 0;
    while i < na
        invariant
            i <= na,
            na == a@.len(),
            na == b@.len(),
            forall|k: int| 0 <= k < i ==> a@[k] == b@[k],
        decreases na - i,
    {
        if a.get_char(i) != b.get_char(i) {
            return false;
        }
        i = i + 1;
    }
    proof {
        assert(a@ =~= b@);
    }
    true
}

/// The canonical text of `v`.
pub fn emit_value(v: &JsonValue) -> (r: String)
    ensures
        r@ == ser_value(v@),
{
    let mut out = String::new();
    write_value(&mut out, v);
    proof {
        assert(out@ =~= ser_value(v@));
    }
    out
}

} // verus!
