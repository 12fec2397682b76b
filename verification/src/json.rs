//! The JSON document model that the engine's messages are built from.
//!
//! A JSON-RPC body is a JSON value; the engine builds outbound envelopes as
//! values of this type and reads inbound bodies through it.  Numbers are
//! modelled as 64-bit integers: every field the protocol reads (ids, error
//! codes, positions, versions) is integral, and a body with a fractional or
//! exponent number is treated as undecodable.

use vstd::prelude::*;

verus! {

/// A JSON value as executable data: the engine's own document tree.
pub enum Json {
    Null,
    Bool(bool),
    Int(i64),
    Str(String),
    Arr(Vec<Json>),
    Obj(Vec<(String, Json)>),
}

/// The mathematical shape of a JSON value: strings are character sequences,
/// aggregates are sequences.
pub enum JsonV {
    Null,
    Bool(bool),
    Int(i64),
    Str(Seq<char>),
    Arr(Seq<JsonV>),
    Obj(Seq<(Seq<char>, JsonV)>),
}

/// The mathematical value of executable JSON `j`.
pub open spec fn jview(j: Json) -> JsonV
    decreases j, 0int,
{
    match j {
        Json::Null => JsonV::Null,
        Json::Bool(b) => JsonV::Bool(b),
        Json::Int(i) => JsonV::Int(i),
        Json::Str(s) => JsonV::Str(s@),
        Json::Arr(a) => JsonV::Arr(views_of(a@)),
        Json::Obj(o) => JsonV::Obj(members_of(o@)),
    }
}

/// The mathematical values of a sequence of JSON values, elementwise.
pub open spec fn views_of(s: Seq<Json>) -> Seq<JsonV>
    decreases s, 1int,
{
    if s.len() == 0 {
        Seq::empty()
    } else {
        views_of(s.drop_last()).push(jview(s.last()))
    }
}

/// The mathematical values of a sequence of key/value members, elementwise.
pub open spec fn members_of(s: Seq<(String, Json)>) -> Seq<(Seq<char>, JsonV)>
    decreases s, 1int,
{
    if s.len() == 0 {
        Seq::empty()
    } else {
        members_of(s.drop_last()).push((s.last().0@, jview(s.last().1)))
    }
}

pub broadcast proof fn lemma_views_of(s: Seq<Json>)
    ensures
        (#[trigger] views_of(s)).len() == s.len(),
        forall|i: int| 0 <= i < s.len() ==> views_of(s)[i] == jview(s[i]),
    decreases s.len(),
{
    if s.len() > 0 {
        lemma_views_of(s.drop_last());
        assert(forall|i: int| 0 <= i < s.len() - 1 ==> s.drop_last()[i] == s[i]);
    }
}

pub broadcast proof fn lemma_members_of(s: Seq<(String, Json)>)
    ensures
        (#[trigger] members_of(s)).len() == s.len(),
        forall|i: int|
            0 <= i < s.len() ==> members_of(s)[i] == (s[i].0@, jview(s[i].1)),
    decreases s.len(),
{
    if s.len() > 0 {
        lemma_members_of(s.drop_last());
        assert(forall|i: int| 0 <= i < s.len() - 1 ==> s.drop_last()[i] == s[i]);
    }
}

impl View for Json {
    type V = JsonV;

    open spec fn view(&self) -> JsonV {
        jview(*self)
    }
}

/// The first index of `o` holding key `k`, or -1.
pub open spec fn obj_index_of(o: Seq<(Seq<char>, JsonV)>, k: Seq<char>) -> int
    decreases o.len(),
{
    if o.len() == 0 {
        -1
    } else if o[0].0 == k {
        0
    } else {
        let r = obj_index_of(o.drop_first(), k);
        if r < 0 {
            -1
        } else {
            r + 1
        }
    }
}

/// Whether object members `o` contain key `k`.
pub open spec fn obj_has_key(o: Seq<(Seq<char>, JsonV)>, k: Seq<char>) -> bool {
    obj_index_of(o, k) >= 0
}

/// The value under the first member of `o` with key `k`.
pub open spec fn obj_value_of(o: Seq<(Seq<char>, JsonV)>, k: Seq<char>) -> JsonV {
    o[obj_index_of(o, k)].1
}

impl JsonV {
    /// Whether this value is an object holding key `k`.
    pub open spec fn has_key(self, k: Seq<char>) -> bool {
        self is Obj && obj_has_key(self->Obj_0, k)
    }

    /// The value under key `k` of this object.
    pub open spec fn value_of(self, k: Seq<char>) -> JsonV {
        obj_value_of(self->Obj_0, k)
    }
}

// ---------------------------------------------------------------------------
// Canonical serialization, as a character sequence.
//
// The engine always emits this form: no whitespace between tokens, object
// members in construction order, and every character outside printable ASCII
// escaped, so that the emitted text is pure ASCII and its byte length equals
// its character length.
// ---------------------------------------------------------------------------
/// The character for decimal digit `d`.
pub open spec fn dec_digit_char(d: int) -> char
    recommends
        0 <= d < 10,
{
    ((48 + d) as u32) as char
}

/// The decimal digits of `n`, most significant first, no leading zeros
/// (a single `'0'` for zero).
pub open spec fn dec_digits(n: int) -> Seq<char>
    recommends
        n >= 0,
    decreases n,
{
    if n < 10 {
        seq![dec_digit_char(n)]
    } else {
        dec_digits(n / 10).push(dec_digit_char(n % 10))
    }
}

/// The serialization of integer `i`: an optional minus sign and the decimal
/// digits of its magnitude.
pub open spec fn ser_int(i: int) -> Seq<char> {
    if i < 0 {
        seq!['-'] + dec_digits(-i)
    } else {
        dec_digits(i)
    }
}

/// The character for hexadecimal digit `d`, lower case.
pub open spec fn hex_digit_char(d: int) -> char
    recommends
        0 <= d < 16,
{
    if d < 10 {
        ((48 + d) as u32) as char
    } else {
        ((87 + d) as u32) as char
    }
}

/// Four hexadecimal digits of `n`, most significant first.
pub open spec fn hex4(n: int) -> Seq<char>
    recommends
        0 <= n < 0x10000,
{
    seq![
        hex_digit_char(n / 0x1000),
        hex_digit_char((n / 0x100) % 16),
        hex_digit_char((n / 16) % 16),
        hex_digit_char(n % 16),
    ]
}

/// The `\uXXXX` escape of `c`: one unit for characters in the basic plane,
/// a surrogate pair for the rest.
pub open spec fn esc_unicode(c: char) -> Seq<char> {
    let n = c as u32 as int;
    if n < 0x10000 {
        seq!['\\', 'u'] + hex4(n)
    } else {
        seq!['\\', 'u'] + hex4(0xD800 + (n - 0x10000) / 0x400) + seq!['\\', 'u'] + hex4(
            0xDC00 + (n - 0x10000) % 0x400,
        )
    }
}

/// The serialization of one string character: quote and backslash get a
/// two-character escape, everything outside printable ASCII a `\u` escape,
/// and the rest stands for itself.
pub open spec fn esc_char(c: char) -> Seq<char> {
    if c == '"' {
        seq!['\\', '"']
    } else if c == '\\' {
        seq!['\\', '\\']
    } else if (c as u32) < 0x20 || (c as u32) > 0x7e {
        esc_unicode(c)
    } else {
        seq![c]
    }
}

/// The serialized body of string `s` from index `i` on: each character
/// escaped, concatenated.
pub open spec fn ser_str_body(s: Seq<char>, i: int) -> Seq<char>
    decreases s.len() - i,
{
    if i < 0 || i >= s.len() {
        Seq::empty()
    } else {
        esc_char(s[i]) + ser_str_body(s, i + 1)
    }
}

/// The serialization of string `s`: its escaped body in quotes.
pub open spec fn ser_string(s: Seq<char>) -> Seq<char> {
    seq!['"'] + ser_str_body(s, 0) + seq!['"']
}

/// The canonical serialization of value `v`.
pub open spec fn ser_value(v: JsonV) -> Seq<char>
    decreases v, 0int, 0int,
{
    match v {
        JsonV::Null => seq!['n', 'u', 'l', 'l'],
        JsonV::Bool(b) => if b {
            seq!['t', 'r', 'u', 'e']
        } else {
            seq!['f', 'a', 'l', 's', 'e']
        },
        JsonV::Int(i) => ser_int(i as int),
        JsonV::Str(s) => ser_string(s),
        JsonV::Arr(a) => seq!['['] + ser_elems(a, 0) + seq![']'],
        JsonV::Obj(o) => seq!['{'] + ser_members(o, 0) + seq!['}'],
    }
}

/// The serialized elements of array `a` from index `i` on, comma-separated.
pub open spec fn ser_elems(a: Seq<JsonV>, i: int) -> Seq<char>
    decreases a, a.len() - i, 1int,
{
    if i < 0 || i >= a.len() {
        Seq::empty()
    } else if i == a.len() - 1 {
        ser_value(a[i])
    } else {
        ser_value(a[i]) + seq![','] + ser_elems(a, i + 1)
    }
}

/// The serialized members of object `o` from index `i` on: `"key":value`,
/// comma-separated.
pub open spec fn ser_members(o: Seq<(Seq<char>, JsonV)>, i: int) -> Seq<char>
    decreases o, o.len() - i, 1int,
{
    if i < 0 || i >= o.len() {
        Seq::empty()
    } else if i == o.len() - 1 {
        ser_string(o[i].0) + seq![':'] + ser_value(o[i].1)
    } else {
        ser_string(o[i].0) + seq![':'] + ser_value(o[i].1) + seq![','] + ser_members(o, i + 1)
    }
}

// ---------------------------------------------------------------------------
// Parsing, as a function on character sequences.
//
// The parser accepts standard JSON with integral numbers: whitespace between
// tokens, every string escape form (including surrogate pairs), and rejects
// fractional or exponent numbers, lone surrogates, unescaped control
// characters, leading zeros, and trailing garbage.
//
// Each parsing function takes a position and returns the parsed result with
// the position after it.  A successful sub-parse always moves forward; the
// explicit progress checks below restate that so the mutual recursion is
// visibly well-founded.
// ---------------------------------------------------------------------------
/// JSON insignificant whitespace.
pub open spec fn is_ws(c: char) -> bool {
    c == ' ' || c == '\t' || c == '\n' || c == '\r'
}

/// The first index at or after `i` holding a non-whitespace character.
pub open spec fn skip_ws(s: Seq<char>, i: int) -> int
    decreases s.len() - i,
{
    if i < 0 || i >= s.len() || !is_ws(s[i]) {
        i
    } else {
        skip_ws(s, i + 1)
    }
}

pub open spec fn is_digit(c: char) -> bool {
    48 <= c as u32 <= 57
}

/// The numeric value of hexadecimal digit `c`, or -1 if `c` is none.
pub open spec fn hexval(c: char) -> int {
    let n = c as u32 as int;
    if 48 <= n <= 57 {
        n - 48
    } else if 97 <= n <= 102 {
        n - 87
    } else if 65 <= n <= 70 {
        n - 55
    } else {
        -1
    }
}

/// The value of the four hexadecimal digits at `i`, or -1 if any is invalid
/// or the input is too short.
pub open spec fn hexval4(s: Seq<char>, i: int) -> int {
    if i < 0 || i + 4 > s.len() {
        -1
    } else if hexval(s[i]) < 0 || hexval(s[i + 1]) < 0 || hexval(s[i + 2]) < 0 || hexval(
        s[i + 3],
    ) < 0 {
        -1
    } else {
        0x1000 * hexval(s[i]) + 0x100 * hexval(s[i + 1]) + 16 * hexval(s[i + 2]) + hexval(s[i + 3])
    }
}

/// The character and end position of the escape starting at `i` (the index
/// just after the backslash), or None if it is ill-formed.
pub open spec fn parse_escape(s: Seq<char>, i: int) -> Option<(char, int)> {
    if i < 0 || i >= s.len() {
        None
    } else if s[i] == '"' {
        Some(('"', i + 1))
    } else if s[i] == '\\' {
        Some(('\\', i + 1))
    } else if s[i] == '/' {
        Some(('/', i + 1))
    } else if s[i] == 'b' {
        Some(('\u{0008}', i + 1))
    } else if s[i] == 'f' {
        Some(('\u{000C}', i + 1))
    } else if s[i] == 'n' {
        Some(('\n', i + 1))
    } else if s[i] == 'r' {
        Some(('\r', i + 1))
    } else if s[i] == 't' {
        Some(('\t', i + 1))
    } else if s[i] == 'u' {
        let n = hexval4(s, i + 1);
        if n < 0 {
            None
        } else if 0xD800 <= n < 0xDC00 {
            // A high surrogate: the low half must follow as a second escape.
            if i + 11 <= s.len() && s[i + 5] == '\\' && s[i + 6] == 'u' {
                let m = hexval4(s, i + 7);
                if 0xDC00 <= m < 0xE000 {
                    Some(((((0x10000 + (n - 0xD800) * 0x400 + (m - 0xDC00)) as u32) as char), i + 11))
                } else {
                    None
                }
            } else {
                None
            }
        } else if 0xDC00 <= n < 0xE000 {
            // A lone low surrogate is no scalar value.
            None
        } else {
            Some((((n as u32) as char), i + 5))
        }
    } else {
        None
    }
}

/// The content and end position (just past the closing quote) of the string
/// body starting at `i`, or None if the string is unterminated or holds an
/// ill-formed escape or an unescaped control character.
pub open spec fn parse_str_body(s: Seq<char>, i: int) -> Option<(Seq<char>, int)>
    decreases s.len() - i,
{
    if i < 0 || i >= s.len() {
        None
    } else if s[i] == '"' {
        Some((Seq::empty(), i + 1))
    } else if s[i] == '\\' {
        match parse_escape(s, i + 1) {
            Some((c, j)) => if j > i {
                match parse_str_body(s, j) {
                    Some((rest, k)) => Some((seq![c] + rest, k)),
                    None => None,
                }
            } else {
                None
            },
            None => None,
        }
    } else if (s[i] as u32) < 0x20 {
        None
    } else {
        match parse_str_body(s, i + 1) {
            Some((rest, k)) => Some((seq![s[i]] + rest, k)),
            None => None,
        }
    }
}

/// The first index at or after `i` holding a non-digit character.
pub open spec fn digits_end(s: Seq<char>, i: int) -> int
    decreases s.len() - i,
{
    if i < 0 || i >= s.len() || !is_digit(s[i]) {
        i
    } else {
        digits_end(s, i + 1)
    }
}

/// The value of the digit run `s[i .. end]`.
pub open spec fn digits_val(s: Seq<char>, i: int, end: int) -> int
    decreases end - i,
{
    if i >= end {
        0
    } else {
        digits_val(s, i, end - 1) * 10 + (s[end - 1] as u32 - 48)
    }
}

/// The integer and end position of the number starting at `i`, or None if it
/// is no well-formed integral JSON number that fits an `i64`.
pub open spec fn parse_number(s: Seq<char>, i: int) -> Option<(JsonV, int)> {
    let neg = 0 <= i < s.len() && s[i] == '-';
    let i0 = if neg {
        i + 1
    } else {
        i
    };
    if i0 < 0 || i0 >= s.len() || !is_digit(s[i0]) {
        None
    } else {
        let end = digits_end(s, i0);
        if s[i0] == '0' && end > i0 + 1 {
            // Leading zero.
            None
        } else if end < s.len() && (s[end] == '.' || s[end] == 'e' || s[end] == 'E') {
            // A fractional or exponent number: not representable here.
            None
        } else {
            let mag = digits_val(s, i0, end);
            let v = if neg {
                -mag
            } else {
                mag
            };
            if v < i64::MIN || v > i64::MAX {
                None
            } else {
                Some((JsonV::Int(v as i64), end))
            }
        }
    }
}

/// Whether `s` has `lit` at position `i`.
pub open spec fn has_at(s: Seq<char>, i: int, lit: Seq<char>) -> bool {
    0 <= i && i + lit.len() <= s.len() && s.subrange(i, i + lit.len()) == lit
}

/// The value and end position of the JSON value starting exactly at `i`
/// (no leading whitespace), or None.
pub open spec fn parse_value(s: Seq<char>, i: int) -> Option<(JsonV, int)>
    decreases s.len() - i, 0int,
{
    if i < 0 || i >= s.len() {
        None
    } else if s[i] == 'n' {
        if has_at(s, i, seq!['n', 'u', 'l', 'l']) {
            Some((JsonV::Null, i + 4))
        } else {
            None
        }
    } else if s[i] == 't' {
        if has_at(s, i, seq!['t', 'r', 'u', 'e']) {
            Some((JsonV::Bool(true), i + 4))
        } else {
            None
        }
    } else if s[i] == 'f' {
        if has_at(s, i, seq!['f', 'a', 'l', 's', 'e']) {
            Some((JsonV::Bool(false), i + 5))
        } else {
            None
        }
    } else if s[i] == '"' {
        match parse_str_body(s, i + 1) {
            Some((cs, j)) => Some((JsonV::Str(cs), j)),
            None => None,
        }
    } else if s[i] == '-' || is_digit(s[i]) {
        parse_number(s, i)
    } else if s[i] == '[' {
        let j = skip_ws(s, i + 1);
        if j < s.len() && s[j] == ']' {
            Some((JsonV::Arr(Seq::empty()), j + 1))
        } else if j >= i + 1 {
            match parse_elems(s, i + 1) {
                Some((a, k)) => Some((JsonV::Arr(a), k)),
                None => None,
            }
        } else {
            None
        }
    } else if s[i] == '{' {
        let j = skip_ws(s, i + 1);
        if j < s.len() && s[j] == '}' {
            Some((JsonV::Obj(Seq::empty()), j + 1))
        } else if j >= i + 1 {
            match parse_members(s, i + 1) {
                Some((o, k)) => Some((JsonV::Obj(o), k)),
                None => None,
            }
        } else {
            None
        }
    } else {
        None
    }
}

/// One or more comma-separated array elements starting at `i` (whitespace
/// allowed), up to and including the closing bracket.
pub open spec fn parse_elems(s: Seq<char>, i: int) -> Option<(Seq<JsonV>, int)>
    decreases s.len() - i, 1int,
{
    let j = skip_ws(s, i);
    if j < i || j >= s.len() {
        None
    } else {
        match parse_value(s, j) {
            Some((v, k)) => if k <= j || k > s.len() {
                None
            } else {
                let m = skip_ws(s, k);
                if m < k || m >= s.len() {
                    None
                } else if s[m] == ']' {
                    Some((seq![v], m + 1))
                } else if s[m] == ',' {
                    match parse_elems(s, m + 1) {
                        Some((rest, e)) => Some((seq![v] + rest, e)),
                        None => None,
                    }
                } else {
                    None
                }
            },
            None => None,
        }
    }
}

/// One or more comma-separated object members starting at `i` (whitespace
/// allowed), up to and including the closing brace.
pub open spec fn parse_members(s: Seq<char>, i: int) -> Option<(Seq<(Seq<char>, JsonV)>, int)>
    decreases s.len() - i, 1int,
{
    let j = skip_ws(s, i);
    if j < i || j >= s.len() || s[j] != '"' {
        None
    } else {
        match parse_str_body(s, j + 1) {
            Some((key, k)) => if k <= j || k > s.len() {
                None
            } else {
                let c = skip_ws(s, k);
                if c < k || c >= s.len() || s[c] != ':' {
                    None
                } else {
                    let w = skip_ws(s, c + 1);
                    if w < i || w >= s.len() {
                        None
                    } else {
                        match parse_value(s, w) {
                            Some((v, e)) => if e <= c || e > s.len() {
                                None
                            } else {
                                let m = skip_ws(s, e);
                                if m < e || m >= s.len() {
                                    None
                                } else if s[m] == '}' {
                                    Some((seq![(key, v)], m + 1))
                                } else if s[m] == ',' {
                                    match parse_members(s, m + 1) {
                                        Some((rest, e2)) => Some((seq![(key, v)] + rest, e2)),
                                        None => None,
                                    }
                                } else {
                                    None
                                }
                            },
                            None => None,
                        }
                    }
                }
            },
            None => None,
        }
    }
}

/// The parse of a whole document: one JSON value with nothing but
/// whitespace around it.
pub open spec fn json_parse(s: Seq<char>) -> Option<JsonV> {
    let i = skip_ws(s, 0);
    match parse_value(s, i) {
        Some((v, j)) => if skip_ws(s, j) == s.len() {
            Some(v)
        } else {
            None
        },
        None => None,
    }
}

} // verus!
