//! The codec law: parsing the canonical serialization of any JSON value
//! gives that value back.
//!
//! The proof follows the shape of the serializer: one lemma per layer
//! (digits, numbers, escapes, strings, then values, array elements and
//! object members in mutual induction), each stating that the parser,
//! pointed at the serialized text of that layer, consumes exactly it and
//! returns the original value.

use vstd::prelude::*;

use crate::json::{
    dec_digit_char, dec_digits, digits_end, digits_val, esc_char, esc_unicode, has_at,
    hex_digit_char, hex4, hexval, hexval4, is_digit, is_ws, json_parse, parse_elems,
    parse_escape, parse_members, parse_number, parse_str_body, parse_value, ser_elems, ser_int,
    ser_members, ser_str_body, ser_string, ser_value, skip_ws, JsonV,
};

verus! {

/// Nothing of a value can begin at `p`: the input ends there, or a closing
/// or separating token follows.  This is what stands after every serialized
/// value inside a document, and it is exactly what keeps a number from
/// running on.
pub open spec fn closes_value(s: Seq<char>, p: int) -> bool {
    p == s.len() || (0 <= p < s.len() && (s[p] == ',' || s[p] == ']' || s[p] == '}'))
}

proof fn lemma_digit_char(d: int)
    requires
        0 <= d < 10,
    ensures
        dec_digit_char(d) as u32 == 48 + d,
        is_digit(dec_digit_char(d)),
{
    assert((((48 + d) as u32) as char) as u32 == (48 + d) as u32) by {
        assert(vstd::utf8::is_scalar((48 + d) as u32));
    }
}

proof fn lemma_hex_char(d: int)
    requires
        0 <= d < 16,
    ensures
        hexval(hex_digit_char(d)) == d,
{
    if d < 10 {
        assert((((48 + d) as u32) as char) as u32 == (48 + d) as u32) by {
            assert(vstd::utf8::is_scalar((48 + d) as u32));
        }
    } else {
        assert((((87 + d) as u32) as char) as u32 == (87 + d) as u32) by {
            assert(vstd::utf8::is_scalar((87 + d) as u32));
        }
    }
}

proof fn lemma_has_at_concat(s: Seq<char>, i: int, x: Seq<char>, y: Seq<char>)
    requires
        has_at(s, i, x + y),
    ensures
        has_at(s, i, x),
        has_at(s, i + x.len(), y),
        forall|d: int| 0 <= d < x.len() ==> s[i + d] == #[trigger] x[d],
        forall|d: int| 0 <= d < y.len() ==> s[i + x.len() + d] == #[trigger] y[d],
        x.len() > 0 ==> s[i] == x[0],
        y.len() > 0 ==> s[i + x.len()] == y[0],
{
    let xy = x + y;
    assert(forall|d: int| 0 <= d < xy.len() ==> s[i + d] == #[trigger] xy[d]) by {
        assert(forall|d: int|
            0 <= d < xy.len() ==> s[i + d] == #[trigger] s.subrange(i, i + xy.len() as int)[d]);
    }
    assert forall|d: int| 0 <= d < x.len() implies s[i + d] == #[trigger] x[d] by {
        assert(xy[d] == x[d]);
    }
    assert forall|d: int| 0 <= d < y.len() implies s[i + x.len() + d] == #[trigger] y[d] by {
        assert(xy[x.len() + d] == y[d]);
        assert(s[i + (x.len() + d)] == xy[x.len() + d]);
    }
    assert(s.subrange(i, i + x.len() as int) =~= x);
    assert(s.subrange(i + x.len(), i + x.len() + y.len() as int) =~= y);
    if x.len() > 0 {
        assert(s[i + 0] == x[0]);
    }
    if y.len() > 0 {
        assert(s[i + x.len() + 0] == y[0]);
    }
}

/// Where `x` stands at `i` in `s`, each character of `s` there is the
/// corresponding character of `x`.
pub proof fn lemma_lit_at(s: Seq<char>, i: int, x: Seq<char>)
    requires
        has_at(s, i, x),
    ensures
        forall|d: int| 0 <= d < x.len() ==> s[i + d] == #[trigger] x[d],
{
    lemma_has_at_index(s, i, x);
}

proof fn lemma_has_at_index(s: Seq<char>, i: int, x: Seq<char>)
    requires
        has_at(s, i, x),
    ensures
        forall|d: int| 0 <= d < x.len() ==> s[i + d] == #[trigger] x[d],
        x.len() > 0 ==> s[i] == x[0],
{
    assert(forall|d: int|
        0 <= d < x.len() ==> s[i + d] == #[trigger] s.subrange(i, i + x.len() as int)[d]);
    if x.len() > 0 {
        assert(s[i + 0] == x[0]);
    }
}

proof fn lemma_dec_digits_shape(n: int)
    requires
        n >= 0,
    ensures
        dec_digits(n).len() >= 1,
        forall|k: int| 0 <= k < dec_digits(n).len() ==> is_digit(#[trigger] dec_digits(n)[k]),
        n >= 1 ==> dec_digits(n)[0] as u32 != 48,
        n == 0 ==> dec_digits(n) =~= seq![dec_digit_char(0)],
    decreases n,
{
    if n < 10 {
        lemma_digit_char(n);
    } else {
        lemma_dec_digits_shape(n / 10);
        lemma_digit_char(n % 10);
        assert(dec_digits(n) == dec_digits(n / 10).push(dec_digit_char(n % 10)));
        assert(dec_digits(n)[0] == dec_digits(n / 10)[0]);
    }
}

/// Where a run of digits stands and the character after it is no digit, the
/// digit scan ends exactly there.
proof fn lemma_digits_end(s: Seq<char>, i: int, d: Seq<char>)
    requires
        has_at(s, i, d),
        forall|k: int| 0 <= k < d.len() ==> is_digit(#[trigger] d[k]),
        i + d.len() == s.len() || !is_digit(s[i + d.len()]),
    ensures
        digits_end(s, i) == i + d.len(),
    decreases d.len(),
{
    lemma_has_at_index(s, i, d);
    if d.len() == 0 {
    } else {
        assert(s[i + 0] == d[0]);
        assert(is_digit(s[i]));
        let dr = d.drop_first();
        assert(s.subrange(i + 1, i + d.len() as int) =~= dr);
        assert forall|k: int| 0 <= k < dr.len() implies is_digit(#[trigger] dr[k]) by {
            assert(dr[k] == d[k + 1]);
        }
        lemma_digits_end(s, i + 1, dr);
    }
}

/// The digit run of `dec_digits(n)` evaluates back to `n`.
proof fn lemma_digits_val(s: Seq<char>, i: int, n: int)
    requires
        n >= 0,
        has_at(s, i, dec_digits(n)),
    ensures
        digits_val(s, i, i + dec_digits(n).len()) == n,
    decreases n,
{
    lemma_has_at_index(s, i, dec_digits(n));
    if n < 10 {
        lemma_digit_char(n);
        assert(dec_digits(n) =~= seq![dec_digit_char(n)]);
        assert(s[i + 0] == dec_digits(n)[0]);
        assert(s[i] == dec_digit_char(n));
        assert(s[i] as u32 == 48 + n);
        assert(digits_val(s, i, i + 1) == digits_val(s, i, i) * 10 + (s[i] as u32 - 48));
    } else {
        let d = dec_digits(n);
        let dq = dec_digits(n / 10);
        assert(d == dq.push(dec_digit_char(n % 10)));
        assert(d.len() == dq.len() + 1);
        assert(s.subrange(i, i + dq.len() as int) =~= dq);
        lemma_digits_val(s, i, n / 10);
        lemma_digit_char(n % 10);
        assert(d[d.len() - 1] == dec_digit_char(n % 10));
        assert(s[i + (d.len() - 1)] == d[d.len() - 1]);
        assert(digits_val(s, i, i + d.len()) == digits_val(s, i, i + d.len() - 1) * 10 + (s[i
            + d.len() - 1] as u32 - 48)) by {
            assert(i + d.len() > i);
        }
        assert(digits_val(s, i, i + d.len() - 1) == n / 10) by {
            assert(i + d.len() - 1 == i + dq.len());
        }
        assert(s[i + d.len() - 1] as u32 == 48 + n % 10);
        assert(n / 10 * 10 + n % 10 == n);
    }
}

/// Pointed at the serialization of integer `v` with a closing token after
/// it, the number parser returns exactly `v` and stops at that token.
proof fn lemma_parse_number(s: Seq<char>, i: int, v: int)
    requires
        i64::MIN <= v <= i64::MAX,
        has_at(s, i, ser_int(v)),
        closes_value(s, i + ser_int(v).len()),
    ensures
        parse_number(s, i) == Some((JsonV::Int(v as i64), i + ser_int(v).len())),
{
    let mag = if v < 0 {
        -v
    } else {
        v
    };
    let d = dec_digits(mag);
    lemma_dec_digits_shape(mag);
    let i0 = if v < 0 {
        i + 1
    } else {
        i
    };
    if v < 0 {
        assert(ser_int(v) =~= seq!['-'] + d);
        lemma_has_at_concat(s, i, seq!['-'], d);
        assert(s[i + 0] == seq!['-'][0]);
        assert(s[i] == '-');
        assert(has_at(s, i0, d));
    } else {
        assert(ser_int(v) == d);
    }
    lemma_has_at_index(s, i0, d);
    assert(s[i0 + 0] == d[0]);
    assert(is_digit(s[i0]));
    lemma_digits_end(s, i0, d);
    lemma_digits_val(s, i0, mag);
    let end = i0 + d.len();
    // No leading zero unless the magnitude is zero itself.
    if mag >= 1 {
        assert(s[i0] as u32 != 48);
    } else {
        assert(d.len() == 1);
    }
    // The closing token is neither a dot nor an exponent marker.
    assert(end == s.len() || (s[end] != '.' && s[end] != 'e' && s[end] != 'E'));
    // The minus sign dispatches the parser into the negative branch only
    // when it is truly there.
    if v >= 0 {
        assert(s[i] == d[0]);
        assert(is_digit(s[i]));
        assert(s[i] != '-');
    }
}

proof fn lemma_hexval4_hex4(s: Seq<char>, i: int, m: int)
    requires
        0 <= m < 0x10000,
        has_at(s, i, hex4(m)),
    ensures
        hexval4(s, i) == m,
{
    lemma_has_at_index(s, i, hex4(m));
    lemma_hex_char(m / 0x1000);
    lemma_hex_char((m / 0x100) % 16);
    lemma_hex_char((m / 16) % 16);
    lemma_hex_char(m % 16);
    let mu = m as u32;
    assert(0x1000 * (mu / 0x1000) + 0x100 * ((mu / 0x100) % 16) + 16 * ((mu / 16) % 16) + (mu
        % 16) == mu) by (bit_vector)
        requires
            mu < 0x10000,
    ;
}

/// Pointed just after the backslash of an escaped character, the escape
/// parser returns that character.
#[verifier::rlimit(100)]
proof fn lemma_parse_escape(s: Seq<char>, i: int, c: char)
    requires
        esc_char(c)[0] == '\\',
        has_at(s, i, esc_char(c)),
    ensures
        parse_escape(s, i + 1) == Some((c, i + esc_char(c).len())),
{
    lemma_has_at_index(s, i, esc_char(c));
    if c == '"' || c == '\\' {
    } else {
        let n = c as u32 as int;
        vstd::utf8::char_is_scalar(c);
        if n < 0x10000 {
            assert(esc_unicode(c) == seq!['\\', 'u'] + hex4(n));
            lemma_has_at_concat(s, i, seq!['\\', 'u'], hex4(n));
            lemma_hexval4_hex4(s, i + 2, n);
            assert(!(0xD800 <= n < 0xE000));
            vstd::utf8::char_u32_cast(c, c as u32);
            assert((n as u32) as char == c);
        } else {
            let hi = 0xD800 + (n - 0x10000) / 0x400;
            let lo = 0xDC00 + (n - 0x10000) % 0x400;
            assert(n <= 0x10FFFF);
            assert(0 <= (n - 0x10000) / 0x400 < 0x400);
            assert(0 <= (n - 0x10000) % 0x400 < 0x400);
            assert(esc_unicode(c) == (seq!['\\', 'u'] + hex4(hi)) + (seq!['\\', 'u'] + hex4(lo)));
            lemma_has_at_concat(s, i, seq!['\\', 'u'] + hex4(hi), seq!['\\', 'u'] + hex4(lo));
            lemma_has_at_concat(s, i, seq!['\\', 'u'], hex4(hi));
            lemma_has_at_concat(s, i + 6, seq!['\\', 'u'], hex4(lo));
            lemma_hexval4_hex4(s, i + 2, hi);
            lemma_hexval4_hex4(s, i + 8, lo);
            assert(0x10000 + (hi - 0xD800) * 0x400 + (lo - 0xDC00) == n) by {
                assert((n - 0x10000) / 0x400 * 0x400 + (n - 0x10000) % 0x400 == n - 0x10000);
            }
            vstd::utf8::char_u32_cast(c, c as u32);
        }
    }
}

/// Pointed just inside the opening quote of a serialized string suffix, the
/// string-body parser returns exactly that suffix and stops after the
/// closing quote.
#[verifier::rlimit(100)]
proof fn lemma_parse_str_body(s: Seq<char>, i: int, cs: Seq<char>, k: int)
    requires
        0 <= k <= cs.len(),
        has_at(s, i, ser_str_body(cs, k) + seq!['"']),
    ensures
        parse_str_body(s, i) == Some(
            (cs.subrange(k, cs.len() as int), i + ser_str_body(cs, k).len() + 1),
        ),
    decreases cs.len() - k,
{
    if k == cs.len() {
        let x = ser_str_body(cs, k) + seq!['"'];
        lemma_has_at_index(s, i, x);
        assert(ser_str_body(cs, k) =~= Seq::<char>::empty());
        assert(x[0] == '"');
        assert(s[i] == '"');
        assert(cs.subrange(k, cs.len() as int) =~= Seq::<char>::empty());
    } else {
        let c = cs[k];
        let e = esc_char(c);
        let rest = ser_str_body(cs, k + 1);
        assert(ser_str_body(cs, k) == e + rest);
        assert(ser_str_body(cs, k) + seq!['"'] =~= e + (rest + seq!['"']));
        lemma_has_at_concat(s, i, e, rest + seq!['"']);
        let j = i + e.len();
        lemma_parse_str_body(s, j, cs, k + 1);
        assert(cs.subrange(k, cs.len() as int) =~= seq![c] + cs.subrange(k + 1, cs.len() as int));
        if c == '"' || c == '\\' || (c as u32) < 0x20 || (c as u32) > 0x7e {
            assert(e[0] == '\\');
            assert(s[i] == e[0]);
            lemma_parse_escape(s, i, c);
        } else {
            assert(e =~= seq![c]);
            assert(s[i] == e[0]);
            assert(s[i] == c);
            assert(s[i] != '"' && s[i] != '\\' && (s[i] as u32) >= 0x20);
        }
    }
}

/// Pointed at a serialized string, the parser consumes it whole.
proof fn lemma_parse_string(s: Seq<char>, i: int, cs: Seq<char>)
    requires
        has_at(s, i, ser_string(cs)),
    ensures
        s[i] == '"',
        parse_str_body(s, i + 1) == Some((cs, i + ser_string(cs).len())),
{
    assert(ser_string(cs) =~= seq!['"'] + (ser_str_body(cs, 0) + seq!['"']));
    lemma_has_at_concat(s, i, seq!['"'], ser_str_body(cs, 0) + seq!['"']);
    assert(s[i + 0] == seq!['"'][0]);
    lemma_parse_str_body(s, i + 1, cs, 0);
    assert(cs.subrange(0, cs.len() as int) =~= cs);
}

/// A serialized value is never empty, and its first character opens a value:
/// no whitespace and none of the closing or separating tokens.
proof fn lemma_ser_value_shape(v: JsonV)
    ensures
        ser_value(v).len() >= 1,
        !is_ws(ser_value(v)[0]),
        ser_value(v)[0] != ']',
        ser_value(v)[0] != '}',
        ser_value(v)[0] != ',',
        ser_value(v)[0] != ':',
{
    match v {
        JsonV::Null => {},
        JsonV::Bool(b) => {},
        JsonV::Int(i) => {
            let mag = if i < 0 {
                -(i as int)
            } else {
                i as int
            };
            lemma_dec_digits_shape(mag);
            if i >= 0 {
                assert(ser_value(v) == dec_digits(mag));
                assert(is_digit(ser_value(v)[0]));
            }
        },
        JsonV::Str(s) => {
            assert(ser_value(v)[0] == '"');
        },
        JsonV::Arr(a) => {
            assert(ser_value(v)[0] == '[');
        },
        JsonV::Obj(o) => {
            assert(ser_value(v)[0] == '{');
        },
    }
}

/// Pointed at the canonical serialization of `v` with a closing token after
/// it, the value parser returns exactly `v`.
#[verifier::rlimit(100)]
proof fn lemma_parse_ser_value(s: Seq<char>, i: int, v: JsonV)
    requires
        has_at(s, i, ser_value(v)),
        closes_value(s, i + ser_value(v).len()),
    ensures
        parse_value(s, i) == Some((v, i + ser_value(v).len())),
    decreases v, 0int, 0int,
{
    lemma_has_at_index(s, i, ser_value(v));
    assert(ser_value(v).len() > 0 ==> s[i + 0] == ser_value(v)[0]) by {
        lemma_ser_value_shape(v);
    }
    match v {
        JsonV::Null => {
            assert(s.subrange(i, i + 4) =~= seq!['n', 'u', 'l', 'l']);
            assert(parse_value(s, i) == Some((v, i + ser_value(v).len())));
        },
        JsonV::Bool(b) => {
            if b {
                assert(s.subrange(i, i + 4) =~= seq!['t', 'r', 'u', 'e']);
            } else {
                assert(s.subrange(i, i + 5) =~= seq!['f', 'a', 'l', 's', 'e']);
                assert(s[i] == 'f');
                assert(!has_at(s, i, seq!['n', 'u', 'l', 'l']) || s[i] == 'n');
            }
            assert(parse_value(s, i) == Some((v, i + ser_value(v).len())));
        },
        JsonV::Int(n) => {
            lemma_parse_number(s, i, n as int);
            lemma_dec_digits_shape(if n < 0 {
                -(n as int)
            } else {
                n as int
            });
            assert(s[i + 0] == ser_value(v)[0]);
            if n < 0 {
                assert(ser_value(v) =~= seq!['-'] + dec_digits(-(n as int)));
                assert(s[i] == '-');
            } else {
                assert(ser_value(v) == dec_digits(n as int));
                assert(is_digit(s[i]));
                assert(48 <= s[i] as u32 <= 57);
                assert(s[i] != 'n' && s[i] != 't' && s[i] != 'f' && s[i] != '"');
            }
            assert(parse_value(s, i) == Some((v, i + ser_value(v).len())));
        },
        JsonV::Str(cs) => {
            lemma_parse_string(s, i, cs);
            assert(parse_value(s, i) == Some((v, i + ser_value(v).len())));
        },
        JsonV::Arr(a) => {
            assert(s[i] == '[');
            if a.len() == 0 {
                assert(ser_value(v) =~= seq!['[', ']']);
                assert(s[i + 1] == ser_value(v)[1]);
                assert(s[i + 1] == ']');
                assert(skip_ws(s, i + 1) == i + 1);
                assert(a =~= Seq::<JsonV>::empty());
            } else {
                let es = ser_elems(a, 0);
                assert(ser_value(v) =~= seq!['['] + (es + seq![']']));
                lemma_has_at_concat(s, i, seq!['['], es + seq![']']);
                lemma_parse_ser_elems(s, i + 1, a, 0);
                assert(es == ser_elems(a, 0));
                lemma_ser_value_shape(a[0]);
                assert(es + seq![']'] =~= ser_value(a[0]) + (es.skip(ser_value(a[0]).len() as int)
                    + seq![']'])) by {
                    assert(ser_elems(a, 0).len() >= ser_value(a[0]).len());
                }
                lemma_has_at_index(s, i + 1, es + seq![']']);
                assert((es + seq![']'])[0] == es[0]);
                assert(s[i + 1] == es[0]);
                assert(es[0] == ser_value(a[0])[0]) by {
                    if a.len() == 1 {
                    } else {
                        assert(es == ser_value(a[0]) + seq![','] + ser_elems(a, 1));
                    }
                }
                assert(!is_ws(s[i + 1]) && s[i + 1] != ']');
                assert(skip_ws(s, i + 1) == i + 1);
                assert(a.subrange(0, a.len() as int) =~= a);
                assert(parse_elems(s, i + 1) == Some((a, i + 1 + es.len() + 1)));
                assert(i + 1 + es.len() + 1 == i + ser_value(v).len());
                assert(s[i] != 'n' && s[i] != 't' && s[i] != 'f' && s[i] != '"');
                assert(s[i] != '-' && !is_digit(s[i]));
                assert(i + 1 < s.len());
            }
            assert(parse_value(s, i) == Some((v, i + ser_value(v).len())));
        },
        JsonV::Obj(o) => {
            assert(s[i] == '{');
            if o.len() == 0 {
                assert(ser_value(v) =~= seq!['{', '}']);
                assert(s[i + 1] == ser_value(v)[1]);
                assert(s[i + 1] == '}');
                assert(skip_ws(s, i + 1) == i + 1);
                assert(o =~= Seq::<(Seq<char>, JsonV)>::empty());
            } else {
                let ms = ser_members(o, 0);
                assert(ser_value(v) =~= seq!['{'] + (ms + seq!['}']));
                lemma_has_at_concat(s, i, seq!['{'], ms + seq!['}']);
                lemma_parse_ser_members(s, i + 1, o, 0);
                lemma_has_at_index(s, i + 1, ms + seq!['}']);
                assert(ms[0] == '"') by {
                    if o.len() == 1 {
                        assert(ms == ser_string(o[0].0) + seq![':'] + ser_value(o[0].1));
                    } else {
                        assert(ms == ser_string(o[0].0) + seq![':'] + ser_value(o[0].1)
                            + seq![','] + ser_members(o, 1));
                    }
                }
                assert(s[i + 1] == '"');
                assert(s[i + 1] != '}');
                assert(skip_ws(s, i + 1) == i + 1);
                assert(o.subrange(0, o.len() as int) =~= o);
                assert(parse_members(s, i + 1) == Some((o, i + 1 + ms.len() + 1)));
                assert(i + 1 + ms.len() + 1 == i + ser_value(v).len());
                assert(s[i] != 'n' && s[i] != 't' && s[i] != 'f' && s[i] != '"');
                assert(s[i] != '-' && !is_digit(s[i]) && s[i] != '[');
                assert(i + 1 < s.len());
            }
            assert(parse_value(s, i) == Some((v, i + ser_value(v).len())));
        },
    }
}

/// Pointed at the serialized elements `a[k..]` followed by the closing
/// bracket, the element parser returns exactly those elements and stops
/// after the bracket.
#[verifier::rlimit(100)]
proof fn lemma_parse_ser_elems(s: Seq<char>, i: int, a: Seq<JsonV>, k: int)
    requires
        0 <= k < a.len(),
        has_at(s, i, ser_elems(a, k) + seq![']']),
    ensures
        parse_elems(s, i) == Some(
            (a.subrange(k, a.len() as int), i + ser_elems(a, k).len() + 1),
        ),
    decreases a, a.len() - k, 1int,
{
    let sv = ser_value(a[k]);
    lemma_ser_value_shape(a[k]);
    if k == a.len() - 1 {
        assert(ser_elems(a, k) == sv);
        lemma_has_at_concat(s, i, sv, seq![']']);
        assert(closes_value(s, i + sv.len()));
        lemma_parse_ser_value(s, i, a[k]);
        assert(!is_ws(s[i]));
        assert(skip_ws(s, i) == i);
        assert(s[i + sv.len()] == ']');
        assert(skip_ws(s, i + sv.len()) == i + sv.len());
        assert(a.subrange(k, a.len() as int) =~= seq![a[k]]);
    } else {
        let rest = ser_elems(a, k + 1);
        assert(ser_elems(a, k) == sv + seq![','] + rest);
        assert(ser_elems(a, k) + seq![']'] =~= sv + (seq![','] + (rest + seq![']'])));
        lemma_has_at_concat(s, i, sv, seq![','] + (rest + seq![']']));
        lemma_has_at_concat(s, i + sv.len(), seq![','], rest + seq![']']);
        assert((seq![','] + (rest + seq![']']))[0] == ',');
        assert(s[i + sv.len()] == ',');
        assert(closes_value(s, i + sv.len()));
        lemma_parse_ser_value(s, i, a[k]);
        assert(skip_ws(s, i) == i);
        assert(skip_ws(s, i + sv.len()) == i + sv.len());
        lemma_parse_ser_elems(s, i + sv.len() + 1, a, k + 1);
        assert(a.subrange(k, a.len() as int) =~= seq![a[k]] + a.subrange(
            k + 1,
            a.len() as int,
        ));
    }
}

/// Pointed at the serialized members `o[k..]` followed by the closing brace,
/// the member parser returns exactly those members and stops after the
/// brace.
#[verifier::rlimit(100)]
proof fn lemma_parse_ser_members(s: Seq<char>, i: int, o: Seq<(Seq<char>, JsonV)>, k: int)
    requires
        0 <= k < o.len(),
        has_at(s, i, ser_members(o, k) + seq!['}']),
    ensures
        parse_members(s, i) == Some(
            (o.subrange(k, o.len() as int), i + ser_members(o, k).len() + 1),
        ),
    decreases o, o.len() - k, 1int,
{
    let key = o[k].0;
    let sv = ser_value(o[k].1);
    let sk = ser_string(key);
    lemma_ser_value_shape(o[k].1);
    if k == o.len() - 1 {
        assert(ser_members(o, k) == sk + seq![':'] + sv);
        assert(ser_members(o, k) + seq!['}'] =~= sk + (seq![':'] + (sv + seq!['}'])));
        lemma_has_at_concat(s, i, sk, seq![':'] + (sv + seq!['}']));
        lemma_has_at_concat(s, i + sk.len(), seq![':'], sv + seq!['}']);
        lemma_has_at_concat(s, i + sk.len() + 1, sv, seq!['}']);
        lemma_parse_string(s, i, key);
        assert(skip_ws(s, i) == i);
        assert(s[i + sk.len()] == ':');
        assert(skip_ws(s, i + sk.len()) == i + sk.len());
        assert(skip_ws(s, i + sk.len() + 1) == i + sk.len() + 1);
        assert(closes_value(s, i + sk.len() + 1 + sv.len()));
        lemma_parse_ser_value(s, i + sk.len() + 1, o[k].1);
        assert(s[i + sk.len() + 1 + sv.len()] == '}');
        assert(skip_ws(s, i + sk.len() + 1 + sv.len()) == i + sk.len() + 1 + sv.len());
        assert(o.subrange(k, o.len() as int) =~= seq![o[k]]);
    } else {
        let rest = ser_members(o, k + 1);
        assert(ser_members(o, k) == sk + seq![':'] + sv + seq![','] + rest);
        assert(ser_members(o, k) + seq!['}'] =~= sk + (seq![':'] + (sv + (seq![','] + (rest
            + seq!['}'])))));
        lemma_has_at_concat(s, i, sk, seq![':'] + (sv + (seq![','] + (rest + seq!['}']))));
        lemma_has_at_concat(s, i + sk.len(), seq![':'], sv + (seq![','] + (rest + seq!['}'])));
        lemma_has_at_concat(s, i + sk.len() + 1, sv, seq![','] + (rest + seq!['}']));
        lemma_has_at_concat(s, i + sk.len() + 1 + sv.len(), seq![','], rest + seq!['}']);
        lemma_parse_string(s, i, key);
        assert(skip_ws(s, i) == i);
        assert(s[i + sk.len()] == ':');
        assert(skip_ws(s, i + sk.len()) == i + sk.len());
        assert(skip_ws(s, i + sk.len() + 1) == i + sk.len() + 1);
        assert(s[i + sk.len() + 1 + sv.len()] == ',');
        assert(closes_value(s, i + sk.len() + 1 + sv.len()));
        lemma_parse_ser_value(s, i + sk.len() + 1, o[k].1);
        assert(skip_ws(s, i + sk.len() + 1 + sv.len()) == i + sk.len() + 1 + sv.len());
        lemma_parse_ser_members(s, i + sk.len() + 1 + sv.len() + 1, o, k + 1);
        assert(o.subrange(k, o.len() as int) =~= seq![o[k]] + o.subrange(
            k + 1,
            o.len() as int,
        ));
    }
}

/// Round trip: the canonical serialization of any JSON value parses back to
/// exactly that value.
pub proof fn lemma_json_round_trip(v: JsonV)
    ensures
        json_parse(ser_value(v)) == Some(v),
{
    let s = ser_value(v);
    assert(s.subrange(0, s.len() as int) =~= s);
    lemma_ser_value_shape(v);
    assert(skip_ws(s, 0) == 0);
    lemma_parse_ser_value(s, 0, v);
    assert(skip_ws(s, s.len() as int) == s.len());
}

} // verus!
