//! The executable JSON codec: serialization to the canonical text and
//! parsing, each proved against the specification functions of `json`.

use vstd::prelude::*;

use crate::json::{
    dec_digit_char, dec_digits, digits_end, digits_val, hex_digit_char, hex4, hexval, hexval4,
    is_digit, is_ws, json_parse, jview, lemma_views_of, lemma_members_of, esc_char, parse_elems,
    parse_escape, parse_members, parse_number, parse_str_body, parse_value, ser_elems, ser_int,
    ser_members, ser_str_body, ser_string, ser_value, skip_ws, Json, JsonV,
};
use crate::text::{char_from_u32, push_char};

verus! {

fn digit_char(d: u64) -> (c: char)
    requires
        d < 10,
    ensures
        c == dec_digit_char(d as int),
{
    let c = ((48 + d as u8) as char);
    proof {
        assert(c as u32 == 48 + d);
        assert(vstd::utf8::is_scalar((48 + d) as u32));
        vstd::utf8::char_u32_cast(c, c as u32);
    }
    c
}

fn hex_char(d: u32) -> (c: char)
    requires
        d < 16,
    ensures
        c == hex_digit_char(d as int),
{
    if d < 10 {
        let c = ((48 + d as u8) as char);
        proof {
            assert(c as u32 == 48 + d);
            vstd::utf8::char_u32_cast(c, c as u32);
        }
        c
    } else {
        let c = ((87 + d as u8) as char);
        proof {
            assert(c as u32 == 87 + d);
            vstd::utf8::char_u32_cast(c, c as u32);
        }
        c
    }
}

/// Append the decimal digits of `n`, most significant first.
fn write_digits(n: u64, out: &mut String)
    ensures
        final(out)@ == old(out)@ + dec_digits(n as int),
    decreases n,
{
    if n < 10 {
        push_char(out, digit_char(n));
        assert(final(out)@ =~= old(out)@ + dec_digits(n as int));
    } else {
        write_digits(n / 10, out);
        push_char(out, digit_char(n % 10));
        assert(final(out)@ =~= old(out)@ + dec_digits(n as int));
    }
}

/// Append the serialization of integer `i`.
fn write_int(i: i64, out: &mut String)
    ensures
        final(out)@ == old(out)@ + ser_int(i as int),
{
    if i >= 0 {
        write_digits(i as u64, out);
    } else {
        push_char(out, '-');
        let mag: u64 = (-(i + 1)) as u64 + 1;
        assert(mag as int == -(i as int));
        write_digits(mag, out);
        assert(final(out)@ =~= old(out)@ + ser_int(i as int));
    }
}

/// Append the four hexadecimal digits of `n`.
fn write_hex4(n: u32, out: &mut String)
    requires
        n < 0x10000,
    ensures
        final(out)@ == old(out)@ + hex4(n as int),
{
    push_char(out, hex_char(n / 0x1000));
    push_char(out, hex_char((n / 0x100) % 16));
    push_char(out, hex_char((n / 16) % 16));
    push_char(out, hex_char(n % 16));
    assert(final(out)@ =~= old(out)@ + hex4(n as int));
}

/// Append the serialization of one string character.
fn write_escaped_char(c: char, out: &mut String)
    ensures
        final(out)@ == old(out)@ + esc_char(c),
{
    if c == '"' {
        push_char(out, '\\');
        push_char(out, '"');
        assert(final(out)@ =~= old(out)@ + esc_char(c));
    } else if c == '\\' {
        push_char(out, '\\');
        push_char(out, '\\');
        assert(final(out)@ =~= old(out)@ + esc_char(c));
    } else if (c as u32) < 0x20 || (c as u32) > 0x7e {
        let n = c as u32;
        proof {
            vstd::utf8::char_is_scalar(c);
        }
        if n < 0x10000 {
            push_char(out, '\\');
            push_char(out, 'u');
            write_hex4(n, out);
            assert(final(out)@ =~= old(out)@ + esc_char(c));
        } else {
            let m = n - 0x10000;
            push_char(out, '\\');
            push_char(out, 'u');
            write_hex4(0xD800 + m / 0x400, out);
            push_char(out, '\\');
            push_char(out, 'u');
            write_hex4(0xDC00 + m % 0x400, out);
            assert(final(out)@ =~= old(out)@ + esc_char(c));
        }
    } else {
        push_char(out, c);
        assert(final(out)@ =~= old(out)@ + esc_char(c));
    }
}

/// Append the serialization of string `s`: quotes around its escaped body.
fn write_json_string(s: &str, out: &mut String)
    ensures
        final(out)@ == old(out)@ + ser_string(s@),
{
    push_char(out, '"');
    let ghost base = out@;
    let n = s.unicode_len();
    let mut i: usize = 0;
    while i < n
        invariant
            n == s@.len(),
            i <= n,
            out@ + ser_str_body(s@, i as int) == base + ser_str_body(s@, 0),
        decreases n - i,
    {
        let c = s.get_char(i);
        write_escaped_char(c, out);
        proof {
            assert(ser_str_body(s@, i as int) == esc_char(s@[i as int]) + ser_str_body(
                s@,
                i + 1,
            ));
            assert(out@ + ser_str_body(s@, i + 1) =~= base + ser_str_body(s@, 0));
        }
        i = i + 1;
    }
    push_char(out, '"');
    assert(final(out)@ =~= old(out)@ + ser_string(s@));
}

/// Append the canonical serialization of `v`.
pub fn write_json(v: &Json, out: &mut String)
    ensures
        final(out)@ == old(out)@ + ser_value(v@),
    decreases jview(*v), 0int,
{
    match v {
        Json::Null => {
            push_char(out, 'n');
            push_char(out, 'u');
            push_char(out, 'l');
            push_char(out, 'l');
            assert(final(out)@ =~= old(out)@ + ser_value(v@));
        },
        Json::Bool(b) => {
            if *b {
                push_char(out, 't');
                push_char(out, 'r');
                push_char(out, 'u');
                push_char(out, 'e');
            } else {
                push_char(out, 'f');
                push_char(out, 'a');
                push_char(out, 'l');
                push_char(out, 's');
                push_char(out, 'e');
            }
            assert(final(out)@ =~= old(out)@ + ser_value(v@));
        },
        Json::Int(i) => {
            write_int(*i, out);
        },
        Json::Str(s) => {
            write_json_string(s.as_str(), out);
        },
        Json::Arr(a) => {
            let ghost av = crate::json::views_of(a@);
            proof {
                lemma_views_of(a@);
                assert(jview(*v) == JsonV::Arr(av));
            }
            push_char(out, '[');
            let ghost base = out@;
            let n = a.len();
            let mut i: usize = 0;
            while i < n
                invariant
                    n == a@.len(),
                    av == crate::json::views_of(a@),
                    av.len() == n,
                    jview(*v) == JsonV::Arr(av),
                    forall|k: int| 0 <= k < n ==> av[k] == jview(a@[k]),
                    i <= n,
                    out@ + ser_elems(av, i as int) == base + ser_elems(av, 0),
                decreases n - i,
            {
                proof {
                    assert(av[i as int] == jview(a@[i as int]));
                    let j = jview(*v);
                    assert(decreases_to!(j => j->Arr_0));
                    assert(decreases_to!(av => av[i as int]));
                }
                write_json(&a[i], out);
                if i + 1 < n {
                    push_char(out, ',');
                    proof {
                        assert(ser_elems(av, i as int) == ser_value(av[i as int]) + seq![',']
                            + ser_elems(av, i + 1));
                        assert(out@ + ser_elems(av, i + 1) =~= base + ser_elems(av, 0));
                    }
                } else {
                    proof {
                        assert(ser_elems(av, i as int) == ser_value(av[i as int]));
                        assert(ser_elems(av, i + 1) =~= Seq::empty());
                        assert(out@ + ser_elems(av, i + 1) =~= base + ser_elems(av, 0));
                    }
                }
                i = i + 1;
            }
            proof {
                assert(ser_elems(av, n as int) =~= Seq::empty());
                assert(out@ =~= base + ser_elems(av, 0));
            }
            push_char(out, ']');
            assert(final(out)@ =~= old(out)@ + ser_value(v@));
        },
        Json::Obj(o) => {
            let ghost ov = crate::json::members_of(o@);
            proof {
                lemma_members_of(o@);
                assert(jview(*v) == JsonV::Obj(ov));
            }
            push_char(out, '{');
            let ghost base = out@;
            let n = o.len();
            let mut i: usize = 0;
            while i < n
                invariant
                    n == o@.len(),
                    ov == crate::json::members_of(o@),
                    ov.len() == n,
                    jview(*v) == JsonV::Obj(ov),
                    forall|k: int| 0 <= k < n ==> ov[k] == (o@[k].0@, jview(o@[k].1)),
                    i <= n,
                    out@ + ser_members(ov, i as int) == base + ser_members(ov, 0),
                decreases n - i,
            {
                proof {
                    assert(ov[i as int] == (o@[i as int].0@, jview(o@[i as int].1)));
                    let j = jview(*v);
                    assert(decreases_to!(j => j->Obj_0));
                    assert(decreases_to!(ov => ov[i as int]));
                    assert(decreases_to!(ov[i as int] => ov[i as int].1));
                }
                write_json_string(o[i].0.as_str(), out);
                push_char(out, ':');
                write_json(&o[i].1, out);
                if i + 1 < n {
                    push_char(out, ',');
                    proof {
                        assert(ser_members(ov, i as int) == ser_string(ov[i as int].0)
                            + seq![':'] + ser_value(ov[i as int].1) + seq![','] + ser_members(
                            ov,
                            i + 1,
                        ));
                        assert(out@ + ser_members(ov, i + 1) =~= base + ser_members(ov, 0));
                    }
                } else {
                    proof {
                        assert(ser_members(ov, i as int) == ser_string(ov[i as int].0)
                            + seq![':'] + ser_value(ov[i as int].1));
                        assert(ser_members(ov, i + 1) =~= Seq::empty());
                        assert(out@ + ser_members(ov, i + 1) =~= base + ser_members(ov, 0));
                    }
                }
                i = i + 1;
            }
            proof {
                assert(ser_members(ov, n as int) =~= Seq::empty());
                assert(out@ =~= base + ser_members(ov, 0));
            }
            push_char(out, '}');
            assert(final(out)@ =~= old(out)@ + ser_value(v@));
        },
    }
}

/// The canonical serialization of `v` as a fresh string.
pub fn json_to_string(v: &Json) -> (r: String)
    ensures
        r@ == ser_value(v@),
{
    let mut out = String::new();
    write_json(v, &mut out);
    assert(out@ =~= ser_value(v@));
    out
}

// ---------------------------------------------------------------------------
// Parsing: each function mirrors its specification twin step by step, so its
// contract is exactly "the result is what the specification parser says".
// ---------------------------------------------------------------------------
fn ws_char(c: char) -> (r: bool)
    ensures
        r == is_ws(c),
{
    c == ' ' || c == '\t' || c == '\n' || c == '\r'
}

fn digit(c: char) -> (r: bool)
    ensures
        r == is_digit(c),
{
    let n = c as u32;
    48 <= n && n <= 57
}

fn p_skip_ws(s: &Vec<char>, i: usize) -> (r: usize)
    requires
        i <= s@.len(),
    ensures
        r as int == skip_ws(s@, i as int),
        i <= r <= s@.len(),
{
    let mut j: usize = i;
    while j < s.len() && ws_char(s[j])
        invariant
            i <= j <= s@.len(),
            skip_ws(s@, j as int) == skip_ws(s@, i as int),
        decreases s@.len() - j,
    {
        j = j + 1;
    }
    j
}

fn p_hexval(c: char) -> (r: i32)
    ensures
        r as int == hexval(c),
{
    let n = c as u32;
    if 48 <= n && n <= 57 {
        (n - 48) as i32
    } else if 97 <= n && n <= 102 {
        (n - 87) as i32
    } else if 65 <= n && n <= 70 {
        (n - 55) as i32
    } else {
        -1
    }
}

fn p_hexval4(s: &Vec<char>, i: usize) -> (r: i32)
    requires
        i <= s@.len(),
    ensures
        r as int == hexval4(s@, i as int),
        -1 <= r < 0x10000,
{
    if s.len() - i < 4 {
        return -1;
    }
    let h0 = p_hexval(s[i]);
    let h1 = p_hexval(s[i + 1]);
    let h2 = p_hexval(s[i + 2]);
    let h3 = p_hexval(s[i + 3]);
    if h0 < 0 || h1 < 0 || h2 < 0 || h3 < 0 {
        return -1;
    }
    0x1000 * h0 + 0x100 * h1 + 16 * h2 + h3
}

fn p_escape(s: &Vec<char>, i: usize) -> (r: Option<(char, usize)>)
    requires
        i <= s@.len(),
    ensures
        match r {
            Some(p) => parse_escape(s@, i as int) == Some((p.0, p.1 as int)) && i < p.1
                <= s@.len(),
            None => parse_escape(s@, i as int) is None,
        },
{
    if i >= s.len() {
        return None;
    }
    let c = s[i];
    if c == '"' {
        Some(('"', i + 1))
    } else if c == '\\' {
        Some(('\\', i + 1))
    } else if c == '/' {
        Some(('/', i + 1))
    } else if c == 'b' {
        Some(('\u{0008}', i + 1))
    } else if c == 'f' {
        Some(('\u{000C}', i + 1))
    } else if c == 'n' {
        Some(('\n', i + 1))
    } else if c == 'r' {
        Some(('\r', i + 1))
    } else if c == 't' {
        Some(('\t', i + 1))
    } else if c == 'u' {
        let n = p_hexval4(s, i + 1);
        if n < 0 {
            return None;
        }
        let nu = n as u32;
        if 0xD800 <= nu && nu < 0xDC00 {
            // The low half of a surrogate pair must follow.
            if s.len() - i >= 11 && s[i + 5] == '\\' && s[i + 6] == 'u' {
                let m = p_hexval4(s, i + 7);
                if m < 0 {
                    return None;
                }
                let mu = m as u32;
                if 0xDC00 <= mu && mu < 0xE000 {
                    let v: u32 = 0x10000 + (nu - 0xD800) * 0x400 + (mu - 0xDC00);
                    proof {
                        assert(vstd::utf8::is_scalar(v));
                    }
                    match char_from_u32(v) {
                        Some(ch) => {
                            proof {
                                vstd::utf8::char_u32_cast(ch, v);
                            }
                            Some((ch, i + 11))
                        },
                        None => None,
                    }
                } else {
                    None
                }
            } else {
                None
            }
        } else if 0xDC00 <= nu && nu < 0xE000 {
            None
        } else {
            proof {
                assert(vstd::utf8::is_scalar(nu));
            }
            match char_from_u32(nu) {
                Some(ch) => {
                    proof {
                        vstd::utf8::char_u32_cast(ch, nu);
                    }
                    Some((ch, i + 5))
                },
                None => None,
            }
        }
    } else {
        None
    }
}

fn p_str_body(s: &Vec<char>, i: usize) -> (r: Option<(String, usize)>)
    requires
        i <= s@.len(),
    ensures
        match r {
            Some(p) => parse_str_body(s@, i as int) == Some((p.0@, p.1 as int)) && i < p.1
                <= s@.len(),
            None => parse_str_body(s@, i as int) is None,
        },
    decreases s@.len() - i,
{
    if i >= s.len() {
        return None;
    }
    let c = s[i];
    if c == '"' {
        let st = String::new();
        assert(st@ =~= Seq::<char>::empty());
        Some((st, i + 1))
    } else if c == '\\' {
        match p_escape(s, i + 1) {
            Some((e, j)) => {
                match p_str_body(s, j) {
                    Some((rest, k)) => {
                        let mut st = String::new();
                        push_char(&mut st, e);
                        st.append(rest.as_str());
                        assert(st@ =~= seq![e] + rest@);
                        Some((st, k))
                    },
                    None => None,
                }
            },
            None => None,
        }
    } else if (c as u32) < 0x20 {
        None
    } else {
        match p_str_body(s, i + 1) {
            Some((rest, k)) => {
                let mut st = String::new();
                push_char(&mut st, c);
                st.append(rest.as_str());
                assert(st@ =~= seq![c] + rest@);
                Some((st, k))
            },
            None => None,
        }
    }
}

/// The digit run value is never smaller than the value of any of its
/// prefixes.
proof fn lemma_digits_val_grows(s: Seq<char>, i: int, k: int, end: int)
    requires
        i <= k <= end,
        forall|j: int| i <= j < end ==> is_digit(#[trigger] s[j]),
    ensures
        digits_val(s, i, end) >= digits_val(s, i, k),
        digits_val(s, i, k) >= 0,
    decreases end - k,
{
    if k == end {
        lemma_digits_val_nonneg(s, i, k);
    } else {
        lemma_digits_val_grows(s, i, k, end - 1);
        lemma_digits_val_nonneg(s, i, end - 1);
        assert(s[end - 1] as u32 >= 48);
    }
}

proof fn lemma_digits_val_nonneg(s: Seq<char>, i: int, k: int)
    requires
        forall|j: int| i <= j < k ==> is_digit(#[trigger] s[j]),
    ensures
        digits_val(s, i, k) >= 0,
    decreases k - i,
{
    if i < k {
        lemma_digits_val_nonneg(s, i, k - 1);
    }
}

#[verifier::loop_isolation(false)]
fn p_number(s: &Vec<char>, i: usize) -> (r: Option<(Json, usize)>)
    requires
        i <= s@.len(),
    ensures
        match r {
            Some(p) => parse_number(s@, i as int) == Some((p.0@, p.1 as int)) && i < p.1
                <= s@.len(),
            None => parse_number(s@, i as int) is None,
        },
{
    let neg = i < s.len() && s[i] == '-';
    let i0: usize = if neg {
        i + 1
    } else {
        i
    };
    if i0 >= s.len() || !digit(s[i0]) {
        return None;
    }
    let mut end: usize = i0;
    while end < s.len() && digit(s[end])
        invariant
            i0 <= end <= s@.len(),
            forall|j: int| i0 <= j < end ==> is_digit(#[trigger] s@[j]),
            digits_end(s@, end as int) == digits_end(s@, i0 as int),
        decreases s@.len() - end,
    {
        end = end + 1;
    }
    assert(digits_end(s@, i0 as int) == end as int);
    if s[i0] == '0' && end > i0 + 1 {
        return None;
    }
    if end < s.len() && (s[end] == '.' || s[end] == 'e' || s[end] == 'E') {
        return None;
    }
    let ghost mag = digits_val(s@, i0 as int, end as int);
    let mut acc: u64 = 0;
    let mut k: usize = i0;
    while k < end
        invariant
            i0 <= k <= end <= s@.len(),
            forall|j: int| i0 <= j < end ==> is_digit(#[trigger] s@[j]),
            mag == digits_val(s@, i0 as int, end as int),
            acc as int == digits_val(s@, i0 as int, k as int),
        decreases end - k,
    {
        let d = (s[k] as u32 - 48) as u64;
        if acc > 1844674407370955160 {
            // Ten times the accumulator no longer fits, so the full value
            // lies far outside the 64-bit range and the number is rejected.
            proof {
                lemma_digits_val_grows(s@, i0 as int, k as int + 1, end as int);
                assert(digits_val(s@, i0 as int, k as int + 1) == acc * 10 + (s@[k as int] as u32
                    - 48));
                assert(mag >= digits_val(s@, i0 as int, k as int + 1));
                assert(48 <= s@[k as int] as u32);
                assert(acc as int >= 1844674407370955161);
                assert(acc as int * 10 >= 18446744073709551610);
                assert(digits_val(s@, i0 as int, k as int + 1) >= acc as int * 10);
                assert(mag >= 18446744073709551610);
                assert(mag > 9223372036854775807);
                assert(parse_number(s@, i as int) is None);
            }
            return None;
        }
        acc = acc * 10 + d;
        k = k + 1;
    }
    assert(acc as int == mag);
    if neg {
        assert(s@[i as int] == '-');
        if acc > 9223372036854775808 {
            return None;
        }
        let v: i64 = if acc == 9223372036854775808 {
            i64::MIN
        } else {
            -(acc as i64)
        };
        assert(v as int == -mag);
        Some((Json::Int(v), end))
    } else {
        if acc > 9223372036854775807 {
            return None;
        }
        let v: i64 = acc as i64;
        Some((Json::Int(v), end))
    }
}

fn p_value(s: &Vec<char>, i: usize) -> (r: Option<(Json, usize)>)
    requires
        i <= s@.len(),
    ensures
        match r {
            Some(p) => parse_value(s@, i as int) == Some((p.0@, p.1 as int)) && i < p.1
                <= s@.len(),
            None => parse_value(s@, i as int) is None,
        },
    decreases s@.len() - i, 0int,
{
    if i >= s.len() {
        return None;
    }
    let c = s[i];
    if c == 'n' {
        if s.len() - i >= 4 && s[i + 1] == 'u' && s[i + 2] == 'l' && s[i + 3] == 'l' {
            assert(s@.subrange(i as int, i + 4) =~= seq!['n', 'u', 'l', 'l']);
            Some((Json::Null, i + 4))
        } else {
            proof {
                if crate::json::has_at(s@, i as int, seq!['n', 'u', 'l', 'l']) {
                    crate::json_laws::lemma_lit_at(s@, i as int, seq!['n', 'u', 'l', 'l']);
                    assert(s@[i + 1] == seq!['n', 'u', 'l', 'l'][1]);
                    assert(s@[i + 2] == seq!['n', 'u', 'l', 'l'][2]);
                    assert(s@[i + 3] == seq!['n', 'u', 'l', 'l'][3]);
                }
            }
            None
        }
    } else if c == 't' {
        if s.len() - i >= 4 && s[i + 1] == 'r' && s[i + 2] == 'u' && s[i + 3] == 'e' {
            assert(s@.subrange(i as int, i + 4) =~= seq!['t', 'r', 'u', 'e']);
            Some((Json::Bool(true), i + 4))
        } else {
            proof {
                if crate::json::has_at(s@, i as int, seq!['t', 'r', 'u', 'e']) {
                    crate::json_laws::lemma_lit_at(s@, i as int, seq!['t', 'r', 'u', 'e']);
                    assert(s@[i + 1] == seq!['t', 'r', 'u', 'e'][1]);
                    assert(s@[i + 2] == seq!['t', 'r', 'u', 'e'][2]);
                    assert(s@[i + 3] == seq!['t', 'r', 'u', 'e'][3]);
                }
            }
            None
        }
    } else if c == 'f' {
        if s.len() - i >= 5 && s[i + 1] == 'a' && s[i + 2] == 'l' && s[i + 3] == 's' && s[i + 4]
            == 'e' {
            assert(s@.subrange(i as int, i + 5) =~= seq!['f', 'a', 'l', 's', 'e']);
            Some((Json::Bool(false), i + 5))
        } else {
            proof {
                if crate::json::has_at(s@, i as int, seq!['f', 'a', 'l', 's', 'e']) {
                    crate::json_laws::lemma_lit_at(s@, i as int, seq!['f', 'a', 'l', 's', 'e']);
                    assert(s@[i + 1] == seq!['f', 'a', 'l', 's', 'e'][1]);
                    assert(s@[i + 2] == seq!['f', 'a', 'l', 's', 'e'][2]);
                    assert(s@[i + 3] == seq!['f', 'a', 'l', 's', 'e'][3]);
                    assert(s@[i + 4] == seq!['f', 'a', 'l', 's', 'e'][4]);
                }
            }
            None
        }
    } else if c == '"' {
        match p_str_body(s, i + 1) {
            Some((cs, j)) => Some((Json::Str(cs), j)),
            None => None,
        }
    } else if c == '-' || digit(c) {
        p_number(s, i)
    } else if c == '[' {
        let j = p_skip_ws(s, i + 1);
        if j < s.len() && s[j] == ']' {
            let a: Vec<Json> = Vec::new();
            proof {
                lemma_views_of(a@);
                assert(crate::json::views_of(a@) =~= Seq::<JsonV>::empty());
            }
            Some((Json::Arr(a), j + 1))
        } else {
            match p_elems(s, i + 1) {
                Some((a, k)) => Some((Json::Arr(a), k)),
                None => None,
            }
        }
    } else if c == '{' {
        let j = p_skip_ws(s, i + 1);
        if j < s.len() && s[j] == '}' {
            let o: Vec<(String, Json)> = Vec::new();
            proof {
                lemma_members_of(o@);
                assert(crate::json::members_of(o@) =~= Seq::<(Seq<char>, JsonV)>::empty());
            }
            Some((Json::Obj(o), j + 1))
        } else {
            match p_members(s, i + 1) {
                Some((o, k)) => Some((Json::Obj(o), k)),
                None => None,
            }
        }
    } else {
        None
    }
}

fn p_elems(s: &Vec<char>, i: usize) -> (r: Option<(Vec<Json>, usize)>)
    requires
        i <= s@.len(),
    ensures
        match r {
            Some(p) => parse_elems(s@, i as int) == Some(
                (crate::json::views_of(p.0@), p.1 as int),
            ) && i < p.1 <= s@.len(),
            None => parse_elems(s@, i as int) is None,
        },
    decreases s@.len() - i, 1int,
{
    let j = p_skip_ws(s, i);
    if j >= s.len() {
        return None;
    }
    match p_value(s, j) {
        Some((v, k)) => {
            let m = p_skip_ws(s, k);
            if m >= s.len() {
                return None;
            }
            if s[m] == ']' {
                let mut a: Vec<Json> = Vec::new();
                a.push(v);
                proof {
                    lemma_views_of(a@);
                    assert(crate::json::views_of(a@) =~= seq![jview(a@[0])]);
                }
                Some((a, m + 1))
            } else if s[m] == ',' {
                match p_elems(s, m + 1) {
                    Some((rest, e)) => {
                        let ghost vv = jview(v);
                        let ghost rv = crate::json::views_of(rest@);
                        let mut a2: Vec<Json> = Vec::new();
                        a2.push(v);
                        // Build [first element] + rest.
                        let mut idx: usize = 0;
                        while idx < rest.len()
                            invariant
                                rv == crate::json::views_of(rest@),
                                a2@.len() == 1 + idx,
                                idx <= rest@.len(),
                                jview(a2@[0]) == vv,
                                forall|t: int|
                                    0 <= t < idx ==> jview(#[trigger] a2@[1 + t]) == jview(
                                        rest@[t],
                                    ),
                            decreases rest@.len() - idx,
                        {
                            let item = rest[idx].clone_json();
                            a2.push(item);
                            idx = idx + 1;
                        }
                        proof {
                            lemma_views_of(a2@);
                            lemma_views_of(rest@);
                            assert forall|u: int|
                                0 <= u < a2@.len() implies crate::json::views_of(a2@)[u] == (
                            seq![vv] + rv)[u] by {
                                if u > 0 {
                                    assert(jview(a2@[1 + (u - 1)]) == jview(rest@[u - 1]));
                                }
                            }
                            assert(crate::json::views_of(a2@) =~= seq![vv] + rv);
                        }
                        Some((a2, e))
                    },
                    None => None,
                }
            } else {
                None
            }
        },
        None => None,
    }
}

fn p_members(s: &Vec<char>, i: usize) -> (r: Option<(Vec<(String, Json)>, usize)>)
    requires
        i <= s@.len(),
    ensures
        match r {
            Some(p) => parse_members(s@, i as int) == Some(
                (crate::json::members_of(p.0@), p.1 as int),
            ) && i < p.1 <= s@.len(),
            None => parse_members(s@, i as int) is None,
        },
    decreases s@.len() - i, 1int,
{
    let j = p_skip_ws(s, i);
    if j >= s.len() {
        return None;
    }
    if s[j] != '"' {
        return None;
    }
    match p_str_body(s, j + 1) {
        Some((key, k)) => {
            let c = p_skip_ws(s, k);
            if c >= s.len() {
                return None;
            }
            if s[c] != ':' {
                return None;
            }
            let w = p_skip_ws(s, c + 1);
            match p_value(s, w) {
                Some((v, e)) => {
                    let m = p_skip_ws(s, e);
                    if m >= s.len() {
                        return None;
                    }
                    if s[m] == '}' {
                        let mut o: Vec<(String, Json)> = Vec::new();
                        o.push((key, v));
                        proof {
                            lemma_members_of(o@);
                            assert(crate::json::members_of(o@) =~= seq![
                                (o@[0].0@, jview(o@[0].1)),
                            ]);
                        }
                        Some((o, m + 1))
                    } else if s[m] == ',' {
                        match p_members(s, m + 1) {
                            Some((rest, e2)) => {
                                let ghost kv = (key@, jview(v));
                                let ghost rv = crate::json::members_of(rest@);
                                let mut o2: Vec<(String, Json)> = Vec::new();
                                o2.push((key, v));
                                let mut idx: usize = 0;
                                while idx < rest.len()
                                    invariant
                                        rv == crate::json::members_of(rest@),
                                        o2@.len() == 1 + idx,
                                        idx <= rest@.len(),
                                        (o2@[0].0@, jview(o2@[0].1)) == kv,
                                        forall|t: int|
                                            0 <= t < idx ==> ((#[trigger] o2@[1 + t]).0@, jview(
                                                o2@[1 + t].1,
                                            )) == (rest@[t].0@, jview(rest@[t].1)),
                                    decreases rest@.len() - idx,
                                {
                                    let mk = rest[idx].0.clone();
                                    let mv = rest[idx].1.clone_json();
                                    o2.push((mk, mv));
                                    idx = idx + 1;
                                }
                                proof {
                                    lemma_members_of(o2@);
                                    lemma_members_of(rest@);
                                    assert forall|u: int|
                                        0 <= u < o2@.len() implies crate::json::members_of(o2@)[u]
                                        == (seq![kv] + rv)[u] by {
                                        if u > 0 {
                                            assert(((#[trigger] o2@[1 + (u - 1)]).0@, jview(
                                                o2@[1 + (u - 1)].1,
                                            )) == (rest@[u - 1].0@, jview(rest@[u - 1].1)));
                                        }
                                    }
                                    assert(crate::json::members_of(o2@) =~= seq![kv] + rv);
                                }
                                Some((o2, e2))
                            },
                            None => None,
                        }
                    } else {
                        None
                    }
                },
                None => None,
            }
        },
        None => None,
    }
}

impl Json {
    /// A deep copy with the same mathematical value.
    pub fn clone_json(&self) -> (r: Json)
        ensures
            r@ == self@,
        decreases jview(*self), 0int,
    {
        match self {
            Json::Null => Json::Null,
            Json::Bool(b) => Json::Bool(*b),
            Json::Int(i) => Json::Int(*i),
            Json::Str(s) => Json::Str(s.clone()),
            Json::Arr(a) => {
                let ghost av = crate::json::views_of(a@);
                proof {
                    lemma_views_of(a@);
                    assert(jview(*self) == JsonV::Arr(av));
                }
                let mut out: Vec<Json> = Vec::new();
                let mut i: usize = 0;
                while i < a.len()
                    invariant
                        av == crate::json::views_of(a@),
                        av.len() == a@.len(),
                        jview(*self) == JsonV::Arr(av),
                        forall|k: int| 0 <= k < a@.len() ==> av[k] == jview(a@[k]),
                        i <= a@.len(),
                        out@.len() == i,
                        forall|k: int| 0 <= k < i ==> jview(out@[k]) == av[k],
                    decreases a@.len() - i,
                {
                    proof {
                        assert(av[i as int] == jview(a@[i as int]));
                        let j = jview(*self);
                        assert(decreases_to!(j => j->Arr_0));
                        assert(decreases_to!(av => av[i as int]));
                    }
                    let item = a[i].clone_json();
                    out.push(item);
                    i = i + 1;
                }
                proof {
                    lemma_views_of(out@);
                    assert(crate::json::views_of(out@) =~= av);
                }
                Json::Arr(out)
            },
            Json::Obj(o) => {
                let ghost ov = crate::json::members_of(o@);
                proof {
                    lemma_members_of(o@);
                    assert(jview(*self) == JsonV::Obj(ov));
                }
                let mut out: Vec<(String, Json)> = Vec::new();
                let mut i: usize = 0;
                while i < o.len()
                    invariant
                        ov == crate::json::members_of(o@),
                        ov.len() == o@.len(),
                        jview(*self) == JsonV::Obj(ov),
                        forall|k: int| 0 <= k < o@.len() ==> ov[k] == (o@[k].0@, jview(o@[k].1)),
                        i <= o@.len(),
                        out@.len() == i,
                        forall|k: int| 0 <= k < i ==> (out@[k].0@, jview(out@[k].1)) == ov[k],
                    decreases o@.len() - i,
                {
                    proof {
                        assert(ov[i as int] == (o@[i as int].0@, jview(o@[i as int].1)));
                        let j = jview(*self);
                        assert(decreases_to!(j => j->Obj_0));
                        assert(decreases_to!(ov => ov[i as int]));
                        assert(decreases_to!(ov[i as int] => ov[i as int].1));
                    }
                    let k = o[i].0.clone();
                    let v = o[i].1.clone_json();
                    out.push((k, v));
                    i = i + 1;
                }
                proof {
                    lemma_members_of(out@);
                    assert(crate::json::members_of(out@) =~= ov);
                }
                Json::Obj(out)
            },
        }
    }
}

/// Parse one JSON document from `text`: exactly what the specification
/// parser accepts, a single value with only whitespace around it.
pub fn parse_json_text(text: &str) -> (r: Option<Json>)
    ensures
        match r {
            Some(j) => json_parse(text@) == Some(j@),
            None => json_parse(text@) is None,
        },
{
    let n = text.unicode_len();
    let mut cs: Vec<char> = Vec::new();
    let mut i: usize = 0;
    while i < n
        invariant
            n == text@.len(),
            i <= n,
            cs@ == text@.subrange(0, i as int),
        decreases n - i,
    {
        let c = text.get_char(i);
        cs.push(c);
        proof {
            assert(cs@ =~= text@.subrange(0, i + 1));
        }
        i = i + 1;
    }
    proof {
        assert(cs@ =~= text@);
    }
    let j = p_skip_ws(&cs, 0);
    match p_value(&cs, j) {
        Some((v, k)) => {
            let m = p_skip_ws(&cs, k);
            if m == cs.len() {
                Some(v)
            } else {
                None
            }
        },
        None => None,
    }
}

} // verus!
