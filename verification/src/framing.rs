//! The Content-Length framing of the wire: writing a message as
//! `Content-Length: <n>\r\n\r\n<body>`, and reading frames back out of a
//! byte stream, line by line, exactly as the reader thread consumes the
//! server's output.
//!
//! The reader is resilient: a line that is no well-formed `Content-Length`
//! header is discarded and scanning continues with the next line.  Only the
//! end of the stream (or a body cut short by it) ends the scan.

use vstd::prelude::*;

verus! {

/// ASCII whitespace, as trimmed off a header line's value.
pub open spec fn is_ws_byte(b: u8) -> bool {
    b == 32 || b == 9 || b == 13 || b == 10
}

pub open spec fn is_digit_byte(b: u8) -> bool {
    48 <= b <= 57
}

/// The position just after the first line feed at or after `i`, or the end
/// of the input if none follows: one line, as the reader consumes it.
pub open spec fn line_end(s: Seq<u8>, i: int) -> int
    decreases s.len() - i,
{
    if i < 0 || i >= s.len() {
        i
    } else if s[i] == 10 {
        i + 1
    } else {
        line_end(s, i + 1)
    }
}

/// The literal `Content-Length: ` that opens a header line.
pub open spec fn cl_prefix() -> Seq<u8> {
    seq![
        'C' as u8, 'o' as u8, 'n' as u8, 't' as u8, 'e' as u8, 'n' as u8, 't' as u8, '-' as u8,
        'L' as u8, 'e' as u8, 'n' as u8, 'g' as u8, 't' as u8, 'h' as u8, ':' as u8, ' ' as u8,
    ]
}

pub open spec fn starts_with(s: Seq<u8>, p: Seq<u8>) -> bool {
    p.len() <= s.len() && s.subrange(0, p.len() as int) == p
}

pub open spec fn trim_front(s: Seq<u8>) -> Seq<u8>
    decreases s.len(),
{
    if s.len() > 0 && is_ws_byte(s[0]) {
        trim_front(s.drop_first())
    } else {
        s
    }
}

pub open spec fn trim_back(s: Seq<u8>) -> Seq<u8>
    decreases s.len(),
{
    if s.len() > 0 && is_ws_byte(s.last()) {
        trim_back(s.drop_last())
    } else {
        s
    }
}

/// The line's text with ASCII whitespace removed from both ends.
pub open spec fn trim_bytes(s: Seq<u8>) -> Seq<u8> {
    trim_back(trim_front(s))
}

pub open spec fn all_digit_bytes(s: Seq<u8>) -> bool {
    forall|k: int| 0 <= k < s.len() ==> is_digit_byte(#[trigger] s[k])
}

/// The value of a run of decimal digit bytes.
pub open spec fn bytes_val(s: Seq<u8>) -> int
    decreases s.len(),
{
    if s.len() == 0 {
        0
    } else {
        bytes_val(s.drop_last()) * 10 + (s.last() - 48)
    }
}

/// The length announced by a header line: the line must open with
/// `Content-Length: `, and what follows, once trimmed, must be a plain run
/// of digits whose value fits the machine.  Anything else is no header.
pub open spec fn content_length_of(line: Seq<u8>) -> Option<int> {
    if !starts_with(line, cl_prefix()) {
        None
    } else {
        let t = trim_bytes(line.skip(cl_prefix().len() as int));
        if t.len() > 0 && all_digit_bytes(t) && bytes_val(t) <= usize::MAX {
            Some(bytes_val(t))
        } else {
            None
        }
    }
}

/// The decimal digit bytes of `n`, most significant first.
pub open spec fn dec_digits_u8(n: int) -> Seq<u8>
    recommends
        n >= 0,
    decreases n,
{
    if n < 10 {
        seq![(48 + n) as u8]
    } else {
        dec_digits_u8(n / 10).push((48 + n % 10) as u8)
    }
}

/// One framed message: the header announcing the body's exact byte length,
/// the blank separator line, and the body, nothing after it.
pub open spec fn frame(body: Seq<u8>) -> Seq<u8> {
    cl_prefix() + dec_digits_u8(body.len() as int) + seq![13u8, 10u8, 13u8, 10u8] + body
}

/// Every body that a reader draws out of the stream `s` from position `i`
/// on, in order.  A line that announces no length is skipped; a body that
/// the stream ends inside is lost with everything after it, as the reader
/// stops at end of input.
pub open spec fn scan_frames_from(s: Seq<u8>, i: int) -> Seq<Seq<u8>>
    decreases s.len() - i,
{
    if i < 0 || i >= s.len() {
        Seq::empty()
    } else {
        let le = line_end(s, i);
        if le <= i || le > s.len() {
            Seq::empty()
        } else {
            match content_length_of(s.subrange(i, le)) {
                Some(n) => {
                    let be = line_end(s, le);
                    if be < le || n < 0 {
                        Seq::empty()
                    } else if be + n <= s.len() {
                        seq![s.subrange(be, be + n)] + scan_frames_from(s, be + n)
                    } else {
                        Seq::empty()
                    }
                },
                None => scan_frames_from(s, le),
            }
        }
    }
}

/// Every body framed in the whole stream `s`.
pub open spec fn scan_frames(s: Seq<u8>) -> Seq<Seq<u8>> {
    scan_frames_from(s, 0)
}

// ---------------------------------------------------------------------------
// Writing
// ---------------------------------------------------------------------------
fn push_digits_u8(n: usize, out: &mut Vec<u8>)
    ensures
        final(out)@ == old(out)@ + dec_digits_u8(n as int),
    decreases n,
{
    if n < 10 {
        out.push((48 + n as u8));
        assert(final(out)@ =~= old(out)@ + dec_digits_u8(n as int));
    } else {
        push_digits_u8(n / 10, out);
        out.push((48 + (n % 10) as u8));
        assert(final(out)@ =~= old(out)@ + dec_digits_u8(n as int));
    }
}

/// Wrap `body` in its Content-Length frame, ready for the wire.
#[verifier::loop_isolation(false)]
pub fn encode_frame(body: &Vec<u8>) -> (r: Vec<u8>)
    ensures
        r@ == frame(body@),
{
    let mut out: Vec<u8> = Vec::new();
    out.push(67);
    out.push(111);
    out.push(110);
    out.push(116);
    out.push(101);
    out.push(110);
    out.push(116);
    out.push(45);
    out.push(76);
    out.push(101);
    out.push(110);
    out.push(103);
    out.push(116);
    out.push(104);
    out.push(58);
    out.push(32);
    assert(out@ =~= cl_prefix());
    push_digits_u8(body.len(), &mut out);
    out.push(13);
    out.push(10);
    out.push(13);
    out.push(10);
    let ghost head = out@;
    let mut k: usize = 0;
    while k < body.len()
        invariant
            k <= body@.len(),
            out@ == head + body@.subrange(0, k as int),
        decreases body@.len() - k,
    {
        let b = body[k];
        out.push(b);
        proof {
            assert(out@ =~= head + body@.subrange(0, k + 1));
        }
        k = k + 1;
    }
    proof {
        assert(body@.subrange(0, body@.len() as int) =~= body@);
        assert(out@ =~= frame(body@));
    }
    out
}

// ---------------------------------------------------------------------------
// Reading
// ---------------------------------------------------------------------------
#[verifier::loop_isolation(false)]
fn find_line_end(s: &Vec<u8>, i: usize) -> (r: usize)
    requires
        i <= s@.len(),
    ensures
        r as int == line_end(s@, i as int),
        i <= r <= s@.len(),
        i < s@.len() ==> r > i,
{
    let mut j: usize = i;
    while j < s.len() && s[j] != 10
        invariant
            i <= j <= s@.len(),
            line_end(s@, j as int) == line_end(s@, i as int),
            forall|k: int| i <= k < j ==> s@[k] != 10,
        decreases s@.len() - j,
    {
        j = j + 1;
    }
    if j < s.len() {
        j + 1
    } else {
        j
    }
}

/// The length a header line announces, or None: exactly
/// `content_length_of`.
#[verifier::loop_isolation(false)]
pub fn parse_content_length(line: &Vec<u8>) -> (r: Option<usize>)
    ensures
        match r {
            Some(n) => content_length_of(line@) == Some(n as int),
            None => content_length_of(line@) is None,
        },
{
    if line.len() < 16 {
        assert(!starts_with(line@, cl_prefix())) by {
            assert(cl_prefix().len() == 16);
        }
        return None;
    }
    let pfx: [u8; 16] = [67, 111, 110, 116, 101, 110, 116, 45, 76, 101, 110, 103, 116, 104, 58, 32];
    let mut k: usize = 0;
    while k < 16
        invariant
            k <= 16,
            line@.len() >= 16,
            forall|t: int| 0 <= t < k ==> line@[t] == cl_prefix()[t],
        decreases 16 - k,
    {
        if line[k] != pfx[k] {
            proof {
                assert(pfx@ =~= cl_prefix());
                assert(line@[k as int] != cl_prefix()[k as int]);
                assert(!starts_with(line@, cl_prefix())) by {
                    if starts_with(line@, cl_prefix()) {
                        assert(line@.subrange(0, 16)[k as int] == cl_prefix()[k as int]);
                    }
                }
            }
            return None;
        }
        proof {
            assert(pfx@ =~= cl_prefix());
            assert(line@[k as int] == cl_prefix()[k as int]);
        }
        k = k + 1;
    }
    assert(starts_with(line@, cl_prefix())) by {
        assert(line@.subrange(0, 16) =~= cl_prefix());
    }
    let ghost rest = line@.skip(16);
    // Trim whitespace from both ends.
    let mut lo: usize = 16;
    while lo < line.len() && ws_byte(line[lo])
        invariant
            16 <= lo <= line@.len(),
            trim_front(line@.skip(lo as int)) == trim_front(rest),
        decreases line@.len() - lo,
    {
        proof {
            assert(line@.skip(lo as int).drop_first() =~= line@.skip(lo + 1));
        }
        lo = lo + 1;
    }
    let mut hi: usize = line.len();
    proof {
        if lo < line@.len() {
            assert(trim_front(line@.skip(lo as int)) == line@.skip(lo as int));
        } else {
            assert(line@.skip(lo as int) =~= Seq::<u8>::empty());
            assert(trim_front(line@.skip(lo as int)) == line@.skip(lo as int));
        }
    }
    let ghost tf = line@.skip(lo as int);
    proof {
        assert(line@.skip(lo as int).take(line@.len() - lo) =~= tf);
    }
    while hi > lo && ws_byte(line[hi - 1])
        invariant
            lo <= hi <= line@.len(),
            tf == line@.skip(lo as int),
            trim_back(line@.skip(lo as int).take(hi - lo)) == trim_back(tf),
        decreases hi,
    {
        proof {
            assert(line@.skip(lo as int).take(hi - lo).drop_last() =~= line@.skip(
                lo as int,
            ).take(hi - 1 - lo));
            assert(line@.skip(lo as int).take(hi - lo).last() == line@[hi - 1]);
        }
        hi = hi - 1;
    }
    let ghost t = trim_bytes(rest);
    proof {
        if hi > lo {
            assert(trim_back(line@.skip(lo as int).take(hi - lo)) == line@.skip(lo as int).take(
                hi - lo,
            ));
        } else {
            assert(line@.skip(lo as int).take(0) =~= Seq::<u8>::empty());
            assert(trim_back(line@.skip(lo as int).take(0)) == line@.skip(lo as int).take(0));
        }
        assert(t == line@.skip(lo as int).take(hi - lo));
    }
    // The trimmed text must be a nonempty run of digits that fits.
    if hi == lo {
        assert(t.len() == 0);
        return None;
    }
    let mut acc: usize = 0;
    let mut k2: usize = lo;
    while k2 < hi
        invariant
            lo <= k2 <= hi <= line@.len(),
            t == line@.skip(lo as int).take(hi - lo),
            t.len() == hi - lo,
            forall|u: int| 0 <= u < t.len() ==> t[u] == line@[lo + u],
            forall|u: int| lo <= u < k2 ==> is_digit_byte(#[trigger] line@[u]),
            acc as int == bytes_val(t.take(k2 - lo)),
        decreases hi - k2,
    {
        let b = line[k2];
        if b < 48 || b > 57 {
            proof {
                assert(t[k2 - lo] == line@[k2 as int]);
                assert(!all_digit_bytes(t));
            }
            return None;
        }
        let du = (b - 48) as usize;
        if acc > (usize::MAX - du) / 10 {
            // The digits run past the machine's range: no valid length.
            proof {
                lemma_bytes_val_grows(t, k2 + 1 - lo);
                assert(t.take(k2 + 1 - lo).drop_last() =~= t.take(k2 - lo));
                assert(t.take(k2 + 1 - lo).last() == t[k2 - lo]);
                assert(bytes_val(t.take(k2 + 1 - lo)) == bytes_val(t.take(k2 - lo)) * 10 + (t[k2
                    - lo] - 48));
                assert(t[k2 - lo] == line@[k2 as int]);
                let m = (usize::MAX - du) as int;
                assert(m == 10 * (m / 10) + m % 10 && m % 10 <= 9);
                assert(10 * (acc as int) >= m - du as int - 9 + 10 + du as int);
                assert(bytes_val(t.take(k2 + 1 - lo)) > usize::MAX);
                if all_digit_bytes(t) {
                    lemma_bytes_val_grows(t, t.len() as int);
                    assert(t.take(t.len() as int) =~= t);
                    assert(bytes_val(t) >= bytes_val(t.take(k2 + 1 - lo)));
                    assert(bytes_val(t) > usize::MAX);
                }
                assert(content_length_of(line@) is None);
            }
            return None;
        }
        acc = acc * 10 + du;
        proof {
            assert(t.take(k2 + 1 - lo).drop_last() =~= t.take(k2 - lo));
            assert(t.take(k2 + 1 - lo).last() == t[k2 - lo]);
            assert(t[k2 - lo] == line@[k2 as int]);
        }
        k2 = k2 + 1;
    }
    proof {
        assert(t.take(hi - lo) =~= t);
        assert(all_digit_bytes(t)) by {
            assert(forall|u: int|
                0 <= u < t.len() ==> is_digit_byte(#[trigger] line@[lo + u]));
        }
    }
    Some(acc)
}

fn ws_byte(b: u8) -> (r: bool)
    ensures
        r == is_ws_byte(b),
{
    b == 32 || b == 9 || b == 13 || b == 10
}

/// The digit-run value never shrinks as more digits are taken.
proof fn lemma_bytes_val_grows(t: Seq<u8>, k: int)
    requires
        0 <= k <= t.len(),
        forall|u: int| 0 <= u < k ==> is_digit_byte(#[trigger] t[u]),
    ensures
        bytes_val(t.take(k)) >= 0,
        forall|j: int| 0 <= j <= k ==> bytes_val(t.take(k)) >= #[trigger] bytes_val(t.take(j)),
    decreases k,
{
    if k > 0 {
        lemma_bytes_val_grows(t, k - 1);
        assert(t.take(k).drop_last() =~= t.take(k - 1));
        assert(t.take(k).last() == t[k - 1]);
        assert(bytes_val(t.take(k)) == bytes_val(t.take(k - 1)) * 10 + (t[k - 1] - 48));
        assert(forall|j: int|
            0 <= j <= k - 1 ==> bytes_val(t.take(k - 1)) >= #[trigger] bytes_val(t.take(j)));
    } else {
        assert(t.take(0) =~= Seq::<u8>::empty());
    }
}

/// The bodies of every frame in `input`, in stream order: the executable
/// reader over a whole stream.
#[verifier::loop_isolation(false)]
pub fn extract_frames(input: &Vec<u8>) -> (r: Vec<Vec<u8>>)
    ensures
        bodies_of(r@) == scan_frames(input@),
{
    let mut out: Vec<Vec<u8>> = Vec::new();
    let mut i: usize = 0;
    proof {
        lemma_bodies_of(out@);
        assert(bodies_of(out@) =~= Seq::<Seq<u8>>::empty());
    }
    while i < input.len()
        invariant
            i <= input@.len(),
            bodies_of(out@) + scan_frames_from(input@, i as int) == scan_frames(input@),
        decreases input@.len() - i,
    {
        let le = find_line_end(input, i);
        assert(le > i);
        let mut line: Vec<u8> = Vec::new();
        let mut k: usize = i;
        while k < le
            invariant
                i <= k <= le <= input@.len(),
                line@ == input@.subrange(i as int, k as int),
            decreases le - k,
        {
            let b = input[k];
            line.push(b);
            proof {
                assert(line@ =~= input@.subrange(i as int, k + 1));
            }
            k = k + 1;
        }
        match parse_content_length(&line) {
            Some(n) => {
                let be = find_line_end(input, le);
                if n <= input.len() - be {
                    let mut body: Vec<u8> = Vec::new();
                    let mut k2: usize = be;
                    while k2 < be + n
                        invariant
                            be <= k2 <= be + n <= input@.len(),
                            body@ == input@.subrange(be as int, k2 as int),
                        decreases be + n - k2,
                    {
                        let b = input[k2];
                        body.push(b);
                        proof {
                            assert(body@ =~= input@.subrange(be as int, k2 + 1));
                        }
                        k2 = k2 + 1;
                    }
                    let ghost prev = bodies_of(out@);
                    let ghost obefore = out@;
                    out.push(body);
                    proof {
                        assert(out@.drop_last() =~= obefore);
                        lemma_bodies_of_push(out@, prev);
                        assert(bodies_of(out@) + scan_frames_from(input@, (be + n) as int)
                            =~= scan_frames(input@));
                    }
                    i = be + n;
                } else {
                    // The stream ends inside the body: the reader stops.
                    proof {
                        assert(scan_frames_from(input@, i as int) =~= Seq::<Seq<u8>>::empty());
                        assert(bodies_of(out@) =~= scan_frames(input@));
                    }
                    return out;
                }
            },
            None => {
                i = le;
            },
        }
    }
    proof {
        assert(scan_frames_from(input@, i as int) =~= Seq::<Seq<u8>>::empty());
        assert(bodies_of(out@) =~= scan_frames(input@));
    }
    out
}

/// The mathematical bodies held by a vector of byte vectors, elementwise.
pub open spec fn bodies_of(v: Seq<Vec<u8>>) -> Seq<Seq<u8>>
    decreases v.len(),
{
    if v.len() == 0 {
        Seq::empty()
    } else {
        bodies_of(v.drop_last()).push(v.last()@)
    }
}

pub broadcast proof fn lemma_bodies_of(v: Seq<Vec<u8>>)
    ensures
        (#[trigger] bodies_of(v)).len() == v.len(),
        forall|i: int| 0 <= i < v.len() ==> bodies_of(v)[i] == v[i]@,
    decreases v.len(),
{
    if v.len() > 0 {
        lemma_bodies_of(v.drop_last());
        assert(forall|i: int| 0 <= i < v.len() - 1 ==> v.drop_last()[i] == v[i]);
    }
}

proof fn lemma_bodies_of_push(v: Seq<Vec<u8>>, prev: Seq<Seq<u8>>)
    requires
        v.len() > 0,
        prev == bodies_of(v.drop_last()),
    ensures
        bodies_of(v) == prev.push(v.last()@),
{
}

// ---------------------------------------------------------------------------
// The framing law: a framed body is scanned back out as exactly that body.
// ---------------------------------------------------------------------------
proof fn lemma_dec_digits_u8_shape(n: int)
    requires
        n >= 0,
    ensures
        dec_digits_u8(n).len() >= 1,
        forall|k: int| 0 <= k < dec_digits_u8(n).len() ==> is_digit_byte(
            #[trigger] dec_digits_u8(n)[k],
        ),
    decreases n,
{
    if n >= 10 {
        lemma_dec_digits_u8_shape(n / 10);
        assert(dec_digits_u8(n) == dec_digits_u8(n / 10).push((48 + n % 10) as u8));
    }
}

proof fn lemma_bytes_val_of_dec_digits(n: int)
    requires
        n >= 0,
    ensures
        bytes_val(dec_digits_u8(n)) == n,
    decreases n,
{
    if n < 10 {
        assert(dec_digits_u8(n) =~= seq![(48 + n) as u8]);
        assert(dec_digits_u8(n).drop_last() =~= Seq::<u8>::empty());
        assert(dec_digits_u8(n).last() == (48 + n) as u8);
        assert(bytes_val(Seq::<u8>::empty()) == 0);
        assert((48 + n) as u8 == 48 + n);
        assert(bytes_val(dec_digits_u8(n)) == bytes_val(dec_digits_u8(n).drop_last()) * 10 + (
        dec_digits_u8(n).last() - 48));
    } else {
        lemma_bytes_val_of_dec_digits(n / 10);
        assert(dec_digits_u8(n).drop_last() =~= dec_digits_u8(n / 10));
        assert(dec_digits_u8(n).last() == (48 + n % 10) as u8);
        assert(n / 10 * 10 + n % 10 == n);
    }
}

proof fn lemma_line_end_at(s: Seq<u8>, i: int, j: int)
    requires
        0 <= i <= j < s.len(),
        forall|t: int| i <= t < j ==> s[t] != 10,
        s[j] == 10,
    ensures
        line_end(s, i) == j + 1,
    decreases j - i,
{
    if i < j {
        lemma_line_end_at(s, i + 1, j);
    }
}

proof fn lemma_trim_back_digits(d: Seq<u8>, tail: Seq<u8>)
    requires
        forall|k: int| 0 <= k < d.len() ==> is_digit_byte(#[trigger] d[k]),
        forall|k: int| 0 <= k < tail.len() ==> is_ws_byte(#[trigger] tail[k]),
    ensures
        trim_back(d + tail) == d,
    decreases tail.len(),
{
    if tail.len() == 0 {
        assert(d + tail =~= d);
        if d.len() > 0 {
            assert(!is_ws_byte(d.last()));
        }
    } else {
        assert((d + tail).last() == tail.last());
        assert((d + tail).drop_last() =~= d + tail.drop_last());
        assert(forall|k: int|
            0 <= k < tail.drop_last().len() ==> is_ws_byte(#[trigger] tail.drop_last()[k]));
        lemma_trim_back_digits(d, tail.drop_last());
    }
}

/// Scanning a single framed body yields exactly that body.
pub proof fn lemma_frame_round_trip(body: Seq<u8>)
    requires
        body.len() <= usize::MAX,
    ensures
        scan_frames(frame(body)) == seq![body],
{
    let s = frame(body);
    let d = dec_digits_u8(body.len() as int);
    lemma_dec_digits_u8_shape(body.len() as int);
    lemma_bytes_val_of_dec_digits(body.len() as int);
    let hl: int = cl_prefix().len() + d.len() as int;
    // The first line runs to the line feed that ends the header.
    assert forall|t: int| 0 <= t < hl + 1 implies s[t] != 10 by {
        if t < cl_prefix().len() {
            assert(s[t] == cl_prefix()[t]);
        } else if t < hl {
            assert(s[t] == d[t - cl_prefix().len()]);
        } else {
            assert(s[t] == 13);
        }
    }
    assert(s[hl + 1] == 10);
    lemma_line_end_at(s, 0, hl + 1);
    let le: int = hl + 2;
    let line = s.subrange(0, le);
    // That line announces exactly the body's length.
    assert(starts_with(line, cl_prefix())) by {
        assert(line.subrange(0, cl_prefix().len() as int) =~= cl_prefix());
    }
    assert(line.skip(cl_prefix().len() as int) =~= d + seq![13u8, 10u8]);
    assert(trim_front(d + seq![13u8, 10u8]) == d + seq![13u8, 10u8]) by {
        assert((d + seq![13u8, 10u8])[0] == d[0]);
        assert(!is_ws_byte(d[0]));
    }
    lemma_trim_back_digits(d, seq![13u8, 10u8]);
    assert(content_length_of(line) == Some(body.len() as int));
    // The blank line follows at once.
    assert(s[le] == 13 && s[le + 1] == 10);
    lemma_line_end_at(s, le, le + 1);
    let be: int = le + 2;
    // The body fills the rest of the stream.
    assert(s.subrange(be, be + body.len()) =~= body);
    assert(scan_frames_from(s, be + body.len()) =~= Seq::<Seq<u8>>::empty());
    assert(scan_frames(s) =~= seq![body]);
}

/// A malformed line is no loss: whatever the stream delivers after it is
/// scanned exactly as if the line had never come.
pub proof fn lemma_junk_line_skipped(junk: Seq<u8>, rest: Seq<u8>)
    requires
        junk.len() >= 1,
        junk.last() == 10,
        forall|t: int| 0 <= t < junk.len() - 1 ==> junk[t] != 10,
        content_length_of(junk) is None,
    ensures
        scan_frames(junk + rest) == scan_frames(rest),
{
    let s = junk + rest;
    assert(s[junk.len() - 1] == 10);
    assert forall|t: int| 0 <= t < junk.len() - 1 implies s[t] != 10 by {
        assert(s[t] == junk[t]);
    }
    lemma_line_end_at(s, 0, junk.len() - 1);
    assert(s.subrange(0, junk.len() as int) =~= junk);
    lemma_scan_shift(junk, rest, 0);
}

proof fn lemma_line_end_shift(a: Seq<u8>, r: Seq<u8>, i: int)
    requires
        0 <= i <= r.len(),
    ensures
        line_end(a + r, a.len() + i) == a.len() + line_end(r, i),
    decreases r.len() - i,
{
    if i < r.len() {
        assert((a + r)[a.len() + i] == r[i]);
        if r[i] != 10 {
            lemma_line_end_shift(a, r, i + 1);
        }
    }
}

/// Scanning a concatenation from the boundary on sees exactly what
/// scanning the suffix alone sees.
proof fn lemma_scan_shift(a: Seq<u8>, r: Seq<u8>, i: int)
    requires
        0 <= i,
    ensures
        scan_frames_from(a + r, a.len() + i) == scan_frames_from(r, i),
    decreases r.len() - i,
{
    let s = a + r;
    if i >= r.len() {
        assert(a.len() + i >= s.len());
    } else {
        lemma_line_end_shift(a, r, i);
        let le = line_end(r, i);
        if le <= i || le > r.len() {
        } else {
            assert(s.subrange(a.len() + i, a.len() + le) =~= r.subrange(i, le));
            match content_length_of(r.subrange(i, le)) {
                Some(n) => {
                    lemma_line_end_shift(a, r, le);
                    let be = line_end(r, le);
                    if be < le || n < 0 {
                    } else if be + n <= r.len() {
                        assert(s.subrange(a.len() + be, a.len() + be + n) =~= r.subrange(
                            be,
                            be + n,
                        ));
                        lemma_scan_shift(a, r, be + n);
                    } else {
                        assert(a.len() + be + n > s.len());
                    }
                },
                None => {
                    lemma_scan_shift(a, r, le);
                },
            }
        }
    }
}

} // verus!
