//! The textual on-disk encoding of the queue.
//!
//! The queue file is a JSON array of queue-entry objects. The serializer and
//! the parser are both defined against spec-level functions over character
//! sequences, and a proved round trip guarantees that reloading a file
//! written by the serializer reproduces the exact in-memory queue. A legacy
//! file that is a bare array of job objects (no status, retry or error
//! fields) is accepted as well, yielding fresh `Pending` entries.
//!
//! The parser accepts exactly the compact form the serializer writes, in
//! both schemas: the file is machine-written, and strictness keeps the
//! grammar and its round-trip proof small.

use vstd::prelude::*;

use crate::queue::{fresh_item, opt_view, views_of, ItemView, Job, JobStatus, JobView, QueueItem};
use crate::text::push_char;

verus! {

// ---------------------------------------------------------------------------
// Token (literal) matching
// ---------------------------------------------------------------------------

/// Consumes the exact prefix `t` of `s`, yielding the remainder.
pub open spec fn tok(s: Seq<char>, t: Seq<char>) -> Option<Seq<char>> {
    if t.len() <= s.len() && s.take(t.len() as int) == t {
        Some(s.skip(t.len() as int))
    } else {
        None
    }
}

/// A token always consumes itself from the front.
pub proof fn lemma_tok_prefix(t: Seq<char>, rest: Seq<char>)
    ensures
        tok(t + rest, t) == Some(rest),
{
    assert((t + rest).take(t.len() as int) =~= t);
    assert((t + rest).skip(t.len() as int) =~= rest);
}

/// A single differing character in range makes a token fail.
pub proof fn lemma_tok_mismatch(s: Seq<char>, t: Seq<char>, k: int)
    requires
        0 <= k < t.len(),
        k < s.len(),
        s[k] != t[k],
    ensures
        tok(s, t) is None,
{
    if t.len() <= s.len() {
        assert(s.take(t.len() as int)[k] == s[k]);
    }
}

/// Matches the literal `t` at position `i` of `s`, returning the position
/// just past it.
fn expect_tok(s: &Vec<char>, i: usize, t: &str) -> (r: Option<usize>)
    requires
        i <= s.len(),
    ensures
        ({
            let sp = tok(s@.skip(i as int), t@);
            match r {
                Some(j) => i <= j <= s.len() && sp == Some(s@.skip(j as int)),
                None => sp is None,
            }
        }),
{
    let n = t.unicode_len();
    if s.len() - i < n {
        return None;
    }
    let mut k: usize = 0;
    while k < n
        invariant
            i + n <= s.len(),
            k <= n,
            n == t@.len(),
            forall|m: int| 0 <= m < k ==> s@.skip(i as int)[m] == t@[m],
        decreases n - k,
    {
        if s[i + k] != t.get_char(k) {
            proof {
                lemma_tok_mismatch(s@.skip(i as int), t@, k as int);
            }
            return None;
        }
        k += 1;
    }
    proof {
        assert(s@.skip(i as int).take(n as int) =~= t@);
        assert(s@.skip(i as int).skip(n as int) =~= s@.skip((i + n) as int));
    }
    Some(i + n)
}

// ---------------------------------------------------------------------------
// String values
// ---------------------------------------------------------------------------

/// The escape of one character inside a quoted string value.
pub open spec fn esc_char(c: char) -> Seq<char> {
    if c == '"' || c == '\\' {
        seq!['\\', c]
    } else {
        seq![c]
    }
}

/// The escaped body of a quoted string value.
pub open spec fn esc(s: Seq<char>) -> Seq<char>
    decreases s.len(),
{
    if s.len() == 0 {
        Seq::empty()
    } else {
        esc_char(s[0]) + esc(s.skip(1))
    }
}

/// A quoted, escaped string value.
pub open spec fn ser_string(s: Seq<char>) -> Seq<char> {
    seq!['"'] + esc(s) + seq!['"']
}

/// Escaping distributes over appending one character.
pub proof fn lemma_esc_push(a: Seq<char>, c: char)
    ensures
        esc(a.push(c)) == esc(a) + esc_char(c),
    decreases a.len(),
{
    if a.len() == 0 {
        assert(a.push(c)[0] == c);
        assert(a.push(c).skip(1) =~= Seq::<char>::empty());
        assert(esc(Seq::<char>::empty()) =~= Seq::<char>::empty());
        assert(esc(a.push(c)) =~= esc_char(c) + esc(a.push(c).skip(1)));
        assert(esc(a.push(c)) =~= esc(a) + esc_char(c));
    } else {
        assert(a.push(c).skip(1) =~= a.skip(1).push(c));
        lemma_esc_push(a.skip(1), c);
        assert(esc(a.push(c)) =~= esc(a) + esc_char(c));
    }
}

/// Parses the body of a quoted string value up to and including the closing
/// quote, yielding the unescaped characters and the remainder.
pub open spec fn p_chars(s: Seq<char>) -> Option<(Seq<char>, Seq<char>)>
    decreases s.len(),
{
    if s.len() == 0 {
        None
    } else if s[0] == '"' {
        Some((Seq::empty(), s.skip(1)))
    } else if s[0] == '\\' {
        if s.len() >= 2 && (s[1] == '"' || s[1] == '\\') {
            match p_chars(s.skip(2)) {
                Some((v, r)) => Some((seq![s[1]] + v, r)),
                None => None,
            }
        } else {
            None
        }
    } else {
        match p_chars(s.skip(1)) {
            Some((v, r)) => Some((seq![s[0]] + v, r)),
            None => None,
        }
    }
}

/// A whole quoted string value.
pub open spec fn p_string(s: Seq<char>) -> Option<(Seq<char>, Seq<char>)> {
    if s.len() > 0 && s[0] == '"' {
        p_chars(s.skip(1))
    } else {
        None
    }
}

/// Round trip of the string body: parsing what `esc` wrote, terminated by a
/// quote, yields the original characters.
pub proof fn lemma_p_chars_esc(x: Seq<char>, rest: Seq<char>)
    ensures
        p_chars(esc(x) + seq!['"'] + rest) == Some((x, rest)),
    decreases x.len(),
{
    if x.len() == 0 {
        let s = esc(x) + seq!['"'] + rest;
        assert(s =~= seq!['"'] + rest);
        assert(s.skip(1) =~= rest);
        assert(p_chars(s) == Some((Seq::<char>::empty(), rest)));
        assert(x =~= Seq::<char>::empty());
    } else {
        let c = x[0];
        let s = esc(x) + seq!['"'] + rest;
        lemma_p_chars_esc(x.skip(1), rest);
        let tail = esc(x.skip(1)) + seq!['"'] + rest;
        if c == '"' || c == '\\' {
            assert(s =~= seq!['\\', c] + tail);
            assert(s[0] == '\\' && s[1] == c);
            assert(s.skip(2) =~= tail);
            assert(seq![c] + x.skip(1) =~= x);
        } else {
            assert(s =~= seq![c] + tail);
            assert(s[0] == c);
            assert(s.skip(1) =~= tail);
            assert(seq![c] + x.skip(1) =~= x);
        }
    }
}

/// Round trip of a whole string value.
pub proof fn lemma_p_string_ser(x: Seq<char>, rest: Seq<char>)
    ensures
        p_string(ser_string(x) + rest) == Some((x, rest)),
{
    let s = ser_string(x) + rest;
    assert(s[0] == '"');
    assert(s.skip(1) =~= esc(x) + seq!['"'] + rest);
    lemma_p_chars_esc(x, rest);
}

/// Writes `ser_string(s@)` onto the end of `out`.
fn write_string_value(out: &mut String, s: &str)
    ensures
        final(out)@ == old(out)@ + ser_string(s@),
{
    push_char(out, '"');
    let n = s.unicode_len();
    let mut k: usize = 0;
    while k < n
        invariant
            k <= n,
            n == s@.len(),
            out@ =~= old(out)@ + seq!['"'] + esc(s@.take(k as int)),
        decreases n - k,
    {
        let c = s.get_char(k);
        if c == '"' || c == '\\' {
            push_char(out, '\\');
        }
        push_char(out, c);
        proof {
            lemma_esc_push(s@.take(k as int), c);
            assert(s@.take(k + 1 as int) =~= s@.take(k as int).push(c));
            assert(out@ =~= old(out)@ + seq!['"'] + esc(s@.take(k + 1 as int)));
        }
        k += 1;
    }
    push_char(out, '"');
    proof {
        assert(s@.take(n as int) =~= s@);
        assert(out@ =~= old(out)@ + ser_string(s@));
    }
}

/// Parses a string body starting at `i` (just past the opening quote).
fn parse_chars(s: &Vec<char>, i: usize) -> (r: Option<(String, usize)>)
    requires
        i <= s.len(),
    ensures
        ({
            let sp = p_chars(s@.skip(i as int));
            match r {
                Some((v, j)) => i <= j <= s.len() && sp == Some((v@, s@.skip(j as int))),
                None => sp is None,
            }
        }),
    decreases s.len() - i,
{
    if i == s.len() {
        return None;
    }
    let c = s[i];
    if c == '"' {
        proof {
            assert(s@.skip(i as int).skip(1) =~= s@.skip(i + 1 as int));
        }
        return Some((String::new(), i + 1));
    }
    if c == '\\' {
        if i + 1 == s.len() {
            return None;
        }
        let d = s[i + 1];
        if d == '"' || d == '\\' {
            proof {
                assert(s@.skip(i as int).skip(2) =~= s@.skip(i + 2 as int));
            }
            match parse_chars(s, i + 2) {
                Some((v, j)) => {
                    let mut w = String::new();
                    push_char(&mut w, d);
                    w.append(v.as_str());
                    proof {
                        assert(w@ =~= seq![s@.skip(i as int)[1]] + v@);
                    }
                    Some((w, j))
                },
                None => None,
            }
        } else {
            None
        }
    } else {
        proof {
            assert(s@.skip(i as int).skip(1) =~= s@.skip(i + 1 as int));
        }
        match parse_chars(s, i + 1) {
            Some((v, j)) => {
                let mut w = String::new();
                push_char(&mut w, c);
                w.append(v.as_str());
                proof {
                    assert(w@ =~= seq![s@.skip(i as int)[0]] + v@);
                }
                Some((w, j))
            },
            None => None,
        }
    }
}

/// Parses a whole quoted string value at `i`.
fn parse_string(s: &Vec<char>, i: usize) -> (r: Option<(String, usize)>)
    requires
        i <= s.len(),
    ensures
        ({
            let sp = p_string(s@.skip(i as int));
            match r {
                Some((v, j)) => i <= j <= s.len() && sp == Some((v@, s@.skip(j as int))),
                None => sp is None,
            }
        }),
{
    if i == s.len() {
        return None;
    }
    if s[i] != '"' {
        return None;
    }
    proof {
        assert(s@.skip(i as int).skip(1) =~= s@.skip(i + 1 as int));
    }
    parse_chars(s, i + 1)
}

// ---------------------------------------------------------------------------
// Unsigned numbers
// ---------------------------------------------------------------------------

/// Whether `c` is a decimal digit.
pub open spec fn is_digit(c: char) -> bool {
    ||| c == '0'
    ||| c == '1'
    ||| c == '2'
    ||| c == '3'
    ||| c == '4'
    ||| c == '5'
    ||| c == '6'
    ||| c == '7'
    ||| c == '8'
    ||| c == '9'
}

/// The value of a decimal digit.
pub open spec fn digit_val(c: char) -> int {
    if c == '0' {
        0
    } else if c == '1' {
        1
    } else if c == '2' {
        2
    } else if c == '3' {
        3
    } else if c == '4' {
        4
    } else if c == '5' {
        5
    } else if c == '6' {
        6
    } else if c == '7' {
        7
    } else if c == '8' {
        8
    } else {
        9
    }
}

/// The character of a decimal digit.
pub open spec fn digit_char(d: int) -> char {
    if d == 0 {
        '0'
    } else if d == 1 {
        '1'
    } else if d == 2 {
        '2'
    } else if d == 3 {
        '3'
    } else if d == 4 {
        '4'
    } else if d == 5 {
        '5'
    } else if d == 6 {
        '6'
    } else if d == 7 {
        '7'
    } else if d == 8 {
        '8'
    } else {
        '9'
    }
}

/// The decimal digits of `n`, most significant first.
pub open spec fn ser_u32(n: u32) -> Seq<char>
    decreases n,
{
    if n < 10 {
        seq![digit_char(n as int)]
    } else {
        ser_u32(n / 10).push(digit_char((n % 10) as int))
    }
}

/// Folds the leading digits of `s` onto `acc`, returning the value and the
/// remainder. Total: the value is an unbounded integer.
pub open spec fn p_digits(s: Seq<char>, acc: int) -> (int, Seq<char>)
    decreases s.len(),
{
    if s.len() > 0 && is_digit(s[0]) {
        p_digits(s.skip(1), acc * 10 + digit_val(s[0]))
    } else {
        (acc, s)
    }
}

/// Parses a decimal number that fits in a `u32`.
pub open spec fn p_u32(s: Seq<char>) -> Option<(u32, Seq<char>)> {
    if s.len() > 0 && is_digit(s[0]) {
        let (v, r) = p_digits(s, 0);
        if 0 <= v <= u32::MAX {
            Some((v as u32, r))
        } else {
            None
        }
    } else {
        None
    }
}

/// The power of ten just above `n`: ten to the number of digits of `n`.
pub open spec fn shift10(n: u32) -> int
    decreases n,
{
    if n < 10 {
        10
    } else {
        10 * shift10(n / 10)
    }
}

/// Folding the digits of `n` onto `acc` scales `acc` past `n` and adds `n`.
proof fn lemma_p_digits_ser(n: u32, acc: int, rest: Seq<char>)
    ensures
        p_digits(ser_u32(n) + rest, acc) == p_digits(rest, acc * shift10(n) + n),
    decreases n,
{
    if n < 10 {
        let s = ser_u32(n) + rest;
        assert(s[0] == digit_char(n as int));
        assert(is_digit(digit_char(n as int)) && digit_val(digit_char(n as int)) == n);
        assert(s.skip(1) =~= rest);
    } else {
        let d = digit_char((n % 10) as int);
        assert(is_digit(d) && digit_val(d) == n % 10);
        assert(ser_u32(n) + rest =~= ser_u32(n / 10) + (seq![d] + rest));
        lemma_p_digits_ser(n / 10, acc, seq![d] + rest);
        let s0 = shift10(n / 10);
        let q = (n / 10) as int;
        let mid = acc * s0 + q;
        let s2 = seq![d] + rest;
        assert(s2[0] == d);
        assert(s2.skip(1) =~= rest);
        assert(p_digits(s2, mid) == p_digits(rest, mid * 10 + (n % 10)));
        assert((acc * s0 + q) * 10 + (n % 10) == acc * (10 * s0) + (q * 10 + (n % 10)))
            by (nonlinear_arith);
        assert(q * 10 + (n % 10) == n);
        assert(shift10(n) == 10 * s0);
    }
}

/// Every rendering of a number starts with a digit.
proof fn lemma_ser_u32_first(n: u32)
    ensures
        ser_u32(n).len() >= 1,
        is_digit(ser_u32(n)[0]),
    decreases n,
{
    if n < 10 {
        assert(is_digit(digit_char(n as int)));
    } else {
        lemma_ser_u32_first(n / 10);
        assert(ser_u32(n)[0] == ser_u32(n / 10)[0]);
    }
}

/// Round trip of a number, provided what follows does not start with a digit.
pub proof fn lemma_p_u32_ser(n: u32, rest: Seq<char>)
    requires
        rest.len() == 0 || !is_digit(rest[0]),
    ensures
        p_u32(ser_u32(n) + rest) == Some((n, rest)),
{
    let s = ser_u32(n) + rest;
    lemma_ser_u32_first(n);
    assert(s[0] == ser_u32(n)[0]);
    lemma_p_digits_ser(n, 0, rest);
    assert(0 * shift10(n) + n == n);
    assert(p_digits(rest, n as int) == (n as int, rest));
}

/// Folding digits never shrinks a nonnegative accumulator.
proof fn lemma_p_digits_ge(s: Seq<char>, acc: int)
    requires
        acc >= 0,
    ensures
        p_digits(s, acc).0 >= acc,
    decreases s.len(),
{
    if s.len() > 0 && is_digit(s[0]) {
        lemma_p_digits_ge(s.skip(1), acc * 10 + digit_val(s[0]));
    }
}

/// The value of a digit character, or `None` for any other character.
fn digit_of(c: char) -> (r: Option<u32>)
    ensures
        match r {
            Some(d) => is_digit(c) && d == digit_val(c) && d < 10,
            None => !is_digit(c),
        },
{
    if c == '0' {
        Some(0)
    } else if c == '1' {
        Some(1)
    } else if c == '2' {
        Some(2)
    } else if c == '3' {
        Some(3)
    } else if c == '4' {
        Some(4)
    } else if c == '5' {
        Some(5)
    } else if c == '6' {
        Some(6)
    } else if c == '7' {
        Some(7)
    } else if c == '8' {
        Some(8)
    } else if c == '9' {
        Some(9)
    } else {
        None
    }
}

/// The character of a digit value.
fn char_of_digit(d: u32) -> (c: char)
    requires
        d < 10,
    ensures
        c == digit_char(d as int),
{
    if d == 0 {
        '0'
    } else if d == 1 {
        '1'
    } else if d == 2 {
        '2'
    } else if d == 3 {
        '3'
    } else if d == 4 {
        '4'
    } else if d == 5 {
        '5'
    } else if d == 6 {
        '6'
    } else if d == 7 {
        '7'
    } else if d == 8 {
        '8'
    } else {
        '9'
    }
}

/// Writes `ser_u32(n)` onto the end of `out`.
fn write_u32(out: &mut String, n: u32)
    ensures
        final(out)@ == old(out)@ + ser_u32(n),
    decreases n,
{
    if n < 10 {
        push_char(out, char_of_digit(n));
    } else {
        write_u32(out, n / 10);
        push_char(out, char_of_digit(n % 10));
        proof {
            assert(out@ =~= old(out)@ + ser_u32(n));
        }
    }
}

/// Parses a decimal `u32` at `i`.
fn parse_u32(s: &Vec<char>, i: usize) -> (r: Option<(u32, usize)>)
    requires
        i <= s.len(),
    ensures
        ({
            let sp = p_u32(s@.skip(i as int));
            match r {
                Some((v, j)) => i <= j <= s.len() && sp == Some((v, s@.skip(j as int))),
                None => sp is None,
            }
        }),
{
    if i == s.len() {
        return None;
    }
    proof {
        assert(s@.skip(i as int)[0] == s@[i as int]);
    }
    if digit_of(s[i]).is_none() {
        return None;
    }
    let mut acc: u32 = 0;
    let mut k: usize = i;
    loop
        invariant
            i <= k <= s.len(),
            i < s.len(),
            is_digit(s@[i as int]),
            p_digits(s@.skip(i as int), 0) == p_digits(s@.skip(k as int), acc as int),
        decreases s.len() - k,
    {
        if k == s.len() {
            proof {
                assert(s@.skip(k as int).len() == 0);
            }
            return Some((acc, k));
        }
        proof {
            assert(s@.skip(k as int)[0] == s@[k as int]);
        }
        match digit_of(s[k]) {
            None => {
                return Some((acc, k));
            },
            Some(d) => {
                proof {
                    assert(s@.skip(k as int).skip(1) =~= s@.skip(k + 1 as int));
                    assert(p_digits(s@.skip(k as int), acc as int) == p_digits(
                        s@.skip(k + 1 as int),
                        acc as int * 10 + d,
                    ));
                }
                if acc > (u32::MAX - d) / 10 {
                    proof {
                        assert(acc as int * 10 + d > u32::MAX);
                        lemma_p_digits_ge(s@.skip(k + 1 as int), acc as int * 10 + d);
                    }
                    return None;
                }
                acc = acc * 10 + d;
                k += 1;
            },
        }
    }
}

// ---------------------------------------------------------------------------
// Status tokens
// ---------------------------------------------------------------------------

/// The quoted name of a status.
pub open spec fn status_tok(st: JobStatus) -> Seq<char> {
    match st {
        JobStatus::Pending => "\"Pending\""@,
        JobStatus::Running => "\"Running\""@,
        JobStatus::Failed => "\"Failed\""@,
        JobStatus::Completed => "\"Completed\""@,
    }
}

/// Parses a quoted status name.
pub open spec fn p_status(s: Seq<char>) -> Option<(JobStatus, Seq<char>)> {
    match tok(s, "\"Pending\""@) {
        Some(r) => Some((JobStatus::Pending, r)),
        None => match tok(s, "\"Running\""@) {
            Some(r) => Some((JobStatus::Running, r)),
            None => match tok(s, "\"Failed\""@) {
                Some(r) => Some((JobStatus::Failed, r)),
                None => match tok(s, "\"Completed\""@) {
                    Some(r) => Some((JobStatus::Completed, r)),
                    None => None,
                },
            },
        },
    }
}

/// Round trip of a status token.
pub proof fn lemma_p_status_ser(st: JobStatus, rest: Seq<char>)
    ensures
        p_status(status_tok(st) + rest) == Some((st, rest)),
{
    reveal_strlit("\"Pending\"");
    reveal_strlit("\"Running\"");
    reveal_strlit("\"Failed\"");
    reveal_strlit("\"Completed\"");
    lemma_tok_prefix(status_tok(st), rest);
    let s = status_tok(st) + rest;
    assert(s[1] == status_tok(st)[1]);
    match st {
        JobStatus::Pending => {},
        JobStatus::Running => {
            lemma_tok_mismatch(s, "\"Pending\""@, 1);
        },
        JobStatus::Failed => {
            lemma_tok_mismatch(s, "\"Pending\""@, 1);
            lemma_tok_mismatch(s, "\"Running\""@, 1);
        },
        JobStatus::Completed => {
            lemma_tok_mismatch(s, "\"Pending\""@, 1);
            lemma_tok_mismatch(s, "\"Running\""@, 1);
            lemma_tok_mismatch(s, "\"Failed\""@, 1);
        },
    }
}

/// Writes `status_tok(*st)` onto the end of `out`.
fn write_status(out: &mut String, st: &JobStatus)
    ensures
        final(out)@ == old(out)@ + status_tok(*st),
{
    match st {
        JobStatus::Pending => out.append("\"Pending\""),
        JobStatus::Running => out.append("\"Running\""),
        JobStatus::Failed => out.append("\"Failed\""),
        JobStatus::Completed => out.append("\"Completed\""),
    }
}

/// Parses a quoted status name at `i`.
fn parse_status(s: &Vec<char>, i: usize) -> (r: Option<(JobStatus, usize)>)
    requires
        i <= s.len(),
    ensures
        ({
            let sp = p_status(s@.skip(i as int));
            match r {
                Some((v, j)) => i <= j <= s.len() && sp == Some((v, s@.skip(j as int))),
                None => sp is None,
            }
        }),
{
    if let Some(j) = expect_tok(s, i, "\"Pending\"") {
        return Some((JobStatus::Pending, j));
    }
    if let Some(j) = expect_tok(s, i, "\"Running\"") {
        return Some((JobStatus::Running, j));
    }
    if let Some(j) = expect_tok(s, i, "\"Failed\"") {
        return Some((JobStatus::Failed, j));
    }
    if let Some(j) = expect_tok(s, i, "\"Completed\"") {
        return Some((JobStatus::Completed, j));
    }
    None
}

// ---------------------------------------------------------------------------
// Optional string values (`null` or a quoted string)
// ---------------------------------------------------------------------------

/// `null`, or a quoted string value.
pub open spec fn ser_opt_str(o: Option<Seq<char>>) -> Seq<char> {
    match o {
        None => "null"@,
        Some(m) => ser_string(m),
    }
}

/// Parses `null` or a quoted string value.
pub open spec fn p_opt_str(s: Seq<char>) -> Option<(Option<Seq<char>>, Seq<char>)> {
    if s.len() > 0 && s[0] == '"' {
        match p_string(s) {
            Some((v, r)) => Some((Some(v), r)),
            None => None,
        }
    } else {
        match tok(s, "null"@) {
            Some(r) => Some((None, r)),
            None => None,
        }
    }
}

/// Round trip of an optional string value.
pub proof fn lemma_p_opt_str_ser(o: Option<Seq<char>>, rest: Seq<char>)
    ensures
        p_opt_str(ser_opt_str(o) + rest) == Some((o, rest)),
{
    reveal_strlit("null");
    match o {
        None => {
            let s = "null"@ + rest;
            assert(s[0] == 'n');
            lemma_tok_prefix("null"@, rest);
        },
        Some(m) => {
            let s = ser_string(m) + rest;
            assert(s[0] == '"');
            lemma_p_string_ser(m, rest);
        },
    }
}

/// Writes `ser_opt_str` of `o`'s view onto the end of `out`.
fn write_opt_str(out: &mut String, o: &Option<String>)
    ensures
        final(out)@ == old(out)@ + ser_opt_str(opt_view(*o)),
{
    match o {
        None => out.append("null"),
        Some(m) => write_string_value(out, m.as_str()),
    }
}

/// Parses `null` or a quoted string value at `i`.
fn parse_opt_str(s: &Vec<char>, i: usize) -> (r: Option<(Option<String>, usize)>)
    requires
        i <= s.len(),
    ensures
        ({
            let sp = p_opt_str(s@.skip(i as int));
            match r {
                Some((v, j)) => i <= j <= s.len() && sp == Some((
                    opt_view(v),
                    s@.skip(j as int),
                )),
                None => sp is None,
            }
        }),
{
    proof {
        if i < s.len() {
            assert(s@.skip(i as int)[0] == s@[i as int]);
        }
    }
    if i < s.len() && s[i] == '"' {
        match parse_string(s, i) {
            Some((v, j)) => Some((Some(v), j)),
            None => None,
        }
    } else {
        match expect_tok(s, i, "null") {
            Some(j) => Some((None, j)),
            None => None,
        }
    }
}


// ---------------------------------------------------------------------------
// Jobs
// ---------------------------------------------------------------------------

/// A job as a tagged object with its payload, destination and, for uploads,
/// the optional thumbnail override.
pub open spec fn ser_job(j: JobView) -> Seq<char> {
    match j {
        JobView::Generate { params, dest } => "{\"Generate\":{\"params\":"@ + ser_string(params)
            + ",\"dest\":"@ + ser_string(dest) + "}}"@,
        JobView::GenerateUpload { params, dest, thumbnail } => "{\"GenerateUpload\":{\"params\":"@
            + ser_string(params) + ",\"dest\":"@ + ser_string(dest) + ",\"thumbnail\":"@
            + ser_opt_str(thumbnail) + "}}"@,
    }
}

/// Parses a tagged job object.
pub open spec fn p_job(s: Seq<char>) -> Option<(JobView, Seq<char>)> {
    match tok(s, "{\"Generate\":{\"params\":"@) {
        Some(r1) => match p_string(r1) {
            Some((params, r2)) => match tok(r2, ",\"dest\":"@) {
                Some(r3) => match p_string(r3) {
                    Some((dest, r4)) => match tok(r4, "}}"@) {
                        Some(r5) => Some((JobView::Generate { params, dest }, r5)),
                        None => None,
                    },
                    None => None,
                },
                None => None,
            },
            None => None,
        },
        None => match tok(s, "{\"GenerateUpload\":{\"params\":"@) {
            Some(r1) => match p_string(r1) {
                Some((params, r2)) => match tok(r2, ",\"dest\":"@) {
                    Some(r3) => match p_string(r3) {
                        Some((dest, r4)) => match tok(r4, ",\"thumbnail\":"@) {
                            Some(r5) => match p_opt_str(r5) {
                                Some((thumbnail, r6)) => match tok(r6, "}}"@) {
                                    Some(r7) => Some(
                                        (JobView::GenerateUpload { params, dest, thumbnail }, r7),
                                    ),
                                    None => None,
                                },
                                None => None,
                            },
                            None => None,
                        },
                        None => None,
                    },
                    None => None,
                },
                None => None,
            },
            None => None,
        },
    }
}

/// Round trip of a job object.
pub proof fn lemma_p_job_ser(j: JobView, rest: Seq<char>)
    ensures
        p_job(ser_job(j) + rest) == Some((j, rest)),
{
    reveal_strlit("{\"Generate\":{\"params\":");
    reveal_strlit("{\"GenerateUpload\":{\"params\":");
    reveal_strlit(",\"dest\":");
    reveal_strlit(",\"thumbnail\":");
    reveal_strlit("}}");
    let t_gen = "{\"Generate\":{\"params\":"@;
    let t_gup = "{\"GenerateUpload\":{\"params\":"@;
    match j {
        JobView::Generate { params, dest } => {
            let c3 = "}}"@ + rest;
            let c2 = ser_string(dest) + c3;
            let c1 = ",\"dest\":"@ + c2;
            let c0 = ser_string(params) + c1;
            assert(ser_job(j) + rest =~= t_gen + c0);
            lemma_tok_prefix(t_gen, c0);
            lemma_p_string_ser(params, c1);
            lemma_tok_prefix(",\"dest\":"@, c2);
            lemma_p_string_ser(dest, c3);
            lemma_tok_prefix("}}"@, rest);
        },
        JobView::GenerateUpload { params, dest, thumbnail } => {
            let c4 = "}}"@ + rest;
            let c35 = ser_opt_str(thumbnail) + c4;
            let c3 = ",\"thumbnail\":"@ + c35;
            let c2 = ser_string(dest) + c3;
            let c1 = ",\"dest\":"@ + c2;
            let c0 = ser_string(params) + c1;
            assert(ser_job(j) + rest =~= t_gup + c0);
            let s = t_gup + c0;
            assert(s[10] == t_gup[10]);
            lemma_tok_mismatch(s, t_gen, 10);
            lemma_tok_prefix(t_gup, c0);
            lemma_p_string_ser(params, c1);
            lemma_tok_prefix(",\"dest\":"@, c2);
            lemma_p_string_ser(dest, c3);
            lemma_tok_prefix(",\"thumbnail\":"@, c35);
            lemma_p_opt_str_ser(thumbnail, c4);
            lemma_tok_prefix("}}"@, rest);
        },
    }
}

/// Writes `ser_job` of `job`'s view onto the end of `out`.
fn write_job(out: &mut String, job: &Job)
    ensures
        final(out)@ == old(out)@ + ser_job(job@),
{
    match job {
        Job::Generate { params, dest } => {
            out.append("{\"Generate\":{\"params\":");
            write_string_value(out, params.as_str());
            out.append(",\"dest\":");
            write_string_value(out, dest.as_str());
            out.append("}}");
            proof {
                assert(out@ =~= old(out)@ + ser_job(job@));
            }
        },
        Job::GenerateUpload { params, dest, thumbnail } => {
            out.append("{\"GenerateUpload\":{\"params\":");
            write_string_value(out, params.as_str());
            out.append(",\"dest\":");
            write_string_value(out, dest.as_str());
            out.append(",\"thumbnail\":");
            write_opt_str(out, thumbnail);
            out.append("}}");
            proof {
                assert(out@ =~= old(out)@ + ser_job(job@));
            }
        },
    }
}

/// Parses a tagged job object at `i`.
fn parse_job(s: &Vec<char>, i: usize) -> (r: Option<(Job, usize)>)
    requires
        i <= s.len(),
    ensures
        ({
            let sp = p_job(s@.skip(i as int));
            match r {
                Some((v, j)) => i <= j <= s.len() && sp == Some((v@, s@.skip(j as int))),
                None => sp is None,
            }
        }),
{
    if let Some(j1) = expect_tok(s, i, "{\"Generate\":{\"params\":") {
        match parse_string(s, j1) {
            Some((params, j2)) => match expect_tok(s, j2, ",\"dest\":") {
                Some(j3) => match parse_string(s, j3) {
                    Some((dest, j4)) => match expect_tok(s, j4, "}}") {
                        Some(j5) => Some((Job::Generate { params, dest }, j5)),
                        None => None,
                    },
                    None => None,
                },
                None => None,
            },
            None => None,
        }
    } else if let Some(j1) = expect_tok(s, i, "{\"GenerateUpload\":{\"params\":") {
        match parse_string(s, j1) {
            Some((params, j2)) => match expect_tok(s, j2, ",\"dest\":") {
                Some(j3) => match parse_string(s, j3) {
                    Some((dest, j4)) => match expect_tok(s, j4, ",\"thumbnail\":") {
                        Some(j5) => match parse_opt_str(s, j5) {
                            Some((thumbnail, j6)) => match expect_tok(s, j6, "}}") {
                                Some(j7) => Some(
                                    (Job::GenerateUpload { params, dest, thumbnail }, j7),
                                ),
                                None => None,
                            },
                            None => None,
                        },
                        None => None,
                    },
                    None => None,
                },
                None => None,
            },
            None => None,
        }
    } else {
        None
    }
}

// ---------------------------------------------------------------------------
// Queue entries
// ---------------------------------------------------------------------------

/// A queue entry as an object with its job, status, retry count and error.
pub open spec fn ser_item(it: ItemView) -> Seq<char> {
    "{\"job\":"@ + ser_job(it.job) + ",\"status\":"@ + status_tok(it.status) + ",\"retries\":"@
        + ser_u32(it.retries) + ",\"error\":"@ + ser_opt_str(it.error) + "}"@
}

/// Parses a queue-entry object.
pub open spec fn p_item(s: Seq<char>) -> Option<(ItemView, Seq<char>)> {
    match tok(s, "{\"job\":"@) {
        Some(r1) => match p_job(r1) {
            Some((job, r2)) => match tok(r2, ",\"status\":"@) {
                Some(r3) => match p_status(r3) {
                    Some((status, r4)) => match tok(r4, ",\"retries\":"@) {
                        Some(r5) => match p_u32(r5) {
                            Some((retries, r6)) => match tok(r6, ",\"error\":"@) {
                                Some(r7) => match p_opt_str(r7) {
                                    Some((error, r8)) => match tok(r8, "}"@) {
                                        Some(r9) => Some(
                                            (ItemView { job, status, retries, error }, r9),
                                        ),
                                        None => None,
                                    },
                                    None => None,
                                },
                                None => None,
                            },
                            None => None,
                        },
                        None => None,
                    },
                    None => None,
                },
                None => None,
            },
            None => None,
        },
        None => None,
    }
}

/// Round trip of a queue entry.
pub proof fn lemma_p_item_ser(it: ItemView, rest: Seq<char>)
    ensures
        p_item(ser_item(it) + rest) == Some((it, rest)),
{
    reveal_strlit("{\"job\":");
    reveal_strlit(",\"status\":");
    reveal_strlit(",\"retries\":");
    reveal_strlit(",\"error\":");
    reveal_strlit("}");
    let c8 = "}"@ + rest;
    let c7 = ser_opt_str(it.error) + c8;
    let c6 = ",\"error\":"@ + c7;
    let c5 = ser_u32(it.retries) + c6;
    let c4 = ",\"retries\":"@ + c5;
    let c3 = status_tok(it.status) + c4;
    let c2 = ",\"status\":"@ + c3;
    let c1 = ser_job(it.job) + c2;
    assert(ser_item(it) + rest =~= "{\"job\":"@ + c1);
    lemma_tok_prefix("{\"job\":"@, c1);
    lemma_p_job_ser(it.job, c2);
    lemma_tok_prefix(",\"status\":"@, c3);
    lemma_p_status_ser(it.status, c4);
    lemma_tok_prefix(",\"retries\":"@, c5);
    assert(c6[0] == ',' && !is_digit(','));
    lemma_p_u32_ser(it.retries, c6);
    lemma_tok_prefix(",\"error\":"@, c7);
    lemma_p_opt_str_ser(it.error, c8);
    lemma_tok_prefix("}"@, rest);
    assert(ItemView {
        job: it.job,
        status: it.status,
        retries: it.retries,
        error: it.error,
    } == it);
}

/// Writes `ser_item` of `it`'s view onto the end of `out`.
fn write_item(out: &mut String, it: &QueueItem)
    ensures
        final(out)@ == old(out)@ + ser_item(it@),
{
    out.append("{\"job\":");
    write_job(out, &it.job);
    out.append(",\"status\":");
    write_status(out, &it.status);
    out.append(",\"retries\":");
    write_u32(out, it.retries);
    out.append(",\"error\":");
    write_opt_str(out, &it.error);
    out.append("}");
    proof {
        assert(out@ =~= old(out)@ + ser_item(it@));
    }
}

/// Parses a queue-entry object at `i`.
fn parse_item(s: &Vec<char>, i: usize) -> (r: Option<(QueueItem, usize)>)
    requires
        i <= s.len(),
    ensures
        ({
            let sp = p_item(s@.skip(i as int));
            match r {
                Some((v, j)) => i <= j <= s.len() && sp == Some((v@, s@.skip(j as int))),
                None => sp is None,
            }
        }),
{
    match expect_tok(s, i, "{\"job\":") {
        Some(j1) => match parse_job(s, j1) {
            Some((job, j2)) => match expect_tok(s, j2, ",\"status\":") {
                Some(j3) => match parse_status(s, j3) {
                    Some((status, j4)) => match expect_tok(s, j4, ",\"retries\":") {
                        Some(j5) => match parse_u32(s, j5) {
                            Some((retries, j6)) => match expect_tok(s, j6, ",\"error\":") {
                                Some(j7) => match parse_opt_str(s, j7) {
                                    Some((error, j8)) => match expect_tok(s, j8, "}") {
                                        Some(j9) => Some(
                                            (QueueItem { job, status, retries, error }, j9),
                                        ),
                                        None => None,
                                    },
                                    None => None,
                                },
                                None => None,
                            },
                            None => None,
                        },
                        None => None,
                    },
                    None => None,
                },
                None => None,
            },
            None => None,
        },
        None => None,
    }
}


// ---------------------------------------------------------------------------
// Item lists and the whole queue file
// ---------------------------------------------------------------------------

/// Comma-separated queue entries.
pub open spec fn ser_items(items: Seq<ItemView>) -> Seq<char>
    decreases items.len(),
{
    if items.len() == 0 {
        Seq::empty()
    } else if items.len() == 1 {
        ser_item(items[0])
    } else {
        ser_item(items[0]) + seq![','] + ser_items(items.skip(1))
    }
}

/// The whole queue file: a bracketed array of queue entries.
pub open spec fn ser_queue(items: Seq<ItemView>) -> Seq<char> {
    seq!['['] + ser_items(items) + seq![']']
}

/// Parses one or more comma-separated queue entries.
pub open spec fn p_items(s: Seq<char>) -> Option<(Seq<ItemView>, Seq<char>)>
    decreases s.len(),
{
    match p_item(s) {
        Some((it, r)) => {
            if r.len() < s.len() {
                if r.len() > 0 && r[0] == ',' {
                    match p_items(r.skip(1)) {
                        Some((more, r2)) => Some((seq![it] + more, r2)),
                        None => None,
                    }
                } else {
                    Some((seq![it], r))
                }
            } else {
                None
            }
        },
        None => None,
    }
}

/// Parses a whole queue file in the current format.
pub open spec fn p_queue(s: Seq<char>) -> Option<Seq<ItemView>> {
    if s.len() >= 1 && s[0] == '[' {
        if s.len() == 2 && s[1] == ']' {
            Some(Seq::empty())
        } else {
            match p_items(s.skip(1)) {
                Some((items, r2)) => if r2 == seq![']'] {
                    Some(items)
                } else {
                    None
                },
                None => None,
            }
        }
    } else {
        None
    }
}

/// Every rendered queue entry starts with an opening brace.
proof fn lemma_ser_item_first(it: ItemView)
    ensures
        ser_item(it).len() >= 7,
        ser_item(it)[0] == '{',
        ser_item(it)[1] == '"',
        ser_item(it)[2] == 'j',
{
    reveal_strlit("{\"job\":");
    assert(ser_item(it)[0] == "{\"job\":"@[0]);
    assert(ser_item(it)[1] == "{\"job\":"@[1]);
    assert(ser_item(it)[2] == "{\"job\":"@[2]);
}

/// Round trip of a non-empty entry list followed by the closing bracket.
#[verifier::rlimit(50)]
proof fn lemma_p_items_ser(items: Seq<ItemView>)
    requires
        items.len() >= 1,
    ensures
        p_items(ser_items(items) + seq![']']) == Some((items, seq![']'])),
    decreases items.len(),
{
    if items.len() == 1 {
        lemma_p_item_ser(items[0], seq![']']);
        assert(ser_items(items) + seq![']'] =~= ser_item(items[0]) + seq![']']);
        lemma_ser_item_first(items[0]);
        assert(seq![items[0]] =~= items);
    } else {
        let x0 = items[0];
        let tail_ser = ser_items(items.skip(1)) + seq![']'];
        let after = seq![','] + tail_ser;
        assert(ser_items(items) + seq![']'] =~= ser_item(x0) + after);
        lemma_p_item_ser(x0, after);
        lemma_ser_item_first(x0);
        assert(after.skip(1) =~= tail_ser);
        lemma_p_items_ser(items.skip(1));
        assert(seq![x0] + items.skip(1) =~= items);
    }
}

/// Round trip of the whole queue file.
pub proof fn lemma_p_queue_ser(items: Seq<ItemView>)
    ensures
        p_queue(ser_queue(items)) == Some(items),
{
    let s = ser_queue(items);
    assert(s[0] == '[');
    if items.len() == 0 {
        assert(ser_items(items) =~= Seq::<char>::empty());
        assert(s =~= seq!['[', ']']);
        assert(items =~= Seq::<ItemView>::empty());
    } else {
        lemma_ser_item_first(items[0]);
        assert(ser_items(items)[0] == ser_item(items[0])[0]);
        assert(ser_items(items).len() >= 7);
        assert(s.len() > 2);
        assert(s.skip(1) =~= ser_items(items) + seq![']']);
        lemma_p_items_ser(items);
    }
}

// ---------------------------------------------------------------------------
// The legacy format: a bare array of jobs
// ---------------------------------------------------------------------------

/// Comma-separated bare jobs.
pub open spec fn ser_jobs(jobs: Seq<JobView>) -> Seq<char>
    decreases jobs.len(),
{
    if jobs.len() == 0 {
        Seq::empty()
    } else if jobs.len() == 1 {
        ser_job(jobs[0])
    } else {
        ser_job(jobs[0]) + seq![','] + ser_jobs(jobs.skip(1))
    }
}

/// A legacy queue file: a bracketed array of bare jobs.
pub open spec fn ser_legacy(jobs: Seq<JobView>) -> Seq<char> {
    seq!['['] + ser_jobs(jobs) + seq![']']
}

/// Parses one or more comma-separated bare jobs.
pub open spec fn p_jobs(s: Seq<char>) -> Option<(Seq<JobView>, Seq<char>)>
    decreases s.len(),
{
    match p_job(s) {
        Some((j, r)) => {
            if r.len() < s.len() {
                if r.len() > 0 && r[0] == ',' {
                    match p_jobs(r.skip(1)) {
                        Some((more, r2)) => Some((seq![j] + more, r2)),
                        None => None,
                    }
                } else {
                    Some((seq![j], r))
                }
            } else {
                None
            }
        },
        None => None,
    }
}

/// Parses a whole legacy queue file.
pub open spec fn p_legacy(s: Seq<char>) -> Option<Seq<JobView>> {
    if s.len() >= 1 && s[0] == '[' {
        if s.len() == 2 && s[1] == ']' {
            Some(Seq::empty())
        } else {
            match p_jobs(s.skip(1)) {
                Some((jobs, r2)) => if r2 == seq![']'] {
                    Some(jobs)
                } else {
                    None
                },
                None => None,
            }
        }
    } else {
        None
    }
}

/// The fresh `Pending` entries a legacy import yields.
pub open spec fn fresh_items(jobs: Seq<JobView>) -> Seq<ItemView> {
    jobs.map_values(|j: JobView| fresh_item(j))
}

/// The views of a list of jobs, in order.
pub open spec fn job_views_of(jobs: Seq<Job>) -> Seq<JobView> {
    jobs.map_values(|j: Job| j@)
}

/// What a parse of the queue file text yields: the current format first,
/// then the legacy bare-job array, whose entries come back fresh `Pending`.
pub open spec fn parse_queue_spec(s: Seq<char>) -> Option<Seq<ItemView>> {
    match p_queue(s) {
        Some(items) => Some(items),
        None => match p_legacy(s) {
            Some(jobs) => Some(fresh_items(jobs)),
            None => None,
        },
    }
}

/// Every rendered bare job starts with the brace-quote-G of its tag.
proof fn lemma_ser_job_first(j: JobView)
    ensures
        ser_job(j).len() >= 3,
        ser_job(j)[0] == '{',
        ser_job(j)[1] == '"',
        ser_job(j)[2] == 'G',
{
    reveal_strlit("{\"Generate\":{\"params\":");
    reveal_strlit("{\"GenerateUpload\":{\"params\":");
    match j {
        JobView::Generate { params, dest } => {
            assert(ser_job(j)[0] == "{\"Generate\":{\"params\":"@[0]);
            assert(ser_job(j)[1] == "{\"Generate\":{\"params\":"@[1]);
            assert(ser_job(j)[2] == "{\"Generate\":{\"params\":"@[2]);
        },
        JobView::GenerateUpload { params, dest, thumbnail } => {
            assert(ser_job(j)[0] == "{\"GenerateUpload\":{\"params\":"@[0]);
            assert(ser_job(j)[1] == "{\"GenerateUpload\":{\"params\":"@[1]);
            assert(ser_job(j)[2] == "{\"GenerateUpload\":{\"params\":"@[2]);
        },
    }
}

/// Round trip of a non-empty bare-job list followed by the closing bracket.
#[verifier::rlimit(50)]
proof fn lemma_p_jobs_ser(jobs: Seq<JobView>)
    requires
        jobs.len() >= 1,
    ensures
        p_jobs(ser_jobs(jobs) + seq![']']) == Some((jobs, seq![']'])),
    decreases jobs.len(),
{
    if jobs.len() == 1 {
        lemma_p_job_ser(jobs[0], seq![']']);
        assert(ser_jobs(jobs) + seq![']'] =~= ser_job(jobs[0]) + seq![']']);
        lemma_ser_job_first(jobs[0]);
        assert(seq![jobs[0]] =~= jobs);
    } else {
        let x0 = jobs[0];
        let tail_ser = ser_jobs(jobs.skip(1)) + seq![']'];
        let after = seq![','] + tail_ser;
        assert(ser_jobs(jobs) + seq![']'] =~= ser_job(x0) + after);
        lemma_p_job_ser(x0, after);
        lemma_ser_job_first(x0);
        assert(after.skip(1) =~= tail_ser);
        lemma_p_jobs_ser(jobs.skip(1));
        assert(seq![x0] + jobs.skip(1) =~= jobs);
    }
}

/// Round trip of a whole legacy queue file.
pub proof fn lemma_p_legacy_ser(jobs: Seq<JobView>)
    ensures
        p_legacy(ser_legacy(jobs)) == Some(jobs),
{
    let s = ser_legacy(jobs);
    assert(s[0] == '[');
    if jobs.len() == 0 {
        assert(ser_jobs(jobs) =~= Seq::<char>::empty());
        assert(s =~= seq!['[', ']']);
        assert(jobs =~= Seq::<JobView>::empty());
    } else {
        lemma_ser_job_first(jobs[0]);
        assert(ser_jobs(jobs)[0] == ser_job(jobs[0])[0]);
        assert(ser_jobs(jobs).len() >= 3);
        assert(s.len() > 2);
        assert(s.skip(1) =~= ser_jobs(jobs) + seq![']']);
        lemma_p_jobs_ser(jobs);
    }
}

// ---------------------------------------------------------------------------
// The laws of the encoding
// ---------------------------------------------------------------------------

/// LAW. Reloading the serialized queue reproduces the exact in-memory queue
/// state, whatever sequence of operations produced it.
pub proof fn lemma_queue_round_trip(items: Seq<ItemView>)
    ensures
        parse_queue_spec(ser_queue(items)) == Some(items),
{
    lemma_p_queue_ser(items);
}

/// LAW. Importing a legacy array of bare jobs yields exactly one fresh
/// `Pending` entry per job, with no retries and no error, in order.
pub proof fn lemma_legacy_import(jobs: Seq<JobView>)
    ensures
        parse_queue_spec(ser_legacy(jobs)) == Some(fresh_items(jobs)),
{
    let s = ser_legacy(jobs);
    assert(s[0] == '[');
    if jobs.len() == 0 {
        assert(ser_jobs(jobs) =~= Seq::<char>::empty());
        assert(s =~= seq!['[', ']']);
        assert(fresh_items(jobs) =~= Seq::<ItemView>::empty());
    } else {
        reveal_strlit("{\"job\":");
        lemma_ser_job_first(jobs[0]);
        assert(s.skip(1) =~= ser_jobs(jobs) + seq![']']);
        assert(ser_jobs(jobs)[0] == ser_job(jobs[0])[0]);
        assert(ser_jobs(jobs)[2] == ser_job(jobs[0])[2]);
        assert(ser_jobs(jobs).len() >= 3);
        assert(s.len() > 2);
        assert(s.skip(1)[2] == 'G');
        assert("{\"job\":"@[2] == 'j');
        lemma_tok_mismatch(s.skip(1), "{\"job\":"@, 2);
        assert(p_item(s.skip(1)) is None);
        assert(p_queue(s) is None);
        lemma_p_legacy_ser(jobs);
    }
}

// ---------------------------------------------------------------------------
// Executable entry points
// ---------------------------------------------------------------------------

/// Distributing one more entry over the comma-separated rendering.
proof fn lemma_ser_items_push(items: Seq<ItemView>, x: ItemView)
    ensures
        ser_items(items.push(x)) == if items.len() == 0 {
            ser_item(x)
        } else {
            ser_items(items) + seq![','] + ser_item(x)
        },
    decreases items.len(),
{
    if items.len() == 0 {
        assert(items.push(x) =~= seq![x]);
    } else if items.len() == 1 {
        assert(items.push(x)[0] == items[0]);
        assert(items.push(x).skip(1) =~= seq![x]);
        assert(ser_items(seq![x]) == ser_item(x));
        assert(ser_items(items.push(x)) =~= ser_items(items) + seq![','] + ser_item(x));
    } else {
        assert(items.push(x)[0] == items[0]);
        assert(items.push(x).skip(1) =~= items.skip(1).push(x));
        lemma_ser_items_push(items.skip(1), x);
        assert(ser_items(items.push(x)) =~= ser_items(items) + seq![','] + ser_item(x));
    }
}

/// Serializes the queue entries as the on-disk queue file text.
pub fn serialize_queue(items: &Vec<QueueItem>) -> (r: String)
    ensures
        r@ == ser_queue(views_of(items@)),
{
    let ghost v = views_of(items@);
    let mut out = String::new();
    push_char(&mut out, '[');
    let n = items.len();
    let mut i: usize = 0;
    while i < n
        invariant
            i <= n,
            n == items.len(),
            v == views_of(items@),
            out@ =~= seq!['['] + ser_items(v.take(i as int)),
        decreases n - i,
    {
        if i > 0 {
            push_char(&mut out, ',');
        }
        write_item(&mut out, &items[i]);
        proof {
            assert(items@[i as int]@ == v[i as int]);
            lemma_ser_items_push(v.take(i as int), v[i as int]);
            assert(v.take(i as int).push(v[i as int]) =~= v.take(i + 1 as int));
            assert(out@ =~= seq!['['] + ser_items(v.take(i + 1 as int)));
        }
        i += 1;
    }
    push_char(&mut out, ']');
    proof {
        assert(v.take(n as int) =~= v);
        assert(out@ =~= ser_queue(v));
    }
    out
}

/// Parses one or more comma-separated queue entries at `i`.
fn parse_items(s: &Vec<char>, i: usize) -> (r: Option<(Vec<QueueItem>, usize)>)
    requires
        i <= s.len(),
    ensures
        ({
            let sp = p_items(s@.skip(i as int));
            match r {
                Some((v, j)) => i <= j <= s.len() && sp == Some((views_of(v@), s@.skip(j as int))),
                None => sp is None,
            }
        }),
    decreases s.len() - i,
{
    match parse_item(s, i) {
        Some((it, j)) => {
            let ghost itv = it@;
            if j == i {
                return None;
            }
            if j < s.len() && s[j] == ',' {
                proof {
                    assert(s@.skip(j as int)[0] == s@[j as int]);
                    assert(s@.skip(j as int).skip(1) =~= s@.skip(j + 1 as int));
                }
                match parse_items(s, j + 1) {
                    Some((more, j2)) => {
                        let ghost morev = more@;
                        let mut more = more;
                        more.insert(0, it);
                        proof {
                            assert(views_of(more@) =~= seq![itv] + views_of(morev));
                        }
                        Some((more, j2))
                    },
                    None => None,
                }
            } else {
                proof {
                    if j < s.len() {
                        assert(s@.skip(j as int)[0] == s@[j as int]);
                    }
                }
                let mut v: Vec<QueueItem> = Vec::new();
                v.push(it);
                proof {
                    assert(views_of(v@) =~= seq![itv]);
                }
                Some((v, j))
            }
        },
        None => None,
    }
}

/// Parses a whole queue file in the current format.
fn parse_queue_current(s: &Vec<char>) -> (r: Option<Vec<QueueItem>>)
    ensures
        match r {
            Some(v) => p_queue(s@) == Some(views_of(v@)),
            None => p_queue(s@) is None,
        },
{
    if s.len() == 0 {
        return None;
    }
    if s[0] != '[' {
        return None;
    }
    if s.len() == 2 && s[1] == ']' {
        let v: Vec<QueueItem> = Vec::new();
        proof {
            assert(views_of(v@) =~= Seq::<ItemView>::empty());
        }
        return Some(v);
    }
    proof {
        assert(s@.skip(0int).skip(1) =~= s@.skip(1int));
    }
    match parse_items(s, 1) {
        Some((v, j)) => {
            if j < s.len() && s[j] == ']' && j + 1 == s.len() {
                proof {
                    assert(s@.skip(j as int) =~= seq![']']);
                }
                Some(v)
            } else {
                proof {
                    let r2 = s@.skip(j as int);
                    if j == s.len() {
                        assert(r2.len() == 0);
                        assert(r2 != seq![']']);
                    } else if j + 1 < s.len() {
                        assert(r2.len() >= 2);
                        assert(r2 != seq![']']);
                    } else {
                        assert(r2[0] == s@[j as int]);
                        assert(r2 != seq![']']);
                    }
                }
                None
            }
        },
        None => None,
    }
}

/// Parses one or more comma-separated bare jobs at `i`.
fn parse_jobs(s: &Vec<char>, i: usize) -> (r: Option<(Vec<Job>, usize)>)
    requires
        i <= s.len(),
    ensures
        ({
            let sp = p_jobs(s@.skip(i as int));
            match r {
                Some((v, j)) => i <= j <= s.len() && sp == Some((
                    job_views_of(v@),
                    s@.skip(j as int),
                )),
                None => sp is None,
            }
        }),
    decreases s.len() - i,
{
    match parse_job(s, i) {
        Some((jb, j)) => {
            let ghost jv = jb@;
            if j == i {
                return None;
            }
            if j < s.len() && s[j] == ',' {
                proof {
                    assert(s@.skip(j as int)[0] == s@[j as int]);
                    assert(s@.skip(j as int).skip(1) =~= s@.skip(j + 1 as int));
                }
                match parse_jobs(s, j + 1) {
                    Some((more, j2)) => {
                        let ghost morev = more@;
                        let mut more = more;
                        more.insert(0, jb);
                        proof {
                            assert(job_views_of(more@) =~= seq![jv] + job_views_of(morev));
                        }
                        Some((more, j2))
                    },
                    None => None,
                }
            } else {
                proof {
                    if j < s.len() {
                        assert(s@.skip(j as int)[0] == s@[j as int]);
                    }
                }
                let mut v: Vec<Job> = Vec::new();
                v.push(jb);
                proof {
                    assert(job_views_of(v@) =~= seq![jv]);
                }
                Some((v, j))
            }
        },
        None => None,
    }
}

/// Parses a whole queue file in the legacy format.
fn parse_queue_legacy(s: &Vec<char>) -> (r: Option<Vec<Job>>)
    ensures
        match r {
            Some(v) => p_legacy(s@) == Some(job_views_of(v@)),
            None => p_legacy(s@) is None,
        },
{
    if s.len() == 0 {
        return None;
    }
    if s[0] != '[' {
        return None;
    }
    if s.len() == 2 && s[1] == ']' {
        let v: Vec<Job> = Vec::new();
        proof {
            assert(job_views_of(v@) =~= Seq::<JobView>::empty());
        }
        return Some(v);
    }
    proof {
        assert(s@.skip(0int).skip(1) =~= s@.skip(1int));
    }
    match parse_jobs(s, 1) {
        Some((v, j)) => {
            if j < s.len() && s[j] == ']' && j + 1 == s.len() {
                proof {
                    assert(s@.skip(j as int) =~= seq![']']);
                }
                Some(v)
            } else {
                proof {
                    let r2 = s@.skip(j as int);
                    if j == s.len() {
                        assert(r2.len() == 0);
                        assert(r2 != seq![']']);
                    } else if j + 1 < s.len() {
                        assert(r2.len() >= 2);
                        assert(r2 != seq![']']);
                    } else {
                        assert(r2[0] == s@[j as int]);
                        assert(r2 != seq![']']);
                    }
                }
                None
            }
        },
        None => None,
    }
}

/// Parses queue file text: the current format, or the legacy bare-job array,
/// whose jobs come back as fresh `Pending` entries.
pub fn parse_queue(data: &str) -> (r: Option<Vec<QueueItem>>)
    ensures
        match r {
            Some(v) => parse_queue_spec(data@) == Some(views_of(v@)),
            None => parse_queue_spec(data@) is None,
        },
{
    let chars = crate::text::str_chars(data);
    match parse_queue_current(&chars) {
        Some(v) => Some(v),
        None => match parse_queue_legacy(&chars) {
            Some(jobs) => {
                let ghost jv = job_views_of(jobs@);
                let mut out: Vec<QueueItem> = Vec::new();
                let n = jobs.len();
                let mut i: usize = 0;
                while i < n
                    invariant
                        i <= n,
                        n == jobs.len(),
                        jv == job_views_of(jobs@),
                        views_of(out@) =~= fresh_items(jv.take(i as int)),
                    decreases n - i,
                {
                    let item = QueueItem {
                        job: jobs[i].clone(),
                        status: JobStatus::Pending,
                        retries: 0,
                        error: None,
                    };
                    proof {
                        assert(item@ == fresh_item(jv[i as int]));
                    }
                    out.push(item);
                    proof {
                        assert(jv.take(i as int).push(jv[i as int]) =~= jv.take(i + 1 as int));
                        assert(fresh_items(jv.take(i as int)).push(fresh_item(jv[i as int]))
                            =~= fresh_items(jv.take(i + 1 as int)));
                        assert(views_of(out@) =~= fresh_items(jv.take(i + 1 as int)));
                    }
                    i += 1;
                }
                proof {
                    assert(jv.take(n as int) =~= jv);
                }
                Some(out)
            },
            None => None,
        },
    }
}

} // verus!
