//! The restart signal: the only durable state of the whole bot.
//!
//! Before a restart the bot writes one small text file — the channel id and
//! the message id to answer, as two lines of decimal digits — and on startup
//! it reads, answers and deletes it. This module is the codec for that file:
//! canonical decimal representation of a `u64`, the two-line encoding, and
//! the parse that recovers exactly what was written. The file I/O itself
//! stays outside the crate.

use vstd::prelude::*;

verus! {

/// The decimal digit characters, by value; any other character maps to 10.
pub open spec fn digit_val(c: char) -> nat {
    if c == '0' {
        0
    } else if c == '1' {
        1
    } else if c == '2' {
        2
    } else if c == '3' {
        3
    } else if c == '4' {
        4
    } else if c == '5' {
        5
    } else if c == '6' {
        6
    } else if c == '7' {
        7
    } else if c == '8' {
        8
    } else if c == '9' {
        9
    } else {
        10
    }
}

pub open spec fn is_digit(c: char) -> bool {
    digit_val(c) < 10
}

/// The digit character for a value below ten.
pub open spec fn digit_char(d: int) -> char {
    if d == 0 {
        '0'
    } else if d == 1 {
        '1'
    } else if d == 2 {
        '2'
    } else if d == 3 {
        '3'
    } else if d == 4 {
        '4'
    } else if d == 5 {
        '5'
    } else if d == 6 {
        '6'
    } else if d == 7 {
        '7'
    } else if d == 8 {
        '8'
    } else {
        '9'
    }
}

pub open spec fn all_digits(s: Seq<char>) -> bool {
    forall|j: int| 0 <= j < s.len() ==> is_digit(#[trigger] s[j])
}

/// The value of a big-endian digit string.
pub open spec fn dec_val(s: Seq<char>) -> nat
    decreases s.len(),
{
    if s.len() == 0 {
        0
    } else {
        dec_val(s.drop_last()) * 10 + digit_val(s.last())
    }
}

/// `s` is the canonical decimal representation of `n`: at least one digit,
/// digits only, no leading zero except for zero itself.
pub open spec fn dec_rep(s: Seq<char>, n: u64) -> bool {
    &&& s.len() >= 1
    &&& all_digits(s)
    &&& (s.len() > 1 ==> s[0] != '0')
    &&& dec_val(s) == n as nat
}

/// The canonical decimal representation of `n` — well defined because the
/// representation exists and is unique.
pub open spec fn dec_str(n: u64) -> Seq<char> {
    choose|s: Seq<char>| dec_rep(s, n)
}

/// Peeling one digit off the front of a prefix.
proof fn lemma_dec_val_step(s: Seq<char>, j: int)
    requires
        0 <= j < s.len(),
    ensures
        dec_val(s.subrange(0, j + 1)) == dec_val(s.subrange(0, j)) * 10 + digit_val(s[j]),
{
    assert(s.subrange(0, j + 1).drop_last() =~= s.subrange(0, j));
    assert(s.subrange(0, j + 1).last() == s[j]);
}

/// A digit string is worth at least any of its prefixes.
proof fn lemma_dec_val_prefix_mono(s: Seq<char>, j: int)
    requires
        0 <= j <= s.len(),
    ensures
        dec_val(s.subrange(0, j)) <= dec_val(s),
    decreases s.len() - j,
{
    if j == s.len() {
        assert(s.subrange(0, j) =~= s);
    } else {
        lemma_dec_val_step(s, j);
        lemma_dec_val_prefix_mono(s, j + 1);
    }
}

/// A digit string that does not start with '0' is worth at least one, and
/// more generally at least ten to its extra length.
proof fn lemma_dec_val_lower_bound(s: Seq<char>)
    requires
        s.len() >= 1,
        all_digits(s),
        s[0] != '0',
    ensures
        dec_val(s) >= 1,
        s.len() > 1 ==> dec_val(s) >= 10,
    decreases s.len(),
{
    if s.len() == 1 {
        assert(digit_val(s[0]) >= 1);
    } else {
        assert(s.drop_last()[0] == s[0]);
        assert(all_digits(s.drop_last()));
        lemma_dec_val_lower_bound(s.drop_last());
    }
}

/// The canonical representation is unique.
proof fn lemma_dec_rep_unique(a: Seq<char>, b: Seq<char>, n: u64)
    requires
        dec_rep(a, n),
        dec_rep(b, n),
    ensures
        a =~= b,
    decreases n,
{
    if n < 10 {
        if a.len() > 1 {
            lemma_dec_val_lower_bound(a);
            assert(false);
        }
        if b.len() > 1 {
            lemma_dec_val_lower_bound(b);
            assert(false);
        }
        assert(digit_val(a[0]) == digit_val(b[0]));
        assert(a[0] == b[0]);
        assert(a =~= b);
    } else {
        assert(a.len() >= 2) by {
            if a.len() == 1 {
                assert(a.last() == a[0]);
                assert(a.drop_last() =~= Seq::<char>::empty());
                assert(dec_val(Seq::<char>::empty()) == 0);
                assert(dec_val(a) == digit_val(a[0]));
                assert(is_digit(a[0]));
            }
        }
        assert(b.len() >= 2) by {
            if b.len() == 1 {
                assert(b.last() == b[0]);
                assert(b.drop_last() =~= Seq::<char>::empty());
                assert(dec_val(Seq::<char>::empty()) == 0);
                assert(dec_val(b) == digit_val(b[0]));
                assert(is_digit(b[0]));
            }
        }
        let ad = a.drop_last();
        let bd = b.drop_last();
        assert(dec_val(a) == dec_val(ad) * 10 + digit_val(a.last()));
        assert(dec_val(b) == dec_val(bd) * 10 + digit_val(b.last()));
        assert(digit_val(a.last()) == n as nat % 10 && dec_val(ad) == n as nat / 10) by (
        nonlinear_arith)
            requires
                dec_val(ad) * 10 + digit_val(a.last()) == n as nat,
                digit_val(a.last()) < 10,
        ;
        assert(digit_val(b.last()) == n as nat % 10 && dec_val(bd) == n as nat / 10) by (
        nonlinear_arith)
            requires
                dec_val(bd) * 10 + digit_val(b.last()) == n as nat,
                digit_val(b.last()) < 10,
        ;
        assert(a.last() == b.last());
        let m = (n / 10) as u64;
        assert(ad[0] == a[0] && bd[0] == b[0]);
        assert(all_digits(ad) && all_digits(bd));
        assert(ad.len() >= 1 && bd.len() >= 1);
        assert(dec_rep(ad, m) && dec_rep(bd, m)) by {
            if ad.len() > 1 {
                assert(ad[0] != '0');
            }
            if bd.len() > 1 {
                assert(bd[0] != '0');
            }
        }
        lemma_dec_rep_unique(ad, bd, m);
        assert(a =~= ad.push(a.last()));
        assert(b =~= bd.push(b.last()));
    }
}

/// A canonical representation exists for every value.
proof fn lemma_dec_rep_exists(n: u64)
    ensures
        exists|s: Seq<char>| dec_rep(s, n),
    decreases n,
{
    let d = digit_char((n % 10) as int);
    assert(digit_val(d) == n as nat % 10);
    if n < 10 {
        let s = seq![d];
        assert(s.len() == 1 && s.last() == d);
        assert(s.drop_last() =~= Seq::<char>::empty());
        assert(dec_val(s.drop_last()) == 0);
        assert(dec_val(s) == digit_val(d));
        assert(dec_rep(s, n));
    } else {
        lemma_dec_rep_exists(n / 10);
        let p = choose|p: Seq<char>| #[trigger] dec_rep(p, n / 10);
        let s = p.push(d);
        assert(s.drop_last() =~= p);
        assert(dec_val(s) == dec_val(p) * 10 + digit_val(d));
        assert(dec_val(p) == n as nat / 10);
        assert(dec_val(p) * 10 + n as nat % 10 == n as nat) by (nonlinear_arith)
            requires
                dec_val(p) == n as nat / 10,
        ;
        assert(s[0] == p[0]);
        assert(n as nat / 10 >= 1) by (nonlinear_arith)
            requires
                n >= 10,
        ;
        assert(p[0] != '0') by {
            if p.len() == 1 && p[0] == '0' {
                assert(p.last() == p[0]);
                assert(p.drop_last() =~= Seq::<char>::empty());
                assert(dec_val(Seq::<char>::empty()) == 0);
                assert(dec_val(p) == digit_val(p[0]));
            }
        }
        assert(dec_rep(s, n));
    }
}

/// `dec_str` is itself a canonical representation, and the only one.
pub proof fn lemma_dec_str_is_rep(n: u64)
    ensures
        dec_rep(dec_str(n), n),
        forall|s: Seq<char>| dec_rep(s, n) ==> s =~= dec_str(n),
{
    lemma_dec_rep_exists(n);
    assert forall|s: Seq<char>| dec_rep(s, n) implies s =~= dec_str(n) by {
        lemma_dec_rep_unique(s, dec_str(n), n);
    }
}

/// The digit character for a value below ten.
fn digit_of(d: u64) -> (c: char)
    requires
        d < 10,
    ensures
        c == digit_char(d as int),
{
    match d {
        0 => '0',
        1 => '1',
        2 => '2',
        3 => '3',
        4 => '4',
        5 => '5',
        6 => '6',
        7 => '7',
        8 => '8',
        _ => '9',
    }
}

/// The canonical decimal digits of `n`, most significant first.
pub fn u64_to_dec(n: u64) -> (r: Vec<char>)
    ensures
        dec_rep(r@, n),
        r@ == dec_str(n),
    decreases n,
{
    let d = digit_of(n % 10);
    proof {
        assert(digit_val(d) == n as nat % 10);
    }
    let r: Vec<char> = if n < 10 {
        let mut v: Vec<char> = Vec::new();
        v.push(d);
        proof {
            assert(v@.len() == 1 && v@.last() == d);
            assert(v@.drop_last() =~= Seq::<char>::empty());
            assert(dec_val(v@.drop_last()) == 0);
            assert(dec_val(v@) == digit_val(d));
        }
        v
    } else {
        proof {
            assert(n / 10 < n) by (nonlinear_arith)
                requires
                    n >= 10,
            ;
        }
        let mut v = u64_to_dec(n / 10);
        let ghost p = v@;
        v.push(d);
        proof {
            assert(v@.drop_last() =~= p);
            assert(dec_val(v@) == dec_val(p) * 10 + digit_val(d));
            assert(dec_val(p) * 10 + n as nat % 10 == n as nat) by (nonlinear_arith)
                requires
                    dec_val(p) == n as nat / 10,
            ;
            assert(v@[0] == p[0]);
            assert(n as nat / 10 >= 1) by (nonlinear_arith)
                requires
                    n >= 10,
            ;
            assert(p[0] != '0') by {
                if p.len() == 1 && p[0] == '0' {
                    assert(p.last() == p[0]);
                    assert(p.drop_last() =~= Seq::<char>::empty());
                    assert(dec_val(Seq::<char>::empty()) == 0);
                    assert(dec_val(p) == digit_val(p[0]));
                }
            }
        }
        v
    };
    proof {
        assert(dec_rep(r@, n));
        lemma_dec_str_is_rep(n);
        assert(r@ =~= dec_str(n));
    }
    r
}

/// What parsing a digit string yields: its value, when there is at least one
/// character, nothing but digits, and the value fits.
pub open spec fn parse_u64_spec(s: Seq<char>) -> Option<u64> {
    if s.len() >= 1 && all_digits(s) && dec_val(s) <= u64::MAX {
        Some(dec_val(s) as u64)
    } else {
        None
    }
}

/// Parse a digit string; rejects anything but a digits-only, in-range
/// string.
#[verifier::loop_isolation(false)]
pub fn parse_u64_chars(s: &Vec<char>) -> (r: Option<u64>)
    ensures
        r == parse_u64_spec(s@),
{
    let n = s.len();
    if n == 0 {
        return None;
    }
    let mut acc: u64 = 0;
    let mut i: usize = 0;
    while i < n
        invariant
            i <= n,
            all_digits(s@.subrange(0, i as int)),
            acc == dec_val(s@.subrange(0, i as int)),
        decreases n - i,
    {
        let c = s[i];
        let d: u64 = match c {
            '0' => 0,
            '1' => 1,
            '2' => 2,
            '3' => 3,
            '4' => 4,
            '5' => 5,
            '6' => 6,
            '7' => 7,
            '8' => 8,
            '9' => 9,
            _ => {
                proof {
                    assert(!is_digit(s@[i as int]));
                }
                return None;
            },
        };
        proof {
            assert(digit_val(c) == d);
            lemma_dec_val_step(s@, i as int);
            assert(all_digits(s@.subrange(0, i + 1)));
        }
        let shifted = match acc.checked_mul(10) {
            Some(x) => x,
            None => {
                proof {
                    lemma_dec_val_prefix_mono(s@, i + 1);
                }
                return None;
            },
        };
        acc = match shifted.checked_add(d) {
            Some(x) => x,
            None => {
                proof {
                    lemma_dec_val_prefix_mono(s@, i + 1);
                }
                return None;
            },
        };
        i = i + 1;
    }
    proof {
        assert(s@.subrange(0, n as int) =~= s@);
    }
    Some(acc)
}

/// The first line of a text: everything before the first newline, or the
/// whole text when it has none.
pub open spec fn first_line(s: Seq<char>) -> Seq<char>
    decreases s.len(),
{
    if s.len() == 0 {
        s
    } else if s[0] == '\n' {
        Seq::empty()
    } else {
        seq![s[0]] + first_line(s.drop_first())
    }
}

/// Everything after the first newline; empty when there is none.
pub open spec fn after_first_line(s: Seq<char>) -> Seq<char>
    decreases s.len(),
{
    if s.len() == 0 {
        s
    } else if s[0] == '\n' {
        s.drop_first()
    } else {
        after_first_line(s.drop_first())
    }
}

/// The split at the first newline, in closed form.
proof fn lemma_first_line(s: Seq<char>, k: int)
    requires
        0 <= k <= s.len(),
        forall|j: int| 0 <= j < k ==> s[j] != '\n',
        k < s.len() ==> s[k] == '\n',
        k == s.len() || s[k] == '\n',
    ensures
        first_line(s) =~= s.subrange(0, k),
        after_first_line(s) =~= if k < s.len() {
            s.subrange(k + 1, s.len() as int)
        } else {
            Seq::<char>::empty()
        },
    decreases s.len(),
{
    if s.len() == 0 {
    } else if k == 0 {
        assert(first_line(s) =~= s.subrange(0, 0));
    } else {
        let t = s.drop_first();
        lemma_first_line(t, k - 1);
        assert(first_line(s) =~= seq![s[0]] + first_line(t));
        assert(seq![s[0]] + t.subrange(0, k - 1) =~= s.subrange(0, k));
        if k < s.len() {
            assert(t.subrange(k, t.len() as int) =~= s.subrange(k + 1, s.len() as int));
        }
    }
}

/// What the restart-signal file means: its first line is the channel id, its
/// second line the message id, both canonical decimals; anything after the
/// second line is ignored.
pub open spec fn parse_signal_spec(s: Seq<char>) -> Option<(u64, u64)> {
    let rest = after_first_line(s);
    match (parse_u64_spec(first_line(s)), parse_u64_spec(first_line(rest))) {
        (Some(c), Some(m)) => Some((c, m)),
        _ => None,
    }
}

/// Digits never collide with the line separator.
proof fn lemma_digits_have_no_newline(s: Seq<char>)
    requires
        all_digits(s),
    ensures
        forall|j: int| 0 <= j < s.len() ==> s[j] != '\n',
{
    assert forall|j: int| 0 <= j < s.len() implies s[j] != '\n' by {
        assert(is_digit(s[j]));
    }
}

/// The two-line signal parses back to exactly the ids it encodes.
pub proof fn lemma_signal_round_trip(channel_id: u64, message_id: u64)
    ensures
        parse_signal_spec(dec_str(channel_id) + seq!['\n'] + dec_str(message_id)) == Some(
            (channel_id, message_id),
        ),
{
    lemma_dec_str_is_rep(channel_id);
    lemma_dec_str_is_rep(message_id);
    let a = dec_str(channel_id);
    let b = dec_str(message_id);
    let s = a + seq!['\n'] + b;
    lemma_digits_have_no_newline(a);
    lemma_digits_have_no_newline(b);
    assert(s[a.len() as int] == '\n');
    assert(forall|j: int| 0 <= j < a.len() ==> s[j] == a[j] && s[j] != '\n');
    lemma_first_line(s, a.len() as int);
    assert(first_line(s) =~= a);
    assert(after_first_line(s) =~= b);
    lemma_first_line(b, b.len() as int);
    assert(first_line(b) =~= b);
}

/// Encode the restart signal: the channel id and the message id, as two
/// lines of text. Parsing the result recovers exactly the two ids.
pub fn encode_restart_signal(channel_id: u64, message_id: u64) -> (r: String)
    ensures
        r@ =~= dec_str(channel_id) + seq!['\n'] + dec_str(message_id),
        parse_signal_spec(r@) == Some((channel_id, message_id)),
{
    let mut v = u64_to_dec(channel_id);
    v.push('\n');
    let mut tail = u64_to_dec(message_id);
    v.append(&mut tail);
    proof {
        assert(v@ =~= dec_str(channel_id) + seq!['\n'] + dec_str(message_id));
        lemma_signal_round_trip(channel_id, message_id);
    }
    crate::textscan::chars_to_string(&v)
}

/// The position of the first newline, if any.
fn find_newline(v: &Vec<char>) -> (r: Option<usize>)
    ensures
        match r {
            Some(i) => i < v@.len() && v@[i as int] == '\n' && (forall|j: int|
                0 <= j < i ==> v@[j] != '\n'),
            None => forall|j: int| 0 <= j < v@.len() ==> v@[j] != '\n',
        },
{
    let n = v.len();
    let mut i: usize = 0;
    while i < n
        invariant
            i <= n,
            n == v@.len(),
            forall|j: int| 0 <= j < i ==> v@[j] != '\n',
        decreases n - i,
    {
        if v[i] == '\n' {
            return Some(i);
        }
        i = i + 1;
    }
    None
}

/// Read a restart signal back: the channel id and the message id it holds,
/// or nothing when the text is not two lines of in-range digits.
pub fn parse_restart_signal(s: &str) -> (r: Option<(u64, u64)>)
    ensures
        r == parse_signal_spec(s@),
{
    let chars = crate::textscan::str_to_chars(s);
    let n = chars.len();
    let (line1, rest) = match find_newline(&chars) {
        Some(k) => {
            proof {
                lemma_first_line(chars@, k as int);
            }
            (crate::textscan::sub_chars(&chars, 0, k), crate::textscan::sub_chars(&chars, k + 1, n))
        },
        None => {
            proof {
                lemma_first_line(chars@, n as int);
                assert(chars@.subrange(0, n as int) =~= chars@);
            }
            (crate::textscan::sub_chars(&chars, 0, n), Vec::new())
        },
    };
    let m = rest.len();
    let line2 = match find_newline(&rest) {
        Some(k) => {
            proof {
                lemma_first_line(rest@, k as int);
            }
            crate::textscan::sub_chars(&rest, 0, k)
        },
        None => {
            proof {
                lemma_first_line(rest@, m as int);
                assert(rest@.subrange(0, m as int) =~= rest@);
            }
            crate::textscan::sub_chars(&rest, 0, m)
        },
    };
    let c = parse_u64_chars(&line1);
    let msg = parse_u64_chars(&line2);
    match (c, msg) {
        (Some(cv), Some(mv)) => Some((cv, mv)),
        _ => None,
    }
}

} // verus!
