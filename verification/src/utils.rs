//! Small building blocks shared by the indicator renderers and the manager:
//! decimal formatting, line assembly over character vectors, and the queries
//! that only the terminal or the clock can answer.

use std::time::SystemTime;
use std::time::UNIX_EPOCH;
use terminal_size::Height;
use terminal_size::Width;
use vstd::prelude::*;
use vstd::std_specs::iter::IteratorSpec;

verus! {

/// Relies on `alloc::string::String::push`: appends the given character to
/// the end of the string.
pub assume_specification[ String::push ](s: &mut String, ch: char)
    ensures
        final(s)@ == old(s)@.push(ch),
;

/// Relies on `alloc::string::String::push_str`: appends the given string
/// slice to the end of the string.
pub assume_specification[ String::push_str ](s: &mut String, other: &str)
    ensures
        final(s)@ == old(s)@ + other@,
;

/// Relies on `terminal_size::terminal_size`: the current terminal's column
/// count, or `None` when no terminal is attached.  Nothing can be promised of
/// the value, which depends on the machine the process runs on.
#[verifier::external_body]
pub fn term_width() -> Option<u16> {
    if let Some((Width(w), Height(_))) = terminal_size::terminal_size() {
        Some(w)
    } else {
        None
    }
}

/// Relies on `std::time::SystemTime::now`: a millisecond reading of the wall
/// clock, used only to estimate progress rates.  Nothing can be promised of
/// the value.
#[verifier::external_body]
pub fn now_millis() -> u64 {
    match SystemTime::now().duration_since(UNIX_EPOCH) {
        Ok(d) => d.as_millis() as u64,
        Err(_) => 0,
    }
}

/// The character for one decimal digit.
pub open spec fn dec_digit(d: nat) -> char {
    if d == 0 {
        '0'
    } else if d == 1 {
        '1'
    } else if d == 2 {
        '2'
    } else if d == 3 {
        '3'
    } else if d == 4 {
        '4'
    } else if d == 5 {
        '5'
    } else if d == 6 {
        '6'
    } else if d == 7 {
        '7'
    } else if d == 8 {
        '8'
    } else {
        '9'
    }
}

/// The decimal representation of `n`, most significant digit first.
pub open spec fn dec_rep(n: nat) -> Seq<char>
    decreases n,
{
    if n < 10 {
        seq![dec_digit(n)]
    } else {
        dec_rep(n / 10).push(dec_digit(n % 10))
    }
}

/// Every character of a decimal representation is a digit.
pub proof fn lemma_dec_rep_digits(n: nat)
    ensures
        forall|i: int|
            0 <= i < dec_rep(n).len() ==> '0' <= #[trigger] dec_rep(n)[i] <= '9',
    decreases n,
{
    if n >= 10 {
        lemma_dec_rep_digits(n / 10);
        let s = dec_rep(n / 10);
        let d = dec_digit(n % 10);
        assert forall|i: int| 0 <= i < dec_rep(n).len() implies '0' <= #[trigger] dec_rep(n)[i]
            <= '9' by {
            if i < s.len() {
                assert(dec_rep(n)[i] == s[i]);
            } else {
                assert(dec_rep(n)[i] == d);
            }
        }
    } else {
        assert(dec_rep(n)[0] == dec_digit(n));
    }
}

pub fn digit_to_char(d: usize) -> (c: char)
    requires
        d < 10,
    ensures
        c == dec_digit(d as nat),
{
    match d {
        0 => '0',
        1 => '1',
        2 => '2',
        3 => '3',
        4 => '4',
        5 => '5',
        6 => '6',
        7 => '7',
        8 => '8',
        _ => '9',
    }
}

/// The decimal digits of `n` as characters.
pub fn usize_to_chars(n: usize) -> (v: Vec<char>)
    ensures
        v@ == dec_rep(n as nat),
    decreases n,
{
    if n < 10 {
        let mut v: Vec<char> = Vec::new();
        v.push(digit_to_char(n));
        proof {
            assert(v@ =~= dec_rep(n as nat));
        }
        v
    } else {
        let mut v = usize_to_chars(n / 10);
        v.push(digit_to_char(n % 10));
        v
    }
}

/// Builds a `String` whose characters are exactly those of `v`.
pub fn chars_to_string(v: &Vec<char>) -> (s: String)
    ensures
        s@ == v@,
{
    let mut s = String::new();
    let mut i: usize = 0;
    while i < v.len()
        invariant
            i <= v.len(),
            s@ == v@.take(i as int),
        decreases v.len() - i,
    {
        s.push(v[i]);
        proof {
            assert(v@.take(i as int).push(v@[i as int]) =~= v@.take(i + 1));
        }
        i += 1;
    }
    proof {
        assert(v@.take(v@.len() as int) =~= v@);
    }
    s
}

/// Appends every character of `src` to `dst`.
pub fn push_chars(dst: &mut Vec<char>, src: &Vec<char>)
    ensures
        final(dst)@ == old(dst)@ + src@,
{
    let mut i: usize = 0;
    while i < src.len()
        invariant
            i <= src.len(),
            dst@ == old(dst)@ + src@.take(i as int),
        decreases src.len() - i,
    {
        dst.push(src[i]);
        proof {
            assert((old(dst)@ + src@.take(i as int)).push(src@[i as int]) =~= old(dst)@
                + src@.take(i + 1));
        }
        i += 1;
    }
    proof {
        assert(old(dst)@ + src@.take(src@.len() as int) =~= old(dst)@ + src@);
    }
}

/// The character `c` repeated `k` times.
pub open spec fn repeat_char(c: char, k: nat) -> Seq<char>
    decreases k,
{
    if k == 0 {
        Seq::empty()
    } else {
        repeat_char(c, (k - 1) as nat).push(c)
    }
}

pub proof fn lemma_repeat_char_elems(c: char, k: nat)
    ensures
        forall|i: int| 0 <= i < repeat_char(c, k).len() ==> #[trigger] repeat_char(c, k)[i] == c,
        repeat_char(c, k).len() == k,
    decreases k,
{
    if k > 0 {
        lemma_repeat_char_elems(c, (k - 1) as nat);
    }
}

/// Appends `k` copies of `c` to `dst`.
pub fn push_repeat(dst: &mut Vec<char>, c: char, k: usize)
    ensures
        final(dst)@ == old(dst)@ + repeat_char(c, k as nat),
{
    let mut i: usize = 0;
    while i < k
        invariant
            i <= k,
            dst@ == old(dst)@ + repeat_char(c, i as nat),
        decreases k - i,
    {
        dst.push(c);
        proof {
            assert((old(dst)@ + repeat_char(c, i as nat)).push(c) =~= old(dst)@ + repeat_char(
                c,
                (i + 1) as nat,
            ));
        }
        i += 1;
    }
}

/// The fragment `p` repeated `k` times.
pub open spec fn repeat_seq(p: Seq<char>, k: nat) -> Seq<char>
    decreases k,
{
    if k == 0 {
        Seq::empty()
    } else {
        repeat_seq(p, (k - 1) as nat) + p
    }
}

/// Appends `k` copies of `src` to `dst`.
pub fn push_repeat_chars(dst: &mut Vec<char>, src: &Vec<char>, k: usize)
    ensures
        final(dst)@ == old(dst)@ + repeat_seq(src@, k as nat),
{
    let mut i: usize = 0;
    while i < k
        invariant
            i <= k,
            dst@ == old(dst)@ + repeat_seq(src@, i as nat),
        decreases k - i,
    {
        push_chars(dst, src);
        proof {
            assert(old(dst)@ + repeat_seq(src@, i as nat) + src@ =~= old(dst)@ + repeat_seq(
                src@,
                (i + 1) as nat,
            ));
        }
        i += 1;
    }
}

/// No character of `s` is a newline: `s` occupies one terminal line.
pub open spec fn line_clean(s: Seq<char>) -> bool {
    forall|i: int| 0 <= i < s.len() ==> #[trigger] s[i] != '\n'
}

/// No character of `s` is a line break of either kind.
pub open spec fn breaks_free(s: Seq<char>) -> bool {
    forall|i: int| 0 <= i < s.len() ==> #[trigger] s[i] != '\n' && s[i] != '\r'
}

pub proof fn lemma_breaks_free_clean(s: Seq<char>)
    requires
        breaks_free(s),
    ensures
        line_clean(s),
{
}

/// Joining two single-line fragments yields a single-line fragment.
pub proof fn lemma_clean_concat(a: Seq<char>, b: Seq<char>)
    requires
        line_clean(a),
        line_clean(b),
    ensures
        line_clean(a + b),
{
    assert forall|i: int| 0 <= i < (a + b).len() implies #[trigger] (a + b)[i] != '\n' by {
        if i < a.len() {
            assert((a + b)[i] == a[i]);
        } else {
            assert((a + b)[i] == b[i - a.len()]);
        }
    }
}

pub proof fn lemma_clean_repeat(c: char, k: nat)
    requires
        c != '\n',
    ensures
        line_clean(repeat_char(c, k)),
{
    lemma_repeat_char_elems(c, k);
}

pub proof fn lemma_clean_dec_rep(n: nat)
    ensures
        line_clean(dec_rep(n)),
{
    lemma_dec_rep_digits(n);
}

pub proof fn lemma_clean_pad_left(s: Seq<char>, w: nat)
    requires
        line_clean(s),
    ensures
        line_clean(pad_left(s, w)),
{
    if s.len() < w {
        lemma_clean_repeat(' ', (w - s.len()) as nat);
        lemma_clean_concat(repeat_char(' ', (w - s.len()) as nat), s);
    }
}

pub proof fn lemma_clean_pad_right(s: Seq<char>, w: nat)
    requires
        line_clean(s),
    ensures
        line_clean(pad_right(s, w)),
{
    if s.len() < w {
        lemma_clean_repeat(' ', (w - s.len()) as nat);
        lemma_clean_concat(s, repeat_char(' ', (w - s.len()) as nat));
    }
}

/// `s` padded with spaces on the left to at least `w` characters.
pub open spec fn pad_left(s: Seq<char>, w: nat) -> Seq<char> {
    if s.len() >= w {
        s
    } else {
        repeat_char(' ', (w - s.len()) as nat) + s
    }
}

/// `s` padded with spaces on the right to at least `w` characters.
pub open spec fn pad_right(s: Seq<char>, w: nat) -> Seq<char> {
    if s.len() >= w {
        s
    } else {
        s + repeat_char(' ', (w - s.len()) as nat)
    }
}

/// Appends `src` padded with spaces on the left to at least `w` characters.
pub fn push_pad_left(dst: &mut Vec<char>, src: &Vec<char>, w: usize)
    ensures
        final(dst)@ == old(dst)@ + pad_left(src@, w as nat),
{
    if src.len() < w {
        push_repeat(dst, ' ', w - src.len());
    }
    push_chars(dst, src);
    proof {
        if src@.len() < w {
            assert(old(dst)@ + repeat_char(' ', (w - src@.len()) as nat) + src@ =~= old(dst)@
                + pad_left(src@, w as nat));
        }
    }
}

/// Appends `src` padded with spaces on the right to at least `w` characters.
pub fn push_pad_right(dst: &mut Vec<char>, src: &Vec<char>, w: usize)
    ensures
        final(dst)@ == old(dst)@ + pad_right(src@, w as nat),
{
    push_chars(dst, src);
    if src.len() < w {
        push_repeat(dst, ' ', w - src.len());
    }
    proof {
        if src@.len() < w {
            assert(old(dst)@ + src@ + repeat_char(' ', (w - src@.len()) as nat) =~= old(dst)@
                + pad_right(src@, w as nat));
        }
    }
}

/// The decimal digits of `n` as characters, for counters wider than `usize`.
pub fn u128_to_chars(n: u128) -> (v: Vec<char>)
    ensures
        v@ == dec_rep(n as nat),
    decreases n,
{
    if n < 10 {
        let mut v: Vec<char> = Vec::new();
        v.push(digit_to_char(n as usize));
        proof {
            assert(v@ =~= dec_rep(n as nat));
        }
        v
    } else {
        let mut v = u128_to_chars(n / 10);
        v.push(digit_to_char((n % 10) as usize));
        v
    }
}

/// The percentage of `hint` that `progress` has reached, with an empty job
/// counted as complete.
pub open spec fn percent_of(progress: nat, hint: nat) -> nat {
    if hint == 0 {
        100
    } else {
        progress * 100 / hint
    }
}

pub fn percent(progress: usize, hint: usize) -> (p: u128)
    ensures
        p == percent_of(progress as nat, hint as nat),
{
    if hint == 0 {
        100
    } else {
        (progress as u128) * 100 / (hint as u128)
    }
}

/// `s` with every line break removed, so that what remains fits on one
/// terminal line.
pub open spec fn strip_breaks(s: Seq<char>) -> Seq<char>
    decreases s.len(),
{
    if s.len() == 0 {
        Seq::empty()
    } else {
        let rest = strip_breaks(s.drop_last());
        if s.last() == '\n' || s.last() == '\r' {
            rest
        } else {
            rest.push(s.last())
        }
    }
}

/// A stripped sequence holds no line break.
pub proof fn lemma_strip_breaks_clean(s: Seq<char>)
    ensures
        breaks_free(strip_breaks(s)),
    decreases s.len(),
{
    if s.len() > 0 {
        lemma_strip_breaks_clean(s.drop_last());
        let rest = strip_breaks(s.drop_last());
        if s.last() != '\n' && s.last() != '\r' {
            assert forall|i: int| 0 <= i < strip_breaks(s).len() implies #[trigger] strip_breaks(
                s,
            )[i] != '\n' && strip_breaks(s)[i] != '\r' by {
                if i < rest.len() {
                    assert(strip_breaks(s)[i] == rest[i]);
                } else {
                    assert(strip_breaks(s)[i] == s.last());
                }
            }
        }
    }
}


/// The characters of `s` with line breaks removed.
pub fn sanitize_name(s: &str) -> (v: Vec<char>)
    ensures
        v@ == strip_breaks(s@),
{
    let mut v: Vec<char> = Vec::new();
    let mut it = s.chars();
    let ghost mut seen: Seq<char> = Seq::empty();
    proof {
        assert(it.remaining() =~= s@);
        assert(seen + it.remaining() =~= s@);
    }
    loop
        invariant
            seen + it.remaining() == s@,
            v@ == strip_breaks(seen),
            it.decrease() is Some,
        decreases it.decrease()->0,
    {
        let ghost prev = it.remaining();
        match it.next() {
            Some(c) => {
                let ghost seen0 = seen;
                proof {
                    seen = seen0.push(c);
                    assert(seen.drop_last() =~= seen0);
                    assert(seen + it.remaining() =~= seen0 + prev);
                }
                if c != '\n' && c != '\r' {
                    v.push(c);
                }
            },
            None => {
                proof {
                    assert(seen =~= s@);
                }
                return v;
            },
        }
    }
}

} // verus!
