//! A configurable percentage bar with custom fill glyphs, a rate readout,
//! and a unit label.

use crate::bars::common::TermSizeError;
use crate::bars::simple::fill_of;
use crate::isbar::BarCloseMethod;
use crate::isbar::BarDisplayError;
use crate::isbar::IsBar;
use crate::subsets::IteratorProgress;
use crate::utils::breaks_free;
use crate::utils::chars_to_string;
use crate::utils::dec_digit;
use crate::utils::dec_rep;
use crate::utils::digit_to_char;
use crate::utils::lemma_clean_concat;
use crate::utils::lemma_clean_dec_rep;
use crate::utils::lemma_clean_pad_left;
use crate::utils::lemma_breaks_free_clean;
use crate::utils::line_clean;
use crate::utils::now_millis;
use crate::utils::pad_left;
use crate::utils::percent;
use crate::utils::percent_of;
use crate::utils::push_chars;
use crate::utils::push_pad_left;
use crate::utils::push_repeat_chars;
use crate::utils::repeat_seq;
use crate::utils::sanitize_name;
use crate::utils::strip_breaks;
use crate::utils::term_width;
use crate::utils::u128_to_chars;
use vstd::prelude::*;

verus! {

/// The rate readout: iterations per second with three decimals, derived
/// from the milliseconds elapsed since the previous redraw, and `inf` when
/// no time has passed.
pub open spec fn rate_rep(elapsed_ms: nat) -> Seq<char> {
    if elapsed_ms == 0 {
        seq!['i', 'n', 'f']
    } else {
        let mi = (1000000 as nat) / elapsed_ms;
        dec_rep(mi / 1000) + seq![
            '.',
            dec_digit(mi % 1000 / 100),
            dec_digit(mi % 1000 / 10 % 10),
            dec_digit(mi % 1000 % 10),
        ]
    }
}

/// A rate readout never holds a newline.
pub proof fn lemma_rate_rep_clean(elapsed_ms: nat)
    ensures
        line_clean(rate_rep(elapsed_ms)),
{
    if elapsed_ms != 0 {
        let mi = (1000000 as nat) / elapsed_ms;
        lemma_clean_dec_rep(mi / 1000);
        let tail = seq![
            '.',
            dec_digit(mi % 1000 / 100),
            dec_digit(mi % 1000 / 10 % 10),
            dec_digit(mi % 1000 % 10),
        ];
        assert(line_clean(tail));
        lemma_clean_concat(dec_rep(mi / 1000), tail);
    }
}

/// The rate readout as characters.
pub fn rate_chars(elapsed_ms: u64) -> (v: Vec<char>)
    ensures
        v@ == rate_rep(elapsed_ms as nat),
{
    if elapsed_ms == 0 {
        let mut v: Vec<char> = Vec::new();
        v.push('i');
        v.push('n');
        v.push('f');
        proof {
            assert(v@ =~= rate_rep(elapsed_ms as nat));
        }
        v
    } else {
        let mi: u64 = 1000000 / elapsed_ms;
        let mut v = u128_to_chars((mi / 1000) as u128);
        v.push('.');
        let f: usize = (mi % 1000) as usize;
        v.push(digit_to_char(f / 100));
        v.push(digit_to_char(f / 10 % 10));
        v.push(digit_to_char(f % 10));
        proof {
            assert(f == (mi as nat) % 1000);
            assert(v@ =~= rate_rep(elapsed_ms as nat));
        }
        v
    }
}

/// The milliseconds between two clock readings, with a clock that moved
/// backwards read as no time passed.
pub open spec fn elapsed_between(pre: nat, post: nat) -> nat {
    if post >= pre {
        (post - pre) as nat
    } else {
        0
    }
}

/// The columns a custom bar needs besides its fill region: the name, the
/// bar-region delimiters, the percentage and rate fields, and the unit
/// label.  `glyphs` is the bar's glyph set as
/// (filled, empty, start, end, unit).
pub open spec fn custom_overhead(
    name: Seq<char>,
    glyphs: (Seq<char>, Seq<char>, Seq<char>, Seq<char>, Seq<char>),
    elapsed: nat,
) -> nat {
    name.len() + glyphs.2.len() + glyphs.3.len() + rate_rep(elapsed).len() + glyphs.4.len() + 11
}

/// The one-line rendering of a custom bar on a terminal `width` columns
/// wide, for a redraw `elapsed` milliseconds after the previous one: a
/// carriage return, the name, the fill region between its delimiters, the
/// percentage padded left to four columns, and the rate readout with its
/// unit.
pub open spec fn custom_line(
    name: Seq<char>,
    progress: nat,
    hint: nat,
    glyphs: (Seq<char>, Seq<char>, Seq<char>, Seq<char>, Seq<char>),
    width: nat,
    elapsed: nat,
) -> Seq<char> {
    let pct = percent_of(progress, hint);
    let bar_len = (width - custom_overhead(name, glyphs, elapsed)) as nat;
    let fill = fill_of(bar_len, pct);
    seq!['\r'] + name + seq![' '] + glyphs.2 + repeat_seq(glyphs.0, fill) + repeat_seq(
        glyphs.1,
        (bar_len - fill) as nat,
    ) + glyphs.3 + pad_left(dec_rep(pct), 4) + seq!['%', ' '] + rate_rep(elapsed) + seq![' ']
        + glyphs.4 + seq!['/', 's']
}

/// The glyph set a custom bar draws with.
#[derive(Debug)]
pub struct BarElements {
    filled: Vec<char>,
    empty: Vec<char>,
    start: Vec<char>,
    end: Vec<char>,
    unit: Vec<char>,
}

impl BarElements {
    #[verifier::type_invariant]
    spec fn wf(&self) -> bool {
        &&& breaks_free(self.filled@)
        &&& breaks_free(self.empty@)
        &&& breaks_free(self.start@)
        &&& breaks_free(self.end@)
        &&& breaks_free(self.unit@)
    }

    /// The glyph repeated over the filled part of the bar region.
    pub closed spec fn filled_spec(&self) -> Seq<char> {
        self.filled@
    }

    /// The glyph repeated over the empty part of the bar region.
    pub closed spec fn empty_spec(&self) -> Seq<char> {
        self.empty@
    }

    /// The fragment drawn before the bar region.
    pub closed spec fn start_spec(&self) -> Seq<char> {
        self.start@
    }

    /// The fragment drawn after the bar region.
    pub closed spec fn end_spec(&self) -> Seq<char> {
        self.end@
    }

    /// The unit label of the rate readout.
    pub closed spec fn unit_spec(&self) -> Seq<char> {
        self.unit@
    }
}

impl Default for BarElements {
    /// The classic layout: `=` over `-` between brackets, counting `its`.
    fn default() -> (d: BarElements)
        ensures
            d.filled_spec() == seq!['='],
            d.empty_spec() == seq!['-'],
            d.start_spec() == seq!['['],
            d.end_spec() == seq![']'],
            d.unit_spec() == seq!['i', 't', 's'],
    {
        let mut filled: Vec<char> = Vec::new();
        filled.push('=');
        let mut empty: Vec<char> = Vec::new();
        empty.push('-');
        let mut start: Vec<char> = Vec::new();
        start.push('[');
        let mut end: Vec<char> = Vec::new();
        end.push(']');
        let mut unit: Vec<char> = Vec::new();
        unit.push('i');
        unit.push('t');
        unit.push('s');
        proof {
            assert(filled@ =~= seq!['=']);
            assert(empty@ =~= seq!['-']);
            assert(start@ =~= seq!['[']);
            assert(end@ =~= seq![']']);
            assert(unit@ =~= seq!['i', 't', 's']);
        }
        BarElements { filled, empty, start, end, unit }
    }
}

/// A much more customisable version of the simple bar; constructed through
/// [`Builder`].
#[derive(Debug)]
pub struct CustomBar {
    job_name: Vec<char>,
    progress: usize,
    max_hint: usize,
    finished: bool,
    last_iter_ms: u64,
    fallback_width: u16,
    elems: BarElements,
}

impl CustomBar {
    #[verifier::type_invariant]
    spec fn wf(&self) -> bool {
        breaks_free(self.job_name@)
    }

    /// The job name, with line breaks stripped at construction.
    pub closed spec fn name_spec(&self) -> Seq<char> {
        self.job_name@
    }

    /// The current progress level.
    pub closed spec fn progress_spec(&self) -> nat {
        self.progress as nat
    }

    /// The hint for the largest progress value.
    pub closed spec fn hint_spec(&self) -> nat {
        self.max_hint as nat
    }

    /// The width assumed when the terminal width is unavailable.
    pub closed spec fn fallback_width_spec(&self) -> nat {
        self.fallback_width as nat
    }

    /// The glyph set the bar draws with, as
    /// (filled, empty, start, end, unit).
    pub closed spec fn elems_spec(&self) -> (Seq<char>, Seq<char>, Seq<char>, Seq<char>, Seq<
        char,
    >) {
        (self.elems.filled@, self.elems.empty@, self.elems.start@, self.elems.end@, self.elems.unit@)
    }

    /// The clock reading, in milliseconds, that the next redraw's rate will
    /// be measured against.
    pub closed spec fn rate_mark_spec(&self) -> nat {
        self.last_iter_ms as nat
    }

    /// Renames the job the bar stands for.
    pub fn set_name(&mut self, job_name: String)
        ensures
            final(self).name_spec() == strip_breaks(job_name@),
            final(self).progress_spec() == old(self).progress_spec(),
            final(self).hint_spec() == old(self).hint_spec(),
            final(self).elems_spec() == old(self).elems_spec(),
            final(self).fallback_width_spec() == old(self).fallback_width_spec(),
            final(self).rate_mark_spec() == old(self).rate_mark_spec(),
            final(self).done_spec() == old(self).done_spec(),
            final(self).close_spec() == old(self).close_spec(),
    {
        proof {
            use_type_invariant(&*self);
        }
        let v = sanitize_name(job_name.as_str());
        proof {
            crate::utils::lemma_strip_breaks_clean(job_name@);
        }
        self.job_name = v;
    }

    /// Renders the bar's line for a terminal `width` columns wide, with the
    /// rate computed from `elapsed_ms`.  Succeeds exactly when the width
    /// leaves room for the fixed fields.
    pub fn render_line(&self, width: u16, elapsed_ms: u64) -> (r: Result<String, BarDisplayError>)
        ensures
            width as nat >= custom_overhead(self.name_spec(), self.elems_spec(), elapsed_ms as nat)
                ==> (r matches Ok(s) && s@ == custom_line(
                self.name_spec(),
                self.progress_spec(),
                self.hint_spec(),
                self.elems_spec(),
                width as nat,
                elapsed_ms as nat,
            )),
            (width as nat) < custom_overhead(self.name_spec(), self.elems_spec(), elapsed_ms as nat)
                ==> (r matches Err(e) && e == BarDisplayError::Size(TermSizeError)),
            r matches Ok(s) ==> line_clean(s@),
    {
        proof {
            use_type_invariant(&*self);
            use_type_invariant(&self.elems);
        }
        let rate = rate_chars(elapsed_ms);
        let overhead: u128 = self.job_name.len() as u128 + self.elems.start.len() as u128
            + self.elems.end.len() as u128 + rate.len() as u128 + self.elems.unit.len() as u128
            + 11;
        if (width as u128) < overhead {
            return Err(BarDisplayError::Size(TermSizeError));
        }
        let bar_len: usize = (width as u128 - overhead) as usize;
        let pct: u128 = percent(self.progress, self.max_hint);
        let capped: u128 = if pct > 100 {
            100
        } else {
            pct
        };
        proof {
            assert((bar_len as u128) * capped <= 0xffff * 100) by (nonlinear_arith)
                requires
                    capped <= 100,
                    bar_len as u128 <= 0xffff,
            ;
        }
        let fill128: u128 = (bar_len as u128) * capped / 100;
        proof {
            assert(fill128 <= bar_len as u128) by (nonlinear_arith)
                requires
                    capped <= 100,
                    bar_len <= 0xffff,
                    fill128 == (bar_len as u128) * capped / 100,
            ;
        }
        let fill: usize = fill128 as usize;
        let mut out: Vec<char> = Vec::new();
        out.push('\r');
        push_chars(&mut out, &self.job_name);
        out.push(' ');
        push_chars(&mut out, &self.elems.start);
        push_repeat_chars(&mut out, &self.elems.filled, fill);
        push_repeat_chars(&mut out, &self.elems.empty, bar_len - fill);
        push_chars(&mut out, &self.elems.end);
        let digits = u128_to_chars(pct);
        push_pad_left(&mut out, &digits, 4);
        out.push('%');
        out.push(' ');
        push_chars(&mut out, &rate);
        out.push(' ');
        push_chars(&mut out, &self.elems.unit);
        out.push('/');
        out.push('s');
        proof {
            assert(out@ =~= custom_line(
                self.name_spec(),
                self.progress_spec(),
                self.hint_spec(),
                self.elems_spec(),
                width as nat,
                elapsed_ms as nat,
            ));
            lemma_custom_line_clean(
                self.name_spec(),
                self.progress_spec(),
                self.hint_spec(),
                self.elems_spec(),
                width as nat,
                elapsed_ms as nat,
            );
        }
        Ok(chars_to_string(&out))
    }
}

/// A custom-bar rendering never holds a newline.
pub proof fn lemma_custom_line_clean(
    name: Seq<char>,
    progress: nat,
    hint: nat,
    glyphs: (Seq<char>, Seq<char>, Seq<char>, Seq<char>, Seq<char>),
    width: nat,
    elapsed: nat,
)
    requires
        breaks_free(name),
        breaks_free(glyphs.0),
        breaks_free(glyphs.1),
        breaks_free(glyphs.2),
        breaks_free(glyphs.3),
        breaks_free(glyphs.4),
    ensures
        line_clean(custom_line(name, progress, hint, glyphs, width, elapsed)),
{
    let pct = percent_of(progress, hint);
    let bar_len = (width - custom_overhead(name, glyphs, elapsed)) as nat;
    let fill = fill_of(bar_len, pct);
    lemma_breaks_free_clean(name);
    lemma_breaks_free_clean(glyphs.2);
    lemma_breaks_free_clean(glyphs.3);
    lemma_breaks_free_clean(glyphs.4);
    lemma_clean_repeat_seq(glyphs.0, fill);
    lemma_clean_repeat_seq(glyphs.1, (bar_len - fill) as nat);
    lemma_clean_dec_rep(pct);
    lemma_clean_pad_left(dec_rep(pct), 4);
    lemma_rate_rep_clean(elapsed);
    let p1 = seq!['\r'];
    let p2 = p1 + name;
    let p3 = p2 + seq![' '];
    let p4 = p3 + glyphs.2;
    let p5 = p4 + repeat_seq(glyphs.0, fill);
    let p6 = p5 + repeat_seq(glyphs.1, (bar_len - fill) as nat);
    let p7 = p6 + glyphs.3;
    let p8 = p7 + pad_left(dec_rep(pct), 4);
    let p9 = p8 + seq!['%', ' '];
    let p10 = p9 + rate_rep(elapsed);
    let p11 = p10 + seq![' '];
    let p12 = p11 + glyphs.4;
    assert(line_clean(p1));
    lemma_clean_concat(p1, name);
    lemma_clean_concat(p2, seq![' ']);
    lemma_clean_concat(p3, glyphs.2);
    lemma_clean_concat(p4, repeat_seq(glyphs.0, fill));
    lemma_clean_concat(p5, repeat_seq(glyphs.1, (bar_len - fill) as nat));
    lemma_clean_concat(p6, glyphs.3);
    lemma_clean_concat(p7, pad_left(dec_rep(pct), 4));
    lemma_clean_concat(p8, seq!['%', ' ']);
    lemma_clean_concat(p9, rate_rep(elapsed));
    lemma_clean_concat(p10, seq![' ']);
    lemma_clean_concat(p11, glyphs.4);
    lemma_clean_concat(p12, seq!['/', 's']);
    assert(custom_line(name, progress, hint, glyphs, width, elapsed) == p12 + seq!['/', 's']);
}

/// A repeated break-free fragment stays on one line.
pub proof fn lemma_clean_repeat_seq(p: Seq<char>, k: nat)
    requires
        breaks_free(p),
    ensures
        line_clean(repeat_seq(p, k)),
    decreases k,
{
    if k > 0 {
        lemma_clean_repeat_seq(p, (k - 1) as nat);
        lemma_breaks_free_clean(p);
        lemma_clean_concat(repeat_seq(p, (k - 1) as nat), p);
    }
}

impl IsBar for CustomBar {
    closed spec fn done_spec(&self) -> bool {
        self.finished
    }

    closed spec fn close_spec(&self) -> Option<BarCloseMethod> {
        Some(BarCloseMethod::LeaveBehind)
    }

    fn done(&mut self) {
        proof {
            use_type_invariant(&*self);
        }
        self.finished = true;
    }

    fn is_done(&self) -> (r: bool) {
        self.finished
    }

    fn set_name(&mut self, name: String) {
        self.set_name(name);
    }

    /// Reads the clock and the terminal width, then renders one line; falls
    /// back to the configured width when no terminal is attached, and fails
    /// only when the bar does not fit.  Mutates only the rate mark — the
    /// name, progress, hint, glyph set and fallback width are untouched —
    /// and the line is the bar's rendering for the observed width and the
    /// time elapsed since the previous mark.
    fn display(&mut self) -> (r: Result<String, BarDisplayError>)
        ensures
            final(self).name_spec() == old(self).name_spec(),
            final(self).progress_spec() == old(self).progress_spec(),
            final(self).hint_spec() == old(self).hint_spec(),
            final(self).elems_spec() == old(self).elems_spec(),
            final(self).fallback_width_spec() == old(self).fallback_width_spec(),
            r matches Ok(s) ==> exists|w: nat|
                w >= custom_overhead(
                    old(self).name_spec(),
                    old(self).elems_spec(),
                    elapsed_between(old(self).rate_mark_spec(), final(self).rate_mark_spec()),
                ) && s@ == custom_line(
                    old(self).name_spec(),
                    old(self).progress_spec(),
                    old(self).hint_spec(),
                    old(self).elems_spec(),
                    w,
                    elapsed_between(old(self).rate_mark_spec(), final(self).rate_mark_spec()),
                ),
    {
        proof {
            use_type_invariant(&*self);
        }
        let now = now_millis();
        let elapsed: u64 = if now >= self.last_iter_ms {
            now - self.last_iter_ms
        } else {
            0
        };
        self.last_iter_ms = now;
        let w = match term_width() {
            Some(w) => w,
            None => self.fallback_width,
        };
        let r = self.render_line(w, elapsed);
        proof {
            assert(has_resolved(self));
            assert(elapsed as nat == elapsed_between(
                old(self).rate_mark_spec(),
                final(self).rate_mark_spec(),
            ));
            if w as nat >= custom_overhead(self.name_spec(), self.elems_spec(), elapsed as nat) {
                assert(r matches Ok(s) && s@ == custom_line(
                    old(self).name_spec(),
                    old(self).progress_spec(),
                    old(self).hint_spec(),
                    old(self).elems_spec(),
                    w as nat,
                    elapsed as nat,
                ));
            }
        }
        r
    }

    fn close_method(&self) -> (r: Option<BarCloseMethod>) {
        Some(BarCloseMethod::LeaveBehind)
    }
}

impl IteratorProgress for CustomBar {
    fn set_progress(&mut self, progress: usize)
        ensures
            final(self).progress_spec() == progress as nat,
            final(self).name_spec() == old(self).name_spec(),
            final(self).hint_spec() == old(self).hint_spec(),
            final(self).elems_spec() == old(self).elems_spec(),
            final(self).fallback_width_spec() == old(self).fallback_width_spec(),
            final(self).rate_mark_spec() == old(self).rate_mark_spec(),
            final(self).done_spec() == old(self).done_spec(),
    {
        proof {
            use_type_invariant(&*self);
        }
        self.progress = progress;
    }

    fn set_size_hint(&mut self, hint: usize)
        ensures
            final(self).hint_spec() == hint as nat,
            final(self).name_spec() == old(self).name_spec(),
            final(self).progress_spec() == old(self).progress_spec(),
            final(self).elems_spec() == old(self).elems_spec(),
            final(self).fallback_width_spec() == old(self).fallback_width_spec(),
            final(self).rate_mark_spec() == old(self).rate_mark_spec(),
            final(self).done_spec() == old(self).done_spec(),
    {
        proof {
            use_type_invariant(&*self);
        }
        self.max_hint = hint;
    }
}

/// Builder for a [`CustomBar`]; create it with [`Builder::new`] and finish
/// with [`Builder::build`].
#[derive(Debug)]
pub struct Builder {
    job_name: String,
    hint: usize,
    fallback_width: u16,
    elems: BarElements,
}

impl Builder {
    /// The job name the bar will carry, before line breaks are stripped.
    pub closed spec fn name_spec(&self) -> Seq<char> {
        self.job_name@
    }

    /// The size hint the bar will start with.
    pub closed spec fn hint_spec(&self) -> nat {
        self.hint as nat
    }

    /// The width assumed when the terminal width is unavailable.
    pub closed spec fn fallback_width_spec(&self) -> nat {
        self.fallback_width as nat
    }

    /// The glyph set the bar will draw with.
    pub closed spec fn elems_spec(&self) -> (Seq<char>, Seq<char>, Seq<char>, Seq<char>, Seq<
        char,
    >) {
        (self.elems.filled@, self.elems.empty@, self.elems.start@, self.elems.end@, self.elems.unit@)
    }

    /// Creates a builder with the classic glyphs, a hint of 100, and a
    /// fallback width of 81 columns.
    pub fn new(name: &str) -> (b: Builder)
        ensures
            b.name_spec() == name@,
            b.hint_spec() == 100,
            b.fallback_width_spec() == 81,
            b.elems_spec() == (
                seq!['='],
                seq!['-'],
                seq!['['],
                seq![']'],
                seq!['i', 't', 's'],
            ),
    {
        Builder {
            job_name: name.to_owned(),
            hint: 100,
            fallback_width: 81,
            elems: BarElements::default(),
        }
    }

    /// Sets the size hint.
    pub fn hint(self, hint: usize) -> (b: Builder)
        ensures
            b.hint_spec() == hint as nat,
            b.name_spec() == self.name_spec(),
            b.fallback_width_spec() == self.fallback_width_spec(),
            b.elems_spec() == self.elems_spec(),
    {
        Builder { hint, ..self }
    }

    /// Sets the width assumed when the terminal width is unavailable.
    pub fn fallback_width(self, width: u16) -> (b: Builder)
        ensures
            b.fallback_width_spec() == width as nat,
            b.name_spec() == self.name_spec(),
            b.hint_spec() == self.hint_spec(),
            b.elems_spec() == self.elems_spec(),
    {
        Builder { fallback_width: width, ..self }
    }

    /// Replaces the whole glyph set.
    pub fn elems(self, elems: BarElements) -> (b: Builder)
        ensures
            b.elems_spec() == (
                elems.filled_spec(),
                elems.empty_spec(),
                elems.start_spec(),
                elems.end_spec(),
                elems.unit_spec(),
            ),
            b.name_spec() == self.name_spec(),
            b.hint_spec() == self.hint_spec(),
            b.fallback_width_spec() == self.fallback_width_spec(),
    {
        Builder { elems, ..self }
    }

    /// Sets the glyph for the filled bar section; line breaks are stripped.
    pub fn filled(self, v: &str) -> (b: Builder)
        ensures
            b.elems_spec().0 == strip_breaks(v@),
            b.elems_spec().1 == self.elems_spec().1,
            b.elems_spec().2 == self.elems_spec().2,
            b.elems_spec().3 == self.elems_spec().3,
            b.elems_spec().4 == self.elems_spec().4,
            b.name_spec() == self.name_spec(),
            b.hint_spec() == self.hint_spec(),
            b.fallback_width_spec() == self.fallback_width_spec(),
    {
        let mut b = self;
        proof {
            use_type_invariant(&b.elems);
            crate::utils::lemma_strip_breaks_clean(v@);
        }
        b.elems.filled = sanitize_name(v);
        b
    }

    /// Sets the glyph for the empty bar section; line breaks are stripped.
    pub fn empty(self, v: &str) -> (b: Builder)
        ensures
            b.elems_spec().1 == strip_breaks(v@),
            b.elems_spec().0 == self.elems_spec().0,
            b.elems_spec().2 == self.elems_spec().2,
            b.elems_spec().3 == self.elems_spec().3,
            b.elems_spec().4 == self.elems_spec().4,
            b.name_spec() == self.name_spec(),
            b.hint_spec() == self.hint_spec(),
            b.fallback_width_spec() == self.fallback_width_spec(),
    {
        let mut b = self;
        proof {
            use_type_invariant(&b.elems);
            crate::utils::lemma_strip_breaks_clean(v@);
        }
        b.elems.empty = sanitize_name(v);
        b
    }

    /// Sets the fragment drawn before the bar section; line breaks are
    /// stripped.
    pub fn start(self, v: &str) -> (b: Builder)
        ensures
            b.elems_spec().2 == strip_breaks(v@),
            b.elems_spec().0 == self.elems_spec().0,
            b.elems_spec().1 == self.elems_spec().1,
            b.elems_spec().3 == self.elems_spec().3,
            b.elems_spec().4 == self.elems_spec().4,
            b.name_spec() == self.name_spec(),
            b.hint_spec() == self.hint_spec(),
            b.fallback_width_spec() == self.fallback_width_spec(),
    {
        let mut b = self;
        proof {
            use_type_invariant(&b.elems);
            crate::utils::lemma_strip_breaks_clean(v@);
        }
        b.elems.start = sanitize_name(v);
        b
    }

    /// Sets the fragment drawn after the bar section; line breaks are
    /// stripped.
    pub fn end(self, v: &str) -> (b: Builder)
        ensures
            b.elems_spec().3 == strip_breaks(v@),
            b.elems_spec().0 == self.elems_spec().0,
            b.elems_spec().1 == self.elems_spec().1,
            b.elems_spec().2 == self.elems_spec().2,
            b.elems_spec().4 == self.elems_spec().4,
            b.name_spec() == self.name_spec(),
            b.hint_spec() == self.hint_spec(),
            b.fallback_width_spec() == self.fallback_width_spec(),
    {
        let mut b = self;
        proof {
            use_type_invariant(&b.elems);
            crate::utils::lemma_strip_breaks_clean(v@);
        }
        b.elems.end = sanitize_name(v);
        b
    }

    /// Sets the unit of the rate readout; line breaks are stripped.
    pub fn unit(self, v: &str) -> (b: Builder)
        ensures
            b.elems_spec().4 == strip_breaks(v@),
            b.elems_spec().0 == self.elems_spec().0,
            b.elems_spec().1 == self.elems_spec().1,
            b.elems_spec().2 == self.elems_spec().2,
            b.elems_spec().3 == self.elems_spec().3,
            b.name_spec() == self.name_spec(),
            b.hint_spec() == self.hint_spec(),
            b.fallback_width_spec() == self.fallback_width_spec(),
    {
        let mut b = self;
        proof {
            use_type_invariant(&b.elems);
            crate::utils::lemma_strip_breaks_clean(v@);
        }
        b.elems.unit = sanitize_name(v);
        b
    }

    /// Builds the bar, reading the clock once to seed the rate readout.
    /// Every builder field is observable in the built bar.
    pub fn build(self) -> (b: CustomBar)
        ensures
            b.name_spec() == strip_breaks(self.name_spec()),
            b.progress_spec() == 0,
            b.hint_spec() == self.hint_spec(),
            b.fallback_width_spec() == self.fallback_width_spec(),
            b.elems_spec() == self.elems_spec(),
            !b.done_spec(),
            b.close_spec() == Some(BarCloseMethod::LeaveBehind),
    {
        let job_name = sanitize_name(self.job_name.as_str());
        proof {
            crate::utils::lemma_strip_breaks_clean(self.job_name@);
        }
        CustomBar {
            job_name,
            progress: 0,
            max_hint: self.hint,
            finished: false,
            last_iter_ms: now_millis(),
            fallback_width: self.fallback_width,
            elems: self.elems,
        }
    }
}

} // verus!
