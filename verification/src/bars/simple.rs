//! A simple percentage bar: a fixed-width name field followed by a fill
//! region sized from the terminal width.

use crate::bars::common::TermSizeError;
use crate::bars::common::TermWidthError;
use crate::isbar::BarCloseMethod;
use crate::isbar::BarDisplayError;
use crate::isbar::IsBar;
use crate::subsets::IteratorProgress;
use crate::utils::breaks_free;
use crate::utils::chars_to_string;
use crate::utils::dec_rep;
use crate::utils::lemma_clean_concat;
use crate::utils::lemma_clean_dec_rep;
use crate::utils::lemma_clean_pad_left;
use crate::utils::lemma_clean_pad_right;
use crate::utils::lemma_clean_repeat;
use crate::utils::lemma_strip_breaks_clean;
use crate::utils::line_clean;
use crate::utils::pad_left;
use crate::utils::pad_right;
use crate::utils::percent;
use crate::utils::percent_of;
use crate::utils::push_pad_left;
use crate::utils::push_pad_right;
use crate::utils::push_repeat;
use crate::utils::repeat_char;
use crate::utils::sanitize_name;
use crate::utils::strip_breaks;
use crate::utils::term_width;
use crate::utils::u128_to_chars;
use vstd::prelude::*;

verus! {

/// The number of columns a simple bar needs besides its fill region: the
/// name field, the percentage field, and the brackets.
pub const SIMPLE_BAR_OVERHEAD: u16 = 57;

/// How many characters of the fill region are filled at `pct` percent, with
/// overfull bars drawn as full.
pub open spec fn fill_of(bar_len: nat, pct: nat) -> nat {
    let capped = if pct > 100 {
        100 as nat
    } else {
        pct
    };
    bar_len * capped / 100
}

/// The one-line rendering of a simple bar on a terminal `width` columns
/// wide: a carriage return, the job name padded right to a 50-column field,
/// the fill region in brackets, and the percentage padded left to four
/// columns.
pub open spec fn simple_line(name: Seq<char>, progress: nat, hint: nat, width: nat) -> Seq<char> {
    let pct = percent_of(progress, hint);
    let bar_len = (width - SIMPLE_BAR_OVERHEAD) as nat;
    let fill = fill_of(bar_len, pct);
    seq!['\r'] + pad_right(name, 50) + seq!['['] + repeat_char('=', fill) + repeat_char(
        '-',
        (bar_len - fill) as nat,
    ) + seq![']'] + pad_left(dec_rep(pct), 4) + seq!['%']
}

/// A simple-line rendering never holds a newline.
pub proof fn lemma_simple_line_clean(name: Seq<char>, progress: nat, hint: nat, width: nat)
    requires
        line_clean(name),
    ensures
        line_clean(simple_line(name, progress, hint, width)),
{
    let pct = percent_of(progress, hint);
    let bar_len = (width - SIMPLE_BAR_OVERHEAD) as nat;
    let fill = fill_of(bar_len, pct);
    assert(line_clean(seq!['\r']));
    assert(line_clean(seq!['[']));
    assert(line_clean(seq![']']));
    lemma_clean_pad_right(name, 50);
    lemma_clean_repeat('=', fill);
    lemma_clean_repeat('-', (bar_len - fill) as nat);
    lemma_clean_dec_rep(pct);
    lemma_clean_pad_left(dec_rep(pct), 4);
    lemma_clean_concat(seq!['\r'], pad_right(name, 50));
    lemma_clean_concat(seq!['\r'] + pad_right(name, 50), seq!['[']);
    lemma_clean_concat(seq!['\r'] + pad_right(name, 50) + seq!['['], repeat_char('=', fill));
    lemma_clean_concat(
        seq!['\r'] + pad_right(name, 50) + seq!['['] + repeat_char('=', fill),
        repeat_char('-', (bar_len - fill) as nat),
    );
    lemma_clean_concat(
        seq!['\r'] + pad_right(name, 50) + seq!['['] + repeat_char('=', fill) + repeat_char(
            '-',
            (bar_len - fill) as nat,
        ),
        seq![']'],
    );
    lemma_clean_concat(
        seq!['\r'] + pad_right(name, 50) + seq!['['] + repeat_char('=', fill) + repeat_char(
            '-',
            (bar_len - fill) as nat,
        ) + seq![']'],
        pad_left(dec_rep(pct), 4),
    );
    lemma_clean_concat(
        seq!['\r'] + pad_right(name, 50) + seq!['['] + repeat_char('=', fill) + repeat_char(
            '-',
            (bar_len - fill) as nat,
        ) + seq![']'] + pad_left(dec_rep(pct), 4),
        seq!['%'],
    );
}

/// A simple progress bar with a job name, a progress level, and a hint for
/// the largest value the progress will reach.
#[derive(Debug)]
pub struct SimpleBar {
    job_name: Vec<char>,
    progress: usize,
    max_hint: usize,
    finished: bool,
}

impl SimpleBar {
    #[verifier::type_invariant]
    spec fn wf(&self) -> bool {
        breaks_free(self.job_name@)
    }

    /// The job name, with line breaks stripped at construction.
    pub closed spec fn name_spec(&self) -> Seq<char> {
        self.job_name@
    }

    /// The current progress level.
    pub closed spec fn progress_spec(&self) -> nat {
        self.progress as nat
    }

    /// The hint for the largest progress value.
    pub closed spec fn hint_spec(&self) -> nat {
        self.max_hint as nat
    }

    /// `name`: the name of the job, of which line breaks are stripped.
    ///
    /// `hint`: a hint for the maximum value the progress will reach.
    pub fn new(name: &str, hint: usize) -> (b: SimpleBar)
        ensures
            b.name_spec() == strip_breaks(name@),
            b.progress_spec() == 0,
            b.hint_spec() == hint as nat,
            !b.done_spec(),
            b.close_spec() is None,
    {
        let job_name = sanitize_name(name);
        proof {
            lemma_strip_breaks_clean(name@);
        }
        SimpleBar { job_name, progress: 0, max_hint: hint, finished: false }
    }

    /// Renders the bar's line for a terminal `width` columns wide.  Succeeds
    /// exactly when the width leaves room for the fixed fields.
    pub fn render_line(&self, width: u16) -> (r: Result<String, BarDisplayError>)
        ensures
            width >= SIMPLE_BAR_OVERHEAD ==> (r matches Ok(s) && s@ == simple_line(
                self.name_spec(),
                self.progress_spec(),
                self.hint_spec(),
                width as nat,
            )),
            width < SIMPLE_BAR_OVERHEAD ==> (r matches Err(e) && e == BarDisplayError::Size(
                TermSizeError,
            )),
            r matches Ok(s) ==> line_clean(s@),
    {
        proof {
            use_type_invariant(&*self);
        }
        if width < SIMPLE_BAR_OVERHEAD {
            return Err(BarDisplayError::Size(TermSizeError));
        }
        let bar_len: usize = (width - SIMPLE_BAR_OVERHEAD) as usize;
        let pct: u128 = percent(self.progress, self.max_hint);
        let capped: u128 = if pct > 100 {
            100
        } else {
            pct
        };
        proof {
            assert((bar_len as u128) * capped <= 0xffff * 100) by (nonlinear_arith)
                requires
                    capped <= 100,
                    bar_len as u128 <= 0xffff,
            ;
        }
        let fill128: u128 = (bar_len as u128) * capped / 100;
        proof {
            assert(fill128 <= bar_len as u128) by (nonlinear_arith)
                requires
                    capped <= 100,
                    bar_len <= 0xffff,
                    fill128 == (bar_len as u128) * capped / 100,
            ;
        }
        let fill: usize = fill128 as usize;
        let mut out: Vec<char> = Vec::new();
        out.push('\r');
        push_pad_right(&mut out, &self.job_name, 50);
        out.push('[');
        push_repeat(&mut out, '=', fill);
        push_repeat(&mut out, '-', bar_len - fill);
        out.push(']');
        let digits = u128_to_chars(pct);
        push_pad_left(&mut out, &digits, 4);
        out.push('%');
        proof {
            assert(out@ =~= simple_line(
                self.name_spec(),
                self.progress_spec(),
                self.hint_spec(),
                width as nat,
            ));
            lemma_simple_line_clean(
                self.name_spec(),
                self.progress_spec(),
                self.hint_spec(),
                width as nat,
            );
        }
        Ok(chars_to_string(&out))
    }
}

impl IsBar for SimpleBar {
    closed spec fn done_spec(&self) -> bool {
        self.finished
    }

    closed spec fn close_spec(&self) -> Option<BarCloseMethod> {
        None
    }

    fn done(&mut self) {
        proof {
            use_type_invariant(&*self);
        }
        self.finished = true;
    }

    fn is_done(&self) -> (r: bool) {
        self.finished
    }

    fn set_name(&mut self, name: String)
        ensures
            final(self).name_spec() == strip_breaks(name@),
            final(self).progress_spec() == old(self).progress_spec(),
            final(self).hint_spec() == old(self).hint_spec(),
    {
        proof {
            use_type_invariant(&*self);
        }
        let v = sanitize_name(name.as_str());
        proof {
            lemma_strip_breaks_clean(name@);
        }
        self.job_name = v;
    }

    /// Queries the terminal width and renders one line; fails when no
    /// terminal is attached or the terminal is too narrow.
    fn display(&mut self) -> (r: Result<String, BarDisplayError>)
        ensures
            *final(self) == *old(self),
            r matches Ok(s) ==> exists|w: u16|
                w >= SIMPLE_BAR_OVERHEAD && s@ == simple_line(
                    old(self).name_spec(),
                    old(self).progress_spec(),
                    old(self).hint_spec(),
                    w as nat,
                ),
    {
        match term_width() {
            None => Err(BarDisplayError::Width(TermWidthError)),
            Some(w) => {
                let r = self.render_line(w);
                proof {
                    if w >= SIMPLE_BAR_OVERHEAD {
                        assert(r matches Ok(s) && s@ == simple_line(
                            self.name_spec(),
                            self.progress_spec(),
                            self.hint_spec(),
                            w as nat,
                        ));
                    }
                }
                r
            },
        }
    }

    fn close_method(&self) -> (r: Option<BarCloseMethod>) {
        None
    }
}

impl IteratorProgress for SimpleBar {
    fn set_progress(&mut self, progress: usize)
        ensures
            final(self).progress_spec() == progress as nat,
            final(self).name_spec() == old(self).name_spec(),
            final(self).hint_spec() == old(self).hint_spec(),
            final(self).done_spec() == old(self).done_spec(),
    {
        proof {
            use_type_invariant(&*self);
        }
        self.progress = progress;
    }

    fn set_size_hint(&mut self, hint: usize)
        ensures
            final(self).hint_spec() == hint as nat,
            final(self).name_spec() == old(self).name_spec(),
            final(self).progress_spec() == old(self).progress_spec(),
            final(self).done_spec() == old(self).done_spec(),
    {
        proof {
            use_type_invariant(&*self);
        }
        self.max_hint = hint;
    }
}

} // verus!
