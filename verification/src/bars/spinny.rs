//! A spinner indicator: a cycling frame character in front of a job name and
//! a subtask note.

use crate::isbar::BarCloseMethod;
use crate::isbar::BarDisplayError;
use crate::isbar::IsBar;
use crate::utils::breaks_free;
use crate::utils::chars_to_string;
use crate::utils::lemma_clean_concat;
use crate::utils::lemma_strip_breaks_clean;
use crate::utils::line_clean;
use crate::utils::push_chars;
use crate::utils::sanitize_name;
use crate::utils::strip_breaks;
use vstd::prelude::*;

verus! {

/// The one-line rendering of a spinner: the current frame character, the
/// job name, and the subtask.
pub open spec fn spinni_line(frame: char, job: Seq<char>, sub: Seq<char>) -> Seq<char> {
    seq![frame, ' '] + job + seq![':', ' '] + sub
}

/// The fixed cycle of frame characters every spinner steps through.
pub open spec fn spinni_frames() -> Seq<char> {
    seq![
        '⠁',
        '⠁',
        '⠉',
        '⠙',
        '⠚',
        '⠒',
        '⠂',
        '⠂',
        '⠒',
        '⠲',
        '⠴',
        '⠤',
        '⠄',
        '⠄',
        '⠤',
        '⠠',
        '⠠',
        '⠤',
        '⠦',
        '⠖',
        '⠒',
        '⠐',
        '⠐',
        '⠒',
        '⠓',
        '⠋',
        '⠉',
        '⠈',
        '⠈',
        ' ',
    ]
}

/// The frame index after one step: the next one, wrapping at the end of
/// the cycle.
pub open spec fn next_frame(i: nat, n: nat) -> nat {
    if i + 1 == n {
        0
    } else {
        i + 1
    }
}

/// The frame cycle as characters.
fn spinner_frames() -> (v: Vec<char>)
    ensures
        v@ == spinni_frames(),
        breaks_free(v@),
{
    let mut v: Vec<char> = Vec::new();
    v.push('⠁');
    v.push('⠁');
    v.push('⠉');
    v.push('⠙');
    v.push('⠚');
    v.push('⠒');
    v.push('⠂');
    v.push('⠂');
    v.push('⠒');
    v.push('⠲');
    v.push('⠴');
    v.push('⠤');
    v.push('⠄');
    v.push('⠄');
    v.push('⠤');
    v.push('⠠');
    v.push('⠠');
    v.push('⠤');
    v.push('⠦');
    v.push('⠖');
    v.push('⠒');
    v.push('⠐');
    v.push('⠐');
    v.push('⠒');
    v.push('⠓');
    v.push('⠋');
    v.push('⠉');
    v.push('⠈');
    v.push('⠈');
    v.push(' ');
    proof {
        assert(v@ =~= spinni_frames());
        assert(breaks_free(v@));
    }
    v
}

/// A spinner-line rendering never holds a newline.
pub proof fn lemma_spinni_line_clean(frame: char, job: Seq<char>, sub: Seq<char>)
    requires
        frame != '\n',
        line_clean(job),
        line_clean(sub),
    ensures
        line_clean(spinni_line(frame, job, sub)),
{
    assert(line_clean(seq![frame, ' ']));
    assert(line_clean(seq![':', ' ']));
    lemma_clean_concat(seq![frame, ' '], job);
    lemma_clean_concat(seq![frame, ' '] + job, seq![':', ' ']);
    lemma_clean_concat(seq![frame, ' '] + job + seq![':', ' '], sub);
}

/// A spinning activity indicator for jobs without a measurable progress
/// level.
#[derive(Debug)]
pub struct Spinni {
    tick_chars: Vec<char>,
    current_char: usize,
    job_name: Vec<char>,
    subtask: Vec<char>,
    done: bool,
    close_method: Option<BarCloseMethod>,
    tick_on_display: bool,
}

impl Spinni {
    #[verifier::type_invariant]
    spec fn wf(&self) -> bool {
        &&& self.tick_chars@ == spinni_frames()
        &&& self.tick_chars@.len() >= 1
        &&& self.current_char < self.tick_chars@.len()
        &&& breaks_free(self.tick_chars@)
        &&& breaks_free(self.job_name@)
        &&& breaks_free(self.subtask@)
    }

    /// The job name, with line breaks stripped at construction.
    pub closed spec fn name_spec(&self) -> Seq<char> {
        self.job_name@
    }

    /// The subtask note, with line breaks stripped at construction.
    pub closed spec fn subtask_spec(&self) -> Seq<char> {
        self.subtask@
    }

    /// The index of the frame currently shown.
    pub closed spec fn frame_index(&self) -> nat {
        self.current_char as nat
    }

    /// The cycle of frame characters.
    pub closed spec fn frames_spec(&self) -> Seq<char> {
        self.tick_chars@
    }

    /// Whether each redraw advances the frame by itself.
    pub closed spec fn tick_on_display_spec(&self) -> bool {
        self.tick_on_display
    }

    pub(crate) fn new(
        job_name: String,
        subtask: String,
        close_method: Option<BarCloseMethod>,
        tick_on_display: bool,
    ) -> (b: Spinni)
        ensures
            b.name_spec() == strip_breaks(job_name@),
            b.subtask_spec() == strip_breaks(subtask@),
            b.frames_spec() == spinni_frames(),
            b.frame_index() == 0,
            !b.done_spec(),
            b.close_spec() == close_method,
            b.tick_on_display_spec() == tick_on_display,
    {
        let tick_chars = spinner_frames();
        let job = sanitize_name(job_name.as_str());
        let sub = sanitize_name(subtask.as_str());
        proof {
            lemma_strip_breaks_clean(job_name@);
            lemma_strip_breaks_clean(subtask@);
        }
        Spinni {
            tick_chars,
            current_char: 0,
            job_name: job,
            subtask: sub,
            done: false,
            close_method,
            tick_on_display,
        }
    }

    /// Renames the job the spinner stands for.
    pub fn set_job(&mut self, job_name: String)
        ensures
            final(self).name_spec() == strip_breaks(job_name@),
            final(self).subtask_spec() == old(self).subtask_spec(),
            final(self).frames_spec() == old(self).frames_spec(),
            final(self).frame_index() == old(self).frame_index(),
            final(self).tick_on_display_spec() == old(self).tick_on_display_spec(),
            final(self).done_spec() == old(self).done_spec(),
            final(self).close_spec() == old(self).close_spec(),
    {
        proof {
            use_type_invariant(&*self);
        }
        let v = sanitize_name(job_name.as_str());
        proof {
            lemma_strip_breaks_clean(job_name@);
        }
        self.job_name = v;
    }

    /// Replaces the subtask note.
    pub fn set_subtask(&mut self, task_name: String)
        ensures
            final(self).subtask_spec() == strip_breaks(task_name@),
            final(self).name_spec() == old(self).name_spec(),
            final(self).frames_spec() == old(self).frames_spec(),
            final(self).frame_index() == old(self).frame_index(),
            final(self).tick_on_display_spec() == old(self).tick_on_display_spec(),
            final(self).done_spec() == old(self).done_spec(),
            final(self).close_spec() == old(self).close_spec(),
    {
        proof {
            use_type_invariant(&*self);
        }
        let v = sanitize_name(task_name.as_str());
        proof {
            lemma_strip_breaks_clean(task_name@);
        }
        self.subtask = v;
    }

    /// Advances the spinner to its next frame, wrapping at the end of the
    /// cycle.
    pub fn tick(&mut self)
        ensures
            final(self).frame_index() == next_frame(
                old(self).frame_index(),
                old(self).frames_spec().len(),
            ),
            final(self).frames_spec() == old(self).frames_spec(),
            final(self).tick_on_display_spec() == old(self).tick_on_display_spec(),
            final(self).name_spec() == old(self).name_spec(),
            final(self).subtask_spec() == old(self).subtask_spec(),
            final(self).done_spec() == old(self).done_spec(),
            final(self).close_spec() == old(self).close_spec(),
    {
        proof {
            use_type_invariant(&*self);
        }
        if self.current_char == self.tick_chars.len() - 1 {
            self.current_char = 0;
        } else {
            self.current_char = self.current_char + 1;
        }
    }
}

impl IsBar for Spinni {
    closed spec fn done_spec(&self) -> bool {
        self.done
    }

    closed spec fn close_spec(&self) -> Option<BarCloseMethod> {
        self.close_method
    }

    fn done(&mut self) {
        proof {
            use_type_invariant(&*self);
        }
        self.done = true;
    }

    fn is_done(&self) -> (r: bool) {
        self.done
    }

    fn set_name(&mut self, name: String)
        ensures
            final(self).name_spec() == strip_breaks(name@),
            final(self).subtask_spec() == old(self).subtask_spec(),
            final(self).frames_spec() == old(self).frames_spec(),
            final(self).frame_index() == old(self).frame_index(),
            final(self).tick_on_display_spec() == old(self).tick_on_display_spec(),
    {
        self.set_job(name);
    }

    /// Advances the frame — exactly one step when configured to tick on
    /// display, none otherwise — then renders the spinner's line.  Never
    /// fails, and mutates nothing but the frame index.
    fn display(&mut self) -> (r: Result<String, BarDisplayError>)
        ensures
            r matches Ok(s) && s@ == spinni_line(
                final(self).frames_spec()[final(self).frame_index() as int],
                final(self).name_spec(),
                final(self).subtask_spec(),
            ),
            final(self).frames_spec() == old(self).frames_spec(),
            final(self).frame_index() == if old(self).tick_on_display_spec() {
                next_frame(old(self).frame_index(), old(self).frames_spec().len())
            } else {
                old(self).frame_index()
            },
            final(self).tick_on_display_spec() == old(self).tick_on_display_spec(),
            final(self).name_spec() == old(self).name_spec(),
            final(self).subtask_spec() == old(self).subtask_spec(),
    {
        proof {
            use_type_invariant(&*self);
        }
        if self.tick_on_display {
            self.tick();
        }
        proof {
            use_type_invariant(&*self);
        }
        let frame = self.tick_chars[self.current_char];
        let mut out: Vec<char> = Vec::new();
        out.push(frame);
        out.push(' ');
        push_chars(&mut out, &self.job_name);
        out.push(':');
        out.push(' ');
        push_chars(&mut out, &self.subtask);
        proof {
            assert(out@ =~= spinni_line(frame, self.job_name@, self.subtask@));
            lemma_spinni_line_clean(frame, self.job_name@, self.subtask@);
        }
        Ok(chars_to_string(&out))
    }

    fn close_method(&self) -> (r: Option<BarCloseMethod>) {
        self.close_method
    }
}

/// Builder for a [`Spinni`].
#[derive(Clone, Debug)]
pub struct SpinniBuilder {
    job_name: String,
    task_name: String,
    close_method: Option<BarCloseMethod>,
    tick_on_display: bool,
}

impl SpinniBuilder {
    /// The job name the spinner will carry.
    pub closed spec fn name_spec(&self) -> Seq<char> {
        self.job_name@
    }

    /// The subtask note the spinner will carry.
    pub closed spec fn task_spec(&self) -> Seq<char> {
        self.task_name@
    }

    /// The close method the spinner will ask for; `None` defers to the
    /// manager's default.
    pub closed spec fn close_spec(&self) -> Option<BarCloseMethod> {
        self.close_method
    }

    /// Whether the spinner will advance on every redraw.
    pub closed spec fn tick_on_display_spec(&self) -> bool {
        self.tick_on_display
    }

    pub fn new(name: String) -> (b: SpinniBuilder)
        ensures
            b.name_spec() == name@,
            b.task_spec().len() == 0,
            b.close_spec() == Some(BarCloseMethod::LeaveBehind),
            b.tick_on_display_spec(),
    {
        SpinniBuilder {
            job_name: name,
            task_name: String::new(),
            close_method: Some(BarCloseMethod::LeaveBehind),
            tick_on_display: true,
        }
    }

    pub fn task_name(self, task_name: String) -> (b: SpinniBuilder)
        ensures
            b.task_spec() == task_name@,
            b.name_spec() == self.name_spec(),
            b.close_spec() == self.close_spec(),
            b.tick_on_display_spec() == self.tick_on_display_spec(),
    {
        SpinniBuilder { task_name, ..self }
    }

    pub fn close_method(self, close_method: BarCloseMethod) -> (b: SpinniBuilder)
        ensures
            b.close_spec() == Some(close_method),
            b.name_spec() == self.name_spec(),
            b.task_spec() == self.task_spec(),
            b.tick_on_display_spec() == self.tick_on_display_spec(),
    {
        SpinniBuilder { close_method: Some(close_method), ..self }
    }

    pub fn tick_on_display(self, tick_on_display: bool) -> (b: SpinniBuilder)
        ensures
            b.tick_on_display_spec() == tick_on_display,
            b.name_spec() == self.name_spec(),
            b.task_spec() == self.task_spec(),
            b.close_spec() == self.close_spec(),
    {
        SpinniBuilder { tick_on_display, ..self }
    }

    pub fn build(self) -> (b: Spinni)
        ensures
            b.name_spec() == strip_breaks(self.name_spec()),
            b.subtask_spec() == strip_breaks(self.task_spec()),
            b.frames_spec() == spinni_frames(),
            b.frame_index() == 0,
            !b.done_spec(),
            b.close_spec() == self.close_spec(),
            b.tick_on_display_spec() == self.tick_on_display_spec(),
    {
        Spinni::new(self.job_name, self.task_name, self.close_method, self.tick_on_display)
    }
}

} // verus!
