//! The registry/redraw engine: tracks live indicators, queues plain text,
//! and composes one output string per redraw that erases the previous frame
//! and repaints every tracked indicator.

use crate::cells::CellBar;
use crate::cells::SharedBar;
use crate::cells::TakeOutcome;
use crate::isbar::BarCloseMethod;
use crate::isbar::BarDisplayError;
use crate::isbar::IsBar;
use crate::utils::chars_to_string;
use crate::utils::dec_rep;
use crate::utils::line_clean;
use crate::utils::usize_to_chars;
use crate::wrapper::BarWrapper;
use crate::wrapper::ThreadedBarWrapper;
use vstd::prelude::*;

verus! {

/// Acquiring exclusive access to a thread-safe indicator timed out.
#[derive(Clone, Copy, Debug, PartialEq, Eq, Structural)]
pub struct BarLockTimeoutError;

impl BarLockTimeoutError {
    /// A human-readable description of the failure.
    pub fn message(&self) -> (r: &'static str)
        ensures
            r@ == "failed to acquire lock on bar in time"@,
    {
        "failed to acquire lock on bar in time"
    }
}

/// Why a redraw could not be composed.
#[derive(Clone, Copy, Debug, PartialEq, Eq, Structural)]
pub enum RenderError {
    /// A single-threaded indicator could not be borrowed: some other holder
    /// has it out of its cell.
    Acquisition,
    /// A thread-safe indicator's lock stayed held past the bounded wait.
    LockTimeout(BarLockTimeoutError),
    /// An indicator failed to render its line.
    Display(BarDisplayError),
}

/// The milliseconds a redraw waits for a thread-safe indicator's lock
/// before reporting a timeout.
pub const LOCK_WAIT_MS: u64 = 100;

/// Declares `std::io::Error` to the verifier, so that a flush failure can
/// be carried inside [`BarManagerTryPrintError`].
#[verifier::external_type_specification]
#[verifier::external_body]
pub struct ExIoError(std::io::Error);

/// Why printing a redraw to the terminal failed.
#[derive(Debug)]
pub enum BarManagerTryPrintError {
    /// The output stream could not be written or flushed.
    Flush(std::io::Error),
    /// A redraw could not be composed.
    Display(RenderError),
}

/// Text fragments joined in order.
pub open spec fn concat_frags(q: Seq<Seq<char>>) -> Seq<char>
    decreases q.len(),
{
    if q.len() == 0 {
        Seq::empty()
    } else {
        q[0] + concat_frags(q.skip(1))
    }
}

/// Appending a fragment to the queue appends it to the joined output.
pub proof fn lemma_concat_frags_push(q: Seq<Seq<char>>, x: Seq<char>)
    ensures
        concat_frags(q.push(x)) == concat_frags(q) + x,
    decreases q.len(),
{
    if q.len() == 0 {
        assert(q.push(x)[0] == x);
        assert(q.push(x).skip(1) =~= Seq::<Seq<char>>::empty());
        assert(concat_frags(q.push(x)) == x + concat_frags(Seq::<Seq<char>>::empty()));
        assert(x + Seq::<char>::empty() =~= x);
        assert(concat_frags(q) == Seq::<char>::empty());
        assert(Seq::<char>::empty() + x =~= x);
    } else {
        lemma_concat_frags_push(q.skip(1), x);
        assert(q.push(x)[0] == q[0]);
        assert(q.push(x).skip(1) =~= q.skip(1).push(x));
        assert(concat_frags(q.push(x)) == q[0] + concat_frags(q.skip(1).push(x)));
        assert(q[0] + (concat_frags(q.skip(1)) + x) =~= (q[0] + concat_frags(q.skip(1))) + x);
    }
}

/// Queued text keeps its order: two fragments queued one after the other
/// stand adjacent and in order in the drained output.
pub proof fn lemma_queue_order(q: Seq<Seq<char>>, a: Seq<char>, b: Seq<char>)
    ensures
        concat_frags(q.push(a).push(b)) == concat_frags(q) + a + b,
{
    lemma_concat_frags_push(q.push(a), b);
    lemma_concat_frags_push(q, a);
}

/// The escape prefix of a redraw: a cursor-up over the lines of the
/// previous frame when any were drawn, then a clear to the end of the
/// screen.
pub open spec fn clear_rep() -> Seq<char> {
    seq!['\x1b', '[', '0', 'J']
}

pub open spec fn redraw_prefix(last_lines: nat) -> Seq<char> {
    if last_lines == 0 {
        clear_rep()
    } else {
        seq!['\x1b', '['] + dec_rep(last_lines) + seq!['F'] + clear_rep()
    }
}

/// Which close method applies to a finished indicator: its own choice, or
/// the engine-wide default when it has none.
pub open spec fn effective_close(m: Option<BarCloseMethod>, default_close: BarCloseMethod) -> BarCloseMethod {
    match m {
        Some(c) => c,
        None => default_close,
    }
}

/// What one processed indicator contributes to the redraw: its line and a
/// newline while it is live, the same one last time when it is finished
/// with `LeaveBehind`, and nothing when it is finished with `Clear`.
pub open spec fn emits<B: IsBar>(pre: B, line: Seq<char>, default_close: BarCloseMethod) -> Seq<
    char,
> {
    if !pre.done_spec() {
        line + seq!['\n']
    } else {
        match effective_close(pre.close_spec(), default_close) {
            BarCloseMethod::LeaveBehind => line + seq!['\n'],
            BarCloseMethod::Clear => Seq::empty(),
        }
    }
}

/// The output of one pass over a registry, given the indicator states the
/// pass observed and the lines they rendered.
pub open spec fn pass_output<B: IsBar>(
    obs: Seq<B>,
    lines: Seq<Seq<char>>,
    default_close: BarCloseMethod,
) -> Seq<char>
    decreases obs.len(),
{
    if obs.len() == 0 {
        Seq::empty()
    } else {
        emits(obs[0], lines[0], default_close) + pass_output(obs.skip(1), lines.skip(1), default_close)
    }
}

pub proof fn lemma_pass_output_push<B: IsBar>(
    obs: Seq<B>,
    lines: Seq<Seq<char>>,
    default_close: BarCloseMethod,
    b: B,
    l: Seq<char>,
)
    requires
        lines.len() == obs.len(),
    ensures
        pass_output(obs.push(b), lines.push(l), default_close) == pass_output(
            obs,
            lines,
            default_close,
        ) + emits(b, l, default_close),
    decreases obs.len(),
{
    if obs.len() == 0 {
        assert(obs.push(b)[0] == b);
        assert(lines.push(l)[0] == l);
        assert(obs.push(b).skip(1) =~= Seq::<B>::empty());
        assert(lines.push(l).skip(1) =~= Seq::<Seq<char>>::empty());
        assert(pass_output(obs.push(b), lines.push(l), default_close) == emits(b, l, default_close)
            + pass_output(Seq::<B>::empty(), Seq::<Seq<char>>::empty(), default_close));
        assert(pass_output(obs, lines, default_close) == Seq::<char>::empty());
        assert(emits(b, l, default_close) + Seq::<char>::empty() =~= emits(b, l, default_close));
        assert(Seq::<char>::empty() + emits(b, l, default_close) =~= emits(b, l, default_close));
    } else {
        lemma_pass_output_push(obs.skip(1), lines.skip(1), default_close, b, l);
        assert(obs.push(b)[0] == obs[0]);
        assert(lines.push(l)[0] == lines[0]);
        assert(obs.push(b).skip(1) =~= obs.skip(1).push(b));
        assert(lines.push(l).skip(1) =~= lines.skip(1).push(l));
        assert(pass_output(obs.push(b), lines.push(l), default_close) == emits(
            obs[0],
            lines[0],
            default_close,
        ) + pass_output(obs.skip(1).push(b), lines.skip(1).push(l), default_close));
        assert(pass_output(obs, lines, default_close) == emits(obs[0], lines[0], default_close)
            + pass_output(obs.skip(1), lines.skip(1), default_close));
        assert(emits(obs[0], lines[0], default_close) + (pass_output(
            obs.skip(1),
            lines.skip(1),
            default_close,
        ) + emits(b, l, default_close)) =~= (emits(obs[0], lines[0], default_close) + pass_output(
            obs.skip(1),
            lines.skip(1),
            default_close,
        )) + emits(b, l, default_close));
    }
}

/// How many of the observed indicators stay tracked: those not yet
/// finished.
pub open spec fn kept_count<B: IsBar>(obs: Seq<B>) -> nat
    decreases obs.len(),
{
    if obs.len() == 0 {
        0
    } else {
        (if obs[0].done_spec() {
            0 as nat
        } else {
            1 as nat
        }) + kept_count(obs.skip(1))
    }
}

/// The cells whose observed indicator was not finished, in their original
/// order: what a pass over a registry keeps.  Eviction only closes gaps —
/// nothing is added and survivors are never reordered.
pub open spec fn kept_cells<C, B: IsBar>(cells: Seq<C>, obs: Seq<B>) -> Seq<C>
    decreases cells.len(),
{
    if cells.len() == 0 {
        Seq::empty()
    } else {
        let rest = kept_cells(cells.skip(1), obs.skip(1));
        if obs[0].done_spec() {
            rest
        } else {
            seq![cells[0]] + rest
        }
    }
}

/// The two views of a sweep agree: the kept cells are exactly as many as
/// the observed indicators that were not finished.
pub proof fn lemma_kept_cells_len<C, B: IsBar>(cells: Seq<C>, obs: Seq<B>)
    requires
        cells.len() == obs.len(),
    ensures
        kept_cells(cells, obs).len() == kept_count(obs),
    decreases cells.len(),
{
    if cells.len() > 0 {
        lemma_kept_cells_len(cells.skip(1), obs.skip(1));
    }
}

pub proof fn lemma_kept_cells_push<C, B: IsBar>(cells: Seq<C>, obs: Seq<B>, c: C, b: B)
    requires
        cells.len() == obs.len(),
    ensures
        kept_cells(cells.push(c), obs.push(b)) == kept_cells(cells, obs) + (if b.done_spec() {
            Seq::<C>::empty()
        } else {
            seq![c]
        }),
    decreases cells.len(),
{
    let tail: Seq<C> = if b.done_spec() {
        Seq::empty()
    } else {
        seq![c]
    };
    if cells.len() == 0 {
        assert(cells.push(c)[0] == c);
        assert(obs.push(b)[0] == b);
        assert(cells.push(c).skip(1) =~= Seq::<C>::empty());
        assert(obs.push(b).skip(1) =~= Seq::<B>::empty());
        assert(kept_cells(cells.push(c).skip(1), obs.push(b).skip(1)) == Seq::<C>::empty());
        assert(kept_cells(cells, obs) == Seq::<C>::empty());
        assert(seq![c] + Seq::<C>::empty() =~= seq![c]);
        assert(Seq::<C>::empty() + tail =~= tail);
    } else {
        lemma_kept_cells_push(cells.skip(1), obs.skip(1), c, b);
        assert(cells.push(c)[0] == cells[0]);
        assert(obs.push(b)[0] == obs[0]);
        assert(cells.push(c).skip(1) =~= cells.skip(1).push(c));
        assert(obs.push(b).skip(1) =~= obs.skip(1).push(b));
        assert(kept_cells(cells.push(c), obs.push(b)) == (if obs[0].done_spec() {
            kept_cells(cells.skip(1), obs.skip(1)) + tail
        } else {
            seq![cells[0]] + (kept_cells(cells.skip(1), obs.skip(1)) + tail)
        }));
        assert(seq![cells[0]] + (kept_cells(cells.skip(1), obs.skip(1)) + tail) =~= (seq![
            cells[0],
        ] + kept_cells(cells.skip(1), obs.skip(1))) + tail);
    }
}

pub proof fn lemma_kept_count_le<B: IsBar>(obs: Seq<B>)
    ensures
        kept_count(obs) <= obs.len(),
    decreases obs.len(),
{
    if obs.len() > 0 {
        lemma_kept_count_le(obs.skip(1));
    }
}

pub proof fn lemma_kept_count_push<B: IsBar>(obs: Seq<B>, b: B)
    ensures
        kept_count(obs.push(b)) == kept_count(obs) + (if b.done_spec() {
            0 as nat
        } else {
            1 as nat
        }),
    decreases obs.len(),
{
    if obs.len() == 0 {
        assert(obs.push(b)[0] == b);
        assert(obs.push(b).skip(1) =~= Seq::<B>::empty());
        assert(kept_count(Seq::<B>::empty()) == 0);
    } else {
        lemma_kept_count_push(obs.skip(1), b);
        assert(obs.push(b)[0] == obs[0]);
        assert(obs.push(b).skip(1) =~= obs.skip(1).push(b));
    }
}

/// How many of the observed indicators leave a final frame behind: those
/// finished with an effective close method of `LeaveBehind`.
pub open spec fn leave_behind_count<B: IsBar>(obs: Seq<B>, default_close: BarCloseMethod) -> nat
    decreases obs.len(),
{
    if obs.len() == 0 {
        0
    } else {
        (if obs[0].done_spec() && effective_close(obs[0].close_spec(), default_close)
            == BarCloseMethod::LeaveBehind {
            1 as nat
        } else {
            0 as nat
        }) + leave_behind_count(obs.skip(1), default_close)
    }
}

/// The number of times `c` occurs in `s`.
pub open spec fn count_char(s: Seq<char>, c: char) -> nat
    decreases s.len(),
{
    if s.len() == 0 {
        0
    } else {
        (if s[0] == c {
            1 as nat
        } else {
            0 as nat
        }) + count_char(s.skip(1), c)
    }
}

pub proof fn lemma_count_char_concat(a: Seq<char>, b: Seq<char>, c: char)
    ensures
        count_char(a + b, c) == count_char(a, c) + count_char(b, c),
    decreases a.len(),
{
    if a.len() == 0 {
        assert(a + b =~= b);
    } else {
        assert((a + b)[0] == a[0]);
        assert((a + b).skip(1) =~= a.skip(1) + b);
        lemma_count_char_concat(a.skip(1), b, c);
    }
}

pub proof fn lemma_count_char_clean(s: Seq<char>)
    requires
        line_clean(s),
    ensures
        count_char(s, '\n') == 0,
    decreases s.len(),
{
    if s.len() > 0 {
        assert(forall|i: int| 0 <= i < s.skip(1).len() ==> #[trigger] s.skip(1)[i] == s[i + 1]);
        lemma_count_char_clean(s.skip(1));
    }
}

/// One terminal line per indicator: a pass over a registry emits exactly
/// one newline for each indicator that stays tracked, one more for each
/// finished indicator that leaves its final frame behind, and none for a
/// finished indicator that is cleared.
pub proof fn lemma_pass_output_line_count<B: IsBar>(
    obs: Seq<B>,
    lines: Seq<Seq<char>>,
    default_close: BarCloseMethod,
)
    requires
        lines.len() == obs.len(),
        forall|i: int| 0 <= i < lines.len() ==> line_clean(#[trigger] lines[i]),
    ensures
        count_char(pass_output(obs, lines, default_close), '\n') == kept_count(obs)
            + leave_behind_count(obs, default_close),
    decreases obs.len(),
{
    if obs.len() > 0 {
        assert(forall|i: int|
            0 <= i < lines.skip(1).len() ==> #[trigger] lines.skip(1)[i] == lines[i + 1]);
        lemma_pass_output_line_count(obs.skip(1), lines.skip(1), default_close);
        lemma_count_char_concat(
            emits(obs[0], lines[0], default_close),
            pass_output(obs.skip(1), lines.skip(1), default_close),
            '\n',
        );
        lemma_count_char_clean(lines[0]);
        if !obs[0].done_spec() || effective_close(obs[0].close_spec(), default_close)
            == BarCloseMethod::LeaveBehind {
            lemma_count_char_concat(lines[0], seq!['\n'], '\n');
            assert(seq!['\n'][0] == '\n');
            assert(seq!['\n'].skip(1) =~= Seq::<char>::empty());
            assert(count_char(Seq::<char>::empty(), '\n') == 0);
            assert(count_char(seq!['\n'], '\n') == 1);
        }
    }
}

/// Registration order is kept: a pass's output splits around the fragment
/// of the indicator at any position, with earlier indicators wholly before
/// it and later ones wholly after it.
pub proof fn lemma_pass_output_split<B: IsBar>(
    obs: Seq<B>,
    lines: Seq<Seq<char>>,
    default_close: BarCloseMethod,
    i: int,
)
    requires
        lines.len() == obs.len(),
        0 <= i < obs.len(),
    ensures
        pass_output(obs, lines, default_close) == pass_output(
            obs.take(i),
            lines.take(i),
            default_close,
        ) + emits(obs[i], lines[i], default_close) + pass_output(
            obs.skip(i + 1),
            lines.skip(i + 1),
            default_close,
        ),
    decreases i,
{
    if i == 0 {
        assert(obs.take(0) =~= Seq::<B>::empty());
        assert(lines.take(0) =~= Seq::<Seq<char>>::empty());
        assert(obs.skip(1) =~= obs.skip(0int + 1));
        assert(Seq::<char>::empty() + emits(obs[0], lines[0], default_close) =~= emits(
            obs[0],
            lines[0],
            default_close,
        ));
    } else {
        lemma_pass_output_split(obs.skip(1), lines.skip(1), default_close, i - 1);
        assert(obs.skip(1).take(i - 1) =~= obs.take(i).skip(1));
        assert(lines.skip(1).take(i - 1) =~= lines.take(i).skip(1));
        assert(obs.skip(1)[i - 1] == obs[i]);
        assert(lines.skip(1)[i - 1] == lines[i]);
        assert(obs.skip(1).skip(i - 1 + 1) =~= obs.skip(i + 1));
        assert(lines.skip(1).skip(i - 1 + 1) =~= lines.skip(i + 1));
        let head = emits(obs[0], lines[0], default_close);
        let a = pass_output(obs.take(i).skip(1), lines.take(i).skip(1), default_close);
        let m = emits(obs[i], lines[i], default_close);
        let t = pass_output(obs.skip(i + 1), lines.skip(i + 1), default_close);
        assert(pass_output(obs, lines, default_close) == head + (a + m + t));
        assert(obs.take(i)[0] == obs[0]);
        assert(lines.take(i)[0] == lines[0]);
        assert(pass_output(obs.take(i), lines.take(i), default_close) == head + a);
        assert(head + (a + m + t) =~= (head + a) + m + t);
    }
}

/// Two indicators registered in order keep that order in the output: the
/// pass's output holds the earlier one's fragment before the later one's.
pub proof fn lemma_pass_output_order<B: IsBar>(
    obs: Seq<B>,
    lines: Seq<Seq<char>>,
    default_close: BarCloseMethod,
    i: int,
    j: int,
)
    requires
        lines.len() == obs.len(),
        0 <= i < j < obs.len(),
    ensures
        exists|a: Seq<char>, m: Seq<char>, z: Seq<char>|
            pass_output(obs, lines, default_close) == a + emits(obs[i], lines[i], default_close)
                + m + emits(obs[j], lines[j], default_close) + z,
{
    lemma_pass_output_split(obs, lines, default_close, i);
    lemma_pass_output_split(obs.skip(i + 1), lines.skip(i + 1), default_close, j - i - 1);
    let a = pass_output(obs.take(i), lines.take(i), default_close);
    let ei = emits(obs[i], lines[i], default_close);
    let m = pass_output(
        obs.skip(i + 1).take(j - i - 1),
        lines.skip(i + 1).take(j - i - 1),
        default_close,
    );
    assert(obs.skip(i + 1)[j - i - 1] == obs[j]);
    assert(lines.skip(i + 1)[j - i - 1] == lines[j]);
    let ej = emits(obs[j], lines[j], default_close);
    let z = pass_output(
        obs.skip(i + 1).skip(j - i),
        lines.skip(i + 1).skip(j - i),
        default_close,
    );
    assert(pass_output(obs, lines, default_close) == a + ei + (m + ej + z));
    assert(a + ei + (m + ej + z) =~= a + ei + m + ej + z);
    assert(pass_output(obs, lines, default_close) == (a + ei) + m + ej + z);
}

/// Processes one indicator that was taken out of its cell: decides whether
/// it stays tracked and what it contributes to the redraw, per the close
/// method policy.
fn render_step<B: IsBar>(bar: &mut B, default_close: BarCloseMethod) -> (r: Result<
    (String, bool, Ghost<Seq<char>>),
    BarDisplayError,
>)
    ensures
        r matches Ok(p) ==> {
            &&& p.1 == !old(bar).done_spec()
            &&& line_clean(p.2@)
            &&& p.0@ == emits(*old(bar), p.2@, default_close)
        },
{
    if bar.is_done() {
        let close = match bar.close_method() {
            Some(c) => c,
            None => default_close,
        };
        match close {
            BarCloseMethod::Clear => {
                let frag = String::new();
                proof {
                    assert(line_clean(Seq::<char>::empty()));
                    assert(frag@ == emits(*old(bar), Seq::<char>::empty(), default_close));
                }
                Ok((frag, false, Ghost(Seq::empty())))
            },
            BarCloseMethod::LeaveBehind => {
                match bar.display() {
                    Ok(mut line) => {
                        let ghost l = line@;
                        line.push('\n');
                        proof {
                            assert(l.push('\n') =~= l + seq!['\n']);
                            assert(line@ == emits(*old(bar), l, default_close));
                        }
                        Ok((line, false, Ghost(l)))
                    },
                    Err(e) => Err(e),
                }
            },
        }
    } else {
        match bar.display() {
            Ok(mut line) => {
                let ghost l = line@;
                line.push('\n');
                proof {
                    assert(l.push('\n') =~= l + seq!['\n']);
                    assert(line@ == emits(*old(bar), l, default_close));
                }
                Ok((line, true, Ghost(l)))
            },
            Err(e) => Err(e),
        }
    }
}

/// What a successful redraw guarantees, for some observed indicator states
/// `obs1`/`obs2` and rendered lines `lines1`/`lines2`: the output is the
/// escape prefix over the previous frame, the queued text in order, then
/// the single-threaded pass's output followed by the thread-safe pass's;
/// and each registry keeps exactly its observed indicators that were not
/// finished.
pub open spec fn render_post<B: IsBar>(
    pre: BarManager<B>,
    post: BarManager<B>,
    out: Seq<char>,
    obs1: Seq<B>,
    lines1: Seq<Seq<char>>,
    obs2: Seq<B>,
    lines2: Seq<Seq<char>>,
) -> bool {
    &&& obs1.len() == pre.bars_count()
    &&& lines1.len() == obs1.len()
    &&& obs2.len() == pre.threaded_count()
    &&& lines2.len() == obs2.len()
    &&& (forall|i: int| 0 <= i < lines1.len() ==> line_clean(#[trigger] lines1[i]))
    &&& (forall|i: int| 0 <= i < lines2.len() ==> line_clean(#[trigger] lines2[i]))
    &&& out == redraw_prefix(pre.last_lines_spec()) + concat_frags(pre.queue_spec())
        + pass_output(obs1, lines1, pre.default_close_spec()) + pass_output(
        obs2,
        lines2,
        pre.default_close_spec(),
    )
    &&& post.bars_seq() == kept_cells(pre.bars_seq(), obs1)
    &&& post.threaded_seq() == kept_cells(pre.threaded_seq(), obs2)
    &&& post.bars_count() == kept_count(obs1)
    &&& post.threaded_count() == kept_count(obs2)
}

/// One terminal line per indicator, at the redraw level: in any witness of
/// a successful redraw, the indicator section of the output holds exactly
/// one newline for each indicator still tracked afterwards, plus one for
/// each finished indicator that left its final frame behind — so a
/// finished indicator with `Clear` contributes no line from the redraw
/// that evicts it, and one with `LeaveBehind` contributes exactly one
/// more.
pub proof fn lemma_render_line_count<B: IsBar>(
    pre: BarManager<B>,
    post: BarManager<B>,
    out: Seq<char>,
    obs1: Seq<B>,
    lines1: Seq<Seq<char>>,
    obs2: Seq<B>,
    lines2: Seq<Seq<char>>,
)
    requires
        render_post(pre, post, out, obs1, lines1, obs2, lines2),
    ensures
        count_char(
            pass_output(obs1, lines1, pre.default_close_spec()) + pass_output(
                obs2,
                lines2,
                pre.default_close_spec(),
            ),
            '\n',
        ) == post.bars_count() + post.threaded_count() + leave_behind_count(
            obs1,
            pre.default_close_spec(),
        ) + leave_behind_count(obs2, pre.default_close_spec()),
{
    let d = pre.default_close_spec();
    lemma_pass_output_line_count(obs1, lines1, d);
    lemma_pass_output_line_count(obs2, lines2, d);
    lemma_count_char_concat(
        pass_output(obs1, lines1, d),
        pass_output(obs2, lines2, d),
        '\n',
    );
}

/// A successful redraw relates the manager's old and new states and the
/// output as [`render_post`] says, for some observed indicator states and
/// rendered lines.
pub open spec fn render_ok<B: IsBar>(
    pre: BarManager<B>,
    post: BarManager<B>,
    out: Seq<char>,
) -> bool {
    exists|obs1: Seq<B>, lines1: Seq<Seq<char>>, obs2: Seq<B>, lines2: Seq<Seq<char>>|
        #[trigger] render_post(pre, post, out, obs1, lines1, obs2, lines2)
}

/// A failed redraw's partial progress, for some observed prefixes of the
/// two registries: each registry holds the kept cells of the prefix the
/// pass reached, in their original order, followed by the unprocessed
/// tail exactly as it was.  Survivors are never added to or reordered.
pub open spec fn render_stopped<B: IsBar>(
    pre: BarManager<B>,
    post: BarManager<B>,
    obs1: Seq<B>,
    obs2: Seq<B>,
) -> bool {
    &&& obs1.len() <= pre.bars_seq().len()
    &&& obs2.len() <= pre.threaded_seq().len()
    &&& post.bars_seq() == kept_cells(pre.bars_seq().take(obs1.len() as int), obs1)
        + pre.bars_seq().skip(obs1.len() as int)
    &&& post.threaded_seq() == kept_cells(pre.threaded_seq().take(obs2.len() as int), obs2)
        + pre.threaded_seq().skip(obs2.len() as int)
}

/// A failed redraw relates the registries' old and new states as
/// [`render_stopped`] says, for some observed prefixes.
pub open spec fn render_partial<B: IsBar>(pre: BarManager<B>, post: BarManager<B>) -> bool {
    exists|obs1: Seq<B>, obs2: Seq<B>| #[trigger] render_stopped(pre, post, obs1, obs2)
}

/// A halt during the single-threaded pass leaves the redraw's partial
/// progress: the kept prefix of that registry plus its unprocessed tail,
/// with the thread-safe registry untouched.
proof fn lemma_render_halt_single<B: IsBar>(
    pre: BarManager<B>,
    post: BarManager<B>,
    obs1: Seq<B>,
)
    requires
        obs1.len() <= pre.bars_seq().len(),
        post.bars_seq() == kept_cells(pre.bars_seq().take(obs1.len() as int), obs1)
            + pre.bars_seq().skip(obs1.len() as int),
        post.threaded_seq() == pre.threaded_seq(),
    ensures
        render_partial(pre, post),
{
    let e: Seq<B> = Seq::empty();
    assert(pre.threaded_seq().take(0) =~= Seq::<SharedBar<B>>::empty());
    assert(kept_cells(pre.threaded_seq().take(0), e) == Seq::<SharedBar<B>>::empty());
    assert(Seq::<SharedBar<B>>::empty() + pre.threaded_seq().skip(0) =~= pre.threaded_seq());
    assert(render_stopped(pre, post, obs1, e));
}

/// A halt during the thread-safe pass leaves the single-threaded registry
/// fully swept and the thread-safe registry's kept prefix plus its
/// unprocessed tail.
proof fn lemma_render_halt_threaded<B: IsBar>(
    pre: BarManager<B>,
    post: BarManager<B>,
    obs1: Seq<B>,
    obs2: Seq<B>,
)
    requires
        obs1.len() == pre.bars_seq().len(),
        post.bars_seq() == kept_cells(pre.bars_seq(), obs1),
        obs2.len() <= pre.threaded_seq().len(),
        post.threaded_seq() == kept_cells(pre.threaded_seq().take(obs2.len() as int), obs2)
            + pre.threaded_seq().skip(obs2.len() as int),
    ensures
        render_partial(pre, post),
{
    assert(pre.bars_seq().take(obs1.len() as int) =~= pre.bars_seq());
    assert(pre.bars_seq().skip(obs1.len() as int) =~= Seq::<CellBar<B>>::empty());
    assert(kept_cells(pre.bars_seq(), obs1) + Seq::<CellBar<B>>::empty() =~= kept_cells(
        pre.bars_seq(),
        obs1,
    ));
    assert(render_stopped(pre, post, obs1, obs2));
}

/// The registry/redraw engine: owns both registries of live indicators,
/// the queue of pending text, and the line count of the previous redraw.
///
/// Indicators registered thread-safe are always drawn after those
/// registered single-threaded; within each registry, registration order is
/// kept.
///
/// One manager tracks indicators of a single renderer type `B`; to mix
/// renderer kinds behind one manager, wrap them in one enum that
/// implements the renderer contract.
#[verifier::reject_recursive_types(B)]
pub struct BarManager<B: IsBar> {
    bars: Vec<CellBar<B>>,
    threaded_bars: Vec<SharedBar<B>>,
    default_bar_close_method: BarCloseMethod,
    print_queue: Vec<String>,
    last_lines: usize,
}

impl<B: IsBar> BarManager<B> {
    /// The single-threaded registry: its cells in registration order.
    pub closed spec fn bars_seq(&self) -> Seq<CellBar<B>> {
        self.bars@
    }

    /// The thread-safe registry: its cells in registration order.
    pub closed spec fn threaded_seq(&self) -> Seq<SharedBar<B>> {
        self.threaded_bars@
    }

    /// The number of single-threaded indicators currently tracked.
    pub closed spec fn bars_count(&self) -> nat {
        self.bars@.len()
    }

    /// The number of thread-safe indicators currently tracked.
    pub closed spec fn threaded_count(&self) -> nat {
        self.threaded_bars@.len()
    }

    /// The queued text fragments, in insertion order.
    pub closed spec fn queue_spec(&self) -> Seq<Seq<char>> {
        self.print_queue@.map_values(|s: String| s@)
    }

    /// The terminal lines the previous redraw drew.
    pub closed spec fn last_lines_spec(&self) -> nat {
        self.last_lines as nat
    }

    /// The close method for finished indicators that express no
    /// preference.
    pub closed spec fn default_close_spec(&self) -> BarCloseMethod {
        self.default_bar_close_method
    }

    /// Creates a manager with no indicators, no queued text, and
    /// `LeaveBehind` as the default close method.
    pub fn new() -> (m: BarManager<B>)
        ensures
            m.bars_count() == 0,
            m.threaded_count() == 0,
            m.queue_spec().len() == 0,
            m.last_lines_spec() == 0,
            m.default_close_spec() == BarCloseMethod::LeaveBehind,
    {
        BarManager {
            bars: Vec::new(),
            threaded_bars: Vec::new(),
            default_bar_close_method: BarCloseMethod::LeaveBehind,
            print_queue: Vec::new(),
            last_lines: 0,
        }
    }

    /// Creates a manager as [`BarManager::new`] does, with the given
    /// default close method.
    pub fn with_close_method(m: BarCloseMethod) -> (r: BarManager<B>)
        ensures
            r.bars_count() == 0,
            r.threaded_count() == 0,
            r.queue_spec().len() == 0,
            r.last_lines_spec() == 0,
            r.default_close_spec() == m,
    {
        BarManager {
            bars: Vec::new(),
            threaded_bars: Vec::new(),
            default_bar_close_method: m,
            print_queue: Vec::new(),
            last_lines: 0,
        }
    }

    /// Registers an indicator: stores one handle to its fresh cell in the
    /// single-threaded registry and returns another to the caller.  No
    /// side effect on the terminal.
    pub fn register(&mut self, bar: B) -> (w: BarWrapper<B>)
        ensures
            final(self).bars_count() == old(self).bars_count() + 1,
            final(self).bars_seq().take(old(self).bars_seq().len() as int) == old(
                self,
            ).bars_seq(),
            final(self).threaded_seq() == old(self).threaded_seq(),
            final(self).threaded_count() == old(self).threaded_count(),
            final(self).queue_spec() == old(self).queue_spec(),
            final(self).last_lines_spec() == old(self).last_lines_spec(),
            final(self).default_close_spec() == old(self).default_close_spec(),
    {
        let cell = CellBar::new(bar);
        let handle = cell.share();
        self.bars.push(cell);
        proof {
            assert(self.bars@.take(old(self).bars@.len() as int) =~= old(self).bars@);
        }
        BarWrapper::attach(handle)
    }

    /// Like [`BarManager::register`], but the cell is mutex-guarded and
    /// the handle can be used across threads.  Thread-safe indicators are
    /// always drawn after single-threaded ones.
    pub fn register_threadsafe(&mut self, bar: B) -> (w: ThreadedBarWrapper<B>)
        ensures
            final(self).threaded_count() == old(self).threaded_count() + 1,
            final(self).threaded_seq().take(old(self).threaded_seq().len() as int) == old(
                self,
            ).threaded_seq(),
            final(self).bars_seq() == old(self).bars_seq(),
            final(self).bars_count() == old(self).bars_count(),
            final(self).queue_spec() == old(self).queue_spec(),
            final(self).last_lines_spec() == old(self).last_lines_spec(),
            final(self).default_close_spec() == old(self).default_close_spec(),
    {
        let cell = SharedBar::new(bar);
        let handle = cell.share();
        self.threaded_bars.push(cell);
        proof {
            assert(self.threaded_bars@.take(old(self).threaded_bars@.len() as int) =~= old(
                self,
            ).threaded_bars@);
        }
        ThreadedBarWrapper::attach(handle)
    }

    /// Queues text to print before the indicator block on the next redraw.
    /// Does not touch the terminal, and the text is never erased by later
    /// redraws.
    pub fn queue_text(&mut self, text: &str)
        ensures
            final(self).queue_spec() == old(self).queue_spec().push(text@),
            final(self).bars_seq() == old(self).bars_seq(),
            final(self).threaded_seq() == old(self).threaded_seq(),
            final(self).last_lines_spec() == old(self).last_lines_spec(),
            final(self).default_close_spec() == old(self).default_close_spec(),
    {
        self.print_queue.push(text.to_owned());
        proof {
            assert(self.print_queue@.map_values(|s: String| s@) =~= old(self).print_queue@
                .map_values(|s: String| s@).push(text@));
        }
    }

    /// Queues text followed by a newline, the line-oriented convenience
    /// over [`BarManager::queue_text`].
    pub fn queue_line(&mut self, text: &str)
        ensures
            final(self).queue_spec() == old(self).queue_spec().push(text@ + seq!['\n']),
            final(self).bars_seq() == old(self).bars_seq(),
            final(self).threaded_seq() == old(self).threaded_seq(),
            final(self).last_lines_spec() == old(self).last_lines_spec(),
            final(self).default_close_spec() == old(self).default_close_spec(),
    {
        let mut s = text.to_owned();
        s.push('\n');
        proof {
            assert(s@ =~= text@ + seq!['\n']);
        }
        self.print_queue.push(s);
        proof {
            assert(self.print_queue@.map_values(|s: String| s@) =~= old(self).print_queue@
                .map_values(|s: String| s@).push(text@ + seq!['\n']));
        }
    }

    /// The number of terminal lines the previous redraw drew, which the
    /// next redraw's cursor-up escape will move over.
    pub fn last_lines(&self) -> (n: usize)
        ensures
            n as nat == self.last_lines_spec(),
    {
        self.last_lines
    }

    /// The number of text fragments waiting to be printed.
    pub fn queued_count(&self) -> (n: usize)
        ensures
            n as nat == self.queue_spec().len(),
    {
        self.print_queue.len()
    }

    /// Composes one redraw and applies the finalize/eviction sweep, without
    /// writing to the terminal: the output starts with a cursor-up escape
    /// over the previous frame's lines (when any were drawn) and a
    /// clear-to-end-of-screen escape, then the queued text in order, then
    /// one line per indicator — the single-threaded registry first, in
    /// registration order, then the thread-safe registry.  Finished
    /// indicators leave the registries, contributing one final line when
    /// their effective close method is `LeaveBehind` and nothing when it is
    /// `Clear`; afterwards `last_lines` equals the count of indicators
    /// still tracked.
    ///
    /// On failure the composed text is discarded, the queue stays drained,
    /// `last_lines` is unchanged, and indicators already processed keep
    /// their effects.
    #[verifier::loop_isolation(false)]
    #[verifier::rlimit(60)]
    pub fn render(&mut self) -> (r: Result<String, RenderError>)
        requires
            old(self).bars_count() + old(self).threaded_count() <= usize::MAX,
        ensures
            final(self).default_close_spec() == old(self).default_close_spec(),
            final(self).queue_spec().len() == 0,
            old(self).bars_count() == 0 && old(self).threaded_count() == 0 ==> r is Ok,
            r matches Err(_) ==> final(self).last_lines_spec() == old(self).last_lines_spec(),
            r matches Err(_) ==> render_partial(*old(self), *final(self)),
            final(self).bars_count() <= old(self).bars_count(),
            final(self).threaded_count() <= old(self).threaded_count(),
            r matches Ok(out) ==> final(self).last_lines_spec() == final(self).bars_count()
                + final(self).threaded_count(),
            r matches Ok(out) ==> render_ok(*old(self), *final(self), out@),
    {
        let ghost d = old(self).default_close_spec();
        let ghost prefix_part = redraw_prefix(old(self).last_lines_spec());
        let ghost qpart = concat_frags(old(self).queue_spec());
        let mut out = String::new();
        if self.last_lines != 0 {
            out.push('\x1b');
            out.push('[');
            let digits = usize_to_chars(self.last_lines);
            let ds = chars_to_string(&digits);
            out.push_str(ds.as_str());
            out.push('F');
        }
        out.push('\x1b');
        out.push('[');
        out.push('0');
        out.push('J');
        proof {
            assert(out@ =~= prefix_part);
        }
        let mut qi: usize = 0;
        while qi < self.print_queue.len()
            invariant
                *self == *old(self),
                qi <= self.print_queue@.len(),
                out@ == redraw_prefix(old(self).last_lines_spec()) + concat_frags(
                    old(self).queue_spec().take(qi as int),
                ),
            decreases self.print_queue@.len() - qi,
        {
            out.push_str(self.print_queue[qi].as_str());
            proof {
                let q = old(self).queue_spec();
                assert(q[qi as int] == self.print_queue@[qi as int]@);
                assert(q.take(qi + 1) =~= q.take(qi as int).push(q[qi as int]));
                lemma_concat_frags_push(q.take(qi as int), q[qi as int]);
                assert(redraw_prefix(old(self).last_lines_spec()) + concat_frags(
                    q.take(qi as int),
                ) + q[qi as int] =~= redraw_prefix(old(self).last_lines_spec()) + concat_frags(
                    q.take(qi + 1),
                ));
            }
            qi += 1;
        }
        proof {
            assert(old(self).queue_spec().take(self.print_queue@.len() as int) =~= old(
                self,
            ).queue_spec());
        }
        self.print_queue.clear();
        let ghost pre_bars = self.bars@;
        let ghost mut obs1: Seq<B> = Seq::empty();
        let ghost mut lines1: Seq<Seq<char>> = Seq::empty();
        let ghost mut processed: int = 0;
        let mut i: usize = 0;
        proof {
            assert(out@ + pass_output(obs1, lines1, d) =~= out@);
            assert(self.bars@.skip(0) =~= pre_bars.skip(0));
            assert(self.bars@.take(0) =~= Seq::<CellBar<B>>::empty());
            assert(pre_bars.take(0) =~= Seq::<CellBar<B>>::empty());
            assert(kept_cells(pre_bars.take(0), obs1) == Seq::<CellBar<B>>::empty());
        }
        while i < self.bars.len()
            invariant
                self.threaded_bars@ == old(self).threaded_bars@,
                self.default_bar_close_method == old(self).default_bar_close_method,
                self.print_queue@.len() == 0,
                self.last_lines == old(self).last_lines,
                pre_bars == old(self).bars@,
                obs1.len() == processed,
                lines1.len() == processed,
                0 <= processed <= pre_bars.len(),
                i as int <= processed,
                i as int == kept_count(obs1),
                i <= self.bars@.len(),
                self.bars@.len() == i + pre_bars.len() - processed,
                self.bars@.skip(i as int) == pre_bars.skip(processed),
                self.bars@.take(i as int) == kept_cells(pre_bars.take(processed), obs1),
                forall|k: int| 0 <= k < lines1.len() ==> line_clean(#[trigger] lines1[k]),
                out@ == prefix_part + qpart + pass_output(obs1, lines1, d),
            decreases pre_bars.len() - processed,
        {
            let outcome = self.bars[i].try_take();
            match outcome {
                TakeOutcome::Taken(b) => {
                    let mut b = b;
                    let ghost pre_b = b;
                    let step = render_step(&mut b, self.default_bar_close_method);
                    match step {
                        Ok((frag, keep, gline)) => {
                            out.push_str(frag.as_str());
                            let ghost l = gline@;
                            let ghost obs1_0 = obs1;
                            let ghost lines1_0 = lines1;
                            proof {
                                lemma_pass_output_push(obs1_0, lines1_0, d, pre_b, l);
                                lemma_kept_count_push(obs1_0, pre_b);
                                obs1 = obs1_0.push(pre_b);
                                lines1 = lines1_0.push(l);
                                processed = processed + 1;
                                assert(frag@ == emits(pre_b, l, d));
                                assert(prefix_part + qpart + pass_output(obs1_0, lines1_0, d)
                                    + frag@ =~= prefix_part + qpart + (pass_output(
                                    obs1_0,
                                    lines1_0,
                                    d,
                                ) + emits(pre_b, l, d)));
                                assert(out@ == prefix_part + qpart + pass_output(obs1, lines1, d));
                            }
                            if keep {
                                self.bars[i].put(b);
                                i += 1;
                                proof {
                                    assert forall|k: int|
                                        0 <= k < self.bars@.skip(i as int).len() implies self.bars@
                                        .skip(i as int)[k] == pre_bars.skip(processed)[k] by {
                                        assert(self.bars@.skip(i as int)[k] == self.bars@.skip(
                                            i - 1,
                                        )[k + 1]);
                                        assert(pre_bars.skip(processed)[k] == pre_bars.skip(
                                            processed - 1,
                                        )[k + 1]);
                                    }
                                    assert(self.bars@.skip(i as int) =~= pre_bars.skip(processed));
                                    let kept0 = kept_cells(pre_bars.take(processed - 1), obs1_0);
                                    assert(self.bars@.skip(i - 1)[0] == self.bars@[i - 1]);
                                    assert(pre_bars.skip(processed - 1)[0] == pre_bars[processed
                                        - 1]);
                                    assert(self.bars@[i - 1] == pre_bars[processed - 1]);
                                    assert(pre_bars.take(processed) =~= pre_bars.take(
                                        processed - 1,
                                    ).push(pre_bars[processed - 1]));
                                    lemma_kept_cells_push(
                                        pre_bars.take(processed - 1),
                                        obs1_0,
                                        pre_bars[processed - 1],
                                        pre_b,
                                    );
                                    assert(kept0 + seq![pre_bars[processed - 1]] =~= kept0.push(
                                        pre_bars[processed - 1],
                                    ));
                                    assert(self.bars@.take(i as int) =~= self.bars@.take(
                                        i - 1,
                                    ).push(self.bars@[i - 1]));
                                    assert(self.bars@.take(i as int) == kept_cells(
                                        pre_bars.take(processed),
                                        obs1,
                                    ));
                                }
                            } else {
                                let ghost before = self.bars@;
                                let _ = self.bars.remove(i);
                                proof {
                                    assert forall|k: int|
                                        0 <= k < self.bars@.skip(i as int).len() implies self.bars@
                                        .skip(i as int)[k] == pre_bars.skip(processed)[k] by {
                                        assert(self.bars@[i + k] == before[i + k + 1]);
                                        assert(before[i + k + 1] == before.skip(i as int)[k + 1]);
                                        assert(pre_bars.skip(processed)[k] == pre_bars.skip(
                                            processed - 1,
                                        )[k + 1]);
                                    }
                                    assert(self.bars@.skip(i as int) =~= pre_bars.skip(processed));
                                    let kept0 = kept_cells(pre_bars.take(processed - 1), obs1_0);
                                    assert(before.skip(processed - processed)[0] == before[0]);
                                    assert(pre_bars.take(processed) =~= pre_bars.take(
                                        processed - 1,
                                    ).push(pre_bars[processed - 1]));
                                    lemma_kept_cells_push(
                                        pre_bars.take(processed - 1),
                                        obs1_0,
                                        pre_bars[processed - 1],
                                        pre_b,
                                    );
                                    assert(kept0 + Seq::<CellBar<B>>::empty() =~= kept0);
                                    assert forall|k: int|
                                        0 <= k < i implies self.bars@.take(i as int)[k]
                                        == before.take(i as int)[k] by {
                                        assert(self.bars@[k] == before[k]);
                                    }
                                    assert(self.bars@.take(i as int) =~= before.take(i as int));
                                    assert(self.bars@.take(i as int) == kept_cells(
                                        pre_bars.take(processed),
                                        obs1,
                                    ));
                                }
                            }
                        },
                        Err(e) => {
                            self.bars[i].put(b);
                            proof {
                                assert(has_resolved(self));
                                assert(self.bars@ =~= self.bars@.take(i as int) + self.bars@.skip(
                                    i as int,
                                ));
                                lemma_render_halt_single(*old(self), *self, obs1);
                                assert(render_partial(*old(self), *final(self)));
                            }
                            return Err(RenderError::Display(e));
                        },
                    }
                },
                TakeOutcome::Gone => {
                    proof {
                        assert(has_resolved(self));
                        assert(self.bars@ =~= self.bars@.take(i as int) + self.bars@.skip(
                            i as int,
                        ));
                        lemma_render_halt_single(*old(self), *self, obs1);
                        assert(render_partial(*old(self), *final(self)));
                    }
                    return Err(RenderError::Acquisition);
                },
                TakeOutcome::TimedOut => {
                    proof {
                        assert(has_resolved(self));
                        assert(self.bars@ =~= self.bars@.take(i as int) + self.bars@.skip(
                            i as int,
                        ));
                        lemma_render_halt_single(*old(self), *self, obs1);
                        assert(render_partial(*old(self), *final(self)));
                    }
                    return Err(RenderError::Acquisition);
                },
            }
        }
        proof {
            assert(pre_bars.take(processed) =~= pre_bars);
            assert(self.bars@.take(i as int) =~= self.bars@);
            assert(self.bars@ == kept_cells(pre_bars, obs1));
        }
        let ghost pass1 = pass_output(obs1, lines1, d);
        let ghost pre_threaded = self.threaded_bars@;
        let ghost mut obs2: Seq<B> = Seq::empty();
        let ghost mut lines2: Seq<Seq<char>> = Seq::empty();
        let ghost mut processed2: int = 0;
        let mut j: usize = 0;
        proof {
            assert(out@ + pass_output(obs2, lines2, d) =~= out@);
            assert(self.threaded_bars@.skip(0) =~= pre_threaded.skip(0));
            assert(self.threaded_bars@.take(0) =~= Seq::<SharedBar<B>>::empty());
            assert(pre_threaded.take(0) =~= Seq::<SharedBar<B>>::empty());
            assert(kept_cells(pre_threaded.take(0), obs2) == Seq::<SharedBar<B>>::empty());
        }
        while j < self.threaded_bars.len()
            invariant
                self.default_bar_close_method == old(self).default_bar_close_method,
                self.print_queue@.len() == 0,
                self.last_lines == old(self).last_lines,
                pre_threaded == old(self).threaded_bars@,
                self.bars@.len() == kept_count(obs1),
                self.bars@ == kept_cells(old(self).bars@, obs1),
                obs1.len() == old(self).bars@.len(),
                lines1.len() == obs1.len(),
                forall|k: int| 0 <= k < lines1.len() ==> line_clean(#[trigger] lines1[k]),
                obs2.len() == processed2,
                lines2.len() == processed2,
                0 <= processed2 <= pre_threaded.len(),
                j as int <= processed2,
                j as int == kept_count(obs2),
                j <= self.threaded_bars@.len(),
                self.threaded_bars@.len() == j + pre_threaded.len() - processed2,
                self.threaded_bars@.skip(j as int) == pre_threaded.skip(processed2),
                self.threaded_bars@.take(j as int) == kept_cells(
                    pre_threaded.take(processed2),
                    obs2,
                ),
                forall|k: int| 0 <= k < lines2.len() ==> line_clean(#[trigger] lines2[k]),
                out@ == prefix_part + qpart + pass1 + pass_output(obs2, lines2, d),
                pass1 == pass_output(obs1, lines1, d),
            decreases pre_threaded.len() - processed2,
        {
            let outcome = self.threaded_bars[j].try_take_for(LOCK_WAIT_MS);
            match outcome {
                TakeOutcome::Taken(b) => {
                    let mut b = b;
                    let ghost pre_b = b;
                    let step = render_step(&mut b, self.default_bar_close_method);
                    match step {
                        Ok((frag, keep, gline)) => {
                            out.push_str(frag.as_str());
                            let ghost l = gline@;
                            let ghost obs2_0 = obs2;
                            let ghost lines2_0 = lines2;
                            proof {
                                lemma_pass_output_push(obs2_0, lines2_0, d, pre_b, l);
                                lemma_kept_count_push(obs2_0, pre_b);
                                obs2 = obs2_0.push(pre_b);
                                lines2 = lines2_0.push(l);
                                processed2 = processed2 + 1;
                                assert(frag@ == emits(pre_b, l, d));
                                assert(prefix_part + qpart + pass1 + pass_output(
                                    obs2_0,
                                    lines2_0,
                                    d,
                                ) + frag@ =~= prefix_part + qpart + pass1 + (pass_output(
                                    obs2_0,
                                    lines2_0,
                                    d,
                                ) + emits(pre_b, l, d)));
                                assert(out@ == prefix_part + qpart + pass1 + pass_output(
                                    obs2,
                                    lines2,
                                    d,
                                ));
                            }
                            if keep {
                                self.threaded_bars[j].put(b);
                                j += 1;
                                proof {
                                    assert forall|k: int|
                                        0 <= k < self.threaded_bars@.skip(j as int).len() implies
                                        self.threaded_bars@.skip(j as int)[k] == pre_threaded.skip(
                                        processed2,
                                    )[k] by {
                                        assert(self.threaded_bars@.skip(j as int)[k]
                                            == self.threaded_bars@.skip(j - 1)[k + 1]);
                                        assert(pre_threaded.skip(processed2)[k] == pre_threaded.skip(
                                            processed2 - 1,
                                        )[k + 1]);
                                    }
                                    assert(self.threaded_bars@.skip(j as int) =~= pre_threaded.skip(
                                        processed2,
                                    ));
                                    let kept0 = kept_cells(
                                        pre_threaded.take(processed2 - 1),
                                        obs2_0,
                                    );
                                    assert(self.threaded_bars@.skip(j - 1)[0]
                                        == self.threaded_bars@[j - 1]);
                                    assert(pre_threaded.skip(processed2 - 1)[0]
                                        == pre_threaded[processed2 - 1]);
                                    assert(self.threaded_bars@[j - 1] == pre_threaded[processed2
                                        - 1]);
                                    assert(pre_threaded.take(processed2) =~= pre_threaded.take(
                                        processed2 - 1,
                                    ).push(pre_threaded[processed2 - 1]));
                                    lemma_kept_cells_push(
                                        pre_threaded.take(processed2 - 1),
                                        obs2_0,
                                        pre_threaded[processed2 - 1],
                                        pre_b,
                                    );
                                    assert(kept0 + seq![pre_threaded[processed2 - 1]] =~= kept0.push(
                                        pre_threaded[processed2 - 1],
                                    ));
                                    assert(self.threaded_bars@.take(j as int)
                                        =~= self.threaded_bars@.take(j - 1).push(
                                        self.threaded_bars@[j - 1],
                                    ));
                                    assert(self.threaded_bars@.take(j as int) == kept_cells(
                                        pre_threaded.take(processed2),
                                        obs2,
                                    ));
                                }
                            } else {
                                let ghost before = self.threaded_bars@;
                                let _ = self.threaded_bars.remove(j);
                                proof {
                                    assert forall|k: int|
                                        0 <= k < self.threaded_bars@.skip(j as int).len() implies
                                        self.threaded_bars@.skip(j as int)[k] == pre_threaded.skip(
                                        processed2,
                                    )[k] by {
                                        assert(self.threaded_bars@[j + k] == before[j + k + 1]);
                                        assert(before[j + k + 1] == before.skip(j as int)[k + 1]);
                                        assert(pre_threaded.skip(processed2)[k] == pre_threaded.skip(
                                            processed2 - 1,
                                        )[k + 1]);
                                    }
                                    assert(self.threaded_bars@.skip(j as int) =~= pre_threaded.skip(
                                        processed2,
                                    ));
                                    let kept0 = kept_cells(
                                        pre_threaded.take(processed2 - 1),
                                        obs2_0,
                                    );
                                    assert(pre_threaded.take(processed2) =~= pre_threaded.take(
                                        processed2 - 1,
                                    ).push(pre_threaded[processed2 - 1]));
                                    lemma_kept_cells_push(
                                        pre_threaded.take(processed2 - 1),
                                        obs2_0,
                                        pre_threaded[processed2 - 1],
                                        pre_b,
                                    );
                                    assert(kept0 + Seq::<SharedBar<B>>::empty() =~= kept0);
                                    assert forall|k: int|
                                        0 <= k < j implies self.threaded_bars@.take(j as int)[k]
                                        == before.take(j as int)[k] by {
                                        assert(self.threaded_bars@[k] == before[k]);
                                    }
                                    assert(self.threaded_bars@.take(j as int) =~= before.take(
                                        j as int,
                                    ));
                                    assert(self.threaded_bars@.take(j as int) == kept_cells(
                                        pre_threaded.take(processed2),
                                        obs2,
                                    ));
                                }
                            }
                        },
                        Err(e) => {
                            self.threaded_bars[j].put(b);
                            proof {
                                assert(has_resolved(self));
                                assert(self.threaded_bars@ =~= self.threaded_bars@.take(j as int)
                                    + self.threaded_bars@.skip(j as int));
                                lemma_render_halt_threaded(*old(self), *self, obs1, obs2);
                                assert(render_partial(*old(self), *final(self)));
                            }
                            return Err(RenderError::Display(e));
                        },
                    }
                },
                TakeOutcome::Gone => {
                    proof {
                        assert(has_resolved(self));
                        assert(self.threaded_bars@ =~= self.threaded_bars@.take(j as int)
                            + self.threaded_bars@.skip(j as int));
                        lemma_render_halt_threaded(*old(self), *self, obs1, obs2);
                        assert(render_partial(*old(self), *final(self)));
                    }
                    return Err(RenderError::Acquisition);
                },
                TakeOutcome::TimedOut => {
                    proof {
                        assert(has_resolved(self));
                        assert(self.threaded_bars@ =~= self.threaded_bars@.take(j as int)
                            + self.threaded_bars@.skip(j as int));
                        lemma_render_halt_threaded(*old(self), *self, obs1, obs2);
                        assert(render_partial(*old(self), *final(self)));
                    }
                    return Err(RenderError::LockTimeout(BarLockTimeoutError));
                },
            }
        }
        proof {
            assert(pre_threaded.take(processed2) =~= pre_threaded);
            assert(self.threaded_bars@.take(j as int) =~= self.threaded_bars@);
            assert(self.threaded_bars@ == kept_cells(pre_threaded, obs2));
            lemma_kept_count_le(obs1);
            lemma_kept_count_le(obs2);
        }
        self.last_lines = self.bars.len() + self.threaded_bars.len();
        proof {
            assert(has_resolved(self));
            assert(render_post(*old(self), *final(self), out@, obs1, lines1, obs2, lines2));
            assert(render_ok(*old(self), *final(self), out@));
        }
        Ok(out)
    }

    /// The number of single-threaded indicators currently tracked.
    pub fn single_bar_count(&self) -> (n: usize)
        ensures
            n as nat == self.bars_count(),
    {
        self.bars.len()
    }

    /// The number of thread-safe indicators currently tracked.
    pub fn threaded_bar_count(&self) -> (n: usize)
        ensures
            n as nat == self.threaded_count(),
    {
        self.threaded_bars.len()
    }

    /// The number of indicators currently tracked, over both registries.
    pub fn bar_count(&self) -> (n: usize)
        requires
            self.bars_count() + self.threaded_count() <= usize::MAX,
        ensures
            n as nat == self.bars_count() + self.threaded_count(),
    {
        self.bars.len() + self.threaded_bars.len()
    }
}

impl<B: IsBar> Default for BarManager<B> {
    /// The same manager as [`BarManager::new`] creates.
    fn default() -> (m: BarManager<B>)
        ensures
            m.bars_count() == 0,
            m.threaded_count() == 0,
            m.queue_spec().len() == 0,
            m.last_lines_spec() == 0,
            m.default_close_spec() == BarCloseMethod::LeaveBehind,
    {
        BarManager::new()
    }
}

} // verus!
