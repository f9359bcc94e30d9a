use stati::bars::common::TermSizeError;
use stati::bars::common::TermWidthError;
use stati::bars::custom::BarElements;
use stati::bars::custom::Builder;
use stati::bars::custom::rate_chars;
use stati::bars::simple::SimpleBar;
use stati::bars::spinny::SpinniBuilder;
use stati::isbar::BarCloseMethod;
use stati::isbar::BarDisplayError;
use stati::isbar::IsBar;
use stati::subsets::IteratorProgress;

#[test]
fn simple_bar_line_at_zero_percent() {
    let bar = SimpleBar::new("job", 100);
    let line = bar.render_line(60).unwrap();
    let expected = format!("\rjob{}[---]   0%", " ".repeat(47));
    assert_eq!(line, expected);
}

#[test]
fn simple_bar_line_at_fifty_percent() {
    let mut bar = SimpleBar::new("job", 100);
    bar.set_progress(50);
    let line = bar.render_line(67).unwrap();
    let expected = format!("\rjob{}[=====-----]  50%", " ".repeat(47));
    assert_eq!(line, expected);
}

#[test]
fn simple_bar_line_at_hundred_percent() {
    let mut bar = SimpleBar::new("job", 10);
    bar.set_progress(10);
    let line = bar.render_line(60).unwrap();
    let expected = format!("\rjob{}[===] 100%", " ".repeat(47));
    assert_eq!(line, expected);
}

#[test]
fn simple_bar_overfull_is_drawn_full() {
    let mut bar = SimpleBar::new("job", 10);
    bar.set_progress(20);
    let line = bar.render_line(60).unwrap();
    let expected = format!("\rjob{}[===] 200%", " ".repeat(47));
    assert_eq!(line, expected);
}

#[test]
fn simple_bar_percentage_beyond_the_field_width() {
    let mut bar = SimpleBar::new("job", 1);
    bar.set_progress(usize::MAX);
    let line = bar.render_line(60).unwrap();
    let pct = (usize::MAX as u128) * 100;
    let expected = format!("\rjob{}[===]{}%", " ".repeat(47), pct);
    assert_eq!(line, expected);
}

#[test]
fn simple_bar_zero_hint_counts_as_complete() {
    let bar = SimpleBar::new("job", 0);
    let line = bar.render_line(60).unwrap();
    let expected = format!("\rjob{}[===] 100%", " ".repeat(47));
    assert_eq!(line, expected);
}

#[test]
fn simple_bar_narrow_terminal_does_not_fit() {
    let bar = SimpleBar::new("job", 100);
    let r = bar.render_line(56);
    assert!(matches!(r, Err(BarDisplayError::Size(TermSizeError))));
    assert!(bar.render_line(57).is_ok());
}

#[test]
fn simple_bar_name_loses_line_breaks() {
    let bar = SimpleBar::new("a\nb\rc", 100);
    let line = bar.render_line(60).unwrap();
    assert!(line.starts_with("\rabc "));
    assert!(!line[1..].contains('\n'));
    assert!(!line[1..].contains('\r'));
}

#[test]
fn simple_bar_set_name_via_contract() {
    let mut bar = SimpleBar::new("first", 100);
    bar.set_name(String::from("second"));
    let line = bar.render_line(60).unwrap();
    assert!(line.starts_with("\rsecond "));
    assert!(!line.contains("first"));
}

#[test]
fn done_is_idempotent_and_permanent() {
    let mut bar = SimpleBar::new("job", 100);
    assert!(!bar.is_done());
    bar.done();
    assert!(bar.is_done());
    let before = bar.render_line(60).unwrap();
    bar.done();
    assert!(bar.is_done());
    let after = bar.render_line(60).unwrap();
    assert_eq!(before, after);
}

#[test]
fn simple_bar_close_method_defers_to_manager() {
    let bar = SimpleBar::new("job", 100);
    assert!(bar.close_method().is_none());
}

#[test]
fn error_messages_name_the_failure() {
    assert_eq!(TermWidthError.message(), "failed to get terminal width");
    assert_eq!(TermSizeError.message(), "terminal too small for bar to fit");
    let e = BarDisplayError::Width(TermWidthError);
    assert_eq!(e.message(), "failed to get terminal width");
    let e = BarDisplayError::Size(TermSizeError);
    assert_eq!(e.message(), "terminal too small for bar to fit");
}

#[test]
fn custom_bar_line_with_default_glyphs() {
    let bar = Builder::new("job").fallback_width(100).build();
    let line = bar.render_line(100, 40).unwrap();
    let expected = format!("\rjob [{}]   0% 25.000 its/s", "-".repeat(75));
    assert_eq!(line, expected);
}

#[test]
fn custom_bar_rate_is_inf_when_no_time_passed() {
    let bar = Builder::new("job").build();
    let line = bar.render_line(100, 0).unwrap();
    let expected = format!("\rjob [{}]   0% inf its/s", "-".repeat(78));
    assert_eq!(line, expected);
}

#[test]
fn custom_bar_custom_glyphs_and_progress() {
    let mut bar = Builder::new("job")
        .hint(10)
        .filled("#")
        .empty(".")
        .start("<")
        .end(">")
        .unit("files")
        .build();
    bar.set_progress(5);
    let line = bar.render_line(50, 1000).unwrap();
    // fill region: 50 - (3 + 1 + 1 + 5 + 5 + 11) = 24 cells, half full
    let expected = format!("\rjob <{}{}>  50% 1.000 files/s", "#".repeat(12), ".".repeat(12));
    assert_eq!(line, expected);
}

#[test]
fn custom_bar_narrow_terminal_does_not_fit() {
    let bar = Builder::new("job").build();
    let r = bar.render_line(10, 40);
    assert!(matches!(r, Err(BarDisplayError::Size(TermSizeError))));
}

#[test]
fn custom_bar_set_name_strips_breaks() {
    let mut bar = Builder::new("job").build();
    bar.set_name(String::from("x\ny"));
    let line = bar.render_line(100, 0).unwrap();
    assert!(line.starts_with("\rxy "));
}

#[test]
fn custom_bar_elems_builder_replaces_glyph_set() {
    let bar = Builder::new("job").elems(BarElements::default()).build();
    let line = bar.render_line(100, 0).unwrap();
    assert!(line.contains('['));
    assert!(line.contains(']'));
    assert!(line.contains("its/s"));
}

#[test]
fn rate_readout_has_three_decimals() {
    let v: String = rate_chars(40).into_iter().collect();
    assert_eq!(v, "25.000");
    let v: String = rate_chars(3).into_iter().collect();
    assert_eq!(v, "333.333");
    let v: String = rate_chars(1700).into_iter().collect();
    assert_eq!(v, "0.588");
    let v: String = rate_chars(0).into_iter().collect();
    assert_eq!(v, "inf");
}

#[test]
fn spinner_line_and_ticking() {
    let mut s = SpinniBuilder::new(String::from("job"))
        .task_name(String::from("sub"))
        .tick_on_display(false)
        .build();
    assert_eq!(s.display().unwrap(), "\u{2801} job: sub");
    s.tick();
    assert_eq!(s.display().unwrap(), "\u{2801} job: sub");
    s.tick();
    assert_eq!(s.display().unwrap(), "\u{2809} job: sub");
    s.tick();
    assert_eq!(s.display().unwrap(), "\u{2819} job: sub");
    s.tick();
    assert_eq!(s.display().unwrap(), "\u{281a} job: sub");
}

#[test]
fn spinner_cycle_wraps_after_thirty_ticks() {
    let mut s = SpinniBuilder::new(String::from("job")).tick_on_display(false).build();
    let first = s.display().unwrap();
    for _ in 0..30 {
        s.tick();
    }
    assert_eq!(s.display().unwrap(), first);
}

#[test]
fn spinner_ticks_on_display_by_default() {
    let mut s = SpinniBuilder::new(String::from("job")).build();
    assert_eq!(s.display().unwrap(), "\u{2801} job: ");
    assert_eq!(s.display().unwrap(), "\u{2809} job: ");
}

#[test]
fn spinner_carries_close_method() {
    let s = SpinniBuilder::new(String::from("job"))
        .close_method(BarCloseMethod::Clear)
        .build();
    assert_eq!(s.close_method(), Some(BarCloseMethod::Clear));
    let s = SpinniBuilder::new(String::from("job")).build();
    assert_eq!(s.close_method(), Some(BarCloseMethod::LeaveBehind));
}

#[test]
fn spinner_renames_job_and_subtask() {
    let mut s = SpinniBuilder::new(String::from("a")).tick_on_display(false).build();
    s.set_job(String::from("left"));
    s.set_subtask(String::from("right"));
    assert_eq!(s.display().unwrap(), "\u{2801} left: right");
}
