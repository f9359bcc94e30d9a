use stati::bars::custom::Builder;
use stati::bars::simple::SimpleBar;
use stati::bars::spinny::Spinni;
use stati::bars::spinny::SpinniBuilder;
use stati::isbar::BarCloseMethod;
use stati::manager::BarManager;
use stati::manager::RenderError;
use stati::wrapper::IsBarWrapper;

fn quiet_spinner(name: &str) -> SpinniBuilder {
    SpinniBuilder::new(String::from(name)).tick_on_display(false)
}

#[test]
fn empty_manager_renders_only_the_clear_escape() {
    let mut m: BarManager<Spinni> = BarManager::new();
    let out = m.render().unwrap();
    assert_eq!(out, "\x1b[0J");
    assert_eq!(m.last_lines(), 0);
}

#[test]
fn first_redraw_skips_the_cursor_up_escape() {
    let mut m: BarManager<Spinni> = BarManager::new();
    let _w = m.register(quiet_spinner("job").build());
    let out = m.render().unwrap();
    assert_eq!(out, "\x1b[0J\u{2801} job: \n");
    assert_eq!(m.last_lines(), 1);
    let out = m.render().unwrap();
    assert_eq!(out, "\x1b[1F\x1b[0J\u{2801} job: \n");
    assert_eq!(m.last_lines(), 1);
}

#[test]
fn percentage_bar_scenario_with_fallback_width() {
    let mut m = BarManager::new();
    let _w = m.register(Builder::new("job").fallback_width(100).build());
    let out = m.render().unwrap();
    assert!(out.starts_with("\x1b[0J\rjob "));
    assert!(out.contains("   0% "));
    assert!(out.ends_with("its/s\n"));
    assert_eq!(out.matches('\n').count(), 1);
    assert_eq!(m.last_lines(), 1);
}

#[test]
fn clear_close_method_erases_the_indicator() {
    let mut m = BarManager::new();
    let w = m.register(quiet_spinner("job").close_method(BarCloseMethod::Clear).build());
    let out = m.render().unwrap();
    assert_eq!(out, "\x1b[0J\u{2801} job: \n");
    assert_eq!(m.last_lines(), 1);
    w.done().unwrap();
    let out = m.render().unwrap();
    assert_eq!(out, "\x1b[1F\x1b[0J");
    assert_eq!(m.last_lines(), 0);
    assert_eq!(m.bar_count(), 0);
}

#[test]
fn manager_default_applies_to_indicators_without_preference() {
    let mut m = BarManager::with_close_method(BarCloseMethod::Clear);
    let w = m.register(SimpleBar::new("job", 100));
    w.done().unwrap();
    // finished with the Clear default before the first redraw: the sweep
    // evicts it without ever rendering a line
    let out = m.render().unwrap();
    assert_eq!(out, "\x1b[0J");
    assert_eq!(m.last_lines(), 0);
    assert_eq!(m.bar_count(), 0);
}

#[test]
fn indicator_close_method_overrides_the_default() {
    let mut m = BarManager::new();
    let w = m.register(quiet_spinner("job").close_method(BarCloseMethod::Clear).build());
    m.render().unwrap();
    w.done().unwrap();
    let out = m.render().unwrap();
    assert_eq!(out, "\x1b[1F\x1b[0J");
    assert_eq!(m.bar_count(), 0);
}

#[test]
fn leave_behind_emits_the_final_frame_once() {
    let mut m = BarManager::new();
    let wa = m.register(quiet_spinner("a").build());
    let _wb = m.register(quiet_spinner("b").build());
    let out = m.render().unwrap();
    assert_eq!(out, "\x1b[0J\u{2801} a: \n\u{2801} b: \n");
    assert_eq!(m.last_lines(), 2);
    wa.done().unwrap();
    let out = m.render().unwrap();
    assert_eq!(out, "\x1b[2F\x1b[0J\u{2801} a: \n\u{2801} b: \n");
    assert_eq!(m.last_lines(), 1);
    assert_eq!(m.bar_count(), 1);
    let out = m.render().unwrap();
    assert_eq!(out, "\x1b[1F\x1b[0J\u{2801} b: \n");
    assert_eq!(m.last_lines(), 1);
}

#[test]
fn registration_order_is_kept_in_the_output() {
    let mut m = BarManager::new();
    let _w1 = m.register(quiet_spinner("first").build());
    let _w2 = m.register(quiet_spinner("second").build());
    let _w3 = m.register(quiet_spinner("third").build());
    let out = m.render().unwrap();
    assert_eq!(out, "\x1b[0J\u{2801} first: \n\u{2801} second: \n\u{2801} third: \n");
}

#[test]
fn threadsafe_indicators_render_after_single_threaded_ones() {
    let mut m = BarManager::new();
    let _wt = m.register_threadsafe(quiet_spinner("threaded").build());
    let _ws = m.register(quiet_spinner("single").build());
    let out = m.render().unwrap();
    assert_eq!(out, "\x1b[0J\u{2801} single: \n\u{2801} threaded: \n");
    assert_eq!(m.last_lines(), 2);
}

#[test]
fn queued_text_precedes_indicator_lines_in_order() {
    let mut m = BarManager::new();
    let _w = m.register(quiet_spinner("job").build());
    m.queue_text("a");
    m.queue_text("b");
    assert_eq!(m.queued_count(), 2);
    let out = m.render().unwrap();
    assert_eq!(out, "\x1b[0Jab\u{2801} job: \n");
    assert_eq!(m.queued_count(), 0);
}

#[test]
fn queue_line_appends_a_newline() {
    let mut m: BarManager<Spinni> = BarManager::new();
    m.queue_line("hello");
    let out = m.render().unwrap();
    assert_eq!(out, "\x1b[0Jhello\n");
    assert_eq!(m.queued_count(), 0);
    assert_eq!(m.last_lines(), 0);
}

#[test]
fn queued_text_is_not_reerased() {
    let mut m: BarManager<Spinni> = BarManager::new();
    m.queue_text("kept");
    let out = m.render().unwrap();
    assert_eq!(out, "\x1b[0Jkept");
    // the next redraw no longer holds the text, and moves over no lines
    let out = m.render().unwrap();
    assert_eq!(out, "\x1b[0J");
}

#[test]
fn render_fails_while_an_indicator_is_taken_out() {
    let mut m = BarManager::new();
    let w = m.register(quiet_spinner("job").build());
    let bar = w.try_take_bar().unwrap();
    let r = m.render();
    assert!(matches!(r, Err(RenderError::Acquisition)));
    // the redraw drained the queue but left the cursor bookkeeping alone
    assert_eq!(m.last_lines(), 0);
    w.put_bar(bar);
    let out = m.render().unwrap();
    assert_eq!(out, "\x1b[0J\u{2801} job: \n");
}

#[test]
fn eviction_keeps_later_indicators_in_order() {
    let mut m = BarManager::new();
    let _wa = m.register(quiet_spinner("a").build());
    let wb = m.register(quiet_spinner("b").close_method(BarCloseMethod::Clear).build());
    let _wc = m.register(quiet_spinner("c").build());
    m.render().unwrap();
    wb.done().unwrap();
    let out = m.render().unwrap();
    assert_eq!(out, "\x1b[3F\x1b[0J\u{2801} a: \n\u{2801} c: \n");
    assert_eq!(m.last_lines(), 2);
}

#[test]
fn threaded_registry_evicts_like_the_single_one() {
    let mut m = BarManager::new();
    let w = m.register_threadsafe(quiet_spinner("t").close_method(BarCloseMethod::Clear).build());
    let out = m.render().unwrap();
    assert_eq!(out, "\x1b[0J\u{2801} t: \n");
    w.done().unwrap();
    let out = m.render().unwrap();
    assert_eq!(out, "\x1b[1F\x1b[0J");
    assert_eq!(m.bar_count(), 0);
}
