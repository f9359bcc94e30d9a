use stati::bars::simple::SimpleBar;
use stati::bars::spinny::SpinniBuilder;
use stati::isbar::IsBar;
use stati::iterator::ProgressTracker;
use stati::manager::BarManager;
use stati::subsets::IteratorProgress;
use stati::wrapper::BarUnavailableError;
use stati::wrapper::IsBarWrapper;

#[test]
fn taking_twice_reports_unavailable() {
    let mut m = BarManager::new();
    let w = m.register(SimpleBar::new("job", 100));
    let bar = w.try_take_bar().unwrap();
    assert!(matches!(w.try_take_bar(), Err(BarUnavailableError)));
    assert!(matches!(w.done(), Err(BarUnavailableError)));
    w.put_bar(bar);
    assert!(w.try_take_bar().is_ok());
}

#[test]
fn handles_alias_one_indicator() {
    let mut m = BarManager::new();
    let w = m.register(SimpleBar::new("job", 100));
    let w2 = w.share();
    w.set_progress(50).unwrap();
    let bar = w2.try_take_bar().unwrap();
    let line = bar.render_line(67).unwrap();
    assert!(line.contains("  50%"));
    w2.put_bar(bar);
}

#[test]
fn wrapper_done_reaches_the_indicator() {
    let mut m = BarManager::new();
    let w = m.register(SimpleBar::new("job", 100));
    w.done().unwrap();
    let bar = w.try_take_bar().unwrap();
    assert!(bar.is_done());
    w.put_bar(bar);
}

#[test]
fn wrapper_set_name_reaches_the_indicator() {
    let mut m = BarManager::new();
    let w = m.register(SimpleBar::new("old name", 100));
    w.set_name(String::from("new name")).unwrap();
    let bar = w.try_take_bar().unwrap();
    assert!(bar.render_line(60).unwrap().starts_with("\rnew name "));
    w.put_bar(bar);
}

#[test]
fn threaded_handle_mirrors_the_single_threaded_one() {
    let mut m = BarManager::new();
    let w = m.register_threadsafe(SimpleBar::new("job", 100));
    w.set_progress(50).unwrap();
    w.set_name(String::from("renamed")).unwrap();
    let bar = w.try_take_bar().unwrap();
    assert!(matches!(w.try_take_bar(), Err(BarUnavailableError)));
    let line = bar.render_line(72).unwrap();
    assert!(line.starts_with("\rrenamed "));
    assert!(line.contains("  50%"));
    w.put_bar(bar);
    w.done().unwrap();
    let bar = w.try_take_bar().unwrap();
    assert!(bar.is_done());
    w.put_bar(bar);
}

#[test]
fn spinner_through_threaded_handle() {
    let mut m = BarManager::new();
    let w = m.register_threadsafe(
        SpinniBuilder::new(String::from("job")).tick_on_display(false).build(),
    );
    let mut bar = w.try_take_bar().unwrap();
    bar.set_subtask(String::from("half"));
    w.put_bar(bar);
    let out = m.render().unwrap();
    assert_eq!(out, "\x1b[0J\u{2801} job: half\n");
}

#[test]
fn tracker_follows_the_iterations_size_hint() {
    let mut m = BarManager::new();
    let w = m.register(SimpleBar::new("job", 0));
    let mut t = ProgressTracker::new(w);
    assert_eq!(t.observe(5, Some(10), true), Ok(10));
    assert_eq!(t.observe(4, Some(9), true), Ok(10));
    assert_eq!(t.observe(3, None, true), Ok(5));
}

#[test]
fn tracker_manual_hint_wins() {
    let mut m = BarManager::new();
    let w = m.register(SimpleBar::new("job", 0));
    let mut t = ProgressTracker::new(w);
    t.manual_hint(100);
    assert_eq!(t.observe(5, Some(10), true), Ok(100));
    assert_eq!(t.observe(5, Some(10), false), Ok(100));
}

#[test]
fn tracker_updates_the_indicator() {
    let mut m = BarManager::new();
    let w = m.register(SimpleBar::new("job", 0));
    let viewer = w.share();
    let mut t = ProgressTracker::new(w);
    for _ in 0..4 {
        t.observe(0, Some(4), true).unwrap();
    }
    t.observe(0, Some(0), false).unwrap();
    let bar = viewer.try_take_bar().unwrap();
    let line = bar.render_line(60).unwrap();
    assert!(line.contains(" 100%"));
    viewer.put_bar(bar);
}
