use ptymux::layout::{pane_areas, Area};
use ptymux::mux::{border_hue, text_hue, App, Flow, Hue, Key};
use ptymux::pane::{outcome_text, CommandOutcome, Pane, REFRESH_MS};

fn finished(out: &str, err: &str) -> CommandOutcome {
    CommandOutcome::Finished { stdout: out.as_bytes().to_vec(), stderr: err.as_bytes().to_vec() }
}

fn strings(v: &[&str]) -> Vec<String> {
    v.iter().map(|s| s.to_string()).collect()
}

#[test]
fn new_pane_is_due_and_empty() {
    let p = Pane::new("T", "echo hi");
    assert_eq!(p.title(), "T");
    assert_eq!(p.command(), "echo hi");
    assert_eq!(p.line_count(), 0);
    assert_eq!(p.scroll_offset(), 0);
    assert!(p.needs_update(0));
}

#[test]
fn stdout_replaces_output() {
    let mut p = Pane::new("T", "c");
    p.update(5000, &finished("one\ntwo\n", ""));
    assert_eq!(p.output_lines(), &strings(&["one", "two"]));
    p.update(8000, &finished("three\n", ""));
    assert_eq!(p.output_lines(), &strings(&["three"]));
}

#[test]
fn stderr_follows_separator() {
    assert_eq!(outcome_text(&finished("out\n", "bad\n")), strings(&["out", "", "--- STDERR ---", "bad"]));
    assert_eq!(outcome_text(&finished("out", "bad")), strings(&["out", "--- STDERR ---", "bad"]));
    assert_eq!(outcome_text(&finished("", "bad")), strings(&["", "--- STDERR ---", "bad"]));
}

#[test]
fn polled_output_keeps_newest_hundred_lines() {
    let mut p = Pane::new("T", "c");
    let text: String = (1..=150).map(|i| format!("l{}\n", i)).collect();
    p.update(5000, &finished(&text, ""));
    let expected: Vec<String> = (51..=150).map(|i| format!("l{}", i)).collect();
    assert_eq!(p.output_lines(), &expected);
    assert_eq!(p.line_count(), 100);
}

#[test]
fn hundred_and_one_empty_lines_are_capped() {
    let mut p = Pane::new("T", "c");
    p.update(5000, &finished(&"\n".repeat(101), ""));
    assert_eq!(p.line_count(), 100);
    assert!(p.output_lines().iter().all(|l| l.is_empty()));
}

#[test]
fn failed_command_shows_error() {
    let o = CommandOutcome::Failed { description: "No such file".to_string() };
    assert_eq!(outcome_text(&o), strings(&["Error executing command: No such file"]));
}

/// Runs a counting stand-in for the command whenever the pane is due.
fn tick(p: &mut Pane, runs: &mut u32, now: u64) {
    if p.needs_update(now) {
        *runs += 1;
        let o = finished(&format!("run {}\n", runs), "");
        p.update(now, &o);
    }
}

#[test]
fn update_within_window_runs_nothing() {
    let mut p = Pane::new("T", "count");
    let mut runs = 0;
    tick(&mut p, &mut runs, 10_000);
    tick(&mut p, &mut runs, 10_500);
    tick(&mut p, &mut runs, 10_000 + REFRESH_MS);
    assert_eq!(runs, 1);
    tick(&mut p, &mut runs, 10_000 + REFRESH_MS + 1);
    assert_eq!(runs, 2);
    assert_eq!(p.output_lines(), &strings(&["run 2"]));
}

#[test]
fn update_when_not_due_keeps_pane() {
    let mut p = Pane::new("T", "c");
    p.update(3000, &finished("a\n", ""));
    p.update(4000, &finished("b\n", ""));
    assert_eq!(p.output_lines(), &strings(&["a"]));
}

#[test]
fn scroll_is_clamped() {
    let mut p = Pane::new("T", "c");
    p.scroll_down();
    assert_eq!(p.scroll_offset(), 0);
    p.scroll_up();
    assert_eq!(p.scroll_offset(), 0);
    p.update(5000, &finished("a\nb\nc\n", ""));
    for _ in 0..10 {
        p.scroll_down();
        assert!(p.scroll_offset() <= 2);
    }
    assert_eq!(p.scroll_offset(), 2);
    assert_eq!(p.visible_lines(), strings(&["c"]));
    p.scroll_up();
    assert_eq!(p.scroll_offset(), 1);
    assert_eq!(p.visible_lines(), strings(&["b", "c"]));
    p.reset_scroll();
    assert_eq!(p.scroll_offset(), 0);
}

#[test]
fn shorter_output_pulls_offset_back() {
    let mut p = Pane::new("T", "c");
    p.update(5000, &finished("a\nb\nc\nd\n", ""));
    p.scroll_down();
    p.scroll_down();
    p.scroll_down();
    assert_eq!(p.scroll_offset(), 3);
    p.update(8000, &finished("x\ny\n", ""));
    assert_eq!(p.scroll_offset(), 1);
}

#[test]
fn title_marks_focus() {
    let p = Pane::new("Disk Usage", "df -h");
    assert_eq!(p.block_title(true), "Disk Usage | Command: df -h [FOCUSED]");
    assert_eq!(p.block_title(false), "Disk Usage | Command: df -h ");
}

#[test]
fn app_starts_with_two_panes() {
    let app = App::new();
    assert_eq!(app.panes().len(), 2);
    assert_eq!(app.panes()[0].title(), "System Info");
    assert_eq!(app.panes()[1].command(), "ps aux | head -20");
    assert!(!app.split_horizontal());
    assert_eq!(app.focused_pane(), 0);
}

#[test]
fn focus_cycles_through_panes() {
    let mut app = App::new();
    app.switch_focus();
    assert_eq!(app.focused_pane(), 1);
    app.switch_focus();
    assert_eq!(app.focused_pane(), 0);
}

#[test]
fn keys_drive_the_app() {
    let mut app = App::new();
    assert_eq!(app.handle_key(Key::Char('h')), Flow::Continue);
    assert!(app.split_horizontal());
    app.handle_key(Key::Char('v'));
    assert!(!app.split_horizontal());
    app.handle_key(Key::Tab);
    assert_eq!(app.focused_pane(), 1);
    app.handle_key(Key::Char('1'));
    assert_eq!(app.panes()[0].title(), "Disk Usage");
    app.handle_key(Key::Char('2'));
    assert_eq!(app.panes()[1].command(), "ifconfig");
    app.handle_key(Key::Char('3'));
    assert_eq!(app.panes()[0].command(), "free -h");
    app.handle_key(Key::Char('4'));
    assert_eq!(app.panes()[1].title(), "CPU Info");
    app.handle_key(Key::Char('x'));
    app.handle_key(Key::Enter);
    assert_eq!(app.handle_key(Key::Char('q')), Flow::Quit);
}

#[test]
fn arrows_scroll_the_focused_pane() {
    let mut app = App::new();
    let due = app.due_panes(1000);
    assert_eq!(due, vec![true, true]);
    app.update(1000, &vec![Some(finished("a\nb\n", "")), Some(finished("c\nd\n", ""))]);
    assert_eq!(app.due_panes(1500), vec![false, false]);
    app.update(1500, &vec![Some(finished("new\n", "")), Some(finished("new\n", ""))]);
    assert_eq!(app.panes()[0].output_lines(), &strings(&["a", "b"]));
    app.handle_key(Key::Tab);
    app.handle_key(Key::Down);
    assert_eq!(app.panes()[1].scroll_offset(), 1);
    assert_eq!(app.panes()[0].scroll_offset(), 0);
    app.handle_key(Key::Up);
    assert_eq!(app.panes()[1].scroll_offset(), 0);
}

#[test]
fn app_update_skips_missing_outcomes() {
    let mut app = App::new();
    app.update(1000, &vec![None, Some(finished("z\n", ""))]);
    assert_eq!(app.panes()[0].line_count(), 0);
    assert_eq!(app.panes()[1].output_lines(), &strings(&["z"]));
}

#[test]
fn two_panes_from_80_by_24() {
    let mut app = App::new();
    let area = Area::new(0, 0, 80, 24);
    let stacked = app.pane_areas(area);
    assert_eq!(stacked, vec![Area::new(1, 1, 78, 11), Area::new(1, 12, 78, 11)]);
    app.handle_key(Key::Char('h'));
    let side = app.pane_areas(area);
    assert_eq!(side, vec![Area::new(1, 1, 39, 22), Area::new(40, 1, 39, 22)]);
}

#[test]
fn empty_area_gives_empty_regions() {
    let r = pane_areas(false, 2, Area::new(0, 0, 0, 0));
    assert_eq!(r.len(), 2);
    assert!(r.iter().all(|a| a.width == 0 && a.height == 0));
}

#[test]
fn hues_follow_focus_and_position() {
    assert_eq!(border_hue(true), Hue::Cyan);
    assert_eq!(border_hue(false), Hue::White);
    assert_eq!(text_hue(0), Hue::Green);
    assert_eq!(text_hue(1), Hue::Yellow);
}
