use practical_runner::session::{Event, Outcome, Session};
use practical_runner::viewport::recenter;

fn strings(items: &[&str]) -> Vec<String> {
    items.iter().map(|s| s.to_string()).collect()
}

fn typed(s: &mut Session, text: &str) {
    s.handle(Event::Text(text.to_string()));
}

#[test]
fn viewport_centers_the_selection() {
    assert_eq!(recenter(10, 3, 7), (6, 9));
    assert_eq!(recenter(10, 3, 9), (7, 10));
    assert_eq!(recenter(10, 3, 0), (0, 3));
    assert_eq!(recenter(10, 4, 5), (3, 7));
}

#[test]
fn viewport_of_a_short_list_is_the_whole_list() {
    assert_eq!(recenter(2, 5, 1), (0, 2));
    assert_eq!(recenter(0, 5, 0), (0, 0));
}

#[test]
fn viewport_always_holds_the_selection() {
    for len in 1..12usize {
        for rows in 1..6usize {
            for sel in 0..len {
                let (start, end) = recenter(len, rows, sel);
                assert!(start <= sel && sel < end && end <= len && end - start <= rows);
            }
        }
    }
}

#[test]
fn new_session_sorts_and_shows_everything() {
    let s = Session::new(&strings(&["htop", "vim", "vi", "git", "vim"]));
    assert_eq!(s.candidates, strings(&["git", "htop", "vi", "vim"]));
    assert_eq!(s.filtered, s.candidates);
    assert_eq!(s.query, "");
    assert_eq!(s.selection, 0);
    assert_eq!(s.outcome, Outcome::Running);
}

#[test]
fn typing_filters_and_resets_selection() {
    let mut s = Session::new(&strings(&["htop", "vim", "vi", "git"]));
    s.handle(Event::Down);
    assert_eq!(s.selection, 1);
    typed(&mut s, "v");
    typed(&mut s, "i");
    assert_eq!(s.query, "vi");
    assert_eq!(s.filtered, strings(&["vi", "vim"]));
    assert_eq!(s.selection, 0);
}

#[test]
fn empty_candidates_confirm_keeps_running() {
    let mut s = Session::new(&Vec::new());
    typed(&mut s, "anything");
    assert!(s.filtered.is_empty());
    s.handle(Event::Confirm);
    assert_eq!(s.outcome, Outcome::Running);
    assert_eq!(s.result(), None);
}

#[test]
fn backspace_on_empty_query_changes_nothing() {
    let mut s = Session::new(&strings(&["a", "b", "c"]));
    s.handle(Event::Down);
    s.handle(Event::Backspace);
    assert_eq!(s.query, "");
    assert_eq!(s.filtered, strings(&["a", "b", "c"]));
    assert_eq!(s.selection, 1);
}

#[test]
fn backspace_drops_the_last_character() {
    let mut s = Session::new(&strings(&["git", "grep", "gzip"]));
    typed(&mut s, "gr");
    assert_eq!(s.filtered, strings(&["grep"]));
    s.handle(Event::Backspace);
    assert_eq!(s.query, "g");
    assert_eq!(s.filtered, strings(&["git", "grep", "gzip"]));
    assert_eq!(s.selection, 0);
}

#[test]
fn tab_completes_the_selected_row() {
    let mut s = Session::new(&strings(&["zip", "ls"]));
    typed(&mut s, "z");
    assert_eq!(s.filtered, strings(&["zip"]));
    s.handle(Event::Complete);
    assert_eq!(s.query, "zip");
    assert_eq!(s.filtered, strings(&["zip"]));
    assert_eq!(s.selection, 0);
}

#[test]
fn tab_on_an_empty_list_changes_nothing() {
    let mut s = Session::new(&strings(&["zip"]));
    typed(&mut s, "q");
    s.handle(Event::Complete);
    assert_eq!(s.query, "q");
    assert!(s.filtered.is_empty());
}

#[test]
fn navigation_is_clamped_at_both_ends() {
    let mut s = Session::new(&strings(&["a", "b", "c"]));
    s.handle(Event::Up);
    assert_eq!(s.selection, 0);
    for _ in 0..5 {
        s.handle(Event::Down);
        assert!(s.selection < s.filtered.len());
    }
    assert_eq!(s.selection, 2);
    s.handle(Event::Up);
    assert_eq!(s.selection, 1);
}

#[test]
fn moving_down_in_an_empty_list_stays_at_zero() {
    let mut s = Session::new(&Vec::new());
    s.handle(Event::Down);
    s.handle(Event::Up);
    assert_eq!(s.selection, 0);
}

#[test]
fn confirm_chooses_the_selected_row() {
    let mut s = Session::new(&strings(&["htop", "vim", "vi", "git"]));
    typed(&mut s, "vi");
    s.handle(Event::Down);
    s.handle(Event::Confirm);
    assert_eq!(s.outcome, Outcome::Confirmed("vim".to_string()));
    assert_eq!(s.query, "vim");
    assert_eq!(s.result(), Some("vim".to_string()));
}

#[test]
fn cancel_clears_the_query_and_ends() {
    let mut s = Session::new(&strings(&["vim"]));
    typed(&mut s, "v");
    s.handle(Event::Cancel);
    assert_eq!(s.outcome, Outcome::Cancelled);
    assert_eq!(s.query, "");
    assert_eq!(s.result(), None);
}

#[test]
fn an_ended_session_ignores_events() {
    let mut s = Session::new(&strings(&["vim", "vi"]));
    s.handle(Event::Confirm);
    assert_eq!(s.outcome, Outcome::Confirmed("vi".to_string()));
    typed(&mut s, "x");
    s.handle(Event::Cancel);
    assert_eq!(s.query, "vi");
    assert_eq!(s.result(), Some("vi".to_string()));
}

#[test]
fn other_keys_are_ignored() {
    let mut s = Session::new(&strings(&["vim", "vi"]));
    s.handle(Event::Other);
    assert_eq!(s.query, "");
    assert_eq!(s.outcome, Outcome::Running);
}

#[test]
fn session_viewport_follows_the_selection() {
    let names: Vec<String> = (0..10).map(|i| format!("p{}", i)).collect();
    let mut s = Session::new(&names);
    for _ in 0..7 {
        s.handle(Event::Down);
    }
    assert_eq!(s.viewport(3), (6, 9));
}
