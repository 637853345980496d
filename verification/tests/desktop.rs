use lifelog::mac::{frontmost_window_title, screen_locked, SessionLock, WindowInfo};

fn window(layer: Option<i64>, owner_pid: Option<i64>, name: Option<&str>) -> WindowInfo {
    WindowInfo { layer, owner_pid, name: name.map(String::from) }
}

#[test]
fn lock_errs_toward_locked() {
    assert!(screen_locked(&SessionLock::NoSession));
    assert!(!screen_locked(&SessionLock::Unmentioned));
    assert!(screen_locked(&SessionLock::Unreadable));
    assert!(screen_locked(&SessionLock::Flag(true)));
    assert!(!screen_locked(&SessionLock::Flag(false)));
}

#[test]
fn title_of_the_first_ordinary_window() {
    let windows = Some(vec![
        window(Some(25), Some(7), Some("menu")),
        window(Some(0), Some(8), Some("other app")),
        window(None, Some(7), Some("no layer")),
        window(Some(0), None, Some("no owner")),
        window(Some(0), Some(7), Some("front")),
        window(Some(0), Some(7), Some("behind")),
    ]);
    assert_eq!(frontmost_window_title(&windows, 7), Some("front".to_string()));
    assert_eq!(frontmost_window_title(&windows, 8), Some("other app".to_string()));
    assert_eq!(frontmost_window_title(&windows, 9), None);
}

#[test]
fn an_untitled_front_window_hides_the_rest() {
    let unnamed = Some(vec![window(Some(0), Some(7), None), window(Some(0), Some(7), Some("b"))]);
    assert_eq!(frontmost_window_title(&unnamed, 7), None);
    let empty = Some(vec![window(Some(0), Some(7), Some("")), window(Some(0), Some(7), Some("b"))]);
    assert_eq!(frontmost_window_title(&empty, 7), None);
}

#[test]
fn no_window_list_no_title() {
    assert_eq!(frontmost_window_title(&None, 7), None);
    assert_eq!(frontmost_window_title(&Some(vec![]), 7), None);
}
