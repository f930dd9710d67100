use bdd_plus::editor::{
    needs_texture_reload, slider_actions, value_window_chars, value_window_text, SliderAction,
    SliderResponse,
};

fn response(
    drag_started: bool,
    dragged: bool,
    drag_stopped: bool,
    clicked: bool,
    has_pointer: bool,
) -> SliderResponse {
    SliderResponse { drag_started, dragged, drag_stopped, clicked, has_pointer }
}

fn balance(actions: &[SliderAction]) -> i32 {
    actions
        .iter()
        .map(|a| match a {
            SliderAction::BeginGesture => 1,
            SliderAction::SetFromPointer => 0,
            SliderAction::EndGesture => -1,
        })
        .sum()
}

#[test]
fn texture_reload_when_manager_changed() {
    assert!(needs_texture_reload(1, 2, Some((10, 10))));
}

#[test]
fn texture_reload_when_missing_or_freed() {
    assert!(needs_texture_reload(3, 3, None));
    assert!(needs_texture_reload(3, 3, Some((0, 0))));
}

#[test]
fn texture_kept_when_loaded_in_same_manager() {
    assert!(!needs_texture_reload(3, 3, Some((700, 500))));
    assert!(!needs_texture_reload(3, 3, Some((0, 5))));
}

#[test]
fn idle_slider_does_nothing() {
    assert!(slider_actions(response(false, false, false, false, true)).is_empty());
}

#[test]
fn click_is_a_whole_gesture() {
    let a = slider_actions(response(false, false, false, true, true));
    assert_eq!(
        a,
        vec![SliderAction::BeginGesture, SliderAction::SetFromPointer, SliderAction::EndGesture]
    );
    assert_eq!(balance(&a), 0);
}

#[test]
fn click_without_pointer_does_nothing() {
    assert!(slider_actions(response(false, false, false, true, false)).is_empty());
}

#[test]
fn drag_frames_open_set_and_close() {
    let first = slider_actions(response(true, true, false, false, true));
    assert_eq!(first, vec![SliderAction::BeginGesture, SliderAction::SetFromPointer]);
    let middle = slider_actions(response(false, true, false, false, true));
    assert_eq!(middle, vec![SliderAction::SetFromPointer]);
    let last = slider_actions(response(false, false, true, false, true));
    assert_eq!(last, vec![SliderAction::EndGesture]);
    assert_eq!(balance(&first) + balance(&middle) + balance(&last), 0);
}

#[test]
fn every_event_in_one_frame() {
    let a = slider_actions(response(true, true, true, true, true));
    assert_eq!(
        a,
        vec![
            SliderAction::BeginGesture,
            SliderAction::SetFromPointer,
            SliderAction::EndGesture,
            SliderAction::BeginGesture,
            SliderAction::SetFromPointer,
            SliderAction::EndGesture,
        ]
    );
    assert_eq!(balance(&a), 0);
}

#[test]
fn drag_without_pointer_only_manages_gesture() {
    let a = slider_actions(response(true, true, true, false, false));
    assert_eq!(a, vec![SliderAction::BeginGesture, SliderAction::EndGesture]);
}

#[test]
fn value_text_is_right_aligned_in_three_columns() {
    assert_eq!(value_window_text(0), "  0");
    assert_eq!(value_window_text(7), "  7");
    assert_eq!(value_window_text(35), " 35");
    assert_eq!(value_window_text(100), "100");
}

#[test]
fn value_text_matches_std_formatting() {
    for v in [-2147483648, -1000, -100, -99, -10, -9, -1, 0, 1, 9, 10, 99, 100, 999, 1000, 123456, 2147483647] {
        assert_eq!(value_window_text(v), format!("{v:>3}"));
    }
    for v in 0..=100 {
        assert_eq!(value_window_text(v), format!("{v:>3}"));
        assert_eq!(value_window_text(v).len(), 3);
    }
}

#[test]
fn value_chars_of_negative_number() {
    assert_eq!(value_window_chars(-5), vec![' ', '-', '5']);
    assert_eq!(value_window_chars(-50), vec!['-', '5', '0']);
}
