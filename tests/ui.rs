use audio_visualizer::ui::{InputState, KeyInput, UIElement, UIElements, SLIDER_COUNT, UNIT};

#[test]
fn slider_edges_and_outside() {
    let mut s = UIElement::new((0, 0), (5000, 500), 5000);
    s.try_set((-2500, 0));
    assert_eq!(s.value, 0);
    s.try_set((2500, 250));
    assert_eq!(s.value, UNIT);
    s.try_set((0, -250));
    assert_eq!(s.value, UNIT / 2);
    s.try_set((2501, 0));
    assert_eq!(s.value, UNIT / 2);
    s.try_set((0, 251));
    assert_eq!(s.value, UNIT / 2);
    s.try_set((1250, 0));
    assert_eq!(s.value, 7500);
}

#[test]
fn slider_steps_are_clamped() {
    let mut s = UIElement::new((0, 0), (100, 10), 9950);
    s.increment();
    assert_eq!(s.value, UNIT);
    s.increment();
    assert_eq!(s.value, UNIT);
    let mut s = UIElement::new((0, 0), (100, 10), 50);
    s.decrement();
    assert_eq!(s.value, 0);
    s.decrement();
    assert_eq!(s.value, 0);
    let mut s = UIElement::new((0, 0), (100, 10), 5000);
    s.increment();
    assert_eq!(s.value, 5100);
    s.decrement();
    s.decrement();
    assert_eq!(s.value, 4900);
}

#[test]
fn slider_row_layout() {
    let u = UIElements::new();
    assert_eq!(u.elements.len(), SLIDER_COUNT);
    assert!(u.hidden);
    assert_eq!(u.selected, 0);
    assert_eq!(u.elements[3].center, (-7000, 5000));
    assert_eq!(u.elements[9].center, (-7000, -1000));
    assert!(u.elements.iter().all(|e| e.value == 5000 && e.dimensions == (5000, 500)));
}

#[test]
fn clicks_reach_sliders_only_when_shown() {
    let mut u = UIElements::new();
    u.click((-9500, 8000));
    assert_eq!(u.elements[0].value, 5000);
    u.toggle_hidden();
    u.click((-9500, 8000));
    assert_eq!(u.elements[0].value, 0);
    assert_eq!(u.elements[1].value, 5000);
    u.click((-4500, 7000));
    assert_eq!(u.elements[1].value, UNIT);
    u.click((0, 0));
    assert_eq!(u.elements[0].value, 0);
    assert_eq!(u.elements[1].value, UNIT);
}

#[test]
fn keys_drive_the_selected_slider() {
    let mut u = UIElements::new();
    u.report_key(KeyInput::ArrowUp);
    assert_eq!(u.elements[0].value, 5000);
    u.report_key(KeyInput::Character('m'));
    assert!(!u.hidden);
    u.report_key(KeyInput::Character('3'));
    assert_eq!(u.selected, 3);
    u.report_key(KeyInput::ArrowUp);
    u.report_key(KeyInput::ArrowUp);
    assert_eq!(u.elements[3].value, 5200);
    u.report_key(KeyInput::ArrowDown);
    assert_eq!(u.elements[3].value, 5100);
    u.report_key(KeyInput::Character('x'));
    u.report_key(KeyInput::Other);
    assert_eq!(u.selected, 3);
    u.select(10);
    assert_eq!(u.selected, 3);
    u.report_key(KeyInput::Character('9'));
    assert_eq!(u.selected, 9);
    u.report_key(KeyInput::Character('m'));
    assert!(u.hidden);
}

#[test]
fn key_repeat_is_not_a_fresh_press() {
    let mut input = InputState::new();
    assert!(input.is_just_pressed(KeyInput::Character('m')));
    assert!(!input.is_just_pressed(KeyInput::Character('m')));
    assert!(input.is_just_pressed(KeyInput::ArrowUp));
    input.released(KeyInput::Character('m'));
    assert!(input.is_just_pressed(KeyInput::Character('m')));
    assert!(!input.is_just_pressed(KeyInput::ArrowUp));
}

#[test]
fn odd_width_slider_stays_centred() {
    let mut s = UIElement::new((0, 0), (5, 1), 5000);
    s.try_set((3, 0));
    assert_eq!(s.value, 5000);
    s.try_set((-3, 0));
    assert_eq!(s.value, 5000);
    s.try_set((0, 1));
    assert_eq!(s.value, 5000);
    s.try_set((2, 0));
    assert_eq!(s.value, 9000);
    s.try_set((-2, 0));
    assert_eq!(s.value, 1000);
    s.try_set((0, 0));
    assert_eq!(s.value, 5000);
}

#[test]
fn odd_width_click_through_the_row() {
    let mut u = UIElements::new();
    u.elements = vec![UIElement::new((0, 0), (5, 1), 5000)];
    u.toggle_hidden();
    u.click((3, 0));
    assert_eq!(u.elements[0].value, 5000);
    u.click((2, 0));
    assert_eq!(u.elements[0].value, 9000);
}
