use eui::predefined::{
    Empty, Image, ImageButton, Label, MouseClick, MouseEnterEvent, MouseLeaveEvent,
    NineSliceImage, Transition,
};
use eui::{
    Alignment, Event, HorizontalAlignment, Layout, Matrix, Rational, Shape, Ui,
    VerticalAlignment, Widget,
};

fn r(num: i64, den: i64) -> Rational {
    Rational::new(num, den)
}

fn aligned(horizontal: HorizontalAlignment, vertical: VerticalAlignment) -> Alignment {
    Alignment { horizontal: horizontal, vertical: vertical }
}

fn place(x: Rational, y: Rational, w: Rational, h: Rational) -> Matrix {
    Matrix::translate(x, y).mul(&Matrix::scale_wh(w, h))
}

fn shapes_of(layout: Layout) -> Vec<Shape> {
    match layout {
        Layout::Shapes(shapes) => shapes,
        _ => panic!("the widget reports no shapes"),
    }
}

#[test]
fn alignment_defaults_to_the_center() {
    assert_eq!(HorizontalAlignment::default(), HorizontalAlignment::Center);
    assert_eq!(VerticalAlignment::default(), VerticalAlignment::Center);
    assert_eq!(
        Alignment::default(),
        aligned(HorizontalAlignment::Center, VerticalAlignment::Center)
    );
}

#[test]
fn empty_shows_nothing() {
    let mut empty = Empty::new();
    assert!(shapes_of(empty.build_layout(&r(1, 1), Default::default())).is_empty());
    assert!(!empty.needs_rebuild());
    let outcome = empty.handle_event(&Event::MouseClick(MouseClick), None);
    assert!(!outcome.refresh_layout);
    assert!(outcome.propagate_to_parent);
    let mut ui = Ui::new(vec![Empty::new()], r(1, 1)).unwrap();
    assert!(ui.draw().unwrap().is_empty());
}

#[test]
fn label_fits_its_line_into_the_box() {
    let label = Label::new("ab");
    // two bytes: the line is twice as wide as tall
    let text = |matrix: Matrix| vec![Shape::Text { matrix: matrix, text: String::from("ab") }];
    assert_eq!(
        shapes_of(label.build_layout(&r(1, 1), Default::default())),
        text(Matrix::scale_wh(r(1, 1), r(1, 2)))
    );
    assert_eq!(
        shapes_of(label.build_layout(
            &r(1, 1),
            aligned(HorizontalAlignment::Left, VerticalAlignment::Top)
        )),
        text(place(r(0, 1), r(1, 2), r(1, 1), r(1, 2)))
    );
    assert_eq!(
        shapes_of(label.build_layout(
            &r(1, 1),
            aligned(HorizontalAlignment::Left, VerticalAlignment::Bottom)
        )),
        text(place(r(0, 1), r(-1, 2), r(1, 1), r(1, 2)))
    );
    // a box that is flatter than the line
    assert_eq!(
        shapes_of(label.build_layout(&r(1, 4), Default::default())),
        text(Matrix::scale_wh(r(1, 2), r(1, 1)))
    );
    assert_eq!(
        shapes_of(label.build_layout(
            &r(1, 4),
            aligned(HorizontalAlignment::Left, VerticalAlignment::Top)
        )),
        text(place(r(-1, 2), r(0, 1), r(1, 2), r(1, 1)))
    );
    assert_eq!(
        shapes_of(label.build_layout(
            &r(1, 4),
            aligned(HorizontalAlignment::Right, VerticalAlignment::Top)
        )),
        text(place(r(1, 2), r(0, 1), r(1, 2), r(1, 1)))
    );
    // a box that fits exactly
    assert_eq!(
        shapes_of(label.build_layout(&r(1, 2), Default::default())),
        text(Matrix::identity())
    );
}

#[test]
fn label_without_text_has_no_width() {
    let label = Label::new("");
    assert_eq!(
        shapes_of(label.build_layout(&r(1, 1), Default::default())),
        vec![Shape::Text { matrix: Matrix::scale_wh(r(0, 1), r(1, 1)), text: String::new() }]
    );
}

#[test]
fn label_counts_bytes() {
    let label = Label::new("é");
    assert_eq!(
        shapes_of(label.build_layout(&r(1, 1), Default::default())),
        vec![Shape::Text { matrix: Matrix::scale_wh(r(1, 1), r(1, 2)), text: String::from("é") }]
    );
}

#[test]
fn label_asks_for_a_rebuild_once_after_a_change() {
    let mut label = Label::new("a");
    assert!(!label.needs_rebuild());
    label.set_text("abcd");
    assert!(label.needs_rebuild());
    assert!(!label.needs_rebuild());
    assert_eq!(
        shapes_of(label.build_layout(&r(1, 1), Default::default())),
        vec![Shape::Text { matrix: Matrix::scale_wh(r(1, 1), r(1, 4)), text: String::from("abcd") }]
    );
    let outcome = label.handle_event(&Event::MouseEnter(MouseEnterEvent), None);
    assert!(!outcome.refresh_layout);
    assert!(outcome.propagate_to_parent);
}

#[test]
fn changed_label_is_drawn_anew() {
    let mut ui = Ui::new(vec![Label::new("ab")], r(1, 1)).unwrap();
    let before = ui.draw().unwrap();
    let mut label = Label::new("ab");
    label.set_text("abcd");
    assert!(ui.set_widget(0, label));
    let after = ui.draw().unwrap();
    assert_ne!(before, after);
    assert_eq!(
        after,
        vec![Shape::Text { matrix: Matrix::scale_wh(r(1, 1), r(1, 4)), text: String::from("abcd") }]
    );
    assert_eq!(ui.draw().unwrap(), after);
}

#[test]
fn image_keeps_its_proportions() {
    let image = Image::new("tree", r(1, 2));
    let picture = |matrix: Matrix| vec![Shape::Image { matrix: matrix, name: String::from("tree") }];
    assert_eq!(
        shapes_of(image.build_layout(&r(1, 1), Default::default())),
        picture(Matrix::scale_wh(r(1, 1), r(1, 2)))
    );
    assert_eq!(
        shapes_of(image.build_layout(
            &r(1, 1),
            aligned(HorizontalAlignment::Right, VerticalAlignment::Top)
        )),
        picture(place(r(0, 1), r(1, 2), r(1, 1), r(1, 2)))
    );
    assert_eq!(
        shapes_of(image.build_layout(
            &r(1, 1),
            aligned(HorizontalAlignment::Right, VerticalAlignment::Bottom)
        )),
        picture(place(r(0, 1), r(-1, 2), r(1, 1), r(1, 2)))
    );
    assert_eq!(
        shapes_of(image.build_layout(&r(1, 8), Default::default())),
        picture(Matrix::scale_wh(r(1, 4), r(1, 1)))
    );
    assert_eq!(
        shapes_of(image.build_layout(
            &r(1, 8),
            aligned(HorizontalAlignment::Left, VerticalAlignment::Bottom)
        )),
        picture(place(r(-3, 4), r(0, 1), r(1, 4), r(1, 1)))
    );
    assert_eq!(
        shapes_of(image.build_layout(
            &r(1, 8),
            aligned(HorizontalAlignment::Right, VerticalAlignment::Bottom)
        )),
        picture(place(r(3, 4), r(0, 1), r(1, 4), r(1, 1)))
    );
    assert_eq!(
        shapes_of(image.build_layout(&r(1, 2), Default::default())),
        picture(Matrix::identity())
    );
}

#[test]
fn image_in_a_box_without_height() {
    let image = Image::new("tree", r(1, 2));
    assert_eq!(
        shapes_of(image.build_layout(&r(0, 1), Default::default())),
        vec![Shape::Image { matrix: Matrix::scale_wh(r(0, 1), r(1, 1)), name: String::from("tree") }]
    );
    let flat = Image::new("line", r(0, 1));
    assert_eq!(
        shapes_of(flat.build_layout(&r(0, 1), Default::default())),
        vec![Shape::Image { matrix: Matrix::scale_wh(r(0, 1), r(1, 1)), name: String::from("line") }]
    );
}

#[test]
fn image_can_change_its_picture() {
    let mut image = Image::new("tree", r(1, 1));
    image.set_name("house");
    assert!(!image.needs_rebuild());
    assert_eq!(
        shapes_of(image.build_layout(&r(1, 1), Default::default())),
        vec![Shape::Image { matrix: Matrix::identity(), name: String::from("house") }]
    );
}

#[test]
fn image_button_shows_whether_it_is_hovered() {
    let mut button = ImageButton::new("plain", "bright", r(1, 1));
    let name_of = |button: &ImageButton| match &shapes_of(
        button.build_layout(&r(1, 1), Default::default()),
    )[0]
    {
        Shape::Image { name, .. } => name.clone(),
        _ => panic!("the button shows no image"),
    };
    assert_eq!(name_of(&button), "plain");
    let outcome = button.handle_event(&Event::MouseEnter(MouseEnterEvent), None);
    assert!(outcome.refresh_layout);
    assert!(outcome.propagate_to_parent);
    assert!(outcome.events_for_parent.is_empty());
    assert_eq!(name_of(&button), "bright");
    let outcome = button.handle_event(&Event::MouseClick(MouseClick), None);
    assert!(!outcome.refresh_layout);
    assert!(outcome.propagate_to_parent);
    assert_eq!(name_of(&button), "bright");
    let outcome = button.handle_event(&Event::Custom(3), Some(0));
    assert!(!outcome.refresh_layout);
    assert_eq!(name_of(&button), "bright");
    let outcome = button.handle_event(&Event::MouseLeave(MouseLeaveEvent), None);
    assert!(outcome.refresh_layout);
    assert!(outcome.propagate_to_parent);
    assert_eq!(name_of(&button), "plain");
    assert!(!button.needs_rebuild());
}

#[test]
fn image_button_under_the_cursor() {
    let mut ui = Ui::new(vec![ImageButton::new("plain", "bright", r(1, 2))], r(1, 1)).unwrap();
    let picture = |name: &str| {
        vec![Shape::Image { matrix: Matrix::scale_wh(r(1, 1), r(1, 2)), name: String::from(name) }]
    };
    assert_eq!(ui.draw().unwrap(), picture("plain"));
    ui.set_cursor(Some([r(0, 1), r(1, 4)]), false);
    assert_eq!(ui.draw().unwrap(), picture("bright"));
    ui.set_cursor(Some([r(0, 1), r(3, 4)]), false);
    assert_eq!(ui.draw().unwrap(), picture("plain"));
    ui.set_cursor(Some([r(0, 1), r(-1, 2)]), true);
    assert_eq!(ui.draw().unwrap(), picture("bright"));
    ui.set_cursor(None, true);
    assert_eq!(ui.draw().unwrap(), picture("plain"));
}

#[test]
fn nine_slice_corner() {
    let frame = NineSliceImage::new("corner", "border", "back", r(1, 10), r(1, 5));
    assert_eq!(frame.corner_matrix(&r(2, 1)), Matrix::scale_wh(r(1, 5), r(1, 5)));
    assert_eq!(frame.corner_matrix(&r(1, 2)), Matrix::scale_wh(r(1, 10), r(2, 5)));
    assert_eq!(frame.corner_matrix(&r(1, 1)), Matrix::scale_wh(r(1, 10), r(1, 5)));
    assert_eq!(frame.corner_matrix(&r(0, 1)), Matrix::scale_wh(r(1, 10), r(0, 1)));
}

#[test]
fn transition_starts_a_second_after_it_was_made() {
    let transition = Transition::starting_at(4, 5_000_000_000);
    assert!(transition.is_running_at(0));
    assert!(transition.is_running_at(5_000_000_000));
    assert!(transition.is_running_at(8_999_999_999));
    assert!(!transition.is_running_at(9_000_000_000));
    assert!(!transition.is_running_at(u64::MAX));
    assert_eq!(transition.progress_at(0), r(0, 1));
    assert_eq!(transition.progress_at(6_000_000_000), r(0, 1));
    assert_eq!(transition.progress_at(6_000_000_001), r(1, 3_000_000_000));
    assert_eq!(transition.progress_at(7_000_000_000), r(1, 3));
    assert_eq!(transition.progress_at(7_500_000_000), r(1, 2));
    assert_eq!(transition.progress_at(9_000_000_000), r(1, 1));
    assert_eq!(transition.progress_at(u64::MAX), r(1, 1));
}

#[test]
fn transition_at_the_end_of_time() {
    let transition = Transition::starting_at(0, u64::MAX - 5);
    assert!(transition.is_running_at(u64::MAX));
    assert_eq!(transition.progress_at(u64::MAX), r(0, 1));
}

#[test]
fn transition_places_its_widget() {
    let transition = Transition::starting_at(4, 0);
    match transition.layout_with(r(1, 3)) {
        Layout::AbsolutePositionned(list) => {
            assert_eq!(list, vec![(Matrix::translate(r(1, 3), r(0, 1)), 4)]);
        }
        _ => panic!("the transition places no widget"),
    }
}

#[test]
fn transition_made_now() {
    let transition = Transition::new(2);
    match transition.layout_with(r(0, 1)) {
        Layout::AbsolutePositionned(list) => {
            assert_eq!(list, vec![(Matrix::identity(), 2)]);
        }
        _ => panic!("the transition places no widget"),
    }
    // it has not started yet, and it will be over at the end of time
    assert!(transition.is_running_at(0));
    assert!(!transition.is_running_at(u64::MAX));
    assert_eq!(transition.progress_at(0), r(0, 1));
    assert_eq!(transition.progress_at(u64::MAX), r(1, 1));
}
