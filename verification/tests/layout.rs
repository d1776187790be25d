use eui::bar::Edge;
use eui::node::Node;
use eui::{
    Alignment, Child, Event, EventOutcome, HorizontalAlignment, Layout, LayoutError, Matrix,
    Rational, Shape, Ui, VerticalAlignment, Widget, Widgets,
};

fn r(num: i64, den: i64) -> Rational {
    Rational::new(num, den)
}

fn zero() -> Rational {
    Rational::zero()
}

fn one() -> Rational {
    Rational::one()
}

fn image(matrix: Matrix) -> Shape {
    Shape::Image { name: String::new(), matrix: matrix }
}

fn child(index: usize, weight: i8, collapse: bool) -> Child {
    Child {
        child: index,
        weight: weight,
        collapse: collapse,
        alignment: Default::default(),
        padding_top: zero(),
        padding_left: zero(),
        padding_bottom: zero(),
        padding_right: zero(),
    }
}

/// The widgets of these tests, by what they report.
enum Sample {
    /// One image that fills the box.
    Full,
    /// One image with the given width and height, as parts of the box, in
    /// the middle of the box.
    Part(Rational, Rational),
    /// A horizontal bar.
    Row(HorizontalAlignment, Vec<(usize, i8, bool)>),
    /// A vertical bar.
    Column(VerticalAlignment, Vec<(usize, i8, bool)>),
    /// A horizontal bar with one child, which has the given paddings in the
    /// order top, right, bottom, left.
    Padded(usize, Rational, Rational, Rational, Rational),
    /// Children placed by transforms.
    Placed(Vec<(Matrix, usize)>),
    /// An image whose width is the ratio of height to width of the box.
    Ratio,
}

impl Widget for Sample {
    fn build_layout(&self, height_per_width: &Rational, _: Alignment) -> Layout {
        match self {
            Sample::Full => Layout::Shapes(vec![image(Matrix::identity())]),
            Sample::Part(w, h) => {
                Layout::Shapes(vec![image(Matrix::scale_wh(w.clone(), h.clone()))])
            }
            Sample::Row(alignment, children) => Layout::HorizontalBar {
                alignment: *alignment,
                children: children.iter().map(|c| child(c.0, c.1, c.2)).collect(),
            },
            Sample::Column(alignment, children) => Layout::VerticalBar {
                alignment: *alignment,
                children: children.iter().map(|c| child(c.0, c.1, c.2)).collect(),
            },
            Sample::Padded(index, top, right, bottom, left) => Layout::HorizontalBar {
                alignment: HorizontalAlignment::Center,
                children: vec![Child {
                    child: *index,
                    weight: 1,
                    collapse: false,
                    alignment: Default::default(),
                    padding_top: top.clone(),
                    padding_right: right.clone(),
                    padding_bottom: bottom.clone(),
                    padding_left: left.clone(),
                }],
            },
            Sample::Placed(list) => {
                Layout::AbsolutePositionned(list.iter().map(|p| (p.0.clone(), p.1)).collect())
            }
            Sample::Ratio => Layout::Shapes(vec![image(Matrix::scale_wh(
                height_per_width.clone(),
                one(),
            ))]),
        }
    }

    fn needs_rebuild(&mut self) -> bool {
        false
    }

    fn handle_event(&mut self, _: &Event, _: Option<usize>) -> EventOutcome {
        Default::default()
    }
}

fn place(x: Rational, y: Rational, w: Rational, h: Rational) -> Matrix {
    Matrix::translate(x, y).mul(&Matrix::scale_wh(w, h))
}

#[test]
fn basic() {
    let mut ui = Ui::new(vec![Sample::Full], one()).unwrap();
    let shapes = ui.draw().unwrap();
    assert_eq!(shapes, vec![image(Matrix::identity())]);
}

#[test]
fn horizontal_split_two() {
    let widgets = vec![
        Sample::Row(HorizontalAlignment::Center, vec![(1, 1, false), (2, 1, false)]),
        Sample::Full,
        Sample::Full,
    ];
    let mut ui = Ui::new(widgets, one()).unwrap();
    let shapes = ui.draw().unwrap();
    assert_eq!(
        shapes,
        vec![
            image(Matrix::translate(r(-1, 2), zero()).mul(&Matrix::scale_wh(r(1, 2), one()))),
            image(Matrix::translate(r(1, 2), zero()).mul(&Matrix::scale_wh(r(1, 2), one()))),
        ]
    );
}

#[test]
fn uncollapsed_children_fill_the_bar_whatever_their_weights() {
    let widgets = vec![
        Sample::Row(HorizontalAlignment::Left, vec![(1, 1, false), (2, 2, false), (3, 3, false)]),
        Sample::Full,
        Sample::Full,
        Sample::Full,
    ];
    let mut ui = Ui::new(widgets, one()).unwrap();
    let shapes = ui.draw().unwrap();
    assert_eq!(
        shapes,
        vec![
            image(place(r(-5, 6), zero(), r(1, 6), one())),
            image(place(r(-1, 3), zero(), r(1, 3), one())),
            image(place(r(1, 2), zero(), r(1, 2), one())),
        ]
    );
    // the first child begins at the left edge, each next one where the one
    // before it ends, and the last one ends at the right edge
    let mut edge = r(-1, 1);
    for shape in &shapes {
        let (_, right, _, left) = shape.get_bounding_box();
        assert_eq!(left, edge);
        edge = right;
    }
    assert_eq!(edge, one());
}

#[test]
fn alignment_does_not_move_a_full_bar() {
    for alignment in [
        HorizontalAlignment::Left,
        HorizontalAlignment::Center,
        HorizontalAlignment::Right,
    ] {
        let widgets = vec![
            Sample::Row(alignment, vec![(1, 3, false), (2, 1, false)]),
            Sample::Full,
            Sample::Full,
        ];
        let mut ui = Ui::new(widgets, one()).unwrap();
        assert_eq!(
            ui.draw().unwrap(),
            vec![
                image(place(r(-1, 4), zero(), r(3, 4), one())),
                image(place(r(3, 4), zero(), r(1, 4), one())),
            ]
        );
    }
}

#[test]
fn collapsed_children_touch() {
    // the first child uses half of its box, the second all of it
    let widgets = vec![
        Sample::Row(HorizontalAlignment::Center, vec![(1, 1, true), (2, 1, true)]),
        Sample::Part(r(1, 2), one()),
        Sample::Full,
    ];
    let mut ui = Ui::new(widgets, one()).unwrap();
    let shapes = ui.draw().unwrap();
    assert_eq!(
        shapes,
        vec![
            image(place(r(-1, 2), zero(), r(1, 4), one())),
            image(place(r(1, 4), zero(), r(1, 2), one())),
        ]
    );
    let (_, first_right, _, first_left) = shapes[0].get_bounding_box();
    let (_, second_right, _, second_left) = shapes[1].get_bounding_box();
    assert_eq!(first_right, second_left);
    assert_eq!(first_left, r(-3, 4));
    assert_eq!(second_right, r(3, 4));
}

#[test]
fn collapsed_row_is_aligned() {
    let row = |alignment| {
        vec![
            Sample::Row(alignment, vec![(1, 1, true), (2, 1, true)]),
            Sample::Part(r(1, 2), one()),
            Sample::Part(r(1, 2), one()),
        ]
    };
    // each child occupies a quarter of the bar, the two of them a half
    let mut left = Ui::new(row(HorizontalAlignment::Left), one()).unwrap();
    assert_eq!(
        left.draw().unwrap(),
        vec![
            image(place(r(-3, 4), zero(), r(1, 4), one())),
            image(place(r(-1, 4), zero(), r(1, 4), one())),
        ]
    );
    let mut center = Ui::new(row(HorizontalAlignment::Center), one()).unwrap();
    assert_eq!(
        center.draw().unwrap(),
        vec![
            image(place(r(-1, 4), zero(), r(1, 4), one())),
            image(place(r(1, 4), zero(), r(1, 4), one())),
        ]
    );
    let mut right = Ui::new(row(HorizontalAlignment::Right), one()).unwrap();
    assert_eq!(
        right.draw().unwrap(),
        vec![
            image(place(r(1, 4), zero(), r(1, 4), one())),
            image(place(r(3, 4), zero(), r(1, 4), one())),
        ]
    );
}

#[test]
fn collapsed_column_is_aligned() {
    let column = |alignment| {
        vec![
            Sample::Column(alignment, vec![(1, 1, true), (2, 1, true)]),
            Sample::Part(one(), r(1, 2)),
            Sample::Part(one(), r(1, 2)),
        ]
    };
    // the flow of a column begins at -1: that is where `Top` puts the group
    let mut top = Ui::new(column(VerticalAlignment::Top), one()).unwrap();
    assert_eq!(
        top.draw().unwrap(),
        vec![
            image(place(zero(), r(-3, 4), one(), r(1, 4))),
            image(place(zero(), r(-1, 4), one(), r(1, 4))),
        ]
    );
    let mut center = Ui::new(column(VerticalAlignment::Center), one()).unwrap();
    assert_eq!(
        center.draw().unwrap(),
        vec![
            image(place(zero(), r(-1, 4), one(), r(1, 4))),
            image(place(zero(), r(1, 4), one(), r(1, 4))),
        ]
    );
    let mut bottom = Ui::new(column(VerticalAlignment::Bottom), one()).unwrap();
    assert_eq!(
        bottom.draw().unwrap(),
        vec![
            image(place(zero(), r(1, 4), one(), r(1, 4))),
            image(place(zero(), r(3, 4), one(), r(1, 4))),
        ]
    );
}

#[test]
fn column_splits_the_height() {
    let widgets = vec![
        Sample::Column(VerticalAlignment::Center, vec![(1, 1, false), (2, 3, false)]),
        Sample::Full,
        Sample::Full,
    ];
    let mut ui = Ui::new(widgets, one()).unwrap();
    assert_eq!(
        ui.draw().unwrap(),
        vec![
            image(place(zero(), r(-3, 4), one(), r(1, 4))),
            image(place(zero(), r(1, 4), one(), r(3, 4))),
        ]
    );
}

#[test]
fn children_are_resolved_in_their_share_of_the_box() {
    // in a row a child with a third of the weight is three times as tall,
    // relative to its width, as the bar
    let widgets = vec![
        Sample::Row(HorizontalAlignment::Center, vec![(1, 1, false), (2, 2, false)]),
        Sample::Ratio,
        Sample::Ratio,
    ];
    let mut ui = Ui::new(widgets, r(1, 2)).unwrap();
    assert_eq!(
        ui.draw().unwrap(),
        vec![
            image(place(r(-2, 3), zero(), r(1, 3), one()).mul(&Matrix::scale_wh(r(3, 2), one()))),
            image(place(r(1, 3), zero(), r(2, 3), one()).mul(&Matrix::scale_wh(r(3, 4), one()))),
        ]
    );
    // in a column it is a third as tall
    let widgets = vec![
        Sample::Column(VerticalAlignment::Center, vec![(1, 1, false), (2, 2, false)]),
        Sample::Ratio,
        Sample::Ratio,
    ];
    let mut ui = Ui::new(widgets, r(1, 2)).unwrap();
    assert_eq!(
        ui.draw().unwrap(),
        vec![
            image(place(zero(), r(-2, 3), one(), r(1, 3)).mul(&Matrix::scale_wh(r(1, 6), one()))),
            image(place(zero(), r(1, 3), one(), r(2, 3)).mul(&Matrix::scale_wh(r(1, 3), one()))),
        ]
    );
}

#[test]
fn paddings_shrink_and_move_the_child() {
    let widgets = vec![Sample::Padded(1, zero(), zero(), zero(), r(1, 2)), Sample::Full];
    let mut ui = Ui::new(widgets, one()).unwrap();
    assert_eq!(ui.draw().unwrap(), vec![image(place(r(1, 4), zero(), r(3, 4), one()))]);

    let widgets = vec![Sample::Padded(1, r(1, 2), r(1, 4), r(1, 8), zero()), Sample::Full];
    let mut ui = Ui::new(widgets, one()).unwrap();
    assert_eq!(
        ui.draw().unwrap(),
        vec![image(place(r(-1, 8), r(-3, 16), r(7, 8), r(11, 16)))]
    );
}

#[test]
fn placed_children_keep_their_transforms() {
    let a = place(r(1, 2), r(1, 3), r(1, 2), r(1, 4));
    let b = place(r(-1, 2), zero(), r(1, 3), one());
    let widgets = vec![
        Sample::Placed(vec![(a.clone(), 1), (b.clone(), 2), (a.clone(), 2)]),
        Sample::Full,
        Sample::Part(r(1, 2), r(1, 2)),
    ];
    let mut ui = Ui::new(widgets, one()).unwrap();
    let inner = Matrix::scale_wh(r(1, 2), r(1, 2));
    assert_eq!(
        ui.draw().unwrap(),
        vec![image(a.clone()), image(b.mul(&inner)), image(a.mul(&inner))]
    );
}

#[test]
fn nested_frames_compose() {
    let a = place(r(1, 2), r(1, 3), r(1, 2), r(1, 4));
    let b = place(r(-1, 5), r(2, 7), r(3, 4), r(5, 6));
    let l = Matrix::scale_wh(r(1, 2), r(1, 3));
    let widgets = vec![
        Sample::Placed(vec![(a.clone(), 1)]),
        Sample::Placed(vec![(b.clone(), 2)]),
        Sample::Part(r(1, 2), r(1, 3)),
    ];
    let mut ui = Ui::new(widgets, one()).unwrap();
    let shapes = ui.draw().unwrap();
    assert_eq!(shapes, vec![image(a.mul(&b).mul(&l))]);
    assert_eq!(shapes, vec![image(a.mul(&b.mul(&l)))]);
}

#[test]
fn leaf_margins_are_what_the_shapes_leave_unused() {
    let node = Node::leaf(0, vec![image(place(r(1, 4), zero(), r(1, 4), r(1, 2)))]);
    // the shape runs from 0 to 1/2 across and from -1/2 to 1/2 upwards
    assert_eq!(*node.margin(Edge::Top), r(1, 2));
    assert_eq!(*node.margin(Edge::Right), r(1, 2));
    assert_eq!(*node.margin(Edge::Bottom), r(1, 2));
    assert_eq!(*node.margin(Edge::Left), one());
    assert!(!node.is_dirty());

    let two = Node::leaf(
        0,
        vec![
            image(place(r(1, 4), zero(), r(1, 4), r(1, 2))),
            image(place(r(-1, 2), r(1, 2), r(1, 4), r(1, 4))),
        ],
    );
    assert_eq!(*two.margin(Edge::Top), r(1, 4));
    assert_eq!(*two.margin(Edge::Right), r(1, 2));
    assert_eq!(*two.margin(Edge::Bottom), r(1, 2));
    assert_eq!(*two.margin(Edge::Left), r(1, 4));

    // a shape in the right half leaves more than half of the box unused
    let aside = Node::leaf(0, vec![image(place(r(3, 4), zero(), r(1, 4), one()))]);
    assert_eq!(*aside.margin(Edge::Left), r(3, 2));
    assert_eq!(*aside.margin(Edge::Right), zero());
}

#[test]
fn leaf_without_shapes_is_half_empty_at_each_edge() {
    let node = Node::leaf(3, Vec::new());
    assert_eq!(*node.margin(Edge::Top), one());
    assert_eq!(*node.margin(Edge::Right), one());
    assert_eq!(*node.margin(Edge::Bottom), one());
    assert_eq!(*node.margin(Edge::Left), one());
    assert_eq!(node.build_shapes(), Vec::<Shape>::new());
}

#[test]
fn empty_widget_collapses_to_nothing() {
    let widgets = vec![
        Sample::Row(HorizontalAlignment::Left, vec![(1, 1, true), (2, 1, true)]),
        Sample::Placed(Vec::new()),
        Sample::Full,
    ];
    // a widget that places no children reports no margins: it keeps its share
    let mut ui = Ui::new(widgets, one()).unwrap();
    assert_eq!(ui.draw().unwrap(), vec![image(place(r(1, 2), zero(), r(1, 2), one()))]);
}

#[test]
fn bar_margins_come_from_its_children() {
    let leaf = |w: Rational, h: Rational| Node::leaf(0, vec![image(Matrix::scale_wh(w, h))]);
    // a row of two children that do not collapse
    let row = Node::arrange(
        0,
        vec![child(1, 1, false), child(2, 3, false)],
        vec![leaf(r(1, 2), r(1, 2)), leaf(r(1, 4), r(3, 4))],
        Default::default(),
        false,
    );
    // across the flow the smallest margin of the children
    assert_eq!(*row.margin(Edge::Top), r(1, 4));
    assert_eq!(*row.margin(Edge::Bottom), r(1, 4));
    // along the flow the margin of the child at that end, on the scale of the bar
    assert_eq!(*row.margin(Edge::Left), r(1, 8));
    assert_eq!(*row.margin(Edge::Right), r(9, 16));

    // the flow of a column runs from the bottom margin to the top margin;
    // a child that collapses is passed over
    let column = Node::arrange(
        0,
        vec![child(1, 1, true), child(2, 1, false), child(3, 2, false), child(4, 1, true)],
        vec![
            leaf(r(1, 2), r(1, 2)),
            leaf(r(1, 2), r(1, 2)),
            leaf(r(1, 4), r(3, 4)),
            leaf(r(1, 8), r(1, 8)),
        ],
        Default::default(),
        true,
    );
    assert_eq!(*column.margin(Edge::Left), r(1, 2));
    assert_eq!(*column.margin(Edge::Right), r(1, 2));
    assert_eq!(*column.margin(Edge::Bottom), r(1, 10));
    assert_eq!(*column.margin(Edge::Top), r(1, 10));

    // one child that does not collapse gives both margins
    let single = Node::arrange(
        0,
        vec![child(1, 1, true), child(2, 3, false)],
        vec![leaf(r(1, 2), r(1, 2)), leaf(r(1, 4), r(3, 4))],
        Default::default(),
        false,
    );
    assert_eq!(*single.margin(Edge::Left), r(9, 16));
    assert_eq!(*single.margin(Edge::Right), r(9, 16));

    // a bar all of whose children collapse
    let collapsed = Node::arrange(
        0,
        vec![child(1, 1, true), child(2, 3, true)],
        vec![leaf(r(1, 2), r(1, 2)), leaf(r(1, 4), r(3, 4))],
        Default::default(),
        false,
    );
    assert_eq!(*collapsed.margin(Edge::Left), zero());
    assert_eq!(*collapsed.margin(Edge::Right), zero());
    assert_eq!(*collapsed.margin(Edge::Top), r(1, 4));

    // a bar without children
    let none = Node::arrange(0, Vec::new(), Vec::new(), Default::default(), false);
    assert_eq!(*none.margin(Edge::Top), one());
    assert_eq!(*none.margin(Edge::Bottom), one());
    assert_eq!(*none.margin(Edge::Left), zero());
    assert_eq!(*none.margin(Edge::Right), zero());
    assert_eq!(none.build_shapes(), Vec::<Shape>::new());
}

#[test]
fn paddings_leave_the_margins_alone() {
    let mut padded = child(1, 1, true);
    padded.padding_left = r(1, 4);
    padded.padding_top = r(1, 8);
    let row = Node::arrange(
        0,
        vec![padded, child(2, 1, true)],
        vec![
            Node::leaf(1, vec![image(Matrix::scale_wh(r(1, 2), r(1, 2)))]),
            Node::leaf(2, vec![image(Matrix::identity())]),
        ],
        Alignment { horizontal: HorizontalAlignment::Left, vertical: VerticalAlignment::Center },
        false,
    );
    assert_eq!(*row.margin(Edge::Top), zero());
    assert_eq!(*row.margin(Edge::Bottom), zero());
    // the first child gives up its margins of 1/2 + 1/2 of its length of 2,
    // whatever its paddings; these only shrink it within its place
    assert_eq!(
        row.build_shapes(),
        vec![
            image(
                place(r(-3, 4), zero(), r(1, 2), one())
                    .mul(&place(r(1, 8), r(-1, 16), r(7, 8), r(15, 16)))
                    .mul(&Matrix::scale_wh(r(1, 2), r(1, 2)))
            ),
            image(place(zero(), zero(), r(1, 2), one())),
        ]
    );
}

#[test]
fn paddings_take_no_margin_below_zero() {
    // a picture that fills its box, in a row that gives it a padding
    let mut padded = child(1, 1, false);
    padded.padding_top = r(1, 2);
    let row = Node::arrange(
        0,
        vec![padded],
        vec![Node::leaf(1, vec![image(Matrix::identity())])],
        Default::default(),
        false,
    );
    assert_eq!(*row.margin(Edge::Top), zero());
    assert_eq!(*row.margin(Edge::Right), zero());
    assert_eq!(*row.margin(Edge::Bottom), zero());
    assert_eq!(*row.margin(Edge::Left), zero());

    // a child that collapses occupies no more than its share
    let mut wide = child(1, 1, true);
    wide.padding_left = r(1, 2);
    let row = Node::arrange(
        0,
        vec![wide],
        vec![Node::leaf(1, vec![image(Matrix::identity())])],
        Alignment { horizontal: HorizontalAlignment::Left, vertical: VerticalAlignment::Center },
        false,
    );
    assert_eq!(
        row.build_shapes(),
        vec![image(place(r(1, 4), zero(), r(3, 4), one()))]
    );
}

#[test]
fn nested_bars() {
    let widgets = vec![
        Sample::Row(HorizontalAlignment::Center, vec![(1, 1, false), (2, 1, false)]),
        Sample::Column(VerticalAlignment::Center, vec![(3, 1, false), (4, 1, false)]),
        Sample::Full,
        Sample::Full,
        Sample::Full,
    ];
    let mut ui = Ui::new(widgets, one()).unwrap();
    assert_eq!(
        ui.draw().unwrap(),
        vec![
            image(place(r(-1, 2), r(-1, 2), r(1, 2), r(1, 2))),
            image(place(r(-1, 2), r(1, 2), r(1, 2), r(1, 2))),
            image(place(r(1, 2), zero(), r(1, 2), one())),
        ]
    );
}

#[test]
fn a_widget_may_be_shown_twice() {
    let widgets = vec![
        Sample::Row(HorizontalAlignment::Center, vec![(1, 1, false), (1, 1, false)]),
        Sample::Part(r(1, 2), r(1, 2)),
    ];
    let mut ui = Ui::new(widgets, one()).unwrap();
    assert_eq!(
        ui.draw().unwrap(),
        vec![
            image(place(r(-1, 2), zero(), r(1, 4), r(1, 2))),
            image(place(r(1, 2), zero(), r(1, 4), r(1, 2))),
        ]
    );
}

#[test]
fn no_widgets_no_tree() {
    assert!(matches!(Ui::new(Vec::<Sample>::new(), one()), Err(LayoutError::MisplacedChild)));
    assert!(matches!(
        Node::new(&Widgets::new(vec![Sample::Full]).unwrap(), 1, &one(), Default::default()),
        Err(LayoutError::MisplacedChild)
    ));
}

#[test]
fn a_child_has_to_be_stored_behind_its_parent() {
    let itself = vec![Sample::Row(HorizontalAlignment::Center, vec![(0, 1, false)])];
    assert!(matches!(Ui::new(itself, one()), Err(LayoutError::MisplacedChild)));

    let missing = vec![Sample::Row(HorizontalAlignment::Center, vec![(1, 1, false)])];
    assert!(matches!(Ui::new(missing, one()), Err(LayoutError::MisplacedChild)));

    let before = vec![
        Sample::Column(VerticalAlignment::Center, vec![(2, 1, false)]),
        Sample::Full,
        Sample::Placed(vec![(Matrix::identity(), 1)]),
    ];
    assert!(matches!(Ui::new(before, one()), Err(LayoutError::MisplacedChild)));

    let placed = vec![Sample::Placed(vec![(Matrix::identity(), 0)])];
    assert!(matches!(Ui::new(placed, one()), Err(LayoutError::MisplacedChild)));

    let deep = vec![
        Sample::Placed(vec![(Matrix::identity(), 1), (Matrix::identity(), 2)]),
        Sample::Full,
        Sample::Row(HorizontalAlignment::Center, vec![(3, 1, false), (9, 1, false)]),
        Sample::Full,
    ];
    assert!(matches!(Ui::new(deep, one()), Err(LayoutError::MisplacedChild)));
}

#[test]
fn a_weight_is_at_least_one() {
    let none = vec![
        Sample::Row(HorizontalAlignment::Center, vec![(1, 1, false), (1, 0, false)]),
        Sample::Full,
    ];
    assert!(matches!(Ui::new(none, one()), Err(LayoutError::WeightBelowOne)));

    let negative =
        vec![Sample::Column(VerticalAlignment::Center, vec![(1, -1, false)]), Sample::Full];
    assert!(matches!(Ui::new(negative, one()), Err(LayoutError::WeightBelowOne)));

    // the weights are looked at before the children
    let both = vec![Sample::Row(HorizontalAlignment::Center, vec![(0, 1, false), (1, 0, false)])];
    assert!(matches!(Ui::new(both, one()), Err(LayoutError::WeightBelowOne)));

    let largest = vec![
        Sample::Row(HorizontalAlignment::Center, vec![(1, 127, false), (1, 127, false)]),
        Sample::Full,
    ];
    let mut ui = Ui::new(largest, one()).unwrap();
    assert_eq!(
        ui.draw().unwrap(),
        vec![
            image(place(r(-1, 2), zero(), r(1, 2), one())),
            image(place(r(1, 2), zero(), r(1, 2), one())),
        ]
    );
}

#[test]
fn with_layout_resolves_and_arranges() {
    let widgets =
        Widgets::new(vec![Sample::Full, Sample::Part(r(1, 2), one()), Sample::Full]).unwrap();
    let node = Node::with_layout(
        &widgets,
        0,
        vec![child(1, 1, true), child(2, 1, true)],
        Default::default(),
        false,
        &one(),
    )
    .unwrap();
    assert_eq!(
        node.build_shapes(),
        vec![
            image(place(r(-1, 2), zero(), r(1, 4), one())),
            image(place(r(1, 4), zero(), r(1, 2), one())),
        ]
    );
    assert!(matches!(
        Node::with_layout(&widgets, 1, vec![child(1, 1, true)], Default::default(), false, &one()),
        Err(LayoutError::MisplacedChild)
    ));
    assert!(matches!(
        Node::with_layout(&widgets, 0, vec![child(1, 0, true)], Default::default(), true, &one()),
        Err(LayoutError::WeightBelowOne)
    ));
}

#[test]
fn placed_node_from_its_parts() {
    let a = place(r(1, 2), zero(), r(1, 2), one());
    let node = Node::placed(
        0,
        vec![(a.clone(), Node::leaf(1, vec![image(Matrix::identity())])), (a.clone(), Node::leaf(2, Vec::new()))],
    );
    assert_eq!(node.build_shapes(), vec![image(a)]);
    assert_eq!(*node.margin(Edge::Top), zero());
    assert_eq!(*node.margin(Edge::Left), zero());
}

#[test]
fn draw_twice_gives_the_same_shapes() {
    let widgets = vec![
        Sample::Row(HorizontalAlignment::Right, vec![(1, 2, true), (2, 1, false)]),
        Sample::Part(r(1, 3), r(1, 2)),
        Sample::Column(VerticalAlignment::Top, vec![(3, 1, true)]),
        Sample::Part(r(1, 2), r(1, 5)),
    ];
    let mut ui = Ui::new(widgets, r(3, 4)).unwrap();
    let first = ui.draw().unwrap();
    let second = ui.draw().unwrap();
    assert_eq!(first.len(), 2);
    assert_eq!(first, second);
}

#[test]
fn viewport_ratio_reaches_the_widgets() {
    let mut ui = Ui::new(vec![Sample::Ratio], r(1, 2)).unwrap();
    assert_eq!(ui.draw().unwrap(), vec![image(Matrix::scale_wh(r(1, 2), one()))]);
    ui.set_viewport_height_per_width(r(3, 4)).unwrap();
    assert_eq!(ui.draw().unwrap(), vec![image(Matrix::scale_wh(r(3, 4), one()))]);
    ui.set_viewport_height_per_width(r(6, 8)).unwrap();
    assert_eq!(ui.draw().unwrap(), vec![image(Matrix::scale_wh(r(3, 4), one()))]);
}

#[test]
fn rebuild_takes_up_a_changed_widget() {
    let mut ui = Ui::new(vec![Sample::Full], one()).unwrap();
    assert_eq!(ui.draw().unwrap(), vec![image(Matrix::identity())]);
    assert!(ui.set_widget(0, Sample::Part(r(1, 2), r(1, 2))));
    assert!(!ui.set_widget(1, Sample::Full));
    // nothing asked for a rebuild, so the tree is the old one
    assert_eq!(ui.draw().unwrap(), vec![image(Matrix::identity())]);
    ui.rebuild().unwrap();
    assert_eq!(ui.draw().unwrap(), vec![image(Matrix::scale_wh(r(1, 2), r(1, 2)))]);
    assert!(matches!(ui.widget(), Sample::Part(_, _)));
    assert_eq!(ui.widgets().len(), 1);
}

#[test]
fn a_failed_rebuild_is_not_forgotten() {
    let mut ui = Ui::new(vec![Sample::Full], one()).unwrap();
    assert!(ui.set_widget(0, Sample::Row(HorizontalAlignment::Center, vec![(0, 1, false)])));
    assert_eq!(ui.rebuild(), Err(LayoutError::MisplacedChild));
    // the tree asks for a rebuild: every draw tries again and fails again
    assert_eq!(ui.draw(), Err(LayoutError::MisplacedChild));
    assert_eq!(ui.draw(), Err(LayoutError::MisplacedChild));
    assert_eq!(ui.set_viewport_height_per_width(r(1, 2)), Err(LayoutError::MisplacedChild));
    assert_eq!(ui.set_viewport_height_per_width(r(1, 2)), Ok(()));
    assert_eq!(ui.draw(), Err(LayoutError::MisplacedChild));
    // once the widgets can be resolved, the next draw takes them up
    assert!(ui.set_widget(0, Sample::Ratio));
    assert_eq!(ui.draw(), Ok(vec![image(Matrix::scale_wh(r(1, 2), one()))]));
    assert_eq!(ui.draw(), Ok(vec![image(Matrix::scale_wh(r(1, 2), one()))]));
}
