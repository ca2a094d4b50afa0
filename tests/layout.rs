use tuid::spacing::gaps;
use tuid::{
    Axis, BoxConstraints, Child, CrossAxisAlignment, DataWrapper, Flex, FlexParams,
    MainAxisAlignment, Point, Size, Text, Widget,
};

type Label = Text<u32, Box<dyn Fn(&DataWrapper<u32>) -> String>>;

fn label(s: &'static str) -> Label {
    let f: Box<dyn Fn(&DataWrapper<u32>) -> String> = Box::new(move |_d| s.to_string());
    let mut t = Text::new(f);
    t.update(&DataWrapper::new(0));
    t
}

fn placement(flex: &Flex<u32, Label>, i: usize) -> (Point, Size) {
    match flex.child(i) {
        Some(Child::Fixed { widget, .. }) | Some(Child::Flex { widget, .. }) => {
            (widget.origin(), widget.layout_size())
        }
        _ => panic!("entry {} is not a widget", i),
    }
}

fn spacer_length(flex: &Flex<u32, Label>, i: usize) -> usize {
    match flex.child(i) {
        Some(Child::FixedSpacer(_, c)) | Some(Child::FlexedSpacer(_, c)) => *c,
        _ => panic!("entry {} is not a spacer", i),
    }
}

#[test]
fn constrain_stays_within_bounds() {
    let bc = BoxConstraints::new(Size::new(2, 3), Size::new(10, 5));
    let below = bc.constrain(Size::new(0, 0));
    assert_eq!((below.width, below.height), (2, 3));
    let above = bc.constrain(Size::new(50, 50));
    assert_eq!((above.width, above.height), (10, 5));
    let inside = bc.constrain(Size::new(7, 4));
    assert_eq!((inside.width, inside.height), (7, 4));
    for w in 0..20 {
        for h in 0..20 {
            assert!(bc.contains(bc.constrain(Size::new(w, h))));
        }
    }
}

#[test]
fn box_constraints_operations() {
    let t = BoxConstraints::tight(Size::new(4, 6));
    assert_eq!(t.min(), Size::new(4, 6));
    assert_eq!(t.max(), Size::new(4, 6));
    let l = t.loosen();
    assert_eq!(l.min(), Size::new(0, 0));
    assert_eq!(l.max(), Size::new(4, 6));
    let s = BoxConstraints::new(Size::new(3, 1), Size::new(8, 9)).shrink(Size::new(5, 2));
    assert_eq!(s.min(), Size::new(0, 0));
    assert_eq!(s.max(), Size::new(3, 7));
    assert!(t.contains(Size::new(4, 6)));
    assert!(!t.contains(Size::new(4, 7)));
    assert!(t.is_width_bounded());
    assert!(!BoxConstraints::big().is_height_bounded());
    let from_terminal: BoxConstraints = (80u16, 24u16).into();
    assert_eq!(from_terminal.max(), Size::new(80, 24));
    assert_eq!(from_terminal.min(), Size::zero());
}

#[test]
fn size_clamp_and_conversion() {
    let s = Size::new(12, 1).clamp(Size::new(2, 2), Size::new(10, 10));
    assert_eq!(s, Size::new(10, 2));
    let t: Size = (7u16, 3u16).into();
    assert_eq!(t, Size::new(7, 3));
}

#[test]
fn pack_then_read_back() {
    for a in [Axis::Horizontal, Axis::Vertical] {
        for (m, n) in [(0usize, 0usize), (3, 9), (usize::MAX, 1)] {
            let (x, y) = a.pack(m, n);
            let s = Size::new(x, y);
            assert_eq!(a.major(s), m);
            assert_eq!(a.minor(s), n);
        }
    }
    assert_eq!(Axis::Vertical.pack(1, 2), (2, 1));
    assert_eq!(Axis::Horizontal.cross(), Axis::Vertical);
    assert_eq!(Axis::Vertical.major_pos(Point::new(4, 9)), 9);
    assert_eq!(Axis::Vertical.minor_pos(Point::new(4, 9)), 4);
}

#[test]
fn axis_constraints_rewrite_major_only() {
    let bc = BoxConstraints::new(Size::new(1, 2), Size::new(30, 40));
    let h = Axis::Horizontal.constraints(&bc, 5, 6);
    assert_eq!(h.min(), Size::new(5, 2));
    assert_eq!(h.max(), Size::new(6, 40));
    let v = Axis::Vertical.constraints(&bc, 5, 6);
    assert_eq!(v.min(), Size::new(1, 5));
    assert_eq!(v.max(), Size::new(30, 6));
}

#[test]
fn space_between_three_children() {
    assert_eq!(gaps(MainAxisAlignment::SpaceBetween, 10, 3), vec![0, 5, 5, 0]);
}

#[test]
fn gaps_for_each_alignment() {
    assert_eq!(gaps(MainAxisAlignment::Start, 7, 2), vec![0, 0, 7]);
    assert_eq!(gaps(MainAxisAlignment::End, 7, 2), vec![7, 0, 0]);
    assert_eq!(gaps(MainAxisAlignment::Center, 7, 2), vec![3, 0, 4]);
    assert_eq!(gaps(MainAxisAlignment::SpaceEvenly, 9, 2), vec![3, 3, 3]);
    assert_eq!(gaps(MainAxisAlignment::SpaceAround, 8, 2), vec![2, 4, 2]);
    assert_eq!(gaps(MainAxisAlignment::Start, 5, 0), vec![5]);
}

#[test]
fn gaps_have_length_and_sum() {
    let modes = [
        MainAxisAlignment::Start,
        MainAxisAlignment::End,
        MainAxisAlignment::Center,
        MainAxisAlignment::SpaceBetween,
        MainAxisAlignment::SpaceEvenly,
        MainAxisAlignment::SpaceAround,
    ];
    for m in modes {
        for n in 0..8usize {
            for slack in [0usize, 1, 2, 5, 13, 100] {
                let g = gaps(m, slack, n);
                assert_eq!(g.len(), n + 1);
                assert_eq!(g.iter().sum::<usize>(), slack);
            }
        }
    }
    for n in 0..2usize {
        for slack in [0usize, 3, 10] {
            assert_eq!(
                gaps(MainAxisAlignment::SpaceBetween, slack, n),
                gaps(MainAxisAlignment::Center, slack, n)
            );
        }
    }
}

#[test]
fn center_offset_rounds_half_of_slack() {
    assert_eq!(CrossAxisAlignment::Center.align(4), 2);
    assert_eq!(CrossAxisAlignment::Center.align(3), 2);
    assert_eq!(CrossAxisAlignment::End.align(4), 4);
    assert_eq!(CrossAxisAlignment::Start.align(4), 0);
}

#[test]
fn row_shares_room_one_to_three() {
    let mut row: Flex<u32, Label> = Flex::row()
        .with_child(label("abcd"))
        .with_flex_child(label("x"), FlexParams::new(1, None))
        .with_flex_child(label("y"), FlexParams::from(3));
    let size = row.layout(&BoxConstraints::tight(Size::new(20, 1)));
    assert_eq!(size, Size::new(20, 1));
    assert_eq!(placement(&row, 0), (Point::new(0, 0), Size::new(4, 1)));
    assert_eq!(placement(&row, 1), (Point::new(4, 0), Size::new(4, 1)));
    assert_eq!(placement(&row, 2), (Point::new(8, 0), Size::new(12, 1)));
}

#[test]
fn non_filling_row_keeps_child_width() {
    let mut row: Flex<u32, Label> = Flex::row().must_fill_main_axis(false).with_child(label("abcde"));
    let size = row.layout(&BoxConstraints::new(Size::zero(), Size::new(100, 1)));
    assert_eq!(size.width, 5);
    assert_eq!(size, Size::new(5, 1));
}

#[test]
fn filling_row_takes_all_width() {
    let mut row: Flex<u32, Label> = Flex::row().must_fill_main_axis(true).with_child(label("abcde"));
    let size = row.layout(&BoxConstraints::new(Size::zero(), Size::new(100, 1)));
    assert_eq!(size, Size::new(100, 1));
}

#[test]
fn centered_child_offset_across() {
    let mut row: Flex<u32, Label> =
        Flex::row().cross_axis_alignment(CrossAxisAlignment::Center).with_child(label("ab\ncd"));
    let size = row.layout(&BoxConstraints::tight(Size::new(10, 6)));
    assert_eq!(size, Size::new(10, 6));
    assert_eq!(placement(&row, 0), (Point::new(0, 2), Size::new(2, 2)));
}

#[test]
fn layout_twice_gives_same_result() {
    let mut col: Flex<u32, Label> = Flex::column()
        .main_axis_alignment(MainAxisAlignment::SpaceAround)
        .cross_axis_alignment(CrossAxisAlignment::End)
        .with_child(label("one"))
        .with_spacer(2)
        .with_flex_child(label("two"), FlexParams::new(2, Some(CrossAxisAlignment::Fill)))
        .with_flex_spacer(1)
        .with_child(label("three"));
    let bc = BoxConstraints::new(Size::new(0, 0), Size::new(12, 17));
    let first = col.layout(&bc);
    let places: Vec<(Point, Size)> = [0, 2, 4].iter().map(|&i| placement(&col, i)).collect();
    let second = col.layout(&bc);
    let again: Vec<(Point, Size)> = [0, 2, 4].iter().map(|&i| placement(&col, i)).collect();
    assert_eq!(first, second);
    assert_eq!(places, again);
}

#[test]
fn flex_shares_add_up_exactly() {
    for count in 1..=50u32 {
        let mut row: Flex<u32, Label> = Flex::row();
        for k in 0..count {
            row = row.with_flex_spacer(1 + (k * 7) % 5);
        }
        for width in [0usize, 1, 7, 33, 100, 997] {
            row.layout(&BoxConstraints::tight(Size::new(width, 1)));
            let total: usize = (0..count as usize).map(|i| spacer_length(&row, i)).sum();
            assert_eq!(total, width);
        }
    }
}

#[test]
fn rounding_carries_the_error() {
    let mut row: Flex<u32, Label> =
        Flex::row().with_flex_spacer(1).with_flex_spacer(1).with_flex_spacer(1);
    row.layout(&BoxConstraints::tight(Size::new(10, 1)));
    assert_eq!(
        (spacer_length(&row, 0), spacer_length(&row, 1), spacer_length(&row, 2)),
        (3, 4, 3)
    );
}

#[test]
fn zero_flex_becomes_fixed() {
    let mut row: Flex<u32, Label> = Flex::row()
        .with_flex_child(label("ab"), FlexParams::new(0, None))
        .with_flex_spacer(0);
    assert!(matches!(row.child(0), Some(Child::Fixed { .. })));
    assert!(matches!(row.child(1), Some(Child::FixedSpacer(0, _))));
    let size = row.layout(&BoxConstraints::new(Size::zero(), Size::new(10, 1)));
    assert_eq!(size, Size::new(2, 1));
}

#[test]
fn empty_container_constrains_zero() {
    let mut row: Flex<u32, Label> = Flex::row().must_fill_main_axis(true);
    let size = row.layout(&BoxConstraints::new(Size::new(3, 2), Size::new(9, 9)));
    assert_eq!(size, Size::new(3, 2));
}

#[test]
fn unbounded_flex_is_reported_and_gets_nothing() {
    let mut row: Flex<u32, Label> = Flex::row().with_child(label("abc")).with_flex_spacer(2);
    let bc = BoxConstraints::big();
    assert!(row.has_unbounded_flex(&bc));
    assert!(!row.has_unbounded_flex(&BoxConstraints::tight(Size::new(5, 5))));
    let size = row.layout(&bc);
    assert_eq!(spacer_length(&row, 1), 0);
    assert_eq!(size.width, 3);
}

#[test]
fn baseline_row_aligns_bottoms() {
    let mut row: Flex<u32, Label> = Flex::row()
        .cross_axis_alignment(CrossAxisAlignment::Baseline)
        .with_child(label("a\nb\nc"))
        .with_child(label("d"));
    let size = row.layout(&BoxConstraints::new(Size::zero(), Size::new(10, 10)));
    assert_eq!(size, Size::new(2, 3));
    assert_eq!(placement(&row, 0), (Point::new(0, 0), Size::new(1, 3)));
    assert_eq!(placement(&row, 1), (Point::new(1, 2), Size::new(1, 1)));
}

#[test]
fn space_evenly_places_children() {
    let mut row: Flex<u32, Label> = Flex::row()
        .must_fill_main_axis(true)
        .main_axis_alignment(MainAxisAlignment::SpaceEvenly)
        .with_child(label("ab"))
        .with_child(label("cd"));
    row.layout(&BoxConstraints::tight(Size::new(10, 1)));
    assert_eq!(placement(&row, 0).0, Point::new(2, 0));
    assert_eq!(placement(&row, 1).0, Point::new(6, 0));
}

#[test]
fn space_between_places_three_children() {
    let mut row: Flex<u32, Label> = Flex::row()
        .must_fill_main_axis(true)
        .main_axis_alignment(MainAxisAlignment::SpaceBetween)
        .with_child(label("ab"))
        .with_child(label("abc"))
        .with_child(label("abcde"));
    let size = row.layout(&BoxConstraints::tight(Size::new(20, 1)));
    assert_eq!(size, Size::new(20, 1));
    assert_eq!(placement(&row, 0).0, Point::new(0, 0));
    assert_eq!(placement(&row, 1).0, Point::new(7, 0));
    assert_eq!(placement(&row, 2).0, Point::new(15, 0));
}

#[test]
fn text_measures_after_update() {
    let mut t = label("abcd");
    let size = t.layout(&BoxConstraints::new(Size::zero(), Size::new(100, 1)));
    assert_eq!(size, Size::new(4, 1));
}

#[test]
fn filling_unbounded_row_without_flex_keeps_slack() {
    let mut row: Flex<u32, Label> = Flex::row().must_fill_main_axis(true).with_child(label("abc"));
    let size = row.layout(&BoxConstraints::big());
    assert_eq!(size.width, usize::MAX);
    assert_eq!(placement(&row, 0).0, Point::new(0, 0));
}
