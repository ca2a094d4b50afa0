use tuid::geometry::Insets;
use tuid::{Axis, BoxConstraints, Point, Rect, Region, Size, Text, Vec2, Widget, WidgetPod};
use tuid::DataWrapper;

#[test]
fn rect_union_and_insets() {
    let a = Rect { x0: 2, y0: 3, x1: 6, y1: 5 };
    let b = Rect { x0: 0, y0: 4, x1: 5, y1: 9 };
    assert_eq!(a.union(b), Rect { x0: 0, y0: 3, x1: 6, y1: 9 });
    assert_eq!(b.sub(a), Insets { x0: 2, y0: 0, x1: 0, y1: 4 });
    assert_eq!(a.size(), Size::new(4, 2));
    assert_eq!(Rect::zero().with_size(Size::new(7, 8)), Rect { x0: 0, y0: 0, x1: 7, y1: 8 });
}

#[test]
fn axis_spans_and_vectors() {
    let r = Rect { x0: 1, y0: 2, x1: 3, y1: 4 };
    assert_eq!(Axis::Horizontal.major_span(r), (1, 3));
    assert_eq!(Axis::Horizontal.minor_span(r), (2, 4));
    assert_eq!(Axis::Vertical.major_span(r), (2, 4));
    let v = Vec2::new(5, 6);
    assert_eq!(Axis::Horizontal.major_vec(v), 5);
    assert_eq!(Axis::Horizontal.minor_vec(v), 6);
    assert_eq!(Axis::Vertical.major_vec(v), 6);
}

#[test]
fn region_clips_writes() {
    let full = Region::full(Size::new(4, 3));
    let sub = full.sub(Point::new(2, 1), Size::new(5, 5));
    assert_eq!(sub, Region { stride: 4, x: 2, y: 1, width: 2, height: 2 });
    let mut buf = vec!['.'; 12];
    sub.put(&mut buf, 0, 0, 'a');
    sub.put(&mut buf, 1, 1, 'b');
    sub.put(&mut buf, 2, 0, 'c');
    assert_eq!(buf.iter().collect::<String>(), "......a....b");
}

#[test]
fn widget_pod_records_layout_and_origin() {
    let f: Box<dyn Fn(&DataWrapper<u32>) -> String> = Box::new(|_| "hey".to_string());
    let mut pod = WidgetPod::new(Text::new(f));
    pod.update(&DataWrapper::new(1));
    assert_eq!(pod.origin(), Point::new(0, 0));
    let size = pod.layout(&BoxConstraints::new(Size::zero(), Size::new(10, 10)));
    assert_eq!(size, Size::new(3, 1));
    assert_eq!(pod.layout_size(), Size::new(3, 1));
    pod.set_origin(Point::new(1, 1));
    let mut buf = vec![' '; 10];
    pod.paint(&mut buf, Region::full(Size::new(5, 2)));
    assert_eq!(buf.iter().collect::<String>(), "      hey ");
}
