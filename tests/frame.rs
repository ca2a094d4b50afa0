use tuid::{DataWrapper, Flex, Region, Size, Text, Widget, Window};

type Label = Text<u32, Box<dyn Fn(&DataWrapper<u32>) -> String>>;

fn counter() -> Label {
    let f: Box<dyn Fn(&DataWrapper<u32>) -> String> =
        Box::new(|d| format!("n={}", d.get()));
    Text::new(f)
}

#[test]
fn window_draws_only_when_changed() {
    let mut w = Window::new(7u32, counter());
    assert!(w.draw(6, 2));
    let shown: String = w.buffer().iter().collect();
    assert_eq!(shown, "n=7         ");
    assert!(!w.draw(6, 2));
    *w.data_mut() = 42;
    assert!(w.draw(4, 1));
    let shown: String = w.buffer().iter().collect();
    assert_eq!(shown, "n=42");
}

#[test]
fn text_wraps_at_max_width() {
    let f: Box<dyn Fn(&DataWrapper<u32>) -> String> = Box::new(|_| "abcdefg".to_string());
    let mut t = Text::new(f);
    t.update(&DataWrapper::new(0));
    assert_eq!(t.text(), "abcdefg");
    let size = t.layout(&tuid::BoxConstraints::new(Size::zero(), Size::new(3, 10)));
    assert_eq!(size, Size::new(3, 3));
    let mut buf = vec!['.'; 9];
    t.paint(&mut buf, Region::full(Size::new(3, 3)));
    assert_eq!(buf.iter().collect::<String>(), "abcdefg..");
}

#[test]
fn row_paints_children_at_their_origins() {
    let mut w = Window::new(
        3u32,
        Flex::row().with_child(counter()).with_spacer(1).with_child(counter()),
    );
    assert!(w.draw(9, 1));
    assert_eq!(w.buffer().iter().collect::<String>(), "n=3 n=3  ");
}

#[test]
fn data_wrapper_tracks_changes() {
    let mut d = DataWrapper::new(5u32);
    assert!(d.changed());
    assert!(!d.changed());
    *d.get_mut() += 1;
    assert_eq!(*d.get(), 6);
    assert!(d.changed());
}
