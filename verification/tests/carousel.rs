use photopeek::carousel::Carousel;

fn listing(entries: &[&str]) -> Vec<String> {
    entries.iter().map(|e| e.to_string()).collect()
}

fn shown(c: &Carousel<i32>) -> Option<&str> {
    c.current_path().map(|p| p.as_str())
}

#[test]
fn mixed_listing_steps_through_the_images() {
    let mut c = Carousel::<i32>::initialize(listing(&["a.png", "b.txt", "c.jpg"]));
    assert_eq!(c.len(), 2);
    assert_eq!(shown(&c), Some("a.png"));
    assert!(c.advance());
    assert_eq!(shown(&c), Some("c.jpg"));
    assert!(!c.advance());
    assert_eq!(shown(&c), Some("c.jpg"));
}

#[test]
fn empty_listing_shows_nothing() {
    let c = Carousel::<i32>::initialize(Vec::new());
    assert_eq!(c.len(), 0);
    assert!(c.current_path().is_none());
    assert!(c.current().is_none());
}

#[test]
fn listing_without_images_shows_nothing() {
    let c = Carousel::<i32>::initialize(listing(&["notes.txt", "music.mp3"]));
    assert_eq!(c.len(), 0);
    assert!(c.current_path().is_none());
    assert!(c.current().is_none());
}

#[test]
fn advance_then_retreat_returns_to_the_same_entry() {
    let mut c = Carousel::<i32>::initialize(listing(&["a.png", "b.png", "c.png"]));
    assert_eq!(shown(&c), Some("a.png"));
    assert!(c.advance());
    assert_eq!(shown(&c), Some("b.png"));
    assert!(c.retreat());
    assert_eq!(shown(&c), Some("a.png"));
    assert!(c.advance());
    assert!(c.advance());
    assert_eq!(shown(&c), Some("c.png"));
    assert!(c.retreat());
    assert_eq!(shown(&c), Some("b.png"));
}

#[test]
fn retreat_at_the_first_entry_is_a_no_op() {
    let mut c = Carousel::<i32>::initialize(listing(&["a.png", "b.png"]));
    assert!(!c.retreat());
    assert_eq!(shown(&c), Some("a.png"));
}

#[test]
fn advance_at_the_last_entry_is_a_no_op() {
    let mut c = Carousel::<i32>::initialize(listing(&["a.png", "b.png"]));
    assert!(c.advance());
    assert!(!c.advance());
    assert_eq!(shown(&c), Some("b.png"));
}

#[test]
fn single_entry_never_moves() {
    let mut c = Carousel::<i32>::initialize(listing(&["only.jpeg"]));
    assert!(!c.advance());
    assert!(!c.retreat());
    assert_eq!(shown(&c), Some("only.jpeg"));
}

#[test]
fn initialize_keeps_the_listing_order() {
    let mut c = Carousel::<i32>::initialize(listing(&["z.jpg", "a.png", "m.jpeg"]));
    assert_eq!(c.len(), 3);
    assert_eq!(shown(&c), Some("z.jpg"));
    assert!(c.advance());
    assert_eq!(shown(&c), Some("a.png"));
    assert!(c.advance());
    assert_eq!(shown(&c), Some("m.jpeg"));
}

#[test]
fn initialize_stores_no_image() {
    let c = Carousel::<i32>::initialize(listing(&["a.png"]));
    assert!(c.current().is_none());
}

#[test]
fn stored_image_is_returned_until_replaced() {
    let mut c = Carousel::<i32>::initialize(listing(&["a.png"]));
    c.set_image(Some(7));
    assert_eq!(c.current(), Some(&7));
    c.set_image(None);
    assert!(c.current().is_none());
}

#[test]
fn moving_the_cursor_drops_the_stored_image() {
    let mut c = Carousel::<i32>::initialize(listing(&["a.png", "b.png"]));
    c.set_image(Some(1));
    assert!(c.advance());
    assert!(c.current().is_none());
    c.set_image(Some(2));
    assert!(c.retreat());
    assert!(c.current().is_none());
}

#[test]
fn failed_moves_keep_the_stored_image() {
    let mut c = Carousel::<i32>::initialize(listing(&["a.png"]));
    c.set_image(Some(3));
    assert!(!c.advance());
    assert_eq!(c.current(), Some(&3));
    assert!(!c.retreat());
    assert_eq!(c.current(), Some(&3));
}
