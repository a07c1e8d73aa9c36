use support::layout::{Bounds, CompleteBounds, Element, Screen, ViewElement};
use support::resolve::{
    filter_items, has_ignored_word, is_ignored, measure, translate, used_before, Extents,
    ResolveError,
};

fn corner(x: i32, y: i32, width: i32, height: i32) -> CompleteBounds {
    CompleteBounds {
        x: Some(x),
        y: Some(y),
        width: Some(width),
        height: Some(height),
        xc: None,
        yc: None,
        left: None,
        right: None,
        top: None,
        bottom: None,
    }
}

fn broken() -> CompleteBounds {
    CompleteBounds { x: None, ..corner(0, 0, 1, 1) }
}

fn element(name: &str) -> ViewElement {
    ViewElement::Element(Element {
        ref_name: name.to_string(),
        bounds: corner(0, 0, 10, 10),
        blend: None,
    })
}

fn overlay(name: &str) -> ViewElement {
    ViewElement::Overlay(Element {
        ref_name: name.to_string(),
        bounds: corner(0, 0, 10, 10),
        blend: None,
    })
}

fn screen(index: i32) -> ViewElement {
    ViewElement::Screen(Screen { index, bounds: corner(0, 0, 10, 10), blend: None })
}

#[test]
fn duplicate_ref_is_applied_once_at_its_first_place() {
    let items = vec![element("a"), element("b"), element("a"), screen(0), overlay("b")];
    let filtered = filter_items(&items).unwrap();
    assert_eq!(filtered.kept, vec![0, 1, 3]);
    assert_eq!(filtered.view_bounds, None);
}

#[test]
fn ref_names_are_compared_as_they_are_written() {
    let items = vec![element("a"), element("A"), element("a ")];
    assert_eq!(filter_items(&items).unwrap().kept, vec![0, 1, 2]);
}

#[test]
fn ignored_names_are_dropped() {
    let items = vec![
        element("Dust"),
        element("bezel"),
        element("my_GRADIENT_1"),
        element("bubbles2"),
        element("Unit"),
        element("BackDrop"),
        screen(1),
    ];
    assert_eq!(filter_items(&items).unwrap().kept, vec![1, 6]);
}

#[test]
fn an_ignored_name_still_counts_as_used() {
    let items = vec![element("dust"), element("dust"), element("x")];
    assert_eq!(filter_items(&items).unwrap().kept, vec![2]);
    assert!(!used_before(&items, 0, &"dust".to_string()));
    assert!(used_before(&items, 1, &"dust".to_string()));
}

#[test]
fn ignoring_goes_by_words_within_the_name() {
    assert!(is_ignored("dust"));
    assert!(is_ignored("DUST"));
    assert!(is_ignored("stardust_overlay"));
    assert!(is_ignored("Gradient"));
    assert!(is_ignored("fix_backdrop"));
    assert!(!is_ignored("bezel"));
    assert!(!is_ignored("dus"));
    assert!(!is_ignored(""));
    assert!(has_ignored_word("a unit b"));
    assert!(!has_ignored_word("UNIT"));
    assert!(!has_ignored_word("uni t"));
}

#[test]
fn view_bounds_are_noted() {
    let items = vec![element("a"), ViewElement::Bounds(corner(1, 2, 30, 40)), screen(0)];
    let filtered = filter_items(&items).unwrap();
    assert_eq!(filtered.view_bounds, Some(Bounds { x: 1, y: 2, width: 30, height: 40 }));
    assert_eq!(filtered.kept, vec![0, 2]);
}

#[test]
fn second_view_bounds_are_an_error() {
    let items = vec![
        ViewElement::Bounds(corner(1, 2, 30, 40)),
        element("a"),
        ViewElement::Bounds(corner(1, 2, 30, 40)),
    ];
    assert_eq!(filter_items(&items).err(), Some(ResolveError::MultipleViewBounds));
}

#[test]
fn malformed_view_bounds_are_an_error() {
    let items = vec![element("a"), ViewElement::Bounds(broken())];
    assert_eq!(filter_items(&items).err(), Some(ResolveError::MalformedBounds));
    let both = vec![ViewElement::Bounds(broken()), ViewElement::Bounds(corner(0, 0, 1, 1))];
    assert_eq!(filter_items(&both).err(), Some(ResolveError::MalformedBounds));
}

#[test]
fn extents_span_the_elements() {
    let elements = vec![
        Bounds { x: 10, y: 20, width: 100, height: 50 },
        Bounds { x: 5, y: 30, width: 20, height: 200 },
    ];
    assert_eq!(
        measure(&elements),
        Extents {
            common_x: 5,
            common_y: 20,
            view_bounds: Bounds { x: 0, y: 0, width: 105, height: 210 },
        }
    );
}

#[test]
fn extents_of_nothing_are_empty() {
    assert_eq!(
        measure(&vec![]),
        Extents { common_x: 0, common_y: 0, view_bounds: Bounds { x: 0, y: 0, width: 0, height: 0 } }
    );
}

#[test]
fn negative_corner_gives_no_common_offset() {
    let elements = vec![
        Bounds { x: -10, y: 4, width: 100, height: 50 },
        Bounds { x: 5, y: -3, width: 20, height: 20 },
    ];
    assert_eq!(
        measure(&elements),
        Extents {
            common_x: 0,
            common_y: 0,
            view_bounds: Bounds { x: 0, y: 0, width: 90, height: 54 },
        }
    );
}

#[test]
fn translation_stops_at_zero_for_corners_that_were_not_negative() {
    let bounds = Bounds { x: 3, y: 10, width: 7, height: 8 };
    assert_eq!(translate(&bounds, 5, 4), Bounds { x: 0, y: 6, width: 7, height: 8 });
    let negative = Bounds { x: -3, y: -1, width: 7, height: 8 };
    assert_eq!(translate(&negative, 5, 4), Bounds { x: -8, y: -5, width: 7, height: 8 });
    assert_eq!(translate(&bounds, 0, 0), bounds);
}
