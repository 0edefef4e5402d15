use oxwm::client::Client;
use oxwm::client::Rect;
use oxwm::size_hints::AspectRatio;
use oxwm::size_hints::SizeHints;
use oxwm::size_hints::P_ASPECT;
use oxwm::size_hints::P_BASE_SIZE;
use oxwm::size_hints::P_MAX_SIZE;
use oxwm::size_hints::P_MIN_SIZE;
use oxwm::size_hints::P_RESIZE_INC;

fn words(flags: u32) -> Vec<u32> {
    let mut words = vec![0u32; 18];
    words[0] = flags;
    words
}

fn area() -> Rect {
    Rect { x: 0, y: 0, width: 1920, height: 1080 }
}

fn clamp_hints() -> SizeHints {
    let mut property = words(P_MIN_SIZE | P_MAX_SIZE | P_RESIZE_INC);
    property[5] = 200;
    property[6] = 100;
    property[7] = 400;
    property[8] = 300;
    property[9] = 10;
    property[10] = 10;
    SizeHints::parse(&property).unwrap()
}

#[test]
fn size_hint_clamp() {
    let hints = clamp_hints();
    assert_eq!(hints.apply(205, 95), (200, 100));
    assert_eq!(hints.apply(218, 123), (210, 120));
    assert_eq!(hints.apply(1000, 1000), (400, 300));
    for width in 1..500 {
        let (allowed, _) = hints.apply(width, 150);
        assert!((200..=400).contains(&allowed));
        assert_eq!(allowed % 10, 0);
        assert!(allowed <= width.max(200));
    }
}

#[test]
fn constrain_applies_hints_to_floating_windows_only() {
    let mut client = Client::new(7, 0, 1);
    client.hints = clamp_hints();
    client.hints_valid = true;
    let floating = client.constrain(&area(), true, 10, 10, 205, 95);
    assert_eq!((floating.x, floating.y, floating.width, floating.height), (10, 10, 200, 100));
    assert!(floating.changed);
    let tiled = client.constrain(&area(), false, 10, 10, 205, 95);
    assert_eq!((tiled.width, tiled.height), (205, 95));
}

#[test]
fn constrain_without_valid_hints_leaves_the_size() {
    let mut client = Client::new(7, 0, 1);
    client.hints = clamp_hints();
    client.hints_valid = false;
    let result = client.constrain(&area(), true, 10, 10, 205, 95);
    assert_eq!((result.width, result.height), (205, 95));
}

#[test]
fn constrain_keeps_a_least_size() {
    let client = Client::new(7, 0, 1);
    let result = client.constrain(&area(), false, 0, 0, 0, -5);
    assert_eq!((result.width, result.height), (20, 20));
}

#[test]
fn constrain_holds_the_window_to_the_area() {
    let mut client = Client::new(7, 0, 1);
    client.width = 300;
    client.height = 200;
    client.border_width = 2;
    // beyond the far edges: put against them with the present size
    let far = client.constrain(&area(), false, 1920, 1080, 300, 200);
    assert_eq!((far.x, far.y), (1920 - 304, 1080 - 204));
    // before the near edges: put at them
    let near = client.constrain(&area(), false, -400, -300, 300, 200);
    assert_eq!((near.x, near.y), (0, 0));
    // inside: left alone
    let inside = client.constrain(&area(), false, 100, 50, 300, 200);
    assert_eq!((inside.x, inside.y), (100, 50));
}

#[test]
fn constrain_reports_change_against_the_present_geometry() {
    let mut client = Client::new(7, 0, 1);
    client.x_position = 100;
    client.y_position = 50;
    client.width = 300;
    client.height = 200;
    assert!(!client.constrain(&area(), false, 100, 50, 300, 200).changed);
    assert!(client.constrain(&area(), false, 101, 50, 300, 200).changed);
    assert!(client.constrain(&area(), false, 100, 50, 300, 201).changed);
}

#[test]
fn parse_takes_the_hints_that_the_flags_select() {
    let mut property = words(P_BASE_SIZE | P_MAX_SIZE | P_ASPECT);
    property[5] = 11;
    property[6] = 12;
    property[7] = 800;
    property[8] = 600;
    property[9] = 7;
    property[10] = 9;
    property[11] = 4;
    property[12] = 3;
    property[13] = 16;
    property[14] = 0;
    property[15] = 20;
    property[16] = 30;
    let hints = SizeHints::parse(&property).unwrap();
    assert_eq!(hints.base_width, 20);
    assert_eq!(hints.base_height, 30);
    // without a minimum size the base size stands in for it
    assert_eq!(hints.min_width, 20);
    assert_eq!(hints.min_height, 30);
    assert_eq!(hints.max_width, 800);
    assert_eq!(hints.max_height, 600);
    // increments are not selected
    assert_eq!(hints.increment_width, 0);
    assert_eq!(hints.increment_height, 0);
    assert_eq!(hints.min_aspect, AspectRatio { numerator: 3, denominator: 4 });
    // a denominator of 0 is kept as 1
    assert_eq!(hints.max_aspect, AspectRatio { numerator: 16, denominator: 1 });
}

#[test]
fn parse_takes_the_minimum_for_a_missing_base() {
    let mut property = words(P_MIN_SIZE);
    property[5] = 120;
    property[6] = 80;
    let hints = SizeHints::parse(&property).unwrap();
    assert_eq!((hints.base_width, hints.base_height), (120, 80));
    assert_eq!((hints.min_width, hints.min_height), (120, 80));
}

#[test]
fn parse_refuses_malformed_properties() {
    assert_eq!(SizeHints::parse(&[]), None);
    assert_eq!(SizeHints::parse(&vec![0u32; 17]), None);
    let mut property = words(P_MAX_SIZE);
    property[7] = 0x8000_0000;
    assert_eq!(SizeHints::parse(&property), None);
    // a field that no flag selects does not matter
    let mut unselected = words(0);
    unselected[7] = 0x8000_0000;
    assert_eq!(SizeHints::parse(&unselected), Some(SizeHints::none()));
}

#[test]
fn aspect_bounds_shrink_the_longer_side() {
    let mut hints = SizeHints::none();
    hints.min_aspect = AspectRatio { numerator: 1, denominator: 1 };
    hints.max_aspect = AspectRatio { numerator: 1, denominator: 1 };
    assert_eq!(hints.apply(300, 200), (200, 200));
    assert_eq!(hints.apply(200, 300), (200, 200));
    assert_eq!(hints.apply(200, 200), (200, 200));
    // sixteen to nine at most, three to four (height over width) at most
    hints.max_aspect = AspectRatio { numerator: 16, denominator: 9 };
    hints.min_aspect = AspectRatio { numerator: 3, denominator: 4 };
    assert_eq!(hints.apply(1000, 100), (178, 100));
    assert_eq!(hints.apply(100, 1000), (100, 75));
    assert_eq!(hints.apply(160, 100), (160, 100));
}

#[test]
fn one_unset_ratio_disables_both() {
    let mut hints = SizeHints::none();
    hints.max_aspect = AspectRatio { numerator: 1, denominator: 1 };
    assert_eq!(hints.apply(300, 200), (300, 200));
}

#[test]
fn increments_count_from_the_base_size() {
    let mut hints = SizeHints::none();
    hints.base_width = 10;
    hints.base_height = 4;
    hints.increment_width = 7;
    hints.increment_height = 5;
    assert_eq!(hints.apply(100, 50), (94, 49));
}

#[test]
fn fixed_windows_have_equal_bounds() {
    let mut hints = SizeHints::none();
    assert!(!hints.is_fixed());
    hints.min_width = 300;
    hints.max_width = 300;
    hints.min_height = 200;
    hints.max_height = 200;
    assert!(hints.is_fixed());
    assert_eq!(hints.apply(10, 10), (300, 200));
    hints.max_height = 201;
    assert!(!hints.is_fixed());
}
