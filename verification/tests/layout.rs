use oxwm::layout::grid::GridLayout;
use oxwm::layout::layout_from_str;
use oxwm::layout::monocle::MonocleLayout;
use oxwm::layout::next_layout;
use oxwm::layout::normie::NormieLayout;
use oxwm::layout::scrolling::ScrollingLayout;
use oxwm::layout::tabbed::TabbedLayout;
use oxwm::layout::tabbed::TAB_BAR_HEIGHT;
use oxwm::layout::tiling::TilingLayout;
use oxwm::layout::GapConfig;
use oxwm::layout::Layout;
use oxwm::layout::LayoutType;
use oxwm::layout::WindowGeometry;

fn gaps(inner_horizontal: u32, inner_vertical: u32, outer_horizontal: u32, outer_vertical: u32) -> GapConfig {
    GapConfig { inner_horizontal, inner_vertical, outer_horizontal, outer_vertical }
}

fn no_gaps() -> GapConfig {
    gaps(0, 0, 0, 0)
}

fn rect(x: i32, y: i32, width: u32, height: u32) -> WindowGeometry {
    WindowGeometry { x_coordinate: x, y_coordinate: y, width, height }
}

fn windows(count: usize) -> Vec<u32> {
    (1..=count as u32).collect()
}

#[test]
fn tiling_three_windows_one_master() {
    let arranged = TilingLayout.arrange(&windows(3), 1000, 600, &no_gaps(), 55, 1, true);
    assert_eq!(
        arranged,
        vec![rect(0, 0, 550, 600), rect(550, 0, 450, 300), rect(550, 300, 450, 300)]
    );
}

#[test]
fn tiling_master_heights_fill_the_column() {
    let heights = [7u32, 600, 601, 1079, 1080];
    for height in heights {
        for count in 1..=64usize {
            for masters in 1..=64i32 {
                let arranged =
                    TilingLayout.arrange(&windows(count), 1920, height, &gaps(3, 3, 5, 5), 55, masters, false);
                assert_eq!(arranged.len(), count);
                let in_master = count.min(masters as usize);
                let column = (height as i64 - 10 - 3 * (in_master as i64 - 1)).max(0);
                let sum: i64 = arranged[..in_master].iter().map(|g| g.height as i64).sum();
                assert_eq!(sum, column, "count {count} masters {masters} height {height}");
                let stacked = count - in_master;
                if stacked > 0 {
                    let stack_column = (height as i64 - 10 - 3 * (stacked as i64 - 1)).max(0);
                    let stack_sum: i64 = arranged[in_master..].iter().map(|g| g.height as i64).sum();
                    assert_eq!(stack_sum, stack_column);
                }
            }
        }
    }
}

#[test]
fn tiling_without_master_windows_has_no_master_heights() {
    let arranged = TilingLayout.arrange(&windows(3), 1000, 600, &no_gaps(), 55, 0, true);
    assert_eq!(
        arranged,
        vec![rect(0, 0, 1000, 200), rect(0, 200, 1000, 200), rect(0, 400, 1000, 200)]
    );
}

#[test]
fn tiling_remainder_goes_to_the_first_windows() {
    let arranged = TilingLayout.arrange(&windows(3), 900, 100, &no_gaps(), 50, 3, true);
    assert_eq!(
        arranged,
        vec![rect(0, 0, 900, 34), rect(0, 34, 900, 33), rect(0, 67, 900, 33)]
    );
}

#[test]
fn tiling_with_gaps() {
    let arranged = TilingLayout.arrange(&windows(2), 1000, 600, &gaps(10, 10, 20, 20), 50, 1, true);
    assert_eq!(arranged, vec![rect(20, 20, 475, 560), rect(505, 20, 475, 560)]);
}

#[test]
fn tiling_inner_gaps_between_stacked_windows() {
    let arranged = TilingLayout.arrange(&windows(3), 1000, 600, &gaps(10, 0, 0, 0), 60, 1, true);
    assert_eq!(
        arranged,
        vec![rect(0, 0, 600, 600), rect(600, 0, 400, 295), rect(600, 305, 400, 295)]
    );
}

#[test]
fn smart_gaps_drop_outer_gaps_around_a_lone_window() {
    let all = gaps(10, 10, 10, 10);
    let smart = TilingLayout.arrange(&windows(1), 1000, 600, &all, 55, 1, true);
    assert_eq!(smart, vec![rect(0, 0, 1000, 600)]);
    let plain = TilingLayout.arrange(&windows(1), 1000, 600, &all, 55, 1, false);
    assert_eq!(plain, vec![rect(10, 10, 980, 580)]);
    let two = TilingLayout.arrange(&windows(2), 1000, 600, &all, 50, 1, true);
    assert_eq!(two, vec![rect(10, 10, 485, 580), rect(505, 10, 485, 580)]);
}

#[test]
fn tiling_of_no_window_is_empty() {
    let arranged = TilingLayout.arrange(&windows(0), 1000, 600, &no_gaps(), 55, 1, true);
    assert!(arranged.is_empty());
}

#[test]
fn tiling_gaps_larger_than_the_screen_leave_no_size() {
    let arranged = TilingLayout.arrange(&windows(2), 100, 100, &gaps(0, 0, 80, 80), 55, 1, false);
    assert_eq!(arranged, vec![rect(80, 80, 0, 0), rect(80, 80, 0, 0)]);
}

#[test]
fn tiling_master_factor_above_one_leaves_no_stack_width() {
    let arranged = TilingLayout.arrange(&windows(2), 1000, 600, &no_gaps(), 150, 1, true);
    assert_eq!(arranged, vec![rect(0, 0, 1000, 600), rect(1000, 0, 0, 600)]);
}

#[test]
fn monocle_gives_every_window_the_whole_area() {
    let arranged = MonocleLayout.arrange(&windows(3), 1000, 600, &gaps(5, 5, 10, 20), 55, 1, true);
    assert_eq!(arranged, vec![rect(20, 10, 960, 580); 3]);
    let lone = MonocleLayout.arrange(&windows(1), 1000, 600, &gaps(5, 5, 10, 20), 55, 1, true);
    assert_eq!(lone, vec![rect(0, 0, 1000, 600)]);
}

#[test]
fn tabbed_windows_share_the_whole_area() {
    assert_eq!(TAB_BAR_HEIGHT, 28);
    let arranged = TabbedLayout.arrange(&windows(2), 1000, 600, &gaps(5, 5, 10, 20), 55, 1, false);
    assert_eq!(arranged, vec![rect(20, 10, 960, 580); 2]);
    let lone = TabbedLayout.arrange(&windows(1), 1000, 600, &gaps(5, 5, 10, 20), 55, 1, true);
    assert_eq!(lone, vec![rect(0, 0, 1000, 600)]);
}

#[test]
fn grid_of_five_windows() {
    let arranged = GridLayout.arrange(&windows(5), 900, 600, &no_gaps(), 55, 1, true);
    assert_eq!(
        arranged,
        vec![
            rect(0, 0, 300, 300),
            rect(300, 0, 300, 300),
            rect(600, 0, 300, 300),
            rect(0, 300, 300, 300),
            rect(300, 300, 300, 300),
        ]
    );
}

#[test]
fn grid_columns_are_the_ceiling_of_the_square_root() {
    assert_eq!(GridLayout::columns_of(0), 0);
    assert_eq!(GridLayout::columns_of(1), 1);
    assert_eq!(GridLayout::columns_of(2), 2);
    assert_eq!(GridLayout::columns_of(4), 2);
    assert_eq!(GridLayout::columns_of(5), 3);
    assert_eq!(GridLayout::columns_of(9), 3);
    assert_eq!(GridLayout::columns_of(10), 4);
}

#[test]
fn grid_with_gaps() {
    let arranged = GridLayout.arrange(&windows(4), 1000, 600, &gaps(10, 20, 5, 15), 55, 1, true);
    // two columns: (1000 - 30 - 20) / 2 = 475 wide; two rows: (600 - 10 - 10) / 2 = 290 high
    assert_eq!(
        arranged,
        vec![
            rect(15, 5, 475, 290),
            rect(510, 5, 475, 290),
            rect(15, 305, 475, 290),
            rect(510, 305, 475, 290),
        ]
    );
}

#[test]
fn scrolling_columns_run_off_the_area() {
    let arranged = ScrollingLayout.arrange(&windows(3), 1000, 600, &gaps(0, 10, 0, 0), 55, 2, true);
    assert_eq!(
        arranged,
        vec![rect(0, 0, 495, 600), rect(505, 0, 495, 600), rect(1010, 0, 495, 600)]
    );
}

#[test]
fn scrolling_shows_two_columns_by_default() {
    let arranged = ScrollingLayout.arrange(&windows(4), 1000, 600, &no_gaps(), 55, 0, true);
    assert_eq!(arranged.len(), 4);
    assert_eq!(arranged[0], rect(0, 0, 500, 600));
    assert_eq!(arranged[3], rect(1500, 0, 500, 600));
}

#[test]
fn scrolling_columns_keep_their_width_with_few_windows() {
    let arranged = ScrollingLayout.arrange(&windows(1), 1000, 600, &gaps(0, 10, 0, 0), 55, 3, false);
    assert_eq!(arranged, vec![rect(0, 0, 326, 600)]);
    let alone = ScrollingLayout.arrange(&windows(1), 1000, 600, &no_gaps(), 55, 0, true);
    assert_eq!(alone, vec![rect(0, 0, 500, 600)]);
    let pair = ScrollingLayout.arrange(&windows(2), 900, 600, &no_gaps(), 55, 3, true);
    assert_eq!(pair, vec![rect(0, 0, 300, 600), rect(300, 0, 300, 600)]);
}

#[test]
fn normie_arranges_nothing() {
    let arranged = NormieLayout.arrange(&windows(3), 1000, 600, &no_gaps(), 55, 1, true);
    assert!(arranged.is_empty());
}

#[test]
fn layout_type_dispatches() {
    let tiling = LayoutType::Tiling.arrange(&windows(3), 1000, 600, &no_gaps(), 55, 1, true);
    assert_eq!(tiling, TilingLayout.arrange(&windows(3), 1000, 600, &no_gaps(), 55, 1, true));
    let monocle = LayoutType::Monocle.arrange(&windows(2), 1000, 600, &no_gaps(), 55, 1, true);
    assert_eq!(monocle, vec![rect(0, 0, 1000, 600); 2]);
    assert!(LayoutType::Normie.arrange(&windows(2), 1000, 600, &no_gaps(), 55, 1, true).is_empty());
}

#[test]
fn layouts_cycle() {
    let mut layout = LayoutType::Tiling;
    let mut names = Vec::new();
    for _ in 0..7 {
        names.push(layout.as_str());
        layout = layout.next();
    }
    assert_eq!(names, vec!["tiling", "normie", "grid", "monocle", "tabbed", "scrolling", "tiling"]);
}

#[test]
fn layout_names_and_symbols() {
    assert_eq!(TilingLayout.name(), "tiling");
    assert_eq!(TilingLayout.symbol(), "[]=");
    assert_eq!(ScrollingLayout.name(), "scrolling");
    assert_eq!(ScrollingLayout.symbol(), "[>>]");
    assert_eq!(LayoutType::Monocle.symbol(), "[M]");
    assert_eq!(LayoutType::Grid.as_str(), "grid");
}

#[test]
fn layout_from_text_ignores_case() {
    assert_eq!(LayoutType::from_str("TILING"), Ok(LayoutType::Tiling));
    assert_eq!(LayoutType::from_str("Floating"), Ok(LayoutType::Normie));
    assert_eq!(LayoutType::from_str("normie"), Ok(LayoutType::Normie));
    assert_eq!(layout_from_str("Scrolling"), Ok(LayoutType::Scrolling));
    assert_eq!(LayoutType::from_name("TILING"), None);
    assert_eq!(LayoutType::from_name("tabbed"), Some(LayoutType::Tabbed));
}

#[test]
fn unknown_layout_is_an_error_with_the_text_as_given() {
    assert_eq!(LayoutType::from_str("Bogus"), Err("Invalid Layout Type: Bogus".to_string()));
}

#[test]
fn next_layout_by_name() {
    assert_eq!(next_layout("tiling"), "normie");
    assert_eq!(next_layout("TILING"), "normie");
    assert_eq!(next_layout("floating"), "grid");
    assert_eq!(next_layout("scrolling"), "tiling");
    assert_eq!(next_layout("bogus"), "tiling");
}
