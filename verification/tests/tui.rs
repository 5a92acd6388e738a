use hdrt::hardware::DiskInfo;
use hdrt::i18n::Lang;
use hdrt::options::{ChartMode, TuiTab};
use hdrt::tui::{
    chart_mode_status, cpu_column_width, disk_label, disk_list_visible_count, fit_disk_scroll, physical_disk_name,
    short_label, tab_index, Key, KeyAction, Navigation,
};

#[test]
fn chart_modes_cycle_in_the_documented_order() {
    let mut mode = ChartMode::Gauge;
    let mut seen = Vec::new();
    for _ in 0..5 {
        seen.push(mode);
        mode = mode.next();
    }
    assert_eq!(seen, vec![ChartMode::Gauge, ChartMode::Bar, ChartMode::Sparkline, ChartMode::Line, ChartMode::Scatter]);
    assert_eq!(mode, ChartMode::Gauge);
    assert_eq!(ChartMode::Gauge.prev(), ChartMode::Scatter);
    assert_eq!(ChartMode::Bar.label(Lang::EnUs), "bar");
}

#[test]
fn keys_move_between_tabs_and_disks() {
    let mut nav = Navigation::new(TuiTab::Overview, ChartMode::Gauge);
    assert_eq!(nav.handle_key(Key::Right, 3, 2), KeyAction::Redraw);
    assert_eq!(nav.tab, 1);
    nav.handle_key(Key::Char('J'), 3, 2);
    nav.handle_key(Key::Down, 3, 2);
    assert_eq!(nav.selected_physical_disk, 2);
    nav.handle_key(Key::Down, 3, 2);
    assert_eq!(nav.selected_physical_disk, 0);
    nav.handle_key(Key::Up, 3, 2);
    assert_eq!(nav.selected_physical_disk, 2);
    nav.handle_key(Key::Char('a'), 3, 2);
    nav.handle_key(Key::Left, 3, 2);
    assert_eq!(nav.tab, 6);
    assert_eq!(nav.handle_key(Key::Char('c'), 3, 2), KeyAction::ChartModeChanged);
    assert_eq!(nav.chart_mode, ChartMode::Bar);
    assert_eq!(nav.handle_key(Key::Char('r'), 3, 2), KeyAction::Refresh);
    assert_eq!(nav.handle_key(Key::Esc, 3, 2), KeyAction::Quit);
    assert_eq!(nav.handle_key(Key::Char('Q'), 3, 2), KeyAction::Quit);
}

#[test]
fn selections_are_clamped_after_a_sample() {
    let mut nav = Navigation::new(TuiTab::LogicalDisk, ChartMode::Line);
    assert_eq!(nav.tab, tab_index(TuiTab::LogicalDisk));
    nav.selected_disk = 5;
    nav.selected_physical_disk = 2;
    nav.clamp_selection(0, 3);
    assert_eq!(nav.selected_disk, 2);
    assert_eq!(nav.selected_physical_disk, 0);
}

#[test]
fn scrolling_keeps_the_selection_visible() {
    let mut offset = 0;
    assert_eq!(fit_disk_scroll(&mut offset, 5, 10, 3), 3);
    assert_eq!(offset, 3);
    assert_eq!(fit_disk_scroll(&mut offset, 1, 10, 3), 1);
    assert_eq!(fit_disk_scroll(&mut offset, 1, 0, 3), 0);
    let mut offset = 9;
    assert_eq!(fit_disk_scroll(&mut offset, 8, 10, 4), 6);
    assert_eq!(disk_list_visible_count(11), 3);
    assert_eq!(disk_list_visible_count(1), 0);
}

#[test]
fn layout_helpers() {
    assert_eq!(cpu_column_width(42), 19);
    assert_eq!(cpu_column_width(3), 0);
    assert_eq!(disk_label("sda1", "/"), "sda1 (/)");
    assert_eq!(disk_label("", "/"), "/");
    assert_eq!(disk_label("sda1", ""), "sda1");
    assert_eq!(short_label("  short  "), "short");
    assert_eq!(short_label("a very long label here"), "a very long l…");
    assert_eq!(chart_mode_status(Lang::EnUs, ChartMode::Scatter), "chart: scatter");
}

#[test]
fn physical_disks_are_named_by_model() {
    let mut d = DiskInfo::default();
    d.device = "PhysicalDrive0".to_string();
    assert_eq!(physical_disk_name(&d), "PhysicalDrive0");
    d.model = "SSD".to_string();
    assert_eq!(physical_disk_name(&d), "SSD");
}
