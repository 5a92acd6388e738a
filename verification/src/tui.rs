//! The live view's navigation: which tab and which disk are selected, how
//! the history panels are drawn, and how keys change that. Drawing the
//! screen and sampling the system are left to the program, which hands
//! each key to `Navigation::handle_key` and acts on what it returns.

use vstd::prelude::*;

use crate::hardware::{is_unknown, unknown_text, DiskInfo};
use crate::i18n::{t, tr, Lang};
use crate::options::{ChartMode, TuiTab};
use crate::text::{chars_of, decimal, decimal_string, lower_char, lower_char_of, push_char, string_of_range, trim, trimmed};

verus! {

/// How many tabs the live view has.
pub const TAB_COUNT: usize = 7;

/// The height of one entry of a disk list, in rows.
pub const DISK_LIST_ITEM_HEIGHT: u16 = 3;

/// The gap between the two columns of processor gauges.
pub const CPU_COLUMN_GAP: usize = 2;

/// The longest history label, in characters.
pub const SHORT_LABEL_MAX: usize = 14;

/// The position of a tab.
pub open spec fn tab_position(tab: TuiTab) -> usize {
    match tab {
        TuiTab::Overview => 0,
        TuiTab::PhysicalDisk => 1,
        TuiTab::LogicalDisk => 2,
        TuiTab::Memory => 3,
        TuiTab::Cpu => 4,
        TuiTab::Motherboard => 5,
        TuiTab::Warnings => 6,
    }
}

/// The position of a tab.
pub fn tab_index(tab: TuiTab) -> (r: usize)
    ensures
        r == tab_position(tab),
        r < TAB_COUNT,
{
    match tab {
        TuiTab::Overview => 0,
        TuiTab::PhysicalDisk => 1,
        TuiTab::LogicalDisk => 2,
        TuiTab::Memory => 3,
        TuiTab::Cpu => 4,
        TuiTab::Motherboard => 5,
        TuiTab::Warnings => 6,
    }
}

/// The drawing mode after `m`, in the cycle gauge, bar, sparkline, line, scatter.
pub open spec fn next_mode(m: ChartMode) -> ChartMode {
    match m {
        ChartMode::Gauge => ChartMode::Bar,
        ChartMode::Bar => ChartMode::Sparkline,
        ChartMode::Sparkline => ChartMode::Line,
        ChartMode::Line => ChartMode::Scatter,
        ChartMode::Scatter => ChartMode::Gauge,
    }
}

/// The drawing mode before `m` in the cycle.
pub open spec fn prev_mode(m: ChartMode) -> ChartMode {
    match m {
        ChartMode::Gauge => ChartMode::Scatter,
        ChartMode::Bar => ChartMode::Gauge,
        ChartMode::Sparkline => ChartMode::Bar,
        ChartMode::Line => ChartMode::Sparkline,
        ChartMode::Scatter => ChartMode::Line,
    }
}

/// The label key of a drawing mode.
pub open spec fn mode_key(m: ChartMode) -> Seq<char> {
    match m {
        ChartMode::Line => "tui.chart.line"@,
        ChartMode::Scatter => "tui.chart.scatter"@,
        ChartMode::Bar => "tui.chart.bar"@,
        ChartMode::Sparkline => "tui.chart.sparkline"@,
        ChartMode::Gauge => "tui.chart.gauge"@,
    }
}

impl ChartMode {
    /// The next drawing mode.
    pub fn next(self) -> (r: Self)
        ensures
            r == next_mode(self),
    {
        match self {
            ChartMode::Gauge => ChartMode::Bar,
            ChartMode::Bar => ChartMode::Sparkline,
            ChartMode::Sparkline => ChartMode::Line,
            ChartMode::Line => ChartMode::Scatter,
            ChartMode::Scatter => ChartMode::Gauge,
        }
    }

    /// The previous drawing mode.
    pub fn prev(self) -> (r: Self)
        ensures
            r == prev_mode(self),
    {
        match self {
            ChartMode::Gauge => ChartMode::Scatter,
            ChartMode::Bar => ChartMode::Gauge,
            ChartMode::Sparkline => ChartMode::Bar,
            ChartMode::Line => ChartMode::Sparkline,
            ChartMode::Scatter => ChartMode::Line,
        }
    }

    /// The mode's name in `lang`.
    pub fn label(self, lang: Lang) -> (r: &'static str)
        ensures
            r@ == tr(lang, mode_key(self)),
    {
        match self {
            ChartMode::Line => t(lang, "tui.chart.line"),
            ChartMode::Scatter => t(lang, "tui.chart.scatter"),
            ChartMode::Bar => t(lang, "tui.chart.bar"),
            ChartMode::Sparkline => t(lang, "tui.chart.sparkline"),
            ChartMode::Gauge => t(lang, "tui.chart.gauge"),
        }
    }
}

/// Going back after going forward, or forward after going back, returns
/// to the same drawing mode.
pub proof fn lemma_chart_mode_round_trip(m: ChartMode)
    ensures
        prev_mode(next_mode(m)) == m,
        next_mode(prev_mode(m)) == m,
{
}

/// Five steps forward visit every drawing mode once and return to the start.
pub proof fn lemma_chart_mode_cycle(m: ChartMode)
    ensures
        next_mode(next_mode(next_mode(next_mode(next_mode(m))))) == m,
        m != next_mode(m),
        m != next_mode(next_mode(m)),
        m != next_mode(next_mode(next_mode(m))),
        m != next_mode(next_mode(next_mode(next_mode(m)))),
{
}

/// A key as the live view reads it.
#[derive(Debug, Clone, Copy, PartialEq, Eq, Structural)]
pub enum Key {
    Char(char),
    Esc,
    Tab,
    BackTab,
    Left,
    Right,
    Up,
    Down,
    Other,
}

/// What the program does after a key.
#[derive(Debug, Clone, Copy, PartialEq, Eq, Structural)]
pub enum KeyAction {
    /// Leave the live view.
    Quit,
    /// Collect the inventory again and restart sampling.
    Refresh,
    /// The drawing mode changed: show it in the status line.
    ChartModeChanged,
    /// Nothing beyond redrawing.
    Redraw,
}

/// Which tab, disks and drawing mode the live view shows.
#[derive(Debug, Clone, Copy, PartialEq, Eq, Structural)]
pub struct Navigation {
    pub tab: usize,
    pub selected_physical_disk: usize,
    pub selected_disk: usize,
    pub chart_mode: ChartMode,
}

/// The tab after `tab`, wrapping round.
pub open spec fn next_tab_of(tab: usize) -> usize {
    ((tab + 1) % (TAB_COUNT as int)) as usize
}

/// The tab before `tab`, wrapping round.
pub open spec fn prev_tab_of(tab: usize) -> usize {
    ((tab + TAB_COUNT - 1) % (TAB_COUNT as int)) as usize
}

/// The selection after `i` in a list of `len`, wrapping round.
pub open spec fn next_in(i: usize, len: usize) -> usize {
    if len == 0 { i } else { ((i + 1) % (len as int)) as usize }
}

/// The selection before `i` in a list of `len`, wrapping round.
pub open spec fn prev_in(i: usize, len: usize) -> usize {
    if len == 0 { i } else { ((i + len - 1) % (len as int)) as usize }
}

/// The lower-case form of a typed letter.
pub open spec fn key_char(c: char) -> char {
    lower_char(c)
}

/// Whether a key moves to the next tab.
pub open spec fn is_next_tab(k: Key) -> bool {
    k == Key::Tab || k == Key::Right || (k matches Key::Char(c) && (key_char(c) == 'w' || key_char(c) == 'd'))
}

/// Whether a key moves to the previous tab.
pub open spec fn is_prev_tab(k: Key) -> bool {
    k == Key::BackTab || k == Key::Left || (k matches Key::Char(c) && (key_char(c) == 'a' || key_char(c) == 's'))
}

/// Whether a key selects the next disk.
pub open spec fn is_next_disk(k: Key) -> bool {
    k == Key::Down || (k matches Key::Char(c) && key_char(c) == 'j')
}

/// Whether a key selects the previous disk.
pub open spec fn is_prev_disk(k: Key) -> bool {
    k == Key::Up || (k matches Key::Char(c) && key_char(c) == 'k')
}

/// Whether a key leaves the live view.
pub open spec fn is_quit(k: Key) -> bool {
    k == Key::Esc || (k matches Key::Char(c) && key_char(c) == 'q')
}

/// The navigation after selecting the next (`forward`) or previous disk of
/// the disk tab shown: physical disks on tab 1, volumes on tab 2.
pub open spec fn moved_disk(n: Navigation, forward: bool, physical: usize, volumes: usize) -> Navigation {
    if n.tab == 1 {
        Navigation {
            selected_physical_disk: if forward {
                next_in(n.selected_physical_disk, physical)
            } else {
                prev_in(n.selected_physical_disk, physical)
            },
            ..n
        }
    } else if n.tab == 2 {
        Navigation {
            selected_disk: if forward { next_in(n.selected_disk, volumes) } else { prev_in(n.selected_disk, volumes) },
            ..n
        }
    } else {
        n
    }
}

/// What a key does to the navigation, given how many physical disks and
/// sampled volumes there are, and what the program must do next.
pub open spec fn after_key(n: Navigation, k: Key, physical: usize, volumes: usize) -> (Navigation, KeyAction) {
    if is_quit(k) {
        (n, KeyAction::Quit)
    } else if is_next_tab(k) {
        (Navigation { tab: next_tab_of(n.tab), ..n }, KeyAction::Redraw)
    } else if is_prev_tab(k) {
        (Navigation { tab: prev_tab_of(n.tab), ..n }, KeyAction::Redraw)
    } else if is_next_disk(k) {
        (moved_disk(n, true, physical, volumes), KeyAction::Redraw)
    } else if is_prev_disk(k) {
        (moved_disk(n, false, physical, volumes), KeyAction::Redraw)
    } else if k matches Key::Char(c) && key_char(c) == 'z' {
        (Navigation { chart_mode: prev_mode(n.chart_mode), ..n }, KeyAction::ChartModeChanged)
    } else if k matches Key::Char(c) && key_char(c) == 'c' {
        (Navigation { chart_mode: next_mode(n.chart_mode), ..n }, KeyAction::ChartModeChanged)
    } else if k matches Key::Char(c) && key_char(c) == 'r' {
        (n, KeyAction::Refresh)
    } else {
        (n, KeyAction::Redraw)
    }
}

/// A selection kept inside a list of `len`: the last entry when it ran
/// past the end, the first when the list is empty.
pub open spec fn clamped(i: usize, len: usize) -> usize {
    if len == 0 { 0 } else if i >= len { (len - 1) as usize } else { i }
}

/// The selection after `i` in a list of `len`, wrapping round.
fn next_index(i: usize, len: usize) -> (r: usize)
    requires
        i < usize::MAX,
    ensures
        r == next_in(i, len),
{
    if len == 0 { i } else { (i + 1) % len }
}

/// Inside a list, the next and previous selections step by one and wrap
/// at the ends.
proof fn lemma_steps(i: usize, len: usize)
    requires
        i < len,
    ensures
        next_in(i, len) == if i + 1 == len { 0 } else { i + 1 },
        prev_in(i, len) == if i == 0 { len - 1 } else { i - 1 },
{
    if i + 1 == len {
        vstd::arithmetic::div_mod::lemma_fundamental_div_mod_converse_mod((i + 1) as int, len as int, 1, 0);
    } else {
        vstd::arithmetic::div_mod::lemma_fundamental_div_mod_converse_mod((i + 1) as int, len as int, 0, (i + 1) as int);
    }
    if i == 0 {
        vstd::arithmetic::div_mod::lemma_fundamental_div_mod_converse_mod((len - 1) as int, len as int, 0, (len - 1) as int);
    } else {
        vstd::arithmetic::div_mod::lemma_fundamental_div_mod_converse_mod((i + len - 1) as int, len as int, 1, (i - 1) as int);
    }
}

/// The selection before `i` in a list of `len`, wrapping round.
fn prev_index(i: usize, len: usize) -> (r: usize)
    requires
        i < len || len == 0,
    ensures
        r == prev_in(i, len),
{
    if len == 0 {
        return i;
    }
    proof {
        lemma_steps(i, len);
    }
    if i == 0 { len - 1 } else { i - 1 }
}

impl Navigation {
    /// The selections are inside their lists and the tab exists.
    pub open spec fn valid(self, physical: usize, volumes: usize) -> bool {
        &&& self.tab < TAB_COUNT
        &&& (physical == 0 ==> self.selected_physical_disk == 0)
        &&& (physical > 0 ==> self.selected_physical_disk < physical)
        &&& (volumes == 0 ==> self.selected_disk == 0)
        &&& (volumes > 0 ==> self.selected_disk < volumes)
    }

    /// The view opening on `tab`, with nothing selected yet.
    pub fn new(tab: TuiTab, chart_mode: ChartMode) -> (r: Self)
        ensures
            r.tab == tab_position(tab),
            r.selected_physical_disk == 0,
            r.selected_disk == 0,
            r.chart_mode == chart_mode,
    {
        Navigation { tab: tab_index(tab), selected_physical_disk: 0, selected_disk: 0, chart_mode }
    }

    /// Keeps both selections inside their lists after a new sample.
    pub fn clamp_selection(&mut self, physical: usize, volumes: usize)
        ensures
            final(self).tab == old(self).tab,
            final(self).chart_mode == old(self).chart_mode,
            final(self).selected_physical_disk == clamped(old(self).selected_physical_disk, physical),
            final(self).selected_disk == clamped(old(self).selected_disk, volumes),
    {
        if volumes == 0 {
            self.selected_disk = 0;
        } else if self.selected_disk >= volumes {
            self.selected_disk = volumes - 1;
        }
        if physical == 0 {
            self.selected_physical_disk = 0;
        } else if self.selected_physical_disk >= physical {
            self.selected_physical_disk = physical - 1;
        }
    }

    /// Applies a key; returns what the program must do next.
    pub fn handle_key(&mut self, key: Key, physical: usize, volumes: usize) -> (r: KeyAction)
        requires
            old(self).valid(physical, volumes),
        ensures
            (*final(self), r) == after_key(*old(self), key, physical, volumes),
            final(self).valid(physical, volumes),
    {
        let c: Option<char> = match key {
            Key::Char(ch) => Some(lower_char_of(ch)),
            _ => None,
        };
        let quit = key == Key::Esc || c == Some('q');
        let next_tab = key == Key::Tab || key == Key::Right || c == Some('w') || c == Some('d');
        let prev_tab = key == Key::BackTab || key == Key::Left || c == Some('a') || c == Some('s');
        let next_disk = key == Key::Down || c == Some('j');
        let prev_disk = key == Key::Up || c == Some('k');
        if quit {
            return KeyAction::Quit;
        }
        if next_tab {
            self.tab = (self.tab + 1) % TAB_COUNT;
            return KeyAction::Redraw;
        }
        if prev_tab {
            self.tab = (self.tab + TAB_COUNT - 1) % TAB_COUNT;
            return KeyAction::Redraw;
        }
        if next_disk || prev_disk {
            if self.tab == 1 {
                self.selected_physical_disk = if next_disk {
                    next_index(self.selected_physical_disk, physical)
                } else {
                    prev_index(self.selected_physical_disk, physical)
                };
            } else if self.tab == 2 {
                self.selected_disk = if next_disk {
                    next_index(self.selected_disk, volumes)
                } else {
                    prev_index(self.selected_disk, volumes)
                };
            }
            return KeyAction::Redraw;
        }
        if c == Some('z') {
            self.chart_mode = self.chart_mode.prev();
            return KeyAction::ChartModeChanged;
        }
        if c == Some('c') {
            self.chart_mode = self.chart_mode.next();
            return KeyAction::ChartModeChanged;
        }
        if c == Some('r') {
            return KeyAction::Refresh;
        }
        KeyAction::Redraw
    }
}

/// Moving to the next tab and back, or back and then on, returns to the same tab.
pub proof fn lemma_tab_round_trip(tab: usize)
    requires
        tab < TAB_COUNT,
    ensures
        prev_tab_of(next_tab_of(tab)) == tab,
        next_tab_of(prev_tab_of(tab)) == tab,
{
}

/// Selecting the next disk and then the previous one, or the other way
/// round, returns to the same disk.
pub proof fn lemma_disk_round_trip(i: usize, len: usize)
    requires
        i < len,
    ensures
        prev_in(next_in(i, len), len) == i,
        next_in(prev_in(i, len), len) == i,
{
    lemma_steps(i, len);
    lemma_steps(next_in(i, len), len);
    lemma_steps(prev_in(i, len), len);
}

/// The status line after a change of drawing mode.
pub open spec fn mode_status(lang: Lang, m: ChartMode) -> Seq<char> {
    tr(lang, "tui.chart_mode"@) + ": "@ + tr(lang, mode_key(m))
}

/// The status line after a change of drawing mode.
pub fn chart_mode_status(lang: Lang, m: ChartMode) -> (r: String)
    ensures
        r@ == mode_status(lang, m),
{
    let mut r = String::from_str(t(lang, "tui.chart_mode"));
    r.append(": ");
    r.append(m.label(lang));
    r
}

/// The status line that shows the sampling interval.
pub fn interval_status(lang: Lang, interval_ms: u64) -> (r: String)
    ensures
        r@ == tr(lang, "tui.interval"@) + ": "@ + decimal(interval_ms as nat) + " ms"@,
{
    let mut r = String::from_str(t(lang, "tui.interval"));
    r.append(": ");
    r.append(decimal_string(interval_ms as u128).as_str());
    r.append(" ms");
    r
}

/// The first row of a disk list that is drawn: moved only as far as keeps
/// the selection visible.
pub open spec fn scroll_offset(offset: usize, selected: usize, len: usize, visible: usize) -> usize {
    if len == 0 || visible == 0 {
        0
    } else {
        let sel = if selected < len { selected } else { (len - 1) as usize };
        let vis = if visible < len { visible } else { len };
        let max_offset = (len - vis) as usize;
        let o = if offset < max_offset { offset } else { max_offset };
        if sel < o {
            sel
        } else if sel >= o + vis {
            (sel + 1 - vis) as usize
        } else {
            o
        }
    }
}

/// Moves the first drawn row of a disk list so the selection stays
/// visible; returns it.
pub fn fit_disk_scroll(offset: &mut usize, selected: usize, len: usize, visible_count: usize) -> (r: usize)
    ensures
        r == scroll_offset(*old(offset), selected, len, visible_count),
        *final(offset) == r,
{
    if len == 0 || visible_count == 0 {
        *offset = 0;
        return 0;
    }
    let sel = if selected < len { selected } else { len - 1 };
    let vis = if visible_count < len { visible_count } else { len };
    let max_offset = len - vis;
    if *offset > max_offset {
        *offset = max_offset;
    }
    if sel < *offset {
        *offset = sel;
    } else if sel >= *offset + vis {
        *offset = sel + 1 - vis;
    }
    *offset
}

/// The selection stays inside the rows that are drawn.
pub proof fn lemma_scroll_keeps_selection_visible(offset: usize, selected: usize, len: usize, visible: usize)
    requires
        selected < len,
        visible > 0,
    ensures
        scroll_offset(offset, selected, len, visible) <= selected,
        selected < scroll_offset(offset, selected, len, visible) + visible,
        scroll_offset(offset, selected, len, visible) + (if visible < len { visible } else { len }) <= len,
{
}

/// How many entries of a disk list fit in `height` rows inside borders.
pub fn disk_list_visible_count(height: u16) -> (r: usize)
    ensures
        r == (if height < 2 { 0 } else { (height - 2) / (DISK_LIST_ITEM_HEIGHT as int) }),
{
    let inner: u16 = if height < 2 { 0 } else { height - 2 };
    (inner / DISK_LIST_ITEM_HEIGHT) as usize
}

/// The width of one column of processor gauges inside borders.
pub fn cpu_column_width(area_width: u16) -> (r: usize)
    ensures
        r == ({
            let inner: int = if area_width < 2 { 0 } else { area_width - 2 };
            if inner < CPU_COLUMN_GAP { 0 } else { (inner - CPU_COLUMN_GAP) / 2 }
        }),
{
    let inner: usize = if area_width < 2 { 0 } else { (area_width - 2) as usize };
    let rest: usize = if inner < CPU_COLUMN_GAP { 0 } else { inner - CPU_COLUMN_GAP };
    rest / 2
}

/// The name a physical disk is listed under: its model, or its device
/// when the model is unknown.
pub open spec fn disk_name(d: DiskInfo) -> Seq<char> {
    if d.model@ == unknown_text() { d.device@ } else { d.model@ }
}

/// The name a physical disk is listed under.
pub fn physical_disk_name(d: &DiskInfo) -> (r: String)
    ensures
        r@ == disk_name(*d),
{
    if is_unknown(d.model.as_str()) {
        String::from_str(d.device.as_str())
    } else {
        String::from_str(d.model.as_str())
    }
}

/// How a sampled volume is labelled: its name and mount point, or
/// whichever of them is not empty.
pub open spec fn volume_caption(name: Seq<char>, mount_point: Seq<char>) -> Seq<char> {
    if mount_point.len() == 0 {
        name
    } else if name.len() == 0 {
        mount_point
    } else {
        name + " ("@ + mount_point + ")"@
    }
}

/// How a sampled volume is labelled.
pub fn disk_label(name: &str, mount_point: &str) -> (r: String)
    ensures
        r@ == volume_caption(name@, mount_point@),
{
    if mount_point.unicode_len() == 0 {
        String::from_str(name)
    } else if name.unicode_len() == 0 {
        String::from_str(mount_point)
    } else {
        let mut r = String::from_str(name);
        r.append(" (");
        r.append(mount_point);
        r.append(")");
        r
    }
}

/// A history label kept short: trimmed, and cut to thirteen characters and
/// an ellipsis when longer than fourteen.
pub open spec fn short_text(value: Seq<char>) -> Seq<char> {
    let t = trim(value);
    if t.len() <= SHORT_LABEL_MAX { t } else { t.take(SHORT_LABEL_MAX - 1).push('…') }
}

/// A history label kept short.
pub fn short_label(value: &str) -> (r: String)
    ensures
        r@ == short_text(value@),
{
    let t = chars_of(trimmed(value).as_str());
    if t.len() <= SHORT_LABEL_MAX {
        return string_of_range(&t, 0, t.len());
    }
    let mut r = string_of_range(&t, 0, SHORT_LABEL_MAX - 1);
    push_char(&mut r, '…');
    assert(t@.subrange(0, t@.len() as int) =~= t@);
    r
}

/// `z` undoes `c` and `c` undoes `z`: either pair of keys leaves the
/// navigation as it was, and each reports a change of drawing mode.
pub proof fn lemma_chart_keys_undo(n: Navigation, physical: usize, volumes: usize)
    ensures
        after_key(n, Key::Char('c'), physical, volumes).1 == KeyAction::ChartModeChanged,
        after_key(n, Key::Char('z'), physical, volumes).1 == KeyAction::ChartModeChanged,
        after_key(after_key(n, Key::Char('c'), physical, volumes).0, Key::Char('z'), physical, volumes).0 == n,
        after_key(after_key(n, Key::Char('z'), physical, volumes).0, Key::Char('c'), physical, volumes).0 == n,
        after_key(n, Key::Char('c'), physical, volumes).0.chart_mode != n.chart_mode,
        after_key(n, Key::Char('z'), physical, volumes).0.chart_mode != n.chart_mode,
        after_key(n, Key::Char('c'), physical, volumes).0.chart_mode != after_key(n, Key::Char('z'), physical, volumes).0.chart_mode,
{
    assert(key_char('c') == 'c');
    assert(key_char('z') == 'z');
}

} // verus!
