//! Interaction state of the terminal view: the active page, the scroll
//! position of each table, and what a key press does to them.

use vstd::prelude::*;

use crate::report::{spec_truncate, truncate};
use crate::stats::{unattributed_label, ProcessSnapshot, TrafficSnapshot};
use crate::text::{chars_of, decimal, decimal_chars, string_from_chars};

verus! {

/// The pages of the view, in tab order.
#[derive(Clone, Copy, Debug, PartialEq, Eq, Structural)]
pub enum Page {
    Overview,
    Processes,
    Ips,
    About,
}

/// The number of pages.
pub const PAGE_COUNT: usize = 4;

/// The position of a page in tab order.
pub open spec fn spec_page_index(page: Page) -> int {
    match page {
        Page::Overview => 0,
        Page::Processes => 1,
        Page::Ips => 2,
        Page::About => 3,
    }
}

/// The page at a position in tab order.
pub open spec fn spec_page_at(index: int) -> Page {
    if index == 0 {
        Page::Overview
    } else if index == 1 {
        Page::Processes
    } else if index == 2 {
        Page::Ips
    } else {
        Page::About
    }
}

impl Page {
    /// The position of this page in tab order.
    pub fn index(self) -> (r: usize)
        ensures
            r == spec_page_index(self),
            r < PAGE_COUNT,
    {
        match self {
            Page::Overview => 0,
            Page::Processes => 1,
            Page::Ips => 2,
            Page::About => 3,
        }
    }

    /// The page at position `index` of the tab order.
    pub fn at(index: usize) -> (r: Page)
        requires
            index < PAGE_COUNT,
        ensures
            r == spec_page_at(index as int),
            spec_page_index(r) == index,
    {
        if index == 0 {
            Page::Overview
        } else if index == 1 {
            Page::Processes
        } else if index == 2 {
            Page::Ips
        } else {
            Page::About
        }
    }
}

/// The page before `page`, wrapping from the first to the last.
pub open spec fn spec_prev_page(page: Page) -> Page {
    spec_page_at((spec_page_index(page) + PAGE_COUNT - 1) % (PAGE_COUNT as int))
}

/// The page after `page`, wrapping from the last to the first.
pub open spec fn spec_next_page(page: Page) -> Page {
    spec_page_at((spec_page_index(page) + 1) % (PAGE_COUNT as int))
}

/// The page before `p` in tab order; the first page wraps to the last.
pub fn prev_page(p: Page) -> (r: Page)
    ensures
        r == spec_prev_page(p),
{
    let idx = p.index();
    Page::at((idx + PAGE_COUNT - 1) % PAGE_COUNT)
}

/// The page after `p` in tab order; the last page wraps to the first.
pub fn next_page(p: Page) -> (r: Page)
    ensures
        r == spec_next_page(p),
{
    let idx = p.index();
    Page::at((idx + 1) % PAGE_COUNT)
}

/// Stepping back and then forward, or forward and then back, returns to the
/// page one started from; stepping forward once per page goes all the way round.
pub proof fn page_steps_undo_each_other(page: Page)
    ensures
        spec_next_page(spec_prev_page(page)) == page,
        spec_prev_page(spec_next_page(page)) == page,
        spec_next_page(spec_next_page(spec_next_page(spec_next_page(page)))) == page,
{
}

/// Which half of the address page has the focus.
#[derive(Clone, Copy, Debug, PartialEq, Eq, Structural)]
pub enum IpFocus {
    Inbound,
    Outbound,
}

/// What a key press did.
#[derive(Clone, Copy, Debug, PartialEq, Eq, Structural)]
pub enum KeyOutcome {
    /// The user asked to leave.
    Quit,
    /// The state changed and the view must be drawn again.
    Changed,
    /// The key means nothing here.
    Ignored,
}

/// A key of the keyboard, as far as the view tells keys apart.
#[derive(Clone, Copy, Debug, PartialEq, Eq, Structural)]
pub enum KeyCode {
    Char(char),
    Esc,
    Tab,
    Left,
    Right,
    Up,
    Down,
    PageUp,
    PageDown,
    Home,
    End,
    /// Any other key.
    Other,
}

/// A key press: the key and whether Control was held.
#[derive(Clone, Copy, Debug, PartialEq, Eq, Structural)]
pub struct KeyPress {
    pub code: KeyCode,
    pub ctrl: bool,
}

/// The height, in rows, of the tallest area a terminal can report.
pub const MAX_VIEW_HEIGHT: usize = 65535;

/// Interaction state that persists across redraws.
#[derive(Clone, Copy, Debug, PartialEq, Eq, Structural)]
pub struct AppState {
    pub page: Page,
    pub proc_scroll: usize,
    pub ip_in_scroll: usize,
    pub ip_out_scroll: usize,
    pub ip_focus: IpFocus,
    /// Rows of the process table, measured at the last draw.
    pub proc_view_height: usize,
    /// Rows of the inbound address table, measured at the last draw.
    pub ip_in_view_height: usize,
    /// Rows of the outbound address table, measured at the last draw.
    pub ip_out_view_height: usize,
}

impl AppState {
    /// Every measured table height is between one row and the tallest
    /// terminal area.
    pub open spec fn wf(self) -> bool {
        &&& 1 <= self.proc_view_height <= MAX_VIEW_HEIGHT
        &&& 1 <= self.ip_in_view_height <= MAX_VIEW_HEIGHT
        &&& 1 <= self.ip_out_view_height <= MAX_VIEW_HEIGHT
    }

    /// The initial state: the overview page, nothing scrolled, inbound focus.
    pub fn new() -> (r: AppState)
        ensures
            r == (AppState {
                page: Page::Overview,
                proc_scroll: 0,
                ip_in_scroll: 0,
                ip_out_scroll: 0,
                ip_focus: IpFocus::Inbound,
                proc_view_height: 1,
                ip_in_view_height: 1,
                ip_out_view_height: 1,
            }),
            r.wf(),
    {
        AppState {
            page: Page::Overview,
            proc_scroll: 0,
            ip_in_scroll: 0,
            ip_out_scroll: 0,
            ip_focus: IpFocus::Inbound,
            proc_view_height: 1,
            ip_in_view_height: 1,
            ip_out_view_height: 1,
        }
    }

    /// The height of the table that has the focus; one row on pages without
    /// a table.
    pub fn current_view_height(&self) -> (r: usize)
        ensures
            r == spec_current_view_height(*self),
    {
        match self.page {
            Page::Processes => self.proc_view_height,
            Page::Ips => match self.ip_focus {
                IpFocus::Inbound => self.ip_in_view_height,
                IpFocus::Outbound => self.ip_out_view_height,
            },
            _ => 1,
        }
    }
}

pub open spec fn spec_current_view_height(s: AppState) -> usize {
    match s.page {
        Page::Processes => s.proc_view_height,
        Page::Ips => match s.ip_focus {
            IpFocus::Inbound => s.ip_in_view_height,
            IpFocus::Outbound => s.ip_out_view_height,
        },
        _ => 1,
    }
}

/// `position + delta`, held between zero and the largest `usize`.
pub open spec fn moved(position: usize, delta: int) -> usize {
    if position + delta < 0 {
        0
    } else if position + delta > usize::MAX {
        usize::MAX
    } else {
        (position + delta) as usize
    }
}

/// The state with the scroll position of the focused table set by `f`.
pub open spec fn with_focused_scroll(s: AppState, f: spec_fn(usize) -> usize) -> AppState {
    match s.page {
        Page::Processes => AppState { proc_scroll: f(s.proc_scroll), ..s },
        Page::Ips => match s.ip_focus {
            IpFocus::Inbound => AppState { ip_in_scroll: f(s.ip_in_scroll), ..s },
            IpFocus::Outbound => AppState { ip_out_scroll: f(s.ip_out_scroll), ..s },
        },
        _ => s,
    }
}

pub open spec fn spec_scroll(s: AppState, delta: int) -> AppState {
    with_focused_scroll(s, |p: usize| moved(p, delta))
}

pub open spec fn spec_scroll_to_top(s: AppState) -> AppState {
    with_focused_scroll(s, |p: usize| 0usize)
}

/// `a - b`, or zero when `b` is larger.
pub open spec fn sat_sub(a: usize, b: usize) -> usize {
    if a >= b {
        (a - b) as usize
    } else {
        0
    }
}

/// The state with the focused table scrolled so that its last row is at the
/// bottom, for tables of the given lengths.
pub open spec fn spec_scroll_to_bottom(
    s: AppState,
    proc_len: usize,
    in_len: usize,
    out_len: usize,
) -> AppState {
    match s.page {
        Page::Processes => AppState { proc_scroll: sat_sub(proc_len, s.proc_view_height), ..s },
        Page::Ips => match s.ip_focus {
            IpFocus::Inbound => AppState { ip_in_scroll: sat_sub(in_len, s.ip_in_view_height), ..s },
            IpFocus::Outbound => AppState {
                ip_out_scroll: sat_sub(out_len, s.ip_out_view_height),
                ..s
            },
        },
        _ => s,
    }
}

fn moved_exec(position: usize, delta: isize) -> (r: usize)
    ensures
        r == moved(position, delta as int),
{
    if delta >= 0 {
        position.saturating_add(delta as usize)
    } else {
        let back: usize = ((-(delta + 1)) as usize) + 1;
        position.saturating_sub(back)
    }
}

/// Moves the focused table by `delta` rows, never above the first row.
pub fn scroll(state: &mut AppState, delta: isize)
    ensures
        *final(state) == spec_scroll(*old(state), delta as int),
{
    match state.page {
        Page::Processes => {
            state.proc_scroll = moved_exec(state.proc_scroll, delta);
        },
        Page::Ips => match state.ip_focus {
            IpFocus::Inbound => {
                state.ip_in_scroll = moved_exec(state.ip_in_scroll, delta);
            },
            IpFocus::Outbound => {
                state.ip_out_scroll = moved_exec(state.ip_out_scroll, delta);
            },
        },
        _ => {},
    }
}

/// Moves the focused table back to its first row.
pub fn scroll_to_top(state: &mut AppState)
    ensures
        *final(state) == spec_scroll_to_top(*old(state)),
{
    match state.page {
        Page::Processes => state.proc_scroll = 0,
        Page::Ips => match state.ip_focus {
            IpFocus::Inbound => state.ip_in_scroll = 0,
            IpFocus::Outbound => state.ip_out_scroll = 0,
        },
        _ => {},
    }
}

/// Scrolls the focused table so that its last row of `snapshot` shows at the bottom.
pub fn scroll_to_bottom(state: &mut AppState, snapshot: &TrafficSnapshot)
    ensures
        *final(state) == spec_scroll_to_bottom(
            *old(state),
            snapshot.processes@.len() as usize,
            snapshot.inbound_ips@.len() as usize,
            snapshot.outbound_ips@.len() as usize,
        ),
{
    match state.page {
        Page::Processes => {
            let len = snapshot.processes.len();
            state.proc_scroll = len.saturating_sub(state.proc_view_height);
        },
        Page::Ips => match state.ip_focus {
            IpFocus::Inbound => {
                let len = snapshot.inbound_ips.len();
                state.ip_in_scroll = len.saturating_sub(state.ip_in_view_height);
            },
            IpFocus::Outbound => {
                let len = snapshot.outbound_ips.len();
                state.ip_out_scroll = len.saturating_sub(state.ip_out_view_height);
            },
        },
        _ => {},
    }
}

/// The other half of the address page.
pub open spec fn other_focus(f: IpFocus) -> IpFocus {
    match f {
        IpFocus::Inbound => IpFocus::Outbound,
        IpFocus::Outbound => IpFocus::Inbound,
    }
}

/// What a key press does to the state, for tables of the given lengths:
/// `q`, Esc and Control-`c` quit; `1` to `4` pick a page; Left/`h` and
/// Right/`l` step through the pages; Tab switches the focused half of the
/// address page; Down/`j` and Up/`k` scroll by a row, PageDown and PageUp by
/// the height of the focused table; Home and End go to the first and last rows.
pub open spec fn spec_handle_key(
    s: AppState,
    key: KeyPress,
    proc_len: usize,
    in_len: usize,
    out_len: usize,
) -> (AppState, KeyOutcome) {
    match key.code {
        KeyCode::Char('q') | KeyCode::Esc => (s, KeyOutcome::Quit),
        KeyCode::Char('c') if key.ctrl => (s, KeyOutcome::Quit),
        KeyCode::Char('1') => (AppState { page: Page::Overview, ..s }, KeyOutcome::Changed),
        KeyCode::Char('2') => (AppState { page: Page::Processes, ..s }, KeyOutcome::Changed),
        KeyCode::Char('3') => (AppState { page: Page::Ips, ..s }, KeyOutcome::Changed),
        KeyCode::Char('4') => (AppState { page: Page::About, ..s }, KeyOutcome::Changed),
        KeyCode::Tab => if s.page == Page::Ips {
            (AppState { ip_focus: other_focus(s.ip_focus), ..s }, KeyOutcome::Changed)
        } else {
            (s, KeyOutcome::Ignored)
        },
        KeyCode::Left | KeyCode::Char('h') => (
            AppState { page: spec_prev_page(s.page), ..s },
            KeyOutcome::Changed,
        ),
        KeyCode::Right | KeyCode::Char('l') => (
            AppState { page: spec_next_page(s.page), ..s },
            KeyOutcome::Changed,
        ),
        KeyCode::Down | KeyCode::Char('j') => (spec_scroll(s, 1), KeyOutcome::Changed),
        KeyCode::Up | KeyCode::Char('k') => (spec_scroll(s, -1), KeyOutcome::Changed),
        KeyCode::PageDown => (
            spec_scroll(s, spec_current_view_height(s) as int),
            KeyOutcome::Changed,
        ),
        KeyCode::PageUp => (
            spec_scroll(s, -(spec_current_view_height(s) as int)),
            KeyOutcome::Changed,
        ),
        KeyCode::Home => (spec_scroll_to_top(s), KeyOutcome::Changed),
        KeyCode::End => (
            spec_scroll_to_bottom(s, proc_len, in_len, out_len),
            KeyOutcome::Changed,
        ),
        _ => (s, KeyOutcome::Ignored),
    }
}

/// Law: Right (or `l`) moves to the next page and Left (or `h`) to the
/// previous one, in the order overview, processes, addresses, about, wrapping
/// round at either end, and change nothing but the page; so either key
/// undoes the other.
pub proof fn arrow_keys_step_through_the_pages(
    s: AppState,
    forward: KeyCode,
    back: KeyCode,
    ctrl: bool,
    proc_len: usize,
    in_len: usize,
    out_len: usize,
)
    requires
        forward == KeyCode::Right || forward == KeyCode::Char('l'),
        back == KeyCode::Left || back == KeyCode::Char('h'),
    ensures
        ({
            let fwd = KeyPress { code: forward, ctrl };
            let bwd = KeyPress { code: back, ctrl };
            let (s1, o1) = spec_handle_key(s, fwd, proc_len, in_len, out_len);
            let (s2, o2) = spec_handle_key(s, bwd, proc_len, in_len, out_len);
            &&& o1 == KeyOutcome::Changed
            &&& o2 == KeyOutcome::Changed
            &&& s1 == (AppState { page: s1.page, ..s })
            &&& s2 == (AppState { page: s2.page, ..s })
            &&& s.page == Page::Overview ==> s1.page == Page::Processes && s2.page == Page::About
            &&& s.page == Page::Processes ==> s1.page == Page::Ips && s2.page == Page::Overview
            &&& s.page == Page::Ips ==> s1.page == Page::About && s2.page == Page::Processes
            &&& s.page == Page::About ==> s1.page == Page::Overview && s2.page == Page::Ips
            &&& spec_handle_key(s1, bwd, proc_len, in_len, out_len).0 == s
            &&& spec_handle_key(s2, fwd, proc_len, in_len, out_len).0 == s
        }),
{
}

/// Law: `q`, Esc and Control-`c` quit and leave the state as it is; `1` to
/// `4` open the overview, processes, addresses and about pages and change
/// nothing else; Tab switches the focused half of the address page and is
/// ignored on the other pages, so that two Tabs give back the state.
pub proof fn quit_page_and_focus_keys(
    s: AppState,
    ctrl: bool,
    proc_len: usize,
    in_len: usize,
    out_len: usize,
)
    ensures
        spec_handle_key(s, KeyPress { code: KeyCode::Char('q'), ctrl }, proc_len, in_len, out_len)
            == (s, KeyOutcome::Quit),
        spec_handle_key(s, KeyPress { code: KeyCode::Esc, ctrl }, proc_len, in_len, out_len) == (
            s,
            KeyOutcome::Quit,
        ),
        spec_handle_key(s, KeyPress { code: KeyCode::Char('c'), ctrl: true }, proc_len, in_len, out_len)
            == (s, KeyOutcome::Quit),
        spec_handle_key(s, KeyPress { code: KeyCode::Char('1'), ctrl }, proc_len, in_len, out_len)
            == (AppState { page: Page::Overview, ..s }, KeyOutcome::Changed),
        spec_handle_key(s, KeyPress { code: KeyCode::Char('2'), ctrl }, proc_len, in_len, out_len)
            == (AppState { page: Page::Processes, ..s }, KeyOutcome::Changed),
        spec_handle_key(s, KeyPress { code: KeyCode::Char('3'), ctrl }, proc_len, in_len, out_len)
            == (AppState { page: Page::Ips, ..s }, KeyOutcome::Changed),
        spec_handle_key(s, KeyPress { code: KeyCode::Char('4'), ctrl }, proc_len, in_len, out_len)
            == (AppState { page: Page::About, ..s }, KeyOutcome::Changed),
        ({
            let tab = KeyPress { code: KeyCode::Tab, ctrl };
            let (s1, o1) = spec_handle_key(s, tab, proc_len, in_len, out_len);
            &&& s.page == Page::Ips ==> {
                &&& o1 == KeyOutcome::Changed
                &&& s1.ip_focus != s.ip_focus
                &&& s1 == (AppState { ip_focus: s1.ip_focus, ..s })
                &&& spec_handle_key(s1, tab, proc_len, in_len, out_len).0 == s
            }
            &&& s.page != Page::Ips ==> s1 == s && o1 == KeyOutcome::Ignored
        }),
{
}

/// Law: Down/`j` and Up/`k` move the focused table (the process table, or
/// the focused half of the address page) one row down or up, never above
/// the first row, and leave everything else as it is; on a page without a
/// table they change nothing. Home goes to the first row and End to the
/// row that puts the last row at the bottom of the table.
pub proof fn vertical_keys_move_only_the_focused_table(
    s: AppState,
    down: KeyCode,
    up: KeyCode,
    ctrl: bool,
    proc_len: usize,
    in_len: usize,
    out_len: usize,
)
    requires
        down == KeyCode::Down || down == KeyCode::Char('j'),
        up == KeyCode::Up || up == KeyCode::Char('k'),
    ensures
        ({
            let (d, od) = spec_handle_key(s, KeyPress { code: down, ctrl }, proc_len, in_len, out_len);
            let (u, ou) = spec_handle_key(s, KeyPress { code: up, ctrl }, proc_len, in_len, out_len);
            let (h, _) = spec_handle_key(s, KeyPress { code: KeyCode::Home, ctrl }, proc_len, in_len, out_len);
            let (e, _) = spec_handle_key(s, KeyPress { code: KeyCode::End, ctrl }, proc_len, in_len, out_len);
            let below = |p: usize| if p < usize::MAX { (p + 1) as usize } else { p };
            let above = |p: usize| if p > 0 { (p - 1) as usize } else { 0usize };
            let last = |len: usize, height: usize| if len >= height { (len - height) as usize } else { 0usize };
            &&& od == KeyOutcome::Changed && ou == KeyOutcome::Changed
            &&& s.page == Page::Processes ==> {
                &&& d == (AppState { proc_scroll: below(s.proc_scroll), ..s })
                &&& u == (AppState { proc_scroll: above(s.proc_scroll), ..s })
                &&& h == (AppState { proc_scroll: 0, ..s })
                &&& e == (AppState { proc_scroll: last(proc_len, s.proc_view_height), ..s })
            }
            &&& s.page == Page::Ips && s.ip_focus == IpFocus::Inbound ==> {
                &&& d == (AppState { ip_in_scroll: below(s.ip_in_scroll), ..s })
                &&& u == (AppState { ip_in_scroll: above(s.ip_in_scroll), ..s })
                &&& h == (AppState { ip_in_scroll: 0, ..s })
                &&& e == (AppState { ip_in_scroll: last(in_len, s.ip_in_view_height), ..s })
            }
            &&& s.page == Page::Ips && s.ip_focus == IpFocus::Outbound ==> {
                &&& d == (AppState { ip_out_scroll: below(s.ip_out_scroll), ..s })
                &&& u == (AppState { ip_out_scroll: above(s.ip_out_scroll), ..s })
                &&& h == (AppState { ip_out_scroll: 0, ..s })
                &&& e == (AppState { ip_out_scroll: last(out_len, s.ip_out_view_height), ..s })
            }
            &&& (s.page == Page::Overview || s.page == Page::About) ==> d == s && u == s && h == s
                && e == s
        }),
{
}

/// Law: PageDown and PageUp move the focused table by its own height, held
/// between zero and the largest `usize`, and change nothing else; on a page
/// without a table they change nothing.
pub proof fn page_keys_move_the_focused_table_by_its_height(
    s: AppState,
    ctrl: bool,
    proc_len: usize,
    in_len: usize,
    out_len: usize,
)
    ensures
        ({
            let (d, od) = spec_handle_key(s, KeyPress { code: KeyCode::PageDown, ctrl }, proc_len, in_len, out_len);
            let (u, ou) = spec_handle_key(s, KeyPress { code: KeyCode::PageUp, ctrl }, proc_len, in_len, out_len);
            let forward = |p: usize, h: usize| if p + h <= usize::MAX { (p + h) as usize } else { usize::MAX };
            let backward = |p: usize, h: usize| if p >= h { (p - h) as usize } else { 0usize };
            &&& od == KeyOutcome::Changed && ou == KeyOutcome::Changed
            &&& s.page == Page::Processes ==> {
                &&& d == (AppState { proc_scroll: forward(s.proc_scroll, s.proc_view_height), ..s })
                &&& u == (AppState { proc_scroll: backward(s.proc_scroll, s.proc_view_height), ..s })
            }
            &&& s.page == Page::Ips && s.ip_focus == IpFocus::Inbound ==> {
                &&& d == (AppState { ip_in_scroll: forward(s.ip_in_scroll, s.ip_in_view_height), ..s })
                &&& u == (AppState { ip_in_scroll: backward(s.ip_in_scroll, s.ip_in_view_height), ..s })
            }
            &&& s.page == Page::Ips && s.ip_focus == IpFocus::Outbound ==> {
                &&& d == (AppState { ip_out_scroll: forward(s.ip_out_scroll, s.ip_out_view_height), ..s })
                &&& u == (AppState { ip_out_scroll: backward(s.ip_out_scroll, s.ip_out_view_height), ..s })
            }
            &&& (s.page == Page::Overview || s.page == Page::About) ==> d == s && u == s
        }),
{
}

/// Applies a key press to the state; `snapshot` gives the table lengths that
/// End scrolls to.
pub fn handle_key(state: &mut AppState, key: KeyPress, snapshot: &TrafficSnapshot) -> (r: KeyOutcome)
    requires
        old(state).wf(),
    ensures
        (*final(state), r) == spec_handle_key(
            *old(state),
            key,
            snapshot.processes@.len() as usize,
            snapshot.inbound_ips@.len() as usize,
            snapshot.outbound_ips@.len() as usize,
        ),
        final(state).wf(),
{
    match key.code {
        KeyCode::Char('q') | KeyCode::Esc => KeyOutcome::Quit,
        KeyCode::Char('c') if key.ctrl => KeyOutcome::Quit,
        KeyCode::Char('1') => {
            state.page = Page::Overview;
            KeyOutcome::Changed
        },
        KeyCode::Char('2') => {
            state.page = Page::Processes;
            KeyOutcome::Changed
        },
        KeyCode::Char('3') => {
            state.page = Page::Ips;
            KeyOutcome::Changed
        },
        KeyCode::Char('4') => {
            state.page = Page::About;
            KeyOutcome::Changed
        },
        KeyCode::Tab => {
            if state.page == Page::Ips {
                state.ip_focus = match state.ip_focus {
                    IpFocus::Inbound => IpFocus::Outbound,
                    IpFocus::Outbound => IpFocus::Inbound,
                };
                KeyOutcome::Changed
            } else {
                KeyOutcome::Ignored
            }
        },
        KeyCode::Left | KeyCode::Char('h') => {
            state.page = prev_page(state.page);
            KeyOutcome::Changed
        },
        KeyCode::Right | KeyCode::Char('l') => {
            state.page = next_page(state.page);
            KeyOutcome::Changed
        },
        KeyCode::Down | KeyCode::Char('j') => {
            scroll(state, 1);
            KeyOutcome::Changed
        },
        KeyCode::Up | KeyCode::Char('k') => {
            scroll(state, -1);
            KeyOutcome::Changed
        },
        KeyCode::PageDown => {
            let rows = state.current_view_height() as isize;
            scroll(state, rows);
            KeyOutcome::Changed
        },
        KeyCode::PageUp => {
            let rows = state.current_view_height() as isize;
            scroll(state, -rows);
            KeyOutcome::Changed
        },
        KeyCode::Home => {
            scroll_to_top(state);
            KeyOutcome::Changed
        },
        KeyCode::End => {
            scroll_to_bottom(state, snapshot);
            KeyOutcome::Changed
        },
        _ => KeyOutcome::Ignored,
    }
}

/// Rows a table of an area `area_height` rows tall shows: the area less its
/// borders and header, at least one.
pub open spec fn table_rows(area_height: u16) -> usize {
    if area_height <= 5 {
        1
    } else {
        (area_height - 4) as usize
    }
}

/// `scroll`, kept on a row of a table of `len` rows (on the first row of an
/// empty one).
pub open spec fn clamped_scroll(scroll: usize, len: usize) -> usize {
    let last = sat_sub(len, 1);
    if scroll <= last {
        scroll
    } else {
        last
    }
}

fn table_rows_exec(area_height: u16) -> (r: usize)
    ensures
        r == table_rows(area_height),
{
    let h = area_height.saturating_sub(4) as usize;
    if h >= 1 {
        h
    } else {
        1
    }
}

fn clamped_scroll_exec(scroll: usize, len: usize) -> (r: usize)
    ensures
        r == clamped_scroll(scroll, len),
{
    let last = len.saturating_sub(1);
    if scroll <= last {
        scroll
    } else {
        last
    }
}

impl AppState {
    /// Fits the process page to a table area `area_height` rows tall that
    /// shows `rows` processes: measures the visible rows and keeps the
    /// scroll position on a row.
    pub fn fit_processes(&mut self, area_height: u16, rows: usize)
        requires
            old(self).wf(),
        ensures
            *final(self) == (AppState {
                proc_view_height: table_rows(area_height),
                proc_scroll: clamped_scroll(old(self).proc_scroll, rows),
                ..*old(self)
            }),
            final(self).wf(),
    {
        self.proc_view_height = table_rows_exec(area_height);
        self.proc_scroll = clamped_scroll_exec(self.proc_scroll, rows);
    }

    /// Fits the address page to its two table areas, `in_height` and
    /// `out_height` rows tall, showing `in_rows` and `out_rows` addresses.
    pub fn fit_ips(&mut self, in_height: u16, out_height: u16, in_rows: usize, out_rows: usize)
        requires
            old(self).wf(),
        ensures
            *final(self) == (AppState {
                ip_in_view_height: table_rows(in_height),
                ip_out_view_height: table_rows(out_height),
                ip_in_scroll: clamped_scroll(old(self).ip_in_scroll, in_rows),
                ip_out_scroll: clamped_scroll(old(self).ip_out_scroll, out_rows),
                ..*old(self)
            }),
            final(self).wf(),
    {
        self.ip_in_view_height = table_rows_exec(in_height);
        self.ip_out_view_height = table_rows_exec(out_height);
        self.ip_in_scroll = clamped_scroll_exec(self.ip_in_scroll, in_rows);
        self.ip_out_scroll = clamped_scroll_exec(self.ip_out_scroll, out_rows);
    }
}

/// The highlighted row of a table of `len` rows scrolled to `scroll`: none
/// in an empty table, else the scroll position kept on the last row.
pub fn selected_row(len: usize, scroll: usize) -> (r: Option<usize>)
    ensures
        r == (if len == 0 { None } else { Some(clamped_scroll(scroll, len)) }),
{
    if len > 0 {
        Some(if scroll <= len - 1 { scroll } else { len - 1 })
    } else {
        None
    }
}

/// What the event loop does after a key press (or after none).
#[derive(Clone, Copy, Debug, PartialEq, Eq, Structural)]
pub enum LoopStep {
    /// Leave the loop.
    Quit,
    /// Draw the changed state, then look for a newer snapshot.
    DrawThenPoll,
    /// Look for a newer snapshot.
    Poll,
}

pub open spec fn step_for(outcome: Option<KeyOutcome>) -> LoopStep {
    match outcome {
        Some(KeyOutcome::Quit) => LoopStep::Quit,
        Some(KeyOutcome::Changed) => LoopStep::DrawThenPoll,
        _ => LoopStep::Poll,
    }
}

/// One turn of the event loop up to the snapshot poll: applies the key, if
/// any, and says whether to quit, or to draw before polling for a newer
/// snapshot. A newer snapshot, when one comes, is drawn after that.
pub fn on_key(state: &mut AppState, key: Option<KeyPress>, snapshot: &TrafficSnapshot) -> (r: LoopStep)
    requires
        old(state).wf(),
    ensures
        final(state).wf(),
        match key {
            Some(k) => {
                let (next, outcome) = spec_handle_key(
                    *old(state),
                    k,
                    snapshot.processes@.len() as usize,
                    snapshot.inbound_ips@.len() as usize,
                    snapshot.outbound_ips@.len() as usize,
                );
                *final(state) == next && r == step_for(Some(outcome))
            },
            None => *final(state) == *old(state) && r == LoopStep::Poll,
        },
{
    match key {
        Some(k) => {
            let outcome = handle_key(state, k, snapshot);
            match outcome {
                KeyOutcome::Quit => LoopStep::Quit,
                KeyOutcome::Changed => LoopStep::DrawThenPoll,
                KeyOutcome::Ignored => LoopStep::Poll,
            }
        },
        None => LoopStep::Poll,
    }
}

/// The key hints of the status bar of a page.
pub open spec fn spec_status_hint(page: Page) -> Seq<char> {
    match page {
        Page::Overview => "1-4:page  ←→/hl:switch  q:quit"@,
        Page::Processes => "1-4:page  ←→/hl:switch  ↑↓/jk:scroll  PgUp/Dn:page  Home/End  q:quit"@,
        Page::Ips => "1-4:page  ←→/hl:switch  Tab:panel  ↑↓/jk:scroll  PgUp/Dn:page  q:quit"@,
        Page::About => "1-4:page  ←→/hl:switch  q:quit"@,
    }
}

/// The key hints shown in the status bar of `page`.
pub fn status_hint(page: Page) -> (r: &'static str)
    ensures
        r@ == spec_status_hint(page),
{
    match page {
        Page::Overview => "1-4:page  ←→/hl:switch  q:quit",
        Page::Processes => "1-4:page  ←→/hl:switch  ↑↓/jk:scroll  PgUp/Dn:page  Home/End  q:quit",
        Page::Ips => "1-4:page  ←→/hl:switch  Tab:panel  ↑↓/jk:scroll  PgUp/Dn:page  q:quit",
        Page::About => "1-4:page  ←→/hl:switch  q:quit",
    }
}

/// The footer of an overview column that shows `shown` of `total` rows:
/// `+N more (press P)` for the rows left out and the page `P` that lists
/// them all; empty when nothing is left out.
pub open spec fn spec_preview_footer(total: nat, shown: nat, goto: nat) -> Seq<char> {
    if total > shown {
        seq!['+'] + decimal((total - shown) as nat) + " more (press "@ + decimal(goto) + seq![')']
    } else {
        Seq::empty()
    }
}

/// The footer of an overview column; see [`spec_preview_footer`].
pub fn preview_footer(total: usize, shown: usize, goto: usize) -> (r: String)
    ensures
        r@ == spec_preview_footer(total as nat, shown as nat, goto as nat),
{
    if total > shown {
        let mut out: Vec<char> = Vec::new();
        out.push('+');
        let mut more = decimal_chars((total - shown) as u64);
        out.append(&mut more);
        let mut middle = chars_of(" more (press ");
        out.append(&mut middle);
        let mut page = decimal_chars(goto as u64);
        out.append(&mut page);
        out.push(')');
        proof {
            assert(out@ =~= spec_preview_footer(total as nat, shown as nat, goto as nat));
        }
        string_from_chars(out.as_slice())
    } else {
        let out: Vec<char> = Vec::new();
        proof {
            assert(out@ =~= spec_preview_footer(total as nat, shown as nat, goto as nat));
        }
        string_from_chars(out.as_slice())
    }
}

/// The label of a process row: the fixed label of unattributed traffic in
/// full, any other name cut to `max_chars` characters.
pub open spec fn spec_process_label(name: Seq<char>, unattributed: bool, max_chars: nat) -> Seq<char> {
    if unattributed {
        name
    } else {
        spec_truncate(name, max_chars)
    }
}

/// The label shown for `process` in a column `max_chars` characters wide.
pub fn process_label(process: &ProcessSnapshot, max_chars: usize) -> (r: String)
    ensures
        r@ == spec_process_label(
            match process@.identity {
                Some((_, Some(n), _)) => n,
                Some((_, None, _)) => "?"@,
                None => unattributed_label(),
            },
            process@.identity is None,
            max_chars as nat,
        ),
{
    let name = process.display_name();
    if process.is_unattributed() {
        name.to_string()
    } else {
        truncate(name, max_chars)
    }
}

/// The process id column of a process row: the id, or `-` when unattributed.
pub fn pid_label(process: &ProcessSnapshot) -> (r: String)
    ensures
        r@ == match process@.identity {
            Some((pid, _, _)) => decimal(pid as nat),
            None => "-"@,
        },
{
    match process.pid() {
        Some(pid) => {
            let d = decimal_chars(pid as u64);
            string_from_chars(d.as_slice())
        },
        None => "-".to_string(),
    }
}

} // verus!
