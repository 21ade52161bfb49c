//! Mouse support: where things are on screen, what a click hits, and the text selection made
//! by dragging.
use vstd::prelude::*;

use crate::buffer::{ending_label, LineEnding};
use crate::session::Mode;
use crate::text::push_str;

verus! {

/// Regions of the UI for click detection, as `(x, y, width, height)`.
/// These are set during rendering and read during mouse handling.
#[derive(Clone, Copy, Debug)]
pub struct LayoutRegions {
    pub status_bar: (u16, u16, u16, u16),
    pub terminal_view: (u16, u16, u16, u16),
    pub input_bar: (u16, u16, u16, u16),
}

impl Default for LayoutRegions {
    fn default() -> (r: Self)
        ensures
            r.status_bar == (0u16, 0u16, 0u16, 0u16),
            r.terminal_view == (0u16, 0u16, 0u16, 0u16),
            r.input_bar == (0u16, 0u16, 0u16, 0u16),
    {
        LayoutRegions { status_bar: (0, 0, 0, 0), terminal_view: (0, 0, 0, 0), input_bar: (0, 0, 0, 0) }
    }
}

/// Text selection state for click-drag-copy.
#[derive(Clone, Copy, Debug)]
pub struct TextSelection {
    /// Whether a drag selection is in progress.
    pub is_selecting: bool,
    /// Start position (column, row in terminal coords).
    pub start: (u16, u16),
    /// End position (column, row in terminal coords).
    pub end: (u16, u16),
}

/// `(start_row, start_col, end_row, end_col)` with the start the earlier of the two points
/// in reading order.
pub open spec fn normalized(start: (u16, u16), end: (u16, u16)) -> (u16, u16, u16, u16) {
    if start.1 < end.1 || (start.1 == end.1 && start.0 <= end.0) {
        (start.1, start.0, end.1, end.0)
    } else {
        (end.1, end.0, start.1, start.0)
    }
}

/// Whether cell `(col, row)` lies in the selection from `r.0, r.1` to `r.2, r.3` (rows, then
/// columns), both ends included.
pub open spec fn in_range(r: (u16, u16, u16, u16), col: u16, row: u16) -> bool {
    let (sr, sc, er, ec) = r;
    if row < sr || row > er {
        false
    } else if sr == er {
        sc <= col <= ec
    } else if row == sr {
        col >= sc
    } else if row == er {
        col <= ec
    } else {
        true
    }
}

impl TextSelection {
    pub fn new() -> (s: Self)
        ensures
            !s.is_selecting,
            s.start == (0u16, 0u16),
            s.end == (0u16, 0u16),
    {
        TextSelection { is_selecting: false, start: (0, 0), end: (0, 0) }
    }

    pub fn clear(&mut self)
        ensures
            !final(self).is_selecting,
            final(self).start == old(self).start,
            final(self).end == old(self).end,
    {
        self.is_selecting = false;
    }

    /// Get the selection range as (start_row, start_col, end_row, end_col), normalized.
    pub fn range(&self) -> (r: (u16, u16, u16, u16))
        ensures
            r == normalized(self.start, self.end),
    {
        if self.start.1 < self.end.1 || (self.start.1 == self.end.1 && self.start.0 <= self.end.0) {
            (self.start.1, self.start.0, self.end.1, self.end.0)
        } else {
            (self.end.1, self.end.0, self.start.1, self.start.0)
        }
    }

    /// Check if a cell (col, row) is within the selection.
    pub fn contains(&self, col: u16, row: u16) -> (b: bool)
        ensures
            b == (self.is_selecting && in_range(normalized(self.start, self.end), col, row)),
    {
        if !self.is_selecting {
            return false;
        }
        let (sr, sc, er, ec) = self.range();
        if row < sr || row > er {
            return false;
        }
        if sr == er {
            col >= sc && col <= ec
        } else if row == sr {
            col >= sc
        } else if row == er {
            col <= ec
        } else {
            true
        }
    }

    /// A drag to `(col, row)`: the selection ends there, and starts there if none was in
    /// progress.
    pub fn drag_to(&mut self, col: u16, row: u16)
        ensures
            final(self).end == (col, row),
            final(self).is_selecting,
            old(self).is_selecting ==> final(self).start == old(self).start,
            !old(self).is_selecting ==> final(self).start == (col, row),
    {
        self.end = (col, row);
        if !self.is_selecting {
            self.is_selecting = true;
            self.start = (col, row);
        }
    }
}

/// Both ends of a selection lie in it, and which end was pressed first does not matter.
pub proof fn law_selection_ends_inside(start: (u16, u16), end: (u16, u16))
    ensures
        in_range(normalized(start, end), start.0, start.1),
        in_range(normalized(start, end), end.0, end.1),
        start != end ==> normalized(start, end) == normalized(end, start),
{
}

/// What a left click in the main view does.
#[derive(Clone, Copy, Debug, PartialEq, Eq, Structural)]
pub enum ClickAction {
    /// Left half of the status bar: connect or disconnect.
    ToggleConnection,
    /// Right half of the status bar: open the settings.
    OpenSettings,
    /// The input bar: focus it and put the cursor at this column of the text.
    FocusInput { cursor: usize },
    /// The output view: leave input mode and start a selection here.
    StartSelection,
    /// Nothing under the click.
    Nothing,
}

/// What a click at `(col, row)` hits.
pub open spec fn click_action(regions: LayoutRegions, col: u16, row: u16) -> ClickAction {
    let (sx, sy, sw, _sh) = regions.status_bar;
    let (ix, iy, _iw, _ih) = regions.input_bar;
    let (_tx, ty, _tw, th) = regions.terminal_view;
    if row == sy && col >= sx && col < sx + sw {
        if col < sx + sw / 2 {
            ClickAction::ToggleConnection
        } else {
            ClickAction::OpenSettings
        }
    } else if row == iy && col >= ix {
        ClickAction::FocusInput {
            cursor: if col >= ix + 4 {
                (col - ix - 4) as usize
            } else {
                0
            },
        }
    } else if row >= ty && row < ty + th {
        ClickAction::StartSelection
    } else {
        ClickAction::Nothing
    }
}

/// The regions lie within the screen's coordinates (ends that fit in a `u16`).
pub open spec fn regions_fit(r: LayoutRegions) -> bool {
    &&& r.status_bar.0 + r.status_bar.2 <= u16::MAX
    &&& r.terminal_view.1 + r.terminal_view.3 <= u16::MAX
}

/// Decides what a left click at `(col, row)` does.
pub fn click_target(regions: &LayoutRegions, col: u16, row: u16) -> (a: ClickAction)
    requires
        regions_fit(*regions),
    ensures
        a == click_action(*regions, col, row),
{
    let (sx, sy, sw, _sh) = regions.status_bar;
    if row == sy && col >= sx && col < sx + sw {
        if col < sx + sw / 2 {
            return ClickAction::ToggleConnection;
        } else {
            return ClickAction::OpenSettings;
        }
    }
    let (ix, iy, _iw, _ih) = regions.input_bar;
    if row == iy && col >= ix {
        let prompt_len: usize = 4;
        let base = ix as usize + prompt_len;
        let c = col as usize;
        let click_pos = if c >= base {
            c - base
        } else {
            0
        };
        return ClickAction::FocusInput { cursor: click_pos };
    }
    let (_tx, ty, _tw, th) = regions.terminal_view;
    if row >= ty && row < ty + th {
        return ClickAction::StartSelection;
    }
    ClickAction::Nothing
}

/// The mode after a click: the input bar focuses input; the output view leaves input mode.
pub open spec fn mode_after_click(mode: Mode, a: ClickAction) -> Mode {
    match a {
        ClickAction::FocusInput { .. } => Mode::Input,
        ClickAction::StartSelection => if mode == Mode::Input {
            Mode::Normal
        } else {
            mode
        },
        _ => mode,
    }
}

/// The mode a click leaves behind.
pub fn mode_after(mode: Mode, a: ClickAction) -> (m: Mode)
    ensures
        m == mode_after_click(mode, a),
{
    match a {
        ClickAction::FocusInput { .. } => Mode::Input,
        ClickAction::StartSelection => if mode == Mode::Input {
            Mode::Normal
        } else {
            mode
        },
        _ => mode,
    }
}

/// The port a click on `row` picks in the port selector, placed as the popup is drawn: the
/// popup is centred in a screen four rows taller than the output view, and its items start
/// three rows below its top.
pub open spec fn port_at_row(view_height: u16, port_count: usize, row: u16) -> Option<usize> {
    let total = view_height + 4;
    let wanted = (port_count as u16) + 6;
    let popup_height = if wanted <= total - 4 { wanted } else { total - 4 };
    let popup_y = (if total >= popup_height { total - popup_height } else { 0 }) / 2;
    let item_start = popup_y + 3;
    if row >= item_start && ((row - item_start) as usize) < port_count {
        Some((row - item_start) as usize)
    } else {
        None
    }
}

/// Which port a click on `row` of the port selector picks.
pub fn port_click(view_height: u16, port_count: usize, row: u16) -> (r: Option<usize>)
    requires
        view_height + 4 <= u16::MAX,
        (port_count as u16) + 6 <= u16::MAX,
    ensures
        r == port_at_row(view_height, port_count, row),
{
    let total_height: u16 = view_height + 4;
    #[verifier::truncate]
    let count16: u16 = port_count as u16;
    let wanted: u16 = count16 + 6;
    let popup_height: u16 = if wanted <= total_height - 4 {
        wanted
    } else {
        total_height - 4
    };
    let popup_y: u16 = (if total_height >= popup_height {
        total_height - popup_height
    } else {
        0
    }) / 2;
    let item_start: u16 = popup_y + 3;
    if row >= item_start {
        let clicked_index = (row - item_start) as usize;
        if clicked_index < port_count {
            return Some(clicked_index);
        }
    }
    None
}

/// The settings field a click on `row` picks: fields are on every other row, starting two rows
/// below the top of the centred popup (16 rows high, or less on a small screen).
pub open spec fn field_at_row(view_height: u16, row: u16) -> Option<usize> {
    let total = view_height + 4;
    let popup_height = if 16 <= total - 4 { 16 } else { total - 4 };
    let popup_y = (total - popup_height) / 2;
    let field_start = popup_y + 2;
    if row >= field_start && (row - field_start) % 2 == 0 && (row - field_start) / 2 < 6 {
        Some(((row - field_start) / 2) as usize)
    } else {
        None
    }
}

/// Which settings field a click on `row` of the settings popup picks.
pub fn settings_click(view_height: u16, row: u16) -> (r: Option<usize>)
    requires
        view_height + 4 <= u16::MAX,
    ensures
        r == field_at_row(view_height, row),
{
    let total_height: u16 = view_height + 4;
    let popup_height: u16 = if 16 <= total_height - 4 {
        16
    } else {
        total_height - 4
    };
    let popup_y: u16 = (total_height - popup_height) / 2;
    let field_start: u16 = popup_y + 2;
    if row >= field_start {
        let relative = (row - field_start) as usize;
        if relative % 2 == 0 {
            let field_index = relative / 2;
            if field_index < 6 {
                return Some(field_index);
            }
        }
    }
    None
}

/// The screen rows `start_row..=end_row` that show output lines, as indices into the visible
/// lines `start..end` of an output view at rows `ty..ty + th`.
pub open spec fn rows_to_lines(start_row: int, end_row: int, ty: int, th: int, start: int, end: int) -> Seq<usize>
    decreases end_row - start_row + 1,
{
    if end_row < start_row {
        Seq::empty()
    } else {
        let before = rows_to_lines(start_row, end_row - 1, ty, th, start, end);
        if end_row < ty || end_row >= ty + th || start + (end_row - ty) >= end {
            before
        } else {
            before.push((start + (end_row - ty)) as usize)
        }
    }
}

/// The indices of the visible lines under the selected screen rows, in order.
pub fn selected_lines(start_row: u16, end_row: u16, ty: u16, th: u16, start: usize, end: usize) -> (v: Vec<usize>)
    requires
        start + th <= usize::MAX,
    ensures
        v@ == rows_to_lines(start_row as int, end_row as int, ty as int, th as int, start as int, end as int),
{
    let mut v: Vec<usize> = Vec::new();
    if end_row < start_row {
        return v;
    }
    let mut row: u16 = start_row;
    loop
        invariant
            start_row <= row <= end_row,
            start + th <= usize::MAX,
            v@ == rows_to_lines(start_row as int, row - 1, ty as int, th as int, start as int, end as int),
        decreases end_row - row,
    {
        let in_view = row >= ty && (row as usize) < (ty as usize) + (th as usize);
        if in_view {
            let line_offset = (row - ty) as usize;
            let vi = start + line_offset;
            if vi < end {
                v.push(vi);
            }
        }
        assert(v@ == rows_to_lines(start_row as int, row as int, ty as int, th as int, start as int, end as int));
        if row == end_row {
            return v;
        }
        row = row + 1;
    }
}

/// A mouse event, by kind (buttons other than the left one count as `Other`).
#[derive(Clone, Copy, Debug, PartialEq, Eq, Structural)]
pub enum MouseKind {
    ScrollUp,
    ScrollDown,
    LeftDown,
    LeftDrag,
    LeftUp,
    Other,
}

/// What a mouse event asks for.
#[derive(Clone, Copy, Debug, PartialEq, Eq, Structural)]
pub enum MouseAction {
    /// Move the selection of the open list (ports, or settings fields) up.
    SelectionUp,
    /// Move it down.
    SelectionDown,
    ScrollUp(usize),
    ScrollDown(usize),
    /// A click in the main view (see `click_target`).
    MainClick,
    /// A click in the port selector (see `port_click`).
    PortClick,
    /// A click in the settings popup (see `settings_click`).
    SettingsClick,
    /// Extend the selection (see `TextSelection::drag_to`).
    Drag,
    /// Copy the selection, if one is being made.
    Release,
    Nothing,
}

/// What a mouse event does in `mode`: the wheel moves the list of a port selector or settings
/// popup and otherwise scrolls three lines; a left click goes to the view or popup under it.
pub open spec fn mouse_action_of(mode: Mode, kind: MouseKind) -> MouseAction {
    match kind {
        MouseKind::ScrollUp => match mode {
            Mode::PortSelect | Mode::Settings => MouseAction::SelectionUp,
            _ => MouseAction::ScrollUp(3),
        },
        MouseKind::ScrollDown => match mode {
            Mode::PortSelect | Mode::Settings => MouseAction::SelectionDown,
            _ => MouseAction::ScrollDown(3),
        },
        MouseKind::LeftDown => match mode {
            Mode::Normal | Mode::Input | Mode::Search => MouseAction::MainClick,
            Mode::PortSelect => MouseAction::PortClick,
            Mode::Settings => MouseAction::SettingsClick,
            _ => MouseAction::Nothing,
        },
        MouseKind::LeftDrag => MouseAction::Drag,
        MouseKind::LeftUp => MouseAction::Release,
        MouseKind::Other => MouseAction::Nothing,
    }
}

/// Decides what a mouse event does.
pub fn mouse_action(mode: Mode, kind: MouseKind) -> (a: MouseAction)
    ensures
        a == mouse_action_of(mode, kind),
{
    match kind {
        MouseKind::ScrollUp => match mode {
            Mode::PortSelect | Mode::Settings => MouseAction::SelectionUp,
            _ => MouseAction::ScrollUp(3),
        },
        MouseKind::ScrollDown => match mode {
            Mode::PortSelect | Mode::Settings => MouseAction::SelectionDown,
            _ => MouseAction::ScrollDown(3),
        },
        MouseKind::LeftDown => match mode {
            Mode::Normal | Mode::Input | Mode::Search => MouseAction::MainClick,
            Mode::PortSelect => MouseAction::PortClick,
            Mode::Settings => MouseAction::SettingsClick,
            _ => MouseAction::Nothing,
        },
        MouseKind::LeftDrag => MouseAction::Drag,
        MouseKind::LeftUp => MouseAction::Release,
        MouseKind::Other => MouseAction::Nothing,
    }
}


/// A scrollback line as it is copied: the timestamp in brackets when one is given, the sent
/// marker for a sent command, the text, and the line-ending marker when endings are shown
/// and the line has one.
pub open spec fn copy_text(
    stamp: Option<Seq<char>>,
    text: Seq<char>,
    ending: LineEnding,
    is_sent: bool,
    show_line_endings: bool,
) -> Seq<char> {
    (match stamp {
        Some(t) => "["@ + t + "] "@,
        None => Seq::empty(),
    }) + (if is_sent {
        "❯ "@
    } else {
        Seq::empty()
    }) + text + (if show_line_endings && ending != LineEnding::NoEnding {
        " "@ + ending_label(ending)
    } else {
        Seq::empty()
    })
}

/// Formats one scrollback line for the clipboard, matching the rendered view (`stamp` is the
/// line's time, already formatted, when timestamps are shown).
pub fn entry_copy_text(
    stamp: Option<&str>,
    text: &str,
    ending: LineEnding,
    is_sent: bool,
    show_line_endings: bool,
) -> (s: String)
    ensures
        s@ == copy_text(
            match stamp {
                Some(t) => Some(t@),
                None => None,
            },
            text@,
            ending,
            is_sent,
            show_line_endings,
        ),
{
    let mut line = String::new();
    match stamp {
        Some(t) => {
            push_str(&mut line, "[");
            push_str(&mut line, t);
            push_str(&mut line, "] ");
        },
        None => {},
    }
    if is_sent {
        push_str(&mut line, "❯ ");
    }
    push_str(&mut line, text);
    if show_line_endings && ending != LineEnding::NoEnding {
        push_str(&mut line, " ");
        push_str(&mut line, ending.display());
    }
    line
}

} // verus!
