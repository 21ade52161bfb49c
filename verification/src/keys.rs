//! What each key does in each mode.
use vstd::prelude::*;

use crate::session::Mode;

verus! {

/// A key, as the terminal reports it.
#[derive(Clone, Copy, Debug, PartialEq, Eq, Structural)]
pub enum KeyCode {
    Char(char),
    /// A function key, F1 being 1.
    F(u8),
    Enter,
    Esc,
    Backspace,
    Delete,
    Left,
    Right,
    Up,
    Down,
    Home,
    End,
    PageUp,
    PageDown,
    Tab,
    /// Any other key.
    Other,
}

/// A key press: the key, and whether Control was held.
#[derive(Clone, Copy, Debug, PartialEq, Eq, Structural)]
pub struct KeyPress {
    pub code: KeyCode,
    pub ctrl: bool,
}

/// What a key press asks the application to do.
#[derive(Clone, Copy, Debug, PartialEq, Eq, Structural)]
pub enum Action {
    /// Back to input mode (Ctrl+C never quits).
    ReturnToInput,
    ClearBuffer,
    /// Send quick-send command `n` (from 0).
    QuickSend(usize),
    Quit,
    EnterInput,
    ScrollDown(usize),
    ScrollUp(usize),
    ToggleShowSent,
    ScrollToBottom,
    ScrollToTop,
    StartSearch,
    SearchNext,
    SearchPrev,
    ToggleTimestamps,
    ToggleHexMode,
    ToggleLineEndings,
    ToggleLogging,
    OpenPortSelector,
    OpenSettings,
    OpenMacroSelector,
    OpenFilterPopup,
    ToggleConnection,
    OpenHelp,
    /// Switch to input mode and type the character.
    TypeInInput(char),
    SendCommand,
    EnterNormal,
    InputBackspace,
    InputDelete,
    CursorWordLeft,
    CursorWordRight,
    CursorLeft,
    CursorRight,
    AcceptSuggestion,
    HistoryPrevious,
    HistoryNext,
    CursorHome,
    CursorEnd,
    DeleteWordBack,
    KillLine,
    ToggleHexInput,
    InputChar(char),
    EndSearch,
    RestoreMode,
    SearchBackspace,
    SearchChar(char),
    ConnectSelectedPort,
    SelectionUp,
    SelectionDown,
    RefreshPorts,
    AutoDetectBaud,
    CancelSettings,
    ApplySettings,
    NextValue,
    PrevValue,
    RunSelectedMacro,
    SubmitFilter,
    ToggleFilterMode,
    FilterBackspace,
    RemoveSelectedFilter,
    FilterChar(char),
    Nothing,
}

/// Facts about the input line that decide what Right and Tab do.
#[derive(Clone, Copy, Debug, PartialEq, Eq, Structural)]
pub struct InputContext {
    /// The cursor stands at the end of the text (its byte offset equals the text's length).
    pub cursor_at_end: bool,
    /// A history suggestion is shown.
    pub has_suggestion: bool,
}

/// Keys that work in every mode, or in Normal and Input mode, before the mode's own keys.
pub open spec fn global_action(mode: Mode, key: KeyPress) -> Option<Action> {
    if key.ctrl && key.code == KeyCode::Char('c') {
        Some(Action::ReturnToInput)
    } else if key.ctrl && key.code == KeyCode::Char('l') && (mode == Mode::Normal || mode == Mode::Input) {
        Some(Action::ClearBuffer)
    } else if (mode == Mode::Normal || mode == Mode::Input) && (key.code matches KeyCode::F(n) && 1 <= n <= 8) {
        Some(Action::QuickSend((key.code->F_0 - 1) as usize))
    } else {
        None
    }
}

pub open spec fn normal_action(key: KeyPress) -> Action {
    match key.code {
        KeyCode::Char('q') => Action::Quit,
        KeyCode::Char('i') => Action::EnterInput,
        KeyCode::Char('j') | KeyCode::Down => Action::ScrollDown(1),
        KeyCode::Char('k') | KeyCode::Up => Action::ScrollUp(1),
        KeyCode::Char('x') => Action::ToggleShowSent,
        KeyCode::Char('G') => Action::ScrollToBottom,
        KeyCode::Char('g') => Action::ScrollToTop,
        KeyCode::Char('d') if key.ctrl => Action::ScrollDown(10),
        KeyCode::Char('u') if key.ctrl => Action::ScrollUp(10),
        KeyCode::PageDown => Action::ScrollDown(20),
        KeyCode::PageUp => Action::ScrollUp(20),
        KeyCode::Char('/') => Action::StartSearch,
        KeyCode::Char('n') => Action::SearchNext,
        KeyCode::Char('N') => Action::SearchPrev,
        KeyCode::Char('t') => Action::ToggleTimestamps,
        KeyCode::Char('h') => Action::ToggleHexMode,
        KeyCode::Char('e') => Action::ToggleLineEndings,
        KeyCode::Char('l') => Action::ToggleLogging,
        KeyCode::Char('p') => Action::OpenPortSelector,
        KeyCode::Char('s') => Action::OpenSettings,
        KeyCode::Char('m') => Action::OpenMacroSelector,
        KeyCode::Char('f') => Action::OpenFilterPopup,
        KeyCode::Char('c') => Action::ToggleConnection,
        KeyCode::Char('?') => Action::OpenHelp,
        KeyCode::Char(c) => Action::TypeInInput(c),
        _ => Action::Nothing,
    }
}

pub open spec fn input_action(key: KeyPress, ctx: InputContext) -> Action {
    match key.code {
        KeyCode::Enter => Action::SendCommand,
        KeyCode::Esc => Action::EnterNormal,
        KeyCode::Backspace => Action::InputBackspace,
        KeyCode::Delete => Action::InputDelete,
        KeyCode::Left if key.ctrl => Action::CursorWordLeft,
        KeyCode::Right if key.ctrl => Action::CursorWordRight,
        KeyCode::Left => Action::CursorLeft,
        KeyCode::Right => if ctx.cursor_at_end && ctx.has_suggestion {
            Action::AcceptSuggestion
        } else {
            Action::CursorRight
        },
        KeyCode::Tab => if ctx.has_suggestion {
            Action::AcceptSuggestion
        } else {
            Action::Nothing
        },
        KeyCode::Up => Action::HistoryPrevious,
        KeyCode::Down => Action::HistoryNext,
        KeyCode::Home => Action::CursorHome,
        KeyCode::End => Action::CursorEnd,
        KeyCode::PageUp => Action::ScrollUp(20),
        KeyCode::PageDown => Action::ScrollDown(20),
        KeyCode::Char('w') if key.ctrl => Action::DeleteWordBack,
        KeyCode::Char('u') if key.ctrl => Action::KillLine,
        KeyCode::Char('h') if key.ctrl => Action::ToggleHexInput,
        KeyCode::Char('p') if key.ctrl => Action::OpenPortSelector,
        KeyCode::Char('s') if key.ctrl => Action::OpenSettings,
        KeyCode::Char('a') if key.ctrl => Action::CursorHome,
        KeyCode::Char('e') if key.ctrl => Action::CursorEnd,
        KeyCode::Char(c) => Action::InputChar(c),
        _ => Action::Nothing,
    }
}

pub open spec fn search_action(key: KeyPress) -> Action {
    match key.code {
        KeyCode::Esc => Action::EndSearch,
        KeyCode::Enter => Action::RestoreMode,
        KeyCode::Backspace => Action::SearchBackspace,
        KeyCode::Char('n') if key.ctrl => Action::SearchNext,
        KeyCode::Char('p') if key.ctrl => Action::SearchPrev,
        KeyCode::Down => Action::SearchNext,
        KeyCode::Up => Action::SearchPrev,
        KeyCode::Char(c) => Action::SearchChar(c),
        _ => Action::Nothing,
    }
}

pub open spec fn port_select_action(key: KeyPress) -> Action {
    match key.code {
        KeyCode::Esc | KeyCode::Char('q') => Action::RestoreMode,
        KeyCode::Enter => Action::ConnectSelectedPort,
        KeyCode::Up | KeyCode::Char('k') => Action::SelectionUp,
        KeyCode::Down | KeyCode::Char('j') => Action::SelectionDown,
        KeyCode::Char('r') => Action::RefreshPorts,
        KeyCode::Char('a') => Action::AutoDetectBaud,
        _ => Action::Nothing,
    }
}

pub open spec fn help_action(key: KeyPress) -> Action {
    match key.code {
        KeyCode::Esc | KeyCode::Char('q') | KeyCode::Char('?') => Action::RestoreMode,
        _ => Action::Nothing,
    }
}

pub open spec fn settings_action(key: KeyPress) -> Action {
    match key.code {
        KeyCode::Esc | KeyCode::Char('q') => Action::CancelSettings,
        KeyCode::Enter => Action::ApplySettings,
        KeyCode::Up | KeyCode::Char('k') => Action::SelectionUp,
        KeyCode::Down | KeyCode::Char('j') => Action::SelectionDown,
        KeyCode::Right | KeyCode::Char('l') | KeyCode::Tab => Action::NextValue,
        KeyCode::Left | KeyCode::Char('h') => Action::PrevValue,
        _ => Action::Nothing,
    }
}

pub open spec fn macro_select_action(key: KeyPress) -> Action {
    match key.code {
        KeyCode::Esc | KeyCode::Char('q') => Action::RestoreMode,
        KeyCode::Enter => Action::RunSelectedMacro,
        KeyCode::Up | KeyCode::Char('k') => Action::SelectionUp,
        KeyCode::Down | KeyCode::Char('j') => Action::SelectionDown,
        _ => Action::Nothing,
    }
}

pub open spec fn filter_action(key: KeyPress) -> Action {
    match key.code {
        KeyCode::Esc => Action::RestoreMode,
        KeyCode::Enter => Action::SubmitFilter,
        KeyCode::Tab => Action::ToggleFilterMode,
        KeyCode::Backspace => Action::FilterBackspace,
        KeyCode::Delete => Action::RemoveSelectedFilter,
        KeyCode::Char('d') if key.ctrl => Action::RemoveSelectedFilter,
        KeyCode::Up | KeyCode::Char('k') => Action::SelectionUp,
        KeyCode::Down | KeyCode::Char('j') => Action::SelectionDown,
        KeyCode::Char(c) => Action::FilterChar(c),
        _ => Action::Nothing,
    }
}

/// What `key` does in `mode`.
pub open spec fn action_of(mode: Mode, key: KeyPress, ctx: InputContext) -> Action {
    match global_action(mode, key) {
        Some(a) => a,
        None => match mode {
            Mode::Normal => normal_action(key),
            Mode::Input => input_action(key, ctx),
            Mode::Search => search_action(key),
            Mode::PortSelect => port_select_action(key),
            Mode::Settings => settings_action(key),
            Mode::Help => help_action(key),
            Mode::MacroSelect => macro_select_action(key),
            Mode::Filter => filter_action(key),
        },
    }
}

/// Decides what a key press does in the current mode.
pub fn key_action(mode: Mode, key: KeyPress, ctx: InputContext) -> (a: Action)
    ensures
        a == action_of(mode, key, ctx),
{
    if key.ctrl && key.code == KeyCode::Char('c') {
        return Action::ReturnToInput;
    }
    if key.ctrl && key.code == KeyCode::Char('l') && (mode == Mode::Normal || mode == Mode::Input) {
        return Action::ClearBuffer;
    }
    if mode == Mode::Normal || mode == Mode::Input {
        match key.code {
            KeyCode::F(n) => {
                if n >= 1 && n <= 8 {
                    return Action::QuickSend((n - 1) as usize);
                }
            },
            _ => {},
        }
    }
    match mode {
        Mode::Normal => match key.code {
            KeyCode::Char('q') => Action::Quit,
            KeyCode::Char('i') => Action::EnterInput,
            KeyCode::Char('j') | KeyCode::Down => Action::ScrollDown(1),
            KeyCode::Char('k') | KeyCode::Up => Action::ScrollUp(1),
            KeyCode::Char('x') => Action::ToggleShowSent,
            KeyCode::Char('G') => Action::ScrollToBottom,
            KeyCode::Char('g') => Action::ScrollToTop,
            KeyCode::Char('d') if key.ctrl => Action::ScrollDown(10),
            KeyCode::Char('u') if key.ctrl => Action::ScrollUp(10),
            KeyCode::PageDown => Action::ScrollDown(20),
            KeyCode::PageUp => Action::ScrollUp(20),
            KeyCode::Char('/') => Action::StartSearch,
            KeyCode::Char('n') => Action::SearchNext,
            KeyCode::Char('N') => Action::SearchPrev,
            KeyCode::Char('t') => Action::ToggleTimestamps,
            KeyCode::Char('h') => Action::ToggleHexMode,
            KeyCode::Char('e') => Action::ToggleLineEndings,
            KeyCode::Char('l') => Action::ToggleLogging,
            KeyCode::Char('p') => Action::OpenPortSelector,
            KeyCode::Char('s') => Action::OpenSettings,
            KeyCode::Char('m') => Action::OpenMacroSelector,
            KeyCode::Char('f') => Action::OpenFilterPopup,
            KeyCode::Char('c') => Action::ToggleConnection,
            KeyCode::Char('?') => Action::OpenHelp,
            KeyCode::Char(c) => Action::TypeInInput(c),
            _ => Action::Nothing,
        },
        Mode::Input => match key.code {
            KeyCode::Enter => Action::SendCommand,
            KeyCode::Esc => Action::EnterNormal,
            KeyCode::Backspace => Action::InputBackspace,
            KeyCode::Delete => Action::InputDelete,
            KeyCode::Left if key.ctrl => Action::CursorWordLeft,
            KeyCode::Right if key.ctrl => Action::CursorWordRight,
            KeyCode::Left => Action::CursorLeft,
            KeyCode::Right => if ctx.cursor_at_end && ctx.has_suggestion {
                Action::AcceptSuggestion
            } else {
                Action::CursorRight
            },
            KeyCode::Tab => if ctx.has_suggestion {
                Action::AcceptSuggestion
            } else {
                Action::Nothing
            },
            KeyCode::Up => Action::HistoryPrevious,
            KeyCode::Down => Action::HistoryNext,
            KeyCode::Home => Action::CursorHome,
            KeyCode::End => Action::CursorEnd,
            KeyCode::PageUp => Action::ScrollUp(20),
            KeyCode::PageDown => Action::ScrollDown(20),
            KeyCode::Char('w') if key.ctrl => Action::DeleteWordBack,
            KeyCode::Char('u') if key.ctrl => Action::KillLine,
            KeyCode::Char('h') if key.ctrl => Action::ToggleHexInput,
            KeyCode::Char('p') if key.ctrl => Action::OpenPortSelector,
            KeyCode::Char('s') if key.ctrl => Action::OpenSettings,
            KeyCode::Char('a') if key.ctrl => Action::CursorHome,
            KeyCode::Char('e') if key.ctrl => Action::CursorEnd,
            KeyCode::Char(c) => Action::InputChar(c),
            _ => Action::Nothing,
        },
        Mode::Search => match key.code {
            KeyCode::Esc => Action::EndSearch,
            KeyCode::Enter => Action::RestoreMode,
            KeyCode::Backspace => Action::SearchBackspace,
            KeyCode::Char('n') if key.ctrl => Action::SearchNext,
            KeyCode::Char('p') if key.ctrl => Action::SearchPrev,
            KeyCode::Down => Action::SearchNext,
            KeyCode::Up => Action::SearchPrev,
            KeyCode::Char(c) => Action::SearchChar(c),
            _ => Action::Nothing,
        },
        Mode::PortSelect => match key.code {
            KeyCode::Esc | KeyCode::Char('q') => Action::RestoreMode,
            KeyCode::Enter => Action::ConnectSelectedPort,
            KeyCode::Up | KeyCode::Char('k') => Action::SelectionUp,
            KeyCode::Down | KeyCode::Char('j') => Action::SelectionDown,
            KeyCode::Char('r') => Action::RefreshPorts,
            KeyCode::Char('a') => Action::AutoDetectBaud,
            _ => Action::Nothing,
        },
        Mode::Settings => match key.code {
            KeyCode::Esc | KeyCode::Char('q') => Action::CancelSettings,
            KeyCode::Enter => Action::ApplySettings,
            KeyCode::Up | KeyCode::Char('k') => Action::SelectionUp,
            KeyCode::Down | KeyCode::Char('j') => Action::SelectionDown,
            KeyCode::Right | KeyCode::Char('l') | KeyCode::Tab => Action::NextValue,
            KeyCode::Left | KeyCode::Char('h') => Action::PrevValue,
            _ => Action::Nothing,
        },
        Mode::Help => match key.code {
            KeyCode::Esc | KeyCode::Char('q') | KeyCode::Char('?') => Action::RestoreMode,
            _ => Action::Nothing,
        },
        Mode::MacroSelect => match key.code {
            KeyCode::Esc | KeyCode::Char('q') => Action::RestoreMode,
            KeyCode::Enter => Action::RunSelectedMacro,
            KeyCode::Up | KeyCode::Char('k') => Action::SelectionUp,
            KeyCode::Down | KeyCode::Char('j') => Action::SelectionDown,
            _ => Action::Nothing,
        },
        Mode::Filter => match key.code {
            KeyCode::Esc => Action::RestoreMode,
            KeyCode::Enter => Action::SubmitFilter,
            KeyCode::Tab => Action::ToggleFilterMode,
            KeyCode::Backspace => Action::FilterBackspace,
            KeyCode::Delete => Action::RemoveSelectedFilter,
            KeyCode::Char('d') if key.ctrl => Action::RemoveSelectedFilter,
            KeyCode::Up | KeyCode::Char('k') => Action::SelectionUp,
            KeyCode::Down | KeyCode::Char('j') => Action::SelectionDown,
            KeyCode::Char(c) => Action::FilterChar(c),
            _ => Action::Nothing,
        },
    }
}

/// A selection one up, stopping at the first item.
pub fn step_up(index: usize) -> (r: usize)
    ensures
        r == if index > 0 {
            index - 1
        } else {
            0int
        },
{
    if index > 0 {
        index - 1
    } else {
        0
    }
}

/// A selection one down, stopping at the last of `count` items (the settings popup has six
/// fields, so it stops at index 5 with a count of 6).
pub fn step_down(index: usize, count: usize) -> (r: usize)
    ensures
        r == if index + 1 < count {
            index + 1
        } else {
            index as int
        },
{
    if index < usize::MAX && index + 1 < count {
        index + 1
    } else {
        index
    }
}

/// The filter selection after a removal: kept within the remaining `count` filters.
pub fn filter_index_after_remove(index: usize, count: usize) -> (r: usize)
    ensures
        r == if index >= count && index > 0 {
            index - 1
        } else {
            index as int
        },
{
    if index >= count && index > 0 {
        index - 1
    } else {
        index
    }
}

/// Escape closes every overlay but Settings (which it cancels) and Search (which it ends), and
/// leaves input for normal mode.
pub proof fn law_escape_leaves(mode: Mode, ctx: InputContext)
    ensures
        action_of(mode, KeyPress { code: KeyCode::Esc, ctrl: false }, ctx) == match mode {
            Mode::Normal => Action::Nothing,
            Mode::Input => Action::EnterNormal,
            Mode::Search => Action::EndSearch,
            Mode::Settings => Action::CancelSettings,
            _ => Action::RestoreMode,
        },
{
}

/// Ctrl+C returns to input mode from every mode.
pub proof fn law_ctrl_c_returns_to_input(mode: Mode, ctx: InputContext)
    ensures
        action_of(mode, KeyPress { code: KeyCode::Char('c'), ctrl: true }, ctx) == Action::ReturnToInput,
{
}

/// The documented normal-mode bindings, whatever the state of the input line: `i` input, `p`
/// port selector, `s` settings, `c` connect or disconnect, `j`/`k` scroll down/up a line, `G`/`g`
/// bottom/top, `/` search, `n`/`N` next/previous match, `h` hex view, `t` timestamps, `e` line
/// endings, `l` logging, `?` help, `q` quit.
pub proof fn law_normal_bindings(ctx: InputContext)
    ensures
        action_of(Mode::Normal, KeyPress { code: KeyCode::Char('i'), ctrl: false }, ctx) == Action::EnterInput,
        action_of(Mode::Normal, KeyPress { code: KeyCode::Char('p'), ctrl: false }, ctx) == Action::OpenPortSelector,
        action_of(Mode::Normal, KeyPress { code: KeyCode::Char('s'), ctrl: false }, ctx) == Action::OpenSettings,
        action_of(Mode::Normal, KeyPress { code: KeyCode::Char('c'), ctrl: false }, ctx) == Action::ToggleConnection,
        action_of(Mode::Normal, KeyPress { code: KeyCode::Char('j'), ctrl: false }, ctx) == Action::ScrollDown(1),
        action_of(Mode::Normal, KeyPress { code: KeyCode::Char('k'), ctrl: false }, ctx) == Action::ScrollUp(1),
        action_of(Mode::Normal, KeyPress { code: KeyCode::Char('G'), ctrl: false }, ctx) == Action::ScrollToBottom,
        action_of(Mode::Normal, KeyPress { code: KeyCode::Char('g'), ctrl: false }, ctx) == Action::ScrollToTop,
        action_of(Mode::Normal, KeyPress { code: KeyCode::Char('/'), ctrl: false }, ctx) == Action::StartSearch,
        action_of(Mode::Normal, KeyPress { code: KeyCode::Char('n'), ctrl: false }, ctx) == Action::SearchNext,
        action_of(Mode::Normal, KeyPress { code: KeyCode::Char('N'), ctrl: false }, ctx) == Action::SearchPrev,
        action_of(Mode::Normal, KeyPress { code: KeyCode::Char('h'), ctrl: false }, ctx) == Action::ToggleHexMode,
        action_of(Mode::Normal, KeyPress { code: KeyCode::Char('t'), ctrl: false }, ctx) == Action::ToggleTimestamps,
        action_of(Mode::Normal, KeyPress { code: KeyCode::Char('e'), ctrl: false }, ctx) == Action::ToggleLineEndings,
        action_of(Mode::Normal, KeyPress { code: KeyCode::Char('l'), ctrl: false }, ctx) == Action::ToggleLogging,
        action_of(Mode::Normal, KeyPress { code: KeyCode::Char('?'), ctrl: false }, ctx) == Action::OpenHelp,
        action_of(Mode::Normal, KeyPress { code: KeyCode::Char('q'), ctrl: false }, ctx) == Action::Quit,
{
}

/// Search steps run both ways in every mode that has them: in normal mode `n` goes to the next
/// match and `N` to the previous one; while searching, Down and Ctrl+N go to the next match and
/// Up and Ctrl+P to the previous one.
pub proof fn law_search_directions(ctx: InputContext, ctrl: bool)
    ensures
        action_of(Mode::Normal, KeyPress { code: KeyCode::Char('n'), ctrl: false }, ctx) == Action::SearchNext,
        action_of(Mode::Normal, KeyPress { code: KeyCode::Char('N'), ctrl: false }, ctx) == Action::SearchPrev,
        action_of(Mode::Search, KeyPress { code: KeyCode::Down, ctrl }, ctx) == Action::SearchNext,
        action_of(Mode::Search, KeyPress { code: KeyCode::Up, ctrl }, ctx) == Action::SearchPrev,
        action_of(Mode::Search, KeyPress { code: KeyCode::Char('n'), ctrl: true }, ctx) == Action::SearchNext,
        action_of(Mode::Search, KeyPress { code: KeyCode::Char('p'), ctrl: true }, ctx) == Action::SearchPrev,
{
}

} // verus!
