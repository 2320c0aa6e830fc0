use vstd::prelude::*;

verus! {

/// The screens of the interactive dashboard.
#[derive(Clone, Copy, Debug, PartialEq, Eq, Structural)]
pub enum DisplayMode {
    Dashboard,
    LogViewer,
    Analysis,
    Help,
}

/// The keys that the dashboard reacts to.
#[derive(Clone, Copy, Debug, PartialEq, Eq, Structural)]
pub enum Key {
    Char(char),
    Tab,
    Up,
    Down,
    Other,
}

/// How many log lines the log viewer shows at once.
pub const VISIBLE_ROWS: usize = 10;

/// The state of the interactive dashboard.
#[derive(Clone, Copy, Debug, PartialEq, Eq, Structural)]
pub struct TuiState {
    pub running: bool,
    pub mode: DisplayMode,
    /// The highlighted entry in the log viewer.
    pub selected_log_index: usize,
    /// The first entry shown in the log viewer.
    pub scroll_offset: usize,
}

/// The screen that follows `m` when cycling with Tab.
pub open spec fn next_mode(m: DisplayMode) -> DisplayMode {
    match m {
        DisplayMode::Dashboard => DisplayMode::LogViewer,
        DisplayMode::LogViewer => DisplayMode::Analysis,
        DisplayMode::Analysis => DisplayMode::Help,
        DisplayMode::Help => DisplayMode::Dashboard,
    }
}

/// The state after key `k`, with `n` entries loaded.
pub open spec fn after_key(s: TuiState, k: Key, n: nat) -> TuiState {
    match k {
        Key::Char('q') => TuiState { running: false, ..s },
        Key::Char('h') => TuiState { mode: DisplayMode::Help, ..s },
        Key::Char('1') => TuiState { mode: DisplayMode::Dashboard, ..s },
        Key::Char('2') => TuiState { mode: DisplayMode::LogViewer, ..s },
        Key::Char('3') => TuiState { mode: DisplayMode::Analysis, ..s },
        Key::Char('4') => TuiState { mode: DisplayMode::Help, ..s },
        Key::Tab => TuiState { mode: next_mode(s.mode), ..s },
        Key::Up => if s.mode == DisplayMode::LogViewer && s.selected_log_index > 0 {
            let sel = (s.selected_log_index - 1) as usize;
            TuiState {
                selected_log_index: sel,
                scroll_offset: if sel < s.scroll_offset {
                    sel
                } else {
                    s.scroll_offset
                },
                ..s
            }
        } else {
            s
        },
        Key::Down => if s.mode == DisplayMode::LogViewer && s.selected_log_index + 1 < n {
            let sel = (s.selected_log_index + 1) as usize;
            TuiState {
                selected_log_index: sel,
                scroll_offset: if sel >= s.scroll_offset + VISIBLE_ROWS {
                    (sel - (VISIBLE_ROWS - 1)) as usize
                } else {
                    s.scroll_offset
                },
                ..s
            }
        } else {
            s
        },
        _ => s,
    }
}

impl TuiState {
    /// The dashboard as it opens.
    pub fn new() -> (s: TuiState)
        ensures
            s == (TuiState {
                running: true,
                mode: DisplayMode::Dashboard,
                selected_log_index: 0,
                scroll_offset: 0,
            }),
    {
        TuiState { running: true, mode: DisplayMode::Dashboard, selected_log_index: 0, scroll_offset: 0 }
    }

    /// Reacts to a key press, with `entries` log entries loaded.
    pub fn handle_key(&mut self, key: Key, entries: usize)
        ensures
            *final(self) == after_key(*old(self), key, entries as nat),
    {
        match key {
            Key::Char('q') => self.running = false,
            Key::Char('h') => self.mode = DisplayMode::Help,
            Key::Char('1') => self.mode = DisplayMode::Dashboard,
            Key::Char('2') => self.mode = DisplayMode::LogViewer,
            Key::Char('3') => self.mode = DisplayMode::Analysis,
            Key::Char('4') => self.mode = DisplayMode::Help,
            Key::Tab => {
                self.mode = match self.mode {
                    DisplayMode::Dashboard => DisplayMode::LogViewer,
                    DisplayMode::LogViewer => DisplayMode::Analysis,
                    DisplayMode::Analysis => DisplayMode::Help,
                    DisplayMode::Help => DisplayMode::Dashboard,
                };
            },
            Key::Up => {
                if self.mode == DisplayMode::LogViewer && self.selected_log_index > 0 {
                    self.selected_log_index = self.selected_log_index - 1;
                    if self.selected_log_index < self.scroll_offset {
                        self.scroll_offset = self.selected_log_index;
                    }
                }
            },
            Key::Down => {
                if self.mode == DisplayMode::LogViewer && self.selected_log_index < entries
                    && entries - self.selected_log_index > 1 {
                    self.selected_log_index = self.selected_log_index + 1;
                    if self.selected_log_index >= self.scroll_offset
                        && self.selected_log_index - self.scroll_offset >= VISIBLE_ROWS {
                        self.scroll_offset = self.selected_log_index - (VISIBLE_ROWS - 1);
                    }
                }
            },
            _ => {},
        }
    }
}

} // verus!
