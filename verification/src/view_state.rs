//! The view state: what the user has typed, committed and scrolled to, and
//! the two-mode controller that key presses drive.
//!
//! The search buffer is held as characters, so the cursor counts characters
//! and every edit is defined wherever the cursor stands.

use vstd::prelude::*;
use vstd::string::StringExecFns;

use crate::scroll::{
    clamp_offset, clamped, page_down, page_up, scroll_down, scroll_up, stepped_down,
    stepped_down_times, stepped_up, stepped_up_times, PAGE_STEPS,
};
use crate::text::{string_of_chars, uppercase_of};

verus! {

/// Whether keys drive the view or edit the search buffer.
#[derive(Clone, Copy, Debug, PartialEq, Eq, Structural)]
pub enum InputMode {
    Normal,
    Editing,
}

/// A key press as the input source delivers it.
#[derive(Clone, Copy, Debug, PartialEq, Eq, Structural)]
pub enum Key {
    Char(char),
    Enter,
    Esc,
    Backspace,
    Left,
    Right,
    Home,
    End,
    Up,
    Down,
    PageUp,
    PageDown,
    /// Any key that has no binding.
    Other,
}

/// What the event loop does after a key press or a feed event.
#[derive(Clone, Copy, Debug, PartialEq, Eq, Structural)]
pub enum Flow {
    Continue,
    Quit,
}

/// The channel tag of the catch-all filter state.
pub open spec fn all_trades_tag() -> Seq<char> {
    "all-trades"@
}

/// The channel tag of the specific filter state.
pub open spec fn live_trade_tag() -> Seq<char> {
    "live-trade"@
}

/// The type filter after one toggle. No filter and the specific tag both
/// lead to the catch-all tag; everything else leads to the specific tag.
pub open spec fn next_type_filter(type_filter: Option<Seq<char>>) -> Option<Seq<char>> {
    match type_filter {
        None => Some(all_trades_tag()),
        Some(tag) => if tag == live_trade_tag() {
            Some(all_trades_tag())
        } else {
            Some(live_trade_tag())
        },
    }
}

/// The toggle walks from no filter to the catch-all tag and then back and
/// forth between the catch-all and the specific tag.
pub proof fn lemma_toggle_cycle()
    ensures
        all_trades_tag() != live_trade_tag(),
        next_type_filter(None) == Some(all_trades_tag()),
        next_type_filter(Some(all_trades_tag())) == Some(live_trade_tag()),
        next_type_filter(Some(live_trade_tag())) == Some(all_trades_tag()),
{
    reveal_strlit("all-trades");
    reveal_strlit("live-trade");
    assert(all_trades_tag()[0] == 'a');
    assert(live_trade_tag()[0] == 'l');
}

/// The search symbol that committing `buffer` makes active: none for an empty
/// buffer, else the whole buffer in upper case, with nothing trimmed.
pub open spec fn committed_symbol(buffer: Seq<char>) -> Option<Seq<char>> {
    if buffer.len() == 0 {
        None
    } else {
        Some(uppercase_of(buffer))
    }
}

/// The mathematical content of a `ViewState`.
pub struct ViewModel {
    pub search_term: Seq<char>,
    pub active_search_symbol: Option<Seq<char>>,
    pub type_filter: Option<Seq<char>>,
    pub scroll_offset: int,
    pub input_mode: InputMode,
    pub cursor_position: int,
}

impl ViewModel {
    /// The cursor stands inside the buffer or just behind it.
    pub open spec fn wf(self) -> bool {
        0 <= self.cursor_position <= self.search_term.len() && 0 <= self.scroll_offset
    }

    /// After a character key while editing.
    pub open spec fn entered(self, c: char) -> ViewModel {
        ViewModel {
            search_term: self.search_term.insert(self.cursor_position, c),
            cursor_position: self.cursor_position + 1,
            ..self
        }
    }

    /// After backspace while editing.
    pub open spec fn deleted(self) -> ViewModel {
        if self.cursor_position > 0 {
            ViewModel {
                search_term: self.search_term.remove(self.cursor_position - 1),
                cursor_position: self.cursor_position - 1,
                ..self
            }
        } else {
            self
        }
    }

    /// After the left key while editing.
    pub open spec fn cursor_left(self) -> ViewModel {
        if self.cursor_position > 0 {
            ViewModel { cursor_position: self.cursor_position - 1, ..self }
        } else {
            self
        }
    }

    /// After the right key while editing.
    pub open spec fn cursor_right(self) -> ViewModel {
        if self.cursor_position < self.search_term.len() {
            ViewModel { cursor_position: self.cursor_position + 1, ..self }
        } else {
            self
        }
    }

    /// After the home key while editing.
    pub open spec fn cursor_home(self) -> ViewModel {
        ViewModel { cursor_position: 0, ..self }
    }

    /// After the end key while editing.
    pub open spec fn cursor_end(self) -> ViewModel {
        ViewModel { cursor_position: self.search_term.len() as int, ..self }
    }

    /// After the search buffer is committed.
    pub open spec fn committed(self) -> ViewModel {
        ViewModel {
            active_search_symbol: committed_symbol(self.search_term),
            scroll_offset: 0,
            ..self
        }
    }

    /// After the type filter is toggled.
    pub open spec fn toggled(self) -> ViewModel {
        ViewModel { type_filter: next_type_filter(self.type_filter), scroll_offset: 0, ..self }
    }

    /// With another mode.
    pub open spec fn in_mode(self, mode: InputMode) -> ViewModel {
        ViewModel { input_mode: mode, ..self }
    }

    /// With another scroll offset.
    pub open spec fn scrolled_to(self, offset: int) -> ViewModel {
        ViewModel { scroll_offset: offset, ..self }
    }

    /// The state after `key`, where the visible sequence has `total` rows of
    /// which `visible_rows` fit on screen.
    pub open spec fn after_key(self, key: Key, total: int, visible_rows: int) -> ViewModel {
        match self.input_mode {
            InputMode::Normal => match key {
                Key::Char(c) => if c == 't' {
                    self.toggled()
                } else if c == 'e' || c == '/' {
                    self.in_mode(InputMode::Editing)
                } else {
                    self
                },
                Key::Enter => self.committed(),
                Key::Up => self.scrolled_to(stepped_up(self.scroll_offset)),
                Key::Down => self.scrolled_to(
                    stepped_down(self.scroll_offset, total, visible_rows),
                ),
                Key::PageUp => self.scrolled_to(
                    stepped_up_times(self.scroll_offset, PAGE_STEPS as nat),
                ),
                Key::PageDown => self.scrolled_to(
                    stepped_down_times(self.scroll_offset, total, visible_rows, PAGE_STEPS as nat),
                ),
                _ => self,
            },
            InputMode::Editing => match key {
                Key::Enter => self.committed().in_mode(InputMode::Normal),
                Key::Char(c) => self.entered(c),
                Key::Backspace => self.deleted(),
                Key::Left => self.cursor_left(),
                Key::Right => self.cursor_right(),
                Key::Home => self.cursor_home(),
                Key::End => self.cursor_end(),
                Key::Esc => self.in_mode(InputMode::Normal),
                _ => self,
            },
        }
    }

    /// Whether `key` ends the event loop: only the quit key does, and only
    /// outside editing.
    pub open spec fn quits_on(self, key: Key) -> bool {
        self.input_mode == InputMode::Normal && key == Key::Char('q')
    }

    /// Whether `key` reads the size of the visible sequence.
    pub open spec fn scrolls_down_on(self, key: Key) -> bool {
        self.input_mode == InputMode::Normal && (key == Key::Down || key == Key::PageDown)
    }
}

/// Every key leaves the cursor inside the buffer.
pub proof fn lemma_after_key_wf(model: ViewModel, key: Key, total: int, visible_rows: int)
    requires
        model.wf(),
        0 <= visible_rows,
    ensures
        model.after_key(key, total, visible_rows).wf(),
{
    crate::scroll::lemma_stepped_up_times(model.scroll_offset, PAGE_STEPS as nat);
    crate::scroll::lemma_stepped_down_times(
        model.scroll_offset,
        total,
        visible_rows,
        PAGE_STEPS as nat,
    );
}

/// Only the keys that scroll down read the size of the visible sequence: for
/// every other key it need not be counted.
pub proof fn lemma_total_read_by_scrolling_down(
    model: ViewModel,
    key: Key,
    total: int,
    other_total: int,
    visible_rows: int,
)
    requires
        !model.scrolls_down_on(key),
    ensures
        model.after_key(key, total, visible_rows) == model.after_key(
            key,
            other_total,
            visible_rows,
        ),
{
}

/// Leaving edit mode by the cancel key changes nothing but the mode: the
/// buffer, the cursor and the committed symbol stay as they are.
pub proof fn lemma_cancel_keeps_buffer(model: ViewModel, total: int, visible_rows: int)
    requires
        model.input_mode == InputMode::Editing,
    ensures
        model.after_key(Key::Esc, total, visible_rows) == model.in_mode(InputMode::Normal),
{
}

/// The scroll offset moves only by the scroll keys, and goes back to zero
/// only when the type filter is toggled or a search is committed. No other
/// key touches it, and none touches it while the buffer is edited but the
/// submit key.
pub proof fn lemma_offset_moves(model: ViewModel, key: Key, total: int, visible_rows: int)
    ensures
        ({
            let after = model.after_key(key, total, visible_rows);
            let scrolls = key == Key::Up || key == Key::Down || key == Key::PageUp || key
                == Key::PageDown;
            let resets = key == Key::Enter || key == Key::Char('t');
            &&& model.input_mode == InputMode::Editing && key != Key::Enter ==> after.scroll_offset
                == model.scroll_offset
            &&& model.input_mode == InputMode::Normal && !scrolls && !resets ==> after.scroll_offset
                == model.scroll_offset
            &&& key == Key::Enter ==> after.scroll_offset == 0
            &&& model.input_mode == InputMode::Normal && key == Key::Char('t')
                ==> after.scroll_offset == 0
        }),
{
}

/// What the user has typed, committed and scrolled to.
#[derive(Debug, PartialEq, Eq)]
pub struct ViewState {
    /// The raw search buffer.
    pub search_term: Vec<char>,
    /// The committed search symbol, in upper case.
    pub active_search_symbol: Option<String>,
    /// The channel tag that trades are filtered by.
    pub type_filter: Option<String>,
    /// Zero-based index into the visible sequence.
    pub scroll_offset: usize,
    pub input_mode: InputMode,
    /// Index into `search_term`, at most its length.
    pub cursor_position: usize,
}

impl View for ViewState {
    type V = ViewModel;

    open spec fn view(&self) -> ViewModel {
        ViewModel {
            search_term: self.search_term@,
            active_search_symbol: match self.active_search_symbol {
                Some(s) => Some(s@),
                None => None,
            },
            type_filter: match self.type_filter {
                Some(s) => Some(s@),
                None => None,
            },
            scroll_offset: self.scroll_offset as int,
            input_mode: self.input_mode,
            cursor_position: self.cursor_position as int,
        }
    }
}

impl ViewState {
    /// The cursor stands inside the buffer or just behind it.
    pub open spec fn wf(&self) -> bool {
        self@.wf()
    }

    /// The empty view state: nothing typed, nothing committed, no filter,
    /// scrolled to the top, in normal mode.
    pub fn new() -> (state: ViewState)
        ensures
            state.wf(),
            state@ == (ViewModel {
                search_term: Seq::empty(),
                active_search_symbol: None,
                type_filter: None,
                scroll_offset: 0,
                input_mode: InputMode::Normal,
                cursor_position: 0,
            }),
    {
        ViewState {
            search_term: Vec::new(),
            active_search_symbol: None,
            type_filter: None,
            scroll_offset: 0,
            input_mode: InputMode::Normal,
            cursor_position: 0,
        }
    }

    /// Moves the cursor one character left, if it is not at the start.
    pub fn move_cursor_left(&mut self)
        ensures
            final(self)@ == old(self)@.cursor_left(),
    {
        if self.cursor_position > 0 {
            self.cursor_position = self.cursor_position - 1;
        }
    }

    /// Moves the cursor one character right, if it is not behind the end.
    pub fn move_cursor_right(&mut self)
        ensures
            final(self)@ == old(self)@.cursor_right(),
    {
        if self.cursor_position < self.search_term.len() {
            self.cursor_position = self.cursor_position + 1;
        }
    }

    /// Moves the cursor to the start of the buffer.
    pub fn move_cursor_home(&mut self)
        ensures
            final(self)@ == old(self)@.cursor_home(),
    {
        self.cursor_position = 0;
    }

    /// Moves the cursor behind the end of the buffer.
    pub fn move_cursor_end(&mut self)
        ensures
            final(self)@ == old(self)@.cursor_end(),
    {
        self.cursor_position = self.search_term.len();
    }

    /// Inserts `c` at the cursor and moves the cursor behind it.
    pub fn enter_char(&mut self, c: char)
        requires
            old(self).wf(),
        ensures
            final(self)@ == old(self)@.entered(c),
            final(self).wf(),
    {
        self.search_term.insert(self.cursor_position, c);
        let len: usize = self.search_term.len();
        assert(self.cursor_position < len);
        self.cursor_position = self.cursor_position + 1;
    }

    /// Deletes the character in front of the cursor, if there is one, and
    /// moves the cursor back over it.
    pub fn delete_char(&mut self)
        requires
            old(self).wf(),
        ensures
            final(self)@ == old(self)@.deleted(),
            final(self).wf(),
    {
        if self.cursor_position > 0 {
            let _gone: char = self.search_term.remove(self.cursor_position - 1);
            self.cursor_position = self.cursor_position - 1;
        }
    }

    /// Makes `symbol` the active search symbol and scrolls to the top.
    pub fn set_search(&mut self, symbol: Option<String>)
        ensures
            final(self)@ == (ViewModel {
                active_search_symbol: match symbol {
                    Some(s) => Some(s@),
                    None => None,
                },
                scroll_offset: 0,
                ..old(self)@
            }),
    {
        self.active_search_symbol = symbol;
        self.scroll_offset = 0;
    }

    /// Commits the search buffer: an empty buffer clears the active symbol,
    /// any other becomes the active symbol in upper case. Either way the view
    /// scrolls to the top.
    pub fn submit_search(&mut self)
        ensures
            final(self)@ == old(self)@.committed(),
    {
        if self.search_term.len() == 0 {
            self.set_search(None);
        } else {
            let text: String = string_of_chars(&self.search_term);
            let symbol: String = text.as_str().to_uppercase();
            self.set_search(Some(symbol));
        }
    }

    /// Moves the type filter to its next state and scrolls to the top.
    pub fn toggle_trade_type_filter(&mut self)
        ensures
            final(self)@ == old(self)@.toggled(),
    {
        let live: String = String::from_str("live-trade");
        let to_all: bool = match &self.type_filter {
            None => true,
            Some(tag) => *tag == live,
        };
        if to_all {
            self.type_filter = Some(String::from_str("all-trades"));
        } else {
            self.type_filter = Some(live);
        }
        self.scroll_offset = 0;
    }

    /// One scroll-up action.
    pub fn scroll_up(&mut self)
        ensures
            final(self)@ == old(self)@.scrolled_to(stepped_up(old(self).scroll_offset as int)),
    {
        self.scroll_offset = scroll_up(self.scroll_offset);
    }

    /// One scroll-down action over a visible sequence of `total` rows of
    /// which `visible_rows` fit on screen.
    pub fn scroll_down(&mut self, total: usize, visible_rows: usize)
        ensures
            final(self)@ == old(self)@.scrolled_to(
                stepped_down(old(self).scroll_offset as int, total as int, visible_rows as int),
            ),
    {
        self.scroll_offset = scroll_down(self.scroll_offset, total, visible_rows);
    }

    /// The clamping pass that runs before every render.
    pub fn clamp(&mut self, total: usize, visible_rows: usize)
        ensures
            final(self)@ == old(self)@.scrolled_to(
                clamped(old(self).scroll_offset as int, total as int, visible_rows as int),
            ),
    {
        self.scroll_offset = clamp_offset(self.scroll_offset, total, visible_rows);
    }

    /// Applies one key press. `total` is the length of the visible sequence
    /// and `visible_rows` the number of rows that fit on screen; both are
    /// read only by the keys that scroll down.
    pub fn handle_key(&mut self, key: Key, total: usize, visible_rows: usize) -> (flow: Flow)
        requires
            old(self).wf(),
        ensures
            final(self).wf(),
            final(self)@ == old(self)@.after_key(key, total as int, visible_rows as int),
            flow == if old(self)@.quits_on(key) {
                Flow::Quit
            } else {
                Flow::Continue
            },
    {
        match self.input_mode {
            InputMode::Normal => match key {
                Key::Char(c) => {
                    if c == 'q' {
                        return Flow::Quit;
                    } else if c == 't' {
                        self.toggle_trade_type_filter();
                    } else if c == 'e' || c == '/' {
                        self.input_mode = InputMode::Editing;
                    }
                },
                Key::Enter => {
                    self.submit_search();
                },
                Key::Up => {
                    self.scroll_up();
                },
                Key::Down => {
                    self.scroll_down(total, visible_rows);
                },
                Key::PageUp => {
                    self.scroll_offset = page_up(self.scroll_offset);
                },
                Key::PageDown => {
                    self.scroll_offset = page_down(self.scroll_offset, total, visible_rows);
                },
                _ => {},
            },
            InputMode::Editing => match key {
                Key::Enter => {
                    self.submit_search();
                    self.input_mode = InputMode::Normal;
                },
                Key::Char(c) => {
                    self.enter_char(c);
                },
                Key::Backspace => {
                    self.delete_char();
                },
                Key::Left => {
                    self.move_cursor_left();
                },
                Key::Right => {
                    self.move_cursor_right();
                },
                Key::Home => {
                    self.move_cursor_home();
                },
                Key::End => {
                    self.move_cursor_end();
                },
                Key::Esc => {
                    self.input_mode = InputMode::Normal;
                },
                _ => {},
            },
        }
        Flow::Continue
    }
}

} // verus!
