//! The log viewer's top-level state: the entry list, the help overlay and the quit flag.
use vstd::prelude::*;

use crate::filter::{filter_active, Filter};
use crate::input::{Event, KeyCode, KeyEvent, KeyEventKind, MouseEvent};
use crate::list::{decoded_fits, mouse_effect, mouse_in_range, new_entry_fits, EntryList};
use crate::logger::{decode_entry, entry_view, spec_decode_entry};
use crate::text::ascii_lower;

verus! {

/// The log viewer.
#[derive(Debug)]
pub struct App {
    /// The entries and their view.
    pub entries: EntryList,
    /// Whether the help overlay is shown.
    pub show_help: bool,
    /// Whether the viewer should exit.
    pub should_quit: bool,
}

impl Default for App {
    fn default() -> (r: Self)
        ensures
            r.wf(),
            r.entries.is_fresh(),
            !r.show_help,
            !r.should_quit,
            !r.entries.filter.is_open,
    {
        App { entries: EntryList::default(), show_help: false, should_quit: false }
    }
}

/// The entry list `b` equals `a` except that the filter bar is shown.
pub open spec fn opened_filter(a: &EntryList, b: &EntryList) -> bool {
    &&& EntryList::same_layout(a, b)
    &&& b.logs == a.logs
    &&& b.base_id == a.base_id
    &&& b.filtered_list == a.filtered_list
    &&& b.top_log_idx == a.top_log_idx
    &&& b.top_log_line_offset == a.top_log_line_offset
    &&& b.auto_scroll == a.auto_scroll
    &&& b.filter.is_open
    &&& b.filter.module == a.filter.module
    &&& b.filter.level == a.filter.level
    &&& b.filter.pattern == a.filter.pattern
    &&& b.filter.raw_pattern == a.filter.raw_pattern
    &&& b.filter.selected == a.filter.selected
}

/// The entry list `b` equals `a` except that the filter bar is hidden.
pub open spec fn closed_filter(a: &EntryList, b: &EntryList) -> bool {
    &&& EntryList::same_layout(a, b)
    &&& b.logs == a.logs
    &&& b.base_id == a.base_id
    &&& b.filtered_list == a.filtered_list
    &&& b.top_log_idx == a.top_log_idx
    &&& b.top_log_line_offset == a.top_log_line_offset
    &&& b.auto_scroll == a.auto_scroll
    &&& !b.filter.is_open
    &&& b.filter.module == a.filter.module
    &&& b.filter.level == a.filter.level
    &&& b.filter.pattern == a.filter.pattern
    &&& b.filter.raw_pattern == a.filter.raw_pattern
    &&& b.filter.selected == a.filter.selected
}

/// Whether a key goes to the filter bar while it is shown: characters, tabs and backspace.
pub open spec fn is_filter_key(code: KeyCode) -> bool {
    match code {
        KeyCode::Char(_) | KeyCode::BackTab | KeyCode::Backspace | KeyCode::Tab => true,
        _ => false,
    }
}

/// The effect of Escape: it closes the help overlay if shown, else the filter bar if shown.
pub open spec fn esc_effect(a: &App, b: &App) -> bool {
    &&& b.should_quit == a.should_quit
    &&& if a.show_help {
        !b.show_help && b.entries == a.entries
    } else if a.entries.filter.is_open {
        !b.show_help && closed_filter(&a.entries, &b.entries)
    } else {
        !b.show_help && b.entries == a.entries
    }
}

/// The effect of key event `key` on viewer `a`, giving viewer `b`.
pub open spec fn app_key_effect(a: &App, b: &App, key: KeyEvent) -> bool {
    if key.kind == KeyEventKind::Release {
        b.entries == a.entries && b.show_help == a.show_help && b.should_quit == a.should_quit
    } else if key.code == KeyCode::Esc {
        esc_effect(a, b)
    } else if is_filter_key(key.code) && a.entries.filter.is_open {
        &&& EntryList::filter_key_effect(&a.entries, &b.entries, key.code)
        &&& EntryList::same_layout(&a.entries, &b.entries)
        &&& b.entries.logs == a.entries.logs
        &&& b.show_help == a.show_help
        &&& b.should_quit == a.should_quit
    } else if key.code == KeyCode::Char('q') || key.code == KeyCode::Char('Q') {
        b.should_quit && b.entries == a.entries && b.show_help == a.show_help
    } else if key.code == KeyCode::Char('/') {
        opened_filter(&a.entries, &b.entries) && b.show_help == a.show_help && b.should_quit == a.should_quit
    } else if key.code == KeyCode::Char('h') || key.code == KeyCode::Char('H') {
        b.show_help == !a.show_help && b.entries == a.entries && b.should_quit == a.should_quit
    } else {
        &&& EntryList::same_content(&a.entries, &b.entries)
        &&& EntryList::scroll_key_effect(&a.entries, &b.entries, key.code)
        &&& b.show_help == a.show_help
        &&& b.should_quit == a.should_quit
    }
}

impl App {
    /// The entry list is consistent.
    pub open spec fn wf(&self) -> bool {
        self.entries.wf()
    }

    /// The viewer showing the entries of a log file's bytes (or none when there is no file).
    pub fn from_log(bytes: Option<&[u8]>) -> (r: Self)
        requires
            bytes matches Some(b) ==> decoded_fits(b@),
        ensures
            r.wf(),
            bytes matches Some(b) ==> EntryList::initial_from(&r.entries, b@),
            bytes is None ==> r.entries.logs@.len() == 0 && r.entries.auto_scroll,
            !r.show_help,
            !r.should_quit,
            !r.entries.filter.is_open,
    {
        let entries = match bytes {
            Some(b) => EntryList::init_or_default(b),
            None => EntryList::default(),
        };
        App { entries, show_help: false, should_quit: false }
    }

    /// The viewer showing the entries of a log file's bytes, when they all fit the default layout.
    pub fn try_from_log(bytes: Option<&[u8]>) -> (r: Option<Self>)
        ensures
            r is Some <==> (bytes matches Some(b) ==> decoded_fits(b@)),
            r matches Some(a) ==> a.wf() && !a.show_help && !a.should_quit && (bytes matches Some(b)
                ==> EntryList::initial_from(&a.entries, b@)),
    {
        match bytes {
            Some(b) => {
                if EntryList::decoded_entries_fit(b) {
                    Some(Self::from_log(bytes))
                } else {
                    None
                }
            },
            None => Some(Self::from_log(bytes)),
        }
    }

    /// Whether the filter bar is shown.
    pub fn filter_open(&self) -> (b: bool)
        ensures
            b == self.entries.filter.is_open,
    {
        self.entries.filter.is_open
    }

    /// Escape: closes the help overlay if shown, else the filter bar if shown.
    pub fn handle_esc(&mut self)
        requires
            old(self).wf(),
        ensures
            final(self).wf(),
            esc_effect(old(self), final(self)),
    {
        if self.show_help {
            self.show_help = false;
        } else if self.filter_open() {
            self.entries.filter.is_open = false;
        }
    }

    /// Routes a key press (or repeat): Escape closes overlays; while the filter bar is shown,
    /// characters, tabs and backspace edit the filter; otherwise `q` quits, `/` opens the filter
    /// bar, `h` toggles help, and other keys scroll. Key releases are ignored.
    pub fn handle_key(&mut self, key_event: &KeyEvent)
        requires
            old(self).wf(),
        ensures
            final(self).wf(),
            app_key_effect(old(self), final(self), *key_event),
    {
        if key_event.is_press() || key_event.is_repeat() {
            match key_event.code {
                KeyCode::Esc => self.handle_esc(),
                KeyCode::Char(c) => {
                    if self.filter_open() {
                        self.entries.handle_filter(key_event);
                    } else if c == 'q' || c == 'Q' {
                        self.should_quit = true;
                    } else if c == '/' {
                        self.entries.filter.is_open = true;
                    } else if c == 'h' || c == 'H' {
                        self.show_help = !self.show_help;
                    } else {
                        self.entries.handle_key(key_event);
                    }
                },
                KeyCode::BackTab | KeyCode::Backspace | KeyCode::Tab => {
                    if self.filter_open() {
                        self.entries.handle_filter(key_event);
                    } else {
                        self.entries.handle_key(key_event);
                    }
                },
                _ => {
                    self.entries.handle_key(key_event);
                },
            }
        }
    }

    /// Routes a terminal event: keys to `handle_key`, mouse events to the entry list.
    pub fn handle_event(&mut self, event: &Event)
        requires
            old(self).wf(),
            *event matches Event::Mouse(m) ==> mouse_in_range(&old(self).entries, m),
        ensures
            final(self).wf(),
            match *event {
                Event::Key(k) => app_key_effect(old(self), final(self), k),
                Event::Mouse(m) => mouse_effect(&old(self).entries, &final(self).entries, m)
                    && final(self).show_help == old(self).show_help && final(self).should_quit == old(self).should_quit,
                Event::Other => final(self).entries == old(self).entries && final(self).show_help == old(self).show_help
                    && final(self).should_quit == old(self).should_quit,
            },
    {
        match event {
            Event::Key(key) => self.handle_key(key),
            Event::Mouse(mouse) => self.entries.handle_mouse(mouse),
            Event::Other => {},
        }
    }
}


/// The entry at the front of `bytes`, if it decodes, fits the viewer's layout.
pub open spec fn appended_fits(l: &EntryList, bytes: Seq<u8>) -> bool {
    spec_decode_entry(bytes) matches Some(p) ==> l.last_viewport_h + crate::height::msg_height(ascii_lower(p.0.3),
        l.last_msg_col_w) <= u16::MAX
}

impl App {
    /// Adds the entry encoded at the front of `bytes` (a datagram from the server) to the list;
    /// bytes that do not decode are ignored.
    pub fn append(&mut self, bytes: &[u8])
        requires
            old(self).wf(),
            appended_fits(&old(self).entries, bytes@),
            old(self).entries.base_id + old(self).entries.logs@.len() < u64::MAX,
        ensures
            final(self).wf(),
            final(self).show_help == old(self).show_help,
            final(self).should_quit == old(self).should_quit,
            spec_decode_entry(bytes@) is None ==> final(self).entries == old(self).entries,
            spec_decode_entry(bytes@) matches Some(p) ==> EntryList::add_effect(&old(self).entries,
                &final(self).entries, p.0),
    {
        assert(bytes@.skip(0) =~= bytes@);
        if let Some((entry, _n)) = decode_entry(bytes, 0) {
            self.entries.add_log(entry);
        }
    }

    /// Adds the entry encoded at the front of `bytes` when it fits the layout and the id space has
    /// room; returns whether the bytes were handled (ignored as undecodable, or added).
    pub fn try_append(&mut self, bytes: &[u8]) -> (handled: bool)
        requires
            old(self).wf(),
        ensures
            final(self).wf(),
            final(self).show_help == old(self).show_help,
            final(self).should_quit == old(self).should_quit,
            handled == (appended_fits(&old(self).entries, bytes@) && old(self).entries.base_id
                + old(self).entries.logs@.len() < u64::MAX),
            !handled ==> final(self).entries == old(self).entries,
            handled && spec_decode_entry(bytes@) is None ==> final(self).entries == old(self).entries,
            handled ==> (spec_decode_entry(bytes@) matches Some(p) ==> EntryList::add_effect(&old(self).entries,
                &final(self).entries, p.0)),
    {
        assert(bytes@.skip(0) =~= bytes@);
        if self.entries.base_id >= u64::MAX - self.entries.logs.len() as u64 {
            return false;
        }
        match decode_entry(bytes, 0) {
            Some((entry, _n)) => {
                if self.entries.entry_fits(&entry) {
                    self.entries.add_log(entry);
                    true
                } else {
                    false
                }
            },
            None => true,
        }
    }
}

} // verus!
