//! The log filter: which module, level and text a visible log must have.
use vstd::prelude::*;

use crate::entry::Entry;
use crate::input::{KeyCode, KeyEvent};
use crate::logger::{level_name, module_name, Level, Module};
use crate::text::{ascii_lower, contains_seq, lower_char, str_contains, to_lower_char};

verus! {

/// Which part of the filter bar has the focus.
#[derive(Debug, Clone, Copy, PartialEq, Eq, Structural)]
pub enum Selected {
    /// The module selector.
    Module,
    /// The level selector.
    Level,
    /// The text pattern.
    Pattern,
}

impl Default for Selected {
    fn default() -> (r: Self)
        ensures
            r == Selected::Pattern,
    {
        Selected::Pattern
    }
}

/// The focus after `Tab`: Pattern, then Module, then Level, then Pattern again.
pub open spec fn spec_next(s: Selected) -> Selected {
    match s {
        Selected::Level => Selected::Pattern,
        Selected::Module => Selected::Level,
        Selected::Pattern => Selected::Module,
    }
}

/// The focus after `BackTab`: the reverse of `spec_next`.
pub open spec fn spec_prev(s: Selected) -> Selected {
    match s {
        Selected::Level => Selected::Module,
        Selected::Module => Selected::Pattern,
        Selected::Pattern => Selected::Level,
    }
}

impl Selected {
    /// The next part of the filter bar.
    pub fn next(&self) -> (r: Self)
        ensures
            r == spec_next(*self),
    {
        match self {
            Selected::Level => Selected::Pattern,
            Selected::Module => Selected::Level,
            Selected::Pattern => Selected::Module,
        }
    }

    /// The previous part of the filter bar.
    pub fn prev(&self) -> (r: Self)
        ensures
            r == spec_prev(*self),
    {
        match self {
            Selected::Level => Selected::Module,
            Selected::Module => Selected::Pattern,
            Selected::Pattern => Selected::Level,
        }
    }

    /// Whether the pattern has the focus.
    pub fn is_pattern(&self) -> (b: bool)
        ensures
            b == (*self == Selected::Pattern),
    {
        match self {
            Selected::Pattern => true,
            _ => false,
        }
    }

    /// Whether the module selector has the focus.
    pub fn is_module(&self) -> (b: bool)
        ensures
            b == (*self == Selected::Module),
    {
        match self {
            Selected::Module => true,
            _ => false,
        }
    }

    /// Whether the level selector has the focus.
    pub fn is_level(&self) -> (b: bool)
        ensures
            b == (*self == Selected::Level),
    {
        match self {
            Selected::Level => true,
            _ => false,
        }
    }
}

/// `next` undoes `prev` and `prev` undoes `next`; three steps of either return to the start.
pub proof fn lemma_selected_cycle(s: Selected)
    ensures
        spec_next(spec_prev(s)) == s,
        spec_prev(spec_next(s)) == s,
        spec_next(spec_next(spec_next(s))) == s,
        spec_prev(spec_prev(spec_prev(s))) == s,
{
}

/// The level selected after pressing space on the level selector:
/// all, Error, Warning, Fatal, Info, then all again.
pub open spec fn spec_next_lvl(lvl: Option<Level>) -> Option<Level> {
    match lvl {
        Some(Level::Error) => Some(Level::Warning),
        Some(Level::Warning) => Some(Level::Fatal),
        Some(Level::Fatal) => Some(Level::Info),
        None => Some(Level::Error),
        Some(_) => None,
    }
}

/// The module selected after pressing space on the module selector:
/// all, Api, Database, Server, Asset, Storage, Logger, then all again.
pub open spec fn spec_next_mod(module: Option<Module>) -> Option<Module> {
    match module {
        Some(Module::Api) => Some(Module::Database),
        Some(Module::Database) => Some(Module::Server),
        Some(Module::Server) => Some(Module::Asset),
        Some(Module::Asset) => Some(Module::Storage),
        Some(Module::Storage) => Some(Module::Logger),
        None => Some(Module::Api),
        Some(_) => None,
    }
}

/// Computes `spec_next_lvl`.
pub fn next_lvl(lvl: Option<Level>) -> (r: Option<Level>)
    ensures
        r == spec_next_lvl(lvl),
{
    match lvl {
        Some(Level::Error) => Some(Level::Warning),
        Some(Level::Warning) => Some(Level::Fatal),
        Some(Level::Fatal) => Some(Level::Info),
        None => Some(Level::Error),
        Some(_) => None,
    }
}

/// Computes `spec_next_mod`.
pub fn next_mod(module: Option<Module>) -> (r: Option<Module>)
    ensures
        r == spec_next_mod(module),
{
    match module {
        Some(Module::Api) => Some(Module::Database),
        Some(Module::Database) => Some(Module::Server),
        Some(Module::Server) => Some(Module::Asset),
        Some(Module::Asset) => Some(Module::Storage),
        Some(Module::Storage) => Some(Module::Logger),
        None => Some(Module::Api),
        Some(_) => None,
    }
}

/// Starting from "all", five presses of space on the level selector return to "all",
/// and seven presses on the module selector do too.
pub proof fn lemma_selector_cycles()
    ensures
        spec_next_lvl(spec_next_lvl(spec_next_lvl(spec_next_lvl(spec_next_lvl(None))))) == None::<Level>,
        spec_next_mod(spec_next_mod(spec_next_mod(spec_next_mod(spec_next_mod(spec_next_mod(
            spec_next_mod(None))))))) == None::<Module>,
{
}

/// The label of the selected module in the filter bar.
pub fn module_str(module: Option<Module>) -> (r: &'static str)
    ensures
        r@ == match module {
            Some(Module::Api) => "Api"@,
            Some(Module::Database) => "Database"@,
            Some(Module::Server) => "Server"@,
            Some(Module::Asset) => "Asset"@,
            Some(Module::Storage) => "Storage"@,
            Some(Module::Logger) => "Logger"@,
            Some(Module::Ledger) => "Ledger"@,
            None => "ALL"@,
        },
        module matches Some(m) ==> r@ == module_name(m),
{
    match module {
        Some(Module::Api) => "Api",
        Some(Module::Database) => "Database",
        Some(Module::Server) => "Server",
        Some(Module::Asset) => "Asset",
        Some(Module::Storage) => "Storage",
        Some(Module::Logger) => "Logger",
        Some(Module::Ledger) => "Ledger",
        None => "ALL",
    }
}

/// The label of the selected level in the filter bar.
pub fn lvl_str(lvl: Option<Level>) -> (r: &'static str)
    ensures
        r@ == match lvl {
            Some(Level::Info) => "Info"@,
            Some(Level::Warning) => "Warning"@,
            Some(Level::Error) => "Error"@,
            Some(Level::Fatal) => "Fatal"@,
            Some(Level::Shutdown) => ""@,
            None => "ALL"@,
        },
        lvl matches Some(l) ==> (l != Level::Shutdown ==> r@ == level_name(l)),
{
    match lvl {
        Some(Level::Info) => "Info",
        Some(Level::Warning) => "Warning",
        Some(Level::Error) => "Error",
        Some(Level::Fatal) => "Fatal",
        Some(Level::Shutdown) => "",
        None => "ALL",
    }
}

/// The key hints of the filter bar for the focused part: each key and what it does.
pub open spec fn spec_help_line(s: Selected) -> Seq<(Seq<char>, Seq<char>)> {
    match s {
        Selected::Module => seq![
            ("<Esc> "@, "Hide Filters"@),
            ("<h> "@, "Help"@),
            ("<TAB> "@, "Switch Filter"@),
            ("<SPACE> "@, "Switch Module"@),
        ],
        Selected::Level => seq![
            ("<Esc> "@, "Hide Filters"@),
            ("<h> "@, "Help"@),
            ("<TAB> "@, "Switch Filter"@),
            ("<SPACE> "@, "Switch Level"@),
        ],
        Selected::Pattern => seq![("<Esc> "@, "Hide Filters"@), ("<TAB> "@, "Switch Filter"@)],
    }
}

/// The log filter and the state of its input bar.
#[derive(Debug)]
pub struct Filter {
    /// Only logs of this module pass, when set.
    pub module: Option<Module>,
    /// Only logs of this level pass, when set.
    pub level: Option<Level>,
    /// The text pattern as typed.
    pub pattern: String,
    /// The text pattern in lower case, used for matching.
    pub raw_pattern: String,
    /// The part of the bar with the focus.
    pub selected: Selected,
    /// Whether the filter bar is shown.
    pub is_open: bool,
}

impl Default for Filter {
    fn default() -> (r: Self)
        ensures
            r.module is None,
            r.level is None,
            r.pattern@ == Seq::<char>::empty(),
            r.raw_pattern@ == Seq::<char>::empty(),
            r.selected == Selected::Pattern,
            !r.is_open,
    {
        Filter {
            module: None,
            level: None,
            pattern: String::new(),
            raw_pattern: String::new(),
            selected: Selected::Pattern,
            is_open: false,
        }
    }
}

/// Whether a filter restricts anything: a module, a level, or a non-empty pattern.
pub open spec fn filter_active(f: &Filter) -> bool {
    f.module is Some || f.level is Some || f.pattern@.len() > 0
}

/// Whether a log entry passes the filter: same module and level where those are set, and the
/// lower-case pattern (when not empty) occurs in the entry's lower-case message.
pub open spec fn filter_matches(f: &Filter, e: &Entry) -> bool {
    &&& (f.module matches Some(m) ==> m == e.raw.module)
    &&& (f.level matches Some(l) ==> l == e.raw.level)
    &&& (f.raw_pattern@.len() > 0 ==> contains_seq(e.raw.message@, f.raw_pattern@))
}

/// A pattern filter ignores letter case on both sides: a viewer entry whose search copy is the
/// lower-cased message `msg` passes exactly when the lower-cased typed pattern occurs in it, so
/// two messages that differ only in case pass or fail together.
pub proof fn lemma_pattern_case_insensitive(f: &Filter, e: &Entry, msg: Seq<char>)
    requires
        f.wf(),
        f.module is None,
        f.level is None,
        e.raw.message@ == ascii_lower(msg),
    ensures
        filter_matches(f, e) <==> (f.pattern@.len() == 0 || contains_seq(ascii_lower(msg), ascii_lower(f.pattern@))),
        forall|m2: Seq<char>| ascii_lower(m2) == ascii_lower(msg) ==> (contains_seq(ascii_lower(m2), ascii_lower(
            f.pattern@)) <==> contains_seq(ascii_lower(msg), ascii_lower(f.pattern@))),
{
    assert(ascii_lower(f.pattern@).len() == f.pattern@.len());
}

impl Filter {
    /// The lower-case pattern is the typed pattern lower-cased.
    pub open spec fn wf(&self) -> bool {
        self.raw_pattern@ == ascii_lower(self.pattern@)
    }

    /// Whether the filter restricts anything.
    pub fn is_active(&self) -> (b: bool)
        ensures
            b == filter_active(self),
    {
        self.module.is_some() || self.level.is_some() || !self.pattern.as_str().is_empty()
    }

    /// Whether the entry passes the filter.
    pub fn matches(&self, entry: &Entry) -> (b: bool)
        ensures
            b == filter_matches(self, entry),
    {
        if let Some(module) = self.module {
            if module != entry.raw.module {
                return false;
            }
        }
        if let Some(level) = self.level {
            if level != entry.raw.level {
                return false;
            }
        }
        if !self.raw_pattern.as_str().is_empty() {
            return str_contains(entry.raw.message.as_str(), self.raw_pattern.as_str());
        }
        true
    }

    /// The key hints shown in the footer while the filter bar is open, separated there by `" | "`.
    pub fn help_line(&self) -> (r: Vec<(&'static str, &'static str)>)
        ensures
            r@.len() == spec_help_line(self.selected).len(),
            forall|i: int| 0 <= i < r@.len() ==> (#[trigger] r@[i]).0@ == spec_help_line(self.selected)[i].0
                && r@[i].1@ == spec_help_line(self.selected)[i].1,
    {
        let mut r: Vec<(&'static str, &'static str)> = Vec::new();
        r.push(("<Esc> ", "Hide Filters"));
        match self.selected {
            Selected::Module => {
                r.push(("<h> ", "Help"));
                r.push(("<TAB> ", "Switch Filter"));
                r.push(("<SPACE> ", "Switch Module"));
            },
            Selected::Level => {
                r.push(("<h> ", "Help"));
                r.push(("<TAB> ", "Switch Filter"));
                r.push(("<SPACE> ", "Switch Level"));
            },
            Selected::Pattern => {
                r.push(("<TAB> ", "Switch Filter"));
            },
        }
        r
    }

    /// Reacts to a key in the filter bar. Tab and BackTab move the focus; space cycles the focused
    /// selector (or types a space into the pattern); other characters and Backspace edit the pattern
    /// when it has the focus. Returns whether what the filter lets through may have changed.
    pub fn handle_key(&mut self, key_event: &KeyEvent) -> (changed: bool)
        requires
            old(self).wf(),
        ensures
            final(self).wf(),
            final(self).is_open == old(self).is_open,
            Filter::key_effect(old(self), final(self), key_event.code),
            changed == Filter::key_changes(old(self), key_event.code),
            !changed ==> final(self).module == old(self).module && final(self).level == old(self).level
                && final(self).pattern@ == old(self).pattern@,
    {
        match key_event.code {
            KeyCode::Tab => {
                self.selected = self.selected.next();
            },
            KeyCode::BackTab => {
                self.selected = self.selected.prev();
            },
            KeyCode::Char(x) => {
                if x == ' ' {
                    self.handle_space();
                    return true;
                }
                if self.selected.is_pattern() {
                    self.pattern.push(x);
                    self.raw_pattern.push(to_lower_char(x));
                    proof {
                        assert(ascii_lower(self.pattern@) =~= ascii_lower(old(self).pattern@).push(lower_char(x)));
                    }
                    return true;
                }
            },
            KeyCode::Backspace => {
                if self.selected.is_pattern() {
                    self.raw_pattern.pop();
                    let popped = self.pattern.pop();
                    proof {
                        if old(self).pattern@.len() > 0 {
                            assert(ascii_lower(self.pattern@) =~= ascii_lower(old(self).pattern@).drop_last());
                        }
                    }
                    return popped.is_some();
                }
            },
            _ => {},
        }
        false
    }

    /// Whether a key in the filter bar changes what the filter lets through.
    pub open spec fn key_changes(a: &Filter, code: KeyCode) -> bool {
        match code {
            KeyCode::Char(c) => c == ' ' || a.selected == Selected::Pattern,
            KeyCode::Backspace => a.selected == Selected::Pattern && a.pattern@.len() > 0,
            _ => false,
        }
    }

    /// The filter `b` after a key `code` in the filter bar of filter `a`.
    pub open spec fn key_effect(a: &Filter, b: &Filter, code: KeyCode) -> bool {
        &&& b.is_open == a.is_open
        &&& match code {
            KeyCode::Tab => {
                &&& b.selected == spec_next(a.selected)
                &&& b.module == a.module
                &&& b.level == a.level
                &&& b.pattern@ == a.pattern@
            },
            KeyCode::BackTab => {
                &&& b.selected == spec_prev(a.selected)
                &&& b.module == a.module
                &&& b.level == a.level
                &&& b.pattern@ == a.pattern@
            },
            KeyCode::Char(c) => {
                if c == ' ' {
                    &&& Self::space_result(a, b)
                } else if a.selected == Selected::Pattern {
                    &&& b.pattern@ == a.pattern@.push(c)
                    &&& b.module == a.module
                    &&& b.level == a.level
                    &&& b.selected == a.selected
                } else {
                    &&& Self::unchanged(a, b)
                }
            },
            KeyCode::Backspace => {
                if a.selected == Selected::Pattern {
                    &&& b.pattern@ == if a.pattern@.len() > 0 {
                        a.pattern@.drop_last()
                    } else {
                        a.pattern@
                    }
                    &&& b.module == a.module
                    &&& b.level == a.level
                    &&& b.selected == a.selected
                } else {
                    &&& Self::unchanged(a, b)
                }
            },
            _ => {
                &&& Self::unchanged(a, b)
            },
        }
    }

    /// Keys in the filter bar undo each other: a character typed into the pattern is erased by
    /// the next Backspace, and BackTab moves the focus back to where Tab took it from; either way
    /// the filter is as it was.
    pub proof fn lemma_keys_undo(a: &Filter, b: &Filter, d: &Filter, c: char)
        ensures
            a.selected == Selected::Pattern && Filter::key_effect(a, b, KeyCode::Char(c))
                && Filter::key_effect(b, d, KeyCode::Backspace) ==> d.pattern@ == a.pattern@ && d.module
                == a.module && d.level == a.level && d.selected == a.selected,
            Filter::key_effect(a, b, KeyCode::Tab) && Filter::key_effect(b, d, KeyCode::BackTab) ==> d.pattern@
                == a.pattern@ && d.module == a.module && d.level == a.level && d.selected == a.selected,
    {
        if a.selected == Selected::Pattern && Filter::key_effect(a, b, KeyCode::Char(c)) && Filter::key_effect(
            b,
            d,
            KeyCode::Backspace,
        ) {
            assert(b.pattern@ == a.pattern@.push(c));
            assert(b.pattern@.drop_last() =~= a.pattern@);
        }
        if Filter::key_effect(a, b, KeyCode::Tab) && Filter::key_effect(b, d, KeyCode::BackTab) {
            lemma_selected_cycle(a.selected);
        }
    }

    /// Nothing of the filter changed.
    pub open spec fn unchanged(a: &Filter, b: &Filter) -> bool {
        &&& b.module == a.module
        &&& b.level == a.level
        &&& b.pattern@ == a.pattern@
        &&& b.raw_pattern@ == a.raw_pattern@
        &&& b.selected == a.selected
        &&& b.is_open == a.is_open
    }

    /// The effect of space: cycles the focused selector, or types a space into the pattern.
    pub open spec fn space_result(a: &Filter, b: &Filter) -> bool {
        &&& b.selected == a.selected
        &&& b.is_open == a.is_open
        &&& match a.selected {
            Selected::Level => b.level == spec_next_lvl(a.level) && b.module == a.module
                && b.pattern@ == a.pattern@,
            Selected::Module => b.module == spec_next_mod(a.module) && b.level == a.level
                && b.pattern@ == a.pattern@,
            Selected::Pattern => b.pattern@ == a.pattern@.push(' ') && b.module == a.module
                && b.level == a.level,
        }
    }

    /// Space on the filter bar: cycles the focused selector, or types a space into the pattern.
    pub fn handle_space(&mut self)
        requires
            old(self).wf(),
        ensures
            final(self).wf(),
            Self::space_result(old(self), final(self)),
    {
        match self.selected {
            Selected::Level => {
                self.level = next_lvl(self.level);
            },
            Selected::Module => {
                self.module = next_mod(self.module);
            },
            Selected::Pattern => {
                self.pattern.push(' ');
                self.raw_pattern.push(' ');
                proof {
                    assert(ascii_lower(self.pattern@) =~= ascii_lower(old(self).pattern@).push(lower_char(' ')));
                }
            },
        }
    }
}

} // verus!
