//! The scrollable, filterable ring buffer of log entries shown by the viewer.
use std::collections::VecDeque;
use vstd::prelude::*;

use crate::entry::Entry;
use crate::filter::{filter_active, filter_matches, Filter};
use crate::height::{msg_height, str_height, str_height_within};
use crate::input::{KeyCode, KeyEvent, MouseButton, MouseEvent, MouseEventKind, Rect};
use crate::logger::{self, decode_entry, decode_stream, entry_view, Level, Module};
use crate::text::{ascii_lower, contains_seq, to_ascii_lowercase};

verus! {

/// The most entries the viewer keeps; older ones are evicted.
pub const MAX_LOG_BUFFER: usize = 3000;

/// What a filter tests: module, level and lower-case pattern.
pub type FilterKey = (Option<Module>, Option<Level>, Seq<char>);

/// The key of a filter.
pub open spec fn fkey(f: &Filter) -> FilterKey {
    (f.module, f.level, f.raw_pattern@)
}

/// Whether an entry passes a filter key.
pub open spec fn key_matches(k: FilterKey, e: Entry) -> bool {
    &&& (k.0 matches Some(m) ==> m == e.raw.module)
    &&& (k.1 matches Some(l) ==> l == e.raw.level)
    &&& (k.2.len() > 0 ==> contains_seq(e.raw.message@, k.2))
}

/// The absolute ids (`base` plus position) of the entries that pass the key, in order.
pub open spec fn matching_ids(logs: Seq<Entry>, base: int, k: FilterKey) -> Seq<u64>
    decreases logs.len(),
{
    if logs.len() == 0 {
        Seq::empty()
    } else {
        let prev = matching_ids(logs.drop_last(), base, k);
        if key_matches(k, logs.last()) {
            prev.push((base + logs.len() - 1) as u64)
        } else {
            prev
        }
    }
}

/// The rows an entry takes in a message column `w` wide.
pub open spec fn entry_height(e: Entry, w: u16) -> nat {
    msg_height(e.raw.message@, w)
}

/// An entry fits the layout: its rows plus the viewport height stay within a `u16`.
pub open spec fn fits_in(e: Entry, w: u16, vh: u16) -> bool {
    vh + entry_height(e, w) <= u16::MAX
}

/// `h - 1`, or zero.
pub open spec fn sat_dec(h: int) -> int {
    if h > 0 {
        h - 1
    } else {
        0
    }
}

/// The position (top entry, hidden rows of it) after scrolling up `steps` rows.
pub open spec fn up_pos(logs: Seq<Entry>, w: u16, top: int, off: int, steps: int) -> (int, int)
    decreases steps,
{
    if steps <= 0 {
        (top, off)
    } else if off > 0 {
        let amt = if steps < off {
            steps
        } else {
            off
        };
        up_pos(logs, w, top, off - amt, steps - amt)
    } else if top > 0 {
        up_pos(logs, w, top - 1, sat_dec(entry_height(logs[top - 1], w) as int), steps - 1)
    } else {
        (top, off)
    }
}

/// The position after scrolling down `k` rows, one row at a time; nothing moves while
/// following the tail, once the top passes the last entry, or once the rest of the list fits in
/// a viewport `vh` rows high.
pub open spec fn down_pos(logs: Seq<Entry>, w: u16, vh: u16, auto: bool, top: int, off: int, k: int) -> (int, int)
    decreases k,
{
    if k <= 0 || auto || top < 0 || top >= logs.len() || rows_below(logs, w, top, off) <= vh {
        (top, off)
    } else if off + 1 >= entry_height(logs[top], w) {
        down_pos(logs, w, vh, auto, top + 1, 0, k - 1)
    } else {
        down_pos(logs, w, vh, auto, top, off + 1, k - 1)
    }
}

/// The rows of the entries from `j` to the end.
pub open spec fn rows_from(logs: Seq<Entry>, w: u16, j: int) -> int
    decreases logs.len() - j,
{
    if j < 0 || j >= logs.len() {
        0
    } else {
        entry_height(logs[j], w) + rows_from(logs, w, j + 1)
    }
}

/// The ring buffer of log entries with its scroll position, layout and filter.
#[derive(Debug)]
pub struct EntryList {
    /// The entries, oldest first.
    pub logs: VecDeque<Entry>,
    /// The index of the entry at the top of the viewport.
    pub top_log_idx: usize,
    /// How many rows of the top entry are scrolled out of view.
    pub top_log_line_offset: u16,
    /// The width of the message column at the last render.
    pub last_msg_col_w: u16,
    /// The height of the viewport at the last render.
    pub last_viewport_h: u16,
    /// The width of the level column.
    pub col_level_w: u16,
    /// The width of the module column.
    pub col_module_w: u16,
    /// The width of the time column.
    pub col_time_w: u16,
    /// The absolute id of `logs[0]`: how many entries were evicted so far.
    pub base_id: u64,
    /// The area the list was last drawn in.
    pub area: Rect,
    /// The column separator being dragged, if any.
    pub dragging_col: Option<usize>,
    /// The filter.
    pub filter: Filter,
    /// The absolute ids of the entries that pass the filter, while it is active.
    pub filtered_list: VecDeque<u64>,
    /// Whether the view follows the newest entry.
    pub auto_scroll: bool,
}

/// The viewer's entry list.
pub type List = EntryList;

impl EntryList {
    /// The state of a new list: empty, at the top, following the tail, no filter, the default
    /// column widths and a ten by ten layout.
    pub open spec fn is_fresh(&self) -> bool {
        &&& self.logs@.len() == 0
        &&& self.top_log_idx == 0
        &&& self.top_log_line_offset == 0
        &&& self.last_msg_col_w == 10
        &&& self.last_viewport_h == 10
        &&& self.col_level_w == 7
        &&& self.col_module_w == 12
        &&& self.col_time_w == 10
        &&& self.base_id == 0
        &&& self.area == Rect::spec_zero()
        &&& self.dragging_col is None
        &&& self.filter.module is None
        &&& self.filter.level is None
        &&& self.filter.pattern@.len() == 0
        &&& self.filter.raw_pattern@.len() == 0
        &&& self.filter.selected == crate::filter::Selected::Pattern
        &&& !self.filter.is_open
        &&& self.filtered_list@.len() == 0
        &&& self.auto_scroll
    }
}

impl Default for EntryList {
    fn default() -> (r: Self)
        ensures
            r.is_fresh(),
            r.wf(),
    {
        let r = EntryList {
            logs: VecDeque::with_capacity(MAX_LOG_BUFFER),
            top_log_idx: 0,
            top_log_line_offset: 0,
            last_msg_col_w: 10,
            last_viewport_h: 10,
            col_level_w: 7,
            col_module_w: 12,
            col_time_w: 10,
            base_id: 0,
            area: Rect::zero(),
            dragging_col: None,
            filter: Filter::default(),
            filtered_list: VecDeque::with_capacity(MAX_LOG_BUFFER),
            auto_scroll: true,
        };
        assert(ascii_lower(r.filter.pattern@) =~= r.filter.raw_pattern@);
        r
    }
}

impl EntryList {
    /// The ids the filtered list must hold: those of the passing entries while the filter is
    /// active, none otherwise.
    pub open spec fn expected_filtered(&self) -> Seq<u64> {
        if filter_active(&self.filter) {
            matching_ids(self.logs@, self.base_id as int, fkey(&self.filter))
        } else {
            Seq::empty()
        }
    }

    /// Every entry fits the current layout.
    pub open spec fn all_fit(&self) -> bool {
        forall|i: int| 0 <= i < self.logs@.len() ==> #[trigger] fits_in(self.logs@[i], self.last_msg_col_w,
            self.last_viewport_h)
    }

    /// The list is consistent: the filter's patterns agree, the scroll position is in range,
    /// every entry fits the layout, ids fit in a `u64`, and the filtered list holds exactly the
    /// ids of the entries that pass the active filter.
    pub open spec fn wf(&self) -> bool {
        &&& self.wf_base()
        &&& self.filtered_list@ == self.expected_filtered()
    }

    /// Everything of `wf` but the filtered list.
    pub open spec fn wf_base(&self) -> bool {
        &&& self.filter.wf()
        &&& self.top_log_idx <= self.logs@.len()
        &&& self.top_log_line_offset < u16::MAX
        &&& self.all_fit()
        &&& self.base_id + self.logs@.len() <= u64::MAX
    }

    /// How many entries the view walks through: the filtered ones while the filter is active.
    pub open spec fn spec_active_len(&self) -> int {
        if filter_active(&self.filter) {
            self.filtered_list@.len() as int
        } else {
            self.logs@.len() as int
        }
    }

    /// The newest entry the view can show.
    pub open spec fn last_active(&self) -> Entry {
        if filter_active(&self.filter) {
            self.logs@[self.filtered_list@.last() - self.base_id]
        } else {
            self.logs@.last()
        }
    }

    /// The position that shows the newest entry at the bottom of the viewport.
    pub open spec fn bottom_pos(&self) -> (int, int) {
        let h = entry_height(self.last_active(), self.last_msg_col_w) as int;
        up_pos(self.logs@, self.last_msg_col_w, self.spec_active_len() - 1, sat_dec(h),
            sat_dec(self.last_viewport_h as int))
    }

    /// The position and tail-follow flag after snapping to the bottom from `(top, off, auto)`.
    pub open spec fn bottom_effect(&self, top: int, off: int, auto: bool) -> (int, int, bool) {
        if self.logs@.len() == 0 || self.last_viewport_h == 0 {
            (top, off, auto)
        } else if self.spec_active_len() == 0 {
            (0, 0, auto)
        } else {
            let p = self.bottom_pos();
            (p.0, p.1, true)
        }
    }

    /// The rows visible from position `(top, off)` to the end of the list.
    pub open spec fn visible_rows_at(&self, top: int, off: int) -> int {
        if 0 <= top < self.logs@.len() {
            let h = entry_height(self.logs@[top], self.last_msg_col_w) as int;
            (if h > off { h - off } else { 0 }) + rows_from(self.logs@, self.last_msg_col_w, top + 1)
        } else {
            0
        }
    }

    /// Whether everything from position `(top, off)` to the end fits in the viewport.
    pub open spec fn at_bottom_at(&self, top: int, off: int) -> bool {
        self.logs@.len() == 0 || self.visible_rows_at(top, off) <= self.last_viewport_h
    }

    /// Whether the current position shows the end of the list.
    pub open spec fn spec_is_at_bottom(&self) -> bool {
        self.at_bottom_at(self.top_log_idx as int, self.top_log_line_offset as int)
    }

    /// The position and tail-follow flag after scrolling up `steps` rows.
    pub open spec fn up_effect(&self, steps: int) -> (int, int, bool) {
        let p = up_pos(self.logs@, self.last_msg_col_w, self.top_log_idx as int, self.top_log_line_offset as int,
            steps);
        (p.0, p.1, false)
    }

    /// The position and tail-follow flag after scrolling down `steps` rows.
    pub open spec fn down_effect(&self, steps: int) -> (int, int, bool) {
        if self.logs@.len() == 0 {
            (self.top_log_idx as int, self.top_log_line_offset as int, self.auto_scroll)
        } else {
            let p1 = down_pos(self.logs@, self.last_msg_col_w, self.last_viewport_h, self.auto_scroll, self.top_log_idx as int,
                self.top_log_line_offset as int, steps);
            let p2 = if p1.0 >= self.logs@.len() {
                self.bottom_effect(p1.0, p1.1, self.auto_scroll)
            } else {
                (p1.0, p1.1, self.auto_scroll)
            };
            (p2.0, p2.1, p2.2 || self.at_bottom_at(p2.0, p2.1))
        }
    }

    /// Everything but the scroll position and the tail-follow flag is the same.
    pub open spec fn same_content(a: &EntryList, b: &EntryList) -> bool {
        &&& b.logs == a.logs
        &&& b.last_msg_col_w == a.last_msg_col_w
        &&& b.last_viewport_h == a.last_viewport_h
        &&& b.col_level_w == a.col_level_w
        &&& b.col_module_w == a.col_module_w
        &&& b.col_time_w == a.col_time_w
        &&& b.base_id == a.base_id
        &&& b.area == a.area
        &&& b.dragging_col == a.dragging_col
        &&& b.filter == a.filter
        &&& b.filtered_list == a.filtered_list
    }

}

impl List {
    /// The rows `msg` takes in the message column, given that they fit in a `u16`.
    pub fn calculate_height(&self, msg: &str) -> (r: u16)
        requires
            msg_height(msg@, self.last_msg_col_w) <= u16::MAX,
        ensures
            r == msg_height(msg@, self.last_msg_col_w),
    {
        str_height(msg, self.last_msg_col_w)
    }

    /// How many entries the view walks through.
    pub fn active_len(&self) -> (r: usize)
        ensures
            r == self.spec_active_len(),
    {
        if self.filter.is_active() {
            self.filtered_list.len()
        } else {
            self.logs.len()
        }
    }

    /// Whether everything from the current position to the end fits in the viewport.
    pub fn is_at_bottom(&self) -> (b: bool)
        requires
            self.wf(),
        ensures
            b == self.spec_is_at_bottom(),
    {
        if self.logs.len() == 0 {
            return true;
        }
        let ghost w = self.last_msg_col_w;
        let ghost target = self.visible_rows_at(self.top_log_idx as int, self.top_log_line_offset as int);
        let mut total: u16 = 0;
        let mut j: usize = self.top_log_idx;
        while j < self.logs.len()
            invariant
                self.wf(),
                w == self.last_msg_col_w,
                target == self.visible_rows_at(self.top_log_idx as int, self.top_log_line_offset as int),
                self.top_log_idx <= j <= self.logs@.len(),
                total <= self.last_viewport_h,
                j == self.top_log_idx ==> total == 0,
                j > self.top_log_idx ==> total + rows_from(self.logs@, w, j as int) == target,
            decreases self.logs@.len() - j,
        {
            proof {
                assert(fits_in(self.logs@[j as int], w, self.last_viewport_h));
            }
            let h = self.calculate_height(self.logs[j].raw.message.as_str());
            let hidden: u16 = if j == self.top_log_idx {
                self.top_log_line_offset
            } else {
                0
            };
            let visible: u16 = if h > hidden {
                h - hidden
            } else {
                0
            };
            total = total + visible;
            j += 1;
            if total > self.last_viewport_h {
                proof {
                    assert(rows_from(self.logs@, w, j as int) >= 0) by {
                        self.lemma_rows_from_nonneg(j as int);
                    }
                }
                return false;
            }
        }
        true
    }

    /// Rows are never negative.
    pub proof fn lemma_rows_from_nonneg(&self, j: int)
        ensures
            rows_from(self.logs@, self.last_msg_col_w, j) >= 0,
        decreases self.logs@.len() - j,
    {
        if 0 <= j < self.logs@.len() {
            self.lemma_rows_from_nonneg(j + 1);
        }
    }
}


/// The ids of the passing entries are fewer than the entries, lie in `[base, base + len)`,
/// increase strictly, and each names an entry that passes the key.
pub proof fn lemma_matching_ids_bounds(logs: Seq<Entry>, base: int, k: FilterKey)
    requires
        base >= 0,
        base + logs.len() <= u64::MAX,
    ensures
        matching_ids(logs, base, k).len() <= logs.len(),
        forall|i: int| 0 <= i < matching_ids(logs, base, k).len() ==> base <= #[trigger] matching_ids(logs, base, k)[i]
            < base + logs.len(),
        forall|i: int, j: int| 0 <= i < j < matching_ids(logs, base, k).len() ==> #[trigger] matching_ids(logs, base, k)[i]
            < #[trigger] matching_ids(logs, base, k)[j],
        forall|i: int| 0 <= i < matching_ids(logs, base, k).len() ==> key_matches(k,
            logs[#[trigger] matching_ids(logs, base, k)[i] - base]),
    decreases logs.len(),
{
    if logs.len() > 0 {
        let prev = logs.drop_last();
        lemma_matching_ids_bounds(prev, base, k);
        let m = matching_ids(logs, base, k);
        let mp = matching_ids(prev, base, k);
        assert forall|i: int| 0 <= i < mp.len() implies logs[mp[i] - base] == prev[mp[i] - base] by {
        }
    }
}

/// Evicting the oldest entry and counting it in the base drops its id from the passing ids
/// when it passed, and changes nothing else; when it passed, its id `base` comes first.
pub proof fn lemma_matching_ids_evict(logs: Seq<Entry>, base: int, k: FilterKey)
    requires
        logs.len() > 0,
        base >= 0,
        base + logs.len() <= u64::MAX,
    ensures
        key_matches(k, logs[0]) ==> matching_ids(logs, base, k).len() > 0 && matching_ids(logs, base, k)[0] == base
            && matching_ids(logs.drop_first(), base + 1, k) == matching_ids(logs, base, k).drop_first(),
        !key_matches(k, logs[0]) ==> (matching_ids(logs, base, k).len() == 0 || matching_ids(logs, base, k)[0] > base)
            && matching_ids(logs.drop_first(), base + 1, k) == matching_ids(logs, base, k),
    decreases logs.len(),
{
    let m = matching_ids(logs, base, k);
    if logs.len() == 1 {
        assert(logs.drop_first().len() == 0);
        assert(logs.drop_last().len() == 0);
    } else {
        let prev = logs.drop_last();
        lemma_matching_ids_evict(prev, base, k);
        lemma_matching_ids_bounds(prev, base, k);
        let t = logs.drop_first();
        assert(t.drop_last() =~= prev.drop_first());
        assert(t.last() == logs.last());
        if key_matches(k, logs[0]) {
            assert(prev[0] == logs[0]);
            let mp = matching_ids(prev, base, k);
            if key_matches(k, logs.last()) {
                assert(m =~= mp.push((base + logs.len() - 1) as u64));
                assert(m.drop_first() =~= mp.drop_first().push((base + logs.len() - 1) as u64));
            }
        } else {
            assert(prev[0] == logs[0]);
        }
    }
}

/// An id is among the passing ids exactly when the entry it names passes the key.
pub proof fn lemma_matching_ids_member(logs: Seq<Entry>, base: int, k: FilterKey, i: int)
    requires
        base >= 0,
        base + logs.len() <= u64::MAX,
        0 <= i < logs.len(),
    ensures
        matching_ids(logs, base, k).contains((base + i) as u64) <==> key_matches(k, logs[i]),
    decreases logs.len(),
{
    let prev = logs.drop_last();
    let m = matching_ids(logs, base, k);
    let mp = matching_ids(prev, base, k);
    lemma_matching_ids_bounds(prev, base, k);
    if i < logs.len() - 1 {
        lemma_matching_ids_member(prev, base, k, i);
        assert(prev[i] == logs[i]);
        if key_matches(k, logs.last()) {
            assert(m == mp.push((base + logs.len() - 1) as u64));
            if mp.contains((base + i) as u64) {
                let j = choose|j: int| 0 <= j < mp.len() && mp[j] == (base + i) as u64;
                assert(m[j] == mp[j]);
            }
            if m.contains((base + i) as u64) {
                let j = choose|j: int| 0 <= j < m.len() && m[j] == (base + i) as u64;
                if j < mp.len() {
                    assert(m[j] == mp[j]);
                }
            }
        }
    } else {
        if mp.contains((base + i) as u64) {
            let j = choose|j: int| 0 <= j < mp.len() && mp[j] == (base + i) as u64;
            assert(mp[j] < base + prev.len());
        }
        if key_matches(k, logs.last()) {
            assert(m == mp.push((base + logs.len() - 1) as u64));
            assert(m[m.len() - 1] == (base + i) as u64);
        }
    }
}

impl List {
    /// The filtered list is no longer than the entry list, and its ids name entries.
    pub proof fn lemma_filtered_bounds(&self)
        requires
            self.wf(),
        ensures
            self.filtered_list@.len() <= self.logs@.len(),
            forall|i: int| 0 <= i < self.filtered_list@.len() ==> self.base_id <= #[trigger] self.filtered_list@[i]
                < self.base_id + self.logs@.len(),
            self.spec_active_len() <= self.logs@.len(),
    {
        lemma_matching_ids_bounds(self.logs@, self.base_id as int, fkey(&self.filter));
    }

    /// Scrolls the view up by `steps` rows and stops following the tail.
    pub fn scroll_up(&mut self, steps: u16)
        requires
            old(self).wf(),
        ensures
            final(self).wf(),
            EntryList::same_content(old(self), final(self)),
            (final(self).top_log_idx as int, final(self).top_log_line_offset as int, final(self).auto_scroll)
                == old(self).up_effect(steps as int),
            final(self).top_log_idx <= old(self).top_log_idx,
    {
        self.auto_scroll = false;
        let ghost target = up_pos(self.logs@, self.last_msg_col_w, self.top_log_idx as int,
            self.top_log_line_offset as int, steps as int);
        let ghost top0 = self.top_log_idx;
        let mut steps = steps;
        while steps > 0
            invariant
                self.wf(),
                EntryList::same_content(old(self), self),
                !self.auto_scroll,
                self.top_log_idx <= top0,
                up_pos(self.logs@, self.last_msg_col_w, self.top_log_idx as int, self.top_log_line_offset as int,
                    steps as int) == target,
            ensures
                self.wf(),
                EntryList::same_content(old(self), self),
                !self.auto_scroll,
                self.top_log_idx <= top0,
                (self.top_log_idx as int, self.top_log_line_offset as int) == target,
            decreases steps,
        {
            if self.top_log_line_offset > 0 {
                let amt: u16 = if steps < self.top_log_line_offset {
                    steps
                } else {
                    self.top_log_line_offset
                };
                self.top_log_line_offset = self.top_log_line_offset - amt;
                steps = steps - amt;
            } else if self.top_log_idx > 0 {
                self.top_log_idx = self.top_log_idx - 1;
                proof {
                    assert(fits_in(self.logs@[self.top_log_idx as int], self.last_msg_col_w, self.last_viewport_h));
                }
                let h = self.calculate_height(self.logs[self.top_log_idx].raw.message.as_str());
                self.top_log_line_offset = if h > 0 {
                    h - 1
                } else {
                    0
                };
                steps = steps - 1;
            } else {
                break;
            }
        }
    }

    /// Snaps the view to the newest entry and follows the tail again. Nothing happens with no
    /// entries or a zero-height viewport; with an active filter that nothing passes, the position
    /// goes to the start.
    pub fn scroll_to_bottom(&mut self)
        requires
            old(self).wf(),
        ensures
            final(self).wf(),
            EntryList::same_content(old(self), final(self)),
            (final(self).top_log_idx as int, final(self).top_log_line_offset as int, final(self).auto_scroll)
                == old(self).bottom_effect(old(self).top_log_idx as int, old(self).top_log_line_offset as int,
                old(self).auto_scroll),
    {
        if self.logs.len() == 0 || self.last_viewport_h == 0 {
            return;
        }
        let list_len = self.active_len();
        proof {
            self.lemma_filtered_bounds();
        }
        if list_len == 0 {
            self.top_log_idx = 0;
            self.top_log_line_offset = 0;
            return;
        }
        self.top_log_idx = list_len - 1;
        let h = if self.filter.is_active() {
            let last_id = self.filtered_list[self.filtered_list.len() - 1];
            let idx: usize = (last_id - self.base_id) as usize;
            proof {
                assert(fits_in(self.logs@[idx as int], self.last_msg_col_w, self.last_viewport_h));
            }
            self.calculate_height(self.logs[idx].raw.message.as_str())
        } else {
            let idx: usize = self.logs.len() - 1;
            proof {
                assert(fits_in(self.logs@[idx as int], self.last_msg_col_w, self.last_viewport_h));
            }
            self.calculate_height(self.logs[idx].raw.message.as_str())
        };
        self.top_log_line_offset = if h > 0 {
            h - 1
        } else {
            0
        };
        let vh = self.last_viewport_h;
        self.scroll_up(if vh > 0 {
            vh - 1
        } else {
            0
        });
        self.auto_scroll = true;
    }

    /// Scrolls the view down by `steps` rows, one row at a time, unless it follows the tail; it
    /// stops once the end of the list is shown. Passing the last entry snaps to the bottom; ending
    /// at the bottom resumes following the tail.
    pub fn scroll_down(&mut self, steps: u16)
        requires
            old(self).wf(),
        ensures
            final(self).wf(),
            EntryList::same_content(old(self), final(self)),
            (final(self).top_log_idx as int, final(self).top_log_line_offset as int, final(self).auto_scroll)
                == old(self).down_effect(steps as int),
    {
        if self.logs.len() == 0 {
            return;
        }
        let ghost p1 = down_pos(self.logs@, self.last_msg_col_w, self.last_viewport_h, self.auto_scroll, self.top_log_idx as int,
            self.top_log_line_offset as int, steps as int);
        let mut k: u16 = steps;
        while k > 0
            invariant
                self.wf(),
                EntryList::same_content(old(self), self),
                self.auto_scroll == old(self).auto_scroll,
                down_pos(self.logs@, self.last_msg_col_w, self.last_viewport_h, self.auto_scroll, self.top_log_idx as int,
                    self.top_log_line_offset as int, k as int) == p1,
            ensures
                self.wf(),
                EntryList::same_content(old(self), self),
                self.auto_scroll == old(self).auto_scroll,
                (self.top_log_idx as int, self.top_log_line_offset as int) == p1,
            decreases k,
        {
            if self.auto_scroll {
                break;
            }
            if self.top_log_idx >= self.logs.len() {
                break;
            }
            if self.is_at_bottom() {
                break;
            }
            proof {
                assert(fits_in(self.logs@[self.top_log_idx as int], self.last_msg_col_w, self.last_viewport_h));
            }
            self.top_log_line_offset = self.top_log_line_offset + 1;
            let h = self.calculate_height(self.logs[self.top_log_idx].raw.message.as_str());
            if self.top_log_line_offset >= h {
                self.top_log_idx = self.top_log_idx + 1;
                self.top_log_line_offset = 0;
            }
            k = k - 1;
        }
        if self.top_log_idx >= self.logs.len() {
            self.scroll_to_bottom();
        }
        if self.is_at_bottom() {
            self.auto_scroll = true;
        }
    }
}


/// The rows visible from position `(top, off)` to the end of `logs`: what is left of the top
/// entry after `off` hidden rows, then every later entry.
pub open spec fn rows_below(logs: Seq<Entry>, w: u16, top: int, off: int) -> int {
    let h = entry_height(logs[top], w) as int;
    (if h > off {
        h - off
    } else {
        0
    }) + rows_from(logs, w, top + 1)
}

/// Scrolling up `steps` rows stays on an entry and uncovers at most one row per step.
pub proof fn lemma_up_pos_rows(logs: Seq<Entry>, w: u16, top: int, off: int, steps: int)
    requires
        0 <= top < logs.len(),
        off >= 0,
    ensures
        0 <= up_pos(logs, w, top, off, steps).0 < logs.len(),
        up_pos(logs, w, top, off, steps).1 >= 0,
        rows_below(logs, w, up_pos(logs, w, top, off, steps).0, up_pos(logs, w, top, off, steps).1)
            <= rows_below(logs, w, top, off) + if steps > 0 {
            steps
        } else {
            0
        },
    decreases steps,
{
    if steps <= 0 {
    } else if off > 0 {
        let amt = if steps < off {
            steps
        } else {
            off
        };
        lemma_up_pos_rows(logs, w, top, off - amt, steps - amt);
    } else if top > 0 {
        let h = entry_height(logs[top - 1], w) as int;
        lemma_up_pos_rows(logs, w, top - 1, sat_dec(h), steps - 1);
        assert(rows_from(logs, w, top) == entry_height(logs[top], w) + rows_from(logs, w, top + 1));
    }
}

/// Snapping to the bottom shows the end of the list: after `scroll_to_bottom` on a list with an
/// inactive filter and a viewport at least one row high, everything from the new position to the
/// last entry fits in the viewport, and the view follows the tail when there are entries.
pub proof fn lemma_bottom_shows_end(a: &EntryList, b: &EntryList)
    requires
        a.wf(),
        !filter_active(&a.filter),
        a.last_viewport_h > 0,
        EntryList::same_content(a, b),
        (b.top_log_idx as int, b.top_log_line_offset as int, b.auto_scroll) == a.bottom_effect(
            a.top_log_idx as int,
            a.top_log_line_offset as int,
            a.auto_scroll,
        ),
    ensures
        b.spec_is_at_bottom(),
        a.logs@.len() > 0 ==> b.auto_scroll,
{
    if a.logs@.len() > 0 {
        let n = a.logs@.len() as int;
        let w = a.last_msg_col_w;
        let h = entry_height(a.logs@[n - 1], w) as int;
        lemma_up_pos_rows(a.logs@, w, n - 1, sat_dec(h), sat_dec(a.last_viewport_h as int));
        assert(rows_from(a.logs@, w, n) == 0);
        assert(rows_below(a.logs@, w, n - 1, sat_dec(h)) <= 1);
        let p = a.bottom_pos();
        assert(b.visible_rows_at(p.0, p.1) == rows_below(a.logs@, w, p.0, p.1));
    }
}

/// A position further down never leaves the bottom: two lists that differ only in their scroll
/// position, the second at or below the first (a later top entry, or the same one with at least as
/// many hidden rows), show no more rows from their position to the end; so when the first shows
/// the end of the list, so does the second.
pub proof fn lemma_lower_stays_at_bottom(s1: &EntryList, s2: &EntryList)
    requires
        EntryList::same_content(s1, s2),
        s1.top_log_idx < s2.top_log_idx || (s1.top_log_idx == s2.top_log_idx && s1.top_log_line_offset
            <= s2.top_log_line_offset),
    ensures
        s2.visible_rows_at(s2.top_log_idx as int, s2.top_log_line_offset as int) <= s1.visible_rows_at(
            s1.top_log_idx as int,
            s1.top_log_line_offset as int,
        ),
        s1.spec_is_at_bottom() ==> s2.spec_is_at_bottom(),
{
    let logs = s1.logs@;
    let w = s1.last_msg_col_w;
    let n = logs.len() as int;
    let t1 = s1.top_log_idx as int;
    let t2 = s2.top_log_idx as int;
    if t1 < n {
        lemma_rows_from_le(logs, w, t1 + 1, if n > t1 + 1 { n } else { t1 + 1 });
    }
    if t2 < n {
        lemma_rows_from_le(logs, w, t2 + 1, if n > t2 + 1 { n } else { t2 + 1 });
        if t1 < t2 {
            lemma_rows_from_le(logs, w, t1 + 1, t2);
            assert(rows_from(logs, w, t2) == entry_height(logs[t2], w) + rows_from(logs, w, t2 + 1));
        }
    }
}

/// Scrolling up never moves the top entry forward.
pub proof fn lemma_up_pos_not_forward(logs: Seq<Entry>, w: u16, top: int, off: int, steps: int)
    ensures
        up_pos(logs, w, top, off, steps).0 <= top,
    decreases steps,
{
    if steps > 0 {
        if off > 0 {
            let amt = if steps < off {
                steps
            } else {
                off
            };
            lemma_up_pos_not_forward(logs, w, top, off - amt, steps - amt);
        } else if top > 0 {
            lemma_up_pos_not_forward(logs, w, top - 1, sat_dec(entry_height(logs[top - 1], w) as int), steps - 1);
        }
    }
}

/// Scrolling down row by row never moves the top entry back.
pub proof fn lemma_down_pos_not_backward(logs: Seq<Entry>, w: u16, vh: u16, auto: bool, top: int, off: int, k: int)
    ensures
        down_pos(logs, w, vh, auto, top, off, k).0 >= top,
    decreases k,
{
    if !(k <= 0 || auto || top < 0 || top >= logs.len() || rows_below(logs, w, top, off) <= vh) {
        if off + 1 >= entry_height(logs[top], w) {
            lemma_down_pos_not_backward(logs, w, vh, auto, top + 1, 0, k - 1);
        } else {
            lemma_down_pos_not_backward(logs, w, vh, auto, top, off + 1, k - 1);
        }
    }
}

/// Up and down scroll in opposite directions: scrolling up by any number of rows never moves the
/// top entry forward and stops following the tail; scrolling down never moves it back, except
/// when it passes the end and snaps to the bottom, which follows the tail again (or, with a
/// filter that nothing passes, goes to the start).
pub proof fn lemma_scroll_directions(a: &EntryList, steps: int)
    ensures
        a.up_effect(steps).0 <= a.top_log_idx,
        !a.up_effect(steps).2,
        a.down_effect(steps).0 >= a.top_log_idx || a.down_effect(steps).2 || a.spec_active_len() == 0,
{
    lemma_up_pos_not_forward(a.logs@, a.last_msg_col_w, a.top_log_idx as int, a.top_log_line_offset as int, steps);
    lemma_down_pos_not_backward(a.logs@, a.last_msg_col_w, a.last_viewport_h, a.auto_scroll, a.top_log_idx as int,
        a.top_log_line_offset as int, steps);
}

/// The rows shown from a list's scroll position to the end.
pub open spec fn shown_rows(l: &EntryList) -> int {
    rows_below(l.logs@, l.last_msg_col_w, l.top_log_idx as int, l.top_log_line_offset as int)
}

/// The scroll position is on an entry, within its rows, and every entry has a row.
pub open spec fn settled(l: &EntryList) -> bool {
    &&& all_tall(l.logs@, l.last_msg_col_w)
    &&& l.top_log_idx < l.logs@.len()
    &&& l.top_log_line_offset < entry_height(l.logs@[l.top_log_idx as int], l.last_msg_col_w)
}

/// A scroll of `steps` rows up or down from list `a` to list `b` moves the way its name says:
/// up never moves the top entry forward, stops following the tail, and uncovers exactly `steps`
/// more rows (until the whole list shows); down (while not following the tail, from a position
/// that does not yet show the end) hides exactly `steps` rows but never leaves less than a
/// viewport.
pub open spec fn scrolled(a: &EntryList, b: &EntryList, up: bool, steps: int) -> bool {
    &&& up ==> b.top_log_idx <= a.top_log_idx && !b.auto_scroll
    &&& up && settled(a) ==> shown_rows(b) == if shown_rows(a) + steps <= rows_from(a.logs@, a.last_msg_col_w, 0) {
        shown_rows(a) + steps
    } else {
        rows_from(a.logs@, a.last_msg_col_w, 0)
    }
    &&& !up ==> b.top_log_idx >= a.top_log_idx || b.auto_scroll || a.spec_active_len() == 0
    &&& !up && settled(a) && !a.auto_scroll && a.last_viewport_h >= 1 && shown_rows(a) > a.last_viewport_h
        ==> shown_rows(b) == if shown_rows(a) - steps >= a.last_viewport_h {
        shown_rows(a) - steps
    } else {
        a.last_viewport_h as int
    }
}

/// `up_effect` and `down_effect` scroll in the direction and by the amount their names say.
pub proof fn lemma_effects_scroll(a: &EntryList, b: &EntryList, steps: int)
    requires
        b.logs == a.logs,
        b.last_msg_col_w == a.last_msg_col_w,
        steps >= 0,
    ensures
        (b.top_log_idx as int, b.top_log_line_offset as int, b.auto_scroll) == a.up_effect(steps) ==> scrolled(
            a,
            b,
            true,
            steps,
        ),
        (b.top_log_idx as int, b.top_log_line_offset as int, b.auto_scroll) == a.down_effect(steps) ==> scrolled(
            a,
            b,
            false,
            steps,
        ),
{
    lemma_scroll_directions(a, steps);
    let logs = a.logs@;
    let w = a.last_msg_col_w;
    if settled(a) {
        lemma_up_pos_exact(logs, w, a.top_log_idx as int, a.top_log_line_offset as int, steps);
        if !a.auto_scroll && a.last_viewport_h >= 1 {
            lemma_down_pos_exact(logs, w, a.last_viewport_h, a.top_log_idx as int, a.top_log_line_offset as int,
                steps);
        }
    }
}

/// The scroll keys move as their names say: Up and `k` one row up, PageUp ten rows up, Down and
/// `j` one row down, PageDown ten rows down.
pub proof fn lemma_scroll_keys(a: &EntryList, b: &EntryList, code: KeyCode)
    requires
        EntryList::same_content(a, b),
        EntryList::scroll_key_effect(a, b, code),
    ensures
        code == KeyCode::Up || code == KeyCode::Char('k') ==> scrolled(a, b, true, 1),
        code == KeyCode::PageUp ==> scrolled(a, b, true, 10),
        code == KeyCode::Down || code == KeyCode::Char('j') ==> scrolled(a, b, false, 1),
        code == KeyCode::PageDown ==> scrolled(a, b, false, 10),
{
    lemma_effects_scroll(a, b, 1);
    lemma_effects_scroll(a, b, 10);
}

/// The mouse wheel scrolls two rows: up for `ScrollUp`, down for `ScrollDown`.
pub proof fn lemma_wheel(a: &EntryList, b: &EntryList, m: MouseEvent)
    requires
        mouse_effect(a, b, m),
        b.logs == a.logs,
        b.last_msg_col_w == a.last_msg_col_w,
    ensures
        m.kind == MouseEventKind::ScrollUp ==> scrolled(a, b, true, 2),
        m.kind == MouseEventKind::ScrollDown ==> scrolled(a, b, false, 2),
{
    lemma_effects_scroll(a, b, 2);
}

/// Every entry takes at least one row.
pub open spec fn all_tall(logs: Seq<Entry>, w: u16) -> bool {
    forall|i: int| 0 <= i < logs.len() ==> #[trigger] entry_height(logs[i], w) >= 1
}

/// The rows from a later entry on are no more than those from an earlier one.
pub proof fn lemma_rows_from_le(logs: Seq<Entry>, w: u16, i: int, j: int)
    requires
        0 <= i <= j,
    ensures
        rows_from(logs, w, j) <= rows_from(logs, w, i),
    decreases j - i,
{
    if i < j {
        lemma_rows_from_le(logs, w, i + 1, j);
    }
}

/// Scrolling up moves the first visible line `steps` lines up, stopping at the first line of the
/// list: the rows shown from the new position to the end grow by `steps`, up to all rows.
pub proof fn lemma_up_pos_exact(logs: Seq<Entry>, w: u16, top: int, off: int, steps: int)
    requires
        all_tall(logs, w),
        0 <= top < logs.len(),
        0 <= off < entry_height(logs[top], w),
        steps >= 0,
    ensures
        0 <= up_pos(logs, w, top, off, steps).0 < logs.len(),
        0 <= up_pos(logs, w, top, off, steps).1 < entry_height(logs[up_pos(logs, w, top, off, steps).0], w),
        rows_below(logs, w, up_pos(logs, w, top, off, steps).0, up_pos(logs, w, top, off, steps).1) == if
            rows_below(logs, w, top, off) + steps <= rows_from(logs, w, 0) {
            rows_below(logs, w, top, off) + steps
        } else {
            rows_from(logs, w, 0)
        },
    decreases steps,
{
    if steps <= 0 {
        lemma_rows_from_le(logs, w, 0, top);
    } else if off > 0 {
        let amt = if steps < off {
            steps
        } else {
            off
        };
        lemma_up_pos_exact(logs, w, top, off - amt, steps - amt);
    } else if top > 0 {
        assert(entry_height(logs[top - 1], w) >= 1);
        lemma_up_pos_exact(logs, w, top - 1, sat_dec(entry_height(logs[top - 1], w) as int), steps - 1);
    } else {
        assert(rows_from(logs, w, 0) == entry_height(logs[0], w) + rows_from(logs, w, 1));
    }
}

/// Scrolling down without following the tail moves the first visible line down one line per step
/// and stops once the rest of the list fits in the viewport: the rows shown shrink by `k`, but
/// never below the viewport height; a view that already shows the end does not move.
pub proof fn lemma_down_pos_exact(logs: Seq<Entry>, w: u16, vh: u16, top: int, off: int, k: int)
    requires
        all_tall(logs, w),
        0 <= top < logs.len(),
        0 <= off < entry_height(logs[top], w),
        k >= 0,
        vh >= 1,
    ensures
        0 <= down_pos(logs, w, vh, false, top, off, k).0 < logs.len(),
        0 <= down_pos(logs, w, vh, false, top, off, k).1 < entry_height(
            logs[down_pos(logs, w, vh, false, top, off, k).0],
            w,
        ),
        rows_below(logs, w, top, off) <= vh ==> down_pos(logs, w, vh, false, top, off, k) == (top, off),
        rows_below(logs, w, top, off) > vh ==> rows_below(
            logs,
            w,
            down_pos(logs, w, vh, false, top, off, k).0,
            down_pos(logs, w, vh, false, top, off, k).1,
        ) == if rows_below(logs, w, top, off) - k >= vh {
            rows_below(logs, w, top, off) - k
        } else {
            vh as int
        },
    decreases k,
{
    let h = entry_height(logs[top], w) as int;
    if k > 0 && rows_below(logs, w, top, off) > vh {
        if off + 1 >= h {
            assert(rows_from(logs, w, top + 1) >= 1);
            if top + 1 >= logs.len() {
                assert(rows_from(logs, w, top + 1) == 0);
            }
            assert(entry_height(logs[top + 1], w) >= 1);
            assert(rows_from(logs, w, top + 1) == entry_height(logs[top + 1], w) + rows_from(logs, w, top + 2));
            lemma_down_pos_exact(logs, w, vh, top + 1, 0, k - 1);
        } else {
            lemma_down_pos_exact(logs, w, vh, top, off + 1, k - 1);
        }
    }
}

/// With an inactive filter and entries of at least one row, the bottom position shows exactly a
/// viewport's worth of rows, or every row when the whole list is shorter than the viewport.
pub proof fn lemma_bottom_rows_exact(a: &EntryList)
    requires
        a.wf(),
        !filter_active(&a.filter),
        a.logs@.len() > 0,
        a.last_viewport_h > 0,
        all_tall(a.logs@, a.last_msg_col_w),
    ensures
        rows_below(a.logs@, a.last_msg_col_w, a.bottom_pos().0, a.bottom_pos().1) == if a.last_viewport_h
            <= rows_from(a.logs@, a.last_msg_col_w, 0) {
            a.last_viewport_h as int
        } else {
            rows_from(a.logs@, a.last_msg_col_w, 0)
        },
{
    let n = a.logs@.len() as int;
    let w = a.last_msg_col_w;
    assert(entry_height(a.logs@[n - 1], w) >= 1);
    assert(rows_from(a.logs@, w, n) == 0);
    lemma_up_pos_exact(a.logs@, w, n - 1, sat_dec(entry_height(a.logs@[n - 1], w) as int), a.last_viewport_h - 1);
}

/// The lower-cased message of a new entry makes it fit the layout.
pub open spec fn new_entry_fits(e: &logger::Entry, w: u16, vh: u16) -> bool {
    vh + msg_height(ascii_lower(e.message@), w) <= u16::MAX
}

impl EntryList {
    /// The layout, filter and drag state are the same.
    pub open spec fn same_layout(a: &EntryList, b: &EntryList) -> bool {
        &&& b.last_msg_col_w == a.last_msg_col_w
        &&& b.last_viewport_h == a.last_viewport_h
        &&& b.col_level_w == a.col_level_w
        &&& b.col_module_w == a.col_module_w
        &&& b.col_time_w == a.col_time_w
        &&& b.area == a.area
        &&& b.dragging_col == a.dragging_col
    }

    /// Rebuilds the filtered list from scratch and, when the filter is active, snaps to the bottom.
    pub fn apply_filter(&mut self)
        requires
            old(self).wf_base(),
        ensures
            final(self).wf(),
            EntryList::same_layout(old(self), final(self)),
            final(self).logs == old(self).logs,
            final(self).base_id == old(self).base_id,
            final(self).filter == old(self).filter,
            filter_active(&old(self).filter) ==> (final(self).top_log_idx as int, final(self).top_log_line_offset as int,
                final(self).auto_scroll) == final(self).bottom_effect(old(self).top_log_idx as int,
                old(self).top_log_line_offset as int, old(self).auto_scroll),
            !filter_active(&old(self).filter) ==> final(self).top_log_idx == old(self).top_log_idx
                && final(self).top_log_line_offset == old(self).top_log_line_offset
                && final(self).auto_scroll == old(self).auto_scroll,
    {
        self.filtered_list.clear();
        if !self.filter.is_active() {
            return;
        }
        let ghost key = fkey(&self.filter);
        let mut idx: usize = 0;
        while idx < self.logs.len()
            invariant
                self.wf_base(),
                filter_active(&self.filter),
                EntryList::same_layout(old(self), self),
                self.logs == old(self).logs,
                self.base_id == old(self).base_id,
                self.filter == old(self).filter,
                self.top_log_idx == old(self).top_log_idx,
                self.top_log_line_offset == old(self).top_log_line_offset,
                self.auto_scroll == old(self).auto_scroll,
                key == fkey(&self.filter),
                idx <= self.logs@.len(),
                self.filtered_list@ == matching_ids(self.logs@.take(idx as int), self.base_id as int, key),
            decreases self.logs@.len() - idx,
        {
            let m = self.filter.matches(&self.logs[idx]);
            proof {
                let t = self.logs@.take(idx + 1);
                assert(t.drop_last() =~= self.logs@.take(idx as int));
                assert(t.last() == self.logs@[idx as int]);
            }
            if m {
                let id: u64 = self.base_id + idx as u64;
                self.filtered_list.push_back(id);
            }
            idx += 1;
        }
        assert(self.logs@.take(idx as int) =~= self.logs@);
        self.scroll_to_bottom();
    }

    /// The effect of adding the entry `v` to list `a`, giving list `b`: the oldest entry is evicted
    /// when the buffer is full, the new entry goes last, and a view that followed the tail snaps to
    /// the bottom.
    pub open spec fn add_effect(a: &EntryList, b: &EntryList, v: (Module, Level, i64, Seq<char>)) -> bool {
        &&& EntryList::same_layout(a, b)
        &&& b.filter == a.filter
        &&& ({
            let evict = a.logs@.len() >= MAX_LOG_BUFFER;
            let kept = if evict {
                a.logs@.drop_first()
            } else {
                a.logs@
            };
            &&& b.logs@.len() == kept.len() + 1
            &&& b.logs@.drop_last() == kept
            &&& b.base_id == a.base_id + if evict {
                1int
            } else {
                0int
            }
        })
        &&& b.logs@.last().msg@ == v.3
        &&& b.logs@.last().raw.module == v.0
        &&& b.logs@.last().raw.level == v.1
        &&& b.logs@.last().raw.timestamp_ms == v.2
        &&& b.logs@.last().raw.message@ == ascii_lower(v.3)
        &&& a.auto_scroll ==> (b.top_log_idx as int, b.top_log_line_offset as int,
            b.auto_scroll) == b.bottom_effect(a.top_log_idx as int,
            a.top_log_line_offset as int, true)
        &&& !a.auto_scroll ==> b.top_log_idx == a.top_log_idx
            && b.top_log_line_offset == a.top_log_line_offset && !b.auto_scroll
    }

    /// Appends a log entry, evicting the oldest one when the buffer is full, keeps the filtered
    /// list in step, and snaps to the bottom when the view was following the tail.
    pub fn add_log(&mut self, entry: logger::Entry)
        requires
            old(self).wf(),
            new_entry_fits(&entry, old(self).last_msg_col_w, old(self).last_viewport_h),
            old(self).base_id + old(self).logs@.len() < u64::MAX,
        ensures
            final(self).wf(),
            EntryList::add_effect(old(self), final(self), logger::entry_view(&entry)),
    {
        let at_bottom = self.auto_scroll;
        let ghost key = fkey(&self.filter);
        let ghost old_logs = self.logs@;
        let ghost old_base = self.base_id as int;
        if self.logs.len() >= MAX_LOG_BUFFER {
            proof {
                if filter_active(&self.filter) {
                    lemma_matching_ids_evict(old_logs, old_base, key);
                }
            }
            self.logs.pop_front();
            self.base_id = self.base_id + 1;
            if self.filtered_list.len() > 0 {
                let first_id = self.filtered_list[0];
                if first_id < self.base_id {
                    self.filtered_list.pop_front();
                }
            }
            assert(self.filtered_list@ == self.expected_filtered());
        }
        let ghost mid_logs = self.logs@;
        let new_id: u64 = self.base_id + self.logs.len() as u64;
        self.logs.push_back(crate::entry::Entry::from(entry));
        proof {
            assert(self.logs@.drop_last() =~= mid_logs);
            assert forall|i: int| 0 <= i < self.logs@.len() implies #[trigger] fits_in(self.logs@[i],
                self.last_msg_col_w, self.last_viewport_h) by {
                if i < mid_logs.len() {
                    assert(self.logs@[i] == mid_logs[i]);
                    if old_logs.len() >= MAX_LOG_BUFFER {
                        assert(mid_logs[i] == old_logs[i + 1]);
                    }
                }
            }
        }
        let last: usize = self.logs.len() - 1;
        if self.filter.is_active() && self.filter.matches(&self.logs[last]) {
            self.filtered_list.push_back(new_id);
        }
        assert(self.filtered_list@ == self.expected_filtered());
        if at_bottom {
            self.scroll_to_bottom();
        }
    }

    /// In a consistent list the filtered list holds, in increasing order, the absolute ids of
    /// exactly the entries that pass the active filter, each naming an entry; with the filter
    /// inactive it is empty.
    pub proof fn lemma_filtered_list_members(l: &EntryList)
        requires
            l.wf(),
        ensures
            forall|a: int, b: int| 0 <= a < b < l.filtered_list@.len() ==> #[trigger] l.filtered_list@[a]
                < #[trigger] l.filtered_list@[b],
            forall|a: int| 0 <= a < l.filtered_list@.len() ==> l.base_id <= #[trigger] l.filtered_list@[a]
                < l.base_id + l.logs@.len(),
            filter_active(&l.filter) ==> forall|i: int| 0 <= i < l.logs@.len() ==> (l.filtered_list@.contains(
                (l.base_id + i) as u64) <==> filter_matches(&l.filter, &#[trigger] l.logs@[i])),
            !filter_active(&l.filter) ==> l.filtered_list@.len() == 0,
    {
        lemma_matching_ids_bounds(l.logs@, l.base_id as int, fkey(&l.filter));
        if filter_active(&l.filter) {
            assert forall|i: int| 0 <= i < l.logs@.len() implies (l.filtered_list@.contains((l.base_id + i) as u64)
                <==> filter_matches(&l.filter, &#[trigger] l.logs@[i])) by {
                lemma_matching_ids_member(l.logs@, l.base_id as int, fkey(&l.filter), i);
            }
        }
    }

    /// Adding an entry keeps the filtered list exact (see `lemma_filtered_list_members`), keeps the
    /// buffer within `MAX_LOG_BUFFER`, gives the new entry the next absolute id, puts it last, and
    /// leaves the ids of the kept entries unchanged.
    pub proof fn lemma_add_log_invariant(a: &EntryList, b: &EntryList, v: (Module, Level, i64, Seq<char>))
        requires
            a.wf(),
            b.wf(),
            EntryList::add_effect(a, b, v),
            a.logs@.len() <= MAX_LOG_BUFFER,
        ensures
            b.logs@.len() <= MAX_LOG_BUFFER,
            b.base_id + b.logs@.len() == a.base_id + a.logs@.len() + 1,
            b.logs@.last().raw.module == v.0 && b.logs@.last().raw.level == v.1
                && b.logs@.last().raw.timestamp_ms == v.2 && b.logs@.last().raw.message@ == ascii_lower(v.3),
            forall|id: int| b.base_id <= id < a.base_id + a.logs@.len() ==> #[trigger] b.logs@[id - b.base_id]
                == a.logs@[id - a.base_id],
            filter_active(&b.filter) ==> forall|i: int| 0 <= i < b.logs@.len() ==> (b.filtered_list@.contains(
                (b.base_id + i) as u64) <==> filter_matches(&b.filter, &#[trigger] b.logs@[i])),
            !filter_active(&b.filter) ==> b.filtered_list@.len() == 0,
    {
        EntryList::lemma_add_log_bounded(a, b, v);
        EntryList::lemma_filtered_list_members(b);
        assert forall|id: int| b.base_id <= id < a.base_id + a.logs@.len() implies #[trigger] b.logs@[id
            - b.base_id] == a.logs@[id - a.base_id] by {
            assert(b.logs@.drop_last()[id - b.base_id] == b.logs@[id - b.base_id]);
        }
    }

    /// Adding entries never grows a buffer past `MAX_LOG_BUFFER`: when it is full the oldest
    /// entry makes room, the rest move up one place, and `base_id` counts the eviction, so every
    /// kept entry keeps its absolute id.
    pub proof fn lemma_add_log_bounded(a: &EntryList, b: &EntryList, v: (Module, Level, i64, Seq<char>))
        requires
            EntryList::add_effect(a, b, v),
            a.logs@.len() <= MAX_LOG_BUFFER,
        ensures
            b.logs@.len() <= MAX_LOG_BUFFER,
            a.logs@.len() == MAX_LOG_BUFFER ==> b.logs@.len() == MAX_LOG_BUFFER && b.base_id == a.base_id + 1,
            a.logs@.len() < MAX_LOG_BUFFER ==> b.logs@.len() == a.logs@.len() + 1 && b.base_id == a.base_id,
            forall|id: int| a.base_id + 1 <= id < a.base_id + a.logs@.len() ==> #[trigger] b.logs@[id - b.base_id]
                == a.logs@[id - a.base_id],
    {
        assert forall|id: int| a.base_id + 1 <= id < a.base_id + a.logs@.len() implies #[trigger] b.logs@[id
            - b.base_id] == a.logs@[id - a.base_id] by {
            assert(b.logs@.drop_last()[id - b.base_id] == b.logs@[id - b.base_id]);
        }
    }
}


/// Whether the entries that `bytes` decodes to (when all of it decodes) fit the default layout,
/// a message column and a viewport of ten cells each.
pub open spec fn decoded_fits(bytes: Seq<u8>) -> bool {
    decode_stream(bytes) matches Some(es) ==> forall|i: int| 0 <= i < es.len() ==> 10 + msg_height(
        ascii_lower(#[trigger] es[i].3), 10) <= u16::MAX
}

/// What a viewer entry was made from: module, level, timestamp and the message as logged.
pub open spec fn src_view(e: Entry) -> (Module, Level, i64, Seq<char>) {
    (e.raw.module, e.raw.level, e.raw.timestamp_ms, e.msg@)
}

/// The entries `p` followed by those of `o`, if `o` has any.
pub open spec fn opt_prepend<V>(p: Seq<V>, o: Option<Seq<V>>) -> Option<Seq<V>> {
    match o {
        Some(s) => Some(p + s),
        None => None,
    }
}

/// The column arithmetic of `handle_mouse` stays within `u16` for this event.
pub open spec fn mouse_in_range(l: &EntryList, m: MouseEvent) -> bool {
    let blx = l.area.x + l.col_level_w;
    let tw: int = if l.area.width >= l.col_level_w {
        l.area.width - l.col_level_w
    } else {
        0
    };
    let btx = l.area.x + tw;
    &&& blx <= u16::MAX
    &&& btx <= u16::MAX
    &&& (m.kind == MouseEventKind::Down(MouseButton::Left) ==> {
        &&& (m.column >= sat_dec(blx) ==> blx + 1 <= u16::MAX)
        &&& (!(m.column >= sat_dec(blx) && m.column <= blx + 1) && m.column >= sat_dec(btx) ==> btx + 1 <= u16::MAX)
    })
    &&& (m.kind == MouseEventKind::Drag(MouseButton::Left) && l.dragging_col == Some(1usize) ==> blx + 1 <= u16::MAX)
    &&& (m.kind == MouseEventKind::Drag(MouseButton::Left) && l.dragging_col == Some(2usize) ==> l.area.x + l.area.width
        <= u16::MAX)
}

/// `a - b`, or zero.
pub open spec fn sat_sub(a: int, b: int) -> int {
    if a > b {
        a - b
    } else {
        0
    }
}

/// The larger of two numbers.
pub open spec fn max_of(a: int, b: int) -> int {
    if a >= b {
        a
    } else {
        b
    }
}

/// The effect of mouse event `m` on list `a`, giving list `b`.
pub open spec fn mouse_effect(a: &EntryList, b: &EntryList, m: MouseEvent) -> bool {
    let blx: int = a.area.x + a.col_level_w;
    let btx: int = a.area.x + sat_sub(a.area.width as int, a.col_level_w as int);
    let same_cols = b.col_level_w == a.col_level_w && b.col_module_w == a.col_module_w
        && b.col_time_w == a.col_time_w;
    let same_pos = b.top_log_idx == a.top_log_idx && b.top_log_line_offset == a.top_log_line_offset
        && b.auto_scroll == a.auto_scroll;
    match m.kind {
        MouseEventKind::Down(MouseButton::Left) => {
            &&& same_cols && same_pos
            &&& b.dragging_col == if sat_dec(blx) <= m.column <= blx + 1 {
                Some(0usize)
            } else if sat_dec(btx) <= m.column <= btx + 1 {
                Some(2usize)
            } else {
                a.dragging_col
            }
        },
        MouseEventKind::Drag(MouseButton::Left) => {
            &&& same_pos
            &&& b.dragging_col == a.dragging_col
            &&& b.col_level_w == if a.dragging_col == Some(0usize) {
                max_of(4, sat_sub(m.column as int, a.area.x as int))
            } else {
                a.col_level_w as int
            }
            &&& b.col_module_w == if a.dragging_col == Some(1usize) {
                max_of(5, sat_sub(m.column as int, blx + 1))
            } else {
                a.col_module_w as int
            }
            &&& b.col_time_w == if a.dragging_col == Some(2usize) {
                max_of(5, sat_sub(a.area.x + a.area.width, m.column as int))
            } else {
                a.col_time_w as int
            }
        },
        MouseEventKind::Up(MouseButton::Left) => same_cols && same_pos && b.dragging_col is None,
        MouseEventKind::ScrollUp => same_cols && b.dragging_col == a.dragging_col
            && (b.top_log_idx as int, b.top_log_line_offset as int, b.auto_scroll) == a.up_effect(2),
        MouseEventKind::ScrollDown => same_cols && b.dragging_col == a.dragging_col
            && (b.top_log_idx as int, b.top_log_line_offset as int, b.auto_scroll) == a.down_effect(2),
        _ => same_cols && same_pos && b.dragging_col == a.dragging_col,
    }
}

impl EntryList {
    /// The entry at position `idx` of the view: through the filtered list while the filter is active.
    pub open spec fn spec_active_log(&self, idx: int) -> Entry {
        if filter_active(&self.filter) {
            self.logs@[self.filtered_list@[idx] - self.base_id]
        } else {
            self.logs@[idx]
        }
    }

    /// The entry at position `idx` of the view.
    pub fn active_log(&self, idx: usize) -> (r: &Entry)
        requires
            self.wf(),
            idx < self.spec_active_len(),
        ensures
            *r == self.spec_active_log(idx as int),
    {
        proof {
            self.lemma_filtered_bounds();
        }
        if self.filter.is_active() {
            let target_id = self.filtered_list[idx];
            let i: usize = (target_id - self.base_id) as usize;
            &self.logs[i]
        } else {
            &self.logs[idx]
        }
    }

    /// The effect of a filter-bar key `code` on list `a`, giving list `b`: the filter changes as
    /// the filter bar says; when that changed what passes and the filter is active, the view snaps
    /// to the bottom; otherwise the position stays.
    pub open spec fn filter_key_effect(a: &EntryList, b: &EntryList, code: KeyCode) -> bool {
        &&& Filter::key_effect(&a.filter, &b.filter, code)
        &&& Filter::key_changes(&a.filter, code) && filter_active(&b.filter) ==> (b.top_log_idx as int,
            b.top_log_line_offset as int, b.auto_scroll) == b.bottom_effect(a.top_log_idx as int,
            a.top_log_line_offset as int, a.auto_scroll)
        &&& !(Filter::key_changes(&a.filter, code) && filter_active(&b.filter)) ==> b.top_log_idx == a.top_log_idx
            && b.top_log_line_offset == a.top_log_line_offset && b.auto_scroll == a.auto_scroll
    }

    /// The scroll position and tail-follow flag of `b` after scroll key `code` on list `a`.
    pub open spec fn scroll_key_effect(a: &EntryList, b: &EntryList, code: KeyCode) -> bool {
        (b.top_log_idx as int, b.top_log_line_offset as int, b.auto_scroll) == match code {
            KeyCode::Up => a.up_effect(1),
            KeyCode::Char('k') => a.up_effect(1),
            KeyCode::Down => a.down_effect(1),
            KeyCode::Char('j') => a.down_effect(1),
            KeyCode::PageUp => a.up_effect(10),
            KeyCode::PageDown => a.down_effect(10),
            _ => (a.top_log_idx as int, a.top_log_line_offset as int, a.auto_scroll),
        }
    }

    /// Sends a key to the filter bar and rebuilds the filtered list when the filter changed.
    pub fn handle_filter(&mut self, event: &KeyEvent)
        requires
            old(self).wf(),
        ensures
            final(self).wf(),
            EntryList::same_layout(old(self), final(self)),
            final(self).logs == old(self).logs,
            final(self).base_id == old(self).base_id,
            EntryList::filter_key_effect(old(self), final(self), event.code),
    {
        let changed = self.filter.handle_key(event);
        if changed {
            self.apply_filter();
        } else {
            assert(self.filtered_list@ == self.expected_filtered());
        }
    }

    /// Scrolls by keys: up arrow or `k` one row up, down arrow or `j` one row down, and the page
    /// keys ten rows. Other keys do nothing.
    pub fn handle_key(&mut self, key: &KeyEvent)
        requires
            old(self).wf(),
        ensures
            final(self).wf(),
            EntryList::same_content(old(self), final(self)),
            EntryList::scroll_key_effect(old(self), final(self), key.code),
            key.code == KeyCode::Up || key.code == KeyCode::Char('k') ==> scrolled(old(self), final(self), true, 1),
            key.code == KeyCode::PageUp ==> scrolled(old(self), final(self), true, 10),
            key.code == KeyCode::Down || key.code == KeyCode::Char('j') ==> scrolled(old(self), final(self), false, 1),
            key.code == KeyCode::PageDown ==> scrolled(old(self), final(self), false, 10),
    {
        match key.code {
            KeyCode::Up => self.scroll_up(1),
            KeyCode::Char('k') => self.scroll_up(1),
            KeyCode::Down => self.scroll_down(1),
            KeyCode::Char('j') => self.scroll_down(1),
            KeyCode::PageUp => self.scroll_up(10),
            KeyCode::PageDown => self.scroll_down(10),
            _ => {},
        }
        proof {
            lemma_scroll_keys(old(self), self, key.code);
        }
    }

    /// Reacts to the mouse: a left press on a column separator starts dragging it, dragging resizes
    /// the column (level at least 4 cells, module and time at least 5), releasing stops dragging,
    /// and the wheel scrolls two rows.
    pub fn handle_mouse(&mut self, mouse: &MouseEvent)
        requires
            old(self).wf(),
            mouse_in_range(old(self), *mouse),
        ensures
            final(self).wf(),
            final(self).logs == old(self).logs,
            final(self).filter == old(self).filter,
            final(self).filtered_list == old(self).filtered_list,
            final(self).base_id == old(self).base_id,
            final(self).area == old(self).area,
            final(self).last_msg_col_w == old(self).last_msg_col_w,
            final(self).last_viewport_h == old(self).last_viewport_h,
            mouse_effect(old(self), final(self), *mouse),
            mouse.kind == MouseEventKind::ScrollUp ==> scrolled(old(self), final(self), true, 2),
            mouse.kind == MouseEventKind::ScrollDown ==> scrolled(old(self), final(self), false, 2),
    {
        let area = self.area;
        let border_level_x: u16 = area.x + self.col_level_w;
        let time_w: u16 = if area.width >= self.col_level_w {
            area.width - self.col_level_w
        } else {
            0
        };
        let border_time_x: u16 = area.x + time_w;
        let blx_lo: u16 = if border_level_x > 0 {
            border_level_x - 1
        } else {
            0
        };
        let btx_lo: u16 = if border_time_x > 0 {
            border_time_x - 1
        } else {
            0
        };
        match mouse.kind {
            MouseEventKind::Down(MouseButton::Left) => {
                if mouse.column >= blx_lo && mouse.column <= border_level_x + 1 {
                    self.dragging_col = Some(0);
                } else if mouse.column >= btx_lo && mouse.column <= border_time_x + 1 {
                    self.dragging_col = Some(2);
                }
            },
            MouseEventKind::Drag(MouseButton::Left) => {
                if let Some(col) = self.dragging_col {
                    if col == 0 {
                        let d: u16 = if mouse.column > area.x {
                            mouse.column - area.x
                        } else {
                            0
                        };
                        self.col_level_w = if d >= 4 {
                            d
                        } else {
                            4
                        };
                    } else if col == 1 {
                        let start: u16 = border_level_x + 1;
                        let new_w: u16 = if mouse.column > start {
                            mouse.column - start
                        } else {
                            0
                        };
                        self.col_module_w = if new_w >= 5 {
                            new_w
                        } else {
                            5
                        };
                    } else if col == 2 {
                        let right: u16 = area.x + area.width;
                        let new_w: u16 = if right > mouse.column {
                            right - mouse.column
                        } else {
                            0
                        };
                        self.col_time_w = if new_w >= 5 {
                            new_w
                        } else {
                            5
                        };
                    }
                }
            },
            MouseEventKind::Up(MouseButton::Left) => {
                self.dragging_col = None;
            },
            MouseEventKind::ScrollUp => self.scroll_up(2),
            MouseEventKind::ScrollDown => self.scroll_down(2),
            _ => {},
        }
        proof {
            lemma_wheel(old(self), self, *mouse);
        }
    }

    /// Whether the column arithmetic for a mouse event stays within `u16`.
    pub fn mouse_in_bounds(&self, m: &MouseEvent) -> (b: bool)
        ensures
            b == mouse_in_range(self, *m),
    {
        let x = self.area.x as u32;
        let blx: u32 = x + self.col_level_w as u32;
        let tw: u32 = if self.area.width >= self.col_level_w {
            (self.area.width - self.col_level_w) as u32
        } else {
            0
        };
        let btx: u32 = x + tw;
        let max: u32 = u16::MAX as u32;
        if blx > max || btx > max {
            return false;
        }
        let blx_lo: u32 = if blx > 0 {
            blx - 1
        } else {
            0
        };
        let btx_lo: u32 = if btx > 0 {
            btx - 1
        } else {
            0
        };
        let col = m.column as u32;
        match m.kind {
            MouseEventKind::Down(MouseButton::Left) => {
                if col >= blx_lo && blx + 1 > max {
                    return false;
                }
                if !(col >= blx_lo && col <= blx + 1) && col >= btx_lo && btx + 1 > max {
                    return false;
                }
                true
            },
            MouseEventKind::Drag(MouseButton::Left) => {
                match self.dragging_col {
                    Some(c) => {
                        if c == 1 {
                            blx + 1 <= max
                        } else if c == 2 {
                            x + self.area.width as u32 <= max
                        } else {
                            true
                        }
                    },
                    None => true,
                }
            },
            _ => true,
        }
    }

    /// Whether every entry fits a layout with message column `w` and viewport height `vh`.
    pub fn fits_layout(&self, w: u16, vh: u16) -> (r: bool)
        ensures
            r == forall|i: int| 0 <= i < self.logs@.len() ==> #[trigger] fits_in(self.logs@[i], w, vh),
    {
        let mut i: usize = 0;
        while i < self.logs.len()
            invariant
                i <= self.logs@.len(),
                forall|j: int| 0 <= j < i ==> #[trigger] fits_in(self.logs@[j], w, vh),
            decreases self.logs@.len() - i,
        {
            if !Self::entry_fits_in(&self.logs[i], w, vh) {
                return false;
            }
            i += 1;
        }
        true
    }

    /// Whether one viewer entry fits a layout.
    fn entry_fits_in(e: &Entry, w: u16, vh: u16) -> (r: bool)
        ensures
            r == fits_in(*e, w, vh),
    {
        let bound: u16 = u16::MAX - vh;
        str_height_within(e.raw.message.as_str(), w, bound)
    }

    /// Whether a new log entry would fit the current layout once added.
    pub fn entry_fits(&self, entry: &logger::Entry) -> (r: bool)
        ensures
            r == new_entry_fits(entry, self.last_msg_col_w, self.last_viewport_h),
    {
        let lower = to_ascii_lowercase(entry.message.as_str());
        let bound: u16 = u16::MAX - self.last_viewport_h;
        str_height_within(lower.as_str(), self.last_msg_col_w, bound)
    }
}


impl EntryList {
    /// `l` is the list built from the log bytes `bytes`: the decoded entries (or none when the bytes
    /// do not all decode) in the default layout, filter and drag state, snapped to the bottom.
    pub open spec fn initial_from(l: &EntryList, bytes: Seq<u8>) -> bool {
        &&& l.logs@.len() == match decode_stream(bytes) {
            Some(es) => es.len(),
            None => 0,
        }
        &&& decode_stream(bytes) matches Some(es) ==> forall|i: int| 0 <= i < es.len() ==> src_view(
            #[trigger] l.logs@[i]) == es[i] && l.logs@[i].raw.message@ == ascii_lower(es[i].3)
        &&& l.base_id == 0
        &&& l.last_msg_col_w == 10
        &&& l.last_viewport_h == 10
        &&& l.col_level_w == 7
        &&& l.col_module_w == 12
        &&& l.col_time_w == 10
        &&& l.area == Rect::spec_zero()
        &&& l.dragging_col is None
        &&& !filter_active(&l.filter)
        &&& l.filter.selected == crate::filter::Selected::Pattern
        &&& !l.filter.is_open
        &&& (l.top_log_idx as int, l.top_log_line_offset as int, l.auto_scroll) == l.bottom_effect(0, 0, true)
    }

    /// Builds the list from a log file's bytes: the back-to-back encoded entries, oldest first,
    /// snapped to the bottom. When any part of the bytes does not decode, the list is empty.
    pub fn init_or_default(bytes: &[u8]) -> (r: Self)
        requires
            decoded_fits(bytes@),
        ensures
            r.wf(),
            EntryList::initial_from(&r, bytes@),
    {
        let mut list = Self::default();
        let mut pos: usize = 0;
        let ghost full = bytes@;
        assert(bytes@.skip(0) =~= bytes@);
        while pos < bytes.len()
            invariant
                full == bytes@,
                pos <= bytes@.len(),
                list.logs@.len() * 4 <= pos,
                list.base_id == 0,
                list.top_log_idx == 0,
                list.top_log_line_offset == 0,
                list.last_msg_col_w == 10,
                list.last_viewport_h == 10,
                list.col_level_w == 7,
                list.col_module_w == 12,
                list.col_time_w == 10,
                list.area == Rect::spec_zero(),
                list.dragging_col is None,
                list.filter.module is None,
                list.filter.level is None,
                list.filter.pattern@.len() == 0,
                list.filter.wf(),
                list.filter.selected == crate::filter::Selected::Pattern,
                !list.filter.is_open,
                list.filtered_list@.len() == 0,
                list.auto_scroll,
                forall|i: int| 0 <= i < list.logs@.len() ==> (#[trigger] list.logs@[i]).raw.message@ == ascii_lower(
                    list.logs@[i].msg@),
                decode_stream(full) == opt_prepend(Seq::new(list.logs@.len(), |i: int| src_view(list.logs@[i])),
                    decode_stream(full.skip(pos as int))),
            ensures
                full == bytes@,
                pos <= bytes@.len(),
                list.logs@.len() * 4 <= pos,
                list.base_id == 0,
                list.top_log_idx == 0,
                list.top_log_line_offset == 0,
                list.last_msg_col_w == 10,
                list.last_viewport_h == 10,
                list.col_level_w == 7,
                list.col_module_w == 12,
                list.col_time_w == 10,
                list.area == Rect::spec_zero(),
                list.dragging_col is None,
                list.filter.module is None,
                list.filter.level is None,
                list.filter.pattern@.len() == 0,
                list.filter.wf(),
                list.filter.selected == crate::filter::Selected::Pattern,
                !list.filter.is_open,
                list.filtered_list@.len() == 0,
                list.auto_scroll,
                forall|i: int| 0 <= i < list.logs@.len() ==> (#[trigger] list.logs@[i]).raw.message@ == ascii_lower(
                    list.logs@[i].msg@),
                decode_stream(full) == opt_prepend(Seq::new(list.logs@.len(), |i: int| src_view(list.logs@[i])),
                    decode_stream(full.skip(pos as int))),
                pos < bytes@.len() ==> decode_stream(full.skip(pos as int)) is None,
            decreases bytes@.len() - pos,
        {
            let ghost rest = full.skip(pos as int);
            match decode_entry(bytes, pos) {
                Some((entry, n)) => {
                    let ghost before = Seq::new(list.logs@.len(), |i: int| src_view(list.logs@[i]));
                    let ghost v = entry_view(&entry);
                    proof {
                        assert(rest.skip(n as int) =~= full.skip(pos + n));
                        assert(decode_stream(rest) == opt_prepend(seq![v], decode_stream(rest.skip(n as int))));
                    }
                    list.logs.push_back(crate::entry::Entry::from(entry));
                    pos = pos + n;
                    proof {
                        let after = Seq::new(list.logs@.len(), |i: int| src_view(list.logs@[i]));
                        assert(after =~= before + seq![v]);
                        match decode_stream(full.skip(pos as int)) {
                            Some(t) => {
                                assert(before + (seq![v] + t) =~= after + t);
                            },
                            None => {},
                        }
                    }
                },
                None => {
                    proof {
                        assert(decode_stream(rest) is None);
                    }
                    break;
                },
            }
        }
        if pos < bytes.len() {
            list = Self::default();
            proof {
                assert(decode_stream(full) is None);
            }
        } else {
            proof {
                assert(full.skip(pos as int).len() == 0);
                let ps = Seq::new(list.logs@.len(), |i: int| src_view(list.logs@[i]));
                assert(decode_stream(full) == Some(ps + Seq::<(Module, Level, i64, Seq<char>)>::empty()));
                assert(ps + Seq::<(Module, Level, i64, Seq<char>)>::empty() =~= ps);
                let es = decode_stream(full)->0;
                assert(es == ps);
                assert forall|i: int| 0 <= i < list.logs@.len() implies #[trigger] fits_in(list.logs@[i], 10, 10) by {
                    assert(ps[i] == src_view(list.logs@[i]));
                    assert(es[i] == ps[i]);
                    assert(10 + msg_height(ascii_lower(es[i].3), 10) <= u16::MAX);
                }
                assert(list.filtered_list@ =~= list.expected_filtered());
                assert(list.all_fit());
                assert(list.base_id + list.logs@.len() <= u64::MAX);
            }
        }
        list.scroll_to_bottom();
        list
    }
}


impl EntryList {
    /// Whether every entry the log bytes decode to (when they all decode) fits the default layout.
    pub fn decoded_entries_fit(bytes: &[u8]) -> (b: bool)
        ensures
            b == decoded_fits(bytes@),
    {
        let mut pos: usize = 0;
        let mut ok = true;
        let ghost full = bytes@;
        let ghost mut done: Seq<(Module, Level, i64, Seq<char>)> = Seq::empty();
        assert(bytes@.skip(0) =~= bytes@);
        assert(decode_stream(full) == opt_prepend(done, decode_stream(full.skip(0)))) by {
            match decode_stream(full) {
                Some(t) => {
                    assert(done + t =~= t);
                },
                None => {},
            }
        }
        while pos < bytes.len()
            invariant
                full == bytes@,
                pos <= bytes@.len(),
                ok == forall|i: int| 0 <= i < done.len() ==> 10 + msg_height(ascii_lower(#[trigger] done[i].3), 10)
                    <= u16::MAX,
                decode_stream(full) == opt_prepend(done, decode_stream(full.skip(pos as int))),
            ensures
                ok == forall|i: int| 0 <= i < done.len() ==> 10 + msg_height(ascii_lower(#[trigger] done[i].3), 10)
                    <= u16::MAX,
                decode_stream(full) == opt_prepend(done, decode_stream(full.skip(pos as int))),
                pos < bytes@.len() ==> decode_stream(full.skip(pos as int)) is None,
                pos >= bytes@.len() ==> full.skip(pos as int).len() == 0,
            decreases bytes@.len() - pos,
        {
            let ghost rest = full.skip(pos as int);
            match decode_entry(bytes, pos) {
                Some((entry, n)) => {
                    let ghost v = entry_view(&entry);
                    proof {
                        assert(rest.skip(n as int) =~= full.skip(pos + n));
                        assert(decode_stream(rest) == opt_prepend(seq![v], decode_stream(rest.skip(n as int))));
                    }
                    let lower = to_ascii_lowercase(entry.message.as_str());
                    let fits = str_height_within(lower.as_str(), 10, u16::MAX - 10);
                    ok = ok && fits;
                    pos = pos + n;
                    proof {
                        let old_done = done;
                        done = done.push(v);
                        match decode_stream(full.skip(pos as int)) {
                            Some(t) => {
                                assert(old_done + (seq![v] + t) =~= done + t);
                            },
                            None => {},
                        }
                        assert(fits == (10 + msg_height(ascii_lower(v.3), 10) <= u16::MAX));
                        assert(done[done.len() - 1] == v);
                        assert forall|i: int| 0 <= i < old_done.len() implies done[i] == old_done[i] by {}
                        if ok {
                            assert forall|i: int| 0 <= i < done.len() implies 10 + msg_height(
                                ascii_lower(#[trigger] done[i].3), 10) <= u16::MAX by {
                                if i < old_done.len() {
                                    assert(done[i] == old_done[i]);
                                }
                            }
                        } else if !fits {
                            assert(!(10 + msg_height(ascii_lower(done[done.len() - 1].3), 10) <= u16::MAX));
                        } else {
                            let j = choose|j: int| 0 <= j < old_done.len() && !(10 + msg_height(
                                ascii_lower(#[trigger] old_done[j].3), 10) <= u16::MAX);
                            assert(done[j] == old_done[j]);
                        }
                    }
                },
                None => {
                    break;
                },
            }
        }
        if pos < bytes.len() {
            return true;
        }
        proof {
            assert(decode_stream(full.skip(pos as int)) == Some(Seq::<(Module, Level, i64, Seq<char>)>::empty()));
            assert(done + Seq::<(Module, Level, i64, Seq<char>)>::empty() =~= done);
        }
        ok
    }

    /// Builds the list from a log file's bytes when every decoded entry fits the default layout;
    /// `None` otherwise.
    pub fn try_init_or_default(bytes: &[u8]) -> (r: Option<Self>)
        ensures
            r is Some <==> decoded_fits(bytes@),
            r matches Some(l) ==> l.wf() && EntryList::initial_from(&l, bytes@),
    {
        if Self::decoded_entries_fit(bytes) {
            Some(Self::init_or_default(bytes))
        } else {
            None
        }
    }
}

/// The width left for messages in an area `width` cells wide, after the level, module and time
/// columns and the three cells between the columns.
pub open spec fn msg_col_width(l: &EntryList, width: u16) -> int {
    sat_sub(width as int, l.col_level_w + l.col_module_w + l.col_time_w + 3)
}

/// The fixed columns and the cells between them add up to a `u16`.
pub open spec fn columns_in_range(l: &EntryList) -> bool {
    l.col_level_w + l.col_module_w + l.col_time_w + 3 <= u16::MAX
}

/// Drawing the list in `inner` can lay it out: the fixed columns add up to a `u16`, and every
/// entry fits the message width and viewport height that `inner` gives.
pub open spec fn layout_fits(l: &EntryList, inner: Rect) -> bool {
    inner.width > 0 && inner.height > 0 ==> {
        &&& columns_in_range(l)
        &&& forall|i: int| 0 <= i < l.logs@.len() ==> #[trigger] fits_in(l.logs@[i],
            msg_col_width(l, inner.width) as u16, inner.height)
    }
}

impl EntryList {
    /// The list `b` after laying list `a` out in the area `inner`: the area is recorded; a
    /// non-empty area sets the message width and the viewport height, and a view that follows
    /// the tail snaps to the bottom of the new layout.
    pub open spec fn resize_effect(a: &EntryList, b: &EntryList, inner: Rect) -> bool {
        &&& b.area == inner
        &&& b.logs == a.logs
        &&& b.filter == a.filter
        &&& b.filtered_list == a.filtered_list
        &&& b.base_id == a.base_id
        &&& b.col_level_w == a.col_level_w
        &&& b.col_module_w == a.col_module_w
        &&& b.col_time_w == a.col_time_w
        &&& b.dragging_col == a.dragging_col
        &&& if inner.width == 0 || inner.height == 0 {
            &&& b.last_msg_col_w == a.last_msg_col_w
            &&& b.last_viewport_h == a.last_viewport_h
            &&& b.top_log_idx == a.top_log_idx
            &&& b.top_log_line_offset == a.top_log_line_offset
            &&& b.auto_scroll == a.auto_scroll
        } else {
            &&& b.last_msg_col_w == msg_col_width(a, inner.width)
            &&& b.last_viewport_h == inner.height
            &&& a.auto_scroll ==> (b.top_log_idx as int, b.top_log_line_offset as int, b.auto_scroll)
                == b.bottom_effect(a.top_log_idx as int, a.top_log_line_offset as int, true)
            &&& !a.auto_scroll ==> b.top_log_idx == a.top_log_idx && b.top_log_line_offset
                == a.top_log_line_offset && !b.auto_scroll
        }
    }

    /// Lays the list out in the inner area of its frame before drawing it.
    pub fn resize(&mut self, inner: Rect)
        requires
            old(self).wf(),
            layout_fits(old(self), inner),
        ensures
            final(self).wf(),
            EntryList::resize_effect(old(self), final(self), inner),
    {
        self.area = inner;
        if inner.width == 0 || inner.height == 0 {
            return;
        }
        let fixed: u16 = self.col_level_w + self.col_module_w + self.col_time_w + 3;
        let w: u16 = if inner.width > fixed {
            inner.width - fixed
        } else {
            0
        };
        self.last_msg_col_w = w;
        self.last_viewport_h = inner.height;
        proof {
            assert(w as int == msg_col_width(old(self), inner.width));
            assert forall|i: int| 0 <= i < self.logs@.len() implies #[trigger] fits_in(self.logs@[i],
                self.last_msg_col_w, self.last_viewport_h) by {
                assert(fits_in(old(self).logs@[i], msg_col_width(old(self), inner.width) as u16, inner.height));
            }
        }
        if self.auto_scroll {
            self.scroll_to_bottom();
        }
    }

    /// Whether the list can be laid out in `inner`.
    pub fn layout_fits_in(&self, inner: Rect) -> (b: bool)
        ensures
            b == layout_fits(self, inner),
    {
        if inner.width == 0 || inner.height == 0 {
            return true;
        }
        if self.col_level_w as u32 + self.col_module_w as u32 + self.col_time_w as u32 + 3 > u16::MAX as u32 {
            return false;
        }
        let fixed: u16 = self.col_level_w + self.col_module_w + self.col_time_w + 3;
        let w: u16 = if inner.width > fixed {
            inner.width - fixed
        } else {
            0
        };
        assert(w as int == msg_col_width(self, inner.width));
        assert(msg_col_width(self, inner.width) as u16 == w);
        self.fits_layout(w, inner.height)
    }

    /// Lays the list out in `inner` when it fits; otherwise leaves it as it is.
    pub fn try_resize(&mut self, inner: Rect) -> (done: bool)
        requires
            old(self).wf(),
        ensures
            final(self).wf(),
            done == layout_fits(old(self), inner),
            done ==> EntryList::resize_effect(old(self), final(self), inner),
            !done ==> *final(self) == *old(self),
    {
        if self.layout_fits_in(inner) {
            self.resize(inner);
            true
        } else {
            false
        }
    }
}

/// The first row below an area, capped at the last terminal row as ratatui's saturating sums are.
pub open spec fn area_bottom(a: Rect) -> int {
    if a.y + a.height <= u16::MAX {
        a.y + a.height
    } else {
        u16::MAX as int
    }
}

/// The width of an area that lies on the terminal (its right edge capped at the last column).
pub open spec fn area_visible_width(a: Rect) -> int {
    (if a.x + a.width <= u16::MAX {
        a.x + a.width
    } else {
        u16::MAX as int
    }) - a.x
}

/// The rows of the entry at view position `idx` that are drawn: all but the hidden rows of the top
/// entry (at most all but one).
pub open spec fn hidden_rows(l: &EntryList, idx: int, first: bool) -> int {
    let h = entry_height(l.spec_active_log(idx), l.last_msg_col_w) as int;
    if first {
        if (l.top_log_line_offset as int) < sat_dec(h) {
            l.top_log_line_offset as int
        } else {
            sat_dec(h)
        }
    } else {
        0
    }
}

/// Where the entries are drawn in `area`, from view position `idx` on, the next one starting at row
/// `cy`: for each, its view position, top row, hidden rows and drawn rows (clipped to the area).
/// Drawing stops at the first entry with no visible row.
pub open spec fn placements(l: &EntryList, area: Rect, idx: int, cy: int, first: bool) -> Seq<(usize, u16, u16, u16)>
    decreases l.spec_active_len() - idx,
{
    if idx < 0 || idx >= l.spec_active_len() {
        Seq::empty()
    } else {
        let h = entry_height(l.spec_active_log(idx), l.last_msg_col_w) as int;
        let hidden = hidden_rows(l, idx, first);
        let rows = h - hidden;
        let end = if cy + rows <= area_bottom(area) {
            cy + rows
        } else {
            area_bottom(area)
        };
        if area_visible_width(area) <= 0 || end <= cy {
            Seq::empty()
        } else {
            seq![(idx as usize, cy as u16, hidden as u16, (end - cy) as u16)] + placements(l, area, idx + 1, cy + rows,
                false)
        }
    }
}

/// The row counter stays within a `u16` while the entries are placed.
pub open spec fn placements_fit(l: &EntryList, area: Rect, idx: int, cy: int, first: bool) -> bool
    decreases l.spec_active_len() - idx,
{
    if idx < 0 || idx >= l.spec_active_len() {
        true
    } else {
        let h = entry_height(l.spec_active_log(idx), l.last_msg_col_w) as int;
        let rows = h - hidden_rows(l, idx, first);
        let end = if cy + rows <= area_bottom(area) {
            cy + rows
        } else {
            area_bottom(area)
        };
        if area_visible_width(area) <= 0 || end <= cy {
            true
        } else {
            cy + rows <= u16::MAX && placements_fit(l, area, idx + 1, cy + rows, false)
        }
    }
}

impl List {
    /// Where each visible entry is drawn in `area`: view position, top row, hidden rows and drawn
    /// rows, top to bottom, given that the row counter stays on the terminal.
    pub fn log_placements(&self, area: Rect) -> (r: Vec<(usize, u16, u16, u16)>)
        requires
            self.wf(),
            placements_fit(self, area, self.top_log_idx as int, area.y as int, true),
        ensures
            r@ == placements(self, area, self.top_log_idx as int, area.y as int, true),
    {
        match self.try_log_placements(area) {
            Some(v) => v,
            None => Vec::new(),
        }
    }

    /// Where each visible entry is drawn in `area`, or `None` when the row counter would pass the
    /// last terminal row.
    pub fn try_log_placements(&self, area: Rect) -> (r: Option<Vec<(usize, u16, u16, u16)>>)
        requires
            self.wf(),
        ensures
            r is Some <==> placements_fit(self, area, self.top_log_idx as int, area.y as int, true),
            r matches Some(v) ==> v@ == placements(self, area, self.top_log_idx as int, area.y as int, true),
    {
        proof {
            self.lemma_filtered_bounds();
        }
        let ghost top = self.top_log_idx as int;
        let right: u32 = area.x as u32 + area.width as u32;
        let vis_w: u32 = (if right <= 65535 {
            right
        } else {
            65535
        }) - area.x as u32;
        let low: u32 = area.y as u32 + area.height as u32;
        let bottom: u32 = if low <= 65535 {
            low
        } else {
            65535
        };
        let mut out: Vec<(usize, u16, u16, u16)> = Vec::new();
        let mut idx: usize = self.top_log_idx;
        let mut cy: u32 = area.y as u32;
        let mut first = true;
        let mut done = false;
        let n = self.active_len();
        while idx < n && !done
            invariant
                self.wf(),
                n == self.spec_active_len(),
                n <= self.logs@.len(),
                top == self.top_log_idx,
                vis_w == area_visible_width(area),
                bottom == area_bottom(area),
                cy <= u16::MAX,
                first ==> idx == top,
                out@ + placements(self, area, idx as int, cy as int, first) == placements(self, area, top,
                    area.y as int, true),
                placements_fit(self, area, top, area.y as int, true) == placements_fit(self, area, idx as int,
                    cy as int, first),
                done ==> placements(self, area, idx as int, cy as int, first).len() == 0 && placements_fit(self,
                    area, idx as int, cy as int, first),
            decreases (n - idx) * 2 + if done {
                0int
            } else {
                1int
            },
        {
            let e = self.active_log(idx);
            proof {
                self.lemma_filtered_bounds();
                let i = if filter_active(&self.filter) {
                    self.filtered_list@[idx as int] - self.base_id
                } else {
                    idx as int
                };
                assert(fits_in(self.logs@[i], self.last_msg_col_w, self.last_viewport_h));
            }
            let h = self.calculate_height(e.raw.message.as_str());
            let hidden: u16 = if first {
                let hm1: u16 = if h > 0 {
                    h - 1
                } else {
                    0
                };
                if self.top_log_line_offset < hm1 {
                    self.top_log_line_offset
                } else {
                    hm1
                }
            } else {
                0
            };
            assert(hidden as int == hidden_rows(self, idx as int, first));
            let rows: u16 = h - hidden;
            let end: u32 = cy + rows as u32;
            let y2: u32 = if end <= bottom {
                end
            } else {
                bottom
            };
            if vis_w == 0 || y2 <= cy {
                done = true;
            } else {
                if end > 65535 {
                    assert(!placements_fit(self, area, idx as int, cy as int, first));
                    return None;
                }
                let ghost rest = placements(self, area, idx + 1, end as int, false);
                let ghost prev = out@;
                let t = (idx, cy as u16, hidden, (y2 - cy) as u16);
                out.push(t);
                proof {
                    assert(placements(self, area, idx as int, cy as int, first) == seq![t] + rest);
                    assert(prev + (seq![t] + rest) =~= out@ + rest);
                }
                cy = end;
                idx = idx + 1;
                first = false;
            }
        }
        Some(out)
    }
}

} // verus!
