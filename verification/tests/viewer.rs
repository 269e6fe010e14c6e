use kosh::app::App;
use kosh::entry::{clock_label, level_label, module_label, Entry};
use kosh::filter::{lvl_str, module_str, next_lvl, next_mod, Filter, Selected};
use kosh::input::{Event, KeyCode, KeyEvent, KeyEventKind, KeyModifiers, MouseButton, MouseEvent, MouseEventKind, Rect};
use kosh::list::{EntryList, List, MAX_LOG_BUFFER};
use kosh::logger::{self, encode_entry, Level, Module};
use kosh::ui::{Footer, Help};

fn dummy_entry(module: Module, level: Level, msg: &str) -> Entry {
    Entry::from(logger::Entry { timestamp_ms: 0, module, level, message: msg.to_string() })
}

fn dummy_log(msg: &str, level: Level) -> logger::Entry {
    logger::Entry { timestamp_ms: 0, module: Module::Server, level, message: msg.to_owned() }
}

fn press(code: KeyCode) -> KeyEvent {
    KeyEvent::new(code, KeyModifiers::empty())
}

fn encoded(e: &logger::Entry) -> Vec<u8> {
    encode_entry(e)
}

#[test]
fn filter_level_and_module_matches() {
    let mut filter = Filter::default();

    let log = dummy_entry(Module::Database, Level::Error, "Database died xd");

    assert!(filter.matches(&log));

    filter.module = Some(Module::Api);
    assert!(!filter.matches(&log));

    filter.module = Some(Module::Database);
    assert!(filter.matches(&log));

    filter.level = Some(Level::Fatal);
    assert!(!filter.matches(&log));

    filter.level = Some(Level::Error);
    assert!(filter.matches(&log))
}

#[test]
fn pattern_case_is_insensitive() {
    let mut filter = Filter::default();
    let log = dummy_entry(Module::Api, Level::Info, "Server LISTENING on PORT 8080");

    filter.raw_pattern = "server".into();
    assert!(filter.matches(&log));

    filter.raw_pattern = "listening on".into();
    assert!(filter.matches(&log));

    filter.raw_pattern = "database".into();
    assert!(!filter.matches(&log));
}

#[test]
fn test_filter_cycle_states() {
    let mut filter = Filter::default();

    filter.selected = Selected::Module;
    filter.handle_space();
    assert_eq!(filter.module, Some(Module::Api));

    filter.handle_space();
    assert_eq!(filter.module, Some(Module::Database));

    for _ in 0..5 {
        filter.handle_space();
    }
    assert_eq!(filter.module, None);

    filter.selected = Selected::Pattern;
    filter.pattern = "".into();
    filter.raw_pattern = "".into();

    let _ = filter.pattern.pop();
    let _ = filter.raw_pattern.pop();
}

#[test]
fn filter_keyboard_state_machine() {
    let mut filter = Filter::default();

    assert_eq!(filter.selected, Selected::Pattern);

    filter.handle_key(&press(KeyCode::Char('E')));
    filter.handle_key(&press(KeyCode::Char('r')));
    filter.handle_key(&press(KeyCode::Char('r')));

    assert_eq!(filter.pattern, "Err");
    assert_eq!(filter.raw_pattern, "err");

    filter.handle_key(&press(KeyCode::Backspace));
    assert_eq!(filter.pattern, "Er");
    assert_eq!(filter.raw_pattern, "er");

    filter.handle_key(&press(KeyCode::Tab));
    assert_eq!(filter.selected, Selected::Module);

    filter.handle_key(&press(KeyCode::Char(' ')));
    assert_eq!(filter.module, Some(Module::Api));

    filter.handle_key(&press(KeyCode::Char('x')));

    assert_eq!(filter.pattern, "Er");

    filter.handle_key(&press(KeyCode::Backspace));

    assert_eq!(filter.pattern, "Er");
}

#[test]
fn filter_key_reports_changes() {
    let mut filter = Filter::default();
    assert!(filter.handle_key(&press(KeyCode::Char('a'))));
    assert!(filter.handle_key(&press(KeyCode::Backspace)));
    assert!(!filter.handle_key(&press(KeyCode::Backspace)), "an empty pattern has nothing to delete");
    assert!(!filter.handle_key(&press(KeyCode::Tab)));
    assert!(!filter.handle_key(&press(KeyCode::Char('z'))), "typing outside the pattern changes nothing");
    assert_eq!(filter.selected, Selected::Module);
    assert!(filter.handle_key(&press(KeyCode::Char(' '))));
    assert!(!filter.handle_key(&press(KeyCode::Up)));
}

#[test]
fn selected_focus_cycles() {
    for s in [Selected::Module, Selected::Level, Selected::Pattern] {
        assert_eq!(s.next().prev(), s);
        assert_eq!(s.prev().next(), s);
        assert_eq!(s.next().next().next(), s);
    }
    assert_eq!(Selected::Pattern.next(), Selected::Module);
    assert_eq!(Selected::Module.next(), Selected::Level);
    assert!(Selected::Level.is_level());
    assert!(Selected::Module.is_module());
    assert!(Selected::Pattern.is_pattern());
    assert_eq!(Selected::default(), Selected::Pattern);
}

#[test]
fn level_and_module_selectors_cycle() {
    let mut lvl = None;
    let mut seen = Vec::new();
    for _ in 0..5 {
        lvl = next_lvl(lvl);
        seen.push(lvl);
    }
    assert_eq!(seen, vec![Some(Level::Error), Some(Level::Warning), Some(Level::Fatal), Some(Level::Info), None]);

    let mut m = None;
    let mut mods = Vec::new();
    for _ in 0..7 {
        m = next_mod(m);
        mods.push(m);
    }
    assert_eq!(
        mods,
        vec![
            Some(Module::Api),
            Some(Module::Database),
            Some(Module::Server),
            Some(Module::Asset),
            Some(Module::Storage),
            Some(Module::Logger),
            None
        ]
    );
    assert_eq!(next_mod(Some(Module::Ledger)), None);
}

#[test]
fn selector_labels() {
    assert_eq!(module_str(None), "ALL");
    assert_eq!(module_str(Some(Module::Database)), "Database");
    assert_eq!(lvl_str(None), "ALL");
    assert_eq!(lvl_str(Some(Level::Warning)), "Warning");
    assert_eq!(level_label(Level::Error), "ERROR");
    assert_eq!(module_label(Module::Storage), "Storage");
    assert_eq!(clock_label(9, 5, 7), "09:05:07");
    assert_eq!(clock_label(23, 59, 0), "23:59:00");
}

#[test]
fn entry_keeps_display_and_search_copies() {
    let e = dummy_entry(Module::Api, Level::Info, "Hello WORLD ÄÖ");
    assert_eq!(e.msg, "Hello WORLD ÄÖ");
    assert_eq!(e.raw.message, "hello world ÄÖ");
    assert_eq!(e.raw.module, Module::Api);
    assert_eq!(e.raw.level, Level::Info);
}

#[test]
fn test_mouse_drag_boundary_clamps() {
    let mut list = List::default();

    list.area = Rect { x: 0, y: 0, width: 100, height: 50 };
    list.col_level_w = 7;
    list.col_module_w = 12;

    let click_down = MouseEvent {
        kind: MouseEventKind::Down(MouseButton::Left),
        column: 7,
        row: 0,
        modifiers: KeyModifiers::empty(),
    };
    list.handle_mouse(&click_down);

    assert_eq!(list.dragging_col, Some(0), "Failed to grab the separator");

    let drag_left = MouseEvent {
        kind: MouseEventKind::Drag(MouseButton::Left),
        column: 1,
        row: 0,
        modifiers: KeyModifiers::empty(),
    };
    list.handle_mouse(&drag_left);

    let drag_left = MouseEvent { column: 3, ..drag_left };
    list.handle_mouse(&drag_left);

    assert_eq!(list.col_level_w, 4, "Column width failed to clamp to the safe minimum!");

    let mouse_up = MouseEvent {
        kind: MouseEventKind::Up(MouseButton::Left),
        column: 1,
        row: 0,
        modifiers: KeyModifiers::empty(),
    };
    list.handle_mouse(&mouse_up);

    assert_eq!(list.dragging_col, None, "Mouse release failed to clear dragging state");
}

#[test]
fn mouse_drags_time_column() {
    let mut list = List::default();
    list.area = Rect { x: 0, y: 0, width: 100, height: 50 };
    let grab = MouseEvent {
        kind: MouseEventKind::Down(MouseButton::Left),
        column: 93,
        row: 0,
        modifiers: KeyModifiers::empty(),
    };
    list.handle_mouse(&grab);
    assert_eq!(list.dragging_col, Some(2));
    list.handle_mouse(&MouseEvent { kind: MouseEventKind::Drag(MouseButton::Left), column: 80, ..grab });
    assert_eq!(list.col_time_w, 20);
    list.handle_mouse(&MouseEvent { kind: MouseEventKind::Drag(MouseButton::Left), column: 99, ..grab });
    assert_eq!(list.col_time_w, 5);
    let far = MouseEvent { kind: MouseEventKind::Down(MouseButton::Left), column: 50, ..grab };
    list.handle_mouse(&far);
    assert_eq!(list.dragging_col, Some(2), "a press away from a separator keeps the drag state");
}

#[test]
fn entry_log_eviction_math() {
    let mut list = EntryList::default();

    for _ in 0..MAX_LOG_BUFFER {
        list.add_log(dummy_log("Very Normal Log", Level::Info));
    }

    assert_eq!(list.logs.len(), MAX_LOG_BUFFER);
    assert_eq!(list.base_id, 0);

    for _ in 0..5 {
        list.add_log(dummy_log("More logs!", Level::Info));
    }

    assert_eq!(list.logs.len(), MAX_LOG_BUFFER);
    assert_eq!(list.base_id, 5);
}

#[test]
fn test_filtered_list_eviction() {
    let mut list = EntryList::default();

    list.filter.level = Some(Level::Error);

    list.add_log(dummy_log("Very Old Err", Level::Error));

    for _ in 0..(MAX_LOG_BUFFER - 1) {
        list.add_log(dummy_log("Normal Log", Level::Info));
    }

    assert_eq!(list.filtered_list.len(), 1);
    assert_eq!(list.filtered_list[0], 0);

    list.add_log(dummy_log("One More Log", Level::Info));

    assert_eq!(list.filtered_list.len(), 0);
}

#[test]
fn filtered_ids_stay_absolute_after_eviction() {
    let mut list = EntryList::default();
    list.filter.level = Some(Level::Error);
    for i in 0..(MAX_LOG_BUFFER + 10) {
        let level = if i % 1000 == 999 { Level::Error } else { Level::Info };
        list.add_log(dummy_log("x", level));
    }
    assert_eq!(list.base_id, 10);
    assert_eq!(list.filtered_list.iter().copied().collect::<Vec<u64>>(), vec![999, 1999, 2999]);
    for k in 0..list.active_len() {
        assert_eq!(list.active_log(k).raw.level, Level::Error);
    }
    assert_eq!(list.logs.len(), MAX_LOG_BUFFER);
}

#[test]
fn apply_filter_rebuilds_matches() {
    let mut list = EntryList::default();
    list.add_log(dummy_log("Disk FULL", Level::Error));
    list.add_log(dummy_log("all good", Level::Info));
    list.add_log(dummy_log("disk almost full", Level::Warning));
    assert_eq!(list.active_len(), 3);
    list.filter.pattern = "DISK".into();
    list.filter.raw_pattern = "disk".into();
    list.apply_filter();
    assert_eq!(list.filtered_list.iter().copied().collect::<Vec<u64>>(), vec![0, 2]);
    assert_eq!(list.active_len(), 2);
    assert_eq!(list.active_log(1).msg, "disk almost full");
    list.filter.pattern.clear();
    list.filter.raw_pattern.clear();
    list.apply_filter();
    assert!(list.filtered_list.is_empty());
    assert_eq!(list.active_len(), 3);
}

#[test]
fn perfect_payload_deserialization() {
    let log1 = logger::Entry {
        timestamp_ms: 100,
        module: Module::Server,
        level: Level::Info,
        message: "Valid".to_string(),
    };
    let log2 = logger::Entry {
        timestamp_ms: 200,
        module: Module::Api,
        level: Level::Error,
        message: "Corrupted".to_string(),
    };

    let bytes1 = encoded(&log1);
    let bytes2 = encoded(&log2);

    let mut perfect_payload = bytes1.clone();
    perfect_payload.extend(bytes2.iter());

    let list = EntryList::init_or_default(&perfect_payload);
    assert_eq!(list.logs.len(), 2, "Failed to decode a perfect network payload");

    assert_eq!(list.logs[0].raw.message, "valid");

    perfect_payload.truncate(perfect_payload.len() - 5);
    let corrupted = perfect_payload;

    let corrupted_list = EntryList::init_or_default(&corrupted);

    assert_eq!(corrupted_list.logs.len(), 0, "Failed rejecting corruted network bytes!");
}

#[test]
fn init_reads_entries_in_order() {
    let entries: Vec<logger::Entry> = (0..4)
        .map(|i| logger::Entry {
            timestamp_ms: -5 + i,
            module: Module::Ledger,
            level: Level::Warning,
            message: format!("Entry {i}"),
        })
        .collect();
    let mut bytes = Vec::new();
    for e in &entries {
        bytes.extend(encoded(e));
    }
    let list = EntryList::try_init_or_default(&bytes).expect("short messages fit");
    assert_eq!(list.logs.len(), 4);
    for (i, e) in list.logs.iter().enumerate() {
        assert_eq!(e.msg, format!("Entry {i}"));
        assert_eq!(e.raw.message, format!("entry {i}"));
        assert_eq!(e.raw.timestamp_ms, -5 + i as i64);
        assert_eq!(e.raw.module, Module::Ledger);
    }
    assert!(list.auto_scroll);
    assert!(EntryList::init_or_default(&[]).logs.is_empty());
    assert!(EntryList::decoded_entries_fit(&bytes));
}

#[test]
fn decode_rejects_unknown_variant() {
    let mut bytes = encoded(&dummy_log("x", Level::Info));
    bytes[0] = 9;
    assert!(logger::decode_entry(&bytes, 0).is_none());
    let good = encoded(&dummy_log("x", Level::Info));
    let (e, n) = logger::decode_entry(&good, 0).expect("decodes");
    assert_eq!(n, good.len());
    assert_eq!(e.message, "x");
}

#[test]
fn test_height_math() {
    let mut list = List::default();
    list.last_msg_col_w = 10;

    assert_eq!(list.calculate_height(""), 0);

    assert_eq!(list.calculate_height("short"), 1);

    assert_eq!(list.calculate_height("1234567890"), 2);

    assert_eq!(list.calculate_height("line1\nline2\nline3"), 3);

    assert_eq!(list.calculate_height("short\nand a long message"), 3);
}

#[test]
fn height_edge_cases() {
    let mut list = List::default();
    list.last_msg_col_w = 0;
    assert_eq!(list.calculate_height("anything\nat all"), 1);
    list.last_msg_col_w = 4;
    assert_eq!(list.calculate_height("ab\r\ncd\n"), 2);
    assert_eq!(list.calculate_height("\n\n"), 2);
    assert_eq!(list.calculate_height("abcdefgh"), 3);
}

#[test]
fn test_viewport_scrolling_simulation() {
    let mut list = List::default();
    list.last_viewport_h = 5;
    list.last_msg_col_w = 100;
    for _ in 0..10 {
        let log = logger::Entry {
            timestamp_ms: 0,
            module: Module::Server,
            level: Level::Info,
            message: "A".to_string(),
        };
        list.logs.push_back(Entry::from(log));
    }

    list.scroll_to_bottom();
    assert!(list.auto_scroll, "Snapping to bottom should engage the auto_scroll lock");

    assert_eq!(list.top_log_idx, 5);
    assert_eq!(list.top_log_line_offset, 0);

    list.scroll_up(2);
    assert!(!list.auto_scroll, "Manual scrolling up MUST break the auto_scroll lock!");

    assert_eq!(list.top_log_idx, 3);

    list.scroll_down(2);
    assert_eq!(list.top_log_idx, 5);

    list.scroll_down(100);

    assert_eq!(list.top_log_idx, 5);
    assert!(list.auto_scroll, "Smashing the bottom boundary should re-engage auto_scroll!");
}

#[test]
fn scrolling_within_a_tall_entry() {
    let mut list = List::default();
    list.last_viewport_h = 2;
    list.last_msg_col_w = 10;
    list.add_log(dummy_log("a\nb\nc\nd", Level::Info));
    assert_eq!((list.top_log_idx, list.top_log_line_offset), (0, 2));
    assert!(list.is_at_bottom());
    list.scroll_up(1);
    assert_eq!((list.top_log_idx, list.top_log_line_offset), (0, 1));
    assert!(!list.is_at_bottom());
    list.scroll_up(50);
    assert_eq!((list.top_log_idx, list.top_log_line_offset), (0, 0));
    list.handle_key(&press(KeyCode::Char('j')));
    assert_eq!(list.top_log_line_offset, 1);
    list.handle_key(&press(KeyCode::Down));
    assert!(list.auto_scroll);
}

#[test]
fn resize_sets_layout_and_follows_tail() {
    let mut list = List::default();
    for i in 0..20 {
        list.add_log(dummy_log(&format!("log {i}"), Level::Info));
    }
    assert!(list.try_resize(Rect { x: 2, y: 1, width: 60, height: 4 }));
    assert_eq!(list.last_msg_col_w, 60 - (7 + 12 + 10 + 3));
    assert_eq!(list.last_viewport_h, 4);
    assert_eq!(list.top_log_idx, 16);
    assert_eq!(list.area, Rect { x: 2, y: 1, width: 60, height: 4 });
    assert!(list.try_resize(Rect { x: 0, y: 0, width: 0, height: 9 }));
    assert_eq!(list.last_viewport_h, 4, "an empty area keeps the layout");
    list.col_level_w = u16::MAX;
    assert!(!list.try_resize(Rect { x: 0, y: 0, width: 10, height: 9 }));
    assert_eq!(list.area, Rect { x: 0, y: 0, width: 0, height: 9 });
}

#[test]
fn test_app_input_routing() {
    let mut app = App { entries: List::default(), show_help: false, should_quit: false };

    assert!(!app.should_quit);
    assert!(!app.show_help);
    assert!(!app.entries.filter.is_open);

    app.handle_key(&press(KeyCode::Char('/')));
    assert!(app.entries.filter.is_open, "Slash should open the filter overlay");

    app.handle_key(&press(KeyCode::Char('q')));
    assert!(!app.should_quit, "Typing 'q' in the search bar should not quit the app!");

    app.handle_key(&press(KeyCode::Esc));
    assert!(!app.entries.filter.is_open, "Esc should close the filter");

    app.handle_key(&press(KeyCode::Char('h')));
    assert!(app.show_help, "'h' should open the help menu");

    app.handle_key(&press(KeyCode::Esc));
    assert!(!app.show_help, "Esc should close the help menu");

    app.handle_key(&press(KeyCode::Char('q')));
    assert!(app.should_quit, "'q' should quit the app when nothing is actively focused");
}

#[test]
fn app_ignores_key_releases_and_routes_events() {
    let mut app = App::default();
    let release = KeyEvent { code: KeyCode::Char('q'), modifiers: KeyModifiers::empty(), kind: KeyEventKind::Release };
    app.handle_event(&Event::Key(release));
    assert!(!app.should_quit);
    app.handle_event(&Event::Key(press(KeyCode::Char('/'))));
    app.handle_event(&Event::Key(press(KeyCode::Char('Q'))));
    assert_eq!(app.entries.filter.pattern, "Q");
    assert!(app.filter_open());
    app.handle_event(&Event::Other);
    app.handle_esc();
    assert!(!app.filter_open());
    app.handle_event(&Event::Key(press(KeyCode::Char('H'))));
    assert!(app.show_help);
}

#[test]
fn app_appends_datagrams() {
    let mut app = App::from_log(None);
    let bytes = encoded(&logger::Entry {
        timestamp_ms: 7,
        module: Module::Asset,
        level: Level::Fatal,
        message: "Vault GONE".into(),
    });
    app.append(&bytes);
    assert_eq!(app.entries.logs.len(), 1);
    assert_eq!(app.entries.logs[0].raw.message, "vault gone");
    app.append(&[255, 255]);
    assert_eq!(app.entries.logs.len(), 1, "undecodable bytes are ignored");
    assert!(app.try_append(&bytes));
    assert_eq!(app.entries.logs.len(), 2);
    let from_file = App::try_from_log(Some(&bytes)).expect("fits");
    assert_eq!(from_file.entries.logs.len(), 1);
}

#[test]
fn footer_and_help_overlay() {
    let mut app = App::default();
    assert_eq!(app.footer(), Footer::Main);
    app.handle_key(&press(KeyCode::Char('/')));
    assert_eq!(app.footer(), Footer::Filter(Selected::Pattern));
    app.handle_key(&press(KeyCode::Tab));
    assert_eq!(app.footer(), Footer::Filter(Selected::Module));
    app.show_help = true;
    assert_eq!(app.footer(), Footer::Help);

    assert_eq!(Help::area(120, 40), Rect { x: 35, y: 16, width: 50, height: 8 });
    assert_eq!(Help::area(30, 5), Rect { x: 0, y: 0, width: 50, height: 8 });
    let body = Help::body();
    assert_eq!(body.len(), 5);
    assert_eq!(body[0], ("[↑/↓]          :", " Scroll Logs"));
    assert_eq!(body[4], ("[h]            :", " Toggle help"));
}

#[test]
fn filter_keys_undo_each_other() {
    let mut filter = Filter::default();
    filter.handle_key(&press(KeyCode::Char('a')));
    filter.handle_key(&press(KeyCode::Char('B')));
    filter.handle_key(&press(KeyCode::Backspace));
    assert_eq!(filter.pattern, "a");
    assert_eq!(filter.raw_pattern, "a");
    filter.handle_key(&press(KeyCode::Char(' ')));
    filter.handle_key(&press(KeyCode::Backspace));
    assert_eq!(filter.pattern, "a");
    for _ in 0..3 {
        let before = filter.selected;
        filter.handle_key(&press(KeyCode::Tab));
        filter.handle_key(&press(KeyCode::BackTab));
        assert_eq!(filter.selected, before);
        filter.handle_key(&press(KeyCode::Tab));
    }
}

#[test]
fn typed_pattern_matches_any_case() {
    let mut filter = Filter::default();
    for c in "LiStEnInG".chars() {
        filter.handle_key(&press(KeyCode::Char(c)));
    }
    assert!(filter.matches(&dummy_entry(Module::Api, Level::Info, "server listening")));
    assert!(filter.matches(&dummy_entry(Module::Api, Level::Info, "SERVER LISTENING")));
    assert!(!filter.matches(&dummy_entry(Module::Api, Level::Info, "server listen")));
}

#[test]
fn snapping_to_bottom_shows_the_end() {
    for vh in [1u16, 3, 7, 40] {
        let mut list = List::default();
        list.last_viewport_h = vh;
        list.last_msg_col_w = 6;
        for i in 0..12 {
            let msg = "x".repeat(i * 3) + if i % 4 == 0 { "\nmore" } else { "" };
            list.add_log(dummy_log(&msg, Level::Info));
        }
        list.scroll_up(5);
        assert!(!list.auto_scroll);
        list.scroll_to_bottom();
        assert!(list.auto_scroll);
        assert!(list.is_at_bottom(), "viewport of {vh} rows");
    }
}

#[test]
fn scroll_down_stops_at_the_bottom() {
    let mut list = List::default();
    list.last_viewport_h = 5;
    list.last_msg_col_w = 100;
    for _ in 0..10 {
        list.logs.push_back(Entry::from(dummy_log("A", Level::Info)));
    }
    list.scroll_to_bottom();
    list.scroll_up(2);
    assert_eq!(list.top_log_idx, 3);
    assert!(!list.auto_scroll);
    list.scroll_down(3);
    assert_eq!((list.top_log_idx, list.top_log_line_offset), (5, 0));
    assert!(list.auto_scroll);
}

#[test]
fn scroll_up_moves_the_first_line() {
    let mut list = List::default();
    list.last_viewport_h = 3;
    list.last_msg_col_w = 10;
    for msg in ["a\nb", "c", "d\ne\nf", "g"] {
        list.add_log(dummy_log(msg, Level::Info));
    }
    assert_eq!((list.top_log_idx, list.top_log_line_offset), (2, 1));
    list.scroll_up(2);
    assert_eq!((list.top_log_idx, list.top_log_line_offset), (1, 0));
    list.scroll_up(2);
    assert_eq!((list.top_log_idx, list.top_log_line_offset), (0, 0));
    list.scroll_down(1);
    assert_eq!((list.top_log_idx, list.top_log_line_offset), (0, 1));
}

#[test]
fn log_placements_clip_to_the_area() {
    let mut list = List::default();
    list.last_viewport_h = 4;
    list.last_msg_col_w = 10;
    for msg in ["one", "two\nlines", "three\nrow\nentry", "last"] {
        list.add_log(dummy_log(msg, Level::Info));
    }
    list.top_log_idx = 1;
    list.top_log_line_offset = 1;
    let area = Rect { x: 2, y: 3, width: 20, height: 4 };
    assert_eq!(list.log_placements(area), vec![(1, 3, 1, 1), (2, 4, 0, 3)]);
    list.top_log_idx = 3;
    list.top_log_line_offset = 0;
    assert_eq!(list.log_placements(area), vec![(3, 3, 0, 1)]);
    assert_eq!(list.log_placements(Rect { x: 2, y: 3, width: 0, height: 4 }), vec![]);
    list.top_log_idx = 2;
    assert_eq!(list.try_log_placements(Rect { x: 0, y: 65534, width: 5, height: 1 }), None);
    list.filter.level = Some(Level::Warning);
    list.apply_filter();
    assert_eq!(list.log_placements(area), vec![]);
}

#[test]
fn filter_help_lines() {
    let mut filter = Filter::default();
    assert_eq!(filter.help_line(), vec![("<Esc> ", "Hide Filters"), ("<TAB> ", "Switch Filter")]);
    filter.selected = Selected::Module;
    assert_eq!(filter.help_line()[3], ("<SPACE> ", "Switch Module"));
    filter.selected = Selected::Level;
    assert_eq!(
        filter.help_line(),
        vec![("<Esc> ", "Hide Filters"), ("<h> ", "Help"), ("<TAB> ", "Switch Filter"), ("<SPACE> ", "Switch Level")]
    );
}
