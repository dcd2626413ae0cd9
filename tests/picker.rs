use astronautui::layout::{centered, Area, Panel, INFO_ROWS, PROMPT_ROWS, RESULT_ROWS};
use astronautui::listing::parse_listing;
use astronautui::state::{Action, App, Key, Modal};

fn press(app: &mut App, keys: &[Key]) -> Vec<Action> {
    keys.iter().map(|k| app.handle_key(*k)).collect()
}

fn type_text(app: &mut App, text: &str) {
    for c in text.chars() {
        assert_eq!(app.handle_key(Key::Char(c)), Action::Stay);
    }
}

fn prompt_input(app: &App) -> String {
    match app.modal() {
        Modal::PasswordPrompt { input } => input.clone(),
        other => panic!("no password prompt: {:?}", other),
    }
}

#[test]
fn listing_yields_entries_in_order() {
    let app = App::new(b"Home:80\nWork:45\n");
    let entries = app.entries();
    assert_eq!(entries.len(), 2);
    assert_eq!(entries[0].ssid(), "Home");
    assert_eq!(entries[0].signal(), Some(80));
    assert_eq!(entries[1].ssid(), "Work");
    assert_eq!(entries[1].signal(), Some(45));
    assert_eq!(entries[0].label(), "Home:80");
    assert_eq!(app.selected(), Some(0));
}

#[test]
fn enter_type_enter_asks_to_connect() {
    let mut app = App::new(b"Home:80\nWork:45\n");
    assert_eq!(app.handle_key(Key::Enter), Action::Stay);
    assert_eq!(app.modal(), &Modal::PasswordPrompt { input: String::new() });
    type_text(&mut app, "secret");
    assert_eq!(prompt_input(&app), "secret");
    let action = app.handle_key(Key::Enter);
    assert_eq!(
        action,
        Action::Connect { ssid: "Home".to_string(), password: "secret".to_string() }
    );
    app.finish_connect(b"Device 'wlan0' successfully activated.");
    assert_eq!(
        app.modal(),
        &Modal::ConnectionResult { text: "Device 'wlan0' successfully activated.".to_string() }
    );
}

#[test]
fn esc_abandons_the_prompt() {
    let mut app = App::new(b"Home:80\nWork:45\n");
    app.handle_key(Key::Enter);
    type_text(&mut app, "abc");
    assert_eq!(prompt_input(&app), "abc");
    assert_eq!(app.handle_key(Key::Esc), Action::Stay);
    assert_eq!(app.modal(), &Modal::Browsing);
    app.handle_key(Key::Enter);
    assert_eq!(prompt_input(&app), "");
}

#[test]
fn empty_listing_selects_nothing() {
    let mut app = App::new(b"");
    assert_eq!(app.entries().len(), 0);
    assert_eq!(app.selected(), None);
    assert_eq!(press(&mut app, &[Key::Up, Key::Down, Key::Down]), vec![Action::Stay, Action::Stay, Action::Stay]);
    assert_eq!(app.selected(), None);
    assert_eq!(app.selected_ssid(), "");
}

#[test]
fn cursor_clamps_at_both_ends() {
    let mut app = App::new(b"A:1\nB:2\nC:3\n");
    app.up();
    assert_eq!(app.selected(), Some(0));
    press(&mut app, &[Key::Down, Key::Down, Key::Down, Key::Down]);
    assert_eq!(app.selected(), Some(2));
    assert_eq!(app.selected_ssid(), "C");
    app.down();
    assert_eq!(app.selected(), Some(2));
    press(&mut app, &[Key::Up]);
    assert_eq!(app.selected(), Some(1));
}

#[test]
fn shorter_listing_pulls_the_cursor_in() {
    let mut app = App::new(b"A:1\nB:2\nC:3\n");
    press(&mut app, &[Key::Down, Key::Down]);
    assert_eq!(app.selected(), Some(2));
    app.update(b"X:9\n");
    assert_eq!(app.selected(), Some(0));
    assert_eq!(app.selected_ssid(), "X");
    app.update(b"\n\n");
    assert_eq!(app.selected(), None);
    app.update(b"Y:5\nZ:6\n");
    assert_eq!(app.selected(), Some(0));
    app.down();
    app.update(b"Y:5\nZ:6\nW:7\n");
    assert_eq!(app.selected(), Some(1));
}

#[test]
fn info_toggles_back() {
    let mut app = App::new(b"Home:80\n");
    assert!(!app.info_visible());
    app.handle_key(Key::Char('i'));
    assert!(app.info_visible());
    app.handle_key(Key::Char('i'));
    assert!(!app.info_visible());
    assert_eq!(app.modal(), &Modal::Browsing);
}

#[test]
fn backspaces_undo_typing() {
    let mut app = App::new(b"Home:80\n");
    app.handle_key(Key::Enter);
    type_text(&mut app, "pa");
    type_text(&mut app, "ssé");
    for _ in 0..3 {
        assert_eq!(app.handle_key(Key::Backspace), Action::Stay);
    }
    assert_eq!(prompt_input(&app), "pa");
    press(&mut app, &[Key::Backspace, Key::Backspace, Key::Backspace]);
    assert_eq!(prompt_input(&app), "");
}

#[test]
fn prompt_takes_the_list_keys() {
    let mut app = App::new(b"A:1\nB:2\n");
    app.handle_key(Key::Enter);
    let actions = press(&mut app, &[Key::Char('q'), Key::Char('r'), Key::Char('i'), Key::Down]);
    assert_eq!(actions, vec![Action::Stay, Action::Stay, Action::Stay, Action::Stay]);
    assert_eq!(prompt_input(&app), "qri");
    assert!(!app.info_visible());
    assert_eq!(app.selected(), Some(0));
}

#[test]
fn result_takes_the_list_keys_until_dismissed() {
    let mut app = App::new(b"A:1\nB:2\n");
    app.handle_key(Key::Enter);
    app.handle_key(Key::Enter);
    app.finish_connect(b"Error: Secrets were required.");
    assert_eq!(app.handle_key(Key::Char('q')), Action::Stay);
    assert_eq!(app.handle_key(Key::Down), Action::Stay);
    assert_eq!(app.selected(), Some(0));
    assert_eq!(app.handle_key(Key::Enter), Action::Stay);
    assert_eq!(app.modal(), &Modal::Browsing);
    assert_eq!(app.handle_key(Key::Char('q')), Action::Quit);
}

#[test]
fn list_keys_ask_for_quit_and_refresh() {
    let mut app = App::new(b"A:1\n");
    assert_eq!(app.handle_key(Key::Char('q')), Action::Quit);
    assert_eq!(app.handle_key(Key::Esc), Action::Quit);
    assert_eq!(app.handle_key(Key::Char('r')), Action::Refresh);
    assert_eq!(app.handle_key(Key::Char('x')), Action::Stay);
    assert_eq!(app.handle_key(Key::Other), Action::Stay);
    assert_eq!(app.modal(), &Modal::Browsing);
}

#[test]
fn connect_with_nothing_listed_names_no_network() {
    let mut app = App::new(b"");
    app.handle_key(Key::Enter);
    type_text(&mut app, "pw");
    assert_eq!(
        app.handle_key(Key::Enter),
        Action::Connect { ssid: String::new(), password: "pw".to_string() }
    );
}

#[test]
fn listing_drops_empty_lines_and_carriage_returns() {
    let entries = parse_listing(b"\nHome:80\r\n\r\n\nWork:45");
    let labels: Vec<String> = entries.iter().map(|e| e.label()).collect();
    assert_eq!(labels, vec!["Home:80".to_string(), "Work:45".to_string()]);
}

#[test]
fn listing_decodes_invalid_bytes_permissively() {
    let entries = parse_listing(b"Caf\xe9:70\n");
    assert_eq!(entries.len(), 1);
    assert_eq!(entries[0].ssid(), "Caf\u{FFFD}");
    assert_eq!(entries[0].label(), "Caf\u{FFFD}:70");
    assert_eq!(entries[0].signal(), Some(70));
}

#[test]
fn signal_needs_a_number_after_the_first_colon() {
    let entries = parse_listing(b"NoSignal\nEmpty:\nWord:high\nA:B:12\nBig:4294967296\nMax:4294967295\n");
    let signals: Vec<Option<u32>> = entries.iter().map(|e| e.signal()).collect();
    assert_eq!(signals, vec![None, None, None, None, None, Some(4294967295)]);
    assert_eq!(entries[0].ssid(), "NoSignal");
    assert_eq!(entries[1].ssid(), "Empty");
    assert_eq!(entries[3].ssid(), "A");
}

#[test]
fn overlays_are_centred_half_width_panels() {
    assert_eq!(centered(80, 24, INFO_ROWS), Area { x: 20, y: 7, width: 40, height: 9 });
    assert_eq!(centered(81, 25, PROMPT_ROWS), Area { x: 20, y: 11, width: 40, height: 3 });
    assert_eq!(centered(10, 2, RESULT_ROWS), Area { x: 2, y: 0, width: 5, height: 2 });
    assert_eq!(centered(0, 0, INFO_ROWS), Area { x: 0, y: 0, width: 0, height: 0 });
}

#[test]
fn overlays_follow_the_state() {
    let mut app = App::new(b"Home:80\n");
    assert!(app.overlays(80, 24).is_empty());
    app.handle_key(Key::Char('i'));
    app.handle_key(Key::Enter);
    type_text(&mut app, "pw");
    let shown = app.overlays(80, 24);
    assert_eq!(shown.len(), 2);
    assert_eq!(shown[0].panel, Panel::Instructions);
    assert_eq!(shown[0].area, Area { x: 20, y: 7, width: 40, height: 9 });
    assert_eq!(shown[1].panel, Panel::Password { input: "pw".to_string() });
    assert_eq!(shown[1].area, Area { x: 20, y: 10, width: 40, height: 3 });
    app.handle_key(Key::Enter);
    app.finish_connect(b"done");
    let shown = app.overlays(80, 24);
    assert_eq!(shown[1].panel, Panel::Result { text: "done".to_string() });
}
