use voxel_core::protocol::{ClientMessage, InputFlags};
use voxel_core::ui::{
    begin_connection, chat_text, close_panels, connected_line, edit_chat_input, edit_menu_field,
    fail_connection, handle_ui_action, take_join_request, left_line, message_line, next_input_message,
    on_welcome, overlay_text, player_list_text, push_chat_line, reject_address, target_address_text,
    text_input_focus, toggle_runtime_panels, AppScreen, ChatState, ConnectionState, FocusedField,
    GameState, KeyInput, MenuState, UiAction, UiOutcome, UiState,
};

fn text(s: &str) -> KeyInput {
    KeyInput::Text(s.to_string())
}

#[test]
fn defaults() {
    assert_eq!(AppScreen::default(), AppScreen::MainMenu);
    assert_eq!(GameState::default(), GameState::Menu);
    assert_eq!(FocusedField::default(), FocusedField::Unfocused);
    let ui = UiState::default();
    assert!(!ui.pause_open && !ui.chat_open && ui.tick == 0);
}

#[test]
fn chat_keeps_the_last_eight_lines() {
    let mut chat = ChatState::new();
    for i in 0..10 {
        push_chat_line(&mut chat, format!("line {i}"));
        assert!(chat.lines.len() <= 8);
    }
    let lines: Vec<&str> = chat.lines.iter().map(|s| s.as_str()).collect();
    assert_eq!(lines, vec!["line 2", "line 3", "line 4", "line 5", "line 6", "line 7", "line 8", "line 9"]);
    let mut small = ChatState::new();
    push_chat_line(&mut small, "a".to_string());
    push_chat_line(&mut small, "b".to_string());
    assert_eq!(small.lines.len(), 2);
}

#[test]
fn menu_actions() {
    let mut menu: MenuState<u16> = MenuState::new();
    let mut ui = UiState::default();
    assert!(matches!(handle_ui_action(UiAction::OpenJoinByIp, &mut menu, &mut ui, &[]), UiOutcome::Show(AppScreen::JoinByIp)));
    assert_eq!(menu.focused, FocusedField::PlayerName);
    handle_ui_action(UiAction::OpenJoinByIp, &mut menu, &mut ui, &[]);
    assert_eq!(menu.focused, FocusedField::IpAddress);
    assert!(matches!(handle_ui_action(UiAction::OpenServerBrowser, &mut menu, &mut ui, &[]), UiOutcome::Show(AppScreen::ServerBrowser)));
    assert!(matches!(handle_ui_action(UiAction::ConnectByIp, &mut menu, &mut ui, &[]), UiOutcome::ConnectTyped));
    assert!(matches!(handle_ui_action(UiAction::ConnectDiscovered(1), &mut menu, &mut ui, &[10, 20]), UiOutcome::Connect(20)));
    assert!(matches!(handle_ui_action(UiAction::ConnectDiscovered(2), &mut menu, &mut ui, &[10, 20]), UiOutcome::Stay));
    assert!(matches!(handle_ui_action(UiAction::Retry, &mut menu, &mut ui, &[]), UiOutcome::Stay));
    menu.reconnect_target = Some(7);
    assert!(matches!(handle_ui_action(UiAction::Retry, &mut menu, &mut ui, &[]), UiOutcome::Connect(7)));
    assert!(matches!(handle_ui_action(UiAction::Quit, &mut menu, &mut ui, &[]), UiOutcome::Quit));
    ui.pause_open = true;
    ui.settings_open = true;
    ui.chat_open = true;
    assert!(matches!(handle_ui_action(UiAction::ToggleSettings, &mut menu, &mut ui, &[]), UiOutcome::Stay));
    assert!(!ui.settings_open);
    handle_ui_action(UiAction::ResumeGame, &mut menu, &mut ui, &[]);
    assert!(!ui.pause_open && ui.chat_open);
    assert!(matches!(handle_ui_action(UiAction::BackToMenu, &mut menu, &mut ui, &[]), UiOutcome::Leave(AppScreen::MainMenu)));
    assert!(!ui.chat_open);
    assert!(matches!(handle_ui_action(UiAction::Disconnect, &mut menu, &mut ui, &[]), UiOutcome::Leave(AppScreen::Disconnected)));
    assert_eq!(menu.disconnect_reason, "Disconnected from server");
}

#[test]
fn connection_lifecycle() {
    let mut menu: MenuState<u16> = MenuState::new();
    let mut conn: ConnectionState<u16> = ConnectionState::new();
    conn.join_sent = true;
    conn.motd = "old".to_string();
    assert_eq!(begin_connection(&mut menu, &mut conn, 5000), AppScreen::Connecting);
    assert_eq!(conn.current_target, Some(5000));
    assert!(!conn.join_sent && conn.motd.is_empty());
    assert_eq!(menu.reconnect_target, Some(5000));
    menu.player_name = "  ".to_string();
    assert_eq!(take_join_request(&mut conn, false, &menu.player_name), None);
    assert!(!conn.join_sent);
    assert_eq!(take_join_request(&mut conn, true, &menu.player_name), Some("Player".to_string()));
    assert!(conn.join_sent);
    assert_eq!(take_join_request(&mut conn, true, "Alex"), None);
    assert!(conn.join_sent);
    assert_eq!(on_welcome(&mut conn, 42, "srv".to_string(), "hello".to_string()), AppScreen::InGame);
    assert_eq!(conn.local_client_id, Some(42));
    assert_eq!(reject_address(&mut menu), AppScreen::Disconnected);
    assert_eq!(menu.disconnect_reason, "Invalid IP address. Use host:port");
    assert_eq!(fail_connection(&mut menu, "Network error: x".to_string()), AppScreen::Disconnected);
    assert_eq!(menu.disconnect_reason, "Network error: x");
}

#[test]
fn panels_and_chat_sending() {
    let mut ui = UiState::default();
    let mut focus = FocusedField::Unfocused;
    let mut chat = ChatState::new();
    assert_eq!(toggle_runtime_panels(&mut ui, &mut focus, &mut chat, true, true, false), None);
    assert!(ui.pause_open && ui.player_list_open);
    ui.settings_open = true;
    toggle_runtime_panels(&mut ui, &mut focus, &mut chat, true, false, false);
    assert!(!ui.pause_open && !ui.settings_open && !ui.player_list_open);
    // Enter opens the chat
    assert_eq!(toggle_runtime_panels(&mut ui, &mut focus, &mut chat, false, false, true), None);
    assert!(ui.chat_open);
    assert_eq!(focus, FocusedField::Chat);
    edit_chat_input(&mut ui, &mut focus, &mut chat, &[text("  hi"), text(" there "), KeyInput::Backspace, text("\u{1}"), KeyInput::Other]);
    assert_eq!(chat.current_input, "  hi there");
    // Enter sends the trimmed line
    let sent = toggle_runtime_panels(&mut ui, &mut focus, &mut chat, false, false, true);
    assert_eq!(sent, Some("hi there".to_string()));
    assert!(chat.current_input.is_empty() && !ui.chat_open);
    assert_eq!(focus, FocusedField::Unfocused);
    // blank line: Enter only closes
    toggle_runtime_panels(&mut ui, &mut focus, &mut chat, false, false, true);
    chat.current_input = "   ".to_string();
    assert_eq!(toggle_runtime_panels(&mut ui, &mut focus, &mut chat, false, false, true), None);
    assert!(!ui.chat_open);
    assert_eq!(chat.current_input, "   ");
}

#[test]
fn escape_in_chat_closes_it_but_keeps_reading() {
    let mut ui = UiState::default();
    ui.chat_open = true;
    let mut focus = FocusedField::Chat;
    let mut chat = ChatState::new();
    edit_chat_input(&mut ui, &mut focus, &mut chat, &[text("a"), KeyInput::Escape, text("b")]);
    assert!(!ui.chat_open);
    assert_eq!(focus, FocusedField::Unfocused);
    assert_eq!(chat.current_input, "ab");
    edit_chat_input(&mut ui, &mut focus, &mut chat, &[KeyInput::Backspace, KeyInput::Backspace, KeyInput::Backspace]);
    assert_eq!(chat.current_input, "");
}

#[test]
fn join_screen_typing() {
    let mut menu: MenuState<u16> = MenuState::new();
    assert_eq!(text_input_focus(AppScreen::MainMenu, true, &mut menu), None);
    assert_eq!(menu.focused, FocusedField::Unfocused);
    assert_eq!(text_input_focus(AppScreen::JoinByIp, false, &mut menu), Some(false));
    assert_eq!(text_input_focus(AppScreen::JoinByIp, true, &mut menu), Some(true));
    assert_eq!(menu.focused, FocusedField::PlayerName);
    edit_menu_field(&mut menu, &[text("Stevo"), KeyInput::Backspace, text("e"), KeyInput::Escape]);
    assert_eq!(menu.player_name, "Steve");
    text_input_focus(AppScreen::JoinByIp, true, &mut menu);
    assert_eq!(menu.focused, FocusedField::IpAddress);
    edit_menu_field(&mut menu, &[text("10.0.0.2")]);
    assert_eq!(menu.ip_address, "10.0.0.2");
    assert_eq!(menu.player_name, "Steve");
}

#[test]
fn input_messages_and_ticks() {
    let mut ui = UiState::default();
    ui.tick = u32::MAX;
    let m = next_input_message(&mut ui, true, false, false, false, true);
    assert_eq!(m, Some(ClientMessage::Input { tick: 0, flags: InputFlags::from_keys(true, false, false, false, true) }));
    assert_eq!(ui.tick, 0);
    ui.chat_open = true;
    assert_eq!(next_input_message(&mut ui, true, false, false, false, false), None);
    assert_eq!(ui.tick, 0);
    close_panels(&mut ui);
    assert!(!ui.chat_open);
}

#[test]
fn hud_texts() {
    let mut ui = UiState::default();
    assert_eq!(overlay_text(&ui), "");
    ui.pause_open = true;
    assert_eq!(overlay_text(&ui), "Paused\nEsc: Resume\nTab: Player list\nEnter: Chat");
    ui.settings_open = true;
    assert!(overlay_text(&ui).starts_with("Paused\nSettings\n"));
    let mut chat = ChatState::new();
    assert_eq!(chat_text(&chat, false), "");
    assert_eq!(chat_text(&chat, true), "> ");
    push_chat_line(&mut chat, "one".to_string());
    push_chat_line(&mut chat, "two".to_string());
    chat.current_input = "typing".to_string();
    assert_eq!(chat_text(&chat, false), "one\ntwo");
    assert_eq!(chat_text(&chat, true), "one\ntwo\n> typing");
    assert_eq!(connected_line("Ann"), "Ann connected");
    assert_eq!(left_line(17, "timeout"), "Player 17 left: timeout");
    assert_eq!(message_line("Ann", "hi"), "Ann: hi");
}

#[test]
fn typed_addresses() {
    assert_eq!(target_address_text(""), "127.0.0.1:5000");
    assert_eq!(target_address_text("   "), "127.0.0.1:5000");
    assert_eq!(target_address_text(" 192.168.1.4 "), "192.168.1.4:5000");
    assert_eq!(target_address_text("example.org:7000"), "example.org:7000");
    assert_eq!(target_address_text("[::1]:9"), "[::1]:9");
}

#[test]
fn player_list_is_sorted() {
    assert_eq!(player_list_text(&[]), "");
    assert_eq!(player_list_text(&[("bob", 2), ("alice", 10), ("Bob", 3)]), "Bob (3)\nalice (10)\nbob (2)");
    assert_eq!(player_list_text(&[("x", 2), ("x", 10)]), "x (10)\nx (2)");
}

#[test]
fn one_join_request_per_connection() {
    let mut menu: MenuState<u16> = MenuState::new();
    let mut conn: ConnectionState<u16> = ConnectionState::new();
    menu.player_name = "Alex".to_string();
    let mut sent = 0;
    for up in [false, false, true, true, false, true] {
        if take_join_request(&mut conn, up, &menu.player_name).is_some() {
            sent += 1;
        }
    }
    assert_eq!(sent, 1);
    begin_connection(&mut menu, &mut conn, 7000);
    let mut sent_again = Vec::new();
    for up in [true, true] {
        sent_again.push(take_join_request(&mut conn, up, &menu.player_name));
    }
    assert_eq!(sent_again, vec![Some("Alex".to_string()), None]);
}
