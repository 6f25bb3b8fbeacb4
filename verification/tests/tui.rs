use ams::app_state::{ActiveWidget, AppState};
use ams::input::KeyCode;
use ams::widgets::chat::{ChatState, Message, Side};
use ams::widgets::chat_dashboard::{Active, ChatDashboardState, Connection};
use ams::widgets::dashboard::DashBoardState;

#[test]
fn from_idx_maps_only_the_first_tab() {
    assert!(matches!(ActiveWidget::from_idx(Some(0)), Some(ActiveWidget::ChatDashboard)));
    assert!(ActiveWidget::from_idx(Some(1)).is_none());
    assert!(ActiveWidget::from_idx(None).is_none());
}

#[test]
fn help_toggles_from_anywhere() {
    let mut app = AppState::default();
    assert!(app.display_help());
    app.process_event(KeyCode::Char('h'));
    assert!(!app.display_help());
    app.process_event(KeyCode::Char('h'));
    assert!(app.display_help());
}

#[test]
fn default_app_selects_first_tab() {
    let app = AppState::default();
    assert_eq!(app.selected(), Some(0));
    assert!(app.chat_dashboard_active_widget().is_none());
}

#[test]
fn arrows_move_the_tab_selection() {
    let mut app = AppState::default();
    app.process_event(KeyCode::Right);
    assert_eq!(app.selected(), Some(1));
    app.process_event(KeyCode::Left);
    assert_eq!(app.selected(), Some(0));
    app.process_event(KeyCode::Left);
    assert_eq!(app.selected(), Some(0));
}

#[test]
fn down_on_first_tab_activates_the_chat_dashboard() {
    let mut app = AppState::default();
    app.process_event(KeyCode::Down);
    assert_eq!(app.chat_dashboard_active_widget(), Some(Active::Connections));
    // Activation also steps the connection selection to the first row.
    assert_eq!(app.chat_dashboard_state_mut().selected_connection(), Some(0));
}

#[test]
fn down_on_another_tab_activates_nothing() {
    let mut app = AppState::default();
    app.process_event(KeyCode::Right);
    app.process_event(KeyCode::Down);
    assert!(app.chat_dashboard_active_widget().is_none());
}

#[test]
fn chat_dashboard_input_flow() {
    let mut app = AppState::default();
    app.process_event(KeyCode::Down);
    // Move from the connection list to the input box and type.
    app.process_event(KeyCode::Right);
    assert_eq!(app.chat_dashboard_active_widget(), Some(Active::Input));
    app.process_event(KeyCode::Char('h'));
    // 'h' toggles help instead of typing; anything else is typed.
    app.process_event(KeyCode::Char('i'));
    app.process_event(KeyCode::Char('!'));
    assert_eq!(app.chat_dashboard_state_mut().input(), "i!");
    app.process_event(KeyCode::Backspace);
    assert_eq!(app.chat_dashboard_state_mut().input(), "i");
    // Enter submits and clears the input.
    app.process_event(KeyCode::Enter);
    assert_eq!(app.chat_dashboard_state_mut().input(), "");
}

#[test]
fn escape_resets_the_chat_dashboard() {
    let mut app = AppState::default();
    app.process_event(KeyCode::Down);
    app.process_event(KeyCode::Right);
    app.process_event(KeyCode::Char('x'));
    app.process_event(KeyCode::Esc);
    assert!(app.chat_dashboard_active_widget().is_none());
    assert_eq!(app.chat_dashboard_state_mut().input(), "");
    assert_eq!(app.chat_dashboard_state_mut().selected_connection(), None);
}

#[test]
fn chat_scrolling_stops_at_the_newest_message() {
    let mut state = ChatDashboardState::default();
    assert_eq!(state.first_visible_message(), 0);
    state.scroll_messages_down();
    assert_eq!(state.first_visible_message(), 0);
    state.scroll_messages_up();
    state.scroll_messages_up();
    assert_eq!(state.first_visible_message(), 2);
    state.scroll_messages_down();
    assert_eq!(state.first_visible_message(), 1);
}

#[test]
fn selecting_a_connection_resets_chat_and_input() {
    let mut state = ChatDashboardState::default();
    state.push_input('a');
    state.scroll_messages_up();
    state.select_next_connection();
    assert_eq!(state.selected_connection(), Some(0));
    assert_eq!(state.input(), "");
    assert_eq!(state.first_visible_message(), 0);
    state.select_next_connection();
    assert_eq!(state.selected_connection(), Some(1));
    state.select_previous_connection();
    assert_eq!(state.selected_connection(), Some(0));
}

#[test]
fn list_state_steps_like_a_list() {
    let mut list = DashBoardState::default();
    assert_eq!(list.selected(), None);
    list.select_next();
    assert_eq!(list.selected(), Some(0));
    list.select_next();
    assert_eq!(list.selected(), Some(1));
    list.select_previous();
    assert_eq!(list.selected(), Some(0));
    list.select_previous();
    assert_eq!(list.selected(), Some(0));
    list.select(None);
    assert_eq!(list.selected(), None);
    list.select_previous();
    assert_eq!(list.selected(), Some(usize::MAX));
}

#[test]
fn chat_state_select_none_rewinds() {
    let mut chat = ChatState::default();
    chat.scroll_up();
    chat.select(Some(3));
    assert_eq!(chat.offset(), 1);
    chat.select(None);
    assert_eq!(chat.offset(), 0);
}

#[test]
fn connections_hold_their_chat_newest_first() {
    let mut conn = Connection::new("peer one".to_string());
    conn.add_message(Message::new("older".to_string(), Side::Left));
    conn.add_message(Message::new("newer".to_string(), Side::Right));
    assert_eq!(conn.chat.len(), 2);
    assert_eq!(conn.chat[0].content, "newer");
    assert_eq!(conn.chat[1].content, "older");
    let renamed = conn.name("peer 1".to_string());
    assert_eq!(renamed.name, "peer 1");
    assert_eq!(renamed.chat.len(), 2);
    let replaced = renamed.messages(vec![Message::new("only".to_string(), Side::Left)]);
    assert_eq!(replaced.chat.len(), 1);
}
