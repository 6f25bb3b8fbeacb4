use vstd::prelude::*;

use crate::app_state::ActiveWidget;
use crate::input::KeyCode;
use crate::widgets::chat_dashboard::{Active, ChatDashboardState as WidgetState, ChatDashboardStateView};

verus! {

/// The application-level state of the chat dashboard: which of its parts
/// input currently goes to, and the widget state itself.
#[derive(Clone, Debug)]
pub struct ChatDashboardState {
    /// Which part of the dashboard is currently active; input is handled
    /// by that part.
    pub active: Option<Active>,
    /// The widget state.
    pub state: WidgetState,
}

/// The mathematical content of the application-level
/// [`ChatDashboardState`].
#[verifier::ext_equal]
pub struct ChatDashboardView {
    /// Which part of the dashboard is currently active.
    pub active: Option<Active>,
    /// The widget state.
    pub state: ChatDashboardStateView,
}

impl View for ChatDashboardState {
    type V = ChatDashboardView;

    open spec fn view(&self) -> ChatDashboardView {
        ChatDashboardView { active: self.active, state: self.state@ }
    }
}

impl ChatDashboardView {
    /// The state of a fresh chat dashboard: no part active, nothing
    /// selected, nothing typed.
    pub open spec fn initial() -> Self {
        ChatDashboardView { active: None, state: ChatDashboardStateView::initial() }
    }
}

impl Default for ChatDashboardState {
    /// No part active, nothing selected, nothing typed.
    fn default() -> (r: Self)
        ensures
            r@ == ChatDashboardView::initial(),
    {
        let r = ChatDashboardState { active: None, state: Default::default() };
        proof {
            assert(r@ =~= ChatDashboardView::initial());
        }
        r
    }
}

/// The chat dashboard state after one key press.
pub open spec fn chat_pane_step(v: ChatDashboardView, k: KeyCode) -> ChatDashboardView {
    if k == KeyCode::Esc {
        ChatDashboardView::initial()
    } else {
        match v.active {
            Some(Active::Connections) => match k {
                KeyCode::Up => ChatDashboardView { state: v.state.with_previous_connection(), ..v },
                KeyCode::Down => ChatDashboardView { state: v.state.with_next_connection(), ..v },
                KeyCode::Right => ChatDashboardView { active: Some(Active::Input), ..v },
                _ => v,
            },
            Some(Active::Chat) => match k {
                KeyCode::Up => ChatDashboardView { state: v.state.with_scroll_up(), ..v },
                KeyCode::Down => if v.state.chat.offset == 0 {
                    ChatDashboardView { active: Some(Active::Input), ..v }
                } else {
                    ChatDashboardView { state: v.state.with_scroll_down(), ..v }
                },
                KeyCode::Left => ChatDashboardView { active: Some(Active::Connections), ..v },
                _ => v,
            },
            Some(Active::Input) => match k {
                KeyCode::Char(c) => ChatDashboardView { state: v.state.with_push(c), ..v },
                KeyCode::Backspace => ChatDashboardView { state: v.state.with_pop(), ..v },
                KeyCode::Left => ChatDashboardView { active: Some(Active::Connections), ..v },
                KeyCode::Enter => ChatDashboardView { state: v.state.with_clear(), ..v },
                KeyCode::Up => ChatDashboardView { active: Some(Active::Chat), ..v },
                _ => v,
            },
            None => v,
        }
    }
}

/// The widget a key press asks to hand control to, if any: escape returns
/// control to the top dashboard.
pub open spec fn chat_pane_step_out(v: ChatDashboardView, k: KeyCode) -> Option<ActiveWidget> {
    if k == KeyCode::Esc {
        Some(ActiveWidget::Dashboard)
    } else {
        None
    }
}

/// The chat dashboard state after becoming the active widget: its
/// connection list takes input, stepped to the next connection.
pub open spec fn chat_pane_activate(v: ChatDashboardView) -> ChatDashboardView {
    ChatDashboardView { active: Some(Active::Connections), state: v.state.with_next_connection() }
}

impl ChatDashboardState {
    /// Grants the renderer access to the widget state.
    pub fn state_mut(&mut self) -> (r: &mut WidgetState)
        ensures
            r@ == old(self).state@,
            final(self)@.state == final(r)@,
            final(self)@.active == old(self)@.active,
    {
        &mut self.state
    }

    /// Which part of the dashboard is currently active.
    pub fn active_widget(&self) -> (r: Option<Active>)
        ensures
            r == self@.active,
    {
        self.active
    }

    /// Steps the chat dashboard by one key press; escape resets it and
    /// returns control to the top dashboard.
    pub fn process_event(&mut self, input: KeyCode) -> (r: Option<ActiveWidget>)
        ensures
            final(self)@ == chat_pane_step(old(self)@, input),
            r == chat_pane_step_out(old(self)@, input),
    {
        if input == KeyCode::Esc {
            *self = ChatDashboardState::default();
            proof {
                assert(self@ =~= chat_pane_step(old(self)@, input));
            }
            return Some(ActiveWidget::Dashboard);
        }
        match self.active {
            Some(Active::Connections) => {
                match input {
                    KeyCode::Up => {
                        self.state.select_previous_connection();
                        proof {
                            assert(self@ =~= chat_pane_step(old(self)@, input));
                        }
                    },
                    KeyCode::Down => {
                        self.state.select_next_connection();
                        proof {
                            assert(self@ =~= chat_pane_step(old(self)@, input));
                        }
                    },
                    KeyCode::Right => {
                        self.active = Some(Active::Input);
                        proof {
                            assert(self@ =~= chat_pane_step(old(self)@, input));
                        }
                    },
                    _ => {
                        proof {
                            assert(self@ =~= chat_pane_step(old(self)@, input));
                        }
                    },
                }
            },
            Some(Active::Chat) => {
                match input {
                    KeyCode::Up => {
                        self.state.scroll_messages_up();
                        proof {
                            assert(self@ =~= chat_pane_step(old(self)@, input));
                        }
                    },
                    KeyCode::Down => {
                        if self.state.first_visible_message() == 0 {
                            self.active = Some(Active::Input);
                        } else {
                            self.state.scroll_messages_down();
                        }
                        proof {
                            assert(self@ =~= chat_pane_step(old(self)@, input));
                        }
                    },
                    KeyCode::Left => {
                        self.active = Some(Active::Connections);
                        proof {
                            assert(self@ =~= chat_pane_step(old(self)@, input));
                        }
                    },
                    _ => {
                        proof {
                            assert(self@ =~= chat_pane_step(old(self)@, input));
                        }
                    },
                }
            },
            Some(Active::Input) => {
                match input {
                    KeyCode::Char(c) => {
                        self.state.push_input(c);
                        proof {
                            assert(self@ =~= chat_pane_step(old(self)@, input));
                        }
                    },
                    KeyCode::Backspace => {
                        self.state.pop_input();
                        proof {
                            assert(self@ =~= chat_pane_step(old(self)@, input));
                        }
                    },
                    KeyCode::Left => {
                        self.active = Some(Active::Connections);
                        proof {
                            assert(self@ =~= chat_pane_step(old(self)@, input));
                        }
                    },
                    KeyCode::Enter => {
                        self.state.clear_input();
                        proof {
                            assert(self@ =~= chat_pane_step(old(self)@, input));
                        }
                    },
                    KeyCode::Up => {
                        self.active = Some(Active::Chat);
                        proof {
                            assert(self@ =~= chat_pane_step(old(self)@, input));
                        }
                    },
                    _ => {
                        proof {
                            assert(self@ =~= chat_pane_step(old(self)@, input));
                        }
                    },
                }
            },
            None => {
                proof {
                    assert(self@ =~= chat_pane_step(old(self)@, input));
                }
            },
        }
        None
    }

    /// Called when the chat dashboard becomes the active widget: its
    /// connection list takes input, stepped to the next connection.
    pub fn activate(&mut self)
        ensures
            final(self)@ == chat_pane_activate(old(self)@),
    {
        self.state.select_next_connection();
        self.active = Some(Active::Connections);
        proof {
            assert(self@ =~= chat_pane_activate(old(self)@));
        }
    }
}

} // verus!
