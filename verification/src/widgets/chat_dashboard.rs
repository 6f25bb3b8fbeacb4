use vstd::prelude::*;

use crate::text::{pop_char, push_char};
use crate::widgets::chat::{ChatState, Message, MessageView};
use crate::widgets::dashboard::{next_index, previous_index, DashBoardState};

verus! {

/// A remote peer shown in the chat dashboard: a display name and the chat
/// held with it, newest message first.
#[derive(Clone, Debug)]
pub struct Connection {
    /// The display name of the connection.
    pub name: String,
    /// The chat messages, newest first.
    pub chat: Vec<Message>,
}

/// The mathematical content of a [`Connection`].
pub struct ConnectionView {
    /// The characters of the display name.
    pub name: Seq<char>,
    /// The messages, newest first.
    pub chat: Seq<MessageView>,
}

impl View for Connection {
    type V = ConnectionView;

    open spec fn view(&self) -> ConnectionView {
        ConnectionView { name: self.name@, chat: self.chat@.map_values(|m: Message| m@) }
    }
}

impl Connection {
    /// Creates a new connection with the given name and no messages.
    pub fn new(name: String) -> (r: Self)
        ensures
            r@.name == name@,
            r@.chat == Seq::<MessageView>::empty(),
    {
        let r = Connection { name, chat: Vec::new() };
        proof {
            assert(r@.chat =~= Seq::<MessageView>::empty());
        }
        r
    }

    /// Replaces the name of the connection.
    pub fn name(self, name: String) -> (r: Self)
        ensures
            r@.name == name@,
            r@.chat == self@.chat,
    {
        Connection { name, ..self }
    }

    /// Replaces the chat messages of the connection.
    ///
    /// Messages are expected newest first.
    pub fn messages(self, messages: Vec<Message>) -> (r: Self)
        ensures
            r@.name == self@.name,
            r@.chat == messages@.map_values(|m: Message| m@),
    {
        Connection { chat: messages, ..self }
    }

    /// Adds a message as the newest one of the chat.
    pub fn add_message(&mut self, message: Message)
        ensures
            final(self).name == old(self).name,
            final(self)@.chat == seq![message@] + old(self)@.chat,
    {
        let ghost prev = self.chat@;
        self.chat.insert(0, message);
        proof {
            assert(self.chat@.map_values(|m: Message| m@) =~= seq![message@] + prev.map_values(
                |m: Message| m@,
            ));
        }
    }
}

/// The part of the chat dashboard that input currently goes to.
#[derive(Clone, Copy, PartialEq, Eq, Structural, Debug)]
pub enum Active {
    /// The connection list.
    Connections,
    /// The message history.
    Chat,
    /// The text input box.
    Input,
}

/// The state of the chat dashboard widget: which connection is selected,
/// how the chat is scrolled, and the text typed so far.
#[derive(Clone, Debug)]
pub struct ChatDashboardState {
    /// Selection state of the connection list.
    pub connections_list_state: DashBoardState,
    /// Scroll state of the chat.
    pub chat_state: ChatState,
    /// The text typed into the input box so far.
    pub chat_input: String,
}

/// The mathematical content of a [`ChatDashboardState`].
#[verifier::ext_equal]
pub struct ChatDashboardStateView {
    /// Selection state of the connection list.
    pub list: DashBoardState,
    /// Scroll state of the chat.
    pub chat: ChatState,
    /// The characters typed into the input box so far.
    pub input: Seq<char>,
}

impl View for ChatDashboardState {
    type V = ChatDashboardStateView;

    open spec fn view(&self) -> ChatDashboardStateView {
        ChatDashboardStateView {
            list: self.connections_list_state,
            chat: self.chat_state,
            input: self.chat_input@,
        }
    }
}

impl ChatDashboardStateView {
    /// The state of a fresh chat dashboard: nothing selected, nothing
    /// scrolled, nothing typed.
    pub open spec fn initial() -> Self {
        ChatDashboardStateView {
            list: DashBoardState { selected: None, offset: 0 },
            chat: ChatState { selected: None, offset: 0 },
            input: Seq::empty(),
        }
    }

    /// The state after stepping the connection selection to the next one.
    pub open spec fn with_next_connection(self) -> Self {
        ChatDashboardStateView {
            list: DashBoardState {
                selected: Some(next_index(self.list.selected)),
                offset: self.list.offset,
            },
            chat: ChatState { selected: None, offset: 0 },
            input: Seq::empty(),
        }
    }

    /// The state after stepping the connection selection to the previous
    /// one.
    pub open spec fn with_previous_connection(self) -> Self {
        ChatDashboardStateView {
            list: DashBoardState {
                selected: Some(previous_index(self.list.selected)),
                offset: self.list.offset,
            },
            chat: ChatState { selected: None, offset: 0 },
            input: Seq::empty(),
        }
    }

    /// The state after scrolling the chat one message towards the older
    /// ones.
    pub open spec fn with_scroll_up(self) -> Self {
        ChatDashboardStateView {
            chat: ChatState {
                selected: self.chat.selected,
                offset: if self.chat.offset == usize::MAX {
                    usize::MAX
                } else {
                    (self.chat.offset + 1) as usize
                },
            },
            ..self
        }
    }

    /// The state after scrolling the chat one message towards the newer
    /// ones.
    pub open spec fn with_scroll_down(self) -> Self {
        ChatDashboardStateView {
            chat: ChatState {
                selected: self.chat.selected,
                offset: if self.chat.offset == 0 {
                    0usize
                } else {
                    (self.chat.offset - 1) as usize
                },
            },
            ..self
        }
    }

    /// The state after typing one character.
    pub open spec fn with_push(self, c: char) -> Self {
        ChatDashboardStateView { input: self.input.push(c), ..self }
    }

    /// The state after erasing the last typed character, if any.
    pub open spec fn with_pop(self) -> Self {
        ChatDashboardStateView {
            input: if self.input.len() == 0 {
                self.input
            } else {
                self.input.drop_last()
            },
            ..self
        }
    }

    /// The state after clearing the typed input.
    pub open spec fn with_clear(self) -> Self {
        ChatDashboardStateView { input: Seq::empty(), ..self }
    }
}

impl Default for ChatDashboardState {
    /// Nothing selected, nothing scrolled, nothing typed.
    fn default() -> (r: Self)
        ensures
            r@.list.selected is None,
            r@.list.offset == 0,
            r@.chat.selected is None,
            r@.chat.offset == 0,
            r@.input.len() == 0,
    {
        ChatDashboardState {
            connections_list_state: Default::default(),
            chat_state: Default::default(),
            chat_input: String::new(),
        }
    }
}

impl ChatDashboardState {
    /// Returns the currently selected connection index.
    pub fn selected_connection(&self) -> (r: Option<usize>)
        ensures
            r == self@.list.selected,
    {
        self.connections_list_state.selected()
    }

    /// Selects the next connection; resets the chat scroll and the input.
    pub fn select_next_connection(&mut self)
        ensures
            final(self)@.list.selected == Some(next_index(old(self)@.list.selected)),
            final(self)@.list.offset == old(self)@.list.offset,
            final(self)@.chat.selected is None,
            final(self)@.chat.offset == 0,
            final(self)@.input.len() == 0,
    {
        self.connections_list_state.select_next();
        self.clear_input();
        self.chat_state.select(None);
    }

    /// Selects the previous connection; resets the chat scroll and the
    /// input.
    pub fn select_previous_connection(&mut self)
        ensures
            final(self)@.list.selected == Some(previous_index(old(self)@.list.selected)),
            final(self)@.list.offset == old(self)@.list.offset,
            final(self)@.chat.selected is None,
            final(self)@.chat.offset == 0,
            final(self)@.input.len() == 0,
    {
        self.connections_list_state.select_previous();
        self.clear_input();
        self.chat_state.select(None);
    }

    /// Returns the index of the first visible (newest shown) message.
    pub fn first_visible_message(&self) -> (r: usize)
        ensures
            r == self@.chat.offset,
    {
        self.chat_state.offset()
    }

    /// Scrolls the chat towards newer messages.
    pub fn scroll_messages_down(&mut self)
        ensures
            final(self)@.list == old(self)@.list,
            final(self)@.input == old(self)@.input,
            final(self)@.chat.selected == old(self)@.chat.selected,
            final(self)@.chat.offset == if old(self)@.chat.offset == 0 {
                0usize
            } else {
                (old(self)@.chat.offset - 1) as usize
            },
    {
        self.chat_state.scroll_down();
    }

    /// Scrolls the chat towards older messages.
    pub fn scroll_messages_up(&mut self)
        ensures
            final(self)@.list == old(self)@.list,
            final(self)@.input == old(self)@.input,
            final(self)@.chat.selected == old(self)@.chat.selected,
            final(self)@.chat.offset == if old(self)@.chat.offset == usize::MAX {
                usize::MAX
            } else {
                (old(self)@.chat.offset + 1) as usize
            },
    {
        self.chat_state.scroll_up();
    }

    /// Returns the current input text.
    pub fn input(&self) -> (r: &str)
        ensures
            r@ == self@.input,
    {
        self.chat_input.as_str()
    }

    /// Clears the input text.
    pub fn clear_input(&mut self)
        ensures
            final(self)@.list == old(self)@.list,
            final(self)@.chat == old(self)@.chat,
            final(self)@.input.len() == 0,
    {
        self.chat_input = String::new();
    }

    /// Appends a character to the input text.
    pub fn push_input(&mut self, ch: char)
        ensures
            final(self)@.list == old(self)@.list,
            final(self)@.chat == old(self)@.chat,
            final(self)@.input == old(self)@.input.push(ch),
    {
        push_char(&mut self.chat_input, ch);
    }

    /// Removes the last character of the input text, if any.
    pub fn pop_input(&mut self)
        ensures
            final(self)@.list == old(self)@.list,
            final(self)@.chat == old(self)@.chat,
            old(self)@.input.len() == 0 ==> final(self)@.input == old(self)@.input,
            old(self)@.input.len() > 0 ==> final(self)@.input == old(self)@.input.drop_last(),
    {
        let _ = pop_char(&mut self.chat_input);
    }
}

} // verus!
