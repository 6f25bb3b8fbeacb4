pub mod chat_dashboard;
pub mod dashboard;

use vstd::prelude::*;

use crate::app_state::chat_dashboard::{
    chat_pane_activate, chat_pane_step, chat_pane_step_out, ChatDashboardView,
};
use crate::app_state::dashboard::{dashboard_step, dashboard_step_out};
use crate::input::KeyCode;

verus! {

/// The top-level widget that input currently goes to.
#[derive(Clone, Copy, PartialEq, Eq, Structural, Debug)]
pub enum ActiveWidget {
    /// The top dashboard with its tab list.
    Dashboard,
    /// The chat dashboard.
    ChatDashboard,
}

impl ActiveWidget {
    /// The widget behind a tab index: only the first tab has one.
    pub open spec fn spec_from_idx(idx: Option<usize>) -> Option<ActiveWidget> {
        match idx {
            Some(i) => if i == 0 {
                Some(ActiveWidget::ChatDashboard)
            } else {
                None
            },
            None => None,
        }
    }

    /// Returns the widget behind a tab index: only the first tab has one.
    pub fn from_idx(idx: Option<usize>) -> (r: Option<Self>)
        ensures
            r == Self::spec_from_idx(idx),
    {
        match idx {
            Some(0) => Some(ActiveWidget::ChatDashboard),
            _ => None,
        }
    }
}

/// The whole state of the terminal application: the help banner, which
/// widget takes input, and the state of each widget.
#[derive(Clone, Debug)]
pub struct AppState {
    /// Whether the help banner is shown.
    pub display_help: bool,
    /// The widget that input currently goes to.
    pub active_widget: ActiveWidget,
    /// The chat dashboard state.
    pub chat_dashboard: chat_dashboard::ChatDashboardState,
    /// The top dashboard state.
    pub dashboard: dashboard::DashboardState,
}

/// The mathematical content of an [`AppState`].
#[verifier::ext_equal]
pub struct AppStateView {
    /// Whether the help banner is shown.
    pub display_help: bool,
    /// The widget that input currently goes to.
    pub active_widget: ActiveWidget,
    /// The chat dashboard state.
    pub chat_dashboard: ChatDashboardView,
    /// The top dashboard state.
    pub dashboard: dashboard::DashboardState,
}

impl View for AppState {
    type V = AppStateView;

    open spec fn view(&self) -> AppStateView {
        AppStateView {
            display_help: self.display_help,
            active_widget: self.active_widget,
            chat_dashboard: self.chat_dashboard@,
            dashboard: self.dashboard,
        }
    }
}

impl Default for AppState {
    /// Help shown, the top dashboard active with its first tab selected,
    /// and a fresh chat dashboard.
    fn default() -> (r: Self)
        ensures
            r@.display_help == true,
            r@.active_widget == ActiveWidget::Dashboard,
            r@.chat_dashboard == ChatDashboardView::initial(),
            r@.dashboard.state.selected == Some(0usize),
            r@.dashboard.state.offset == 0,
    {
        AppState {
            display_help: true,
            active_widget: ActiveWidget::Dashboard,
            chat_dashboard: Default::default(),
            dashboard: Default::default(),
        }
    }
}

/// The application state after one key press: `h` toggles the help banner
/// from anywhere; any other key goes to the active widget, which may also
/// hand control to another widget.
pub open spec fn app_step(v: AppStateView, k: KeyCode) -> AppStateView {
    if k == KeyCode::Char('h') {
        AppStateView { display_help: !v.display_help, ..v }
    } else {
        let stepped = match v.active_widget {
            ActiveWidget::Dashboard => AppStateView {
                dashboard: dashboard_step(v.dashboard, k),
                ..v
            },
            ActiveWidget::ChatDashboard => AppStateView {
                chat_dashboard: chat_pane_step(v.chat_dashboard, k),
                ..v
            },
        };
        let out = match v.active_widget {
            ActiveWidget::Dashboard => dashboard_step_out(v.dashboard, k),
            ActiveWidget::ChatDashboard => chat_pane_step_out(v.chat_dashboard, k),
        };
        match out {
            Some(ActiveWidget::Dashboard) => AppStateView {
                active_widget: ActiveWidget::Dashboard,
                ..stepped
            },
            Some(ActiveWidget::ChatDashboard) => AppStateView {
                active_widget: ActiveWidget::ChatDashboard,
                chat_dashboard: chat_pane_activate(stepped.chat_dashboard),
                ..stepped
            },
            None => stepped,
        }
    }
}

impl AppState {
    /// Toggles the help banner.
    pub fn toggle_help(&mut self)
        ensures
            final(self)@ == (AppStateView { display_help: !old(self)@.display_help, ..old(self)@ }),
    {
        self.display_help = !self.display_help;
        proof {
            assert(self@ =~= (AppStateView { display_help: !old(self)@.display_help, ..old(self)@ }));
        }
    }

    /// Whether the help banner is shown.
    pub fn display_help(&self) -> (r: bool)
        ensures
            r == self@.display_help,
    {
        self.display_help
    }

    /// The selected tab of the top dashboard, if any.
    pub fn selected(&self) -> (r: Option<usize>)
        ensures
            r == self@.dashboard.state.selected,
    {
        self.dashboard.selected()
    }

    /// Grants the renderer access to the chat dashboard widget state.
    pub fn chat_dashboard_state_mut(&mut self) -> (r: &mut crate::widgets::chat_dashboard::ChatDashboardState)
        ensures
            r@ == old(self)@.chat_dashboard.state,
            final(self)@.chat_dashboard.state == final(r)@,
            final(self)@.chat_dashboard.active == old(self)@.chat_dashboard.active,
            final(self)@.display_help == old(self)@.display_help,
            final(self)@.active_widget == old(self)@.active_widget,
            final(self)@.dashboard == old(self)@.dashboard,
    {
        self.chat_dashboard.state_mut()
    }

    /// Which part of the chat dashboard is currently active.
    pub fn chat_dashboard_active_widget(&self) -> (r: Option<crate::widgets::chat_dashboard::Active>)
        ensures
            r == self@.chat_dashboard.active,
    {
        self.chat_dashboard.active_widget()
    }

    /// Grants the renderer access to the selection state of the top
    /// dashboard.
    pub fn dashboard_state_mut(&mut self) -> (r: &mut crate::widgets::dashboard::DashBoardState)
        ensures
            *r == old(self)@.dashboard.state,
            final(self)@.dashboard.state == *final(r),
            final(self)@.chat_dashboard == old(self)@.chat_dashboard,
            final(self)@.display_help == old(self)@.display_help,
            final(self)@.active_widget == old(self)@.active_widget,
    {
        self.dashboard.state_mut()
    }

    /// Steps the whole application state by one key press.
    pub fn process_event(&mut self, input: KeyCode)
        ensures
            final(self)@ == app_step(old(self)@, input),
    {
        // Toggle the help banner from anywhere, even though it is shown as
        // part of the dashboard widget.
        if input == KeyCode::Char('h') {
            self.toggle_help();
            proof {
                assert(self@ =~= app_step(old(self)@, input));
            }
            return;
        }

        let active_widget = match self.active_widget {
            ActiveWidget::Dashboard => self.dashboard.process_event(input),
            ActiveWidget::ChatDashboard => self.chat_dashboard.process_event(input),
        };

        if let Some(widget) = active_widget {
            match widget {
                ActiveWidget::Dashboard => {
                    self.dashboard.activate();
                    self.active_widget = ActiveWidget::Dashboard;
                },
                ActiveWidget::ChatDashboard => {
                    self.chat_dashboard.activate();
                    self.active_widget = ActiveWidget::ChatDashboard;
                },
            }
        }
        proof {
            assert(self@ =~= app_step(old(self)@, input));
        }
    }
}

} // verus!
