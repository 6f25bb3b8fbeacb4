use vstd::prelude::*;

use crate::app_state::ActiveWidget;
use crate::input::KeyCode;
use crate::widgets::dashboard::{next_index, previous_index, DashBoardState};

verus! {

/// The application-level state of the top dashboard: which tab is
/// selected.
#[derive(Clone, Copy, PartialEq, Eq, Structural, Debug)]
pub struct DashboardState {
    /// The selection state of the tab list.
    pub state: DashBoardState,
}

impl Default for DashboardState {
    /// The first tab selected.
    fn default() -> (r: Self)
        ensures
            r.state.selected == Some(0usize),
            r.state.offset == 0,
    {
        let mut state: DashBoardState = Default::default();
        state.select_first();
        DashboardState { state }
    }
}

/// The dashboard state after one key press.
pub open spec fn dashboard_step(s: DashboardState, k: KeyCode) -> DashboardState {
    match k {
        KeyCode::Left => DashboardState {
            state: DashBoardState {
                selected: Some(previous_index(s.state.selected)),
                offset: s.state.offset,
            },
        },
        KeyCode::Right => DashboardState {
            state: DashBoardState {
                selected: Some(next_index(s.state.selected)),
                offset: s.state.offset,
            },
        },
        _ => s,
    }
}

/// The widget a key press asks to hand control to, if any: pressing down
/// descends into the widget of the selected tab.
pub open spec fn dashboard_step_out(s: DashboardState, k: KeyCode) -> Option<ActiveWidget> {
    if k == KeyCode::Down {
        ActiveWidget::spec_from_idx(s.state.selected)
    } else {
        None
    }
}

impl DashboardState {
    /// Grants the renderer access to the selection state of the tab list.
    pub fn state_mut(&mut self) -> (r: &mut DashBoardState)
        ensures
            *r == old(self).state,
            final(self).state == *final(r),
    {
        &mut self.state
    }

    /// The selected tab, if any.
    pub fn selected(&self) -> (r: Option<usize>)
        ensures
            r == self.state.selected,
    {
        self.state.selected()
    }

    /// Steps the tab selection by one key press; pressing down asks to
    /// descend into the widget of the selected tab.
    pub fn process_event(&mut self, input: KeyCode) -> (r: Option<ActiveWidget>)
        ensures
            *final(self) == dashboard_step(*old(self), input),
            r == dashboard_step_out(*old(self), input),
    {
        match input {
            KeyCode::Left => {
                self.state.select_previous();
            },
            KeyCode::Right => {
                self.state.select_next();
            },
            KeyCode::Down => {
                return ActiveWidget::from_idx(self.state.selected());
            },
            _ => {},
        }
        None
    }

    /// Called when the dashboard becomes the active widget; nothing to do.
    pub fn activate(&mut self)
        ensures
            *final(self) == *old(self),
    {
    }
}

} // verus!
