//! The only place `AppState` changes.

use vstd::prelude::*;

use crate::tui::command::{Command, Effect};
use crate::tui::keymap::{context_for, context_of, resolve, resolved, KeyPress};
use crate::tui::state::{AppState, AppStateView, Route, RouteView};

verus! {

/// The state `cmd` leads to from `s`.
pub open spec fn next_state(s: AppStateView, cmd: Command) -> AppStateView {
    let len = s.schema.collections.len();
    match cmd {
        Command::MoveDown => {
            let last = if len == 0 { 0 } else { len - 1 };
            AppStateView {
                sidebar: crate::tui::state::SidebarState {
                    selected: if s.sidebar.selected < last { (s.sidebar.selected + 1) as usize } else { s.sidebar.selected },
                    ..s.sidebar
                },
                ..s
            }
        },
        Command::MoveUp => AppStateView {
            sidebar: crate::tui::state::SidebarState {
                selected: if s.sidebar.selected == 0 { 0 } else { (s.sidebar.selected - 1) as usize },
                ..s.sidebar
            },
            ..s
        },
        Command::Select => if s.sidebar.selected < len {
            AppStateView {
                route: RouteView::List { collection: s.schema.collections[s.sidebar.selected as int].slug },
                ..s
            }
        } else {
            s
        },
        Command::Back => AppStateView { route: RouteView::Home, ..s },
        Command::Quit => AppStateView { should_quit: true, ..s },
    }
}

/// Applies `cmd` to `state` and returns what the application wants from the
/// world. Pure: nothing but `state` is touched, and the answer is always
/// empty, since no [`Effect`] can be built.
pub fn update(state: &mut AppState, cmd: Command) -> (effects: Vec<Effect>)
    ensures
        final(state)@ == next_state(old(state)@, cmd),
        effects@.len() == 0,
{
    match cmd {
        Command::MoveDown => {
            let len = state.schema.collection_count();
            // Clamped at the last collection, never wrapping.
            let last = if len == 0 { 0 } else { len - 1 };
            if state.sidebar.selected < last {
                state.sidebar.selected = state.sidebar.selected + 1;
            }
        },
        Command::MoveUp => {
            // The same clamp at the other end: 0 stays 0.
            if state.sidebar.selected > 0 {
                state.sidebar.selected = state.sidebar.selected - 1;
            }
        },
        Command::Select => {
            let slug = match state.selected_collection() {
                Some(collection) => Some(collection.slug.clone()),
                None => None,
            };
            if let Some(collection) = slug {
                state.route = Route::List { collection };
            }
        },
        Command::Back => {
            state.route = Route::Home;
        },
        Command::Quit => {
            state.should_quit = true;
        },
    }
    Vec::new()
}

/// Moving never takes the selection outside the schema: if it was on a
/// collection before any command, it is on one after.
pub proof fn update_keeps_the_selection_in_range(s: AppStateView, cmd: Command)
    requires
        s.sidebar.selected < s.schema.collections.len(),
    ensures
        next_state(s, cmd).sidebar.selected < next_state(s, cmd).schema.collections.len(),
        next_state(s, cmd).schema == s.schema,
{
}

/// Moving down and then up from any collection but the last comes back to
/// where it started.
pub proof fn moving_down_then_up_returns(s: AppStateView)
    requires
        s.sidebar.selected + 1 < s.schema.collections.len(),
        s.schema.collections.len() <= usize::MAX,
    ensures
        next_state(next_state(s, Command::MoveDown), Command::MoveUp) == s,
{
    assert(next_state(next_state(s, Command::MoveDown), Command::MoveUp).sidebar == s.sidebar);
}

/// `Back` always lands at Home and never touches the selection; `Quit` only
/// raises the flag.
pub proof fn back_and_quit_touch_only_their_field(s: AppStateView)
    ensures
        next_state(s, Command::Back).route == RouteView::Home,
        next_state(s, Command::Back).sidebar == s.sidebar,
        next_state(s, Command::Back).should_quit == s.should_quit,
        next_state(s, Command::Quit).should_quit,
        next_state(s, Command::Quit).route == s.route,
        next_state(s, Command::Quit).sidebar == s.sidebar,
{
}

/// Selecting opens exactly the selected collection, and coming back keeps
/// the selection: `Select` then `Back` is the identity on the sidebar.
pub proof fn select_then_back_keeps_the_selection(s: AppStateView)
    requires
        s.sidebar.selected < s.schema.collections.len(),
    ensures
        next_state(s, Command::Select).route == (RouteView::List {
            collection: s.schema.collections[s.sidebar.selected as int].slug,
        }),
        next_state(next_state(s, Command::Select), Command::Back).sidebar == s.sidebar,
        next_state(next_state(s, Command::Select), Command::Back).route == RouteView::Home,
{
}

/// What one key event does to the session: a press that the keymap binds
/// in the current context runs its command; a release, or a key bound to
/// nothing here, changes nothing.
pub open spec fn after_key(s: AppStateView, key: crate::tui::keymap::KeyPressView, press: bool) -> AppStateView {
    if !press {
        s
    } else {
        match resolved(context_of(s.route), key) {
            Some(cmd) => next_state(s, cmd),
            None => s,
        }
    }
}

/// One pass of the event loop, between drawing and reading: the decisions
/// about a key event. Some terminals report a release for every press; only
/// the press acts.
pub fn handle_key(state: &mut AppState, key: &KeyPress, press: bool) -> (effects: Vec<Effect>)
    ensures
        final(state)@ == after_key(old(state)@, key@, press),
        effects@.len() == 0,
{
    if !press {
        return Vec::new();
    }
    match resolve(context_for(&state.route), key) {
        Some(command) => update(state, command),
        None => Vec::new(),
    }
}

} // verus!
