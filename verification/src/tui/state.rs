//! The whole of what a screen can read: [`AppState`] and the small types it
//! is made of.

use vstd::prelude::*;

use crate::schema::{index_of_slug, lemma_find_slug_from, Collection, Schema, SchemaView};

verus! {

/// Where we are, in the URL sense.
#[derive(Debug, PartialEq, Eq)]
pub enum Route {
    Home,
    List { collection: String },
}

pub enum RouteView {
    Home,
    List { collection: Seq<char> },
}

impl View for Route {
    type V = RouteView;

    open spec fn view(&self) -> RouteView {
        match self {
            Route::Home => RouteView::Home,
            Route::List { collection } => RouteView::List { collection: collection@ },
        }
    }
}

impl Clone for Route {
    fn clone(&self) -> (r: Self)
        ensures
            r@ == self@,
    {
        match self {
            Route::Home => Route::Home,
            Route::List { collection } => Route::List { collection: collection.clone() },
        }
    }
}

#[derive(Clone, Copy, Debug, PartialEq, Eq, Structural)]
pub struct SidebarState {
    /// Index into `schema.collections`. Kept below its length, which is at
    /// least one: the loader rejects a schema with no collections.
    pub selected: usize,
    /// The row the list area would like to start at. The list's height is
    /// only known while drawing, so drawing clamps this rather than mutating
    /// it.
    pub offset: usize,
}

impl Default for SidebarState {
    fn default() -> (s: Self)
        ensures
            s.selected == 0 && s.offset == 0,
    {
        SidebarState { selected: 0, offset: 0 }
    }
}

#[derive(Clone, Copy, Debug, PartialEq, Eq, Structural)]
pub enum StatusKind {
    Info,
    Error,
}

#[derive(Debug, PartialEq, Eq)]
pub struct StatusMessage {
    pub text: String,
    pub kind: StatusKind,
}

pub struct StatusMessageView {
    pub text: Seq<char>,
    pub kind: StatusKind,
}

impl View for StatusMessage {
    type V = StatusMessageView;

    open spec fn view(&self) -> StatusMessageView {
        StatusMessageView { text: self.text@, kind: self.kind }
    }
}

/// Everything the UI knows. Drawing reads this and nothing else, and
/// `update` is the only function that changes it.
#[derive(Debug)]
pub struct AppState {
    pub schema: Schema,
    pub route: Route,
    pub sidebar: SidebarState,
    pub status: Option<StatusMessage>,
    pub should_quit: bool,
}

pub struct AppStateView {
    pub schema: SchemaView,
    pub route: RouteView,
    pub sidebar: SidebarState,
    pub status: Option<StatusMessageView>,
    pub should_quit: bool,
}

impl View for AppState {
    type V = AppStateView;

    open spec fn view(&self) -> AppStateView {
        AppStateView {
            schema: self.schema@,
            route: self.route@,
            sidebar: self.sidebar,
            status: match self.status {
                Some(m) => Some(m@),
                None => None,
            },
            should_quit: self.should_quit,
        }
    }
}

impl AppState {
    /// A fresh session: at Home, first collection selected, nothing to say.
    pub fn new(schema: Schema) -> (s: AppState)
        ensures
            s@ == (AppStateView {
                schema: schema@,
                route: RouteView::Home,
                sidebar: SidebarState { selected: 0, offset: 0 },
                status: None,
                should_quit: false,
            }),
    {
        AppState {
            schema,
            route: Route::Home,
            sidebar: SidebarState::default(),
            status: None,
            should_quit: false,
        }
    }

    /// The collection the sidebar is on, or `None` when `selected` points
    /// past the end.
    pub fn selected_collection(&self) -> (r: Option<&Collection>)
        ensures
            match r {
                Some(c) => self.sidebar.selected < self@.schema.collections.len()
                    && c@ == self@.schema.collections[self.sidebar.selected as int],
                None => self.sidebar.selected >= self@.schema.collections.len(),
            },
    {
        if self.sidebar.selected < self.schema.collection_count() {
            Some(self.schema.collection_at(self.sidebar.selected))
        } else {
            None
        }
    }
}

/// The label the schema gives `slug`, or the slug itself when it knows no
/// such collection.
pub open spec fn label_for(schema: SchemaView, slug: Seq<char>) -> Seq<char> {
    match index_of_slug(schema.collections, slug) {
        Some(i) => schema.collections[i].label,
        None => slug,
    }
}

/// The label the schema gives `slug`, or the slug itself when it knows no
/// such collection — a stale route is then visible rather than a panic.
pub fn collection_label<'a>(schema: &'a Schema, slug: &'a str) -> (r: &'a str)
    ensures
        r@ == label_for(schema@, slug@),
{
    proof {
        lemma_find_slug_from(schema@.collections, slug@, 0);
    }
    match schema.position(slug) {
        Some(i) => schema.collection_at(i).label.as_str(),
        None => slug,
    }
}

} // verus!
