//! What the screen shows, computed from the state: the layout in cells, the
//! texts of the header, main panel, status line and hint bar, and the rules
//! of the frame. Pure: reads the state, mutates nothing, performs no I/O.
//! Putting these on a terminal is the drawing code's only job.

use vstd::prelude::*;

use crate::cli::{counted, counted_text};
use crate::schema::{Schema, SchemaView};
use crate::text::{decimal, join, joined, owned, push_decimal, views};
use crate::tui::keymap::{context_for, context_of, hint_lines, hints, Context};
use crate::tui::sidebar::SIDEBAR_WIDTH;
use crate::tui::state::{collection_label, label_for, AppState, AppStateView, Route, RouteView, StatusKind, StatusMessage, StatusMessageView};

verus! {

/// The smallest terminal that still gets a layout; below it, a notice.
pub const MIN_WIDTH: u16 = 60;
pub const MIN_HEIGHT: u16 = 16;

/// The root of every breadcrumb trail.
pub const ROOT_CRUMB: &'static str = "pressa";

/// Between two breadcrumbs.
pub const CRUMB_SEPARATOR: &'static str = " › ";

/// The hint bar joins its entries with three spaces.
pub const HINT_SEPARATOR: &'static str = "   ";

/// A rectangle of cells: its top-left corner and its size.
#[derive(Clone, Copy, Debug, PartialEq, Eq, Structural)]
pub struct Rect {
    pub x: u16,
    pub y: u16,
    pub width: u16,
    pub height: u16,
}

/// A rectangle whose size is cut back so that its far edges stay on the
/// grid of `u16` coordinates.
pub open spec fn rect_at(x: u16, y: u16, width: u16, height: u16) -> Rect {
    Rect {
        x,
        y,
        width: if width > u16::MAX - x { (u16::MAX - x) as u16 } else { width },
        height: if height > u16::MAX - y { (u16::MAX - y) as u16 } else { height },
    }
}

/// `a + b`, or `u16::MAX` where that does not fit.
pub open spec fn saturated(a: u16, b: u16) -> u16 {
    if a + b > u16::MAX { u16::MAX } else { (a + b) as u16 }
}

impl Rect {
    /// A rectangle at `(x, y)`, clamped onto the grid.
    pub fn new(x: u16, y: u16, width: u16, height: u16) -> (r: Rect)
        ensures
            r == rect_at(x, y, width, height),
    {
        let max_width = u16::MAX - x;
        let max_height = u16::MAX - y;
        Rect {
            x,
            y,
            width: if width > max_width { max_width } else { width },
            height: if height > max_height { max_height } else { height },
        }
    }

    /// The first row below the rectangle.
    pub fn bottom(&self) -> (b: u16)
        ensures
            b == saturated(self.y, self.height),
    {
        self.y.saturating_add(self.height)
    }

    /// The first column right of the rectangle.
    pub fn right(&self) -> (r: u16)
        ensures
            r == saturated(self.x, self.width),
    {
        self.x.saturating_add(self.width)
    }
}

/// The four regions every screen draws into.
#[derive(Clone, Copy, Debug, PartialEq, Eq, Structural)]
pub struct Panels {
    pub sidebar: Rect,
    pub main: Rect,
    pub status: Rect,
    pub hints: Rect,
}

/// The layout of a frame. Seven of the rows are chrome — header, three
/// separators, status, hints and the bottom border — so the body gets what
/// is left; three of the columns are the two walls and the divider. The
/// status line and the hint bar are counted from the bottom.
pub open spec fn layout_of(area: Rect) -> Panels {
    let body: u16 = if area.height >= 7 { (area.height - 7) as u16 } else { 0 };
    let main: u16 = if area.width >= SIDEBAR_WIDTH + 3 { (area.width - (SIDEBAR_WIDTH + 3)) as u16 } else { 0 };
    let bottom = saturated(area.y, area.height);
    Panels {
        sidebar: rect_at((area.x + 1) as u16, (area.y + 2) as u16, SIDEBAR_WIDTH, body),
        main: rect_at((area.x + SIDEBAR_WIDTH + 2) as u16, (area.y + 2) as u16, main, body),
        status: rect_at((area.x + 1) as u16, (bottom - 4) as u16, (area.width - 2) as u16, 1),
        hints: rect_at((area.x + 1) as u16, (bottom - 2) as u16, (area.width - 2) as u16, 1),
    }
}

/// Whether a frame over `area` can be laid out without leaving the grid.
pub open spec fn can_lay_out(area: Rect) -> bool {
    &&& area.width >= 2
    &&& saturated(area.y, area.height) >= 4
    &&& area.x + SIDEBAR_WIDTH + 2 <= u16::MAX
    &&& area.y + 2 <= u16::MAX
}

/// The regions of a frame over `area`.
pub fn layout(area: Rect) -> (p: Panels)
    requires
        can_lay_out(area),
    ensures
        p == layout_of(area),
{
    let body = area.height.saturating_sub(7);
    let main = area.width.saturating_sub(SIDEBAR_WIDTH + 3);
    let bottom = area.bottom();
    Panels {
        sidebar: Rect::new(area.x + 1, area.y + 2, SIDEBAR_WIDTH, body),
        main: Rect::new(area.x + SIDEBAR_WIDTH + 2, area.y + 2, main, body),
        status: Rect::new(area.x + 1, bottom - 4, area.width - 2, 1),
        hints: Rect::new(area.x + 1, bottom - 2, area.width - 2, 1),
    }
}

/// On a frame that is big enough, the panels lie inside it and apart: the
/// sidebar left of the divider, the main panel right of it up to the wall,
/// both above the status line, which is above the hint bar.
pub proof fn panels_stay_inside_the_frame(area: Rect)
    requires
        area.width >= MIN_WIDTH,
        area.height >= MIN_HEIGHT,
        area.x + area.width <= u16::MAX,
        area.y + area.height <= u16::MAX,
    ensures
        can_lay_out(area),
        ({
            let p = layout_of(area);
            &&& p.sidebar.x + p.sidebar.width < p.main.x
            &&& p.main.x + p.main.width == area.x + area.width - 1
            &&& p.sidebar.y + p.sidebar.height < p.status.y
            &&& p.main.y + p.main.height < p.status.y
            &&& p.status.y < p.hints.y
            &&& p.hints.y < area.y + area.height - 1
            &&& p.status.x == area.x + 1 && p.status.width == area.width - 2
        }),
{
}

/// The header path for a route. A slug the schema does not know is shown as
/// the slug, so a stale route is visible rather than fatal.
pub open spec fn crumbs(route: RouteView, schema: SchemaView) -> Seq<Seq<char>> {
    match route {
        RouteView::Home => seq![ROOT_CRUMB@],
        RouteView::List { collection } => seq![ROOT_CRUMB@, label_for(schema, collection)],
    }
}

/// The header path for a route, derived and never assembled by hand.
pub fn breadcrumbs(route: &Route, schema: &Schema) -> (r: Vec<String>)
    ensures
        views(r@) == crumbs(route@, schema@),
{
    let mut r: Vec<String> = Vec::new();
    r.push(owned(ROOT_CRUMB));
    match route {
        Route::Home => {},
        Route::List { collection } => {
            r.push(owned(collection_label(schema, collection.as_str())));
        },
    }
    assert(views(r@) =~= crumbs(route@, schema@));
    r
}

/// The title on the top edge: the breadcrumbs, between spaces.
pub open spec fn title_text(route: RouteView, schema: SchemaView) -> Seq<char> {
    " "@ + joined(crumbs(route, schema), CRUMB_SEPARATOR@) + " "@
}

pub fn title(route: &Route, schema: &Schema) -> (t: String)
    ensures
        t@ == title_text(route@, schema@),
{
    let crumbs = breadcrumbs(route, schema);
    let mut t = owned(" ");
    let path = join(&crumbs, CRUMB_SEPARATOR);
    t.append(path.as_str());
    t.append(" ");
    t
}

/// The main panel: on Home, an invitation and a summary of the project; on
/// a collection, a placeholder.
pub open spec fn main_lines(s: AppStateView) -> Seq<Seq<char>> {
    match s.route {
        RouteView::Home => seq![
            "Select a collection to begin."@,
            ""@,
            s.schema.project_name + " · "@ + counted_text(s.schema.collections.len(), "collection"@),
        ],
        RouteView::List { .. } => seq!["The list view arrives in T8."@],
    }
}

pub fn main_panel(state: &AppState) -> (lines: Vec<String>)
    ensures
        views(lines@) == main_lines(state@),
{
    let mut lines: Vec<String> = Vec::new();
    match &state.route {
        Route::Home => {
            lines.push(owned("Select a collection to begin."));
            lines.push(String::new());
            let mut summary = state.schema.project.name.clone();
            summary.append(" · ");
            let n = counted(state.schema.collection_count(), "collection");
            summary.append(n.as_str());
            assert(summary@ == state@.schema.project_name + " · "@ + counted_text(state@.schema.collections.len(), "collection"@));
            lines.push(summary);
            proof {
                reveal_strlit("");
                assert(state@.route == RouteView::Home);
                assert(views(lines@)[0] == "Select a collection to begin."@);
                assert(views(lines@)[1] == ""@);
            }
        },
        Route::List { .. } => {
            lines.push(owned("The list view arrives in T8."));
        },
    }
    proof {
        reveal_strlit("");
    }
    assert(views(lines@) =~= main_lines(state@));
    lines
}

/// Where a block of `height` lines goes when centred in `area`: full width,
/// halfway down; nowhere when it does not fit.
pub open spec fn centred_at(area: Rect, height: u16) -> Option<Rect> {
    if area.height < height {
        None
    } else {
        Some(rect_at(area.x, (area.y + (area.height - height) / 2) as u16, area.width, height))
    }
}

pub fn centred(area: Rect, height: u16) -> (r: Option<Rect>)
    requires
        area.y + area.height <= u16::MAX,
    ensures
        r == centred_at(area, height),
{
    if area.height < height {
        return None;
    }
    Some(Rect::new(area.x, area.y + (area.height - height) / 2, area.width, height))
}

/// The notice shown when the terminal is too small to lay out.
pub open spec fn too_small_lines(area: Rect) -> Seq<Seq<char>> {
    seq![
        "terminal too small"@,
        "needs "@ + decimal(MIN_WIDTH as nat) + "x"@ + decimal(MIN_HEIGHT as nat) + ", this is "@
            + decimal(area.width as nat) + "x"@ + decimal(area.height as nat),
    ]
}

pub fn too_small(area: Rect) -> (lines: Vec<String>)
    ensures
        views(lines@) == too_small_lines(area),
{
    let mut lines: Vec<String> = Vec::new();
    lines.push(owned("terminal too small"));
    let mut second = owned("needs ");
    push_decimal(&mut second, MIN_WIDTH as u64);
    second.append("x");
    push_decimal(&mut second, MIN_HEIGHT as u64);
    second.append(", this is ");
    push_decimal(&mut second, area.width as u64);
    second.append("x");
    push_decimal(&mut second, area.height as u64);
    lines.push(second);
    assert(views(lines@) =~= too_small_lines(area));
    lines
}

/// The status line's styled text: an error carries a warning sign, and is
/// shown in the error style. It follows one unstyled leading space.
pub open spec fn status_text(m: StatusMessageView) -> Seq<char> {
    match m.kind {
        StatusKind::Error => "⚠ "@ + m.text,
        StatusKind::Info => m.text,
    }
}

pub fn status(message: &Option<StatusMessage>) -> (r: Option<(String, StatusKind)>)
    ensures
        status_shown(*message, r),
{
    match message {
        None => None,
        Some(m) => {
            let mut text = String::new();
            match m.kind {
                StatusKind::Error => text.append("⚠ "),
                StatusKind::Info => {},
            }
            text.append(m.text.as_str());
            Some((text, m.kind))
        },
    }
}

/// The hint bar of `context`, generated from the keymap: there is no literal
/// hint text here, every word comes from a binding.
pub open spec fn hint_bar_text(context: Context) -> Seq<char> {
    " "@ + joined(hint_lines(context), HINT_SEPARATOR@)
}

pub fn hint_bar(context: Context) -> (t: String)
    ensures
        t@ == hint_bar_text(context),
{
    let entries = hints(context);
    let mut t = owned(" ");
    let joined_text = join(&entries, HINT_SEPARATOR);
    t.append(joined_text.as_str());
    t
}

/// The symbol a horizontal rule across `area` has at column `x`: the
/// junction wherever it falls, the tees at the two walls, a line between.
pub open spec fn rule_symbol(area: Rect, x: int, junction: Option<(u16, char)>) -> char {
    match junction {
        Some((column, joint)) if x == column => joint,
        _ => if x == area.x {
            '├'
        } else if x == saturated(area.x, area.width) - 1 {
            '┤'
        } else {
            '─'
        },
    }
}

/// The symbols of a rule across `area`, from its left edge to its right.
pub fn rule(area: Rect, junction: Option<(u16, char)>) -> (symbols: Vec<char>)
    ensures
        symbols@.len() == saturated(area.x, area.width) - area.x,
        forall|k: int| 0 <= k < symbols@.len() ==> #[trigger] symbols@[k] == rule_symbol(area, area.x + k, junction),
{
    let left = area.x;
    let right = area.right();
    let mut symbols: Vec<char> = Vec::new();
    let mut x: u16 = left;
    while x < right
        invariant
            left == area.x,
            right == saturated(area.x, area.width),
            left <= x <= right,
            symbols@.len() == x - left,
            forall|k: int| 0 <= k < symbols@.len() ==> #[trigger] symbols@[k] == rule_symbol(area, area.x + k, junction),
        decreases right - x,
    {
        let symbol = match junction {
            Some((column, joint)) if x == column => joint,
            _ => if x == left {
                '├'
            } else if x == right - 1 {
                '┤'
            } else {
                '─'
            },
        };
        symbols.push(symbol);
        x = x + 1;
    }
    symbols
}

/// The column of the divider between the sidebar and the main panel.
pub open spec fn divider_of(area: Rect) -> int {
    area.x + 1 + SIDEBAR_WIDTH
}

/// The rows of the frame's chrome: the three rules (with their junctions on
/// the divider, where the divider meets them), and the divider's extent.
#[derive(Clone, Copy, Debug, PartialEq, Eq)]
pub struct Shell {
    pub divider: u16,
    /// The divider runs from this row to the one before `divider_end`.
    pub divider_start: u16,
    pub divider_end: u16,
    pub header_rule: u16,
    pub status_rule: u16,
    pub hint_rule: u16,
}

pub open spec fn shell_of(area: Rect) -> Shell {
    let bottom = saturated(area.y, area.height);
    Shell {
        divider: divider_of(area) as u16,
        divider_start: (area.y + 2) as u16,
        divider_end: (bottom - 5) as u16,
        header_rule: (area.y + 1) as u16,
        status_rule: (bottom - 5) as u16,
        hint_rule: (bottom - 3) as u16,
    }
}

/// Where the chrome of a frame over `area` goes. Under the header and over
/// the status line the rules meet the divider, so they carry a junction
/// (`┬` and `┴`); the one over the hint bar does not.
pub fn shell(area: Rect) -> (s: Shell)
    requires
        area.width >= MIN_WIDTH,
        area.height >= MIN_HEIGHT,
        area.x + area.width <= u16::MAX,
        area.y + area.height <= u16::MAX,
    ensures
        s == shell_of(area),
{
    let bottom = area.bottom();
    Shell {
        divider: area.x + 1 + SIDEBAR_WIDTH,
        divider_start: area.y + 2,
        divider_end: bottom - 5,
        header_rule: area.y + 1,
        status_rule: bottom - 5,
        hint_rule: bottom - 3,
    }
}

/// What a frame shows.
#[derive(Debug, PartialEq, Eq)]
pub enum Screen {
    /// The terminal is too small: two centred lines and nothing else.
    TooSmall { block: Option<Rect>, lines: Vec<String> },
    /// The whole shell.
    Full {
        title: String,
        shell: Shell,
        panels: Panels,
        main: Vec<String>,
        main_block: Option<Rect>,
        status: Option<(String, StatusKind)>,
        hints: String,
    },
}

/// Whether `shown` is what the status line shows for `status`.
pub open spec fn status_shown(status: Option<StatusMessage>, shown: Option<(String, StatusKind)>) -> bool {
    match (status, shown) {
        (None, None) => true,
        (Some(m), Some((t, k))) => t@ == status_text(m@) && k == m.kind,
        _ => false,
    }
}

/// Whether a terminal of this size is too small to lay out.
pub open spec fn is_too_small(area: Rect) -> bool {
    area.width < MIN_WIDTH || area.height < MIN_HEIGHT
}

/// What the whole screen shows for `state` on a terminal of `area`.
pub fn view(state: &AppState, area: Rect) -> (s: Screen)
    requires
        area.x + area.width <= u16::MAX,
        area.y + area.height <= u16::MAX,
    ensures
        match s {
            Screen::TooSmall { block, lines } => is_too_small(area) && block == centred_at(area, 2)
                && views(lines@) == too_small_lines(area),
            Screen::Full { title, shell, panels, main, main_block, status, hints } => !is_too_small(area)
                && title@ == title_text(state@.route, state@.schema)
                && shell == shell_of(area)
                && panels == layout_of(area)
                && views(main@) == main_lines(state@)
                && main_block == centred_at(layout_of(area).main, main@.len() as u16)
                && hints@ == hint_bar_text(context_of(state@.route))
                && status_shown(state.status, status),
        },
{
    if area.width < MIN_WIDTH || area.height < MIN_HEIGHT {
        let lines = too_small(area);
        return Screen::TooSmall { block: centred(area, 2), lines };
    }
    let panels = layout(area);
    let main = main_panel(state);
    let main_block = centred(panels.main, main.len() as u16);
    Screen::Full {
        title: title(&state.route, &state.schema),
        shell: shell(area),
        panels,
        main,
        main_block,
        status: status(&state.status),
        hints: hint_bar(context_for(&state.route)),
    }
}

} // verus!
