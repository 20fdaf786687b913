//! The sidebar: the schema's collections, with a selection and a viewport.
//! What each row says and how it is styled is decided here; putting it on the
//! screen happens where the terminal is.

use vstd::prelude::*;

use crate::text::{chars_of, decimal, push_char, push_chars, push_decimal, string_of};
use crate::tui::state::{AppState, AppStateView};

verus! {

/// Fixed: with a 60-column floor the sidebar never has to shrink.
pub const SIDEBAR_WIDTH: u16 = 20;
/// One leading space and a two-column marker leave this much for a label.
pub const LABEL_WIDTH: usize = 17;
/// How many rows the title and the blank line under it take.
pub const HEADER_ROWS: u16 = 2;

/// The first collection the list area shows.
pub open spec fn window_start(offset: nat, selected: nat, len: nat, height: nat) -> nat {
    if height == 0 {
        0
    } else {
        let furthest: nat = if len > height { (len - height) as nat } else { 0 };
        let clamped: nat = if offset < furthest { offset } else { furthest };
        let upper: nat = if selected < clamped { selected } else { clamped };
        if selected >= upper + height {
            (selected + 1 - height) as nat
        } else {
            upper
        }
    }
}

/// The first collection the list area shows. `offset` is what the state
/// remembers; the list's height is only known while drawing, so this clamps
/// rather than mutates.
pub fn window(offset: usize, selected: usize, len: usize, height: usize) -> (first: usize)
    ensures
        first == window_start(offset as nat, selected as nat, len as nat, height as nat),
{
    if height == 0 {
        return 0;
    }
    // Never scroll past the point where the last collection is on the bottom
    // row, or the list would end in blank rows with content hidden above.
    let furthest = if len > height { len - height } else { 0 };
    let mut first = if offset < furthest { offset } else { furthest };
    if selected < first {
        first = selected; // the selection went off the top
    }
    if selected - first >= height {
        first = selected - (height - 1); // and off the bottom
    }
    first
}

/// The window keeps the selection on screen, and never scrolls past the point
/// where the last collection sits on the bottom row.
pub proof fn window_shows_the_selection(offset: nat, selected: nat, len: nat, height: nat)
    requires
        height > 0,
        selected < len,
    ensures
        window_start(offset, selected, len, height) <= selected,
        selected < window_start(offset, selected, len, height) + height,
        window_start(offset, selected, len, height) + height <= if len > height { len } else { height },
{
}

/// A list that fits never scrolls.
pub proof fn a_list_that_fits_never_scrolls(offset: nat, selected: nat, len: nat, height: nat)
    requires
        selected < len,
        len <= height,
    ensures
        window_start(offset, selected, len, height) == 0,
{
}

/// `label` in at most `width` characters, ending in `…` when it does not fit.
pub open spec fn truncated(label: Seq<char>, width: nat) -> Seq<char> {
    if label.len() <= width {
        label
    } else {
        label.take(width - 1).push('…')
    }
}

/// `label` in at most `width` columns, ending in `…` when it does not fit.
/// Counted in characters, not bytes: a label may be more than ASCII.
pub fn truncate(label: &str, width: usize) -> (r: String)
    requires
        width > 0 || label@.len() == 0,
    ensures
        r@ == truncated(label@, width as nat),
{
    let chars = chars_of(label);
    if chars.len() <= width {
        return string_of(&chars);
    }
    let mut r = String::new();
    let mut i: usize = 0;
    while i < width - 1
        invariant
            0 <= i <= width - 1,
            width - 1 < chars.len(),
            chars@ == label@,
            r@ == chars@.take(i as int),
        decreases width - 1 - i,
    {
        push_char(&mut r, chars[i]);
        assert(chars@.take(i + 1) =~= chars@.take(i as int).push(chars@[i as int]));
        i = i + 1;
    }
    push_char(&mut r, '…');
    r
}

/// `text`, padded with spaces on the right to at least `width` characters.
pub open spec fn padded(text: Seq<char>, width: nat) -> Seq<char> {
    if text.len() >= width {
        text
    } else {
        text + Seq::new((width - text.len()) as nat, |i: int| ' ')
    }
}

fn pad_right(text: &Vec<char>, width: usize) -> (r: String)
    ensures
        r@ == padded(text@, width as nat),
{
    let mut r = string_of(text);
    let mut n = text.len();
    while n < width
        invariant
            text@.len() <= n <= width || (n == text@.len() && n >= width),
            r@ == text@ + Seq::new((n - text@.len()) as nat, |i: int| ' '),
        decreases width - n,
    {
        push_char(&mut r, ' ');
        assert(text@ + Seq::new((n + 1 - text@.len()) as nat, |i: int| ' ')
            =~= (text@ + Seq::new((n - text@.len()) as nat, |i: int| ' ')).push(' '));
        n = n + 1;
    }
    assert(text@.len() >= width ==> r@ =~= text@);
    r
}

/// How a sidebar row is drawn.
#[derive(Clone, Copy, Debug, PartialEq, Eq, Structural)]
pub enum RowStyle {
    Plain,
    /// The "more" markers.
    Dim,
    /// The selected row, while the sidebar has focus.
    Reversed,
}

/// One collection's row text and style: marker, then label.
pub open spec fn collection_row_spec(s: AppStateView, index: int, focused: bool) -> (Seq<char>, RowStyle) {
    let label = if 0 <= index < s.schema.collections.len() { s.schema.collections[index].label } else { Seq::empty() };
    let selected = index == s.sidebar.selected;
    let marker = if selected { "> "@ } else { "  "@ };
    (" "@ + marker + truncated(label, LABEL_WIDTH as nat), if selected && focused { RowStyle::Reversed } else { RowStyle::Plain })
}

/// The row drawn in `slot` (counting from the first row under the title) of
/// a list area `rows` high whose first collection is `first`.
pub open spec fn sidebar_row_spec(s: AppStateView, first: nat, rows: nat, slot: nat) -> (Seq<char>, RowStyle) {
    let len = s.schema.collections.len();
    let focused = s.route is Home;
    let (text, style) = if slot == 0 && first > 0 {
        (" ↑ "@ + decimal(first + 1) + " more"@, RowStyle::Dim)
    } else if slot + 1 == rows && first + rows < len {
        (" ↓ "@ + decimal((len - (first + rows) + 1) as nat) + " more"@, RowStyle::Dim)
    } else {
        collection_row_spec(s, (first + slot) as int, focused)
    };
    (padded(text, SIDEBAR_WIDTH as nat), style)
}

/// How many rows the list area fills: as many as it has, or as there are
/// collections from `first` on.
pub open spec fn filled_rows(s: AppStateView, first: nat, rows: nat) -> nat {
    let len = s.schema.collections.len();
    if first >= len {
        0
    } else if len - first < rows {
        (len - first) as nat
    } else {
        rows
    }
}

fn collection_row(state: &AppState, index: usize, focused: bool) -> (r: (Vec<char>, RowStyle))
    ensures
        (r.0@, r.1) == collection_row_spec(state@, index as int, focused),
{
    let mut text: Vec<char> = Vec::new();
    text.push(' ');
    let selected = index == state.sidebar.selected;
    if selected {
        text.push('>');
        text.push(' ');
    } else {
        text.push(' ');
        text.push(' ');
    }
    proof {
        reveal_strlit("> ");
        reveal_strlit("  ");
        reveal_strlit(" ");
    }
    let label: &str = if index < state.schema.collection_count() {
        state.schema.collection_at(index).label.as_str()
    } else {
        ""
    };
    proof {
        reveal_strlit("");
    }
    let short = truncate(label, LABEL_WIDTH);
    let short_chars = chars_of(short.as_str());
    let ghost head = text@;
    let mut i: usize = 0;
    while i < short_chars.len()
        invariant
            0 <= i <= short_chars.len(),
            text@ == head + short_chars@.take(i as int),
        decreases short_chars.len() - i,
    {
        text.push(short_chars[i]);
        assert(short_chars@.take(i + 1) =~= short_chars@.take(i as int).push(short_chars@[i as int]));
        i = i + 1;
    }
    assert(short_chars@.take(short_chars.len() as int) =~= short_chars@);
    let style = if selected && focused { RowStyle::Reversed } else { RowStyle::Plain };
    let ghost want = collection_row_spec(state@, index as int, focused);
    assert(text@ =~= want.0);
    (text, style)
}

/// The rows under the sidebar's title, for a list area `rows` high: one per
/// visible collection, with the top and bottom rows standing in for anything
/// scrolled out of view above or below.
pub fn sidebar_rows(state: &AppState, rows: usize) -> (r: Vec<(String, RowStyle)>)
    ensures
        ({
            let first = window_start(state.sidebar.offset as nat, state.sidebar.selected as nat, state@.schema.collections.len(), rows as nat);
            &&& r@.len() == filled_rows(state@, first, rows as nat)
            &&& forall|slot: int| 0 <= slot < r@.len() ==>
                (#[trigger] r@[slot].0@, r@[slot].1) == sidebar_row_spec(state@, first, rows as nat, slot as nat)
        }),
{
    let len = state.schema.collection_count();
    let first = window(state.sidebar.offset, state.sidebar.selected, len, rows);
    // Reverse video marks the selection only while the sidebar has focus,
    // which is Home and nowhere else.
    let focused = match state.route {
        crate::tui::state::Route::Home => true,
        _ => false,
    };
    let mut out: Vec<(String, RowStyle)> = Vec::new();
    let mut slot: usize = 0;
    let count: usize = if first >= len { 0 } else if len - first < rows { len - first } else { rows };
    while slot < count
        invariant
            0 <= slot <= count,
            len == state@.schema.collections.len(),
            first as nat == window_start(state.sidebar.offset as nat, state.sidebar.selected as nat, len as nat, rows as nat),
            count as nat == filled_rows(state@, first as nat, rows as nat),
            focused == (state@.route is Home),
            count <= rows,
            count > 0 ==> first + count <= len,
            out@.len() == slot,
            forall|k: int| 0 <= k < slot ==>
                (#[trigger] out@[k].0@, out@[k].1) == sidebar_row_spec(state@, first as nat, rows as nat, k as nat),
        decreases count - slot,
    {
        let index = first + slot;
        let (text, style) = if slot == 0 && first > 0 {
            let mut t = chars_of(" ↑ ");
            let mut n = String::new();
            push_decimal(&mut n, (first + 1) as u64);
            let digits = chars_of(n.as_str());
            let mut s = string_of(&t);
            push_chars(&mut s, &digits);
            s.append(" more");
            (chars_of(s.as_str()), RowStyle::Dim)
        } else if slot + 1 == rows && first + rows < len {
            let mut n = String::new();
            push_decimal(&mut n, (len - (first + rows) + 1) as u64);
            let mut s = crate::text::concat2(" ↓ ", n.as_str());
            s.append(" more");
            (chars_of(s.as_str()), RowStyle::Dim)
        } else {
            collection_row(state, index, focused)
        };
        let line = pad_right(&text, SIDEBAR_WIDTH as usize);
        out.push((line, style));
        slot = slot + 1;
    }
    out
}

/// The sidebar over `area`: its title on the first row, then, below a blank
/// row, the rows of the list area that is left.
pub fn render(state: &AppState, area: crate::tui::view::Rect) -> (r: (String, Vec<(String, RowStyle)>))
    ensures
        r.0@ == " Collections"@,
        ({
            let rows: nat = if area.height >= HEADER_ROWS { (area.height - HEADER_ROWS) as nat } else { 0 };
            let first = window_start(state.sidebar.offset as nat, state.sidebar.selected as nat, state@.schema.collections.len(), rows);
            &&& r.1@.len() == filled_rows(state@, first, rows)
            &&& forall|slot: int| 0 <= slot < r.1@.len() ==>
                (#[trigger] r.1@[slot].0@, r.1@[slot].1) == sidebar_row_spec(state@, first, rows, slot as nat)
        }),
{
    let rows = area.height.saturating_sub(HEADER_ROWS) as usize;
    (crate::text::owned(" Collections"), sidebar_rows(state, rows))
}

} // verus!
