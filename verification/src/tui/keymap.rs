//! The one place a key is named.
//!
//! Every binding the application has is a row of [`keymap`], and the hint bar
//! is generated from it. A key that is not in the table does nothing; a key
//! that is in it is documented by construction.

use vstd::prelude::*;

use crate::text::{push_char, str_eq, concat2, owned};
use crate::tui::command::Command;
use crate::tui::state::{Route, RouteView};

verus! {

/// The modifier bits of a key press, as the terminal reports them.
pub const SHIFT: u8 = 1;
pub const CONTROL: u8 = 2;
pub const ALT: u8 = 4;
pub const SUPER: u8 = 8;
pub const HYPER: u8 = 16;
pub const META: u8 = 32;

/// Which key was pressed.
#[derive(Debug, PartialEq, Eq)]
pub enum KeyCode {
    Char(char),
    Enter,
    Esc,
    Tab,
    Backspace,
    Up,
    Down,
    Left,
    Right,
    /// Any other key, by the name the terminal library gives it.
    Other(String),
}

pub enum KeyCodeView {
    Char(char),
    Enter,
    Esc,
    Tab,
    Backspace,
    Up,
    Down,
    Left,
    Right,
    Other(Seq<char>),
}

impl View for KeyCode {
    type V = KeyCodeView;

    open spec fn view(&self) -> KeyCodeView {
        match self {
            KeyCode::Char(c) => KeyCodeView::Char(*c),
            KeyCode::Enter => KeyCodeView::Enter,
            KeyCode::Esc => KeyCodeView::Esc,
            KeyCode::Tab => KeyCodeView::Tab,
            KeyCode::Backspace => KeyCodeView::Backspace,
            KeyCode::Up => KeyCodeView::Up,
            KeyCode::Down => KeyCodeView::Down,
            KeyCode::Left => KeyCodeView::Left,
            KeyCode::Right => KeyCodeView::Right,
            KeyCode::Other(name) => KeyCodeView::Other(name@),
        }
    }
}

/// A key press: the key and the modifier bits held with it.
#[derive(Debug, PartialEq, Eq)]
pub struct KeyPress {
    pub code: KeyCode,
    pub modifiers: u8,
}

pub struct KeyPressView {
    pub code: KeyCodeView,
    pub modifiers: u8,
}

impl View for KeyPress {
    type V = KeyPressView;

    open spec fn view(&self) -> KeyPressView {
        KeyPressView { code: self.code@, modifiers: self.modifiers }
    }
}

impl KeyPress {
    /// A key with no modifiers.
    pub fn plain(code: KeyCode) -> (k: KeyPress)
        ensures
            k@ == (KeyPressView { code: code@, modifiers: 0 }),
    {
        KeyPress { code, modifiers: 0 }
    }

    /// `Ctrl` held with a character.
    pub fn ctrl(c: char) -> (k: KeyPress)
        ensures
            k@ == (KeyPressView { code: KeyCodeView::Char(c), modifiers: CONTROL }),
    {
        KeyPress { code: KeyCode::Char(c), modifiers: CONTROL }
    }
}

/// Where a binding applies. Derived from the state, never stored.
#[derive(Clone, Copy, Debug, PartialEq, Eq, Structural)]
pub enum Context {
    Global,
    Sidebar,
    List,
}

/// What the hint bar prints for a binding, if anything. One field rather than
/// a flag plus a label, so a hidden binding carrying a label is
/// unrepresentable.
#[derive(Clone, Copy, Debug, PartialEq, Eq)]
pub enum Hint {
    Hidden,
    /// `"<key label> <description>"`.
    Shown,
    /// That label instead of the key's own — `j` and `↓` read as one `↑↓`.
    ShownAs(&'static str),
}

pub enum HintView {
    Hidden,
    Shown,
    ShownAs(Seq<char>),
}

impl View for Hint {
    type V = HintView;

    open spec fn view(&self) -> HintView {
        match self {
            Hint::Hidden => HintView::Hidden,
            Hint::Shown => HintView::Shown,
            Hint::ShownAs(label) => HintView::ShownAs(label@),
        }
    }
}

#[derive(Debug)]
pub struct KeyBinding {
    pub context: Context,
    pub key: KeyPress,
    pub command: Command,
    pub description: &'static str,
    pub hint: Hint,
}

pub struct KeyBindingView {
    pub context: Context,
    pub key: KeyPressView,
    pub command: Command,
    pub description: Seq<char>,
    pub hint: HintView,
}

impl View for KeyBinding {
    type V = KeyBindingView;

    open spec fn view(&self) -> KeyBindingView {
        KeyBindingView {
            context: self.context,
            key: self.key@,
            command: self.command,
            description: self.description@,
            hint: self.hint@,
        }
    }
}

pub open spec fn bindings_view(v: Seq<KeyBinding>) -> Seq<KeyBindingView> {
    v.map_values(|b: KeyBinding| b@)
}

pub open spec fn row(context: Context, code: KeyCodeView, modifiers: u8, command: Command, description: Seq<char>, hint: HintView) -> KeyBindingView {
    KeyBindingView { context, key: KeyPressView { code, modifiers }, command, description, hint }
}

/// Every binding in the application, in hint-bar order.
///
/// `q` appears twice on purpose: it quits from the sidebar, where there is
/// nowhere left to go back to, and goes back from a list.
pub open spec fn keymap_table() -> Seq<KeyBindingView> {
    seq![
        row(Context::Sidebar, KeyCodeView::Char('j'), 0, Command::MoveDown, "Navigate"@, HintView::ShownAs("↑↓"@)),
        row(Context::Sidebar, KeyCodeView::Down, 0, Command::MoveDown, "Navigate"@, HintView::Hidden),
        row(Context::Sidebar, KeyCodeView::Char('k'), 0, Command::MoveUp, "Navigate"@, HintView::Hidden),
        row(Context::Sidebar, KeyCodeView::Up, 0, Command::MoveUp, "Navigate"@, HintView::Hidden),
        row(Context::Sidebar, KeyCodeView::Enter, 0, Command::Select, "Open"@, HintView::Shown),
        row(Context::Sidebar, KeyCodeView::Char('l'), 0, Command::Select, "Open"@, HintView::Hidden),
        row(Context::Sidebar, KeyCodeView::Right, 0, Command::Select, "Open"@, HintView::Hidden),
        row(Context::Sidebar, KeyCodeView::Char('q'), 0, Command::Quit, "Quit"@, HintView::Shown),
        row(Context::List, KeyCodeView::Esc, 0, Command::Back, "Back"@, HintView::Shown),
        row(Context::List, KeyCodeView::Char('h'), 0, Command::Back, "Back"@, HintView::Hidden),
        row(Context::List, KeyCodeView::Left, 0, Command::Back, "Back"@, HintView::Hidden),
        row(Context::List, KeyCodeView::Char('q'), 0, Command::Back, "Back"@, HintView::Hidden),
        row(Context::Global, KeyCodeView::Char('c'), CONTROL, Command::Quit, "Quit"@, HintView::Hidden),
    ]
}

fn binding(context: Context, code: KeyCode, modifiers: u8, command: Command, description: &'static str, hint: Hint) -> (b: KeyBinding)
    ensures
        b@ == row(context, code@, modifiers, command, description@, hint@),
{
    KeyBinding { context, key: KeyPress { code, modifiers }, command, description, hint }
}

/// The keymap, as a table.
pub fn keymap() -> (table: Vec<KeyBinding>)
    ensures
        bindings_view(table@) == keymap_table(),
{
    let mut t: Vec<KeyBinding> = Vec::new();
    t.push(binding(Context::Sidebar, KeyCode::Char('j'), 0, Command::MoveDown, "Navigate", Hint::ShownAs("↑↓")));
    t.push(binding(Context::Sidebar, KeyCode::Down, 0, Command::MoveDown, "Navigate", Hint::Hidden));
    t.push(binding(Context::Sidebar, KeyCode::Char('k'), 0, Command::MoveUp, "Navigate", Hint::Hidden));
    t.push(binding(Context::Sidebar, KeyCode::Up, 0, Command::MoveUp, "Navigate", Hint::Hidden));
    t.push(binding(Context::Sidebar, KeyCode::Enter, 0, Command::Select, "Open", Hint::Shown));
    t.push(binding(Context::Sidebar, KeyCode::Char('l'), 0, Command::Select, "Open", Hint::Hidden));
    t.push(binding(Context::Sidebar, KeyCode::Right, 0, Command::Select, "Open", Hint::Hidden));
    t.push(binding(Context::Sidebar, KeyCode::Char('q'), 0, Command::Quit, "Quit", Hint::Shown));
    t.push(binding(Context::List, KeyCode::Esc, 0, Command::Back, "Back", Hint::Shown));
    t.push(binding(Context::List, KeyCode::Char('h'), 0, Command::Back, "Back", Hint::Hidden));
    t.push(binding(Context::List, KeyCode::Left, 0, Command::Back, "Back", Hint::Hidden));
    t.push(binding(Context::List, KeyCode::Char('q'), 0, Command::Back, "Back", Hint::Hidden));
    t.push(binding(Context::Global, KeyCode::Char('c'), CONTROL, Command::Quit, "Quit", Hint::Hidden));
    assert(bindings_view(t@) =~= keymap_table());
    t
}

/// The context a route is in.
pub open spec fn context_of(route: RouteView) -> Context {
    match route {
        RouteView::Home => Context::Sidebar,
        RouteView::List { .. } => Context::List,
    }
}

/// The context a route is in. Derived, never stored, so lookup is
/// unambiguous.
pub fn context_for(route: &Route) -> (c: Context)
    ensures
        c == context_of(route@),
{
    match route {
        Route::Home => Context::Sidebar,
        Route::List { .. } => Context::List,
    }
}

/// The modifiers that count. `SHIFT` on a character is dropped: the character
/// already carries the case, so `Q` and `Shift+q` are the same press.
pub open spec fn counted_modifiers(key: KeyPressView) -> u8 {
    match key.code {
        KeyCodeView::Char(_) => key.modifiers & 254u8,
        _ => key.modifiers,
    }
}

/// A key matches a binding when the code and the modifiers that count are
/// equal.
pub open spec fn key_matches(bound: KeyPressView, pressed: KeyPressView) -> bool {
    bound.code == pressed.code && counted_modifiers(bound) == counted_modifiers(pressed)
}

/// The command of the first binding at or after `from` in `table` that is in
/// `context` and matches `key`.
pub open spec fn command_from(table: Seq<KeyBindingView>, context: Context, key: KeyPressView, from: int) -> Option<Command>
    decreases table.len() - from,
{
    if from < 0 || from >= table.len() {
        None
    } else if table[from].context == context && key_matches(table[from].key, key) {
        Some(table[from].command)
    } else {
        command_from(table, context, key, from + 1)
    }
}

/// The command `key` triggers in `context`: the context's own bindings first,
/// then the global ones.
pub open spec fn resolved(context: Context, key: KeyPressView) -> Option<Command> {
    match command_from(keymap_table(), context, key, 0) {
        Some(c) => Some(c),
        None => command_from(keymap_table(), Context::Global, key, 0),
    }
}

fn same_code(a: &KeyCode, b: &KeyCode) -> (r: bool)
    ensures
        r == (a@ == b@),
{
    match (a, b) {
        (KeyCode::Char(x), KeyCode::Char(y)) => *x == *y,
        (KeyCode::Enter, KeyCode::Enter) => true,
        (KeyCode::Esc, KeyCode::Esc) => true,
        (KeyCode::Tab, KeyCode::Tab) => true,
        (KeyCode::Backspace, KeyCode::Backspace) => true,
        (KeyCode::Up, KeyCode::Up) => true,
        (KeyCode::Down, KeyCode::Down) => true,
        (KeyCode::Left, KeyCode::Left) => true,
        (KeyCode::Right, KeyCode::Right) => true,
        (KeyCode::Other(x), KeyCode::Other(y)) => str_eq(x.as_str(), y.as_str()),
        _ => false,
    }
}

fn modifiers(key: &KeyPress) -> (m: u8)
    ensures
        m == counted_modifiers(key@),
{
    match key.code {
        KeyCode::Char(_) => key.modifiers & 254u8,
        _ => key.modifiers,
    }
}

/// Whether `pressed` matches the binding key `bound`.
fn matches(bound: &KeyPress, pressed: &KeyPress) -> (r: bool)
    ensures
        r == key_matches(bound@, pressed@),
{
    same_code(&bound.code, &pressed.code) && modifiers(bound) == modifiers(pressed)
}

/// The one binding of `context` that `key` matches.
fn in_context(table: &Vec<KeyBinding>, context: Context, key: &KeyPress) -> (r: Option<Command>)
    ensures
        r == command_from(bindings_view(table@), context, key@, 0),
{
    let mut i: usize = 0;
    while i < table.len()
        invariant
            0 <= i <= table.len(),
            command_from(bindings_view(table@), context, key@, 0) == command_from(bindings_view(table@), context, key@, i as int),
        decreases table.len() - i,
    {
        assert(bindings_view(table@)[i as int] == table@[i as int]@);
        if table[i].context == context && matches(&table[i].key, key) {
            return Some(table[i].command);
        }
        i = i + 1;
    }
    None
}

/// The command `key` triggers in `context`, if any. The context's own
/// bindings are searched first and `Global` second, so a context can shadow a
/// global key. A key in no binding produces no command.
pub fn resolve(context: Context, key: &KeyPress) -> (r: Option<Command>)
    ensures
        r == resolved(context, key@),
{
    let table = keymap();
    match in_context(&table, context, key) {
        Some(c) => Some(c),
        None => in_context(&table, Context::Global, key),
    }
}

// ---------------------------------------------------------------------------
// Labels and hints
// ---------------------------------------------------------------------------

/// What `str::to_uppercase` makes of `s`.
pub uninterp spec fn upper_text(s: Seq<char>) -> Seq<char>;

/// Whether every character of `s` is ASCII.
pub open spec fn all_ascii(s: Seq<char>) -> bool {
    forall|i: int| 0 <= i < s.len() ==> (s[i] as u32) < 128
}

/// The ASCII upper case of one character: `a`-`z` moved up, the rest kept.
pub open spec fn ascii_upper(c: char) -> char {
    if 'a' <= c && c <= 'z' { ((c as u32) - 32) as char } else { c }
}

/// Upper case as `str::to_uppercase` makes it, which for ASCII text is the
/// ASCII upper case of each character.
pub open spec fn upper(s: Seq<char>) -> Seq<char> {
    if all_ascii(s) { s.map_values(|c: char| ascii_upper(c)) } else { upper_text(s) }
}

/// `str::to_uppercase`. ASCII letters map to their ASCII capitals and every
/// other ASCII character to itself, one for one, as Unicode's mapping does.
#[verifier::external_body]
fn uppercase(s: &str) -> (r: String)
    ensures
        r@ == upper_text(s@),
        all_ascii(s@) ==> r@ == s@.map_values(|c: char| ascii_upper(c)),
{
    s.to_uppercase()
}

/// What is printed on a key's cap.
pub open spec fn cap_text(code: KeyCodeView) -> Seq<char> {
    match code {
        KeyCodeView::Char(c) => seq![c],
        KeyCodeView::Enter => "Enter"@,
        KeyCodeView::Esc => "Esc"@,
        KeyCodeView::Tab => "Tab"@,
        KeyCodeView::Backspace => "Backspace"@,
        KeyCodeView::Up => "↑"@,
        KeyCodeView::Down => "↓"@,
        KeyCodeView::Left => "←"@,
        KeyCodeView::Right => "→"@,
        KeyCodeView::Other(name) => name,
    }
}

/// How a key is written in the hint bar: its cap, with `Ctrl+` and the cap
/// in upper case when Control is held.
pub open spec fn label_text(key: KeyPressView) -> Seq<char> {
    if key.modifiers & CONTROL != 0u8 {
        "Ctrl+"@ + upper(cap_text(key.code))
    } else {
        cap_text(key.code)
    }
}

fn cap(code: &KeyCode) -> (r: String)
    ensures
        r@ == cap_text(code@),
{
    match code {
        KeyCode::Char(c) => {
            let mut s = String::new();
            push_char(&mut s, *c);
            s
        },
        KeyCode::Enter => owned("Enter"),
        KeyCode::Esc => owned("Esc"),
        KeyCode::Tab => owned("Tab"),
        KeyCode::Backspace => owned("Backspace"),
        KeyCode::Up => owned("↑"),
        KeyCode::Down => owned("↓"),
        KeyCode::Left => owned("←"),
        KeyCode::Right => owned("→"),
        KeyCode::Other(name) => name.clone(),
    }
}

/// How a key is written in the hint bar.
pub fn key_label(key: &KeyPress) -> (r: String)
    ensures
        r@ == label_text(key@),
{
    let cap = cap(&key.code);
    if key.modifiers & CONTROL != 0u8 {
        let upper = uppercase(cap.as_str());
        concat2("Ctrl+", upper.as_str())
    } else {
        cap
    }
}

/// What the hint bar prints for one binding, or `None` when it prints
/// nothing.
pub open spec fn hint_text(b: KeyBindingView) -> Option<Seq<char>> {
    match b.hint {
        HintView::Hidden => None,
        HintView::Shown => Some(label_text(b.key) + " "@ + b.description),
        HintView::ShownAs(label) => Some(label + " "@ + b.description),
    }
}

/// The hints of the bindings of `context` in `table`, in table order.
pub open spec fn hints_in(table: Seq<KeyBindingView>, context: Context) -> Seq<Seq<char>>
    decreases table.len(),
{
    if table.len() == 0 {
        Seq::empty()
    } else {
        hints_in(table.drop_last(), context) + if table.last().context == context {
            match hint_text(table.last()) {
                Some(t) => seq![t],
                None => Seq::empty(),
            }
        } else {
            Seq::empty()
        }
    }
}

/// The hint bar of `context`: its own visible bindings, then the visible
/// global ones (listed once when `context` is itself `Global`).
pub open spec fn hint_lines(context: Context) -> Seq<Seq<char>> {
    hints_in(keymap_table(), context) + if context == Context::Global {
        Seq::empty()
    } else {
        hints_in(keymap_table(), Context::Global)
    }
}

fn hint_of(binding: &KeyBinding) -> (r: Option<String>)
    ensures
        match r {
            Some(s) => hint_text(binding@) == Some(s@),
            None => hint_text(binding@) is None,
        },
{
    match binding.hint {
        Hint::Hidden => None,
        Hint::Shown => {
            let mut s = key_label(&binding.key);
            s.append(" ");
            s.append(binding.description);
            Some(s)
        },
        Hint::ShownAs(label) => {
            let mut s = owned(label);
            s.append(" ");
            s.append(binding.description);
            Some(s)
        },
    }
}

fn push_hints(out: &mut Vec<String>, table: &Vec<KeyBinding>, context: Context)
    ensures
        crate::text::views(final(out)@) == crate::text::views(old(out)@) + hints_in(bindings_view(table@), context),
{
    let ghost start = crate::text::views(out@);
    let mut i: usize = 0;
    assert(bindings_view(table@).take(0) =~= Seq::<KeyBindingView>::empty());
    assert(start + Seq::<Seq<char>>::empty() =~= start);
    while i < table.len()
        invariant
            0 <= i <= table.len(),
            crate::text::views(out@) == start + hints_in(bindings_view(table@).take(i as int), context),
        decreases table.len() - i,
    {
        let ghost before = crate::text::views(out@);
        assert(bindings_view(table@).take(i + 1).drop_last() =~= bindings_view(table@).take(i as int));
        assert(bindings_view(table@).take(i + 1).last() == table@[i as int]@);
        if table[i].context == context {
            match hint_of(&table[i]) {
                Some(s) => {
                    let ghost made = s@;
                    out.push(s);
                    assert(crate::text::views(out@) =~= before.push(made));
                },
                None => {
                    assert(before + Seq::<Seq<char>>::empty() =~= before);
                },
            }
        } else {
            assert(before + Seq::<Seq<char>>::empty() =~= before);
        }
        i = i + 1;
    }
    assert(bindings_view(table@).take(table.len() as int) =~= bindings_view(table@));
}

/// One `"<key label> <description>"` per visible binding of `context`, in
/// table order, then the visible global ones.
pub fn hints(context: Context) -> (r: Vec<String>)
    ensures
        crate::text::views(r@) == hint_lines(context),
{
    let table = keymap();
    let mut out: Vec<String> = Vec::new();
    assert(crate::text::views(out@) =~= Seq::<Seq<char>>::empty());
    push_hints(&mut out, &table, context);
    if context != Context::Global {
        push_hints(&mut out, &table, Context::Global);
    } else {
        assert(crate::text::views(out@) + Seq::<Seq<char>>::empty() =~= crate::text::views(out@));
    }
    out
}

/// Every hint on the bar names a key that really does what the hint says:
/// resolving a visible binding's key in its own context gives its command.
pub proof fn every_hint_names_a_key_that_does_something(i: int)
    requires
        0 <= i < keymap_table().len(),
        !(keymap_table()[i].hint is Hidden),
    ensures
        resolved(keymap_table()[i].context, keymap_table()[i].key) == Some(keymap_table()[i].command),
{
    reveal_with_fuel(command_from, 14);
}

} // verus!
