use pressa::config::{validate, RawCollection, RawDatabase, RawField, RawProject, RawSchema};
use pressa::schema::Schema;
use pressa::tui::command::Command;
use pressa::tui::keymap::{context_for, hints, key_label, keymap, resolve, Context, Hint, KeyCode, KeyPress, SHIFT};
use pressa::tui::sidebar::{render, sidebar_rows, window, RowStyle};
use pressa::tui::state::{collection_label, AppState, Route, StatusKind, StatusMessage};
use pressa::tui::update::{handle_key, update};
use pressa::tui::view::{
    breadcrumbs, centred, hint_bar, layout, main_panel, rule, status, title, too_small, view, Rect, Screen,
    MIN_HEIGHT, MIN_WIDTH,
};

fn schema_of(slugs: &[&str]) -> Schema {
    let collections = slugs
        .iter()
        .map(|slug| {
            (
                slug.to_string(),
                RawCollection {
                    label: None,
                    list_columns: None,
                    fields: vec![RawField {
                        name: "title".to_string(),
                        label: None,
                        kind: "text".to_string(),
                        required: false,
                        unique: false,
                        options: None,
                    }],
                },
            )
        })
        .collect();
    validate(RawSchema {
        project: RawProject {
            name: "blog-cms".to_string(),
        },
        database: RawDatabase { path: None },
        collections,
    })
    .expect("a valid schema")
}

fn blog() -> AppState {
    AppState::new(schema_of(&["posts", "pages", "authors"]))
}

fn press(c: char) -> KeyPress {
    KeyPress::plain(KeyCode::Char(c))
}

// ---------------------------------------------------------------------------
// Keymap
// ---------------------------------------------------------------------------

#[test]
fn the_sidebar_shows_three_hints_and_a_list_shows_one() {
    let sidebar = hints(Context::Sidebar);
    assert_eq!(sidebar.len(), 3, "hints were: {sidebar:?}");
    assert!(sidebar[0].starts_with("↑↓ "));
    assert!(sidebar[1].starts_with("Enter "));
    assert!(sidebar[2].starts_with("q "));

    let list = hints(Context::List);
    assert_eq!(list.len(), 1, "hints were: {list:?}");
    assert!(list[0].starts_with("Esc "));
}

#[test]
fn the_context_comes_from_the_route() {
    assert_eq!(context_for(&Route::Home), Context::Sidebar);
    assert_eq!(
        context_for(&Route::List {
            collection: "posts".to_string()
        }),
        Context::List
    );
}

#[test]
fn key_labels_are_what_the_key_cap_says() {
    assert_eq!(key_label(&press('q')), "q");
    assert_eq!(key_label(&KeyPress::plain(KeyCode::Enter)), "Enter");
    assert_eq!(key_label(&KeyPress::plain(KeyCode::Esc)), "Esc");
    assert_eq!(key_label(&KeyPress::plain(KeyCode::Tab)), "Tab");
    assert_eq!(key_label(&KeyPress::plain(KeyCode::Backspace)), "Backspace");
    assert_eq!(key_label(&KeyPress::plain(KeyCode::Up)), "↑");
    assert_eq!(key_label(&KeyPress::plain(KeyCode::Down)), "↓");
    assert_eq!(key_label(&KeyPress::plain(KeyCode::Left)), "←");
    assert_eq!(key_label(&KeyPress::plain(KeyCode::Right)), "→");
    assert_eq!(key_label(&KeyPress::ctrl('c')), "Ctrl+C");
}

#[test]
fn the_sidebar_resolves_every_key_it_offers() {
    for key in [press('j'), KeyPress::plain(KeyCode::Down)] {
        assert_eq!(resolve(Context::Sidebar, &key), Some(Command::MoveDown));
    }
    for key in [press('k'), KeyPress::plain(KeyCode::Up)] {
        assert_eq!(resolve(Context::Sidebar, &key), Some(Command::MoveUp));
    }
    for key in [KeyPress::plain(KeyCode::Enter), press('l'), KeyPress::plain(KeyCode::Right)] {
        assert_eq!(resolve(Context::Sidebar, &key), Some(Command::Select));
    }
    assert_eq!(resolve(Context::Sidebar, &press('q')), Some(Command::Quit));
}

#[test]
fn a_list_goes_back_on_the_key_that_quits_at_home() {
    for key in [
        KeyPress::plain(KeyCode::Esc),
        press('h'),
        KeyPress::plain(KeyCode::Left),
        press('q'),
    ] {
        assert_eq!(resolve(Context::List, &key), Some(Command::Back));
    }
}

#[test]
fn ctrl_c_quits_from_anywhere() {
    for context in [Context::Sidebar, Context::List] {
        assert_eq!(resolve(context, &KeyPress::ctrl('c')), Some(Command::Quit));
    }
}

#[test]
fn a_key_in_no_binding_produces_no_command() {
    for key in [press('z'), press('?')] {
        assert_eq!(resolve(Context::Sidebar, &key), None);
        assert_eq!(resolve(Context::List, &key), None);
    }
}

#[test]
fn modifiers_are_part_of_the_match() {
    assert_eq!(resolve(Context::Sidebar, &press('c')), None);
    assert_eq!(resolve(Context::Sidebar, &KeyPress::ctrl('c')), Some(Command::Quit));
}

#[test]
fn shift_on_a_character_is_ignored_because_the_character_carries_the_case() {
    let shifted = KeyPress {
        code: KeyCode::Char('q'),
        modifiers: SHIFT,
    };
    assert_eq!(resolve(Context::Sidebar, &shifted), Some(Command::Quit));
}

#[test]
fn a_context_shadows_a_global_binding() {
    assert_eq!(resolve(Context::Sidebar, &press('q')), Some(Command::Quit));
    assert_eq!(resolve(Context::List, &press('q')), Some(Command::Back));
}

#[test]
fn every_hint_names_a_key_that_does_something() {
    for binding in keymap() {
        if binding.hint == Hint::Hidden {
            continue;
        }
        assert_eq!(
            resolve(binding.context, &binding.key),
            Some(binding.command),
            "a visible hint names a key that resolves to something else"
        );
    }
}

// ---------------------------------------------------------------------------
// The sidebar window
// ---------------------------------------------------------------------------

#[test]
fn a_list_that_fits_never_scrolls() {
    assert_eq!(window(0, 4, 5, 15), 0);
}

#[test]
fn the_window_follows_the_selection_down() {
    assert_eq!(window(0, 19, 20, 15), 5);
}

#[test]
fn the_window_follows_the_selection_up() {
    assert_eq!(window(10, 3, 20, 15), 3);
}

#[test]
fn the_window_never_runs_past_the_end() {
    assert_eq!(window(18, 19, 20, 15), 5);
}

#[test]
fn a_zero_height_list_asks_for_nothing() {
    assert_eq!(window(0, 0, 20, 0), 0);
}

#[test]
fn the_sidebar_marks_the_selection_and_what_is_scrolled_away() {
    let slugs: Vec<String> = (0..20).map(|n| format!("c{n}")).collect();
    let names: Vec<&str> = slugs.iter().map(String::as_str).collect();
    let mut state = AppState::new(schema_of(&names));
    state.sidebar.selected = 19;
    let rows = sidebar_rows(&state, 5);
    assert_eq!(rows.len(), 5);
    assert_eq!(rows[0], (format!("{:<20}", " ↑ 16 more"), RowStyle::Dim));
    assert_eq!(rows[4], (format!("{:<20}", " > C19"), RowStyle::Reversed));

    let (heading, drawn) = render(&state, Rect::new(1, 2, 20, 7));
    assert_eq!(heading, " Collections");
    assert_eq!(drawn, rows);
}

// ---------------------------------------------------------------------------
// Update
// ---------------------------------------------------------------------------

fn three() -> AppState {
    AppState::new(schema_of(&["posts", "authors", "categories"]))
}

/// Everything `update` may change, compared field by field.
fn same_session(a: &AppState, b: &AppState) -> bool {
    a.route == b.route && a.sidebar == b.sidebar && a.status == b.status && a.should_quit == b.should_quit
}

fn list_of(slug: &str) -> Route {
    Route::List {
        collection: slug.to_string(),
    }
}

#[test]
fn the_same_state_and_command_always_produce_the_same_state() {
    let mut once = three();
    let mut twice = three();
    for command in [Command::MoveDown, Command::MoveDown, Command::Select] {
        let first = update(&mut once, command);
        let second = update(&mut twice, command);
        assert!(first.is_empty());
        assert!(second.is_empty());
    }
    assert!(same_session(&once, &twice));
    assert_eq!(once.schema, twice.schema);
}

#[test]
fn moving_down_stops_at_the_last_collection() {
    let mut state = three();
    update(&mut state, Command::MoveDown);
    update(&mut state, Command::MoveDown);
    assert_eq!(state.sidebar.selected, 2);
    let mut before = three();
    update(&mut before, Command::MoveDown);
    update(&mut before, Command::MoveDown);
    let effects = update(&mut state, Command::MoveDown);
    assert_eq!(state.sidebar.selected, 2);
    assert!(same_session(&state, &before));
    assert!(effects.is_empty());
}

#[test]
fn moving_up_stops_at_the_first_collection() {
    let mut state = three();
    update(&mut state, Command::MoveUp);
    assert_eq!(state.sidebar.selected, 0);
}

#[test]
fn select_routes_to_whichever_collection_is_selected() {
    let mut state = three();
    let effects = update(&mut state, Command::Select);
    assert_eq!(state.route, list_of("posts"));
    assert!(effects.is_empty(), "opening a collection loads nothing yet");

    let mut state = three();
    update(&mut state, Command::MoveDown);
    update(&mut state, Command::MoveDown);
    update(&mut state, Command::Select);
    assert_eq!(state.route, list_of("categories"));
}

#[test]
fn back_returns_home_with_the_selection_untouched() {
    let mut state = three();
    update(&mut state, Command::MoveDown);
    update(&mut state, Command::Select);
    let effects = update(&mut state, Command::Back);
    assert_eq!(state.route, Route::Home);
    assert_eq!(state.sidebar.selected, 1, "coming back keeps the selection");
    assert!(effects.is_empty());
}

#[test]
fn quit_asks_the_loop_to_stop() {
    let mut state = three();
    assert!(!state.should_quit);
    let effects = update(&mut state, Command::Quit);
    assert!(state.should_quit);
    assert!(effects.is_empty());
}

#[test]
fn breadcrumbs_come_from_the_route_and_the_schema() {
    let schema = schema_of(&["posts", "authors", "categories"]);
    assert_eq!(breadcrumbs(&Route::Home, &schema), ["pressa"]);
    assert_eq!(breadcrumbs(&list_of("posts"), &schema), ["pressa", "Posts"]);
}

#[test]
fn breadcrumbs_print_a_slug_the_schema_does_not_know() {
    let schema = schema_of(&["posts", "authors", "categories"]);
    assert_eq!(breadcrumbs(&list_of("drafts"), &schema), ["pressa", "drafts"]);
    assert_eq!(collection_label(&schema, "drafts"), "drafts");
}

#[test]
fn the_sidebar_selection_walks_the_schemas_own_order() {
    let mut state = AppState::new(schema_of(&["zebras", "apples", "mangoes"]));
    update(&mut state, Command::Select);
    assert_eq!(
        state.route,
        list_of("zebras"),
        "the first collection is the file's first, not the alphabet's"
    );
}

#[test]
fn a_release_does_nothing_and_a_press_acts() {
    let mut state = blog();
    handle_key(&mut state, &press('j'), false);
    assert_eq!(state.sidebar.selected, 0);
    handle_key(&mut state, &press('j'), true);
    assert_eq!(state.sidebar.selected, 1);
    handle_key(&mut state, &KeyPress::plain(KeyCode::Enter), true);
    assert_eq!(context_for(&state.route), Context::List);
    handle_key(&mut state, &press('q'), true);
    assert_eq!(state.route, Route::Home);
    assert!(!state.should_quit);
    handle_key(&mut state, &press('q'), true);
    assert!(state.should_quit);
}

// ---------------------------------------------------------------------------
// View
// ---------------------------------------------------------------------------

#[test]
fn breadcrumbs_follow_the_route() {
    let state = blog();
    assert_eq!(breadcrumbs(&Route::Home, &state.schema), vec!["pressa"]);
    assert_eq!(
        breadcrumbs(
            &Route::List {
                collection: "posts".to_string()
            },
            &state.schema
        ),
        vec!["pressa", "Posts"]
    );
    assert_eq!(
        breadcrumbs(
            &Route::List {
                collection: "gone".to_string()
            },
            &state.schema
        ),
        vec!["pressa", "gone"]
    );
    assert_eq!(
        title(
            &Route::List {
                collection: "pages".to_string()
            },
            &state.schema
        ),
        " pressa › Pages "
    );
}

#[test]
fn the_layout_of_an_eighty_by_twenty_four_terminal() {
    let panels = layout(Rect::new(0, 0, 80, 24));
    assert_eq!(panels.sidebar, Rect::new(1, 2, 20, 17));
    assert_eq!(panels.main, Rect::new(22, 2, 57, 17));
    assert_eq!(panels.status, Rect::new(1, 20, 78, 1));
    assert_eq!(panels.hints, Rect::new(1, 22, 78, 1));
}

#[test]
fn a_rect_is_clamped_onto_the_grid() {
    let r = Rect::new(65_530, 10, 100, 5);
    assert_eq!(r.width, 5);
    assert_eq!(r.right(), 65_535);
    assert_eq!(Rect::new(1, 2, 3, 4).bottom(), 6);
}

#[test]
fn the_home_panel_summarises_the_project() {
    let state = blog();
    assert_eq!(
        main_panel(&state),
        vec![
            "Select a collection to begin.".to_string(),
            String::new(),
            "blog-cms · 3 collections".to_string()
        ]
    );
}

#[test]
fn a_block_is_centred_or_not_drawn() {
    assert_eq!(centred(Rect::new(0, 0, 10, 5), 3), Some(Rect::new(0, 1, 10, 3)));
    assert_eq!(centred(Rect::new(0, 0, 10, 2), 3), None);
}

#[test]
fn a_small_terminal_says_what_it_needs() {
    assert_eq!(
        too_small(Rect::new(0, 0, 40, 10)),
        vec![
            "terminal too small".to_string(),
            format!("needs {MIN_WIDTH}x{MIN_HEIGHT}, this is 40x10")
        ]
    );
    match view(&blog(), Rect::new(0, 0, 59, 30)) {
        Screen::TooSmall { lines, block } => {
            assert_eq!(lines[0], "terminal too small");
            assert_eq!(block, Some(Rect::new(0, 14, 59, 2)));
        }
        other => panic!("expected the notice, got {other:?}"),
    }
}

#[test]
fn the_status_line_marks_errors() {
    assert_eq!(status(&None), None);
    let error = Some(StatusMessage {
        text: "boom".to_string(),
        kind: StatusKind::Error,
    });
    assert_eq!(status(&error), Some(("⚠ boom".to_string(), StatusKind::Error)));
    let info = Some(StatusMessage {
        text: "saved".to_string(),
        kind: StatusKind::Info,
    });
    assert_eq!(status(&info), Some(("saved".to_string(), StatusKind::Info)));
}

#[test]
fn the_hint_bar_comes_from_the_keymap() {
    assert_eq!(hint_bar(Context::Sidebar), " ↑↓ Navigate   Enter Open   q Quit");
    assert_eq!(hint_bar(Context::List), " Esc Back");
}

#[test]
fn a_rule_has_tees_at_the_walls_and_a_junction_on_the_divider() {
    let symbols: String = rule(Rect::new(0, 0, 6, 1), Some((2, '┬'))).into_iter().collect();
    assert_eq!(symbols, "├─┬──┤");
    let plain: String = rule(Rect::new(3, 0, 4, 1), None).into_iter().collect();
    assert_eq!(plain, "├──┤");
}

#[test]
fn a_full_screen_puts_everything_in_place() {
    let mut state = blog();
    update(&mut state, Command::Select);
    match view(&state, Rect::new(0, 0, 80, 24)) {
        Screen::Full {
            title,
            shell,
            panels,
            main,
            hints,
            status,
            ..
        } => {
            assert_eq!(title, " pressa › Posts ");
            assert_eq!(shell.divider, 21);
            assert_eq!(shell.header_rule, 1);
            assert_eq!(shell.status_rule, 19);
            assert_eq!(shell.hint_rule, 21);
            assert_eq!(panels, layout(Rect::new(0, 0, 80, 24)));
            assert_eq!(main, vec!["The list view arrives in T8.".to_string()]);
            assert_eq!(hints, " Esc Back");
            assert_eq!(status, None);
        }
        other => panic!("expected the shell, got {other:?}"),
    }
}

// ---------------------------------------------------------------------------
// What a drawn frame is made of
// ---------------------------------------------------------------------------

fn labelled(project: &str, collections: &[(&str, &str)]) -> Schema {
    validate(RawSchema {
        project: RawProject {
            name: project.to_string(),
        },
        database: RawDatabase { path: None },
        collections: collections
            .iter()
            .map(|(slug, label)| {
                (
                    slug.to_string(),
                    RawCollection {
                        label: Some(label.to_string()),
                        list_columns: None,
                        fields: vec![RawField {
                            name: "title".to_string(),
                            label: None,
                            kind: "text".to_string(),
                            required: false,
                            unique: false,
                            options: None,
                        }],
                    },
                )
            })
            .collect(),
    })
    .expect("a valid schema")
}

fn twenty() -> Schema {
    let slugs: Vec<(String, String)> = (1..=20).map(|n| (format!("c{n:02}"), format!("Coll {n:02}"))).collect();
    let pairs: Vec<(&str, &str)> = slugs.iter().map(|(s, l)| (s.as_str(), l.as_str())).collect();
    labelled("many-collections", &pairs)
}

/// The sidebar's rows as an 80x24 frame would draw them.
fn sidebar_at_80_by_24(state: &AppState) -> Vec<(String, RowStyle)> {
    let panels = layout(Rect::new(0, 0, 80, 24));
    render(state, panels.sidebar).1
}

#[test]
fn the_too_small_screen_starts_one_column_and_one_row_short() {
    let state = blog();
    for (width, height) in [(59, 24), (80, 15)] {
        assert!(
            matches!(view(&state, Rect::new(0, 0, width, height)), Screen::TooSmall { .. }),
            "{width}x{height} is below the floor on one axis"
        );
    }
    for (width, height) in [(60, 16), (80, 16)] {
        match view(&state, Rect::new(0, 0, width, height)) {
            Screen::Full { title, .. } => assert!(title.starts_with(" pressa "), "{width}x{height}"),
            other => panic!("{width}x{height} is the floor, not below it: {other:?}"),
        }
    }
}

#[test]
fn the_too_small_screen_names_the_size_it_has() {
    match view(&blog(), Rect::new(0, 0, 40, 10)) {
        Screen::TooSmall { block, lines } => {
            assert_eq!(block, Some(Rect::new(0, 4, 40, 2)));
            assert_eq!(lines[1].trim(), "needs 60x16, this is 40x10");
        }
        other => panic!("expected the notice, got {other:?}"),
    }
}

#[test]
fn the_selected_row_is_reverse_video_only_while_the_sidebar_has_focus() {
    let mut state = AppState::new(labelled("blog-cms", &[("posts", "Posts"), ("authors", "Authors")]));
    let home = sidebar_at_80_by_24(&state);
    assert!(home[0].0.starts_with(" > Posts"), "row was: {:?}", home[0]);
    assert_eq!(home[0].1, RowStyle::Reversed, "the sidebar has focus at Home");

    state.route = Route::List {
        collection: "posts".to_string(),
    };
    let list = sidebar_at_80_by_24(&state);
    assert!(list[0].0.starts_with(" > Posts"), "the marker stays: {:?}", list[0]);
    assert_ne!(list[0].1, RowStyle::Reversed, "the sidebar has lost focus");
}

#[test]
fn an_error_status_is_red_and_warned_and_an_info_status_is_neither() {
    let mut state = blog();
    state.status = Some(StatusMessage {
        text: "unknown collection: drafts".to_string(),
        kind: StatusKind::Error,
    });
    match view(&state, Rect::new(0, 0, 80, 24)) {
        Screen::Full { status, panels, .. } => {
            assert_eq!(status, Some(("⚠ unknown collection: drafts".to_string(), StatusKind::Error)));
            assert_eq!(panels.status.y, 20);
        }
        other => panic!("expected the shell, got {other:?}"),
    }
    state.status = Some(StatusMessage {
        text: "unknown collection: drafts".to_string(),
        kind: StatusKind::Info,
    });
    match view(&state, Rect::new(0, 0, 80, 24)) {
        Screen::Full { status, .. } => {
            assert_eq!(status, Some(("unknown collection: drafts".to_string(), StatusKind::Info)));
        }
        other => panic!("expected the shell, got {other:?}"),
    }
}

#[test]
fn the_more_marker_is_dim() {
    let mut state = AppState::new(twenty());
    for _ in 0..19 {
        update(&mut state, Command::MoveDown);
    }
    assert_eq!(state.sidebar.selected, 19);
    let rows = sidebar_at_80_by_24(&state);
    assert!(rows[0].0.starts_with(" ↑ 6 more"), "row was: {:?}", rows[0]);
    assert_eq!(rows[0].1, RowStyle::Dim);
}

#[test]
fn a_label_wider_than_the_sidebar_is_truncated_and_never_reaches_the_divider() {
    let state = AppState::new(labelled("long", &[("posts", "Supercalifragilistic Posts")]));
    let rows = sidebar_at_80_by_24(&state);
    assert!(rows[0].0.starts_with(" > Supercalifragili…"), "row was: {:?}", rows[0]);
    let panels = layout(Rect::new(0, 0, 80, 24));
    assert_eq!(rows[0].0.chars().count(), panels.sidebar.width as usize);
    assert!(panels.sidebar.right() <= 21, "the divider is column 21");
}

#[test]
fn the_sidebar_lists_collections_in_the_schemas_order() {
    let state = AppState::new(schema_of(&["zebras", "apples"]));
    let rows = sidebar_at_80_by_24(&state);
    assert!(rows[0].0.starts_with(" > Zebras"));
    assert!(rows[1].0.starts_with("   Apples"));
}

#[test]
fn the_hint_bar_is_the_keymap_for_the_current_context() {
    let mut state = blog();
    match view(&state, Rect::new(0, 0, 80, 24)) {
        Screen::Full { hints: bar, .. } => {
            assert_eq!(bar, format!(" {}", hints(Context::Sidebar).join("   ")));
        }
        other => panic!("expected the shell, got {other:?}"),
    }
    state.route = Route::List {
        collection: "posts".to_string(),
    };
    match view(&state, Rect::new(0, 0, 80, 24)) {
        Screen::Full { hints: bar, .. } => {
            assert_eq!(bar, format!(" {}", hints(Context::List).join("   ")));
        }
        other => panic!("expected the shell, got {other:?}"),
    }
}

/// What the loop does with each key press, without a terminal.
#[test]
fn a_key_bound_to_nothing_is_ignored() {
    let mut state = three();
    let before = three();
    for c in ['z', '?', 'q'] {
        handle_key(&mut state, &press(c), true);
    }
    assert_eq!(state.route, before.route);
    assert_eq!(state.sidebar, before.sidebar);
    assert_eq!(state.status, before.status);
    assert!(state.should_quit);
}
