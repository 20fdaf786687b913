use std::path::Path;

use pressa::cli::{counted, resolve_project, scaffold_report, validate_summary, Cli, Command, LogLevel};
use pressa::config::{validate, ConfigError, RawCollection, RawDatabase, RawField, RawProject, RawSchema};
use pressa::discovery::{absolute_path, discover_project, project_at, ProjectPaths};
use pressa::logging::{log_path, LogError};

fn joined(base: &str, name: &str) -> String {
    Path::new(base).join(name).to_string_lossy().into_owned()
}

fn only(config: &'static str) -> impl Fn(&String) -> bool {
    move |path: &String| path.as_str() == config
}

#[test]
fn the_log_lives_in_the_projects_dot_pressa_directory() {
    let project = Path::new("/some/project");
    assert_eq!(
        log_path("/some/project"),
        project.join(".pressa").join("pressa.log").to_string_lossy()
    );
}

#[test]
fn discover_project_finds_a_config_three_directories_up() {
    let paths = discover_project("/tmp/blog/posts/drafts/2026", "/work", only("/tmp/blog/pressa.yaml"))
        .expect("config found by walking up");
    assert_eq!(paths.root, "/tmp/blog");
    assert_eq!(paths.config, "/tmp/blog/pressa.yaml");
    assert_eq!(paths.data_dir, "/tmp/blog/.pressa");
    assert_eq!(paths.database, "/tmp/blog/.pressa/data.db");
    assert_eq!(paths.log, "/tmp/blog/.pressa/pressa.log");
}

#[test]
fn discover_project_finds_a_config_in_the_starting_directory() {
    let paths = discover_project("/tmp/blog", "/work", only("/tmp/blog/pressa.yaml")).expect("found");
    assert_eq!(paths, ProjectPaths::rooted_at("/tmp/blog".to_string()));
}

#[test]
fn discover_project_reports_not_found_at_the_filesystem_root_without_looping() {
    let error = discover_project("/tmp/a/b/c", "/work", |_: &String| false).expect_err("nothing anywhere");
    assert_eq!(
        error,
        ConfigError::NotFound {
            searched_from: "/tmp/a/b/c".to_string()
        }
    );
}

#[test]
fn project_at_bypasses_discovery() {
    assert!(discover_project("/tmp/blog/nested", "/work", only("/tmp/blog/pressa.yaml")).is_ok());
    let error = project_at("/tmp/blog/nested", "/work", only("/tmp/blog/pressa.yaml")).expect_err("does not walk up");
    assert!(matches!(error, ConfigError::NotFound { .. }), "{error:?}");
}

#[test]
fn project_at_accepts_a_directory_that_holds_the_config() {
    let paths = project_at("/tmp/blog", "/work", only("/tmp/blog/pressa.yaml")).expect("right there");
    assert_eq!(paths.root, "/tmp/blog");
    assert_eq!(paths.config, joined("/tmp/blog", "pressa.yaml"));
}

#[test]
fn a_relative_project_is_resolved_against_the_working_directory() {
    let paths = resolve_project(Some("site"), "/home/me", only("/home/me/site/pressa.yaml")).expect("found");
    assert_eq!(paths.root, "/home/me/site");
    let absolute = resolve_project(Some("/srv/site"), "/home/me", only("/srv/site/pressa.yaml")).expect("found");
    assert_eq!(absolute.root, "/srv/site");
    let walked = resolve_project(None, "/home/me/site/posts", only("/home/me/site/pressa.yaml")).expect("found");
    assert_eq!(walked.root, "/home/me/site");
}

#[test]
fn paths_join_as_the_standard_library_joins_them() {
    for (base, name) in [("/a", "b"), ("/a/", "b"), ("a", "/b"), ("", "b"), (".", "site"), ("/a", "")] {
        let paths = resolve_project(Some(name), base, |_: &String| true).expect("accepted");
        assert_eq!(paths.root, joined(base, name));
        assert_eq!(paths.config, joined(&joined(base, name), "pressa.yaml"));
    }
}

#[test]
fn counted_pluralises_on_its_own_count() {
    assert_eq!(counted(0, "collection"), "0 collections");
    assert_eq!(counted(1, "collection"), "1 collection");
    assert_eq!(counted(3, "field"), "3 fields");
}

#[test]
fn validate_pluralises_both_nouns_independently() {
    let field = |name: &str| RawField {
        name: name.to_string(),
        label: None,
        kind: "text".to_string(),
        required: false,
        unique: false,
        options: None,
    };
    let schema = validate(RawSchema {
        project: RawProject {
            name: "two".to_string(),
        },
        database: RawDatabase { path: None },
        collections: vec![
            (
                "posts".to_string(),
                RawCollection {
                    label: None,
                    list_columns: None,
                    fields: vec![field("title"), field("slug")],
                },
            ),
            (
                "authors".to_string(),
                RawCollection {
                    label: None,
                    list_columns: None,
                    fields: vec![field("name")],
                },
            ),
        ],
    })
    .expect("valid");
    assert_eq!(validate_summary(&schema), "schema ok: 2 collections, 3 fields");
}

#[test]
fn init_names_the_directory_as_typed_minus_a_leading_dot_slash() {
    assert_eq!(
        scaffold_report(None),
        "created pressa.yaml\ncreated .pressa/\nrun `pressa` to open it"
    );
    assert_eq!(
        scaffold_report(Some("./site")),
        "created site/pressa.yaml\ncreated site/.pressa/\nrun `pressa --project site` to open it"
    );
}

#[test]
fn no_subcommand_means_dev() {
    let cli = Cli {
        project: None,
        log_level: LogLevel::Info,
        command: None,
    };
    assert_eq!(cli.command_or_dev(), Command::Dev);
    let init = Cli {
        command: Some(Command::Init),
        ..cli
    };
    assert_eq!(init.command_or_dev(), Command::Init);
}

#[test]
fn log_errors_read_as_one_line() {
    let error = LogError::CreateDir {
        path: "/x/.pressa".to_string(),
        message: "denied".to_string(),
    };
    assert_eq!(error.message(), "could not create /x/.pressa");
    assert_eq!(LogError::AlreadyInitialised.message(), "tracing has already been initialised");
}

#[test]
fn resolve_project_discovers_upward_from_a_nested_directory() {
    let paths = resolve_project(None, "/tmp/resolve/a/b/c", only("/tmp/resolve/pressa.yaml"))
        .expect("discovery finds the project above");
    assert_eq!(paths.config, joined("/tmp/resolve", "pressa.yaml"));
}

#[test]
fn resolve_project_with_project_bypasses_discovery() {
    let both = |path: &String| path == "/tmp/resolve/pressa.yaml" || path == "/tmp/resolve/other/pressa.yaml";
    let paths = resolve_project(Some("/tmp/resolve/other"), "/tmp/resolve", both).expect("--project wins");
    assert_eq!(paths.root, "/tmp/resolve/other");
}

#[test]
fn resolve_project_reports_a_missing_project() {
    let error = resolve_project(None, "/tmp/resolve", |_: &String| false).expect_err("there is no project here");
    assert!(matches!(error, ConfigError::NotFound { .. }), "error was: {error:?}");
    assert!(error.message().contains("no pressa.yaml found"));
}

#[test]
fn a_relative_start_is_resolved_against_the_working_directory() {
    let config = "/work/pressa-app/../examples/blog/pressa.yaml";
    let paths = discover_project("../examples/blog", "/work/pressa-app", |path: &String| path == config)
        .expect("the example project");
    assert!(paths.root.starts_with('/'), "{:?}", paths.root);
    assert!(paths.root.ends_with("examples/blog"), "{:?}", paths.root);
    assert_eq!(paths.config, config);
}

#[test]
fn a_path_is_made_absolute_as_the_standard_library_makes_it() {
    for path in ["/a/./b", "/a//b/", "/a/../b", "/", "//x/y", "///x", "/a/b/.", "/./", "/x/y//"] {
        let expected = std::path::absolute(path).expect("absolute").to_string_lossy().into_owned();
        assert_eq!(absolute_path("/cwd", path), Some(expected), "{path:?}");
    }
    assert_eq!(absolute_path("/home/me", "site"), Some("/home/me/site".to_string()));
    assert_eq!(absolute_path("/home/me", "./site/./posts"), Some("/home/me/site/posts".to_string()));
    assert_eq!(absolute_path("/home/me", "."), Some("/home/me".to_string()));
    assert_eq!(absolute_path("/home/me", "./"), Some("/home/me/".to_string()));
    assert_eq!(absolute_path("/", "a"), Some("/a".to_string()));
    assert_eq!(absolute_path("/home/me", ""), None);
}

#[test]
fn discovery_names_the_normalised_start_when_nothing_is_found() {
    let error = discover_project("/a/./b", "/work", |_: &String| false).expect_err("nothing");
    assert_eq!(error, ConfigError::NotFound { searched_from: "/a/b".to_string() });
    let error = project_at("site//", "/home/me", |_: &String| false).expect_err("nothing");
    assert_eq!(error, ConfigError::NotFound { searched_from: "/home/me/site/".to_string() });
    let error = discover_project("", "/work", |_: &String| false).expect_err("empty");
    assert_eq!(error.message(), ": cannot make an empty path absolute");
}
