//! The command line: what was asked for, and the words printed back.
//!
//! Reading argv, the filesystem and the terminal happens outside this crate;
//! this module holds the parsed command and every message the command line
//! composes.

use vstd::prelude::*;

use crate::config::ConfigError;
use crate::discovery::{absolute_of, discover_project, project_at, join_path, joined_path, ProjectPaths, EMPTY_PATH};
use crate::schema::{Schema, SchemaView};
use crate::text::{decimal, push_decimal, owned, chars_of, push_chars};

verus! {

/// The subcommands. Absent means `Dev`.
#[derive(Clone, Copy, Debug, PartialEq, Eq, Structural)]
pub enum Command {
    /// Open the TUI for this project.
    Dev,
    /// Scaffold `pressa.yaml` and `.pressa/` in this directory.
    Init,
    /// Load and check the schema, then report.
    Validate,
}

/// Verbosity of the project's log file.
#[derive(Clone, Copy, Debug, PartialEq, Eq, Structural)]
pub enum LogLevel {
    Trace,
    Debug,
    Info,
    Warn,
    Error,
}

/// The parsed command line.
#[derive(Debug, PartialEq, Eq)]
pub struct Cli {
    /// Use this project directory instead of searching upward.
    pub project: Option<String>,
    pub log_level: LogLevel,
    /// Absent means `Dev` — `pressa` and `pressa dev` are the same command.
    pub command: Option<Command>,
}

impl Cli {
    /// The subcommand to run: `Dev` when none was named.
    pub fn command_or_dev(&self) -> (c: Command)
        ensures
            c == match self.command {
                Some(c) => c,
                None => Command::Dev,
            },
    {
        match self.command {
            Some(c) => c,
            None => Command::Dev,
        }
    }
}

/// `1 collection`, `3 collections`: the noun gets an `s` unless there is
/// exactly one.
pub open spec fn counted_text(n: nat, noun: Seq<char>) -> Seq<char> {
    if n == 1 {
        decimal(n) + " "@ + noun
    } else {
        decimal(n) + " "@ + noun + "s"@
    }
}

/// `1 collection`, `3 collections` — each noun pluralises on its own count.
pub fn counted(n: usize, noun: &str) -> (r: String)
    ensures
        r@ == counted_text(n as nat, noun@),
{
    let mut r = String::new();
    push_decimal(&mut r, n as u64);
    r.append(" ");
    r.append(noun);
    if n != 1 {
        r.append("s");
    }
    r
}

/// The total number of fields across `schema`'s collections.
pub open spec fn field_total(collections: Seq<crate::schema::CollectionView>) -> nat
    decreases collections.len(),
{
    if collections.len() == 0 {
        0
    } else {
        field_total(collections.drop_last()) + collections.last().fields.len()
    }
}

/// The line `pressa validate` prints for a schema that loaded.
pub open spec fn summary_text(schema: SchemaView) -> Seq<char> {
    "schema ok: "@ + counted_text(schema.collections.len(), "collection"@) + ", "@
        + counted_text(field_total(schema.collections), "field"@)
}

/// `schema ok: 2 collections, 3 fields` — what `pressa validate` prints,
/// each noun pluralised on its own count.
pub fn validate_summary(schema: &Schema) -> (r: String)
    requires
        field_total(schema@.collections) <= usize::MAX,
    ensures
        r@ == summary_text(schema@),
{
    let mut total: usize = 0;
    let n = schema.collection_count();
    let mut i: usize = 0;
    while i < n
        invariant
            0 <= i <= n,
            n == schema@.collections.len(),
            field_total(schema@.collections) <= usize::MAX,
            total as nat == field_total(schema@.collections.take(i as int)),
        decreases n - i,
    {
        assert(schema@.collections.take(i + 1).drop_last() =~= schema@.collections.take(i as int));
        proof {
            lemma_field_total_prefix(schema@.collections, i as int + 1);
        }
        total = total + schema.collection_at(i).fields.len();
        i = i + 1;
    }
    assert(schema@.collections.take(n as int) =~= schema@.collections);
    let mut r = owned("schema ok: ");
    r.append(counted(n, "collection").as_str());
    r.append(", ");
    r.append(counted(total, "field").as_str());
    r
}

proof fn lemma_field_total_prefix(collections: Seq<crate::schema::CollectionView>, n: int)
    requires
        0 <= n <= collections.len(),
    ensures
        field_total(collections.take(n)) <= field_total(collections),
    decreases collections.len() - n,
{
    if n < collections.len() {
        lemma_field_total_prefix(collections, n + 1);
        assert(collections.take(n + 1).drop_last() =~= collections.take(n));
    } else {
        assert(collections.take(n) =~= collections);
    }
}

/// What `pressa init` prints on success. The directory is named the way the
/// user typed it, minus a leading `./`.
pub open spec fn scaffold_text(project: Option<Seq<char>>) -> Seq<char> {
    match project {
        None => "created pressa.yaml\ncreated .pressa/\nrun `pressa` to open it"@,
        Some(dir) => {
            let d = if dir.len() >= 2 && dir[0] == '.' && dir[1] == '/' { dir.skip(2) } else { dir };
            "created "@ + d + "/pressa.yaml\ncreated "@ + d + "/.pressa/\nrun `pressa --project "@ + d + "` to open it"@
        },
    }
}

/// What `init` prints on success.
pub fn scaffold_report(project: Option<&str>) -> (r: String)
    ensures
        r@ == scaffold_text(match project { Some(p) => Some(p@), None => None }),
{
    match project {
        None => owned("created pressa.yaml\ncreated .pressa/\nrun `pressa` to open it"),
        Some(dir) => {
            let chars = chars_of(dir);
            let mut d: Vec<char> = Vec::new();
            let start: usize = if chars.len() >= 2 && chars[0] == '.' && chars[1] == '/' { 2 } else { 0 };
            let mut i = start;
            while i < chars.len()
                invariant
                    start <= i <= chars.len(),
                    d@ == chars@.subrange(start as int, i as int),
                decreases chars.len() - i,
            {
                d.push(chars[i]);
                assert(chars@.subrange(start as int, i + 1) =~= chars@.subrange(start as int, i as int).push(chars@[i as int]));
                i = i + 1;
            }
            assert(chars@ == dir@);
            assert(start == 0 ==> d@ =~= dir@);
            assert(start == 2 ==> d@ =~= dir@.skip(2));
            let mut r = owned("created ");
            push_chars(&mut r, &d);
            r.append("/pressa.yaml\ncreated ");
            push_chars(&mut r, &d);
            r.append("/.pressa/\nrun `pressa --project ");
            push_chars(&mut r, &d);
            r.append("` to open it");
            r
        },
    }
}

/// Resolves the project: `project_at` when `--project` was given (joined
/// onto `cwd`, never onto anything else), `discover_project` from `cwd`
/// otherwise. `cwd` is the working directory both are made absolute
/// against.
pub fn resolve_project<F: Fn(&String) -> bool>(project: Option<&str>, cwd: &str, is_file: F) -> (r: Result<ProjectPaths, ConfigError>)
    requires
        forall|path: &String| is_file.requires((path,)),
    ensures
        ({
            let target = match project {
                Some(dir) => joined_path(cwd@, dir@),
                None => cwd@,
            };
            match absolute_of(cwd@, target) {
                None => r matches Err(e) && e@ == (crate::config::ConfigErrorView::Io { path: target, message: EMPTY_PATH@ }),
                Some(a) => match project {
                    Some(_) => match r {
                        Ok(p) => p@ == crate::discovery::rooted(a) && is_file.ensures((&p.config,), true),
                        Err(e) => e@ == (crate::config::ConfigErrorView::NotFound { searched_from: a })
                            && crate::discovery::refused(is_file, a),
                    },
                    None => match r {
                        Ok(p) => crate::discovery::nearest(is_file, a, p@.root)
                            && p@ == crate::discovery::rooted(p@.root)
                            && is_file.ensures((&p.config,), true),
                        Err(e) => e@ == (crate::config::ConfigErrorView::NotFound { searched_from: a })
                            && forall|n: nat| #[trigger] crate::discovery::refused_at(is_file, a, n),
                    },
                },
            }
        }),
{
    match project {
        Some(dir) => {
            let target = join_path(cwd, dir);
            let r = project_at(target.as_str(), cwd, is_file);
            assert(target@ == joined_path(cwd@, dir@));
            r
        },
        None => discover_project(cwd, cwd, is_file),
    }
}

/// The field count of a schema adds up the fields of each collection: one
/// collection counts its own fields, and two lists of collections count
/// their sum.
pub proof fn fields_add_up(a: Seq<crate::schema::CollectionView>, b: Seq<crate::schema::CollectionView>, c: crate::schema::CollectionView)
    ensures
        field_total(seq![c]) == c.fields.len(),
        field_total(a + b) == field_total(a) + field_total(b),
    decreases b.len(),
{
    assert(seq![c].drop_last() =~= Seq::<crate::schema::CollectionView>::empty());
    assert(seq![c].last() == c);
    assert(field_total(Seq::<crate::schema::CollectionView>::empty()) == 0);
    assert(field_total(seq![c]) == field_total(seq![c].drop_last()) + seq![c].last().fields.len());
    if b.len() == 0 {
        assert(a + b =~= a);
    } else {
        fields_add_up(a, b.drop_last(), c);
        assert((a + b).drop_last() =~= a + b.drop_last());
        assert((a + b).last() == b.last());
    }
}

} // verus!
