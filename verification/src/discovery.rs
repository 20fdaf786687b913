//! Finding the project root, the way git finds `.git`: walk up from a
//! directory until one holds `pressa.yaml`.
//!
//! Paths are handled as text; joining and taking a parent go through
//! `std::path`, and whether a file exists is asked of the caller, who owns
//! the filesystem.

use vstd::prelude::*;

use crate::config::{ConfigError, ConfigErrorView};
use crate::text::{chars_of, owned, string_of};

verus! {

/// The schema file that marks a directory as a pressa project.
pub const CONFIG_FILE: &'static str = "pressa.yaml";
/// Everything pressa generates lives here, next to the schema file.
pub const DATA_DIR: &'static str = ".pressa";
pub const DATABASE_FILE: &'static str = "data.db";
pub const LOG_FILE: &'static str = "pressa.log";


/// What `Path::parent` makes of `path`.
pub uninterp spec fn parent_path(path: Seq<char>) -> Option<Seq<char>>;


/// `Path::parent`, as text. The parent is the path without its last
/// component, so it is shorter than the path itself.
#[verifier::external_body]
fn parent_of(path: &str) -> (r: Option<String>)
    ensures
        match r {
            Some(p) => parent_path(path@) == Some(p@) && p@.len() < path@.len(),
            None => parent_path(path@) is None,
        },
{
    std::path::Path::new(path).parent().map(|p| p.to_string_lossy().into_owned())
}

// ---------------------------------------------------------------------------
// Making a path absolute
// ---------------------------------------------------------------------------

/// What is reported of an empty path, which has no absolute form.
pub const EMPTY_PATH: &'static str = "cannot make an empty path absolute";

/// A piece of a path between separators, unless it says nothing: empty
/// pieces (repeated separators) and `.` are dropped.
pub open spec fn kept(piece: Seq<char>) -> Seq<Seq<char>> {
    if piece.len() == 0 || piece == seq!['.'] {
        Seq::empty()
    } else {
        seq![piece]
    }
}

/// The names of `path` from position `i` on, `current` being the part of a
/// name read before `i`.
pub open spec fn names_from(path: Seq<char>, i: int, current: Seq<char>) -> Seq<Seq<char>>
    decreases path.len() - i,
{
    if i >= path.len() {
        kept(current)
    } else if path[i] == '/' {
        kept(current) + names_from(path, i + 1, Seq::empty())
    } else {
        names_from(path, i + 1, current.push(path[i]))
    }
}

/// The names a path is made of: what lies between its separators, less the
/// empty pieces and `.`. A `..` is kept: nothing is resolved.
pub open spec fn path_names(path: Seq<char>) -> Seq<Seq<char>> {
    names_from(path, 0, Seq::empty())
}

/// `name` appended to `base` as one more component: with a separator unless
/// `base` is empty or already ends in one.
pub open spec fn push_name(base: Seq<char>, name: Seq<char>) -> Seq<char> {
    if base.len() > 0 && base.last() != '/' {
        base.push('/') + name
    } else {
        base + name
    }
}

/// `names` appended to `base` one after another.
pub open spec fn pushed(base: Seq<char>, names: Seq<Seq<char>>) -> Seq<char>
    decreases names.len(),
{
    if names.len() == 0 {
        base
    } else {
        push_name(pushed(base, names.drop_last()), names.last())
    }
}

/// Where the absolute form of a non-empty `path` starts: the working
/// directory for a relative path; for an absolute one its root, which is
/// `//` when the path starts with exactly two separators.
pub open spec fn start_of(cwd: Seq<char>, path: Seq<char>) -> Seq<char> {
    if path[0] == '/' {
        if path.len() >= 2 && path[1] == '/' && !(path.len() >= 3 && path[2] == '/') {
            seq!['/', '/']
        } else {
            seq!['/']
        }
    } else {
        cwd
    }
}

/// The absolute form of `path` with `cwd` as the working directory, made
/// lexically as `std::path::absolute` makes it on POSIX systems: a relative
/// path is put under `cwd`, `.` and repeated separators are dropped, `..`
/// and a trailing separator are kept. An empty path has none.
pub open spec fn absolute_of(cwd: Seq<char>, path: Seq<char>) -> Option<Seq<char>> {
    if path.len() == 0 {
        None
    } else {
        let joined = pushed(start_of(cwd, path), path_names(path));
        Some(if path.last() == '/' { push_name(joined, Seq::empty()) } else { joined })
    }
}

/// Appends `name` to `out` as one more component.
fn push_name_to(out: &mut Vec<char>, name: &Vec<char>)
    ensures
        final(out)@ == push_name(old(out)@, name@),
{
    if out.len() > 0 && out[out.len() - 1] != '/' {
        out.push('/');
    }
    let ghost before = out@;
    let mut i: usize = 0;
    while i < name.len()
        invariant
            0 <= i <= name.len(),
            out@ == before + name@.take(i as int),
        decreases name.len() - i,
    {
        out.push(name[i]);
        assert(name@.take(i + 1) =~= name@.take(i as int).push(name@[i as int]));
        i = i + 1;
    }
    assert(name@.take(name.len() as int) =~= name@);
    assert(out@ =~= push_name(old(out)@, name@));
}

/// Whether a piece of a path says nothing.
fn dropped(piece: &Vec<char>) -> (b: bool)
    ensures
        b == (kept(piece@).len() == 0),
{
    let b = piece.len() == 0 || (piece.len() == 1 && piece[0] == '.');
    if piece.len() == 1 && piece[0] == '.' {
        assert(piece@ =~= seq!['.']);
    }
    if !b {
        assert(piece@ != seq!['.']) by {
            if piece@ =~= seq!['.'] {
                assert(piece@[0] == '.');
            }
        }
    }
    b
}

/// The absolute form of `path`, `cwd` being the working directory; `None`
/// for the empty path.
pub fn absolute_path(cwd: &str, path: &str) -> (r: Option<String>)
    ensures
        match r {
            Some(a) => absolute_of(cwd@, path@) == Some(a@),
            None => absolute_of(cwd@, path@) is None,
        },
{
    let p = chars_of(path);
    if p.len() == 0 {
        return None;
    }
    let mut out: Vec<char> = if p[0] == '/' {
        if p.len() >= 2 && p[1] == '/' && !(p.len() >= 3 && p[2] == '/') {
            vec!['/', '/']
        } else {
            vec!['/']
        }
    } else {
        chars_of(cwd)
    };
    let ghost base = start_of(cwd@, path@);
    assert(out@ =~= base);
    let ghost mut names: Seq<Seq<char>> = Seq::empty();
    let mut current: Vec<char> = Vec::new();
    let mut i: usize = 0;
    while i < p.len()
        invariant
            0 <= i <= p.len(),
            p@ == path@,
            out@ == pushed(base, names),
            names + names_from(p@, i as int, current@) == path_names(p@),
        decreases p.len() - i,
    {
        let ghost rest = names_from(p@, i + 1, Seq::empty());
        if p[i] == '/' {
            if !dropped(&current) {
                push_name_to(&mut out, &current);
                proof {
                    assert(names.push(current@).drop_last() =~= names);
                    assert(kept(current@) =~= seq![current@]);
                    assert(names.push(current@) + rest =~= names + (kept(current@) + rest));
                    names = names.push(current@);
                }
            } else {
                assert(names + rest =~= names + (kept(current@) + rest));
            }
            current = Vec::new();
        } else {
            current.push(p[i]);
        }
        i = i + 1;
    }
    if !dropped(&current) {
        push_name_to(&mut out, &current);
        proof {
            assert(names.push(current@).drop_last() =~= names);
            assert(names.push(current@) =~= names + kept(current@));
            names = names.push(current@);
        }
    } else {
        assert(names =~= names + kept(current@));
    }
    assert(names == path_names(path@));
    if p[p.len() - 1] == '/' {
        let empty: Vec<char> = Vec::new();
        push_name_to(&mut out, &empty);
    }
    Some(string_of(&out))
}

/// What `Path::join` makes of `base` and `name`: an absolute `name`
/// replaces `base`; otherwise `name` is appended as one more component.
pub open spec fn joined_path(base: Seq<char>, name: Seq<char>) -> Seq<char> {
    if name.len() > 0 && name[0] == '/' {
        name
    } else {
        push_name(base, name)
    }
}

/// `Path::join`, as text.
pub(crate) fn join_path(base: &str, name: &str) -> (r: String)
    ensures
        r@ == joined_path(base@, name@),
{
    let n = chars_of(name);
    if n.len() > 0 && n[0] == '/' {
        return string_of(&n);
    }
    let mut out = chars_of(base);
    push_name_to(&mut out, &n);
    string_of(&out)
}

/// Every path derived from the project root.
#[derive(Debug, PartialEq, Eq)]
pub struct ProjectPaths {
    pub root: String,
    /// `<root>/pressa.yaml`
    pub config: String,
    /// `<root>/.pressa`
    pub data_dir: String,
    pub database: String,
    pub log: String,
}

pub struct ProjectPathsView {
    pub root: Seq<char>,
    pub config: Seq<char>,
    pub data_dir: Seq<char>,
    pub database: Seq<char>,
    pub log: Seq<char>,
}

impl View for ProjectPaths {
    type V = ProjectPathsView;

    open spec fn view(&self) -> ProjectPathsView {
        ProjectPathsView {
            root: self.root@,
            config: self.config@,
            data_dir: self.data_dir@,
            database: self.database@,
            log: self.log@,
        }
    }
}

/// The paths of a project rooted at `root`.
pub open spec fn rooted(root: Seq<char>) -> ProjectPathsView {
    let data_dir = joined_path(root, DATA_DIR@);
    ProjectPathsView {
        root,
        config: joined_path(root, CONFIG_FILE@),
        data_dir,
        database: joined_path(data_dir, DATABASE_FILE@),
        log: joined_path(data_dir, LOG_FILE@),
    }
}

impl ProjectPaths {
    /// Derives the whole set from a project root.
    pub fn rooted_at(root: String) -> (p: ProjectPaths)
        ensures
            p@ == rooted(root@),
    {
        let data_dir = join_path(root.as_str(), DATA_DIR);
        ProjectPaths {
            config: join_path(root.as_str(), CONFIG_FILE),
            database: join_path(data_dir.as_str(), DATABASE_FILE),
            log: join_path(data_dir.as_str(), LOG_FILE),
            data_dir,
            root,
        }
    }
}

/// The directory `n` steps up from `start`, if the walk gets that far.
pub open spec fn ancestor(start: Seq<char>, n: nat) -> Option<Seq<char>>
    decreases n,
{
    if n == 0 {
        Some(start)
    } else {
        match ancestor(start, (n - 1) as nat) {
            Some(dir) => parent_path(dir),
            None => None,
        }
    }
}

/// Whether `is_file` said no to the config path of `dir`.
pub open spec fn refused<F: Fn(&String) -> bool>(is_file: F, dir: Seq<char>) -> bool {
    exists|path: String| #[trigger] is_file.ensures((&path,), false) && path@ == joined_path(dir, CONFIG_FILE@)
}

/// Whether `is_file` refused the config path `n` steps up from `start`, or
/// the walk never gets that far.
pub open spec fn refused_at<F: Fn(&String) -> bool>(is_file: F, start: Seq<char>, n: nat) -> bool {
    match ancestor(start, n) {
        Some(d) => refused(is_file, d),
        None => true,
    }
}

/// Whether `root` is `n` steps up from `start` for some `n`, with every
/// config path below it refused.
pub open spec fn nearest<F: Fn(&String) -> bool>(is_file: F, start: Seq<char>, root: Seq<char>) -> bool {
    exists|n: nat| ancestor(start, n) == Some(root) && forall|k: nat| k < n ==> #[trigger] refused_at(is_file, start, k)
}

/// Once the walk runs out of parents, it stays out.
proof fn lemma_ancestor_stays_none(start: Seq<char>, n: nat, m: nat)
    requires
        ancestor(start, n) is None,
        n <= m,
    ensures
        ancestor(start, m) is None,
    decreases m - n,
{
    if n < m {
        lemma_ancestor_stays_none(start, n, (m - 1) as nat);
    }
}

/// Walks up from `start`, made absolute against `cwd`, looking for
/// `pressa.yaml`, stopping after the filesystem root. `is_file` answers
/// whether a path names a file.
///
/// On success the root is the nearest of that absolute start and its
/// ancestors whose config path `is_file` accepted: it refused every one
/// below. Otherwise it refused them all, up to the root, and the error names
/// the absolute start. An empty start has no absolute form and is an I/O
/// error.
pub fn discover_project<F: Fn(&String) -> bool>(start: &str, cwd: &str, is_file: F) -> (r: Result<ProjectPaths, ConfigError>)
    requires
        forall|path: &String| is_file.requires((path,)),
    ensures
        match absolute_of(cwd@, start@) {
            None => r matches Err(e) && e@ == (ConfigErrorView::Io { path: start@, message: EMPTY_PATH@ }),
            Some(a) => match r {
                Ok(p) => nearest(is_file, a, p@.root)
                    && p@ == rooted(p@.root)
                    && is_file.ensures((&p.config,), true),
                Err(e) => e@ == (ConfigErrorView::NotFound { searched_from: a })
                    && forall|n: nat| #[trigger] refused_at(is_file, a, n),
            },
        },
{
    let absolute = match absolute_path(cwd, start) {
        Some(a) => a,
        None => {
            return Err(ConfigError::Io { path: owned(start), message: owned(EMPTY_PATH) });
        },
    };
    let ghost a = absolute@;
    let mut candidate: Option<String> = Some(owned(absolute.as_str()));
    let ghost mut steps: nat = 0;
    loop
        invariant
            forall|path: &String| is_file.requires((path,)),
            absolute@ == a,
            absolute_of(cwd@, start@) == Some(a),
            match candidate {
                Some(dir) => ancestor(a, steps) == Some(dir@),
                None => ancestor(a, steps) is None,
            },
            forall|k: nat| k < steps ==> #[trigger] refused_at(is_file, a, k),
        decreases match candidate {
            Some(dir) => dir@.len() + 1,
            None => 0,
        },
    {
        match candidate {
            None => {
                proof {
                    assert forall|n: nat| #[trigger] refused_at(is_file, a, n) by {
                        if n >= steps {
                            lemma_ancestor_stays_none(a, steps, n);
                        }
                    }
                }
                return Err(ConfigError::NotFound { searched_from: absolute });
            },
            Some(dir) => {
                let ghost here = dir@;
                let paths = ProjectPaths::rooted_at(dir);
                if is_file(&paths.config) {
                    assert(ancestor(a, steps) == Some(paths@.root));
                    assert(nearest(is_file, a, paths@.root));
                    return Ok(paths);
                }
                assert(refused(is_file, here));
                let next = parent_of(paths.root.as_str());
                proof {
                    assert forall|k: nat| k < steps + 1 implies #[trigger] refused_at(is_file, a, k) by {
                        if k == steps {
                            assert(ancestor(a, k) == Some(here));
                        }
                    }
                    steps = steps + 1;
                }
                candidate = next;
            },
        }
    }
}

/// `--project <dir>`: the schema must be in *this* directory, made absolute
/// against `cwd`. No walking up.
pub fn project_at<F: Fn(&String) -> bool>(dir: &str, cwd: &str, is_file: F) -> (r: Result<ProjectPaths, ConfigError>)
    requires
        forall|path: &String| is_file.requires((path,)),
    ensures
        match absolute_of(cwd@, dir@) {
            None => r matches Err(e) && e@ == (ConfigErrorView::Io { path: dir@, message: EMPTY_PATH@ }),
            Some(a) => match r {
                Ok(p) => p@ == rooted(a) && is_file.ensures((&p.config,), true),
                Err(e) => e@ == (ConfigErrorView::NotFound { searched_from: a }) && refused(is_file, a),
            },
        },
{
    let root = match absolute_path(cwd, dir) {
        Some(a) => a,
        None => {
            return Err(ConfigError::Io { path: owned(dir), message: owned(EMPTY_PATH) });
        },
    };
    let paths = ProjectPaths::rooted_at(owned(root.as_str()));
    if is_file(&paths.config) {
        Ok(paths)
    } else {
        Err(ConfigError::NotFound { searched_from: root })
    }
}

} // verus!
