//! Recognising a loco-rs project directory from what the file system shows,
//! and reading the project's name from its manifest text.
use crate::field::{is_prefix, split_char, split_from, BindingError};
use crate::text::{trim, trimmed};
use vstd::prelude::*;

verus! {

/// Path `a` extended by the relative component `b`, as `Path::join` writes it.
pub open spec fn join(a: Seq<char>, b: Seq<char>) -> Seq<char> {
    if a.len() == 0 {
        b
    } else if a.last() == '/' {
        a + b
    } else {
        a + "/"@ + b
    }
}

pub fn join_path(a: &str, b: &str) -> (r: String)
    ensures
        r@ == join(a@, b@),
{
    let n = a.unicode_len();
    if n == 0 {
        b.to_string()
    } else if a.get_char(n - 1) == '/' {
        let mut s = a.to_string();
        s.append(b);
        s
    } else {
        let mut s = a.to_string();
        s.append("/");
        s.append(b);
        s
    }
}

/// What the file system shows of a candidate project directory.
#[derive(Debug, Clone, Copy)]
pub struct ProjectProbe {
    pub exists: bool,
    pub has_cargo_toml: bool,
    pub has_src: bool,
    pub has_main_rs: bool,
}

/// What the file system shows of a project's database parts.
#[derive(Debug, Clone, Copy)]
pub struct DatabaseProbe {
    pub migration_src_exists: bool,
    pub models_exist: bool,
}

pub open spec fn probe_ok(p: ProjectProbe) -> bool {
    p.exists && p.has_cargo_toml && p.has_src && p.has_main_rs
}

/// Why a directory is not a project: the first missing part, in the order
/// directory, `Cargo.toml`, `src`, `src/main.rs`.
pub open spec fn detect_message(path: Seq<char>, p: ProjectProbe) -> Seq<char> {
    if !p.exists {
        "Directory does not exist: "@ + path
    } else if !p.has_cargo_toml {
        "Not a valid loco-rs project directory: "@ + path + " (Cargo.toml not found)"@
    } else if !p.has_src {
        "Invalid loco-rs project: src directory not found in "@ + path
    } else {
        "Invalid loco-rs project: src/main.rs not found in "@ + path
    }
}

/// The places of a loco-rs project.
#[derive(Debug, Clone)]
pub struct LocoProjectInfo {
    pub root_path: String,
    pub src_path: String,
    pub src_models_path: String,
    pub src_controllers_path: String,
    pub src_views_path: String,
    pub src_routes_path: String,
    pub migration_src_path: String,
}

pub open spec fn layout_ok(info: LocoProjectInfo, root: Seq<char>) -> bool {
    let src = join(root, "src"@);
    &&& info.root_path@ == root
    &&& info.src_path@ == src
    &&& info.src_models_path@ == join(src, "models"@)
    &&& info.src_controllers_path@ == join(src, "controllers"@)
    &&& info.src_views_path@ == join(src, "views"@)
    &&& info.src_routes_path@ == join(src, "routes"@)
    &&& info.migration_src_path@ == join(join(root, "migration"@), "src"@)
}

fn message(a: &str, b: &str, c: &str) -> (r: String)
    ensures
        r@ == a@ + b@ + c@,
{
    let mut s = a.to_string();
    s.append(b);
    s.append(c);
    s
}

impl LocoProjectInfo {
    /// Accepts a directory that exists and holds `Cargo.toml` and
    /// `src/main.rs`, and lays out the project's places under it.
    pub fn detect(project_path: &str, probe: &ProjectProbe) -> (r: Result<LocoProjectInfo, BindingError>)
        ensures
            r is Ok <==> probe_ok(*probe),
            r is Ok ==> layout_ok(r->Ok_0, project_path@),
            r is Err ==> r->Err_0->Validation_0@ == detect_message(project_path@, *probe),
    {
        proof {
            reveal_strlit("");
        }
        if !probe.exists {
            return Err(BindingError::Validation(message("Directory does not exist: ", project_path, "")));
        }
        if !probe.has_cargo_toml {
            return Err(
                BindingError::Validation(
                    message(
                        "Not a valid loco-rs project directory: ",
                        project_path,
                        " (Cargo.toml not found)",
                    ),
                ),
            );
        }
        if !probe.has_src {
            return Err(
                BindingError::Validation(
                    message("Invalid loco-rs project: src directory not found in ", project_path, ""),
                ),
            );
        }
        if !probe.has_main_rs {
            return Err(
                BindingError::Validation(
                    message("Invalid loco-rs project: src/main.rs not found in ", project_path, ""),
                ),
            );
        }
        let src = join_path(project_path, "src");
        let migration = join_path(project_path, "migration");
        Ok(LocoProjectInfo {
            root_path: project_path.to_string(),
            src_models_path: join_path(src.as_str(), "models"),
            src_controllers_path: join_path(src.as_str(), "controllers"),
            src_views_path: join_path(src.as_str(), "views"),
            src_routes_path: join_path(src.as_str(), "routes"),
            migration_src_path: join_path(migration.as_str(), "src"),
            src_path: src,
        })
    }

    /// A project has a database when it has migrations or models.
    pub fn has_database_support(&self, db: &DatabaseProbe) -> (r: bool)
        ensures
            r == (db.migration_src_exists || db.models_exist),
    {
        db.migration_src_exists || db.models_exist
    }
}

/// Accepts a project directory that also has database support.
pub fn validate_loco_project(project_path: &str, probe: &ProjectProbe, db: &DatabaseProbe) -> (r: Result<
    LocoProjectInfo,
    BindingError,
>)
    ensures
        r is Ok <==> (probe_ok(*probe) && (db.migration_src_exists || db.models_exist)),
        r is Ok ==> layout_ok(r->Ok_0, project_path@),
        !probe_ok(*probe) ==> r is Err && r->Err_0->Validation_0@ == detect_message(
            project_path@,
            *probe,
        ),
        probe_ok(*probe) && !(db.migration_src_exists || db.models_exist) ==> r is Err
            && r->Err_0->Validation_0@
            == "Project does not appear to have database support enabled. Enable the 'with-db' feature."@,
{
    let info = match LocoProjectInfo::detect(project_path, probe) {
        Err(e) => return Err(e),
        Ok(info) => info,
    };
    if !info.has_database_support(db) {
        return Err(
            BindingError::validation(
                "Project does not appear to have database support enabled. Enable the 'with-db' feature.",
            ),
        );
    }
    Ok(info)
}

/// Whether the current directory or one of its ancestors, each probed in
/// turn, is a project.
pub fn is_in_loco_project(ancestors: &Vec<ProjectProbe>) -> (r: bool)
    ensures
        r == exists|i: int| 0 <= i < ancestors@.len() && probe_ok(#[trigger] ancestors@[i]),
{
    let mut i: usize = 0;
    while i < ancestors.len()
        invariant
            i <= ancestors@.len(),
            forall|j: int| 0 <= j < i ==> !probe_ok(#[trigger] ancestors@[j]),
        decreases ancestors@.len() - i,
    {
        let p = &ancestors[i];
        if p.exists && p.has_cargo_toml && p.has_src && p.has_main_rs {
            proof {
                assert(probe_ok(ancestors@[i as int]));
            }
            return true;
        }
        i = i + 1;
    }
    false
}

/// The number of leading characters of `s` that are `c`.
pub open spec fn leading(s: Seq<char>, c: char, i: int) -> int
    decreases s.len() - i,
{
    if i < 0 || i >= s.len() || s[i] != c {
        i
    } else {
        leading(s, c, i + 1)
    }
}

/// The end of `s[..j]` without its trailing run of `c`.
pub open spec fn trailing_end(s: Seq<char>, c: char, lo: int, j: int) -> int
    decreases j - lo,
{
    if j <= lo || s[j - 1] != c {
        j
    } else {
        trailing_end(s, c, lo, j - 1)
    }
}

/// `s` without its leading and trailing double quotes.
pub open spec fn strip_quotes(s: Seq<char>) -> Seq<char> {
    let lo = leading(s, '"', 0);
    s.subrange(lo, trailing_end(s, '"', lo, s.len() as int))
}

proof fn lemma_leading_bounds(s: Seq<char>, c: char, i: int)
    requires
        0 <= i <= s.len(),
    ensures
        i <= leading(s, c, i) <= s.len(),
    decreases s.len() - i,
{
    if i < s.len() && s[i] == c {
        lemma_leading_bounds(s, c, i + 1);
    }
}

proof fn lemma_trailing_bounds(s: Seq<char>, c: char, lo: int, j: int)
    requires
        0 <= lo <= j <= s.len(),
    ensures
        lo <= trailing_end(s, c, lo, j) <= j,
    decreases j - lo,
{
    if j > lo && s[j - 1] == c {
        lemma_trailing_bounds(s, c, lo, j - 1);
    }
}

fn trim_quotes(s: &str) -> (r: String)
    ensures
        r@ == strip_quotes(s@),
{
    let n = s.unicode_len();
    let mut lo: usize = 0;
    while lo < n && s.get_char(lo) == '"'
        invariant
            lo <= n,
            n == s@.len(),
            leading(s@, '"', 0) == leading(s@, '"', lo as int),
        decreases n - lo,
    {
        lo = lo + 1;
    }
    let mut hi: usize = n;
    while hi > lo && s.get_char(hi - 1) == '"'
        invariant
            lo <= hi <= n,
            n == s@.len(),
            lo == leading(s@, '"', 0),
            trailing_end(s@, '"', lo as int, n as int) == trailing_end(s@, '"', lo as int, hi as int),
        decreases hi - lo,
    {
        hi = hi - 1;
    }
    s.substring_char(lo, hi).to_string()
}

/// Index of the first line that starts, after white space, with `name = `,
/// or the number of lines.
pub open spec fn name_line(lines: Seq<Seq<char>>, i: int) -> int
    decreases lines.len() - i,
{
    if i < 0 || i >= lines.len() {
        lines.len() as int
    } else if is_prefix("name = "@, trimmed(lines[i])) {
        i
    } else {
        name_line(lines, i + 1)
    }
}

/// The name on a `name = ` line: the text between its first and second `=`,
/// trimmed and without surrounding double quotes.
pub open spec fn name_on_line(line: Seq<char>) -> Seq<char> {
    strip_quotes(trimmed(split_from(line, '=', 0)[1]))
}

/// Reads the package name from the text of `Cargo.toml`: the name on the
/// first `name = ` line.
pub fn project_name(manifest: &str) -> (r: Result<String, BindingError>)
    ensures
        ({
            let ls = split_from(manifest@, '\n', 0);
            let k = name_line(ls, 0);
            &&& k >= ls.len() ==> r is Err
            &&& k < ls.len() && split_from(ls[k], '=', 0).len() < 2 ==> r is Err
            &&& k < ls.len() && split_from(ls[k], '=', 0).len() >= 2 ==> r is Ok && r->Ok_0@
                == name_on_line(ls[k])
        }),
{
    let lines = split_char(manifest, '\n');
    let ghost ls = split_from(manifest@, '\n', 0);
    let mut i: usize = 0;
    while i < lines.len()
        invariant
            i <= lines@.len(),
            lines@.len() == ls.len(),
            ls == split_from(manifest@, '\n', 0),
            forall|j: int| 0 <= j < lines@.len() ==> #[trigger] lines@[j]@ == ls[j],
            name_line(ls, 0) == name_line(ls, i as int),
        decreases lines@.len() - i,
    {
        proof {
            assert(lines@[i as int]@ == ls[i as int]);
        }
        let t = trim(lines[i].as_str());
        if crate::field::strip_prefix(t, "name = ").is_some() {
            let pieces = split_char(lines[i].as_str(), '=');
            if pieces.len() < 2 {
                return Err(BindingError::validation("Invalid Cargo.toml format"));
            }
            let name = trim_quotes(trim(pieces[1].as_str()));
            return Ok(name);
        }
        i = i + 1;
    }
    Err(BindingError::validation("Project name not found in Cargo.toml"))
}

} // verus!
