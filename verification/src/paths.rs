//! The places in the file system that the connector uses, and the search for
//! the Codex executable.
//!
//! A path is given by the directory that it starts from and the parts that are
//! joined to it. Which directory that is on a machine is for the caller to
//! find out.

use crate::ids::{fresh_uuid, hyphenated_uuid};
use crate::text::concat3;
use vstd::prelude::*;

verus! {

/// Where a path starts.
#[derive(Clone, Copy, Debug, PartialEq, Eq, Structural)]
pub enum PathBase {
    /// The executable that `CODEX_BIN` names.
    CodexOverride,
    /// The directory of the connector's own executable.
    ExecutableDir,
    /// A directory of `PATH`, by its number.
    SearchDir(usize),
    /// Nowhere: the first part is the start.
    Plain,
    /// The home directory of the user.
    Home,
    /// The configuration directory of the connector.
    ConfigDir,
    /// The directory for temporary files.
    TempDir,
}

/// A path.
pub struct PathView {
    pub base: PathBase,
    pub parts: Seq<Seq<char>>,
}

/// A path.
#[derive(Debug, PartialEq, Eq)]
pub struct LocalPath {
    pub base: PathBase,
    pub parts: Vec<String>,
}

impl View for LocalPath {
    type V = PathView;

    open spec fn view(&self) -> PathView {
        PathView { base: self.base, parts: self.parts@.map_values(|part: String| part@) }
    }
}

impl Clone for LocalPath {
    fn clone(&self) -> (path: Self)
        ensures
            path@ == self@,
    {
        let mut parts: Vec<String> = Vec::new();
        for i in 0..self.parts.len()
            invariant
                parts@.len() == i,
                forall|j: int| 0 <= j < i ==> (#[trigger] parts@[j])@ == self.parts@[j]@,
        {
            parts.push(self.parts[i].clone());
        }
        let path = LocalPath { base: self.base, parts };
        assert(path@.parts =~= self@.parts);
        path
    }
}

/// A path that may be absent.
pub open spec fn optional_path(path: Option<LocalPath>) -> Option<PathView> {
    match path {
        Some(path) => Some(path@),
        None => None,
    }
}

impl PathView {
    /// The path with one more part.
    pub open spec fn join(self, part: Seq<char>) -> PathView {
        PathView { base: self.base, parts: self.parts.push(part) }
    }
}

/// The start itself.
pub open spec fn start(base: PathBase) -> PathView {
    PathView { base, parts: Seq::empty() }
}

impl LocalPath {
    /// The start itself.
    pub fn new(base: PathBase) -> (path: Self)
        ensures
            path@ == start(base),
    {
        let path = LocalPath { base, parts: Vec::new() };
        assert(path@.parts =~= Seq::empty());
        path
    }

    /// The path with one more part.
    pub fn join(&self, part: &str) -> (path: Self)
        ensures
            path@ == self@.join(part@),
    {
        let mut path = self.clone();
        let ghost before = path.parts@;
        path.parts.push(part.to_string());
        assert(path@.parts =~= self@.parts.push(part@)) by {
            assert forall|i: int| 0 <= i < before.len() implies path.parts@[i]@
                == self@.parts[i] by {
                assert(before.map_values(|part: String| part@)[i] == before[i]@);
            }
        }
        path
    }
}

// ---------------------------------------------------------------------------
// Files of the connector
// ---------------------------------------------------------------------------

/// The file that records the owner.
pub const OWNER_FILE_NAME: &'static str = "owner.json";

/// The file with the preferences of the user.
pub fn preferences_path(config_dir: &LocalPath) -> (path: LocalPath)
    ensures
        path@ == config_dir@.join("preferences.json"@),
{
    config_dir.join("preferences.json")
}

/// The file that records the owner.
pub fn owner_path(config_dir: &LocalPath) -> (path: LocalPath)
    ensures
        path@ == config_dir@.join(OWNER_FILE_NAME@),
{
    config_dir.join(OWNER_FILE_NAME)
}

/// The directory in which Codex works.
pub fn workspace_path(config_dir: &LocalPath) -> (path: LocalPath)
    ensures
        path@ == config_dir@.join("workspace"@),
{
    config_dir.join("workspace")
}

/// The directory in which Codex works on a request: one of its own for a
/// request that is to see nothing of the workspace.
pub open spec fn working_directory(isolated: bool, workspace: PathView) -> PathView {
    if isolated {
        start(PathBase::TempDir).join("marketstate-orama-assistant"@)
    } else {
        workspace
    }
}

/// The directory in which Codex works on a request.
pub fn request_directory(isolated: bool, workspace: &LocalPath) -> (path: LocalPath)
    ensures
        path@ == working_directory(isolated, workspace@),
{
    if isolated {
        LocalPath::new(PathBase::TempDir).join("marketstate-orama-assistant")
    } else {
        workspace.clone()
    }
}

/// The files that are made anew each time, by what they are for.
#[derive(Clone, Copy, Debug, PartialEq, Eq, Structural)]
pub enum FreshFile {
    /// A record of the owner that is not in place yet.
    OwnerDraft,
    /// What Codex says last.
    LastMessage,
    /// The form that the answer of Codex shall have.
    OutputSchema,
}

/// The name of a file that is made anew, with an identifier in it.
pub open spec fn fresh_name(file: FreshFile, id: Seq<char>) -> Seq<char> {
    match file {
        FreshFile::OwnerDraft => ".owner.json."@ + id + ".tmp"@,
        FreshFile::LastMessage => "codex-last-message-"@ + id + ".txt"@,
        FreshFile::OutputSchema => "codex-output-schema-"@ + id + ".json"@,
    }
}

/// The name of a file that is made anew, with the given identifier in it.
pub fn file_name_with(file: FreshFile, id: &str) -> (name: String)
    ensures
        name@ == fresh_name(file, id@),
{
    match file {
        FreshFile::OwnerDraft => concat3(".owner.json.", id, ".tmp"),
        FreshFile::LastMessage => concat3("codex-last-message-", id, ".txt"),
        FreshFile::OutputSchema => concat3("codex-output-schema-", id, ".json"),
    }
}

/// A file of that purpose in a directory, under a name that was not used
/// before. Nothing is said of the identifier but its form, since it is random.
pub fn fresh_path(directory: &LocalPath, file: FreshFile) -> (path: LocalPath)
    ensures
        exists|id: Seq<char>|
            hyphenated_uuid(id) && path@ == directory@.join(#[trigger] fresh_name(file, id)),
{
    let id = fresh_uuid();
    let name = file_name_with(file, id.as_str());
    let path = directory.join(name.as_str());
    assert(path@ == directory@.join(fresh_name(file, id@)));
    path
}

/// A file that is made anew stands in its directory itself: its name has no
/// separator of directories.
pub proof fn fresh_name_is_one_part(file: FreshFile, id: Seq<char>)
    requires
        hyphenated_uuid(id),
    ensures
        forall|i: int|
            0 <= i < fresh_name(file, id).len() ==> (#[trigger] fresh_name(file, id)[i]) != '/'
                && fresh_name(file, id)[i] != '\\',
{
    reveal_strlit(".owner.json.");
    reveal_strlit(".tmp");
    reveal_strlit("codex-last-message-");
    reveal_strlit(".txt");
    reveal_strlit("codex-output-schema-");
    reveal_strlit(".json");
    assert forall|i: int| 0 <= i < id.len() implies (#[trigger] id[i]) != '/' && id[i] != '\\' by {}
    match file {
        FreshFile::OwnerDraft => {},
        FreshFile::LastMessage => {},
        FreshFile::OutputSchema => {},
    }
}

// ---------------------------------------------------------------------------
// The search for Codex
// ---------------------------------------------------------------------------

/// The two names of the Codex executable below a directory.
pub open spec fn both_names(base: PathBase) -> Seq<PathView> {
    seq![start(base).join("codex"@), start(base).join("codex.exe"@)]
}

/// Where the executable may stand in the first directories of `PATH`.
pub open spec fn search_candidates(directories: nat) -> Seq<PathView>
    decreases directories,
{
    if directories == 0 {
        Seq::empty()
    } else {
        search_candidates((directories - 1) as nat) + both_names(
            PathBase::SearchDir((directories - 1) as usize),
        )
    }
}

/// Where the executable may stand below the home directory.
pub open spec fn home_candidates() -> Seq<PathView> {
    seq![
        start(PathBase::Home).join(".local/bin/codex"@),
        start(PathBase::Home).join(".codex/bin/codex"@),
        start(PathBase::Home).join(".codex/bin/codex.exe"@),
        start(PathBase::Home).join(".codex/current/bin/codex"@),
        start(PathBase::Home).join(".codex/current/bin/codex.exe"@),
    ]
}

/// Where the executable may stand whatever the environment says.
pub open spec fn usual_candidates(home: bool) -> Seq<PathView> {
    seq![
        start(PathBase::Plain).join("/opt/homebrew/bin/codex"@),
        start(PathBase::Plain).join("/usr/local/bin/codex"@),
    ] + if home {
        home_candidates()
    } else {
        Seq::empty()
    }
}

/// What the environment tells about where to look for the Codex executable.
#[derive(Clone, Copy, Debug)]
pub struct SearchEnvironment {
    /// Whether `CODEX_BIN` is set.
    pub codex_override: bool,
    /// Whether the directory of the connector's own executable is known.
    pub executable_dir: bool,
    /// How many directories `PATH` names.
    pub search_dirs: usize,
    /// Whether the home directory is known.
    pub home: bool,
}

/// Where the executable may stand, the place to look at first first.
pub open spec fn candidates(environment: SearchEnvironment) -> Seq<PathView> {
    (if environment.codex_override {
        seq![start(PathBase::CodexOverride)]
    } else {
        Seq::empty()
    }) + (if environment.executable_dir {
        both_names(PathBase::ExecutableDir)
    } else {
        Seq::empty()
    }) + search_candidates(environment.search_dirs as nat) + usual_candidates(environment.home)
}

/// What some paths are.
pub open spec fn path_views(paths: Seq<LocalPath>) -> Seq<PathView> {
    paths.map_values(|path: LocalPath| path@)
}

/// Adds a path.
fn push_path(paths: &mut Vec<LocalPath>, path: LocalPath)
    ensures
        path_views(final(paths)@) == path_views(old(paths)@).push(path@),
{
    paths.push(path);
    assert(path_views(paths@) =~= path_views(old(paths)@).push(path@));
}

/// Adds the two names of the executable below a directory.
fn push_both_names(paths: &mut Vec<LocalPath>, base: PathBase)
    ensures
        path_views(final(paths)@) == path_views(old(paths)@) + both_names(base),
{
    push_path(paths, LocalPath::new(base).join("codex"));
    push_path(paths, LocalPath::new(base).join("codex.exe"));
    assert(path_views(paths@) =~= path_views(old(paths)@) + both_names(base));
}

/// Adds the places at which the executable may stand below the home
/// directory.
fn push_home_candidates(paths: &mut Vec<LocalPath>)
    ensures
        path_views(final(paths)@) == path_views(old(paths)@) + home_candidates(),
{
    let ghost before = path_views(paths@);
    push_path(paths, LocalPath::new(PathBase::Home).join(".local/bin/codex"));
    push_path(paths, LocalPath::new(PathBase::Home).join(".codex/bin/codex"));
    push_path(paths, LocalPath::new(PathBase::Home).join(".codex/bin/codex.exe"));
    push_path(paths, LocalPath::new(PathBase::Home).join(".codex/current/bin/codex"));
    push_path(paths, LocalPath::new(PathBase::Home).join(".codex/current/bin/codex.exe"));
    assert(path_views(paths@) =~= before + home_candidates());
}

/// Adds the places at which the executable may stand whatever the environment
/// says.
fn push_usual_candidates(paths: &mut Vec<LocalPath>, home: bool)
    ensures
        path_views(final(paths)@) == path_views(old(paths)@) + usual_candidates(home),
{
    let ghost before = path_views(paths@);
    push_path(paths, LocalPath::new(PathBase::Plain).join("/opt/homebrew/bin/codex"));
    push_path(paths, LocalPath::new(PathBase::Plain).join("/usr/local/bin/codex"));
    if home {
        push_home_candidates(paths);
    }
    assert(path_views(paths@) =~= before + usual_candidates(home));
}

/// Where the executable may stand, the place to look at first first.
pub fn codex_candidates(environment: SearchEnvironment) -> (paths: Vec<LocalPath>)
    ensures
        path_views(paths@) == candidates(environment),
{
    let mut paths: Vec<LocalPath> = Vec::new();
    assert(path_views(paths@) =~= Seq::empty());
    if environment.codex_override {
        push_path(&mut paths, LocalPath::new(PathBase::CodexOverride));
    }
    if environment.executable_dir {
        push_both_names(&mut paths, PathBase::ExecutableDir);
    }
    let ghost first = path_views(paths@);
    assert(first =~= (if environment.codex_override {
        seq![start(PathBase::CodexOverride)]
    } else {
        Seq::empty()
    }) + (if environment.executable_dir {
        both_names(PathBase::ExecutableDir)
    } else {
        Seq::empty()
    }));
    assert(first =~= first + search_candidates(0));
    for i in 0..environment.search_dirs
        invariant
            path_views(paths@) == first + search_candidates(i as nat),
    {
        push_both_names(&mut paths, PathBase::SearchDir(i));
        assert(path_views(paths@) =~= first + search_candidates((i + 1) as nat));
    }
    push_usual_candidates(&mut paths, environment.home);
    paths
}

/// The first of some paths that is there; `present` says of each whether it
/// is.
pub open spec fn first_present(paths: Seq<PathView>, present: Seq<bool>) -> Option<PathView>
    decreases paths.len(),
{
    if paths.len() == 0 || present.len() == 0 {
        None
    } else if present[0] {
        Some(paths[0])
    } else {
        first_present(paths.drop_first(), present.drop_first())
    }
}

/// The Codex executable: the first candidate that is there. `present` says of
/// each of [`codex_candidates`], in order, whether it is.
pub fn find_codex_binary(environment: SearchEnvironment, present: &[bool]) -> (found: Option<
    LocalPath,
>)
    ensures
        optional_path(found) == first_present(candidates(environment), present@),
{
    let paths = codex_candidates(environment);
    let ghost views = candidates(environment);
    assert(views.skip(0) =~= views);
    assert(present@.skip(0) =~= present@);
    let mut i: usize = 0;
    while i < paths.len() && i < present.len()
        invariant
            views == candidates(environment),
            path_views(paths@) == views,
            i <= paths@.len(),
            i <= present@.len(),
            first_present(views, present@) == first_present(
                views.skip(i as int),
                present@.skip(i as int),
            ),
        decreases paths@.len() - i,
    {
        assert(views.skip(i as int)[0] == views[i as int]);
        assert(views[i as int] == paths@[i as int]@);
        assert(views.skip(i as int).drop_first() =~= views.skip(i + 1));
        assert(present@.skip(i as int).drop_first() =~= present@.skip(i + 1));
        if present[i] {
            return Some(paths[i].clone());
        }
        i = i + 1;
    }
    None
}

/// What is found is there, and nothing that comes before it is.
pub proof fn found_binary_is_the_first(paths: Seq<PathView>, present: Seq<bool>)
    requires
        paths.len() == present.len(),
    ensures
        match first_present(paths, present) {
            Some(path) => exists|i: int|
                {
                    &&& 0 <= i < paths.len()
                    &&& #[trigger] present[i]
                    &&& path == paths[i]
                    &&& forall|j: int| 0 <= j < i ==> !#[trigger] present[j]
                },
            None => forall|i: int| 0 <= i < present.len() ==> !#[trigger] present[i],
        },
    decreases paths.len(),
{
    if paths.len() > 0 && !present[0] {
        let rest = present.drop_first();
        found_binary_is_the_first(paths.drop_first(), rest);
        assert forall|j: int| 0 < j < present.len() implies #[trigger] present[j] == rest[j - 1] by {}
        if let Some(path) = first_present(paths, present) {
            let i = choose|i: int|
                {
                    &&& 0 <= i < rest.len()
                    &&& #[trigger] rest[i]
                    &&& path == paths.drop_first()[i]
                    &&& forall|j: int| 0 <= j < i ==> !#[trigger] rest[j]
                };
            assert(present[i + 1]);
            assert forall|j: int| 0 <= j < i + 1 implies !#[trigger] present[j] by {
                if j > 0 {
                    assert(!rest[j - 1]);
                }
            }
        }
    }
}

/// The executable that is run: the one that was found, or else the one that
/// the system finds by the name.
pub fn codex_binary(found: Option<LocalPath>) -> (path: LocalPath)
    ensures
        path@ == match found {
            Some(found) => found@,
            None => start(PathBase::Plain).join("codex"@),
        },
{
    match found {
        Some(found) => found,
        None => LocalPath::new(PathBase::Plain).join("codex"),
    }
}

/// Nothing comes before what `CODEX_BIN` names.
pub proof fn override_comes_first(environment: SearchEnvironment)
    requires
        environment.codex_override,
    ensures
        candidates(environment)[0] == start(PathBase::CodexOverride),
{
}

/// Each directory of `PATH` is looked into, an earlier one before a later one.
pub proof fn search_keeps_the_order_of_the_path(directories: nat, i: int)
    requires
        0 <= i < directories <= usize::MAX,
    ensures
        search_candidates(directories).len() == 2 * directories,
        search_candidates(directories)[2 * i] == start(PathBase::SearchDir(i as usize)).join(
            "codex"@,
        ),
        search_candidates(directories)[2 * i + 1] == start(PathBase::SearchDir(i as usize)).join(
            "codex.exe"@,
        ),
    decreases directories,
{
    let before = (directories - 1) as nat;
    if i < before {
        search_keeps_the_order_of_the_path(before, i);
    } else {
        search_candidates_len(before);
    }
}

/// There are two candidates for each directory.
proof fn search_candidates_len(directories: nat)
    ensures
        search_candidates(directories).len() == 2 * directories,
    decreases directories,
{
    if directories > 0 {
        search_candidates_len((directories - 1) as nat);
    }
}

/// The home directory: what `HOME` says, else what `USERPROFILE` says.
pub fn home_dir<T>(home: Option<T>, user_profile: Option<T>) -> (directory: Option<T>)
    ensures
        directory == match home {
            Some(home) => Some(home),
            None => user_profile,
        },
{
    match home {
        Some(home) => Some(home),
        None => user_profile,
    }
}

/// Where each candidate stands in the search, however many directories `PATH`
/// names: what `CODEX_BIN` names, the directory of the connector, the directories
/// of `PATH` in their order, the two usual places, and the five below the home
/// directory. Nothing else is looked at.
pub proof fn search_goes_in_order(environment: SearchEnvironment, i: int)
    ensures
        ({
            let paths = candidates(environment);
            let first: int = if environment.codex_override {
                1
            } else {
                0
            };
            let second: int = first + if environment.executable_dir {
                2int
            } else {
                0
            };
            let third: int = second + 2 * environment.search_dirs;
            let last: int = third + 2 + if environment.home {
                5int
            } else {
                0
            };
            let below = |base: PathBase, part: Seq<char>| PathView { base, parts: seq![part] };
            &&& paths.len() == last
            &&& environment.codex_override ==> paths[0] == (PathView {
                base: PathBase::CodexOverride,
                parts: Seq::empty(),
            })
            &&& environment.executable_dir ==> paths[first] == below(
                PathBase::ExecutableDir,
                "codex"@,
            ) && paths[first + 1] == below(PathBase::ExecutableDir, "codex.exe"@)
            &&& 0 <= i < environment.search_dirs ==> paths[second + 2 * i] == below(
                PathBase::SearchDir(i as usize),
                "codex"@,
            ) && paths[second + 2 * i + 1] == below(PathBase::SearchDir(i as usize), "codex.exe"@)
            &&& paths[third] == below(PathBase::Plain, "/opt/homebrew/bin/codex"@)
            &&& paths[third + 1] == below(PathBase::Plain, "/usr/local/bin/codex"@)
            &&& environment.home ==> {
                &&& paths[third + 2] == below(PathBase::Home, ".local/bin/codex"@)
                &&& paths[third + 3] == below(PathBase::Home, ".codex/bin/codex"@)
                &&& paths[third + 4] == below(PathBase::Home, ".codex/bin/codex.exe"@)
                &&& paths[third + 5] == below(PathBase::Home, ".codex/current/bin/codex"@)
                &&& paths[third + 6] == below(PathBase::Home, ".codex/current/bin/codex.exe"@)
            }
        }),
{
    let dirs = environment.search_dirs as nat;
    search_candidates_len(dirs);
    if 0 <= i < environment.search_dirs {
        search_keeps_the_order_of_the_path(dirs, i);
    }
    let paths = candidates(environment);
    let front = (if environment.codex_override {
        seq![start(PathBase::CodexOverride)]
    } else {
        Seq::empty()
    }) + (if environment.executable_dir {
        both_names(PathBase::ExecutableDir)
    } else {
        Seq::empty()
    });
    let middle = search_candidates(dirs);
    let usual = usual_candidates(environment.home);
    assert(paths =~= front + middle + usual);
    assert forall|base: PathBase, part: Seq<char>| #[trigger]
        start(base).join(part).parts == seq![part] by {
        assert(start(base).join(part).parts =~= seq![part]);
    }
    let third: int = (front.len() + middle.len()) as int;
    if 0 <= i < environment.search_dirs {
        assert(paths[front.len() + 2 * i] == middle[2 * i]);
        assert(paths[front.len() + 2 * i + 1] == middle[2 * i + 1]);
    }
    assert(paths[third] == usual[0]);
    assert(paths[third + 1] == usual[1]);
    if environment.home {
        assert(paths[third + 2] == usual[2]);
        assert(paths[third + 3] == usual[3]);
        assert(paths[third + 4] == usual[4]);
        assert(paths[third + 5] == usual[5]);
        assert(paths[third + 6] == usual[6]);
    }
}

/// A file that is made anew has its identifier in its name, whatever that is,
/// between texts that say what the file is for.
pub proof fn fresh_names_hold_their_identifier(id: Seq<char>)
    ensures
        fresh_name(FreshFile::OwnerDraft, id) == ".owner.json."@ + id + ".tmp"@,
        fresh_name(FreshFile::LastMessage, id) == "codex-last-message-"@ + id + ".txt"@,
        fresh_name(FreshFile::OutputSchema, id) == "codex-output-schema-"@ + id + ".json"@,
{
}

/// Two files that are made anew for one purpose have one name only where they
/// have one identifier.
pub proof fn fresh_names_tell_identifiers_apart(file: FreshFile, a: Seq<char>, b: Seq<char>)
    requires
        fresh_name(file, a) == fresh_name(file, b),
    ensures
        a == b,
{
    let (before, after) = match file {
        FreshFile::OwnerDraft => (".owner.json."@, ".tmp"@),
        FreshFile::LastMessage => ("codex-last-message-"@, ".txt"@),
        FreshFile::OutputSchema => ("codex-output-schema-"@, ".json"@),
    };
    let n = before.len() as int;
    assert(fresh_name(file, a) == before + a + after);
    assert(fresh_name(file, b) == before + b + after);
    assert(a.len() == b.len());
    assert(a =~= (before + a + after).subrange(n, n + a.len()));
    assert(b =~= (before + b + after).subrange(n, n + b.len()));
}

/// A request that is to see nothing of the workspace is worked on in a directory
/// for temporary files, whatever the workspace is; every other request in the
/// workspace.
pub proof fn directories_of_requests(workspace: PathView)
    ensures
        working_directory(true, workspace).base == PathBase::TempDir,
        working_directory(true, workspace).parts == seq!["marketstate-orama-assistant"@],
        working_directory(false, workspace) == workspace,
{
    assert(working_directory(true, workspace).parts =~= seq!["marketstate-orama-assistant"@]);
}

/// A path is joined at its end: the parts before stay, and it still starts where
/// it did.
pub proof fn joining_adds_one_part(path: PathView, part: Seq<char>)
    ensures
        path.join(part).base == path.base,
        path.join(part).parts.len() == path.parts.len() + 1,
        path.join(part).parts.last() == part,
        path.join(part).parts.drop_last() == path.parts,
{
    assert(path.join(part).parts.drop_last() =~= path.parts);
}

} // verus!
