use vstd::prelude::*;
use vstd::string::*;

use crate::search_path::{is_direct_path, is_direct_path_spec, string_views};

verus! {

/// A recipe read from disk: its text, and the canonical (symlink-resolved)
/// directory that holds it, against which its relative resources resolve.
pub struct RecipeFile {
    pub content: String,
    pub parent_dir: String,
}

impl RecipeFile {
    /// An equal copy.
    pub fn duplicate(&self) -> (r: RecipeFile)
        ensures
            r == *self,
    {
        RecipeFile { content: self.content.clone(), parent_dir: self.parent_dir.clone() }
    }
}

/// What one searched directory holds for a bare name: `found[i]` is the
/// recipe read from `<dir>/<name>.<ext>` for the `i`-th recognized extension,
/// or `None` where that file is missing, unreadable or not UTF-8 text.
pub struct DirProbe {
    pub dir: String,
    pub found: Vec<Option<RecipeFile>>,
}

/// Why a recipe could not be had.
pub enum RecipeError {
    /// A direct path could not be read.
    Read { path: String, cause: String },
    /// The canonical parent directory of a path could not be determined.
    Path { path: String, cause: String },
    /// No candidate file for `name` in `dir`.
    NotInDirectory { name: String, dir: String },
    /// No candidate file for `name` in any searched directory, and no remote
    /// repository to fall back on.
    NotFound { name: String, searched: Vec<String> },
}

/// Where a recipe identifier leads.
pub enum Resolution {
    /// The first candidate found in the search directories.
    Local(RecipeFile),
    /// A direct path: the file at this path is read as it stands, and what
    /// that read gives is final.
    ReadPath(String),
    /// Nothing was found locally: the recipe is fetched by `name` from the
    /// remote repository `repo`, and what that gives is final.
    FetchRemote { repo: String, name: String },
    /// Nothing was found and there is nowhere else to look.
    Failed(RecipeError),
}

/// `parts` joined with `sep` between each two.
pub open spec fn joined(parts: Seq<Seq<char>>, sep: Seq<char>) -> Seq<char>
    decreases parts.len(),
{
    if parts.len() == 0 {
        Seq::empty()
    } else if parts.len() == 1 {
        parts[0]
    } else {
        joined(parts.drop_last(), sep) + sep + parts.last()
    }
}

/// The text that describes an error.
pub open spec fn error_message(e: RecipeError) -> Seq<char> {
    match e {
        RecipeError::Read { path, cause } => "Failed to read recipe file "@ + path@ + ": "@
            + cause@,
        RecipeError::Path { path, cause } => "Failed to resolve absolute path for "@ + path@
            + ": "@ + cause@,
        RecipeError::NotInDirectory { name, dir } => "No "@ + name@ + ".yaml or "@ + name@
            + ".json recipe file found in directory: "@ + dir@,
        RecipeError::NotFound { name, searched } => "\u{2139}\u{fe0f}  Failed to retrieve "@ + name@ + ".yaml or "@
            + name@ + ".json in "@ + joined(string_views(searched@), ":"@),
    }
}

/// The strings joined with `sep` between each two.
pub fn join_strings(parts: &Vec<String>, sep: &str) -> (r: String)
    ensures
        r@ == joined(string_views(parts@), sep@),
{
    let mut out = String::new();
    let mut i: usize = 0;
    while i < parts.len()
        invariant
            i <= parts@.len(),
            out@ == joined(string_views(parts@.subrange(0, i as int)), sep@),
        decreases parts@.len() - i,
    {
        let ghost front = string_views(parts@.subrange(0, i as int));
        proof {
            assert(string_views(parts@.subrange(0, i as int + 1)).drop_last() =~= front);
            assert(string_views(parts@.subrange(0, i as int + 1)).last() == parts@[i as int]@);
        }
        if i > 0 {
            out.append(sep);
        }
        out.append(parts[i].as_str());
        proof {
            if i == 0 {
                assert(out@ =~= parts@[0]@);
            }
        }
        i += 1;
    }
    proof {
        assert(parts@.subrange(0, parts@.len() as int) =~= parts@);
    }
    out
}

impl RecipeError {
    /// The text that describes this error; a `NotFound` error lists every
    /// searched directory, joined with `:`.
    pub fn message(&self) -> (r: String)
        ensures
            r@ == error_message(*self),
    {
        match self {
            RecipeError::Read { path, cause } => {
                let mut m = String::from_str("Failed to read recipe file ");
                m.append(path.as_str());
                m.append(": ");
                m.append(cause.as_str());
                m
            },
            RecipeError::Path { path, cause } => {
                let mut m = String::from_str("Failed to resolve absolute path for ");
                m.append(path.as_str());
                m.append(": ");
                m.append(cause.as_str());
                m
            },
            RecipeError::NotInDirectory { name, dir } => {
                let mut m = String::from_str("No ");
                m.append(name.as_str());
                m.append(".yaml or ");
                m.append(name.as_str());
                m.append(".json recipe file found in directory: ");
                m.append(dir.as_str());
                m
            },
            RecipeError::NotFound { name, searched } => {
                let dirs = join_strings(searched, ":");
                let mut m = String::from_str("\u{2139}\u{fe0f}  Failed to retrieve ");
                m.append(name.as_str());
                m.append(".yaml or ");
                m.append(name.as_str());
                m.append(".json in ");
                m.append(dirs.as_str());
                m
            },
        }
    }
}

/// The recipe that one directory yields: the candidate of the first
/// recognized extension, in order, that was read.
pub open spec fn first_found(found: Seq<Option<RecipeFile>>) -> Option<RecipeFile>
    decreases found.len(),
{
    if found.len() == 0 {
        None
    } else if found[0] is Some {
        found[0]
    } else {
        first_found(found.drop_first())
    }
}

/// The recipe that the search directories yield: that of the first directory,
/// in search order, that yields one.
pub open spec fn first_local(probes: Seq<DirProbe>) -> Option<RecipeFile>
    decreases probes.len(),
{
    if probes.len() == 0 {
        None
    } else if first_found(probes[0].found@) is Some {
        first_found(probes[0].found@)
    } else {
        first_local(probes.drop_first())
    }
}

/// The directories that were searched, in order.
pub open spec fn searched_dirs(probes: Seq<DirProbe>) -> Seq<Seq<char>> {
    probes.map_values(|p: DirProbe| p.dir@)
}

/// `r` is the error for a bare name that no searched directory holds.
pub open spec fn is_not_found(r: RecipeError, name: Seq<char>, probes: Seq<DirProbe>) -> bool {
    match r {
        RecipeError::NotFound { name: n, searched } => n@ == name && string_views(searched@)
            == searched_dirs(probes),
        _ => false,
    }
}

/// `r` is where `name` leads, given what the search directories hold and the
/// configured remote repository, if any.
pub open spec fn resolves_to(
    name: Seq<char>,
    probes: Seq<DirProbe>,
    remote_repo: Option<String>,
    r: Resolution,
) -> bool {
    if is_direct_path_spec(name) {
        match r {
            Resolution::ReadPath(p) => p@ == name,
            _ => false,
        }
    } else {
        match first_local(probes) {
            Some(f) => r == Resolution::Local(f),
            None => match remote_repo {
                Some(repo) => match r {
                    Resolution::FetchRemote { repo: rr, name: n } => rr == repo && n@ == name,
                    _ => false,
                },
                None => match r {
                    Resolution::Failed(e) => is_not_found(e, name, probes),
                    _ => false,
                },
            },
        }
    }
}

proof fn lemma_first_found_shift(found: Seq<Option<RecipeFile>>, i: int)
    requires
        0 <= i < found.len(),
        forall|j: int| 0 <= j < i ==> found[j] is None,
    ensures
        first_found(found) == first_found(found.subrange(i, found.len() as int)),
    decreases i,
{
    if i > 0 {
        lemma_first_found_shift(found.drop_first(), i - 1);
        assert(found.drop_first().subrange(i - 1, found.len() - 1) =~= found.subrange(
            i,
            found.len() as int,
        ));
    } else {
        assert(found.subrange(0, found.len() as int) =~= found);
    }
}

proof fn lemma_first_found_none(found: Seq<Option<RecipeFile>>)
    requires
        forall|j: int| 0 <= j < found.len() ==> found[j] is None,
    ensures
        first_found(found) is None,
    decreases found.len(),
{
    if found.len() > 0 {
        lemma_first_found_none(found.drop_first());
    }
}

proof fn lemma_first_local_shift(probes: Seq<DirProbe>, i: int)
    requires
        0 <= i <= probes.len(),
        forall|j: int| 0 <= j < i ==> first_found(#[trigger] probes[j].found@) is None,
    ensures
        first_local(probes) == first_local(probes.subrange(i, probes.len() as int)),
    decreases i,
{
    if i > 0 {
        lemma_first_local_shift(probes.drop_first(), i - 1);
        assert(probes.drop_first().subrange(i - 1, probes.len() - 1) =~= probes.subrange(
            i,
            probes.len() as int,
        ));
    } else {
        assert(probes.subrange(0, probes.len() as int) =~= probes);
    }
}

proof fn lemma_first_local_some(probes: Seq<DirProbe>, d: int)
    requires
        0 <= d < probes.len(),
        first_found(probes[d].found@) is Some,
    ensures
        first_local(probes) is Some,
    decreases d,
{
    if d > 0 && first_found(probes[0].found@) is None {
        lemma_first_local_some(probes.drop_first(), d - 1);
    }
}

/// A bare name that no earlier directory holds resolves to what the first
/// directory that holds it yields: that directory's content and canonical
/// parent directory, never a mix with an earlier one.
pub proof fn lemma_first_holding_directory_wins(
    name: Seq<char>,
    probes: Seq<DirProbe>,
    remote_repo: Option<String>,
    r: Resolution,
    b: int,
)
    requires
        resolves_to(name, probes, remote_repo, r),
        !is_direct_path_spec(name),
        0 <= b < probes.len(),
        forall|a: int| 0 <= a < b ==> first_found(#[trigger] probes[a].found@) is None,
        first_found(probes[b].found@) is Some,
    ensures
        r == Resolution::Local(first_found(probes[b].found@)->0),
{
    lemma_first_local_shift(probes, b);
    assert(probes.subrange(b, probes.len() as int)[0] == probes[b]);
}

/// A bare name that the current directory (the first searched) holds
/// resolves to the current directory's recipe, whatever later directories or
/// the remote repository hold.
pub proof fn lemma_current_directory_first(
    name: Seq<char>,
    probes: Seq<DirProbe>,
    remote_repo: Option<String>,
    r: Resolution,
)
    requires
        resolves_to(name, probes, remote_repo, r),
        !is_direct_path_spec(name),
        probes.len() > 0,
        first_found(probes[0].found@) is Some,
    ensures
        r == Resolution::Local(first_found(probes[0].found@)->0),
{
    lemma_first_holding_directory_wins(name, probes, remote_repo, r, 0);
}

/// A bare name that any searched directory holds resolves locally: the
/// remote repository is consulted only when no directory holds it.
pub proof fn lemma_local_before_remote(
    name: Seq<char>,
    probes: Seq<DirProbe>,
    remote_repo: Option<String>,
    r: Resolution,
    d: int,
)
    requires
        resolves_to(name, probes, remote_repo, r),
        !is_direct_path_spec(name),
        0 <= d < probes.len(),
        first_found(probes[d].found@) is Some,
    ensures
        r is Local,
{
    lemma_first_local_some(probes, d);
}

/// Where the directory that a bare name resolves to holds a candidate for
/// both recognized extensions, the one for the first extension is taken.
pub proof fn lemma_extension_priority(
    name: Seq<char>,
    probes: Seq<DirProbe>,
    remote_repo: Option<String>,
    r: Resolution,
    b: int,
)
    requires
        resolves_to(name, probes, remote_repo, r),
        !is_direct_path_spec(name),
        0 <= b < probes.len(),
        forall|a: int| 0 <= a < b ==> first_found(#[trigger] probes[a].found@) is None,
        probes[b].found@.len() >= 2,
        probes[b].found@[0] is Some,
        probes[b].found@[1] is Some,
    ensures
        r == Resolution::Local(probes[b].found@[0]->0),
{
    lemma_first_holding_directory_wins(name, probes, remote_repo, r, b);
}

/// An identifier that ends in a recognized extension is read as the path it
/// is, whatever the search directories and the remote repository hold.
pub proof fn lemma_direct_path_bypass(
    name: Seq<char>,
    probes: Seq<DirProbe>,
    remote_repo: Option<String>,
    r: Resolution,
)
    requires
        resolves_to(name, probes, remote_repo, r),
        is_direct_path_spec(name),
    ensures
        r matches Resolution::ReadPath(p) && p@ == name,
{
}

/// With the current directory as the only search directory, nothing found
/// and no remote repository, resolution fails with a `NotFound` error that
/// lists exactly the current directory, in its message too.
pub proof fn lemma_lone_directory_not_found(
    name: Seq<char>,
    probes: Seq<DirProbe>,
    r: Resolution,
)
    requires
        resolves_to(name, probes, None, r),
        !is_direct_path_spec(name),
        probes.len() == 1,
        probes[0].dir@ == "."@,
        first_found(probes[0].found@) is None,
    ensures
        r matches Resolution::Failed(RecipeError::NotFound { name: n, searched }) && n@ == name
            && string_views(searched@) == seq!["."@],
        r matches Resolution::Failed(e) && error_message(e) == "\u{2139}\u{fe0f}  Failed to retrieve "@ + name
            + ".yaml or "@ + name + ".json in "@ + "."@,
{
    assert(probes.drop_first().len() == 0);
    assert(first_local(probes.drop_first()) is None);
    assert(first_local(probes) is None);
    assert(searched_dirs(probes) =~= seq!["."@]);
    assert(joined(seq!["."@], ":"@) == "."@);
}

/// The recipe in one directory: the first recognized extension, in order,
/// whose candidate file was read; otherwise an error naming the directory.
pub fn read_recipe_in_dir(probe: &DirProbe, recipe_name: &str) -> (r: Result<
    RecipeFile,
    RecipeError,
>)
    ensures
        match first_found(probe.found@) {
            Some(f) => r == Ok::<RecipeFile, RecipeError>(f),
            None => match r {
                Err(RecipeError::NotInDirectory { name, dir }) => name@ == recipe_name@ && dir
                    == probe.dir,
                _ => false,
            },
        },
{
    let n = probe.found.len();
    let mut i: usize = 0;
    while i < n
        invariant
            n == probe.found@.len(),
            i <= n,
            forall|j: int| 0 <= j < i ==> probe.found@[j] is None,
        decreases n - i,
    {
        match &probe.found[i] {
            Some(f) => {
                proof {
                    lemma_first_found_shift(probe.found@, i as int);
                }
                return Ok(f.duplicate());
            },
            None => {},
        }
        i += 1;
    }
    proof {
        lemma_first_found_none(probe.found@);
    }
    Err(
        RecipeError::NotInDirectory {
            name: String::from_str(recipe_name),
            dir: probe.dir.clone(),
        },
    )
}

/// Searches the directories in order and returns the recipe of the first one
/// that holds a candidate; otherwise a `NotFound` error that lists every
/// searched directory.
pub fn retrieve_recipe_from_local_path(recipe_name: &str, probes: &Vec<DirProbe>) -> (r: Result<
    RecipeFile,
    RecipeError,
>)
    ensures
        match first_local(probes@) {
            Some(f) => r == Ok::<RecipeFile, RecipeError>(f),
            None => match r {
                Err(e) => is_not_found(e, recipe_name@, probes@),
                Ok(_) => false,
            },
        },
{
    let n = probes.len();
    let mut searched: Vec<String> = Vec::new();
    let mut i: usize = 0;
    while i < n
        invariant
            n == probes@.len(),
            i <= n,
            forall|j: int| 0 <= j < i ==> first_found(#[trigger] probes@[j].found@) is None,
            string_views(searched@) == searched_dirs(probes@.subrange(0, i as int)),
        decreases n - i,
    {
        match read_recipe_in_dir(&probes[i], recipe_name) {
            Ok(f) => {
                proof {
                    lemma_first_local_shift(probes@, i as int);
                }
                return Ok(f);
            },
            Err(_) => {},
        }
        let d = probes[i].dir.clone();
        searched.push(d);
        proof {
            assert(string_views(searched@) =~= string_views(searched@.drop_last()).push(d@));
            assert(searched_dirs(probes@.subrange(0, i as int + 1)) =~= searched_dirs(
                probes@.subrange(0, i as int),
            ).push(probes@[i as int].dir@));
        }
        i += 1;
    }
    proof {
        lemma_first_local_shift(probes@, n as int);
        assert(probes@.subrange(0, n as int) =~= probes@);
    }
    Err(RecipeError::NotFound { name: String::from_str(recipe_name), searched })
}

/// Decides where a recipe identifier leads. A name that ends in a recognized
/// extension is a direct path, whatever the directories hold. A bare name is
/// looked up in the search directories in order; only where none holds it is
/// the remote repository consulted, and where none is configured the result
/// is a `NotFound` error listing every searched directory.
pub fn retrieve_recipe_file(
    recipe_name: &str,
    probes: &Vec<DirProbe>,
    remote_repo: &Option<String>,
) -> (r: Resolution)
    ensures
        resolves_to(recipe_name@, probes@, *remote_repo, r),
{
    if is_direct_path(recipe_name) {
        return Resolution::ReadPath(String::from_str(recipe_name));
    }
    match retrieve_recipe_from_local_path(recipe_name, probes) {
        Ok(f) => Resolution::Local(f),
        Err(e) => match remote_repo {
            Some(repo) => Resolution::FetchRemote {
                repo: repo.clone(),
                name: String::from_str(recipe_name),
            },
            None => Resolution::Failed(e),
        },
    }
}

} // verus!
