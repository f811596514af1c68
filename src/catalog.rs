use vstd::prelude::*;
use vstd::string::*;

use crate::search_path::{recipe_extension, recipe_extensions, string_views, RECIPE_EXTENSION_COUNT};

verus! {

/// Where a listed recipe comes from.
#[derive(Clone, Copy, Debug, PartialEq, Eq, Structural)]
pub enum RecipeSource {
    /// A file in one of the search directories.
    Local,
    /// A recipe of the configured remote repository.
    GitHub,
}

/// One entry of a recipe listing.
pub struct RecipeInfo {
    pub name: String,
    pub source: RecipeSource,
    /// The file's path for a local recipe, the location in the repository for
    /// a remote one.
    pub path: String,
    pub title: Option<String>,
    pub description: Option<String>,
}

/// What the recipe parser extracted from a well-formed recipe file.
pub struct RecipeSummary {
    pub title: String,
    pub description: String,
}

/// One entry of a searched directory, as the file system presented it.
pub struct ScannedEntry {
    /// The entry's path, as text.
    pub path: String,
    /// The file name without its extension, where that is valid UTF-8.
    pub stem: Option<String>,
    /// The file name's extension, if it has one.
    pub extension: Option<String>,
    /// Whether the entry is a regular file.
    pub is_file: bool,
    /// What parsing the file gave, evaluated from its own directory; `None`
    /// where it could not be read or parsed.
    pub parsed: Option<RecipeSummary>,
}

/// `ext` is one of the recognized recipe file extensions.
pub open spec fn is_recipe_extension_spec(ext: Seq<char>) -> bool {
    ext == recipe_extensions()[0] || ext == recipe_extensions()[1]
}

/// A file that carries a recognized extension: a recipe candidate.
pub open spec fn is_candidate(e: ScannedEntry) -> bool {
    e.is_file && match e.extension {
        Some(x) => is_recipe_extension_spec(x@),
        None => false,
    }
}

/// A candidate that parsed: it appears in the listing.
pub open spec fn is_listed(e: ScannedEntry) -> bool {
    is_candidate(e) && e.parsed is Some
}

/// The name under which a local recipe is listed: its file stem, or
/// `unknown` where the stem is not valid UTF-8.
pub open spec fn listed_name(e: ScannedEntry) -> Seq<char> {
    match e.stem {
        Some(s) => s@,
        None => "unknown"@,
    }
}

/// `info` is the listing entry for the local recipe file `e`.
pub open spec fn describes(info: RecipeInfo, e: ScannedEntry) -> bool {
    &&& e.parsed is Some
    &&& info.name@ == listed_name(e)
    &&& info.source == RecipeSource::Local
    &&& info.path == e.path
    &&& info.title == Some(e.parsed->0.title)
    &&& info.description == Some(e.parsed->0.description)
}

/// The entries of one directory that appear in its listing, in order.
pub open spec fn listed_entries(entries: Seq<ScannedEntry>) -> Seq<ScannedEntry>
    decreases entries.len(),
{
    if entries.len() == 0 {
        Seq::empty()
    } else if is_listed(entries.last()) {
        listed_entries(entries.drop_last()).push(entries.last())
    } else {
        listed_entries(entries.drop_last())
    }
}

/// The listed entries of all searched directories, directory by directory
/// in search order.
pub open spec fn listed_local_entries(dirs: Seq<Vec<ScannedEntry>>) -> Seq<ScannedEntry>
    decreases dirs.len(),
{
    if dirs.len() == 0 {
        Seq::empty()
    } else {
        listed_local_entries(dirs.drop_last()) + listed_entries(dirs.last()@)
    }
}

/// The remote entries of a listing, where the remote listing was had.
pub open spec fn remote_listing(remote: Option<Vec<RecipeInfo>>) -> Seq<RecipeInfo> {
    match remote {
        Some(v) => v@,
        None => Seq::empty(),
    }
}

/// `infos` lists the entries `es`, one for one and in order.
pub open spec fn describes_all(infos: Seq<RecipeInfo>, es: Seq<ScannedEntry>) -> bool {
    infos.len() == es.len() && forall|k: int| 0 <= k < es.len() ==> describes(infos[k], es[k])
}

impl RecipeSummary {
    /// An equal copy.
    pub fn duplicate(&self) -> (r: RecipeSummary)
        ensures
            r == *self,
    {
        RecipeSummary { title: self.title.clone(), description: self.description.clone() }
    }
}

impl RecipeInfo {
    /// An equal copy.
    pub fn duplicate(&self) -> (r: RecipeInfo)
        ensures
            r == *self,
    {
        RecipeInfo {
            name: self.name.clone(),
            source: self.source,
            path: self.path.clone(),
            title: match &self.title {
                Some(t) => Some(t.clone()),
                None => None,
            },
            description: match &self.description {
                Some(d) => Some(d.clone()),
                None => None,
            },
        }
    }
}

/// Whether `ext` is a recognized recipe file extension.
pub fn is_recipe_extension(ext: &str) -> (r: bool)
    ensures
        r == is_recipe_extension_spec(ext@),
{
    let given = String::from_str(ext);
    let mut i: usize = 0;
    while i < RECIPE_EXTENSION_COUNT
        invariant
            i <= RECIPE_EXTENSION_COUNT,
            given@ == ext@,
            forall|j: int| 0 <= j < i ==> recipe_extensions()[j] != ext@,
        decreases RECIPE_EXTENSION_COUNT - i,
    {
        let known = String::from_str(recipe_extension(i));
        if given == known {
            return true;
        }
        i += 1;
    }
    false
}

/// The listing entry for a recipe file: present exactly where its content
/// parsed. Which entries of a directory are recipe files at all is decided
/// by `scan_directory_for_recipes`.
pub fn create_local_recipe_info(entry: &ScannedEntry) -> (r: Option<RecipeInfo>)
    ensures
        r is Some <==> entry.parsed is Some,
        r is Some ==> describes(r->0, *entry),
{
    match &entry.parsed {
        None => None,
        Some(summary) => {
            let name = match &entry.stem {
                Some(s) => s.clone(),
                None => String::from_str("unknown"),
            };
            let s = summary.duplicate();
            Some(
                RecipeInfo {
                    name,
                    source: RecipeSource::Local,
                    path: entry.path.clone(),
                    title: Some(s.title),
                    description: Some(s.description),
                },
            )
        },
    }
}

/// The listing of one directory: an entry for each recipe file that parsed,
/// in the order given. A file that fails to parse is left out and does not
/// stop the scan.
pub fn scan_directory_for_recipes(entries: &Vec<ScannedEntry>) -> (r: Vec<RecipeInfo>)
    ensures
        describes_all(r@, listed_entries(entries@)),
{
    let mut recipes: Vec<RecipeInfo> = Vec::new();
    let mut i: usize = 0;
    while i < entries.len()
        invariant
            i <= entries@.len(),
            describes_all(recipes@, listed_entries(entries@.subrange(0, i as int))),
        decreases entries@.len() - i,
    {
        let ghost prefix = entries@.subrange(0, i as int + 1);
        proof {
            assert(prefix.drop_last() =~= entries@.subrange(0, i as int));
            assert(prefix.last() == entries@[i as int]);
        }
        let entry = &entries[i];
        let candidate = entry.is_file && match &entry.extension {
            Some(x) => is_recipe_extension(x.as_str()),
            None => false,
        };
        if candidate {
            match create_local_recipe_info(entry) {
                Some(info) => {
                    recipes.push(info);
                },
                None => {},
            }
        }
        i += 1;
    }
    proof {
        assert(entries@.subrange(0, entries@.len() as int) =~= entries@);
    }
    recipes
}

/// The local listing: the listings of the search directories concatenated in
/// search order, with no removal of names that repeat. A directory that does
/// not exist or cannot be read is given with no entries.
pub fn discover_local_recipes(dirs: &Vec<Vec<ScannedEntry>>) -> (r: Vec<RecipeInfo>)
    ensures
        describes_all(r@, listed_local_entries(dirs@)),
{
    let mut recipes: Vec<RecipeInfo> = Vec::new();
    let mut d: usize = 0;
    while d < dirs.len()
        invariant
            d <= dirs@.len(),
            describes_all(recipes@, listed_local_entries(dirs@.subrange(0, d as int))),
        decreases dirs@.len() - d,
    {
        let ghost prefix = dirs@.subrange(0, d as int + 1);
        let ghost before = recipes@;
        proof {
            assert(prefix.drop_last() =~= dirs@.subrange(0, d as int));
            assert(prefix.last() == dirs@[d as int]);
        }
        let mut found = scan_directory_for_recipes(&dirs[d]);
        let ghost added = found@;
        recipes.append(&mut found);
        proof {
            let es = listed_local_entries(dirs@.subrange(0, d as int));
            let more = listed_entries(dirs@[d as int]@);
            assert forall|k: int| 0 <= k < es.len() + more.len() implies describes(
                recipes@[k],
                (es + more)[k],
            ) by {
                if k < es.len() {
                    assert(recipes@[k] == before[k]);
                } else {
                    assert(recipes@[k] == added[k - es.len()]);
                }
            }
        }
        d += 1;
    }
    proof {
        assert(dirs@.subrange(0, dirs@.len() as int) =~= dirs@);
    }
    recipes
}

/// Every recipe that can be listed: the local listing first, then the
/// remote listing, which is given where a remote repository is configured
/// and listing it succeeded (`None` otherwise: local results still come).
pub fn list_available_recipes(
    local_dirs: &Vec<Vec<ScannedEntry>>,
    remote: Option<Vec<RecipeInfo>>,
) -> (r: Vec<RecipeInfo>)
    ensures
        ({
            let local = listed_local_entries(local_dirs@);
            let remote_part = remote_listing(remote);
            &&& r@.len() == local.len() + remote_part.len()
            &&& describes_all(r@.subrange(0, local.len() as int), local)
            &&& r@.subrange(local.len() as int, r@.len() as int) == remote_part
        }),
{
    let mut recipes = discover_local_recipes(local_dirs);
    let ghost local = recipes@;
    let ghost remote_part = remote_listing(remote);
    match remote {
        Some(v) => {
            let mut more = v;
            recipes.append(&mut more);
        },
        None => {},
    }
    proof {
        assert(recipes@.subrange(0, local.len() as int) =~= local);
        assert(recipes@.subrange(local.len() as int, recipes@.len() as int) =~= remote_part);
    }
    recipes
}

/// The description shown for a listed recipe: its description, or
/// `(none)` where it has none or an empty one.
pub open spec fn shown_description(info: RecipeInfo) -> Seq<char> {
    match info.description {
        Some(d) => if d@.len() == 0 {
            "(none)"@
        } else {
            d@
        },
        None => "(none)"@,
    }
}

/// Where a listed recipe comes from, as shown.
pub open spec fn shown_source(info: RecipeInfo) -> Seq<char> {
    match info.source {
        RecipeSource::Local => "local: "@ + info.path@,
        RecipeSource::GitHub => "github: "@ + info.path@,
    }
}

/// The summary line of a listed recipe: name, description, source.
pub open spec fn summary_line(info: RecipeInfo) -> Seq<char> {
    info.name@ + " - "@ + shown_description(info) + " - "@ + shown_source(info)
}

/// The lines shown for one listed recipe: the summary line alone, or, when
/// verbose, the summary indented, then the title where there is one, then
/// the path.
pub open spec fn entry_lines(info: RecipeInfo, verbose: bool) -> Seq<Seq<char>> {
    if verbose {
        seq!["  "@ + summary_line(info)] + match info.title {
            Some(t) => seq!["    Title: "@ + t@],
            None => Seq::empty(),
        } + seq!["    Path: "@ + info.path@]
    } else {
        seq![summary_line(info)]
    }
}

/// The lines for the recipes `rs`, one after another.
pub open spec fn entries_lines(rs: Seq<RecipeInfo>, verbose: bool) -> Seq<Seq<char>>
    decreases rs.len(),
{
    if rs.len() == 0 {
        Seq::empty()
    } else {
        entries_lines(rs.drop_last(), verbose) + entry_lines(rs.last(), verbose)
    }
}

/// The text listing of `rs`: a notice when there is none, else a heading
/// and the lines of each recipe in order.
pub open spec fn listing_text(rs: Seq<RecipeInfo>, verbose: bool) -> Seq<Seq<char>> {
    if rs.len() == 0 {
        seq!["No recipes found"@]
    } else {
        seq!["Available recipes:"@] + entries_lines(rs, verbose)
    }
}

fn summary_text(info: &RecipeInfo) -> (r: String)
    ensures
        r@ == summary_line(*info),
{
    let mut line = info.name.clone();
    line.append(" - ");
    match &info.description {
        Some(d) => {
            if d.unicode_len() == 0 {
                line.append("(none)");
            } else {
                line.append(d.as_str());
            }
        },
        None => {
            line.append("(none)");
        },
    }
    line.append(" - ");
    match info.source {
        RecipeSource::Local => line.append("local: "),
        RecipeSource::GitHub => line.append("github: "),
    }
    line.append(info.path.as_str());
    proof {
        assert(line@ =~= summary_line(*info));
    }
    line
}

/// The lines of the text listing of `recipes`, in order.
pub fn listing_lines(recipes: &Vec<RecipeInfo>, verbose: bool) -> (r: Vec<String>)
    ensures
        string_views(r@) == listing_text(recipes@, verbose),
{
    let mut lines: Vec<String> = Vec::new();
    if recipes.len() == 0 {
        lines.push(String::from_str("No recipes found"));
        proof {
            assert(string_views(lines@) =~= seq!["No recipes found"@]);
        }
        return lines;
    }
    lines.push(String::from_str("Available recipes:"));
    let mut i: usize = 0;
    proof {
        assert(entries_lines(recipes@.subrange(0, 0), verbose) =~= Seq::<Seq<char>>::empty());
        assert(string_views(lines@) =~= seq!["Available recipes:"@] + entries_lines(
            recipes@.subrange(0, 0),
            verbose,
        ));
    }
    while i < recipes.len()
        invariant
            i <= recipes@.len(),
            string_views(lines@) == seq!["Available recipes:"@] + entries_lines(
                recipes@.subrange(0, i as int),
                verbose,
            ),
        decreases recipes@.len() - i,
    {
        let info = &recipes[i];
        let ghost before = string_views(lines@);
        let ghost prefix = recipes@.subrange(0, i as int + 1);
        proof {
            assert(prefix.drop_last() =~= recipes@.subrange(0, i as int));
            assert(prefix.last() == *info);
        }
        let summary = summary_text(info);
        if verbose {
            let mut first = String::from_str("  ");
            first.append(summary.as_str());
            lines.push(first);
            match &info.title {
                Some(t) => {
                    let mut title = String::from_str("    Title: ");
                    title.append(t.as_str());
                    lines.push(title);
                },
                None => {},
            }
            let mut path = String::from_str("    Path: ");
            path.append(info.path.as_str());
            lines.push(path);
        } else {
            lines.push(summary);
        }
        proof {
            let more = entry_lines(*info, verbose);
            assert(string_views(lines@) =~= before + more);
            assert(before + more =~= seq!["Available recipes:"@] + entries_lines(prefix, verbose));
        }
        i += 1;
    }
    proof {
        assert(recipes@.subrange(0, recipes@.len() as int) =~= recipes@);
    }
    lines
}

/// A directory that holds one recipe file that parses and one that does
/// not, in either order, lists exactly one entry: the one that parses.
pub proof fn lemma_malformed_file_left_out(
    good: ScannedEntry,
    bad: ScannedEntry,
    listing: Seq<RecipeInfo>,
    good_first: bool,
)
    requires
        is_listed(good),
        is_candidate(bad),
        bad.parsed is None,
        describes_all(
            listing,
            listed_entries(if good_first { seq![good, bad] } else { seq![bad, good] }),
        ),
    ensures
        listing.len() == 1,
        describes(listing[0], good),
{
    let es = if good_first { seq![good, bad] } else { seq![bad, good] };
    let one = es.drop_last();
    assert(one.drop_last() =~= Seq::<ScannedEntry>::empty());
    assert(listed_entries(one.drop_last()) == Seq::<ScannedEntry>::empty());
    assert(one.last() == es[0]);
    assert(es.last() == es[1]);
    assert(!is_listed(bad));
    if good_first {
        assert(listed_entries(one) =~= seq![good]);
        assert(listed_entries(es) =~= seq![good]);
    } else {
        assert(listed_entries(one) =~= Seq::<ScannedEntry>::empty());
        assert(listed_entries(es) =~= seq![good]);
    }
}

} // verus!
