use vstd::prelude::*;
use vstd::string::*;

verus! {

/// The recognized recipe file extensions, in order of priority.
pub open spec fn recipe_extensions() -> Seq<Seq<char>> {
    seq!["yaml"@, "json"@]
}

/// How many recognized recipe file extensions there are.
pub const RECIPE_EXTENSION_COUNT: usize = 2;

/// `s` ends with `suffix`.
pub open spec fn has_suffix(s: Seq<char>, suffix: Seq<char>) -> bool {
    suffix.len() <= s.len() && s.subrange(s.len() - suffix.len(), s.len() as int) == suffix
}

/// `s` starts with `prefix`.
pub open spec fn has_prefix(s: Seq<char>, prefix: Seq<char>) -> bool {
    prefix.len() <= s.len() && s.subrange(0, prefix.len() as int) == prefix
}

/// The file name suffix that extension `ext` stands for: a dot, then `ext`.
pub open spec fn dotted(ext: Seq<char>) -> Seq<char> {
    seq!['.'] + ext
}

/// An identifier is a direct path when it ends in a recognized extension.
pub open spec fn is_direct_path_spec(name: Seq<char>) -> bool {
    has_suffix(name, dotted(recipe_extensions()[0])) || has_suffix(
        name,
        dotted(recipe_extensions()[1]),
    )
}

/// The pieces of `s` between occurrences of `sep`, left to right; an empty
/// string is one empty piece, and two adjacent separators give an empty piece.
pub open spec fn split_on(s: Seq<char>, sep: char) -> Seq<Seq<char>>
    decreases s.len(),
{
    if s.len() == 0 {
        seq![Seq::<char>::empty()]
    } else {
        let front = split_on(s.drop_last(), sep);
        if s.last() == sep {
            front.push(Seq::<char>::empty())
        } else {
            front.update(front.len() - 1, front.last().push(s.last()))
        }
    }
}

/// The characters of each string, in order.
pub open spec fn string_views(v: Seq<String>) -> Seq<Seq<char>> {
    v.map_values(|s: String| s@)
}

/// The search directory list: the current directory, then each entry of the
/// configured path list in the order written.
pub open spec fn search_dirs_spec(env_value: Option<Seq<char>>, sep: char) -> Seq<Seq<char>> {
    match env_value {
        None => seq!["."@],
        Some(v) => seq!["."@] + split_on(v, sep),
    }
}

/// The recognized extension at position `i`, without its dot.
pub fn recipe_extension(i: usize) -> (r: &'static str)
    requires
        i < RECIPE_EXTENSION_COUNT,
    ensures
        r@ == recipe_extensions()[i as int],
{
    if i == 0 {
        "yaml"
    } else {
        "json"
    }
}

/// The character that separates the entries of a path list: `;` on Windows,
/// `:` elsewhere.
pub fn path_list_separator(windows: bool) -> (r: char)
    ensures
        r == (if windows { ';' } else { ':' }),
{
    if windows {
        ';'
    } else {
        ':'
    }
}

/// Whether `s` ends with `suffix`.
pub fn ends_with(s: &str, suffix: &str) -> (r: bool)
    ensures
        r == has_suffix(s@, suffix@),
{
    let n = s.unicode_len();
    let m = suffix.unicode_len();
    if m > n {
        return false;
    }
    let mut i: usize = 0;
    while i < m
        invariant
            i <= m,
            m <= n,
            n == s@.len(),
            m == suffix@.len(),
            forall|j: int| 0 <= j < i ==> s@[n - m + j] == suffix@[j],
        decreases m - i,
    {
        if s.get_char(n - m + i) != suffix.get_char(i) {
            assert(s@.subrange(n - m, n as int)[i as int] != suffix@[i as int]);
            return false;
        }
        i += 1;
    }
    assert(s@.subrange(n - m, n as int) =~= suffix@);
    true
}

/// Whether `s` starts with `prefix`.
pub fn starts_with(s: &str, prefix: &str) -> (r: bool)
    ensures
        r == has_prefix(s@, prefix@),
{
    let n = s.unicode_len();
    let m = prefix.unicode_len();
    if m > n {
        return false;
    }
    let mut i: usize = 0;
    while i < m
        invariant
            i <= m,
            m <= n,
            n == s@.len(),
            m == prefix@.len(),
            forall|j: int| 0 <= j < i ==> s@[j] == prefix@[j],
        decreases m - i,
    {
        if s.get_char(i) != prefix.get_char(i) {
            assert(s@.subrange(0, m as int)[i as int] != prefix@[i as int]);
            return false;
        }
        i += 1;
    }
    assert(s@.subrange(0, m as int) =~= prefix@);
    true
}

/// Whether a recipe identifier is a direct path: it ends in a recognized
/// extension and is then read as it stands, never searched for.
pub fn is_direct_path(recipe_name: &str) -> (r: bool)
    ensures
        r == is_direct_path_spec(recipe_name@),
{
    proof {
        reveal_strlit(".yaml");
        reveal_strlit(".json");
        reveal_strlit("yaml");
        reveal_strlit("json");
        assert(".yaml"@ =~= dotted(recipe_extensions()[0]));
        assert(".json"@ =~= dotted(recipe_extensions()[1]));
    }
    ends_with(recipe_name, ".yaml") || ends_with(recipe_name, ".json")
}

/// Splits a path list at each `sep`, keeping empty entries.
pub fn split_path_list(s: &str, sep: char) -> (r: Vec<String>)
    ensures
        string_views(r@) == split_on(s@, sep),
{
    let n = s.unicode_len();
    let mut pieces: Vec<String> = Vec::new();
    let mut start: usize = 0;
    let mut i: usize = 0;
    proof {
        assert(s@.subrange(0, 0) =~= Seq::<char>::empty());
        assert(string_views(pieces@).push(s@.subrange(0, 0)) =~= split_on(
            s@.subrange(0, 0),
            sep,
        ));
    }
    while i < n
        invariant
            n == s@.len(),
            start <= i <= n,
            string_views(pieces@).push(s@.subrange(start as int, i as int)) == split_on(
                s@.subrange(0, i as int),
                sep,
            ),
        decreases n - i,
    {
        let c = s.get_char(i);
        let ghost before = s@.subrange(0, i as int);
        let ghost after = s@.subrange(0, i as int + 1);
        proof {
            assert(after.drop_last() =~= before);
            assert(after.last() == c);
        }
        if c == sep {
            let piece = String::from_str(s.substring_char(start, i));
            pieces.push(piece);
            proof {
                assert(string_views(pieces@) =~= string_views(pieces@.drop_last()).push(
                    piece@,
                ));
            }
            start = i + 1;
            proof {
                assert(s@.subrange(start as int, i as int + 1) =~= Seq::<char>::empty());
            }
        } else {
            proof {
                assert(s@.subrange(start as int, i as int + 1) =~= s@.subrange(
                    start as int,
                    i as int,
                ).push(c));
            }
        }
        i += 1;
    }
    let last = String::from_str(s.substring_char(start, n));
    pieces.push(last);
    proof {
        assert(s@.subrange(0, n as int) =~= s@);
        assert(string_views(pieces@) =~= string_views(pieces@.drop_last()).push(last@));
    }
    pieces
}

/// Builds the search directory list: `.` first, then the entries of
/// `env_value` split at `sep`, in the order written, with no check that they
/// exist and no removal of repeats.
pub fn recipe_search_dirs(env_value: Option<&str>, sep: char) -> (r: Vec<String>)
    ensures
        string_views(r@) == search_dirs_spec(
            match env_value {
                None => None,
                Some(v) => Some(v@),
            },
            sep,
        ),
{
    let mut dirs: Vec<String> = Vec::new();
    dirs.push(String::from_str("."));
    proof {
        assert(string_views(dirs@) =~= seq!["."@]);
    }
    match env_value {
        None => dirs,
        Some(v) => {
            let extra = split_path_list(v, sep);
            let mut k: usize = 0;
            while k < extra.len()
                invariant
                    k <= extra.len(),
                    string_views(dirs@) == seq!["."@] + string_views(extra@.subrange(0, k as int)),
                decreases extra.len() - k,
            {
                let d = extra[k].clone();
                dirs.push(d);
                proof {
                    assert(d@ == extra@[k as int]@);
                    assert(string_views(extra@.subrange(0, k as int + 1)) =~= string_views(
                        extra@.subrange(0, k as int),
                    ).push(extra@[k as int]@));
                    assert(string_views(dirs@) =~= string_views(dirs@.drop_last()).push(
                        extra@[k as int]@,
                    ));
                    assert(seq!["."@] + string_views(extra@.subrange(0, k as int + 1)) =~= (seq![
                        "."@,
                    ] + string_views(extra@.subrange(0, k as int))).push(extra@[k as int]@));
                }
                k += 1;
            }
            proof {
                assert(extra@.subrange(0, extra@.len() as int) =~= extra@);
            }
            dirs
        },
    }
}

} // verus!
