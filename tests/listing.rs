use goose_recipes::{
    create_local_recipe_info, discover_local_recipes, is_recipe_extension, list_available_recipes,
    listing_lines, scan_directory_for_recipes, RecipeInfo, RecipeSource, RecipeSummary,
    ScannedEntry,
};

fn entry(path: &str, stem: Option<&str>, ext: Option<&str>, parsed: bool) -> ScannedEntry {
    ScannedEntry {
        path: path.to_string(),
        stem: stem.map(|s| s.to_string()),
        extension: ext.map(|s| s.to_string()),
        is_file: true,
        parsed: if parsed {
            Some(RecipeSummary { title: format!("T {}", path), description: "D".to_string() })
        } else {
            None
        },
    }
}

fn remote(name: &str) -> RecipeInfo {
    RecipeInfo {
        name: name.to_string(),
        source: RecipeSource::GitHub,
        path: format!("recipes/{}", name),
        title: Some("Remote".to_string()),
        description: None,
    }
}

fn names(v: &[RecipeInfo]) -> Vec<String> {
    v.iter().map(|i| i.name.clone()).collect()
}

#[test]
fn recognized_extensions_only() {
    assert!(is_recipe_extension("yaml"));
    assert!(is_recipe_extension("json"));
    assert!(!is_recipe_extension("yml"));
    assert!(!is_recipe_extension("YAML"));
}

#[test]
fn local_info_from_parsed_file() {
    let info = create_local_recipe_info(&entry("/d/a.yaml", Some("a"), Some("yaml"), true)).unwrap();
    assert_eq!(info.name, "a");
    assert_eq!(info.source, RecipeSource::Local);
    assert_eq!(info.path, "/d/a.yaml");
    assert_eq!(info.title, Some("T /d/a.yaml".to_string()));
    assert_eq!(info.description, Some("D".to_string()));
}

#[test]
fn local_info_without_utf8_stem_is_unknown() {
    let info = create_local_recipe_info(&entry("/d/x.json", None, Some("json"), true)).unwrap();
    assert_eq!(info.name, "unknown");
}

#[test]
fn local_info_follows_parse_outcome_only() {
    let txt = create_local_recipe_info(&entry("/d/a.txt", Some("a"), Some("txt"), true)).unwrap();
    assert_eq!(txt.name, "a");
    assert_eq!(txt.path, "/d/a.txt");
    assert!(create_local_recipe_info(&entry("/d/a", Some("a"), None, true)).is_some());
    assert!(create_local_recipe_info(&entry("/d/a.yaml", Some("a"), Some("yaml"), false)).is_none());
}

#[test]
fn scan_skips_non_recipe_entries() {
    let mut dir = entry("/d/sub.yaml", Some("sub"), Some("yaml"), true);
    dir.is_file = false;
    let entries = vec![
        entry("/d/a.txt", Some("a"), Some("txt"), true),
        entry("/d/b", Some("b"), None, true),
        dir,
        entry("/d/c.json", Some("c"), Some("json"), true),
    ];
    assert_eq!(names(&scan_directory_for_recipes(&entries)), vec!["c"]);
}

#[test]
fn malformed_recipe_left_out_of_listing() {
    let entries = vec![
        entry("/d/good.yaml", Some("good"), Some("yaml"), true),
        entry("/d/bad.yaml", Some("bad"), Some("yaml"), false),
    ];
    let listed = scan_directory_for_recipes(&entries);
    assert_eq!(names(&listed), vec!["good"]);
    let all = list_available_recipes(&vec![entries], None);
    assert_eq!(all.len(), 1);
}

#[test]
fn listing_keeps_search_order_and_repeated_names() {
    let dirs = vec![
        vec![entry("./a.yaml", Some("a"), Some("yaml"), true)],
        vec![],
        vec![
            entry("/p/a.json", Some("a"), Some("json"), true),
            entry("/p/b.yaml", Some("b"), Some("yaml"), true),
        ],
    ];
    let local = discover_local_recipes(&dirs);
    assert_eq!(names(&local), vec!["a", "a", "b"]);
    assert_eq!(local[1].path, "/p/a.json");
}

#[test]
fn remote_entries_follow_local_ones() {
    let dirs = vec![vec![entry("./a.yaml", Some("a"), Some("yaml"), true)]];
    let all = list_available_recipes(&dirs, Some(vec![remote("r1"), remote("r2")]));
    assert_eq!(names(&all), vec!["a", "r1", "r2"]);
    assert_eq!(all[1].source, RecipeSource::GitHub);
    let local_only = list_available_recipes(&dirs, None);
    assert_eq!(names(&local_only), vec!["a"]);
}

#[test]
fn empty_listing_text() {
    assert_eq!(listing_lines(&vec![], false), vec!["No recipes found"]);
    assert_eq!(listing_lines(&vec![], true), vec!["No recipes found"]);
}

#[test]
fn plain_listing_text() {
    let local = create_local_recipe_info(&entry("./a.yaml", Some("a"), Some("yaml"), true)).unwrap();
    let lines = listing_lines(&vec![local, remote("r")], false);
    assert_eq!(
        lines,
        vec![
            "Available recipes:",
            "a - D - local: ./a.yaml",
            "r - (none) - github: recipes/r",
        ]
    );
}

#[test]
fn verbose_listing_text() {
    let mut local = create_local_recipe_info(&entry("./a.yaml", Some("a"), Some("yaml"), true)).unwrap();
    local.description = Some(String::new());
    let mut r = remote("r");
    r.title = None;
    let lines = listing_lines(&vec![local, r], true);
    assert_eq!(
        lines,
        vec![
            "Available recipes:",
            "  a - (none) - local: ./a.yaml",
            "    Title: T ./a.yaml",
            "    Path: ./a.yaml",
            "  r - (none) - github: recipes/r",
            "    Path: recipes/r",
        ]
    );
}
