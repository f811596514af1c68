use goose_recipes::{
    ends_with, is_direct_path, path_list_separator, read_recipe_in_dir, recipe_extension,
    recipe_search_dirs, retrieve_recipe_file, retrieve_recipe_from_local_path, split_path_list,
    starts_with, DirProbe, RecipeError, RecipeFile, Resolution, RECIPE_EXTENSION_COUNT,
};

fn file(content: &str, parent: &str) -> RecipeFile {
    RecipeFile { content: content.to_string(), parent_dir: parent.to_string() }
}

fn probe(dir: &str, yaml: Option<RecipeFile>, json: Option<RecipeFile>) -> DirProbe {
    DirProbe { dir: dir.to_string(), found: vec![yaml, json] }
}

fn local_content(r: &Resolution) -> (String, String) {
    match r {
        Resolution::Local(f) => (f.content.clone(), f.parent_dir.clone()),
        _ => panic!("expected a local recipe"),
    }
}

#[test]
fn extensions_are_yaml_then_json() {
    assert_eq!(RECIPE_EXTENSION_COUNT, 2);
    assert_eq!(recipe_extension(0), "yaml");
    assert_eq!(recipe_extension(1), "json");
}

#[test]
fn separator_depends_on_platform() {
    assert_eq!(path_list_separator(true), ';');
    assert_eq!(path_list_separator(false), ':');
}

#[test]
fn suffix_and_prefix_tests() {
    assert!(ends_with("recipe.yaml", ".yaml"));
    assert!(!ends_with("yaml", ".yaml"));
    assert!(ends_with("", ""));
    assert!(starts_with("goose://x", "goose://"));
    assert!(!starts_with("goo", "goose"));
}

#[test]
fn direct_path_classification() {
    assert!(is_direct_path("recipes/a.yaml"));
    assert!(is_direct_path("b.json"));
    assert!(!is_direct_path("a"));
    assert!(!is_direct_path("a.yml"));
    assert!(!is_direct_path("yaml"));
}

#[test]
fn split_keeps_empty_pieces() {
    assert_eq!(split_path_list("a:b", ':'), vec!["a".to_string(), "b".to_string()]);
    assert_eq!(split_path_list("", ':'), vec!["".to_string()]);
    assert_eq!(split_path_list("a::b:", ':'), vec!["a", "", "b", ""]);
    assert_eq!(split_path_list("c:\\x;d", ';'), vec!["c:\\x", "d"]);
}

#[test]
fn search_dirs_without_environment_is_current_directory_only() {
    assert_eq!(recipe_search_dirs(None, ':'), vec![".".to_string()]);
}

#[test]
fn search_dirs_keep_declared_order_and_repeats() {
    assert_eq!(recipe_search_dirs(Some("/b:/a:/b"), ':'), vec![".", "/b", "/a", "/b"]);
    assert_eq!(recipe_search_dirs(Some("/x:/y"), ';'), vec![".", "/x:/y"]);
}

#[test]
fn current_directory_wins_over_later_directory() {
    let probes = vec![
        probe(".", Some(file("here", "/cwd")), None),
        probe("/later", Some(file("there", "/later")), None),
    ];
    let r = retrieve_recipe_file("r", &probes, &None);
    assert_eq!(local_content(&r), ("here".to_string(), "/cwd".to_string()));
}

#[test]
fn local_match_wins_over_remote() {
    let probes = vec![probe(".", None, None), probe("/later", None, Some(file("j", "/later")))];
    let r = retrieve_recipe_file("r", &probes, &Some("org/repo".to_string()));
    assert_eq!(local_content(&r), ("j".to_string(), "/later".to_string()));
}

#[test]
fn yaml_preferred_over_json_in_same_directory() {
    let p = probe("/d", Some(file("yaml text", "/d")), Some(file("json text", "/d")));
    for _ in 0..3 {
        match read_recipe_in_dir(&p, "r") {
            Ok(f) => assert_eq!(f.content, "yaml text"),
            Err(_) => panic!("expected the yaml candidate"),
        }
    }
}

#[test]
fn json_used_when_yaml_missing() {
    let p = probe("/d", None, Some(file("json text", "/d")));
    match read_recipe_in_dir(&p, "r") {
        Ok(f) => assert_eq!(f.content, "json text"),
        Err(_) => panic!("expected the json candidate"),
    }
}

#[test]
fn empty_directory_names_expected_files() {
    let p = probe("/d", None, None);
    match read_recipe_in_dir(&p, "r") {
        Err(e) => {
            assert!(matches!(e, RecipeError::NotInDirectory { .. }));
            assert_eq!(e.message(), "No r.yaml or r.json recipe file found in directory: /d");
        }
        Ok(_) => panic!("expected an error"),
    }
}

#[test]
fn direct_path_never_searches() {
    let probes = vec![probe(".", Some(file("x", "/cwd")), None)];
    match retrieve_recipe_file("missing.yaml", &probes, &Some("org/repo".to_string())) {
        Resolution::ReadPath(p) => assert_eq!(p, "missing.yaml"),
        _ => panic!("expected a direct path"),
    }
}

#[test]
fn later_directory_content_and_parent_used() {
    let probes = vec![
        probe(".", None, None),
        probe("/a", None, None),
        probe("/b", None, Some(file("from b", "/real/b"))),
    ];
    let r = retrieve_recipe_file("r", &probes, &None);
    assert_eq!(local_content(&r), ("from b".to_string(), "/real/b".to_string()));
}

#[test]
fn nothing_found_falls_back_to_remote() {
    let probes = vec![probe(".", None, None)];
    match retrieve_recipe_file("r", &probes, &Some("org/repo".to_string())) {
        Resolution::FetchRemote { repo, name } => {
            assert_eq!(repo, "org/repo");
            assert_eq!(name, "r");
        }
        _ => panic!("expected a remote fetch"),
    }
}

#[test]
fn nothing_found_without_remote_lists_current_directory() {
    let dirs = recipe_search_dirs(None, ':');
    let probes: Vec<DirProbe> = dirs.iter().map(|d| probe(d, None, None)).collect();
    match retrieve_recipe_file("r", &probes, &None) {
        Resolution::Failed(e) => {
            match &e {
                RecipeError::NotFound { searched, .. } => assert_eq!(searched, &vec![".".to_string()]),
                _ => panic!("expected NotFound"),
            }
            assert_eq!(e.message(), "\u{2139}\u{fe0f}  Failed to retrieve r.yaml or r.json in .");
        }
        _ => panic!("expected a failure"),
    }
}

#[test]
fn not_found_lists_every_searched_directory() {
    let probes = vec![probe(".", None, None), probe("/a", None, None), probe("/b", None, None)];
    match retrieve_recipe_from_local_path("r", &probes) {
        Err(e) => assert_eq!(e.message(), "\u{2139}\u{fe0f}  Failed to retrieve r.yaml or r.json in .:/a:/b"),
        Ok(_) => panic!("expected an error"),
    }
}

#[test]
fn read_and_path_error_messages() {
    let read = RecipeError::Read { path: "a.yaml".to_string(), cause: "denied".to_string() };
    assert_eq!(read.message(), "Failed to read recipe file a.yaml: denied");
    let path = RecipeError::Path { path: "a.yaml".to_string(), cause: "gone".to_string() };
    assert_eq!(path.message(), "Failed to resolve absolute path for a.yaml: gone");
}
