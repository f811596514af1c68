//! Resolution and discovery of recipe files: the search path, the order in
//! which candidate files are tried, the listing of every recipe that can be
//! found, and the deep link that carries a recipe in a URL.

pub mod catalog;
pub mod deeplink;
pub mod resolve;
pub mod search_path;

pub use catalog::{
    create_local_recipe_info, discover_local_recipes, is_recipe_extension, list_available_recipes,
    listing_lines, scan_directory_for_recipes, RecipeInfo, RecipeSource, RecipeSummary,
    ScannedEntry,
};
pub use deeplink::{deeplink_config, deeplink_url};
pub use resolve::{
    read_recipe_in_dir, retrieve_recipe_file, retrieve_recipe_from_local_path, DirProbe,
    RecipeError, RecipeFile, Resolution,
};
pub use search_path::{
    ends_with, is_direct_path, path_list_separator, recipe_extension, recipe_search_dirs,
    split_path_list, starts_with, RECIPE_EXTENSION_COUNT,
};
