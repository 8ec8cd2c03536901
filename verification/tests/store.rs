use alkane::config::AlkaneConfig;
use alkane::runner::site::Site;
use alkane::runner::store::RecipesStore;
use std::collections::HashMap;
use std::path::MAIN_SEPARATOR_STR;

fn environment_of(store: &RecipesStore, site: &Site) -> HashMap<String, String> {
    store.get_environment(site).into_iter().collect()
}

#[test]
fn test_get_recipe_path() {
    let expected = "tests/data/recipes/foo.acme.tld/update".replace("/", MAIN_SEPARATOR_STR);

    let test_store_path = "tests/data/recipes".replace("/", MAIN_SEPARATOR_STR);
    let store = RecipesStore::new(&test_store_path);

    assert_eq!(expected, store.get_recipe_path("foo.acme.tld", "update"));
}

#[test]
fn test_get_environment() {
    let mut expected = HashMap::new();
    expected.insert(
        "ALKANE_RECIPES_PATH".to_string(),
        "tests/data/recipes".replace("/", MAIN_SEPARATOR_STR),
    );
    expected.insert("ALKANE_SITE_NAME".to_string(), "foo.acme.tld".to_string());
    expected.insert(
        "ALKANE_SITE_PATH".to_string(),
        "tests/data/wwwroot/acme.tld/foo".replace("/", MAIN_SEPARATOR_STR),
    );

    let test_store_path = "tests/data/recipes".replace("/", MAIN_SEPARATOR_STR);
    let store = RecipesStore::new(&test_store_path);

    let site = Site {
        name: "foo.acme.tld".to_string(),
        path: "tests/data/wwwroot/acme.tld/foo".replace("/", MAIN_SEPARATOR_STR),
        context: None,
    };

    assert_eq!(expected, environment_of(&store, &site));
}

#[test]
fn test_get_environment_with_context() {
    let site = Site {
        name: "foo.acme.tld".to_string(),
        path: "/path/to/site".to_string(),
        context: Some("CH3-CH3".to_string()),
    };

    let environment = environment_of(&RecipesStore::new("/path/to/recipes"), &site);

    assert!(environment.contains_key("ALKANE_SITE_CONTEXT"));
    assert_eq!("CH3-CH3", environment["ALKANE_SITE_CONTEXT"])
}

#[test]
fn environment_names_each_variable_once_and_in_order() {
    let store = RecipesStore::new("/recipes");
    let site = Site {
        name: "foo.acme.tld".to_string(),
        path: "/www/acme.tld/foo".to_string(),
        context: Some(String::new()),
    };
    let expected: Vec<(String, String)> = vec![
        ("ALKANE_RECIPES_PATH".to_string(), "/recipes".to_string()),
        ("ALKANE_SITE_NAME".to_string(), "foo.acme.tld".to_string()),
        ("ALKANE_SITE_PATH".to_string(), "/www/acme.tld/foo".to_string()),
        ("ALKANE_SITE_CONTEXT".to_string(), String::new()),
    ];
    assert_eq!(expected, store.get_environment(&site));

    let site = Site { context: None, ..site };
    assert_eq!(expected[..3].to_vec(), store.get_environment(&site));
}

#[test]
fn recipe_has_a_command_an_environment_and_no_argument() {
    let store = RecipesStore::new("/recipes");
    let site = Site {
        name: "foo.acme.tld".to_string(),
        path: "/www/acme.tld/foo".to_string(),
        context: None,
    };
    let recipe = store.run_recipe(&site, "init");
    assert_eq!(
        format!("/recipes{0}foo.acme.tld{0}init", MAIN_SEPARATOR_STR),
        recipe.command
    );
    assert!(recipe.args.is_empty());
    assert_eq!(store.get_environment(&site), recipe.environment);
}

#[test]
fn store_of_a_configuration_lies_at_its_recipes_root() {
    let config = AlkaneConfig::new(
        vec![("recipes".to_string(), "/opt/recipes".to_string())],
        String::from("%fqdn%"),
    );
    let store = RecipesStore::from_config(&config).expect("the recipes have a root");
    assert_eq!(
        format!("/opt/recipes{0}foo.acme.tld{0}update", MAIN_SEPARATOR_STR),
        store.get_recipe_path("foo.acme.tld", "update")
    );

    let config = AlkaneConfig::new(Vec::new(), String::from("%fqdn%"));
    let store = RecipesStore::from_config(&config).expect("the recipes have a default root");
    assert_eq!(
        format!("/usr/local/libexec/alkane{0}foo.acme.tld{0}init", MAIN_SEPARATOR_STR),
        store.get_recipe_path("foo.acme.tld", "init")
    );
}

#[test]
fn store_parts_paths_by_the_separator_it_was_given() {
    let store = RecipesStore::with_separator("C:\\recipes", "\\");
    assert_eq!(
        "C:\\recipes\\foo.acme.tld\\init",
        store.get_recipe_path("foo.acme.tld", "init")
    );
    let store = RecipesStore::with_separator("/recipes", "/");
    assert_eq!(
        "/recipes/foo.acme.tld/update",
        store.get_recipe_path("foo.acme.tld", "update")
    );
}
