use geoengine_core::migrations::all_migrations;
use geoengine_core::resolve::{resolve_named_data, NamedData, NamedDataResolution};
use geoengine_core::search::create_search_query;

#[test]
fn migrations_chain_in_order() {
    let migrations = all_migrations();
    assert_eq!(migrations.len(), 8);
    assert!(migrations[0].prev_version.is_none());
    assert_eq!(migrations[0].version, "0000_initial");
    assert_eq!(migrations[7].version, "0007_owner_role");
    for i in 1..migrations.len() {
        assert_eq!(
            migrations[i].prev_version.as_deref(),
            Some(migrations[i - 1].version.as_str())
        );
    }
}

#[test]
fn search_query_lists_full_columns() {
    let q = create_search_query(true);
    assert!(q.contains("FALSE AS is_layer"));
    assert!(q.contains("TRUE AS is_layer"));
    assert!(q.contains("ORDER BY is_layer ASC, name ASC"));
    assert!(q.starts_with("WITH RECURSIVE parents"));
    assert!(q.ends_with("LIMIT $2 OFFSET $3;"));
}

#[test]
fn search_query_for_autocompletion_is_names_only() {
    let q = create_search_query(false);
    assert!(!q.contains("is_layer"));
    assert!(q.contains("SELECT name FROM user_permitted_layer_collections"));
    assert!(q.contains("ORDER BY  name ASC"));
}

#[test]
fn named_data_resolves_by_provider_presence() {
    let external = resolve_named_data(NamedData {
        provider: Some("provider-a".to_owned()),
        name: "ports".to_owned(),
    });
    match external {
        NamedDataResolution::External { provider, layer } => {
            assert_eq!(provider, "provider-a");
            assert_eq!(layer, "ports");
        }
        NamedDataResolution::Dataset { .. } => panic!("a provider reference is external"),
    }

    let dataset = resolve_named_data(NamedData {
        provider: None,
        name: "ndvi".to_owned(),
    });
    match dataset {
        NamedDataResolution::Dataset { name } => assert_eq!(name, "ndvi"),
        NamedDataResolution::External { .. } => panic!("a bare name is a catalog dataset"),
    }
}
