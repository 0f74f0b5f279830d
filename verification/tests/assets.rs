use openlogi::assets::client::{build_jsdelivr_client, AssetClient};
use openlogi::assets::error::AssetError;
use openlogi::assets::index::{
    DeviceEntry, Index, NpmRoutes, ASSET_VERSION, INDEX_NAME, NPM_ROUTES_SCHEMA,
};
use openlogi::assets::name_map::NameMap;
use openlogi::assets::race::RaceOutcome;
use openlogi::assets::registry::{
    load_selected_source, probe_default_sources, probe_jsdelivr,
    probe_uniform, race_concluded, registry_from_probe, AssetRegistry, LoadPlan, Probe,
    ProbeSuccess, RoutesReply,
};
use openlogi::assets::source::{AssetSource, BuiltInSource, JSDELIVR_CATALOG_BASE};

fn device(asset_path: &str) -> DeviceEntry {
    DeviceEntry {
        model_id: "2b043".to_owned(),
        model_ids: vec!["2b043".to_owned(), "2b034".to_owned()],
        display_name: "MX Master 3S".to_owned(),
        kind: "MOUSE".to_owned(),
        asset_path: asset_path.to_owned(),
        files: Vec::new(),
    }
}

fn one_device_index() -> Index {
    Index {
        schema_version: 1,
        devices: NameMap::from_entries(vec![(
            "mx_master_3s".to_owned(),
            device("v1/devices/mx_master_3s/"),
        )]),
    }
}

fn routes_for(package_version: &str) -> NpmRoutes {
    NpmRoutes {
        schema_version: NPM_ROUTES_SCHEMA,
        package_version: package_version.to_owned(),
        devices: NameMap::from_entries(vec![(
            "mx_master_3s".to_owned(),
            "@logi-assets/pointing".to_owned(),
        )]),
    }
}

fn fetch_error() -> AssetError {
    AssetError::Fetch {
        url: "https://example.test".to_owned(),
        reason: "refused".to_owned(),
    }
}

fn uniform_probe(base: &str) -> ProbeSuccess {
    match probe_uniform(base, Ok((vec![1, 2], one_device_index()))) {
        Ok(probe) => probe,
        Err(_) => panic!("the catalog arrived"),
    }
}

#[test]
fn npm_route_preserves_the_cloudflare_path_inside_its_shard() {
    let index = one_device_index();
    let routes = routes_for(ASSET_VERSION);

    let url = build_jsdelivr_client(&index, &routes)
        .ok()
        .and_then(|client| {
            client
                .asset_url("v1/devices/mx_master_3s/", "front_core.png")
                .ok()
        });

    assert_eq!(
        url.as_deref(),
        Some(
            "https://cdn.jsdelivr.net/npm/@logi-assets/pointing@0.1.0/v1/devices/mx_master_3s/front_core.png"
        )
    );
}

#[test]
fn npm_routes_must_match_the_pinned_asset_version() {
    let index = one_device_index();
    let routes = routes_for("0.0.2");

    assert!(matches!(
        build_jsdelivr_client(&index, &routes),
        Err(AssetError::NpmRoutesVersionMismatch { .. })
    ));
}

#[test]
fn every_catalog_depot_requires_an_npm_route() {
    let index = one_device_index();
    let routes = NpmRoutes {
        schema_version: NPM_ROUTES_SCHEMA,
        package_version: ASSET_VERSION.to_owned(),
        devices: NameMap::new(),
    };

    assert!(matches!(
        build_jsdelivr_client(&index, &routes),
        Err(AssetError::MissingNpmRoute { depot }) if depot == "mx_master_3s"
    ));
}

#[test]
fn the_schema_is_checked_before_the_version() {
    let mut routes = routes_for("0.0.2");
    routes.schema_version = 2;

    assert!(matches!(
        build_jsdelivr_client(&one_device_index(), &routes),
        Err(AssetError::UnsupportedNpmRoutesSchema {
            expected: 1,
            found: 2
        })
    ));
}

#[test]
fn a_version_mismatch_names_both_versions() {
    assert!(matches!(
        build_jsdelivr_client(&one_device_index(), &routes_for("0.0.2")),
        Err(AssetError::NpmRoutesVersionMismatch { expected, found })
            if expected == "0.1.0" && found == "0.0.2"
    ));
}

#[test]
fn the_first_unrouted_depot_of_the_walk_is_reported() {
    let index = Index {
        schema_version: 1,
        devices: NameMap::from_entries(vec![
            ("mx_master_3s".to_owned(), device("v1/a/")),
            ("second".to_owned(), device("v1/b/")),
            ("third".to_owned(), device("v1/c/")),
        ]),
    };

    assert!(matches!(
        build_jsdelivr_client(&index, &routes_for(ASSET_VERSION)),
        Err(AssetError::MissingNpmRoute { depot }) if depot == "second"
    ));
}

#[test]
fn leading_slashes_are_trimmed_on_both_sides() {
    let index = Index {
        schema_version: 1,
        devices: NameMap::from_entries(vec![("mx_master_3s".to_owned(), device("//v1/mx/"))]),
    };
    let client = match build_jsdelivr_client(&index, &routes_for(ASSET_VERSION)) {
        Ok(client) => client,
        Err(_) => panic!("every depot is routed"),
    };
    let expected = "https://cdn.jsdelivr.net/npm/@logi-assets/pointing@0.1.0/v1/mx/side.png";

    for path in ["v1/mx/", "/v1/mx/", "///v1/mx/"] {
        assert_eq!(client.asset_url(path, "side.png").ok().as_deref(), Some(expected));
    }
}

#[test]
fn an_unrouted_directory_has_no_url() {
    let client = match build_jsdelivr_client(&one_device_index(), &routes_for(ASSET_VERSION)) {
        Ok(client) => client,
        Err(_) => panic!("every depot is routed"),
    };

    assert!(matches!(
        client.asset_url("v1/devices/other/", "front_core.png"),
        Err(AssetError::UnroutedAsset { asset_path }) if asset_path == "v1/devices/other/"
    ));
}

#[test]
fn a_uniform_client_serves_files_below_its_base() {
    let client = AssetClient::new("https://assets.openlogi.org");

    assert_eq!(
        client.asset_url("/v1/devices/a/", "b.png").ok().as_deref(),
        Some("https://assets.openlogi.org/v1/devices/a/b.png")
    );
}

#[test]
fn two_depots_in_one_directory_share_the_later_package() {
    let index = Index {
        schema_version: 1,
        devices: NameMap::from_entries(vec![
            ("a".to_owned(), device("v1/shared/")),
            ("b".to_owned(), device("/v1/shared/")),
        ]),
    };
    let routes = NpmRoutes {
        schema_version: 1,
        package_version: "0.1.0".to_owned(),
        devices: NameMap::from_entries(vec![
            ("a".to_owned(), "one".to_owned()),
            ("b".to_owned(), "two".to_owned()),
        ]),
    };

    let url = build_jsdelivr_client(&index, &routes)
        .ok()
        .and_then(|client| client.asset_url("v1/shared/", "f").ok());

    assert_eq!(
        url.as_deref(),
        Some("https://cdn.jsdelivr.net/npm/two@0.1.0/v1/shared/f")
    );
}

#[test]
fn a_name_map_keeps_the_later_value() {
    let mut map: NameMap<u32> = NameMap::from_entries(vec![
        ("a".to_owned(), 1),
        ("b".to_owned(), 2),
        ("a".to_owned(), 3),
    ]);
    assert_eq!(map.len(), 2);
    assert_eq!(map.get("a"), Some(&3));
    assert_eq!(map.get("c"), None);

    map.insert("c".to_owned(), 4);
    map.insert("b".to_owned(), 5);
    assert_eq!(map.len(), 3);
    assert_eq!(map.get("b"), Some(&5));
    assert_eq!(map.get("c"), Some(&4));
    let mut names: Vec<String> = (0..map.len()).map(|at| map.entry(at).0.clone()).collect();
    names.sort();
    assert_eq!(names, ["a", "b", "c"]);
}

#[test]
fn an_explicit_base_is_a_uniform_override() {
    assert!(matches!(
        AssetRegistry::load(Some("https://mirror.test")),
        LoadPlan::Selected(AssetSource::Override(base)) if base == "https://mirror.test"
    ));
    assert!(matches!(AssetRegistry::load(None), LoadPlan::Race));
    assert!(matches!(
        AssetRegistry::load_source(Some(AssetSource::Pages)),
        LoadPlan::Selected(AssetSource::Pages)
    ));
    assert!(matches!(AssetRegistry::load_source(None), LoadPlan::Race));
}

#[test]
fn only_the_jsdelivr_source_loads_routes() {
    assert!(matches!(
        load_selected_source(&AssetSource::JsDelivr),
        Probe::JsDelivr
    ));
    assert!(matches!(
        load_selected_source(&AssetSource::Override(JSDELIVR_CATALOG_BASE.to_owned())),
        Probe::Uniform(base) if base == JSDELIVR_CATALOG_BASE
    ));
    assert!(matches!(
        load_selected_source(&AssetSource::Production),
        Probe::Uniform(base) if base == "https://assets.openlogi.org"
    ));
    assert!(matches!(
        load_selected_source(&AssetSource::Pages),
        Probe::Uniform(base) if base == "https://v0-1-0.openlogi-assets.pages.dev"
    ));
}

#[test]
fn the_built_in_sources_race() {
    let probes = probe_default_sources();

    assert_eq!(probes.len(), 3);
    assert!(matches!(
        &probes[0],
        (BuiltInSource::Production, Probe::Uniform(base)) if base == "https://assets.openlogi.org"
    ));
    assert!(matches!(
        &probes[1],
        (BuiltInSource::Pages, Probe::Uniform(base))
            if base == "https://v0-1-0.openlogi-assets.pages.dev"
    ));
    assert!(matches!(&probes[2], (BuiltInSource::JsDelivr, Probe::JsDelivr)));
}

#[test]
fn sources_display_as_their_base() {
    assert_eq!(
        AssetSource::Production.to_string(),
        "https://assets.openlogi.org"
    );
    assert_eq!(
        BuiltInSource::JsDelivr.to_string(),
        "https://cdn.jsdelivr.net/npm/@logi-assets/catalog@0.1.0"
    );
    assert_eq!(AssetSource::Override("x".to_owned()).to_string(), "x");
    assert_eq!(AssetSource::from(BuiltInSource::Pages), AssetSource::Pages);
}

#[test]
fn a_uniform_probe_keeps_the_fetched_bytes() {
    let probe = uniform_probe("https://mirror.test");

    assert_eq!(probe.index_bytes, [1, 2]);
    assert_eq!(probe.index_file(), ("index.json", &vec![1, 2]));
    assert_eq!(probe.index.devices.len(), 1);
    assert_eq!(
        probe.client.asset_url("p/", "f").ok().as_deref(),
        Some("https://mirror.test/p/f")
    );
    assert!(matches!(
        probe_uniform("https://mirror.test", Err(fetch_error())),
        Err(AssetError::Fetch { .. })
    ));
}

#[test]
fn a_jsdelivr_probe_goes_on_to_the_routes() {
    let probe = match probe_jsdelivr(Ok((vec![7], one_device_index()))) {
        Ok(probe) => probe,
        Err(_) => panic!("the catalog arrived"),
    };
    assert_eq!(
        probe.routes_url(),
        "https://cdn.jsdelivr.net/npm/@logi-assets/catalog@0.1.0/npm-routes.json"
    );

    let success = match probe.routes_answered(RoutesReply::Parsed(routes_for(ASSET_VERSION))) {
        Ok(success) => success,
        Err(_) => panic!("every depot is routed"),
    };
    assert_eq!(success.index_bytes, [7]);
    assert!(success
        .client
        .asset_url("v1/devices/mx_master_3s/", "front_core.png")
        .is_ok());
}

#[test]
fn a_jsdelivr_probe_reports_what_failed() {
    assert!(matches!(
        probe_jsdelivr(Err(fetch_error())),
        Err(AssetError::Fetch { .. })
    ));

    let probe = || match probe_jsdelivr(Ok((vec![7], one_device_index()))) {
        Ok(probe) => probe,
        Err(_) => panic!("the catalog arrived"),
    };
    assert!(matches!(
        probe().routes_answered(RoutesReply::FetchFailed(fetch_error())),
        Err(AssetError::Fetch { .. })
    ));
    let cause = match serde_json::from_slice::<u32>(b"not json") {
        Ok(_) => panic!("that is no number"),
        Err(cause) => cause,
    };
    assert!(matches!(
        probe().routes_answered(RoutesReply::ParseFailed(cause)),
        Err(AssetError::ParseJson { what, source })
            if what == "fetched npm-routes.json" && source.is_syntax()
    ));
    assert!(matches!(
        probe().routes_answered(RoutesReply::Parsed(routes_for("9"))),
        Err(AssetError::NpmRoutesVersionMismatch { .. })
    ));
}

#[test]
fn a_race_concludes_with_its_winner_or_its_errors() {
    let won = race_concluded(RaceOutcome::Use(BuiltInSource::Pages, uniform_probe("https://p")));
    assert!(matches!(won, Ok((AssetSource::Pages, _))));

    let lost = race_concluded(RaceOutcome::AllFailed {
        production: Box::new(fetch_error()),
        pages: Box::new(AssetError::SourceProbeInterrupted),
        jsdelivr: Box::new(fetch_error()),
    });
    assert!(matches!(
        lost,
        Err(AssetError::SourcesUnavailable { pages, .. })
            if matches!(*pages, AssetError::SourceProbeInterrupted)
    ));

    assert!(matches!(
        race_concluded(RaceOutcome::Interrupted),
        Err(AssetError::SourceProbeInterrupted)
    ));
}

#[test]
fn a_registry_is_pinned_to_the_probed_mirror() {
    assert_eq!(INDEX_NAME, "index.json");
    let registry = match registry_from_probe(
        AssetSource::Production,
        uniform_probe("https://assets.openlogi.org"),
        Ok(()),
    ) {
        Ok(registry) => registry,
        Err(_) => panic!("the catalog was written"),
    };
    assert_eq!(*registry.source(), AssetSource::Production);
    assert_eq!(registry.index().devices.len(), 1);
    assert_eq!(
        registry.client().asset_url("a/", "b").ok().as_deref(),
        Some("https://assets.openlogi.org/a/b")
    );

    let failed = registry_from_probe(
        AssetSource::Production,
        uniform_probe("https://assets.openlogi.org"),
        Err(AssetError::WriteFile {
            path: "index.json".to_owned(),
            reason: "read-only".to_owned(),
        }),
    );
    assert!(matches!(failed, Err(AssetError::WriteFile { .. })));
}
