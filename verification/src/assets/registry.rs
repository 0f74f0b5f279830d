//! Loading a registry from the selected mirror.
//!
//! Whoever loads a registry does the fetching and writing; the functions here
//! say what to fetch next and what the answers come to.

use vstd::prelude::*;

use super::client::{
    build_jsdelivr_client, law_file_urls_stay_on_the_mirror, routing_result, AssetClient, Mirror,
    JSDELIVR_PACKAGE_ROOT,
};
use super::error::AssetError;
use super::index::{Index, NpmRoutes, ASSET_VERSION, INDEX_NAME, NPM_ROUTES_NAME};
use super::race::RaceOutcome;
use super::source::{
    AssetSource, BuiltInSource, JSDELIVR_CATALOG_BASE, PAGES_BASE, PRODUCTION_BASE,
};

verus! {

/// A parsed registry and the client pinned to the mirror that supplied it.
pub struct AssetRegistry {
    client: AssetClient,
    index: Index,
    source: AssetSource,
}

/// How a registry is to be loaded.
pub enum LoadPlan {
    /// Probe the selected source.
    Selected(AssetSource),
    /// Probe the built-in sources and let them race.
    Race,
}

impl AssetRegistry {
    /// The client of the registry.
    pub closed spec fn pinned_client(self) -> AssetClient {
        self.client
    }

    /// The catalog of the registry.
    pub closed spec fn catalog(self) -> Index {
        self.index
    }

    /// The source of the registry.
    pub closed spec fn selected(self) -> AssetSource {
        self.source
    }

    /// Plans a load: an explicit `base` is used as a uniform origin, without
    /// one the built-in sources race.
    pub fn load(base: Option<&str>) -> (plan: LoadPlan)
        ensures
            match base {
                Some(base) => plan matches LoadPlan::Selected(AssetSource::Override(origin))
                    && origin@ == base@,
                None => plan is Race,
            },
    {
        match base {
            Some(base) => Self::load_source(Some(AssetSource::Override(base.to_owned()))),
            None => Self::load_source(None),
        }
    }

    /// Plans a load from one selected source, or a race of the built-in ones
    /// when `source` is `None`.
    pub fn load_source(source: Option<AssetSource>) -> (plan: LoadPlan)
        ensures
            plan == match source {
                Some(source) => LoadPlan::Selected(source),
                None => LoadPlan::Race,
            },
    {
        match source {
            Some(source) => LoadPlan::Selected(source),
            None => LoadPlan::Race,
        }
    }

    /// Client pinned to the selected mirror for the lifetime of this registry.
    pub fn client(&self) -> (client: &AssetClient)
        ensures
            *client == self.pinned_client(),
    {
        &self.client
    }

    /// Parsed `index.json` returned by the selected mirror.
    pub fn index(&self) -> (index: &Index)
        ensures
            *index == self.catalog(),
    {
        &self.index
    }

    /// Mirror selected by the source probes.
    pub fn source(&self) -> (source: &AssetSource)
        ensures
            *source == self.selected(),
    {
        &self.source
    }
}

/// The catalog of a mirror, with the client that serves its files.
pub struct ProbeSuccess {
    pub client: AssetClient,
    pub index_bytes: Vec<u8>,
    pub index: Index,
}

/// How a source is probed.
pub enum Probe {
    /// One origin serves the catalog and every file.
    Uniform(String),
    /// The jsDelivr catalog, whose npm routes are loaded and checked too.
    JsDelivr,
}

/// A mirror's catalog as it was fetched, with its raw bytes.
pub type FetchedIndex = Result<(Vec<u8>, Index), AssetError>;

/// The probe is the one for the source.
pub open spec fn is_probe_of(probe: Probe, source: AssetSource) -> bool {
    match source {
        AssetSource::JsDelivr => probe is JsDelivr,
        _ => probe matches Probe::Uniform(base) && base@ == source.base(),
    }
}

/// How the selected source is probed. A jsDelivr catalog URL passed as an
/// override is a uniform origin like any other.
pub fn load_selected_source(source: &AssetSource) -> (probe: Probe)
    ensures
        is_probe_of(probe, *source),
{
    match source {
        AssetSource::Production => Probe::Uniform(PRODUCTION_BASE.to_owned()),
        AssetSource::Pages => Probe::Uniform(PAGES_BASE.to_owned()),
        AssetSource::JsDelivr => Probe::JsDelivr,
        AssetSource::Override(base) => Probe::Uniform(base.clone()),
    }
}

/// The sources that race when none is selected, each with its probe, in the
/// order in which they are started.
pub fn probe_default_sources() -> (probes: Vec<(BuiltInSource, Probe)>)
    ensures
        probes@.len() == 3,
        probes@[0].0 == BuiltInSource::Production,
        probes@[1].0 == BuiltInSource::Pages,
        probes@[2].0 == BuiltInSource::JsDelivr,
        forall|i: int|
            0 <= i < probes@.len() ==> is_probe_of(
                (#[trigger] probes@[i]).1,
                probes@[i].0.selected(),
            ),
{
    let mut probes: Vec<(BuiltInSource, Probe)> = Vec::new();
    probes.push((BuiltInSource::Production, Probe::Uniform(PRODUCTION_BASE.to_owned())));
    probes.push((BuiltInSource::Pages, Probe::Uniform(PAGES_BASE.to_owned())));
    probes.push((BuiltInSource::JsDelivr, Probe::JsDelivr));
    probes
}

/// What probing the uniform origin `base` comes to, given its catalog.
pub fn probe_uniform(base: &str, fetched: FetchedIndex) -> (result: Result<
    ProbeSuccess,
    AssetError,
>)
    ensures
        match fetched {
            Err(error) => result == Err::<ProbeSuccess, AssetError>(error),
            Ok((index_bytes, index)) => {
                &&& result matches Ok(probe)
                &&& probe.client@ == (Mirror::Uniform { base: base@ })
                &&& probe.index_bytes == index_bytes
                &&& probe.index == index
            },
        },
{
    match fetched {
        Err(error) => Err(error),
        Ok((index_bytes, index)) => Ok(
            ProbeSuccess { client: AssetClient::new(base), index_bytes, index },
        ),
    }
}

/// A jsDelivr probe whose catalog has arrived and whose routes are due.
pub struct RoutesProbe {
    pub index_bytes: Vec<u8>,
    pub index: Index,
}

/// What came of fetching and parsing the routing catalog.
pub enum RoutesReply {
    FetchFailed(AssetError),
    ParseFailed(serde_json::Error),
    Parsed(NpmRoutes),
}

/// Goes on with a jsDelivr probe once the catalog has been asked for at
/// [`JSDELIVR_CATALOG_BASE`]: the routes are fetched only where it arrived.
pub fn probe_jsdelivr(fetched: FetchedIndex) -> (result: Result<RoutesProbe, AssetError>)
    ensures
        result == match fetched {
            Ok((index_bytes, index)) => Ok(RoutesProbe { index_bytes, index }),
            Err(error) => Err(error),
        },
{
    match fetched {
        Ok((index_bytes, index)) => Ok(RoutesProbe { index_bytes, index }),
        Err(error) => Err(error),
    }
}

impl RoutesProbe {
    /// Where the routing catalog is fetched from.
    pub fn routes_url(&self) -> (url: String)
        ensures
            url@ == JSDELIVR_CATALOG_BASE@ + "/"@ + NPM_ROUTES_NAME@,
    {
        let mut url = JSDELIVR_CATALOG_BASE.to_owned();
        url.append("/");
        url.append(NPM_ROUTES_NAME);
        url
    }

    /// Ends the probe with what came of the routing catalog.
    pub fn routes_answered(self, reply: RoutesReply) -> (result: Result<ProbeSuccess, AssetError>)
        ensures
            match reply {
                RoutesReply::FetchFailed(error) => result == Err::<ProbeSuccess, AssetError>(error),
                RoutesReply::ParseFailed(cause) => {
                    &&& result matches Err(AssetError::ParseJson { what, source })
                    &&& what@ == "fetched npm-routes.json"@
                    &&& source == cause
                },
                RoutesReply::Parsed(routes) => match result {
                    Ok(probe) => {
                        &&& routing_result(self.index, routes, Ok(probe.client))
                        &&& pins(Probe::JsDelivr, probe.client@)
                        &&& probe.index_bytes == self.index_bytes
                        &&& probe.index == self.index
                    },
                    Err(error) => routing_result(self.index, routes, Err(error)),
                },
            },
    {
        match reply {
            RoutesReply::FetchFailed(error) => Err(error),
            RoutesReply::ParseFailed(source) => Err(
                AssetError::ParseJson { what: "fetched npm-routes.json".to_owned(), source },
            ),
            RoutesReply::Parsed(routes) => match build_jsdelivr_client(&self.index, &routes) {
                Err(error) => Err(error),
                Ok(client) => Ok(
                    ProbeSuccess { client, index_bytes: self.index_bytes, index: self.index },
                ),
            },
        }
    }
}

/// What a decided race comes to: the winner and what its probe found, or why
/// there is none.
pub fn race_concluded(outcome: RaceOutcome<ProbeSuccess>) -> (result: Result<
    (AssetSource, ProbeSuccess),
    AssetError,
>)
    ensures
        result == match outcome {
            RaceOutcome::Use(source, probe) => Ok((source.selected(), probe)),
            RaceOutcome::AllFailed { production, pages, jsdelivr } => Err(
                AssetError::SourcesUnavailable { production, pages, jsdelivr },
            ),
            RaceOutcome::Interrupted => Err(AssetError::SourceProbeInterrupted),
        },
{
    match outcome {
        RaceOutcome::Use(source, probe) => Ok((AssetSource::from(source), probe)),
        RaceOutcome::AllFailed { production, pages, jsdelivr } => Err(
            AssetError::SourcesUnavailable { production, pages, jsdelivr },
        ),
        RaceOutcome::Interrupted => Err(AssetError::SourceProbeInterrupted),
    }
}

impl ProbeSuccess {
    /// The file that caches the catalog in the asset directory: its name and
    /// its contents, byte for byte as they were fetched.
    pub fn index_file(&self) -> (file: (&'static str, &Vec<u8>))
        ensures
            file.0@ == INDEX_NAME@,
            file.1@ == self.index_bytes@,
    {
        (INDEX_NAME, &self.index_bytes)
    }
}

/// The registry of a probed source, once [`ProbeSuccess::index_file`] has been
/// written to the asset directory; `written` says what came of that.
pub fn registry_from_probe(
    source: AssetSource,
    probe: ProbeSuccess,
    written: Result<(), AssetError>,
) -> (result: Result<AssetRegistry, AssetError>)
    ensures
        match written {
            Err(error) => result == Err::<AssetRegistry, AssetError>(error),
            Ok(()) => {
                &&& result matches Ok(registry)
                &&& registry.pinned_client() == probe.client
                &&& registry.catalog() == probe.index
                &&& registry.selected() == source
            },
        },
{
    match written {
        Err(error) => Err(error),
        Ok(()) => Ok(AssetRegistry { client: probe.client, index: probe.index, source }),
    }
}

/// A successful probe of this kind pins its client to this mirror.
pub open spec fn pins(probe: Probe, mirror: Mirror) -> bool {
    match probe {
        Probe::Uniform(base) => mirror == (Mirror::Uniform { base: base@ }),
        Probe::JsDelivr => mirror matches Mirror::JsDelivr {
            catalog_base,
            package_root,
            version,
            ..
        } && catalog_base == JSDELIVR_CATALOG_BASE@ && package_root == JSDELIVR_PACKAGE_ROOT@
            && version == ASSET_VERSION@,
    }
}

/// What the file URLs of a source start with.
pub open spec fn file_root_of(source: AssetSource) -> Seq<char> {
    match source {
        AssetSource::JsDelivr => JSDELIVR_PACKAGE_ROOT@,
        _ => source.base(),
    }
}

/// Whichever source supplied the catalog supplies every file URL of the run:
/// a client pinned by the probe of a source has no URL elsewhere.
pub proof fn law_run_stays_on_the_selected_source(
    source: AssetSource,
    probe: Probe,
    mirror: Mirror,
    asset_path: Seq<char>,
    file: Seq<char>,
)
    requires
        is_probe_of(probe, source),
        pins(probe, mirror),
    ensures
        mirror.url(asset_path, file) matches Some(url) ==> (file_root_of(source)
            + "/"@).is_prefix_of(url),
{
    law_file_urls_stay_on_the_mirror(mirror, asset_path, file);
}

} // verus!
