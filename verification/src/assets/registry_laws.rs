//! What holds of a registry, from the plan of its load to its files.

use vstd::prelude::*;

use super::client::{build_jsdelivr_client, AssetClient};
use super::client_laws::{is_directory_of, lemma_directory_is_the_trimmed_path};
use super::error::AssetError;
use super::index::Index;
use super::race::RaceOutcome;
use super::registry::{
    load_selected_source, probe_default_sources, probe_jsdelivr, probe_uniform, race_concluded,
    registry_from_probe, AssetRegistry, FetchedIndex, LoadPlan, Probe, ProbeSuccess, RoutesProbe,
    RoutesReply,
};
use super::source::{AssetSource, BuiltInSource};

verus! {

/// An explicit base is loaded from as it is written, however it looks; without
/// one the built-in sources race. A selected source is loaded from itself.
pub proof fn law_load_goes_where_it_is_told(
    base: Option<&str>,
    plan: LoadPlan,
    source: Option<AssetSource>,
    source_plan: LoadPlan,
)
    requires
        call_ensures(AssetRegistry::load, (base,), plan),
        call_ensures(AssetRegistry::load_source, (source,), source_plan),
    ensures
        plan is Race <==> base is None,
        base matches Some(text) ==> (plan matches LoadPlan::Selected(AssetSource::Override(origin))
            && origin@ == text@),
        source_plan is Race <==> source is None,
        source matches Some(chosen) ==> source_plan == LoadPlan::Selected(chosen),
{
}

/// An override is displayed as it was given and each built-in source by its
/// own base, whether it was selected or is racing.
pub proof fn law_sources_are_displayed_by_their_base(
    source: AssetSource,
    text: String,
    built_in: BuiltInSource,
    built_in_text: String,
    selected: AssetSource,
    selected_text: String,
)
    requires
        call_ensures(AssetSource::to_string, (&source,), text),
        call_ensures(BuiltInSource::to_string, (&built_in,), built_in_text),
        call_ensures(<AssetSource as From<BuiltInSource>>::from, (built_in,), selected),
        call_ensures(AssetSource::to_string, (&selected,), selected_text),
    ensures
        source matches AssetSource::Override(base) ==> text@ == base@,
        source is Production ==> text@ == "https://assets.openlogi.org"@,
        source is Pages ==> text@ == "https://v0-1-0.openlogi-assets.pages.dev"@,
        source is JsDelivr ==> text@
            == "https://cdn.jsdelivr.net/npm/@logi-assets/catalog@0.1.0"@,
        built_in_text@ == selected_text@,
        selected is Production <==> built_in is Production,
        selected is Pages <==> built_in is Pages,
        selected is JsDelivr <==> built_in is JsDelivr,
{
}

/// Each source is probed at the base that it is displayed by; only jsDelivr
/// itself is probed with its routes, and an override never is.
pub proof fn law_sources_are_probed_at_their_base(
    source: AssetSource,
    text: String,
    probe: Probe,
)
    requires
        call_ensures(AssetSource::to_string, (&source,), text),
        call_ensures(load_selected_source, (&source,), probe),
    ensures
        probe is JsDelivr <==> source is JsDelivr,
        probe matches Probe::Uniform(base) ==> base@ == text@,
{
}

/// The race probes each built-in source once, in the order of the sources, and
/// probes it as a load from that source alone would.
pub proof fn law_race_probes_each_source_once(
    probes: Vec<(BuiltInSource, Probe)>,
    at: int,
    selected: AssetSource,
    probe: Probe,
)
    requires
        call_ensures(probe_default_sources, (), probes),
        0 <= at < probes@.len(),
        call_ensures(<AssetSource as From<BuiltInSource>>::from, (probes@[at].0,), selected),
        call_ensures(load_selected_source, (&selected,), probe),
    ensures
        probes@.len() == 3,
        at == 0 <==> probes@[at].0 == BuiltInSource::Production,
        at == 1 <==> probes@[at].0 == BuiltInSource::Pages,
        at == 2 <==> probes@[at].0 == BuiltInSource::JsDelivr,
        probe is JsDelivr <==> probes@[at].1 is JsDelivr,
        probe matches Probe::Uniform(base) ==> (probes@[at].1 matches Probe::Uniform(same) && same@
            == base@),
{
}

/// A probed origin serves the files of the catalog that it supplied: the
/// catalog and its bytes are kept as they were fetched, and every file is
/// under the origin's base. A failed fetch fails the probe with its own error.
pub proof fn law_probed_origin_serves_its_catalog(
    base: &str,
    fetched: FetchedIndex,
    result: Result<ProbeSuccess, AssetError>,
    asset_path: &str,
    directory: Seq<char>,
    file: &str,
    url: Result<String, AssetError>,
)
    requires
        call_ensures(probe_uniform, (base, fetched), result),
        is_directory_of(directory, asset_path@),
        result matches Ok(probe) ==> call_ensures(
            AssetClient::asset_url,
            (&probe.client, asset_path, file),
            url,
        ),
    ensures
        result is Ok <==> fetched is Ok,
        fetched matches Err(error) ==> result == Err::<ProbeSuccess, AssetError>(error),
        fetched matches Ok((index_bytes, index)) ==> (result matches Ok(probe) && probe.index_bytes
            == index_bytes && probe.index == index && (url matches Ok(text) && text@ == base@
            + "/"@ + directory + file@)),
{
    lemma_directory_is_the_trimmed_path(directory, asset_path@);
}

/// The routes are fetched from beside jsDelivr's catalog, and only once the
/// catalog has arrived, which is kept as it was fetched.
pub proof fn law_routes_follow_the_catalog(
    fetched: FetchedIndex,
    result: Result<RoutesProbe, AssetError>,
    probe: RoutesProbe,
    url: String,
    text: String,
)
    requires
        call_ensures(probe_jsdelivr, (fetched,), result),
        call_ensures(RoutesProbe::routes_url, (&probe,), url),
        call_ensures(AssetSource::to_string, (&AssetSource::JsDelivr,), text),
    ensures
        result is Ok <==> fetched is Ok,
        fetched matches Err(error) ==> result == Err::<RoutesProbe, AssetError>(error),
        fetched matches Ok((index_bytes, index)) ==> (result matches Ok(due) && due.index_bytes
            == index_bytes && due.index == index),
        url@ == text@ + "/"@ + "npm-routes.json"@,
{
}

/// A jsDelivr probe succeeds exactly if its routes arrive and the catalog can
/// be routed by them. It then keeps the catalog and its bytes, and its client
/// knows what the client built for that catalog and those routes knows.
pub proof fn law_jsdelivr_probe_is_routed(
    probe: RoutesProbe,
    reply: RoutesReply,
    result: Result<ProbeSuccess, AssetError>,
    built: Result<AssetClient, AssetError>,
)
    requires
        call_ensures(RoutesProbe::routes_answered, (probe, reply), result),
        reply matches RoutesReply::Parsed(routes) ==> call_ensures(
            build_jsdelivr_client,
            (&probe.index, &routes),
            built,
        ),
    ensures
        result is Ok ==> reply is Parsed,
        reply is Parsed ==> (result is Ok <==> built is Ok),
        result matches Ok(success) ==> success.index_bytes == probe.index_bytes && success.index
            == probe.index && success.client@ == built->Ok_0@,
        reply matches RoutesReply::FetchFailed(error) ==> result == Err::<ProbeSuccess, AssetError>(
            error,
        ),
        reply matches RoutesReply::ParseFailed(cause) ==> (result matches Err(
            AssetError::ParseJson { what, source },
        ) && what@ == "fetched npm-routes.json"@ && source == cause),
{
}

/// The winner of the race is the source that is loaded from, with what its
/// probe found; without a winner the error holds each source's own, or says
/// that the probes went away.
pub proof fn law_race_is_concluded_by_its_winner(
    outcome: RaceOutcome<ProbeSuccess>,
    result: Result<(AssetSource, ProbeSuccess), AssetError>,
    winner: BuiltInSource,
    selected: AssetSource,
)
    requires
        call_ensures(race_concluded, (outcome,), result),
        call_ensures(<AssetSource as From<BuiltInSource>>::from, (winner,), selected),
    ensures
        result is Ok <==> outcome is Use,
        outcome matches RaceOutcome::Use(source, probe) ==> (source == winner ==> result == Ok::<
            (AssetSource, ProbeSuccess),
            AssetError,
        >((selected, probe))),
        outcome matches RaceOutcome::AllFailed { production, pages, jsdelivr } ==> (result matches
            Err(AssetError::SourcesUnavailable { production: p, pages: g, jsdelivr: j }) && p
            == production && g == pages && j == jsdelivr),
        outcome is Interrupted ==> result == Err::<(AssetSource, ProbeSuccess), AssetError>(
            AssetError::SourceProbeInterrupted,
        ),
{
}

/// A registry is what its probe found, on the source that was probed. It is
/// had only once the catalog has been written, under its name and byte for
/// byte.
pub proof fn law_registry_is_what_was_probed(
    source: AssetSource,
    probe: ProbeSuccess,
    file: (&'static str, &Vec<u8>),
    written: Result<(), AssetError>,
    result: Result<AssetRegistry, AssetError>,
    client: &AssetClient,
    index: &Index,
    shown: &AssetSource,
)
    requires
        call_ensures(ProbeSuccess::index_file, (&probe,), file),
        call_ensures(registry_from_probe, (source, probe, written), result),
        result matches Ok(registry) ==> {
            &&& call_ensures(AssetRegistry::client, (&registry,), client)
            &&& call_ensures(AssetRegistry::index, (&registry,), index)
            &&& call_ensures(AssetRegistry::source, (&registry,), shown)
        },
    ensures
        file.0@ == "index.json"@,
        file.1@ == probe.index_bytes@,
        result is Ok <==> written is Ok,
        written matches Err(error) ==> result == Err::<AssetRegistry, AssetError>(error),
        result is Ok ==> *client == probe.client && *index == probe.index && *shown == source,
{
}

} // verus!
