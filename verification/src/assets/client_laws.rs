//! What holds of every client, and of the one that is built for jsDelivr.

use vstd::prelude::*;

use super::client::{
    build_jsdelivr_client, directory_at, package_by_directory, without_leading_slashes, AssetClient,
    Mirror,
};
use super::error::AssetError;
use super::index::{DeviceEntry, Index, NpmRoutes};
use super::name_map::NameMap;

verus! {

/// The directory is the path but for the slashes in front of it: it starts
/// with none itself.
pub open spec fn is_directory_of(directory: Seq<char>, path: Seq<char>) -> bool {
    let dropped = path.len() - directory.len();
    &&& 0 <= dropped
    &&& path.skip(dropped) == directory
    &&& forall|i: int| 0 <= i < dropped ==> #[trigger] path[i] == '/'
    &&& directory.len() > 0 ==> directory[0] != '/'
}

/// A path has one directory.
pub proof fn lemma_directory_is_the_trimmed_path(directory: Seq<char>, path: Seq<char>)
    ensures
        is_directory_of(directory, path) <==> directory == without_leading_slashes(path),
    decreases path.len(),
{
    if path.len() > 0 && path[0] == '/' {
        let rest = path.drop_first();
        lemma_directory_is_the_trimmed_path(directory, rest);
        if is_directory_of(directory, path) {
            let dropped = path.len() - directory.len();
            if dropped == 0 {
                assert(path.skip(0)[0] == '/');
            }
            assert(rest.skip(dropped - 1) =~= path.skip(dropped));
            assert forall|i: int| 0 <= i < dropped - 1 implies #[trigger] rest[i] == '/' by {
                assert(path[i + 1] == '/');
            }
        }
        if is_directory_of(directory, rest) {
            let dropped = path.len() - directory.len();
            assert(rest.skip(dropped - 1) =~= path.skip(dropped));
            assert forall|i: int| 0 <= i < dropped implies #[trigger] path[i] == '/' by {
                if i > 0 {
                    assert(rest[i - 1] == '/');
                }
            }
        }
    } else {
        if is_directory_of(directory, path) {
            let dropped = path.len() - directory.len();
            if dropped > 0 {
                assert(path[0] == '/');
            }
            assert(path.skip(0) =~= path);
        }
        if directory == path {
            assert(path.skip(0) =~= path);
        }
    }
}

/// A client of a uniform origin has every file under the origin's base: the
/// base, a slash, the directory and the file.
pub proof fn law_uniform_origin_serves_every_file(
    base: &str,
    client: AssetClient,
    asset_path: &str,
    directory: Seq<char>,
    file: &str,
    url: Result<String, AssetError>,
)
    requires
        call_ensures(AssetClient::new, (base,), client),
        is_directory_of(directory, asset_path@),
        call_ensures(AssetClient::asset_url, (&client, asset_path, file), url),
    ensures
        url matches Ok(text) && text@ == base@ + "/"@ + directory + file@,
{
    lemma_directory_is_the_trimmed_path(directory, asset_path@);
}

/// A client of npm packages has a file exactly if its directory has a package:
/// under the package root, in that package at the version, the directory and
/// the file. Otherwise the error names the path that was asked for.
pub proof fn law_npm_packages_serve_their_directories(
    catalog_base: &str,
    package_root: &str,
    version: &str,
    packages: NameMap<String>,
    client: AssetClient,
    asset_path: &str,
    directory: &str,
    package: Option<&String>,
    file: &str,
    url: Result<String, AssetError>,
)
    requires
        call_ensures(
            AssetClient::new_jsdelivr,
            (catalog_base, package_root, version, packages),
            client,
        ),
        is_directory_of(directory@, asset_path@),
        call_ensures(NameMap::<String>::get, (&packages, directory), package),
        call_ensures(AssetClient::asset_url, (&client, asset_path, file), url),
    ensures
        package matches Some(name) ==> (url matches Ok(text) && text@ == package_root@ + "/"@ + name@
            + "@"@ + version@ + "/"@ + directory@ + file@),
        package is None ==> (url matches Err(AssetError::UnroutedAsset { asset_path: unrouted })
            && unrouted@ == asset_path@),
{
    lemma_directory_is_the_trimmed_path(directory@, asset_path@);
}

/// Whether a file has a URL, and which, does not depend on the slashes in
/// front of its directory.
pub proof fn law_slashes_in_front_do_not_matter(
    client: AssetClient,
    asset_path: &str,
    slashed: &str,
    file: &str,
    url: Result<String, AssetError>,
    other: Result<String, AssetError>,
)
    requires
        slashed@ == seq!['/'] + asset_path@,
        call_ensures(AssetClient::asset_url, (&client, asset_path, file), url),
        call_ensures(AssetClient::asset_url, (&client, slashed, file), other),
    ensures
        call_requires(AssetClient::asset_url, (&client, asset_path, file)),
        url is Ok <==> other is Ok,
        url matches Ok(text) ==> (other matches Ok(same) && same@ == text@),
        url matches Err(error) ==> (error matches AssetError::UnroutedAsset {
            asset_path: unrouted,
        } && unrouted@ == asset_path@),
{
    assert(slashed@[0] == '/');
    assert(slashed@.drop_first() =~= asset_path@);
}

/// A routing catalog is accepted exactly if it has the schema 1, belongs to
/// the asset release 0.1.0 and has a route for each depot of the index.
pub proof fn law_complete_routes_are_accepted(
    index: Index,
    routes: NpmRoutes,
    result: Result<AssetClient, AssetError>,
)
    requires
        call_ensures(build_jsdelivr_client, (&index, &routes), result),
    ensures
        call_requires(build_jsdelivr_client, (&index, &routes)),
        result is Ok <==> {
            &&& routes.schema_version == 1
            &&& routes.package_version@ == "0.1.0"@
            &&& forall|i: int|
                0 <= i < index.devices.walk().len() ==> routes.devices@.contains_key(
                    (#[trigger] index.devices.walk()[i]).0,
                )
        },
{
    let walk = index.devices.walk();
    assert(routes.packages().dom() =~= routes.devices@.dom());
    if forall|i: int|
        0 <= i < walk.len() ==> routes.devices@.contains_key((#[trigger] walk[i]).0) {
        assert forall|i: int| 0 <= i < walk.len() implies routes.packages().contains_key(
            (#[trigger] walk[i]).0,
        ) by {
            assert(routes.devices@.contains_key(walk[i].0));
        }
    }
    if result is Ok {
        assert forall|i: int| 0 <= i < walk.len() implies routes.devices@.contains_key(
            (#[trigger] walk[i]).0,
        ) by {
            assert(routes.packages().contains_key(walk[i].0));
        }
    }
}

/// Why a routing catalog is refused: another schema comes before another
/// release, and both before a missing route, which is that of the first depot
/// of the walk without one.
pub proof fn law_refused_routes_name_the_reason(
    index: Index,
    routes: NpmRoutes,
    error: AssetError,
)
    requires
        call_ensures(build_jsdelivr_client, (&index, &routes), Err(error)),
    ensures
        match error {
            AssetError::UnsupportedNpmRoutesSchema { expected, found } => {
                &&& expected == 1
                &&& found == routes.schema_version
                &&& found != 1
            },
            AssetError::NpmRoutesVersionMismatch { expected, found } => {
                &&& routes.schema_version == 1
                &&& expected@ == "0.1.0"@
                &&& found@ == routes.package_version@
                &&& found@ != expected@
            },
            AssetError::MissingNpmRoute { depot } => {
                &&& routes.schema_version == 1
                &&& routes.package_version@ == "0.1.0"@
                &&& !routes.devices@.contains_key(depot@)
                &&& exists|at: int|
                    0 <= at < index.devices.walk().len() && (
                    #[trigger] index.devices.walk()[at]).0 == depot@ && forall|i: int|
                        0 <= i < at ==> routes.devices@.contains_key(
                            (#[trigger] index.devices.walk()[i]).0,
                        )
            },
            _ => false,
        },
{
    let walk = index.devices.walk();
    assert(routes.packages().dom() =~= routes.devices@.dom());
    if let AssetError::MissingNpmRoute { depot } = error {
        let at = choose|at: int|
            0 <= at < walk.len() && depot@ == (#[trigger] walk[at]).0
                && !routes.packages().contains_key(walk[at].0) && forall|i: int|
                0 <= i < at ==> routes.packages().contains_key((#[trigger] walk[i]).0);
        assert(walk[at].0 == depot@);
        assert forall|i: int| 0 <= i < at implies routes.devices@.contains_key(
            (#[trigger] walk[i]).0,
        ) by {
            assert(routes.packages().contains_key(walk[i].0));
        }
    }
}

proof fn lemma_latest_device_of_a_directory_counts(
    walk: Seq<(Seq<char>, DeviceEntry)>,
    packages: Map<Seq<char>, Seq<char>>,
    directory: Seq<char>,
    at: int,
)
    requires
        0 <= at < walk.len(),
        directory_at(walk, at) == directory,
        forall|i: int| at < i < walk.len() ==> #[trigger] directory_at(walk, i) != directory,
    ensures
        package_by_directory(walk, packages).contains_pair(directory, packages[walk[at].0]),
    decreases walk.len(),
{
    let before = walk.drop_last();
    let last = walk.len() - 1;
    if at < last {
        assert(forall|i: int|
            0 <= i < last ==> #[trigger] directory_at(before, i) == directory_at(walk, i));
        assert(directory_at(walk, last) != directory);
        lemma_latest_device_of_a_directory_counts(before, packages, directory, at);
    }
}

proof fn lemma_unknown_directory_has_no_package(
    walk: Seq<(Seq<char>, DeviceEntry)>,
    packages: Map<Seq<char>, Seq<char>>,
    directory: Seq<char>,
)
    requires
        forall|i: int| 0 <= i < walk.len() ==> #[trigger] directory_at(walk, i) != directory,
    ensures
        !package_by_directory(walk, packages).contains_key(directory),
    decreases walk.len(),
{
    if walk.len() > 0 {
        let before = walk.drop_last();
        let last = walk.len() - 1;
        assert forall|i: int| 0 <= i < before.len() implies #[trigger] directory_at(before, i)
            != directory by {
            assert(directory_at(before, i) == directory_at(walk, i));
        }
        assert(directory_at(walk, last) != directory);
        lemma_unknown_directory_has_no_package(before, packages, directory);
    }
}

/// The last place of a walk with the directory that the place `at` has.
proof fn lemma_directory_has_a_latest_device(
    walk: Seq<(Seq<char>, DeviceEntry)>,
    directory: Seq<char>,
    at: int,
    end: int,
) -> (latest: int)
    requires
        0 <= at < end <= walk.len(),
        directory_at(walk, at) == directory,
        forall|i: int| end <= i < walk.len() ==> #[trigger] directory_at(walk, i) != directory,
    ensures
        at <= latest < walk.len(),
        directory_at(walk, latest) == directory,
        forall|i: int| latest < i < walk.len() ==> #[trigger] directory_at(walk, i) != directory,
    decreases end,
{
    if directory_at(walk, end - 1) == directory {
        end - 1
    } else {
        lemma_directory_has_a_latest_device(walk, directory, at, end - 1)
    }
}

/// The client that is built for a catalog locates each of its devices: for
/// every place of the walk and every file there is a URL, under the package
/// root and in the version 0.1.0 of a package. Where no depot that is walked
/// later shares the directory, the package is that of the device's own depot,
/// and the URL keeps the directory inside it.
pub proof fn law_built_client_locates_every_device(
    index: Index,
    routes: NpmRoutes,
    client: AssetClient,
    at: int,
    asset_path: &str,
    directory: Seq<char>,
    file: &str,
    url: Result<String, AssetError>,
)
    requires
        call_ensures(build_jsdelivr_client, (&index, &routes), Ok(client)),
        0 <= at < index.devices.walk().len(),
        asset_path@ == index.devices.walk()[at].1.asset_path@,
        is_directory_of(directory, asset_path@),
        call_ensures(AssetClient::asset_url, (&client, asset_path, file), url),
    ensures
        url is Ok,
        (forall|later: int|
            at < later < index.devices.walk().len() ==> !is_directory_of(
                directory,
                (#[trigger] index.devices.walk()[later]).1.asset_path@,
            )) ==> url->Ok_0@ == "https://cdn.jsdelivr.net/npm"@ + "/"@
            + routes.devices@[index.devices.walk()[at].0]@ + "@"@ + "0.1.0"@ + "/"@ + directory
            + file@,
{
    let walk = index.devices.walk();
    let packages = routes.packages();
    lemma_directory_is_the_trimmed_path(directory, asset_path@);
    assert(directory_at(walk, at) == directory);
    let latest = lemma_directory_has_a_latest_device(
        walk,
        directory,
        at,
        walk.len() as int,
    );
    lemma_latest_device_of_a_directory_counts(walk, packages, directory, latest);
    if forall|later: int|
        at < later < walk.len() ==> !is_directory_of(
            directory,
            (#[trigger] walk[later]).1.asset_path@,
        ) {
        if at < latest {
            lemma_directory_is_the_trimmed_path(directory, walk[latest].1.asset_path@);
            assert(!is_directory_of(directory, walk[latest].1.asset_path@));
        }
        assert(packages.contains_key(walk[at].0));
        assert(packages[walk[at].0] == routes.devices@[walk[at].0]@);
    }
}

/// The client that is built for a catalog is pinned to jsDelivr: to the
/// catalog package and the package root, at one release.
pub proof fn law_built_client_is_pinned_to_jsdelivr(
    index: Index,
    routes: NpmRoutes,
    client: AssetClient,
)
    requires
        call_ensures(build_jsdelivr_client, (&index, &routes), Ok(client)),
    ensures
        client@ matches Mirror::JsDelivr { catalog_base, package_root, version, .. } && catalog_base
            == "https://cdn.jsdelivr.net/npm/@logi-assets/catalog@0.1.0"@ && package_root
            == "https://cdn.jsdelivr.net/npm"@ && version == routes.package_version@,
{
}

/// The client that is built for a catalog locates nothing else: a path whose
/// directory no device of the catalog has is refused by its name.
pub proof fn law_built_client_locates_nothing_else(
    index: Index,
    routes: NpmRoutes,
    client: AssetClient,
    asset_path: &str,
    directory: Seq<char>,
    file: &str,
    url: Result<String, AssetError>,
)
    requires
        call_ensures(build_jsdelivr_client, (&index, &routes), Ok(client)),
        is_directory_of(directory, asset_path@),
        forall|i: int|
            0 <= i < index.devices.walk().len() ==> !is_directory_of(
                directory,
                (#[trigger] index.devices.walk()[i]).1.asset_path@,
            ),
        call_ensures(AssetClient::asset_url, (&client, asset_path, file), url),
    ensures
        url matches Err(AssetError::UnroutedAsset { asset_path: unrouted }) && unrouted@
            == asset_path@,
{
    let walk = index.devices.walk();
    lemma_directory_is_the_trimmed_path(directory, asset_path@);
    assert forall|i: int| 0 <= i < walk.len() implies #[trigger] directory_at(walk, i)
        != directory by {
        lemma_directory_is_the_trimmed_path(directory, walk[i].1.asset_path@);
        assert(!is_directory_of(directory, walk[i].1.asset_path@));
    }
    lemma_unknown_directory_has_no_package(walk, routes.packages(), directory);
}

} // verus!
