//! Where a mirror keeps a device's files.

use vstd::prelude::*;

use super::error::AssetError;
use super::index::{texts, DeviceEntry, Index, NpmRoutes, ASSET_VERSION, NPM_ROUTES_SCHEMA};
use super::name_map::NameMap;
use super::source::JSDELIVR_CATALOG_BASE;

verus! {

/// jsDelivr prefix shared by every npm asset shard.
pub const JSDELIVR_PACKAGE_ROOT: &'static str = "https://cdn.jsdelivr.net/npm";

/// A path without the slashes it starts with.
pub open spec fn without_leading_slashes(path: Seq<char>) -> Seq<char>
    decreases path.len(),
{
    if path.len() > 0 && path[0] == '/' {
        without_leading_slashes(path.drop_first())
    } else {
        path
    }
}

/// Drops the slashes that `path` starts with.
fn trim_leading_slashes(path: &str) -> (trimmed: String)
    ensures
        trimmed@ == without_leading_slashes(path@),
{
    let len = path.unicode_len();
    let mut at: usize = 0;
    assert(path@.skip(0) =~= path@);
    while at < len && path.get_char(at) == '/'
        invariant
            at <= len == path@.len(),
            without_leading_slashes(path@) == without_leading_slashes(path@.skip(at as int)),
        decreases len - at,
    {
        assert(path@.skip(at as int).drop_first() =~= path@.skip(at + 1));
        at = at + 1;
    }
    assert(path@.subrange(at as int, len as int) =~= path@.skip(at as int));
    path.substring_char(at, len).to_owned()
}

/// npm packages that hold the device directories of a catalog.
struct NpmShards {
    package_root: String,
    version: String,
    package_by_asset_path: NameMap<String>,
}

/// A client pinned to one mirror.
pub struct AssetClient {
    base: String,
    shards: Option<NpmShards>,
}

/// What a client knows of its mirror.
#[verifier::ext_equal]
pub enum Mirror {
    /// One origin serves the catalog and every file.
    Uniform { base: Seq<char> },
    /// The catalog is at `catalog_base`; a device directory is in the npm
    /// package that `packages` gives for it.
    JsDelivr {
        catalog_base: Seq<char>,
        package_root: Seq<char>,
        version: Seq<char>,
        packages: Map<Seq<char>, Seq<char>>,
    },
}

impl Mirror {
    /// The URL of a file in an asset directory, where the mirror has one.
    pub open spec fn url(self, asset_path: Seq<char>, file: Seq<char>) -> Option<Seq<char>> {
        let directory = without_leading_slashes(asset_path);
        match self {
            Mirror::Uniform { base } => Some(base + "/"@ + directory + file),
            Mirror::JsDelivr { package_root, version, packages, .. } => {
                if packages.contains_key(directory) {
                    Some(
                        package_root + "/"@ + packages[directory] + "@"@ + version + "/"@
                            + directory + file,
                    )
                } else {
                    None
                }
            },
        }
    }

    /// What every file URL of the mirror starts with.
    pub open spec fn file_root(self) -> Seq<char> {
        match self {
            Mirror::Uniform { base } => base,
            Mirror::JsDelivr { package_root, .. } => package_root,
        }
    }
}

impl View for AssetClient {
    type V = Mirror;

    closed spec fn view(&self) -> Mirror {
        match self.shards {
            None => Mirror::Uniform { base: self.base@ },
            Some(shards) => Mirror::JsDelivr {
                catalog_base: self.base@,
                package_root: shards.package_root@,
                version: shards.version@,
                packages: texts(shards.package_by_asset_path@),
            },
        }
    }
}

impl AssetClient {
    /// A client of a uniform origin.
    pub fn new(base: &str) -> (client: Self)
        ensures
            client@ == (Mirror::Uniform { base: base@ }),
    {
        AssetClient { base: base.to_owned(), shards: None }
    }

    /// A client of npm packages behind jsDelivr.
    pub fn new_jsdelivr(
        catalog_base: &str,
        package_root: &str,
        version: &str,
        package_by_asset_path: NameMap<String>,
    ) -> (client: Self)
        ensures
            client@ == (Mirror::JsDelivr {
                catalog_base: catalog_base@,
                package_root: package_root@,
                version: version@,
                packages: texts(package_by_asset_path@),
            }),
    {
        AssetClient {
            base: catalog_base.to_owned(),
            shards: Some(
                NpmShards {
                    package_root: package_root.to_owned(),
                    version: version.to_owned(),
                    package_by_asset_path,
                },
            ),
        }
    }

    /// The URL of `file` in the directory `asset_path`, which ends in a slash
    /// as catalogs write it.
    pub fn asset_url(&self, asset_path: &str, file: &str) -> (url: Result<String, AssetError>)
        ensures
            match url {
                Ok(url) => self@.url(asset_path@, file@) == Some(url@),
                Err(AssetError::UnroutedAsset { asset_path: unrouted }) => unrouted@ == asset_path@
                    && self@.url(asset_path@, file@) is None,
                Err(_) => false,
            },
    {
        let directory = trim_leading_slashes(asset_path);
        match &self.shards {
            None => {
                let mut url = self.base.clone();
                url.append("/");
                url.append(directory.as_str());
                url.append(file);
                Ok(url)
            },
            Some(shards) => match shards.package_by_asset_path.get(directory.as_str()) {
                Some(package) => {
                    let mut url = shards.package_root.clone();
                    url.append("/");
                    url.append(package.as_str());
                    url.append("@");
                    url.append(shards.version.as_str());
                    url.append("/");
                    url.append(directory.as_str());
                    url.append(file);
                    Ok(url)
                },
                None => Err(AssetError::UnroutedAsset { asset_path: asset_path.to_owned() }),
            },
        }
    }
}

/// The depot at `at` is the first of the walk that has no package.
pub open spec fn first_unrouted_at(
    walk: Seq<(Seq<char>, DeviceEntry)>,
    packages: Map<Seq<char>, Seq<char>>,
    at: int,
) -> bool {
    &&& 0 <= at < walk.len()
    &&& !packages.contains_key(walk[at].0)
    &&& forall|i: int| 0 <= i < at ==> packages.contains_key((#[trigger] walk[i]).0)
}

/// Every depot of the walk has a package.
pub open spec fn all_routed(
    walk: Seq<(Seq<char>, DeviceEntry)>,
    packages: Map<Seq<char>, Seq<char>>,
) -> bool {
    forall|i: int| 0 <= i < walk.len() ==> packages.contains_key((#[trigger] walk[i]).0)
}

/// The directory of the device at a place of the walk, as URLs name it.
pub open spec fn directory_at(walk: Seq<(Seq<char>, DeviceEntry)>, at: int) -> Seq<char> {
    without_leading_slashes(walk[at].1.asset_path@)
}

/// The package of each device directory; of two depots that share a directory
/// the one walked later counts.
pub open spec fn package_by_directory(
    walk: Seq<(Seq<char>, DeviceEntry)>,
    packages: Map<Seq<char>, Seq<char>>,
) -> Map<Seq<char>, Seq<char>>
    decreases walk.len(),
{
    if walk.len() == 0 {
        Map::empty()
    } else {
        package_by_directory(walk.drop_last(), packages).insert(
            directory_at(walk, walk.len() - 1),
            packages[walk.last().0],
        )
    }
}

/// The jsDelivr mirror for a catalog whose depots are routed by `packages`.
pub open spec fn jsdelivr_mirror(
    walk: Seq<(Seq<char>, DeviceEntry)>,
    packages: Map<Seq<char>, Seq<char>>,
) -> Mirror {
    Mirror::JsDelivr {
        catalog_base: JSDELIVR_CATALOG_BASE@,
        package_root: JSDELIVR_PACKAGE_ROOT@,
        version: ASSET_VERSION@,
        packages: package_by_directory(walk, packages),
    }
}

/// What routing a catalog comes to: the schema is checked first, then the
/// release, then that each depot has a route, in the order of the walk.
pub open spec fn routing_result(
    index: Index,
    routes: NpmRoutes,
    result: Result<AssetClient, AssetError>,
) -> bool {
    let walk = index.devices.walk();
    if routes.schema_version != NPM_ROUTES_SCHEMA {
        result matches Err(AssetError::UnsupportedNpmRoutesSchema { expected, found }) && expected
            == NPM_ROUTES_SCHEMA && found == routes.schema_version
    } else if routes.package_version@ != ASSET_VERSION@ {
        result matches Err(AssetError::NpmRoutesVersionMismatch { expected, found }) && expected@
            == ASSET_VERSION@ && found@ == routes.package_version@
    } else if !all_routed(walk, routes.packages()) {
        result matches Err(AssetError::MissingNpmRoute { depot }) && exists|at: int|
            #[trigger] first_unrouted_at(walk, routes.packages(), at) && depot@ == walk[at].0
    } else {
        result matches Ok(client) && client@ == jsdelivr_mirror(walk, routes.packages())
    }
}

/// Routes every depot of `index` to its npm package.
pub fn build_jsdelivr_client(index: &Index, routes: &NpmRoutes) -> (result: Result<
    AssetClient,
    AssetError,
>)
    ensures
        routing_result(*index, *routes, result),
{
    if routes.schema_version != NPM_ROUTES_SCHEMA {
        return Err(
            AssetError::UnsupportedNpmRoutesSchema {
                expected: NPM_ROUTES_SCHEMA,
                found: routes.schema_version,
            },
        );
    }
    if routes.package_version != ASSET_VERSION.to_owned() {
        return Err(
            AssetError::NpmRoutesVersionMismatch {
                expected: ASSET_VERSION.to_owned(),
                found: routes.package_version.clone(),
            },
        );
    }
    let mut package_by_asset_path: NameMap<String> = NameMap::new();
    let ghost walk = index.devices.walk();
    let ghost packages = routes.packages();
    let mut at: usize = 0;
    proof {
        assert(texts(package_by_asset_path@) =~= Map::<Seq<char>, Seq<char>>::empty());
        assert(walk.take(0) =~= Seq::<(Seq<char>, DeviceEntry)>::empty());
    }
    while at < index.devices.len()
        invariant
            at <= walk.len(),
            walk == index.devices.walk(),
            packages == routes.packages(),
            forall|i: int| 0 <= i < at ==> packages.contains_key((#[trigger] walk[i]).0),
            texts(package_by_asset_path@) == package_by_directory(walk.take(at as int), packages),
            routes.schema_version == NPM_ROUTES_SCHEMA,
            routes.package_version@ == ASSET_VERSION@,
        decreases walk.len() - at,
    {
        let (depot, entry) = index.devices.entry(at);
        match routes.devices.get(depot.as_str()) {
            None => {
                assert(first_unrouted_at(walk, packages, at as int));
                return Err(AssetError::MissingNpmRoute { depot: depot.clone() });
            },
            Some(package) => {
                let ghost before = package_by_asset_path@;
                let directory = trim_leading_slashes(entry.asset_path.as_str());
                package_by_asset_path.insert(directory, package.clone());
                proof {
                    let grown = walk.take(at + 1);
                    assert(grown.drop_last() =~= walk.take(at as int));
                    assert(grown.last() == walk[at as int]);
                    assert(texts(package_by_asset_path@) =~= texts(before).insert(
                        directory@,
                        package@,
                    ));
                }
            },
        }
        at = at + 1;
    }
    assert(walk.take(at as int) =~= walk);
    Ok(
        AssetClient::new_jsdelivr(
            JSDELIVR_CATALOG_BASE,
            JSDELIVR_PACKAGE_ROOT,
            ASSET_VERSION,
            package_by_asset_path,
        ),
    )
}

/// Trimming twice trims no more than trimming once.
proof fn lemma_trimmed_path_is_trimmed(path: Seq<char>)
    ensures
        without_leading_slashes(without_leading_slashes(path)) == without_leading_slashes(path),
    decreases path.len(),
{
    if path.len() > 0 && path[0] == '/' {
        lemma_trimmed_path_is_trimmed(path.drop_first());
    }
}

/// A file has one URL however many slashes its directory is written with.
pub proof fn law_leading_slashes_do_not_matter(
    mirror: Mirror,
    asset_path: Seq<char>,
    file: Seq<char>,
)
    ensures
        mirror.url("/"@ + asset_path, file) == mirror.url(asset_path, file),
        mirror.url(without_leading_slashes(asset_path), file) == mirror.url(asset_path, file),
{
    reveal_strlit("/");
    let slashed = "/"@ + asset_path;
    assert(slashed[0] == '/');
    assert(slashed.drop_first() =~= asset_path);
    lemma_trimmed_path_is_trimmed(asset_path);
}

/// Every file URL of a client is under the mirror that the client is pinned
/// to, so one run never mixes mirrors.
pub proof fn law_file_urls_stay_on_the_mirror(
    mirror: Mirror,
    asset_path: Seq<char>,
    file: Seq<char>,
)
    ensures
        mirror.url(asset_path, file) matches Some(url) ==> (mirror.file_root()
            + "/"@).is_prefix_of(url),
{
    if let Some(url) = mirror.url(asset_path, file) {
        let root = mirror.file_root() + "/"@;
        assert(url.subrange(0, root.len() as int) =~= root);
    }
}

/// A directory is in the map exactly if a device of the walk has it, and then
/// its package is that of such a device.
proof fn lemma_packages_come_from_the_walk(
    walk: Seq<(Seq<char>, DeviceEntry)>,
    packages: Map<Seq<char>, Seq<char>>,
)
    ensures
        forall|i: int| #![trigger directory_at(walk, i)]
            0 <= i < walk.len() ==> package_by_directory(walk, packages).contains_key(
                directory_at(walk, i),
            ),
        forall|directory: Seq<char>| #[trigger]
            package_by_directory(walk, packages).contains_key(directory) ==> exists|i: int|
                0 <= i < walk.len() && #[trigger] directory_at(walk, i) == directory
                    && package_by_directory(walk, packages)[directory] == packages[walk[i].0],
    decreases walk.len(),
{
    if walk.len() > 0 {
        let before = walk.drop_last();
        let last = walk.len() - 1;
        lemma_packages_come_from_the_walk(before, packages);
        assert(forall|i: int| 0 <= i < last ==> #[trigger] directory_at(before, i) == directory_at(walk, i));
        assert forall|i: int| #![trigger directory_at(walk, i)]
            0 <= i < walk.len() implies package_by_directory(walk, packages).contains_key(
            directory_at(walk, i),
        ) by {
            if i < last {
                assert(directory_at(before, i) == directory_at(walk, i));
            }
        }
        assert forall|directory: Seq<char>| #[trigger]
            package_by_directory(walk, packages).contains_key(directory) implies exists|i: int|
            0 <= i < walk.len() && #[trigger] directory_at(walk, i) == directory
                && package_by_directory(walk, packages)[directory] == packages[walk[i].0] by {
            if directory == directory_at(walk, last) {
                assert(walk[last] == walk.last());
            } else {
                assert(package_by_directory(before, packages).contains_key(directory));
                let i = choose|i: int|
                    0 <= i < before.len() && #[trigger] directory_at(before, i) == directory
                        && package_by_directory(before, packages)[directory]
                        == packages[before[i].0];
                assert(directory_at(walk, i) == directory);
            }
        }
    }
}

/// Every device of the catalog can be located: the client has a URL for each
/// file of each device.
pub proof fn law_every_routed_device_has_a_url(
    walk: Seq<(Seq<char>, DeviceEntry)>,
    packages: Map<Seq<char>, Seq<char>>,
    at: int,
    file: Seq<char>,
)
    requires
        0 <= at < walk.len(),
    ensures
        jsdelivr_mirror(walk, packages).url(walk[at].1.asset_path@, file) is Some,
{
    lemma_packages_come_from_the_walk(walk, packages);
    assert(package_by_directory(walk, packages).contains_key(directory_at(walk, at)));
}

/// A device whose directory no other depot shares is served from the package
/// of its own depot, in whatever order the catalog was walked: the URL keeps
/// the directory, inside that package.
pub proof fn law_device_is_served_from_its_own_package(
    walk: Seq<(Seq<char>, DeviceEntry)>,
    packages: Map<Seq<char>, Seq<char>>,
    at: int,
    file: Seq<char>,
)
    requires
        0 <= at < walk.len(),
        forall|i: int|
            0 <= i < walk.len() && #[trigger] directory_at(walk, i) == directory_at(walk, at) ==> i
                == at,
    ensures
        jsdelivr_mirror(walk, packages).url(walk[at].1.asset_path@, file) == Some(
            JSDELIVR_PACKAGE_ROOT@ + "/"@ + packages[walk[at].0] + "@"@ + ASSET_VERSION@ + "/"@
                + directory_at(walk, at) + file,
        ),
{
    lemma_packages_come_from_the_walk(walk, packages);
    let directory = directory_at(walk, at);
    assert(package_by_directory(walk, packages).contains_key(directory));
}

} // verus!
