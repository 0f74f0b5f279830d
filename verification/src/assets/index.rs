//! The device catalog and the npm route catalog.

use vstd::prelude::*;

use super::name_map::NameMap;

verus! {

/// Filename of the device catalog.
pub const INDEX_NAME: &'static str = "index.json";

/// Filename of the depot-to-package routing catalog.
pub const NPM_ROUTES_NAME: &'static str = "npm-routes.json";

/// Schema of the routing catalog that this build reads.
pub const NPM_ROUTES_SCHEMA: u32 = 1;

/// npm asset release this OpenLogi build understands.
pub const ASSET_VERSION: &'static str = "0.1.0";

/// One device of the catalog.
#[derive(Debug)]
pub struct DeviceEntry {
    pub model_id: String,
    pub model_ids: Vec<String>,
    pub display_name: String,
    pub kind: String,
    /// The directory of the device's files, relative to the mirror.
    pub asset_path: String,
    pub files: Vec<String>,
}

/// The device catalog: depots and their devices.
pub struct Index {
    pub schema_version: u32,
    pub devices: NameMap<DeviceEntry>,
}

/// The routing catalog: which npm package serves a depot.
pub struct NpmRoutes {
    pub schema_version: u32,
    pub package_version: String,
    pub devices: NameMap<String>,
}

/// A map of strings, values taken by their characters.
pub open spec fn texts(map: Map<Seq<char>, String>) -> Map<Seq<char>, Seq<char>> {
    map.map_values(|text: String| text@)
}

impl NpmRoutes {
    /// The package of each routed depot.
    pub open spec fn packages(self) -> Map<Seq<char>, Seq<char>> {
        texts(self.devices@)
    }
}

} // verus!
