//! The asset mirrors this build knows.

use vstd::prelude::*;

verus! {

/// Mutable production endpoint behind the OpenLogi custom domain.
pub const PRODUCTION_BASE: &'static str = "https://assets.openlogi.org";

/// Stable Cloudflare Pages branch alias for asset release 0.1.0.
pub const PAGES_BASE: &'static str = "https://v0-1-0.openlogi-assets.pages.dev";

/// Exact jsDelivr catalog package for asset release 0.1.0.
pub const JSDELIVR_CATALOG_BASE: &'static str = "https://cdn.jsdelivr.net/npm/@logi-assets/catalog@0.1.0";

/// Asset endpoint selected for one synchronization run.
#[derive(Clone, Debug, Eq, PartialEq)]
pub enum AssetSource {
    /// Mutable production custom domain.
    Production,
    /// Versioned Cloudflare Pages branch alias matching the npm release.
    Pages,
    /// Versioned npm packages served through jsDelivr.
    JsDelivr,
    /// Explicit `OPENLOGI_ASSETS` or CLI `--base` override.
    Override(String),
}

impl AssetSource {
    /// The base URL of the source.
    pub open spec fn base(self) -> Seq<char> {
        match self {
            AssetSource::Production => PRODUCTION_BASE@,
            AssetSource::Pages => PAGES_BASE@,
            AssetSource::JsDelivr => JSDELIVR_CATALOG_BASE@,
            AssetSource::Override(base) => base@,
        }
    }

    /// The base URL of the source, which is also how it is displayed.
    pub fn to_string(&self) -> (text: String)
        ensures
            text@ == self.base(),
    {
        match self {
            AssetSource::Production => PRODUCTION_BASE.to_owned(),
            AssetSource::Pages => PAGES_BASE.to_owned(),
            AssetSource::JsDelivr => JSDELIVR_CATALOG_BASE.to_owned(),
            AssetSource::Override(base) => base.clone(),
        }
    }
}

/// The sources that are probed when none is selected.
#[derive(Clone, Copy, Debug, PartialEq, Eq, Structural)]
pub enum BuiltInSource {
    Production,
    Pages,
    JsDelivr,
}

impl From<BuiltInSource> for AssetSource {
    fn from(source: BuiltInSource) -> (selected: Self) {
        match source {
            BuiltInSource::Production => AssetSource::Production,
            BuiltInSource::Pages => AssetSource::Pages,
            BuiltInSource::JsDelivr => AssetSource::JsDelivr,
        }
    }
}

impl vstd::std_specs::convert::FromSpecImpl<BuiltInSource> for AssetSource {
    open spec fn obeys_from_spec() -> bool {
        true
    }

    open spec fn from_spec(source: BuiltInSource) -> Self {
        source.selected()
    }
}

impl BuiltInSource {
    /// The selectable source that a built-in one stands for.
    pub open spec fn selected(self) -> AssetSource {
        match self {
            BuiltInSource::Production => AssetSource::Production,
            BuiltInSource::Pages => AssetSource::Pages,
            BuiltInSource::JsDelivr => AssetSource::JsDelivr,
        }
    }

    /// The base URL of the source, which is also how it is displayed.
    pub fn to_string(&self) -> (text: String)
        ensures
            text@ == self.selected().base(),
    {
        AssetSource::from(*self).to_string()
    }
}

} // verus!
