//! Versioned paths of the embedded static assets, as the server-rendered
//! page links them. Filling the map from the embedded files is the asset
//! pipeline's affair; the core only carries the resolved paths.
use vstd::prelude::*;

verus! {

/// The versioned path of each embedded asset the page links.
#[derive(Clone, Debug, PartialEq)]
pub struct AssetMap {
    pub tailwind: String,
    pub manifest: String,
    pub favicon_ico: String,
    pub favicon_svg: String,
    pub apple_touch_icon: String,
    pub dioxus: String,
    pub dioxus_bg: String,
}

impl Default for AssetMap {
    /// An empty map: every path blank until the pipeline fills it.
    fn default() -> (r: Self)
        ensures
            r.tailwind@.len() == 0,
            r.manifest@.len() == 0,
            r.favicon_ico@.len() == 0,
            r.favicon_svg@.len() == 0,
            r.apple_touch_icon@.len() == 0,
            r.dioxus@.len() == 0,
            r.dioxus_bg@.len() == 0,
    {
        AssetMap {
            tailwind: String::new(),
            manifest: String::new(),
            favicon_ico: String::new(),
            favicon_svg: String::new(),
            apple_touch_icon: String::new(),
            dioxus: String::new(),
            dioxus_bg: String::new(),
        }
    }
}

} // verus!
