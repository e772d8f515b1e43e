use crate::json::JsonValue;
use crate::path::covered;
use crate::pihole::config_filter::{filtered, FilterMode};
use vstd::prelude::*;

verus! {

/// A filter that removes the selected paths from a JSON document, and all
/// that lies below them.
pub struct ConfigFilter {
    inner: crate::pihole::config_filter::ConfigFilter,
}

impl ConfigFilter {
    /// The paths that the filter removes.
    pub closed spec fn excluded_paths(&self) -> Set<Seq<char>> {
        self.inner.paths()
    }

    #[verifier::type_invariant]
    spec fn opts_out(&self) -> bool {
        self.inner.mode() == FilterMode::OptOut
    }

    /// A filter that removes the given paths.
    pub fn new(exclude_paths: &[String]) -> (filter: Self)
        ensures
            filter.excluded_paths() == exclude_paths@.map_values(|s: String| s@).to_set(),
    {
        ConfigFilter {
            inner: crate::pihole::config_filter::ConfigFilter::new(
                exclude_paths,
                FilterMode::OptOut,
            ),
        }
    }

    /// Whether the node at `path` is removed: the path is excluded, or a
    /// path above it is.
    pub fn is_path_excluded(&self, path: &str) -> (r: bool)
        ensures
            r == covered(self.excluded_paths(), path@),
    {
        proof {
            use_type_invariant(self);
        }
        !self.inner.should_include_path(path)
    }

    /// The document without the excluded paths. This is what a filter of the
    /// same paths gives that opts out.
    pub fn filter_json(&self, json: JsonValue) -> (r: JsonValue)
        ensures
            r@ == filtered(json@, self.excluded_paths(), FilterMode::OptOut),
    {
        proof {
            use_type_invariant(self);
        }
        self.inner.filter_json(json)
    }
}

} // verus!
