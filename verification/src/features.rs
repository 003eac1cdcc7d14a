//! The version-gated feature matrix: a read-only capability table keyed by
//! (operation, feature), derived from the linked external library's
//! reported version and consulted only by the operation-specific encoding
//! steps.

use vstd::prelude::*;

verus! {

/// A DEM processing operation, as keyed in the feature matrix.
#[derive(Clone, Copy, Debug, PartialEq, Eq, Structural)]
pub enum DemOperation {
    /// Slope computation.
    Slope,
    /// Terrain ruggedness index computation.
    Tri,
}

/// A gateable capability of an operation.
#[derive(Clone, Copy, Debug, PartialEq, Eq, Structural)]
pub enum DemFeature {
    /// Whether the operation accepts an explicit algorithm selector.
    AlgorithmSelection,
}

/// Which features are legal for the linked external library's version.
/// Initialized once, then only consulted.
#[derive(Clone, Copy, Debug, PartialEq, Eq, Structural)]
pub struct FeatureMatrix {
    /// Whether the slope operation accepts an algorithm selector.
    pub slope_algorithm_selection: bool,
    /// Whether the terrain-ruggedness-index operation accepts an
    /// algorithm selector (external library 3.3 and later).
    pub tri_algorithm_selection: bool,
}

impl FeatureMatrix {
    /// Whether (operation, feature) is legal under this matrix.
    pub open spec fn spec_supported(self, operation: DemOperation, feature: DemFeature) -> bool {
        match (operation, feature) {
            (DemOperation::Slope, DemFeature::AlgorithmSelection) => self.slope_algorithm_selection,
            (DemOperation::Tri, DemFeature::AlgorithmSelection) => self.tri_algorithm_selection,
        }
    }

    /// Build a matrix with each capability set directly.
    pub fn new(slope_algorithm_selection: bool, tri_algorithm_selection: bool) -> (r: Self)
        ensures
            r == (FeatureMatrix { slope_algorithm_selection, tri_algorithm_selection }),
    {
        FeatureMatrix { slope_algorithm_selection, tri_algorithm_selection }
    }

    /// Build the matrix for a reported external library version. Slope
    /// has carried an algorithm selector in every supported version; the
    /// terrain ruggedness index gained one in version 3.3.
    pub fn from_version(major: u64, minor: u64) -> (r: Self)
        ensures
            r.slope_algorithm_selection,
            r.tri_algorithm_selection == (major > 3 || (major == 3 && minor >= 3)),
    {
        FeatureMatrix {
            slope_algorithm_selection: true,
            tri_algorithm_selection: major > 3 || (major == 3 && minor >= 3),
        }
    }

    /// Look up whether (operation, feature) is legal.
    pub fn is_supported(&self, operation: DemOperation, feature: DemFeature) -> (b: bool)
        ensures
            b == self.spec_supported(operation, feature),
    {
        match (operation, feature) {
            (DemOperation::Slope, DemFeature::AlgorithmSelection) => self.slope_algorithm_selection,
            (DemOperation::Tri, DemFeature::AlgorithmSelection) => self.tri_algorithm_selection,
        }
    }
}

} // verus!
