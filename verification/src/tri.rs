//! Configuration options for the terrain ruggedness index (TRI)
//! operation: builder-style setters, and compilation into the argument
//! list the external routine expects.
//!
//! Unlike slope, TRI's algorithm gate is soft: when the feature matrix
//! reports that the linked external library accepts no algorithm
//! selector (it had only one algorithm before version 3.3), a selected
//! algorithm is silently dropped rather than rejected.

use crate::arglist::ArgumentList;
use crate::arglist::render_spec;
use crate::arglist::tok_wf;
use crate::decimal::dec_of;
use crate::common::common_error;
use crate::common::common_tokens;
use crate::common::opt_view;
use crate::common::store_common_options;
use crate::errors::ConfigurationError;
use crate::features::DemFeature;
use crate::features::DemOperation;
use crate::features::FeatureMatrix;
use vstd::prelude::*;

verus! {

/// Algorithm for computing the terrain ruggedness index.
#[derive(Clone, Copy, Debug, PartialEq, Eq, Structural)]
pub enum DemTriAlg {
    /// The Wilson algorithm (Wilson et al 2007, Marine Geodesy 30:3-35)
    /// uses the mean difference between a central pixel and its
    /// surrounding cells; recommended for bathymetric use cases.
    Wilson,
    /// The Riley algorithm (Riley, De Gloria, Elliot 1999, Intermountain
    /// Journal of Science 5:23-27) uses the square root of the sum of
    /// squared differences between a central pixel and its surrounding
    /// cells; recommended for terrestrial use cases. Only available when
    /// the external library is version 3.3 or later.
    Riley,
}

impl DemTriAlg {
    /// The token naming this algorithm in the argument list.
    pub open spec fn spec_token(self) -> Seq<char> {
        match self {
            DemTriAlg::Wilson => "Wilson"@,
            DemTriAlg::Riley => "Riley"@,
        }
    }

    /// The token the external routine expects for this algorithm.
    pub fn to_gdal_option(&self) -> (r: &'static str)
        ensures
            r@ == self.spec_token(),
    {
        match self {
            DemTriAlg::Wilson => "Wilson",
            DemTriAlg::Riley => "Riley",
        }
    }
}

/// The algorithm token never contains a double quote.
proof fn lemma_tri_alg_token_wf(alg: DemTriAlg)
    ensures
        tok_wf(alg.spec_token()),
{
    reveal_strlit("Wilson");
    reveal_strlit("Riley");
}

/// The mathematical view of a TRI configuration.
pub struct TriCfg {
    /// Selected input band, if any (1-indexed; validated at compile).
    pub input_band: Option<i64>,
    /// Whether edge pixels are processed.
    pub compute_edges: bool,
    /// Output format driver identifier, if any.
    pub output_format: Option<Seq<char>>,
    /// Free-form additional options, merged verbatim.
    pub additional_options: Seq<Seq<char>>,
    /// Selected TRI algorithm, if any.
    pub algorithm: Option<DemTriAlg>,
}

/// The full token sequence of a TRI configuration that compiles: the
/// common tokens, then the algorithm selector — the latter only when an
/// algorithm is set and the feature matrix permits selecting one.
pub open spec fn tri_tokens(cfg: TriCfg, features: FeatureMatrix) -> Seq<Seq<char>> {
    common_tokens(cfg.compute_edges, cfg.input_band, cfg.output_format, cfg.additional_options) + (
    if cfg.algorithm matches Some(a) && features.spec_supported(
        DemOperation::Tri,
        DemFeature::AlgorithmSelection,
    ) {
        seq!["-alg"@, cfg.algorithm->0.spec_token()]
    } else {
        Seq::<Seq<char>>::empty()
    })
}

/// What compiling a TRI configuration yields: the common validation
/// errors, or the tokens. A gated-off algorithm selection is not an
/// error here; it is silently dropped.
pub open spec fn tri_compile(cfg: TriCfg, features: FeatureMatrix) -> Result<
    Seq<Seq<char>>,
    ConfigurationError,
> {
    match common_error(cfg.input_band, cfg.output_format) {
        Some(e) => Err(e),
        None => Ok(tri_tokens(cfg, features)),
    }
}

/// Determinism: compiling the same configuration under the same feature
/// matrix always yields the same token sequence, and hence byte-identical
/// rendered output.
pub proof fn lemma_tri_compile_deterministic(
    cfg: TriCfg,
    features: FeatureMatrix,
    r1: Seq<Seq<char>>,
    r2: Seq<Seq<char>>,
)
    requires
        tri_compile(cfg, features) == Ok::<_, ConfigurationError>(r1),
        tri_compile(cfg, features) == Ok::<_, ConfigurationError>(r2),
    ensures
        r1 == r2,
        render_spec(r1) == render_spec(r2),
{
}

/// Flag ordering with the algorithm gate open: the compiled tokens are
/// exactly the compute-edges flag, the band selector, the output format,
/// the merged additional options, and then the algorithm selector, in
/// that order.
pub proof fn lemma_tri_flag_order(cfg: TriCfg, features: FeatureMatrix)
    requires
        cfg.compute_edges,
        cfg.input_band is Some,
        cfg.output_format is Some,
        cfg.algorithm is Some,
        features.spec_supported(DemOperation::Tri, DemFeature::AlgorithmSelection),
    ensures
        tri_tokens(cfg, features) == seq![
            "-compute_edges"@,
            "-b"@,
            dec_of(cfg.input_band->0 as nat),
            "-of"@,
            cfg.output_format->0,
        ] + cfg.additional_options + seq!["-alg"@, cfg.algorithm->0.spec_token()],
{
    assert(tri_tokens(cfg, features) =~= seq![
        "-compute_edges"@,
        "-b"@,
        dec_of(cfg.input_band->0 as nat),
        "-of"@,
        cfg.output_format->0,
    ] + cfg.additional_options + seq!["-alg"@, cfg.algorithm->0.spec_token()]);
}

/// With the algorithm gate closed, a selected algorithm is silently
/// dropped: the tokens are exactly those of the same configuration with
/// no algorithm selected, and compiling still succeeds.
pub proof fn lemma_tri_gate_closed_drops_algorithm(cfg: TriCfg, features: FeatureMatrix)
    requires
        !features.spec_supported(DemOperation::Tri, DemFeature::AlgorithmSelection),
    ensures
        tri_tokens(cfg, features) == tri_tokens(TriCfg { algorithm: None, ..cfg }, features),
        tri_compile(cfg, features) is Ok <==> tri_compile(
            TriCfg { algorithm: None, ..cfg },
            features,
        ) is Ok,
{
    assert(tri_tokens(cfg, features) =~= tri_tokens(TriCfg { algorithm: None, ..cfg }, features));
}

/// Configuration options for the terrain ruggedness index operation. All
/// fields are optional: absence lets the external routine apply its own
/// default.
#[derive(Debug)]
pub struct TriOptions {
    input_band: Option<i64>,
    compute_edges: bool,
    output_format: Option<String>,
    additional_options: ArgumentList,
    algorithm: Option<DemTriAlg>,
}

impl View for TriOptions {
    type V = TriCfg;

    closed spec fn view(&self) -> TriCfg {
        TriCfg {
            input_band: self.input_band,
            compute_edges: self.compute_edges,
            output_format: opt_view(self.output_format),
            additional_options: self.additional_options@,
            algorithm: self.algorithm,
        }
    }
}

impl Clone for TriOptions {
    /// The clone holds the same configuration.
    fn clone(&self) -> (r: Self)
        ensures
            r@ == self@,
    {
        TriOptions {
            input_band: self.input_band,
            compute_edges: self.compute_edges,
            output_format: match &self.output_format {
                Some(f) => Some(f.clone()),
                None => None,
            },
            additional_options: self.additional_options.clone(),
            algorithm: self.algorithm,
        }
    }
}

impl Default for TriOptions {
    /// The default TRI options set has every field unset.
    fn default() -> (r: Self)
        ensures
            r@ == (TriCfg {
                input_band: None,
                compute_edges: false,
                output_format: None,
                additional_options: Seq::<Seq<char>>::empty(),
                algorithm: None,
            }),
    {
        TriOptions::new()
    }
}

impl TriOptions {
    /// Create a TRI options set with every field unset.
    pub fn new() -> (r: Self)
        ensures
            r@ == (TriCfg {
                input_band: None,
                compute_edges: false,
                output_format: None,
                additional_options: Seq::<Seq<char>>::empty(),
                algorithm: None,
            }),
    {
        TriOptions {
            input_band: None,
            compute_edges: false,
            output_format: None,
            additional_options: ArgumentList::new(),
            algorithm: None,
        }
    }

    /// Select the input band (bands are 1-indexed); a non-positive value
    /// is rejected at compile time, not here.
    pub fn with_input_band(&mut self, band: i64)
        ensures
            final(self)@ == (TriCfg { input_band: Some(band), ..old(self)@ }),
    {
        self.input_band = Some(band);
    }

    /// Fetch the selected input band.
    pub fn input_band(&self) -> (r: Option<i64>)
        ensures
            r == self@.input_band,
    {
        self.input_band
    }

    /// Choose whether edge pixels are processed.
    pub fn with_compute_edges(&mut self, state: bool)
        ensures
            final(self)@ == (TriCfg { compute_edges: state, ..old(self)@ }),
    {
        self.compute_edges = state;
    }

    /// Fetch whether edge pixels are processed.
    pub fn compute_edges(&self) -> (r: bool)
        ensures
            r == self@.compute_edges,
    {
        self.compute_edges
    }

    /// Set the output format driver identifier; it is passed on verbatim,
    /// never checked against a driver registry.
    pub fn with_output_format(&mut self, format: &str)
        ensures
            final(self)@ == (TriCfg { output_format: Some(format@), ..old(self)@ }),
    {
        self.output_format = Some(format.to_owned());
    }

    /// Fetch the output format driver identifier.
    pub fn output_format(&self) -> (r: Option<&String>)
        ensures
            match r {
                Some(f) => self@.output_format == Some(f@),
                None => self@.output_format is None,
            },
    {
        self.output_format.as_ref()
    }

    /// Set free-form additional options, merged into the compiled list
    /// verbatim.
    pub fn with_additional_options(&mut self, options: ArgumentList)
        ensures
            final(self)@ == (TriCfg { additional_options: options@, ..old(self)@ }),
    {
        self.additional_options = options;
    }

    /// Fetch the free-form additional options.
    pub fn additional_options(&self) -> (r: &ArgumentList)
        ensures
            r@ == self@.additional_options,
    {
        &self.additional_options
    }

    /// Specify the TRI computation algorithm.
    pub fn with_algorithm(&mut self, algorithm: DemTriAlg)
        ensures
            final(self)@ == (TriCfg { algorithm: Some(algorithm), ..old(self)@ }),
    {
        self.algorithm = Some(algorithm);
    }

    /// Fetch the specified TRI computation algorithm.
    pub fn algorithm(&self) -> (r: Option<DemTriAlg>)
        ensures
            r == self@.algorithm,
    {
        self.algorithm
    }

    /// Compile this configuration into a fresh argument list: the common
    /// encoding rules first, then the algorithm selector if the feature
    /// matrix permits one — otherwise the selection is silently dropped,
    /// since an external library without the selector would reject the
    /// flag.
    pub fn to_options_list(&self, features: &FeatureMatrix) -> (r: Result<
        ArgumentList,
        ConfigurationError,
    >)
        ensures
            match r {
                Ok(l) => tri_compile(self@, *features) == Ok::<_, ConfigurationError>(l@),
                Err(e) => tri_compile(self@, *features) == Err::<Seq<Seq<char>>, _>(e),
            },
    {
        let mut opts = ArgumentList::new();
        match store_common_options(
            self.compute_edges,
            self.input_band,
            &self.output_format,
            &self.additional_options,
            &mut opts,
        ) {
            Ok(()) => {},
            Err(e) => {
                return Err(e);
            },
        }
        let ghost common_part = common_tokens(
            self@.compute_edges,
            self@.input_band,
            self@.output_format,
            self@.additional_options,
        );
        assert(opts@ =~= common_part);
        match self.algorithm {
            Some(alg) => {
                if features.is_supported(DemOperation::Tri, DemFeature::AlgorithmSelection) {
                    proof {
                        reveal_strlit("-alg");
                        assert(tok_wf("-alg"@));
                        lemma_tri_alg_token_wf(alg);
                    }
                    opts.push_token("-alg");
                    opts.push_token(alg.to_gdal_option());
                }
            },
            None => {},
        }
        proof {
            assert(opts@ =~= tri_tokens(self@, *features));
        }
        Ok(opts)
    }
}

} // verus!
