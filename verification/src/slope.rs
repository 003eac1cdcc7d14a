//! Configuration options for the slope operation: builder-style setters,
//! and compilation into the argument list the external routine expects.

use crate::arglist::ArgumentList;
use crate::arglist::render_spec;
use crate::arglist::tok_wf;
use crate::common::common_error;
use crate::common::common_tokens;
use crate::common::opt_view;
use crate::common::store_common_options;
use crate::decimal::dec_of;
use crate::decimal::decimal_string;
use crate::decimal::is_dec_digit;
use crate::decimal::lemma_dec_of_digits;
use crate::errors::ConfigurationError;
use crate::features::DemFeature;
use crate::features::DemOperation;
use crate::features::FeatureMatrix;
use vstd::prelude::*;

verus! {

/// Algorithm for computing slope.
#[derive(Clone, Copy, Debug, PartialEq, Eq, Structural)]
pub enum DemSlopeAlg {
    /// Horn's formula, which fits a plane to the 3x3 neighborhood;
    /// recommended for rough terrain.
    Horn,
    /// Zevenbergen & Thorne's formula; recommended for smooth terrain.
    ZevenbergenThorne,
}

impl DemSlopeAlg {
    /// The token naming this algorithm in the argument list.
    pub open spec fn spec_token(self) -> Seq<char> {
        match self {
            DemSlopeAlg::Horn => "Horn"@,
            DemSlopeAlg::ZevenbergenThorne => "ZevenbergenThorne"@,
        }
    }

    /// The token the external routine expects for this algorithm.
    pub fn to_gdal_option(&self) -> (r: &'static str)
        ensures
            r@ == self.spec_token(),
    {
        match self {
            DemSlopeAlg::Horn => "Horn",
            DemSlopeAlg::ZevenbergenThorne => "ZevenbergenThorne",
        }
    }
}

/// The algorithm token never contains a double quote.
proof fn lemma_slope_alg_token_wf(alg: DemSlopeAlg)
    ensures
        tok_wf(alg.spec_token()),
{
    reveal_strlit("Horn");
    reveal_strlit("ZevenbergenThorne");
}

/// The mathematical view of a slope configuration.
pub struct SlopeCfg {
    /// Selected input band, if any (1-indexed; validated at compile).
    pub input_band: Option<i64>,
    /// Whether edge pixels are processed.
    pub compute_edges: bool,
    /// Output format driver identifier, if any.
    pub output_format: Option<Seq<char>>,
    /// Free-form additional options, merged verbatim.
    pub additional_options: Seq<Seq<char>>,
    /// Selected slope algorithm, if any.
    pub algorithm: Option<DemSlopeAlg>,
    /// Ratio of vertical units to horizontal, if any.
    pub scale: Option<u64>,
    /// Whether slope is expressed as percent instead of degrees.
    pub percentage_results: Option<bool>,
}

/// The operation-specific tokens of a slope configuration: algorithm,
/// scale, then the percentage flag — each only when set, and the
/// percentage flag only when set to true.
pub open spec fn slope_specific_tokens(cfg: SlopeCfg) -> Seq<Seq<char>> {
    (match cfg.algorithm {
        Some(a) => seq!["-alg"@, a.spec_token()],
        None => Seq::<Seq<char>>::empty(),
    }) + (match cfg.scale {
        Some(sc) => seq!["-s"@, dec_of(sc as nat)],
        None => Seq::<Seq<char>>::empty(),
    }) + (if cfg.percentage_results == Some(true) {
        seq!["-p"@]
    } else {
        Seq::<Seq<char>>::empty()
    })
}

/// The full token sequence of a slope configuration that compiles: the
/// common tokens, then the slope-specific ones.
pub open spec fn slope_tokens(cfg: SlopeCfg) -> Seq<Seq<char>> {
    common_tokens(cfg.compute_edges, cfg.input_band, cfg.output_format, cfg.additional_options)
        + slope_specific_tokens(cfg)
}

/// What compiling a slope configuration yields: the common validation
/// errors first; then a hard failure when an algorithm is selected but
/// the feature matrix does not permit selecting one; otherwise the
/// tokens.
pub open spec fn slope_compile(cfg: SlopeCfg, features: FeatureMatrix) -> Result<
    Seq<Seq<char>>,
    ConfigurationError,
> {
    match common_error(cfg.input_band, cfg.output_format) {
        Some(e) => Err(e),
        None => if cfg.algorithm is Some && !features.spec_supported(
            DemOperation::Slope,
            DemFeature::AlgorithmSelection,
        ) {
            Err(ConfigurationError::UnsupportedAlgorithm)
        } else {
            Ok(slope_tokens(cfg))
        },
    }
}

/// Determinism: compiling the same configuration under the same feature
/// matrix always yields the same token sequence, and hence byte-identical
/// rendered output.
pub proof fn lemma_slope_compile_deterministic(
    cfg: SlopeCfg,
    features: FeatureMatrix,
    r1: Seq<Seq<char>>,
    r2: Seq<Seq<char>>,
)
    requires
        slope_compile(cfg, features) == Ok::<_, ConfigurationError>(r1),
        slope_compile(cfg, features) == Ok::<_, ConfigurationError>(r2),
    ensures
        r1 == r2,
        render_spec(r1) == render_spec(r2),
{
}

/// Flag ordering: with every field set, the compiled tokens are exactly
/// the compute-edges flag, the band selector, the output format, the
/// merged additional options, and then the operation-specific flags —
/// algorithm, scale, percentage — in that order.
pub proof fn lemma_slope_flag_order(cfg: SlopeCfg)
    requires
        cfg.compute_edges,
        cfg.input_band is Some,
        cfg.output_format is Some,
        cfg.algorithm is Some,
        cfg.scale is Some,
        cfg.percentage_results == Some(true),
    ensures
        slope_tokens(cfg) == seq![
            "-compute_edges"@,
            "-b"@,
            dec_of(cfg.input_band->0 as nat),
            "-of"@,
            cfg.output_format->0,
        ] + cfg.additional_options + seq![
            "-alg"@,
            cfg.algorithm->0.spec_token(),
            "-s"@,
            dec_of(cfg.scale->0 as nat),
            "-p"@,
        ],
{
    assert(slope_tokens(cfg) =~= seq![
        "-compute_edges"@,
        "-b"@,
        dec_of(cfg.input_band->0 as nat),
        "-of"@,
        cfg.output_format->0,
    ] + cfg.additional_options + seq![
        "-alg"@,
        cfg.algorithm->0.spec_token(),
        "-s"@,
        dec_of(cfg.scale->0 as nat),
        "-p"@,
    ]);
}

/// Boolean-flag omission: with compute-edges unset no compute-edges
/// token appears, and with percentage-results unset or set to false no
/// percentage token appears — provided the caller's own output format
/// and free-form options do not themselves carry those very tokens.
pub proof fn lemma_slope_flag_omission(cfg: SlopeCfg)
    requires
        !cfg.compute_edges,
        cfg.percentage_results != Some(true),
        !cfg.additional_options.contains("-compute_edges"@),
        !cfg.additional_options.contains("-p"@),
        cfg.output_format matches Some(f) ==> f != "-compute_edges"@ && f != "-p"@,
    ensures
        !slope_tokens(cfg).contains("-compute_edges"@),
        !slope_tokens(cfg).contains("-p"@),
{
    reveal_strlit("-compute_edges");
    reveal_strlit("-p");
    reveal_strlit("-b");
    reveal_strlit("-of");
    reveal_strlit("-alg");
    reveal_strlit("-s");
    reveal_strlit("Horn");
    reveal_strlit("ZevenbergenThorne");
    let ce = "-compute_edges"@;
    let pc = "-p"@;
    assert(ce.len() == 14 && ce[0] == '-');
    assert(pc.len() == 2 && pc[0] == '-' && pc[1] == 'p');
    assert("-b"@.len() == 2 && "-b"@[1] == 'b');
    assert("-of"@.len() == 3);
    assert("-alg"@.len() == 4);
    assert("-s"@.len() == 2 && "-s"@[1] == 's');
    assert("Horn"@.len() == 4);
    assert("ZevenbergenThorne"@.len() == 17);
    if cfg.input_band is Some {
        lemma_dec_of_digits(cfg.input_band->0 as nat);
        assert(dec_of(cfg.input_band->0 as nat)[0] != '-') by {
            assert(is_dec_digit(dec_of(cfg.input_band->0 as nat)[0]));
        }
    }
    if cfg.scale is Some {
        lemma_dec_of_digits(cfg.scale->0 as nat);
        assert(dec_of(cfg.scale->0 as nat)[0] != '-') by {
            assert(is_dec_digit(dec_of(cfg.scale->0 as nat)[0]));
        }
    }
    assert("-b"@ != ce && "-b"@ != pc);
    assert("-of"@ != ce && "-of"@ != pc);
    assert("-alg"@ != ce && "-alg"@ != pc);
    assert("-s"@ != ce && "-s"@ != pc);
    if cfg.input_band is Some {
        assert(dec_of(cfg.input_band->0 as nat) != ce && dec_of(cfg.input_band->0 as nat) != pc);
    }
    if cfg.scale is Some {
        assert(dec_of(cfg.scale->0 as nat) != ce && dec_of(cfg.scale->0 as nat) != pc);
    }
    if cfg.algorithm is Some {
        assert(cfg.algorithm->0.spec_token() != ce && cfg.algorithm->0.spec_token() != pc);
    }
    let toks = slope_tokens(cfg);
    assert forall|i: int| 0 <= i < toks.len() implies toks[i] != ce && toks[i] != pc by {
        let band_part: Seq<Seq<char>> = match cfg.input_band {
            Some(b) => seq!["-b"@, dec_of(b as nat)],
            None => Seq::<Seq<char>>::empty(),
        };
        let fmt_part: Seq<Seq<char>> = match cfg.output_format {
            Some(f) => seq!["-of"@, f],
            None => Seq::<Seq<char>>::empty(),
        };
        let extra = cfg.additional_options;
        let alg_part: Seq<Seq<char>> = match cfg.algorithm {
            Some(a) => seq!["-alg"@, a.spec_token()],
            None => Seq::<Seq<char>>::empty(),
        };
        let scale_part: Seq<Seq<char>> = match cfg.scale {
            Some(sc) => seq!["-s"@, dec_of(sc as nat)],
            None => Seq::<Seq<char>>::empty(),
        };
        assert(toks =~= band_part + fmt_part + extra + alg_part + scale_part);
        let b0 = band_part.len();
        let b1 = b0 + fmt_part.len();
        let b2 = b1 + extra.len();
        let b3 = b2 + alg_part.len();
        if i < b0 {
            assert(toks[i] == band_part[i]);
        } else if i < b1 {
            assert(toks[i] == fmt_part[i - b0]);
        } else if i < b2 {
            assert(toks[i] == extra[i - b1]);
            if toks[i] == ce || toks[i] == pc {
                assert(extra.contains(ce) || extra.contains(pc));
            }
        } else if i < b3 {
            assert(toks[i] == alg_part[i - b2]);
        } else {
            assert(toks[i] == scale_part[i - b3]);
        }
    }
}

/// Configuration options for the slope operation. All fields are
/// optional: absence lets the external routine apply its own default.
#[derive(Debug)]
pub struct SlopeOptions {
    input_band: Option<i64>,
    compute_edges: bool,
    output_format: Option<String>,
    additional_options: ArgumentList,
    algorithm: Option<DemSlopeAlg>,
    scale: Option<u64>,
    percentage_results: Option<bool>,
}

impl View for SlopeOptions {
    type V = SlopeCfg;

    closed spec fn view(&self) -> SlopeCfg {
        SlopeCfg {
            input_band: self.input_band,
            compute_edges: self.compute_edges,
            output_format: opt_view(self.output_format),
            additional_options: self.additional_options@,
            algorithm: self.algorithm,
            scale: self.scale,
            percentage_results: self.percentage_results,
        }
    }
}

impl Clone for SlopeOptions {
    /// The clone holds the same configuration.
    fn clone(&self) -> (r: Self)
        ensures
            r@ == self@,
    {
        SlopeOptions {
            input_band: self.input_band,
            compute_edges: self.compute_edges,
            output_format: match &self.output_format {
                Some(f) => Some(f.clone()),
                None => None,
            },
            additional_options: self.additional_options.clone(),
            algorithm: self.algorithm,
            scale: self.scale,
            percentage_results: self.percentage_results,
        }
    }
}

impl Default for SlopeOptions {
    /// The default slope options set has every field unset.
    fn default() -> (r: Self)
        ensures
            r@ == (SlopeCfg {
                input_band: None,
                compute_edges: false,
                output_format: None,
                additional_options: Seq::<Seq<char>>::empty(),
                algorithm: None,
                scale: None,
                percentage_results: None,
            }),
    {
        SlopeOptions::new()
    }
}

impl SlopeOptions {
    /// Create a slope options set with every field unset.
    pub fn new() -> (r: Self)
        ensures
            r@ == (SlopeCfg {
                input_band: None,
                compute_edges: false,
                output_format: None,
                additional_options: Seq::<Seq<char>>::empty(),
                algorithm: None,
                scale: None,
                percentage_results: None,
            }),
    {
        SlopeOptions {
            input_band: None,
            compute_edges: false,
            output_format: None,
            additional_options: ArgumentList::new(),
            algorithm: None,
            scale: None,
            percentage_results: None,
        }
    }

    /// Select the input band (bands are 1-indexed); a non-positive value
    /// is rejected at compile time, not here.
    pub fn with_input_band(&mut self, band: i64)
        ensures
            final(self)@ == (SlopeCfg { input_band: Some(band), ..old(self)@ }),
    {
        self.input_band = Some(band);
    }

    /// Fetch the selected input band.
    pub fn input_band(&self) -> (r: Option<i64>)
        ensures
            r == self@.input_band,
    {
        self.input_band
    }

    /// Choose whether edge pixels are processed.
    pub fn with_compute_edges(&mut self, state: bool)
        ensures
            final(self)@ == (SlopeCfg { compute_edges: state, ..old(self)@ }),
    {
        self.compute_edges = state;
    }

    /// Fetch whether edge pixels are processed.
    pub fn compute_edges(&self) -> (r: bool)
        ensures
            r == self@.compute_edges,
    {
        self.compute_edges
    }

    /// Set the output format driver identifier; it is passed on verbatim,
    /// never checked against a driver registry.
    pub fn with_output_format(&mut self, format: &str)
        ensures
            final(self)@ == (SlopeCfg { output_format: Some(format@), ..old(self)@ }),
    {
        self.output_format = Some(format.to_owned());
    }

    /// Fetch the output format driver identifier.
    pub fn output_format(&self) -> (r: Option<&String>)
        ensures
            match r {
                Some(f) => self@.output_format == Some(f@),
                None => self@.output_format is None,
            },
    {
        self.output_format.as_ref()
    }

    /// Set free-form additional options, merged into the compiled list
    /// verbatim.
    pub fn with_additional_options(&mut self, options: ArgumentList)
        ensures
            final(self)@ == (SlopeCfg { additional_options: options@, ..old(self)@ }),
    {
        self.additional_options = options;
    }

    /// Fetch the free-form additional options.
    pub fn additional_options(&self) -> (r: &ArgumentList)
        ensures
            r@ == self@.additional_options,
    {
        &self.additional_options
    }

    /// Specify the slope computation algorithm.
    pub fn with_algorithm(&mut self, algorithm: DemSlopeAlg)
        ensures
            final(self)@ == (SlopeCfg { algorithm: Some(algorithm), ..old(self)@ }),
    {
        self.algorithm = Some(algorithm);
    }

    /// Fetch the specified slope computation algorithm.
    pub fn algorithm(&self) -> (r: Option<DemSlopeAlg>)
        ensures
            r == self@.algorithm,
    {
        self.algorithm
    }

    /// Apply an elevation scaling factor: the ratio of vertical units to
    /// horizontal (for example 111120 when horizontal units are degrees
    /// of latitude near the equator and elevation is in meters).
    pub fn with_scale(&mut self, scale: u64)
        ensures
            final(self)@ == (SlopeCfg { scale: Some(scale), ..old(self)@ }),
    {
        self.scale = Some(scale);
    }

    /// Fetch the specified scaling factor, if one has been set.
    pub fn scale(&self) -> (r: Option<u64>)
        ensures
            r == self@.scale,
    {
        self.scale
    }

    /// If `state` is true, slope is expressed as percent slope; otherwise
    /// it is expressed as degrees. Only `Some(true)` emits a flag: the
    /// degree mode is already the external routine's default.
    pub fn with_percentage_results(&mut self, state: bool)
        ensures
            final(self)@ == (SlopeCfg { percentage_results: Some(state), ..old(self)@ }),
    {
        self.percentage_results = Some(state);
    }

    /// Fetch the percentage-results choice.
    pub fn percentage_results(&self) -> (r: Option<bool>)
        ensures
            r == self@.percentage_results,
    {
        self.percentage_results
    }

    /// Compile this configuration into a fresh argument list: the common
    /// encoding rules first, then the slope-specific steps, consulting
    /// the feature matrix for the algorithm gate.
    pub fn to_options_list(&self, features: &FeatureMatrix) -> (r: Result<
        ArgumentList,
        ConfigurationError,
    >)
        ensures
            match r {
                Ok(l) => slope_compile(self@, *features) == Ok::<_, ConfigurationError>(l@),
                Err(e) => slope_compile(self@, *features) == Err::<Seq<Seq<char>>, _>(e),
            },
    {
        let mut opts = ArgumentList::new();
        match store_common_options(
            self.compute_edges,
            self.input_band,
            &self.output_format,
            &self.additional_options,
            &mut opts,
        ) {
            Ok(()) => {},
            Err(e) => {
                return Err(e);
            },
        }
        let ghost common_part = common_tokens(
            self@.compute_edges,
            self@.input_band,
            self@.output_format,
            self@.additional_options,
        );
        assert(opts@ =~= common_part);
        let ghost alg_part: Seq<Seq<char>> = match self@.algorithm {
            Some(a) => seq!["-alg"@, a.spec_token()],
            None => Seq::<Seq<char>>::empty(),
        };
        match self.algorithm {
            Some(alg) => {
                if !features.is_supported(DemOperation::Slope, DemFeature::AlgorithmSelection) {
                    return Err(ConfigurationError::UnsupportedAlgorithm);
                }
                proof {
                    reveal_strlit("-alg");
                    assert(tok_wf("-alg"@));
                    lemma_slope_alg_token_wf(alg);
                }
                opts.push_token("-alg");
                opts.push_token(alg.to_gdal_option());
            },
            None => {},
        }
        assert(opts@ =~= common_part + alg_part);
        let ghost scale_part: Seq<Seq<char>> = match self@.scale {
            Some(sc) => seq!["-s"@, dec_of(sc as nat)],
            None => Seq::<Seq<char>>::empty(),
        };
        match self.scale {
            Some(sc) => {
                proof {
                    reveal_strlit("-s");
                    assert(tok_wf("-s"@));
                }
                opts.push_token("-s");
                let ss = decimal_string(sc);
                proof {
                    lemma_dec_of_digits(sc as nat);
                    assert forall|i: int| 0 <= i < ss@.len() implies ss@[i] != '"' by {
                        assert(is_dec_digit(ss@[i]));
                    }
                }
                opts.push_string(ss);
            },
            None => {},
        }
        assert(opts@ =~= common_part + alg_part + scale_part);
        match self.percentage_results {
            Some(true) => {
                proof {
                    reveal_strlit("-p");
                    assert(tok_wf("-p"@));
                }
                opts.push_token("-p");
            },
            _ => {},
        }
        proof {
            assert(opts@ =~= slope_tokens(self@));
        }
        Ok(opts)
    }
}

} // verus!
