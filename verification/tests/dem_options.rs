use gdal_dem::arglist::ArgumentList;
use gdal_dem::errors::ConfigurationError;
use gdal_dem::errors::EncodingError;
use gdal_dem::errors::ParseError;
use gdal_dem::features::DemFeature;
use gdal_dem::features::DemOperation;
use gdal_dem::features::FeatureMatrix;
use gdal_dem::slope::DemSlopeAlg;
use gdal_dem::slope::SlopeOptions;
use gdal_dem::tri::DemTriAlg;
use gdal_dem::tri::TriOptions;

#[test]
fn slope_test_options() {
    let mut proc = SlopeOptions::new();
    proc.with_input_band(2);
    proc.with_algorithm(DemSlopeAlg::ZevenbergenThorne);
    proc.with_scale(98473);
    proc.with_compute_edges(true);
    proc.with_percentage_results(true);
    proc.with_output_format("GTiff");
    proc.with_additional_options(ArgumentList::parse("CPL_DEBUG=ON").unwrap());

    let features = FeatureMatrix::from_version(3, 3);
    let expected = ArgumentList::parse(
        "-compute_edges -b 2 -of GTiff CPL_DEBUG=ON -alg ZevenbergenThorne -s 98473 -p",
    )
    .unwrap();
    assert_eq!(
        expected.render(),
        proc.to_options_list(&features).unwrap().render()
    );
}

#[test]
fn tri_test_options() {
    let mut opts = TriOptions::new();
    opts.with_input_band(2);
    opts.with_compute_edges(true);
    opts.with_algorithm(DemTriAlg::Wilson);
    opts.with_output_format("GTiff");
    opts.with_additional_options(ArgumentList::parse("CPL_DEBUG=ON").unwrap());

    let features = FeatureMatrix::from_version(3, 3);
    let expected =
        ArgumentList::parse("-compute_edges -b 2 -of GTiff CPL_DEBUG=ON -alg Wilson").unwrap();
    assert_eq!(
        expected.render(),
        opts.to_options_list(&features).unwrap().render()
    );
}

#[test]
fn slope_exact_render() {
    let mut proc = SlopeOptions::new();
    proc.with_input_band(2);
    proc.with_algorithm(DemSlopeAlg::ZevenbergenThorne);
    proc.with_scale(98473);
    proc.with_compute_edges(true);
    proc.with_percentage_results(true);
    proc.with_output_format("GTiff");
    proc.with_additional_options(ArgumentList::parse("CPL_DEBUG=ON").unwrap());

    let features = FeatureMatrix::from_version(3, 3);
    let rendered = proc.to_options_list(&features).unwrap().render();
    assert_eq!(
        rendered,
        "-compute_edges -b 2 -of GTiff CPL_DEBUG=ON -alg ZevenbergenThorne -s 98473 -p"
    );
}

#[test]
fn tri_gate_open_exact_render() {
    let mut opts = TriOptions::new();
    opts.with_input_band(2);
    opts.with_compute_edges(true);
    opts.with_algorithm(DemTriAlg::Wilson);
    opts.with_output_format("GTiff");
    opts.with_additional_options(ArgumentList::parse("CPL_DEBUG=ON").unwrap());

    let features = FeatureMatrix::from_version(3, 3);
    let rendered = opts.to_options_list(&features).unwrap().render();
    assert_eq!(rendered, "-compute_edges -b 2 -of GTiff CPL_DEBUG=ON -alg Wilson");
}

#[test]
fn tri_gate_closed_drops_algorithm() {
    let mut opts = TriOptions::new();
    opts.with_input_band(2);
    opts.with_compute_edges(true);
    opts.with_algorithm(DemTriAlg::Wilson);
    opts.with_output_format("GTiff");
    opts.with_additional_options(ArgumentList::parse("CPL_DEBUG=ON").unwrap());

    let features = FeatureMatrix::from_version(3, 2);
    let rendered = opts.to_options_list(&features).unwrap().render();
    assert_eq!(rendered, "-compute_edges -b 2 -of GTiff CPL_DEBUG=ON");
}

#[test]
fn roundtrip_append_merge() {
    let mut list = ArgumentList::new();
    list.append("-alg").unwrap();
    list.append("a token with spaces").unwrap();
    list.append("").unwrap();
    let mut extra = ArgumentList::new();
    extra.append("CPL_DEBUG=ON").unwrap();
    list.merge(&extra);

    let reparsed = ArgumentList::parse(&list.render()).unwrap();
    assert_eq!(reparsed.len(), list.len());
    for i in 0..list.len() {
        assert_eq!(reparsed.token_at(i), list.token_at(i));
    }
}

#[test]
fn render_quotes_whitespace_and_empty() {
    let mut list = ArgumentList::new();
    list.append("x").unwrap();
    list.append("b c").unwrap();
    list.append("").unwrap();
    assert_eq!(list.render(), "x \"b c\" \"\"");
}

#[test]
fn parse_quoted_segments() {
    let list = ArgumentList::parse("a \"b c\" d").unwrap();
    assert_eq!(list.len(), 3);
    assert_eq!(list.token_at(0), "a");
    assert_eq!(list.token_at(1), "b c");
    assert_eq!(list.token_at(2), "d");
}

#[test]
fn parse_unterminated_quote_fails() {
    assert!(matches!(
        ArgumentList::parse("a \"bc"),
        Err(ParseError::UnterminatedQuote)
    ));
}

#[test]
fn append_embedded_quote_fails() {
    let mut list = ArgumentList::new();
    list.append("ok").unwrap();
    assert_eq!(
        list.append("bad\"token"),
        Err(EncodingError::EmbeddedQuote)
    );
    assert_eq!(list.len(), 1);
    assert_eq!(list.token_at(0), "ok");
}

#[test]
fn compile_is_deterministic() {
    let mut proc = SlopeOptions::new();
    proc.with_input_band(3);
    proc.with_algorithm(DemSlopeAlg::Horn);
    proc.with_scale(111120);
    proc.with_compute_edges(true);
    let features = FeatureMatrix::from_version(3, 4);
    let first = proc.to_options_list(&features).unwrap().render();
    let second = proc.to_options_list(&features).unwrap().render();
    assert_eq!(first, second);
}

#[test]
fn boolean_flags_omitted() {
    let mut proc = SlopeOptions::new();
    proc.with_input_band(2);
    proc.with_compute_edges(false);
    proc.with_percentage_results(false);
    let features = FeatureMatrix::from_version(3, 3);
    let rendered = proc.to_options_list(&features).unwrap().render();
    assert_eq!(rendered, "-b 2");

    let mut bare = SlopeOptions::new();
    bare.with_scale(370400);
    let rendered2 = bare.to_options_list(&features).unwrap().render();
    assert_eq!(rendered2, "-s 370400");
}

#[test]
fn band_validation() {
    let features = FeatureMatrix::from_version(3, 3);

    let mut zero = SlopeOptions::new();
    zero.with_input_band(0);
    assert!(matches!(
        zero.to_options_list(&features),
        Err(ConfigurationError::InvalidBand)
    ));

    let mut negative = TriOptions::new();
    negative.with_input_band(-4);
    assert!(matches!(
        negative.to_options_list(&features),
        Err(ConfigurationError::InvalidBand)
    ));

    let mut two = SlopeOptions::new();
    two.with_input_band(2);
    assert_eq!(two.to_options_list(&features).unwrap().render(), "-b 2");
}

#[test]
fn slope_gate_closed_is_hard_error() {
    let mut proc = SlopeOptions::new();
    proc.with_algorithm(DemSlopeAlg::Horn);
    let features = FeatureMatrix::new(false, true);
    assert!(matches!(
        proc.to_options_list(&features),
        Err(ConfigurationError::UnsupportedAlgorithm)
    ));
}

#[test]
fn output_format_with_quote_fails() {
    let mut proc = SlopeOptions::new();
    proc.with_output_format("GT\"iff");
    let features = FeatureMatrix::from_version(3, 3);
    assert!(matches!(
        proc.to_options_list(&features),
        Err(ConfigurationError::Encoding(EncodingError::EmbeddedQuote))
    ));
}

#[test]
fn feature_matrix_versions() {
    let old = FeatureMatrix::from_version(3, 2);
    assert!(!old.is_supported(DemOperation::Tri, DemFeature::AlgorithmSelection));
    assert!(old.is_supported(DemOperation::Slope, DemFeature::AlgorithmSelection));

    let gated_on = FeatureMatrix::from_version(3, 3);
    assert!(gated_on.is_supported(DemOperation::Tri, DemFeature::AlgorithmSelection));

    let newer = FeatureMatrix::from_version(4, 0);
    assert!(newer.is_supported(DemOperation::Tri, DemFeature::AlgorithmSelection));
}

#[test]
fn algorithm_tokens() {
    assert_eq!(DemSlopeAlg::Horn.to_gdal_option(), "Horn");
    assert_eq!(
        DemSlopeAlg::ZevenbergenThorne.to_gdal_option(),
        "ZevenbergenThorne"
    );
    assert_eq!(DemTriAlg::Wilson.to_gdal_option(), "Wilson");
    assert_eq!(DemTriAlg::Riley.to_gdal_option(), "Riley");
}

#[test]
fn accessors_reflect_setters() {
    let mut proc = SlopeOptions::new();
    assert_eq!(proc.input_band(), None);
    assert_eq!(proc.scale(), None);
    assert_eq!(proc.algorithm(), None);
    assert_eq!(proc.percentage_results(), None);
    assert!(!proc.compute_edges());
    assert!(proc.output_format().is_none());

    proc.with_input_band(7);
    proc.with_scale(42);
    proc.with_algorithm(DemSlopeAlg::Horn);
    proc.with_percentage_results(true);
    proc.with_compute_edges(true);
    proc.with_output_format("MEM");

    assert_eq!(proc.input_band(), Some(7));
    assert_eq!(proc.scale(), Some(42));
    assert_eq!(proc.algorithm(), Some(DemSlopeAlg::Horn));
    assert_eq!(proc.percentage_results(), Some(true));
    assert!(proc.compute_edges());
    assert_eq!(proc.output_format().unwrap().as_str(), "MEM");

    let mut tri = TriOptions::new();
    assert_eq!(tri.algorithm(), None);
    tri.with_algorithm(DemTriAlg::Riley);
    assert_eq!(tri.algorithm(), Some(DemTriAlg::Riley));
    assert_eq!(tri.input_band(), None);
}

#[test]
fn merge_keeps_order() {
    let mut first = ArgumentList::new();
    first.append("a").unwrap();
    first.append("b").unwrap();
    let mut second = ArgumentList::new();
    second.append("c").unwrap();
    first.merge(&second);
    assert_eq!(first.len(), 3);
    assert_eq!(first.render(), "a b c");
}

#[test]
fn additional_options_precede_operation_flags() {
    let mut opts = TriOptions::new();
    opts.with_algorithm(DemTriAlg::Riley);
    opts.with_additional_options(ArgumentList::parse("NUM_THREADS=4 -q").unwrap());
    let features = FeatureMatrix::from_version(3, 5);
    let rendered = opts.to_options_list(&features).unwrap().render();
    assert_eq!(rendered, "NUM_THREADS=4 -q -alg Riley");
}

#[test]
fn parse_normalizes_whitespace() {
    let list = ArgumentList::parse("  -b\t2\n  -of   GTiff ").unwrap();
    assert_eq!(list.render(), "-b 2 -of GTiff");
}

#[test]
fn clone_and_default() {
    let empty: ArgumentList = Default::default();
    assert_eq!(empty.len(), 0);
    assert_eq!(empty.render(), "");

    let mut orig = ArgumentList::new();
    orig.append("a b").unwrap();
    let copy = orig.clone();
    assert_eq!(copy.render(), orig.render());

    let features = FeatureMatrix::from_version(3, 3);
    let mut proc = SlopeOptions::default();
    proc.with_input_band(5);
    let dup = proc.clone();
    assert_eq!(dup.to_options_list(&features).unwrap().render(), "-b 5");

    let tri = TriOptions::default();
    assert_eq!(tri.to_options_list(&features).unwrap().render(), "");
}
