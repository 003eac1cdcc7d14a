//! The shared option validation and encoding rules: the fields every DEM
//! configuration type carries, encoded in one fixed order.

use crate::arglist::ArgumentList;
use crate::arglist::tok_wf;
use crate::decimal::dec_of;
use crate::decimal::decimal_string;
use crate::decimal::is_dec_digit;
use crate::decimal::lemma_dec_of_digits;
use crate::errors::ConfigurationError;
use crate::errors::EncodingError;
use vstd::prelude::*;

verus! {

/// View of an optional owned string.
pub open spec fn opt_view(o: Option<String>) -> Option<Seq<char>> {
    match o {
        Some(s) => Some(s@),
        None => None,
    }
}

/// The tokens the shared encoding rules contribute, in their fixed order:
/// the compute-edges flag when set, the band selector with its decimal
/// value, the output format flag with its identifier, then the caller's
/// additional options verbatim.
pub open spec fn common_tokens(
    compute_edges: bool,
    input_band: Option<i64>,
    output_format: Option<Seq<char>>,
    additional: Seq<Seq<char>>,
) -> Seq<Seq<char>> {
    (if compute_edges {
        seq!["-compute_edges"@]
    } else {
        Seq::<Seq<char>>::empty()
    }) + (match input_band {
        Some(b) => seq!["-b"@, dec_of(b as nat)],
        None => Seq::<Seq<char>>::empty(),
    }) + (match output_format {
        Some(f) => seq!["-of"@, f],
        None => Seq::<Seq<char>>::empty(),
    }) + additional
}

/// The error the shared encoding rules raise, if any: a non-positive
/// band first, then an output format that embeds a double quote.
pub open spec fn common_error(
    input_band: Option<i64>,
    output_format: Option<Seq<char>>,
) -> Option<ConfigurationError> {
    if input_band matches Some(b) && b <= 0 {
        Some(ConfigurationError::InvalidBand)
    } else if output_format matches Some(f) && !tok_wf(f) {
        Some(ConfigurationError::Encoding(EncodingError::EmbeddedQuote))
    } else {
        None
    }
}

/// Encode the shared fields onto `out` in the fixed common order,
/// validating the band and the output format on the way.
pub(crate) fn store_common_options(
    compute_edges: bool,
    input_band: Option<i64>,
    output_format: &Option<String>,
    additional: &ArgumentList,
    out: &mut ArgumentList,
) -> (r: Result<(), ConfigurationError>)
    ensures
        match r {
            Ok(()) => common_error(input_band, opt_view(*output_format)) is None && final(out)@
                == old(out)@ + common_tokens(
                compute_edges,
                input_band,
                opt_view(*output_format),
                additional@,
            ),
            Err(e) => common_error(input_band, opt_view(*output_format)) == Some(e),
        },
{
    let ghost ce_part: Seq<Seq<char>> = if compute_edges {
        seq!["-compute_edges"@]
    } else {
        Seq::<Seq<char>>::empty()
    };
    let ghost band_part: Seq<Seq<char>> = match input_band {
        Some(b) => seq!["-b"@, dec_of(b as nat)],
        None => Seq::<Seq<char>>::empty(),
    };
    let ghost fmt_part: Seq<Seq<char>> = match opt_view(*output_format) {
        Some(f) => seq!["-of"@, f],
        None => Seq::<Seq<char>>::empty(),
    };
    if compute_edges {
        proof {
            reveal_strlit("-compute_edges");
            assert(tok_wf("-compute_edges"@));
        }
        out.push_token("-compute_edges");
    }
    assert(out@ =~= old(out)@ + ce_part);
    match input_band {
        Some(b) => {
            if b <= 0 {
                return Err(ConfigurationError::InvalidBand);
            }
            proof {
                reveal_strlit("-b");
                assert(tok_wf("-b"@));
            }
            out.push_token("-b");
            let bs = decimal_string(b as u64);
            proof {
                lemma_dec_of_digits((b as u64) as nat);
                assert forall|i: int| 0 <= i < bs@.len() implies bs@[i] != '"' by {
                    assert(is_dec_digit(bs@[i]));
                }
            }
            out.push_string(bs);
        },
        None => {},
    }
    assert(out@ =~= old(out)@ + ce_part + band_part);
    match output_format {
        Some(f) => {
            proof {
                reveal_strlit("-of");
                assert(tok_wf("-of"@));
            }
            out.push_token("-of");
            match out.append(f.as_str()) {
                Ok(()) => {},
                Err(_) => {
                    return Err(ConfigurationError::Encoding(EncodingError::EmbeddedQuote));
                },
            }
        },
        None => {},
    }
    assert(out@ =~= old(out)@ + ce_part + band_part + fmt_part);
    out.merge(additional);
    proof {
        assert(out@ =~= old(out)@ + common_tokens(
            compute_edges,
            input_band,
            opt_view(*output_format),
            additional@,
        ));
    }
    Ok(())
}

} // verus!
