//! The visual-code boundary: the core only decides what text to encode
//! and maps the encoder's failure into its own taxonomy.  Rendering and
//! display stay outside.

use crate::errors::PassError;
use vstd::prelude::*;

verus! {

/// An encoded visual code of the qr_code crate.  Opaque here: the core
/// never looks inside, it only hands the value on for display.
#[verifier::external_type_specification]
#[verifier::external_body]
pub struct ExQrCode(qr_code::QrCode);

/// The qr_code crate's error type.
#[verifier::external_type_specification]
#[verifier::external_body]
pub struct ExQrError(qr_code::types::QrError);

/// Whether the external encoding accommodates this text: the name of
/// `qr_code::QrCode::new`'s success condition, which depends on the
/// text alone (its byte length against the QR capacity tables).
pub uninterp spec fn qr_fits(s: Seq<char>) -> bool;

/// Relies on `qr_code::QrCode::new`: encodes the text's bytes as a QR
/// code at the smallest fitting version.  Whether it succeeds is a
/// function of the text alone, named `qr_fits`; it fails, e.g. on data
/// too long, exactly when the text does not fit.
#[verifier::external_body]
fn qr_encode(text: &str) -> (r: Result<qr_code::QrCode, qr_code::types::QrError>)
    ensures
        r is Ok <==> qr_fits(text@),
{
    qr_code::QrCode::new(text)
}

/// Encodes an accepted passphrase as a visual code.  Succeeds if and
/// only if the passphrase fits the external encoding's capacity; a
/// failure is reported as `CodeRenderingUnavailable`, never as anything
/// else.
pub fn gen_qr_code(pass: &str) -> (r: Result<qr_code::QrCode, PassError>)
    ensures
        r is Ok <==> qr_fits(pass@),
        r matches Err(e) ==> e == PassError::CodeRenderingUnavailable,
{
    match qr_encode(pass) {
        Ok(qc) => Ok(qc),
        Err(_) => Err(PassError::CodeRenderingUnavailable),
    }
}

} // verus!
