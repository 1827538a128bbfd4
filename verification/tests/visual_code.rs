use genpwd::errors::PassError;
use genpwd::qrbridge::gen_qr_code;

#[test]
fn short_passphrase_encodes() {
    let qc = gen_qr_code("131AlphaBravo.").unwrap();
    // A real code came back: it has a positive module width.
    assert!(qc.width() > 0);
}

#[test]
fn oversized_passphrase_fails_as_rendering_unavailable() {
    // Far beyond any QR code's byte capacity.
    let huge = "x".repeat(5000);
    let r = gen_qr_code(&huge);
    assert_eq!(r.unwrap_err(), PassError::CodeRenderingUnavailable);
}

#[test]
fn different_texts_give_different_codes() {
    let a = gen_qr_code("AlphaBravo").unwrap();
    let b = gen_qr_code("DeltaEcho!").unwrap();
    assert_ne!(a.to_vec(), b.to_vec());
}
