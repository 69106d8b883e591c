//! The QR-code login: the image shown for the login key and the status
//! that ends the polling.
use vstd::prelude::*;
use qrcode_generator::QrCodeEcc;

verus! {

/// The status code the QR login check answers once the code was scanned
/// and the login confirmed on the phone.
pub const QR_LOGIN_CONFIRMED: i32 = 803;

/// What qrcode-generator's `to_svg_to_string` makes of the login data, with
/// low error correction, 140 pixels and the description `wyy`: the SVG
/// text, or `None` when the data does not fit a QR code that size.
pub uninterp spec fn login_qr_svg_named(data: Seq<char>) -> Option<Seq<char>>;

/// qrcode-generator's `to_svg_to_string(data, QrCodeEcc::Low, 140,
/// Some("wyy"))`, its error turned into `None`. The SVG depends on the data
/// alone; the contract names it and states nothing of its content.
#[verifier::external_body]
fn render_login_qr(data: &str) -> (r: Option<String>)
    ensures
        match r {
            Some(s) => login_qr_svg_named(data@) == Some(s@),
            None => login_qr_svg_named(data@) is None,
        },
{
    qrcode_generator::to_svg_to_string(data, QrCodeEcc::Low, 140, Some("wyy")).ok()
}

/// The QR image (SVG text) shown for the login data, or `None` when the
/// data does not fit a QR code of the image's size.
pub fn login_qr_svg(data: &str) -> (r: Option<String>)
    ensures
        match r {
            Some(s) => login_qr_svg_named(data@) == Some(s@),
            None => login_qr_svg_named(data@) is None,
        },
{
    render_login_qr(data)
}

/// Whether a QR login check answer ends the polling with a login: only the
/// confirmed status does; every other status keeps polling.
pub fn qr_login_confirmed(code: i32) -> (r: bool)
    ensures
        r == (code == QR_LOGIN_CONFIRMED),
{
    code == QR_LOGIN_CONFIRMED
}

} // verus!
