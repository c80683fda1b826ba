//! Names of the RTSP headers that this library adds to those of `rtsp_types`.

use vstd::pervasive::unreached;
use vstd::prelude::*;
use vstd::string::is_ascii;

verus! {

/// `rtsp_types::HeaderName`, the name of a header. How it reads is
/// [`header_name_text`].
#[verifier::external_type_specification]
#[verifier::external_body]
pub struct ExHeaderName(rtsp_types::HeaderName);

/// `rtsp_types::headers::AsciiError`, which says that a name is not ASCII.
#[verifier::external_type_specification]
#[verifier::external_body]
pub struct ExAsciiError(rtsp_types::headers::AsciiError);

/// The characters of a header name, in the case in which it was made.
pub uninterp spec fn header_name_text(name: rtsp_types::HeaderName) -> Seq<char>;

/// `HeaderName::from_static_str` takes exactly the texts that are ASCII, and
/// the name then reads as the text does.
pub assume_specification[ rtsp_types::HeaderName::from_static_str ](v: &'static str) -> (r:
    Result<rtsp_types::HeaderName, rtsp_types::headers::AsciiError>)
    ensures
        r is Ok <==> is_ascii(v),
        r matches Ok(name) ==> header_name_text(name) == v@,
;

/// The header name of `text`, which has to be ASCII.
fn static_header_name(text: &'static str) -> (r: rtsp_types::HeaderName)
    requires
        is_ascii(text),
    ensures
        header_name_text(r) == text@,
{
    match rtsp_types::HeaderName::from_static_str(text) {
        Ok(name) => name,
        Err(_) => {
            unreached()
        },
    }
}

/// `x-Accept-Dynamic-Rate`, sent with DESCRIBE to cameras that adjust their
/// frame rate on demand.
pub fn x_accept_dynamic_rate() -> (r: rtsp_types::HeaderName)
    ensures
        header_name_text(r) == "x-Accept-Dynamic-Rate"@,
{
    proof {
        reveal_strlit("x-Accept-Dynamic-Rate");
    }
    static_header_name("x-Accept-Dynamic-Rate")
}

/// `x-Dynamic-Rate`, sent with PLAY to cameras that adjust their frame rate
/// on demand.
pub fn x_dynamic_rate() -> (r: rtsp_types::HeaderName)
    ensures
        header_name_text(r) == "x-Dynamic-Rate"@,
{
    proof {
        reveal_strlit("x-Dynamic-Rate");
    }
    static_header_name("x-Dynamic-Rate")
}

} // verus!
