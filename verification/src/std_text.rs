//! What this library takes for granted of the standard library's UTF-8 check.

use vstd::prelude::*;
use vstd::string::*;
use vstd::utf8::*;

verus! {

/// The error of `core::str::from_utf8`; nothing of it is looked at.
#[verifier::external_type_specification]
#[verifier::external_body]
pub struct ExUtf8Error(core::str::Utf8Error);

/// `core::str::from_utf8` succeeds on exactly the byte strings that are valid
/// UTF-8, and the string slice it then gives has those very bytes.
pub assume_specification[ core::str::from_utf8 ](v: &[u8]) -> (r: Result<
    &str,
    core::str::Utf8Error,
>)
    ensures
        r is Ok <==> valid_utf8(v@),
        r matches Ok(s) ==> s.spec_bytes() == v@,
;

} // verus!
