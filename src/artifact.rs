//! The output artifact: a one-key JSON document holding the captured code.
use vstd::prelude::*;
use vstd::string::*;

verus! {

/// The file name of the artifact, placed beside the executable.
pub const ARTIFACT_FILE_NAME: &'static str = "drive.json";

/// The artifact's text for `code`: `{ "driveAuthCode": "<code>" }`.
pub open spec fn artifact_of(code: Seq<char>) -> Seq<char> {
    "{ \"driveAuthCode\": \""@ + code + "\" }"@
}

/// Renders the artifact's text for `code`.
pub fn artifact_content(code: &str) -> (r: String)
    ensures
        r@ == artifact_of(code@),
{
    let mut r = String::from_str("{ \"driveAuthCode\": \"");
    r.append(code);
    r.append("\" }");
    r
}

} // verus!
