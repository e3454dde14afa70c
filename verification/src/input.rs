//! The one thing asked of a file's path: that its extension is `tsv`.

use crate::chars::text_of;
use crate::error::Error;
use vstd::prelude::*;

verus! {

/// The extension that a path must have.
pub open spec fn tsv() -> Seq<char> {
    seq!['t', 's', 'v']
}

/// The extension of the path `path`, without its dot, as
/// `std::path::Path::extension` finds it under the path syntax of the
/// platform; `None` where the path has no extension.
pub uninterp spec fn extension_of(path: Seq<char>) -> Option<Seq<char>>;

/// Calls `Path::extension` on `path`, and hands the extension back as a
/// string. What it finds depends on the path's text alone.
#[verifier::external_body]
fn path_extension(path: &str) -> (r: Option<String>)
    ensures
        text_of(r) == extension_of(path@),
{
    match std::path::Path::new(path).extension() {
        Some(extension) => extension.to_str().map(|text| text.to_owned()),
        None => None,
    }
}

/// Accepts the extension `tsv`, in exactly this spelling, and refuses every
/// other one and the lack of one with `NotTsv`.
pub fn require_tsv(extension: Option<&str>) -> (r: Result<(), Error>)
    ensures
        r is Ok <==> (extension matches Some(text) && text@ == tsv()),
        r matches Err(e) ==> e == Error::NotTsv,
{
    match extension {
        Some(text) => {
            proof {
                reveal_strlit("tsv");
                assert("tsv"@ == tsv());
            }
            if text.to_owned() == "tsv".to_owned() {
                Ok(())
            } else {
                Err(Error::NotTsv)
            }
        },
        None => Err(Error::NotTsv),
    }
}

/// Accepts a path whose extension is `tsv`, and refuses every other path
/// with `NotTsv`.
pub fn check_extension(path: &str) -> (r: Result<(), Error>)
    ensures
        r is Ok <==> extension_of(path@) == Some(tsv()),
        r matches Err(e) ==> e == Error::NotTsv,
{
    match path_extension(path) {
        Some(extension) => require_tsv(Some(extension.as_str())),
        None => require_tsv(None),
    }
}

} // verus!
