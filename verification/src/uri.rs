//! Metadata locators: base URI, identifier text and a fixed suffix.

use ink_prelude::string::String;
use ink_prelude::vec::Vec;
use vstd::prelude::*;
use vstd::string::StringExecFns;

use crate::error::NftError;
use crate::id::{id_text, IdView};
use crate::text::{decode_text, decoded, text_view};

verus! {

/// The suffix of every locator: `.json`.
pub open spec fn suffix() -> Seq<char> {
    seq!['.', 'j', 's', 'o', 'n']
}

/// The locator made of a decoded base URI and an identifier's text.
pub open spec fn joined(base: Seq<char>, id: Seq<char>) -> Seq<char> {
    base + id + suffix()
}

/// The locator of the token `id` in a collection whose stored base URI is
/// `base`. Without a base URI it is the empty text, whatever the identifier.
/// With one, it is the decoded base URI, the identifier's text and the suffix;
/// it fails where either does not decode.
pub open spec fn locator(base: Option<Seq<u8>>, id: IdView) -> Result<Seq<char>, NftError> {
    match base {
        None => Ok(Seq::empty()),
        Some(b) => match decoded(b) {
            Err(e) => Err(e),
            Ok(prefix) => match id_text(id) {
                Err(e) => Err(e),
                Ok(t) => Ok(joined(prefix, t)),
            },
        },
    }
}

/// Decodes the stored base URI and joins it with an identifier's text and
/// the suffix.
pub fn join_locator(base: Vec<u8>, id: &str) -> (r: Result<String, NftError>)
    ensures
        text_view(r) == match decoded(base@) {
            Ok(prefix) => Ok(joined(prefix, id@)),
            Err(e) => Err(e),
        },
{
    match decode_text(base) {
        Ok(mut out) => {
            out.append(id);
            out.append(".json");
            proof {
                reveal_strlit(".json");
                assert(".json"@ =~= suffix());
            }
            Ok(out)
        },
        Err(e) => Err(e),
    }
}

} // verus!
