//! The remote manifest and its validation.

use crate::text::texts;
use vstd::prelude::*;
use vstd::string::StringExecFns;

verus! {

/// Why a run was given up.
#[derive(Clone, Copy, Debug, PartialEq, Eq, Structural)]
pub enum InstallError {
    /// A network request could not be completed, or the shelf script did
    /// not arrive as text.
    Transport,
    /// The body of the manifest document could not be read as text.
    Decode,
    /// The manifest document lacks a field or holds one of the wrong type.
    MalformedManifest,
    /// The manifest's status is not `"OK"`.
    ManifestRejected,
    /// The environment does not tell where the user's home directory is.
    Environment,
    /// The preference root of Maya does not exist under the home directory.
    RootNotFound,
}

/// The manifest: where the shelf script and the icons are to be found.
#[derive(Debug, PartialEq, Eq)]
pub struct Shelf {
    pub response: String,
    pub shelf_url: String,
    pub shelf_name: String,
    pub icons_url: String,
    pub icons_name: Vec<String>,
    pub icons_extension: String,
    pub icons_variants: Vec<String>,
}

/// A manifest as a mathematical value.
pub struct ShelfView {
    pub response: Seq<char>,
    pub shelf_url: Seq<char>,
    pub shelf_name: Seq<char>,
    pub icons_url: Seq<char>,
    pub icons_name: Seq<Seq<char>>,
    pub icons_extension: Seq<char>,
    pub icons_variants: Seq<Seq<char>>,
}

impl View for Shelf {
    type V = ShelfView;

    open spec fn view(&self) -> ShelfView {
        ShelfView {
            response: self.response@,
            shelf_url: self.shelf_url@,
            shelf_name: self.shelf_name@,
            icons_url: self.icons_url@,
            icons_name: texts(self.icons_name@),
            icons_extension: self.icons_extension@,
            icons_variants: texts(self.icons_variants@),
        }
    }
}

/// `serde_json::Error`, the error of a parser. Nothing is known of what is
/// inside one.
#[verifier::external_type_specification]
#[verifier::external_body]
pub struct ExJsonError(serde_json::Error);

/// The status that a manifest must carry to be used.
pub open spec fn accepted_status() -> Seq<char> {
    seq!['O', 'K']
}

/// What validation makes of a parsed manifest: the manifest itself when its
/// status is `"OK"`, a rejection otherwise, and a malformed document when
/// there was nothing to parse into.
pub open spec fn checked(parsed: Option<ShelfView>) -> Result<ShelfView, InstallError> {
    match parsed {
        Some(shelf) => if shelf.response == accepted_status() {
            Ok(shelf)
        } else {
            Err(InstallError::ManifestRejected)
        },
        None => Err(InstallError::MalformedManifest),
    }
}

/// The manifest that a parse result holds, if any.
pub open spec fn parsed_view(json_data: Result<Shelf, serde_json::Error>) -> Option<ShelfView> {
    match json_data {
        Ok(shelf) => Some(shelf@),
        Err(_) => None,
    }
}

/// Validates a parsed manifest. A manifest whose status is `"OK"` comes back
/// unchanged; any other status is a rejection, and a parse error is a
/// malformed manifest.
pub fn check_json(json_data: Result<Shelf, serde_json::Error>) -> (res: Result<Shelf, InstallError>)
    ensures
        match json_data {
            Ok(shelf) => if shelf@.response == accepted_status() {
                res == Ok::<Shelf, InstallError>(shelf)
            } else {
                res == Err::<Shelf, InstallError>(InstallError::ManifestRejected)
            },
            Err(_) => res == Err::<Shelf, InstallError>(InstallError::MalformedManifest),
        },
{
    match json_data {
        Ok(shelf_data) => {
            let ok = String::from_str("OK");
            proof {
                reveal_strlit("OK");
                assert(ok@ =~= accepted_status());
            }
            if shelf_data.response == ok {
                Ok(shelf_data)
            } else {
                Err(InstallError::ManifestRejected)
            }
        },
        Err(_) => Err(InstallError::MalformedManifest),
    }
}

} // verus!
