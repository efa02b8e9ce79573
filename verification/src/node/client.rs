//! What is asked of the npm registry.
use vstd::prelude::*;

use crate::doc;
use crate::doc::Doc;
use crate::doc::DocModel;
use crate::text;

verus! {

/// The address of the description of a version of a package.
pub fn metadata_url(name: &str, version: &str) -> (r: String)
    ensures
        r@ == "https://registry.npmjs.org/"@ + name@ + "/"@ + version@,
{
    let mut url = String::from_str("https://registry.npmjs.org/");
    url.append(name);
    url.append("/");
    url.append(version);
    url
}

/// A field of a description that may be missing and is a text otherwise.
pub open spec fn text_or_missing(d: Option<DocModel>) -> bool {
    d is None || d->0 is Text
}

/// The address of the tarball in the description of a version. Of the two digests
/// beside it, the first may be missing, and the second may also be null.
pub open spec fn described_tarball(d: Option<DocModel>) -> Option<Seq<char>> {
    let dist = doc::get_opt(d, "dist"@);
    let integrity = doc::get_opt(dist, "integrity"@);
    if text_or_missing(doc::get_opt(dist, "shasum"@)) && (text_or_missing(integrity)
        || integrity == Some(DocModel::Null)) {
        doc::as_text(doc::get_opt(dist, "tarball"@))
    } else {
        None
    }
}

/// The address of the tarball in the description of a version, where it has one.
pub fn tarball_in(d: Option<&Doc>) -> (r: Option<String>)
    ensures
        text::opt_view(r) == described_tarball(doc::opt_doc(d)),
{
    let dist = doc::get_in(d, "dist");
    match doc::get_in(dist, "shasum") {
        None | Some(Doc::Text(_)) => {},
        _ => {
            return None;
        },
    }
    match doc::get_in(dist, "integrity") {
        None | Some(Doc::Text(_)) | Some(Doc::Null) => {},
        _ => {
            return None;
        },
    }
    match doc::text_of(doc::get_in(dist, "tarball")) {
        Some(url) => Some(url.clone()),
        None => None,
    }
}

/// The address of the tarball of a version, by the answer of the registry; nothing
/// where that is no description.
pub fn tarball_url(answer: &str) -> (r: Option<String>)
    ensures
        text::opt_view(r) == described_tarball(doc::json_document(answer@)),
{
    let d = doc::parse_json(answer);
    tarball_in(d.as_ref())
}

} // verus!
