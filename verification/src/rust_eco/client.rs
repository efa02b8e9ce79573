//! What is asked of crates.io.
use vstd::prelude::*;

verus! {

/// The address of a version of a crate.
pub fn crate_url(name: &str, version: &str) -> (r: String)
    ensures
        r@ == "https://static.crates.io/crates/"@ + name@ + "/"@ + name@ + "-"@ + version@
            + ".crate"@,
{
    let mut url = String::from_str("https://static.crates.io/crates/");
    url.append(name);
    url.append("/");
    url.append(name);
    url.append("-");
    url.append(version);
    url.append(".crate");
    url
}

} // verus!
