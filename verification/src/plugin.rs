//! What the plugin says of itself.
use vstd::prelude::*;
use vstd::string::*;

verus! {

/// The description of the plugin in the given version.
pub fn plugin_information(version: &str) -> (r: String)
    ensures
        r@ == "ComboBox probe module for AviUtl2 (spike v5) / v"@ + version@,
{
    let mut information = "ComboBox probe module for AviUtl2 (spike v5) / v".to_owned();
    information.append(version);
    information
}

/// The answer to scripts that ask whether the plugin is at work.
pub fn spike_status() -> (r: String)
    ensures
        r@ == "Combo probe v6 identification spike is active"@,
{
    "Combo probe v6 identification spike is active".to_owned()
}

} // verus!
