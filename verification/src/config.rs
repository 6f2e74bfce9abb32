//! Built-in defaults for a configuration: where to scan for installed mod
//! files, and where the registry manifest is published.

use vstd::prelude::*;

verus! {

/// The scan locations used when a configuration names none: the library
/// directories and the conventional mods directory, relative to the
/// application root.
pub fn default_scan_locations() -> (r: Vec<String>)
    ensures
        r@.len() == 3,
        r@[0]@ == "/Libraries"@,
        r@[1]@ == "/nml_libs"@,
        r@[2]@ == "/nml_mods"@,
{
    let mut v: Vec<String> = Vec::new();
    v.push(String::from_str("/Libraries"));
    v.push(String::from_str("/nml_libs"));
    v.push(String::from_str("/nml_mods"));
    v
}

/// The manifest sources used when a configuration names none.
pub fn default_manifest_links() -> (r: Vec<String>)
    ensures
        r@.len() == 1,
        r@[0]@
            == "https://raw.githubusercontent.com/neos-modding-group/neos-mod-manifest/master/mods.json"@,
{
    let mut v: Vec<String> = Vec::new();
    v.push(
        String::from_str(
            "https://raw.githubusercontent.com/neos-modding-group/neos-mod-manifest/master/mods.json",
        ),
    );
    v
}

} // verus!
