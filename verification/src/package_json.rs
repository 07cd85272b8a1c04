//! Extraction of script names from `package.json` bytes, through the JSON
//! parser.

use vstd::prelude::*;
use simd_json::base::ValueAsObject;
use simd_json::derived::ValueObjectAccess;

verus! {

/// The names under the top-level "scripts" object of a JSON document, as the
/// JSON parser extracts them: a function of the raw bytes alone, and empty
/// when the bytes are not valid JSON or hold no "scripts" object.
pub uninterp spec fn package_scripts_of(raw: Seq<u8>) -> Set<Seq<char>>;

/// Relies on `simd_json::to_borrowed_value` and the "scripts" object lookup
/// of its value types: which names come back depends on the bytes alone
/// (though not their order), and a JSON object's keys are pairwise distinct.
#[verifier::external_body]
pub fn parse_package_json_scripts(raw: Vec<u8>) -> (r: Vec<String>)
    ensures
        r.deep_view().to_set() == package_scripts_of(raw@),
        forall|a: int, b: int| 0 <= a < b < r.deep_view().len()
            ==> r.deep_view()[a] != r.deep_view()[b],
{
    let mut raw = raw;
    let mut names = Vec::new();
    if let Ok(value) = simd_json::to_borrowed_value(&mut raw) {
        if let Some(scripts) = value.get("scripts").as_object() {
            for (key, _) in scripts.iter() {
                names.push(key.to_string());
            }
        }
    }
    names
}

} // verus!
