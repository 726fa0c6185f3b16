//! Safety-filtered YAML loading: a deny-list tag filter, an order-preserving
//! converter from parsed document trees to native dynamic values, and batch
//! loaders that parse many independent documents at once.
//!
//! Safe mode rejects, at every depth, any tag whose name contains a
//! deny-listed fragment; unsafe mode skips the filter as an explicit trust
//! decision.  Every operation returns either a complete, ordered result or
//! exactly one diagnostic value.

use vstd::prelude::*;

pub mod batch;
pub mod error;
pub mod laws;
pub mod parser;
pub mod safe;
pub mod text;
pub mod types;

pub use error::YAMLError;
pub use types::NativeValue;
pub use types::ParsedNode;

use parser::load_all_spec;
use parser::load_one_spec;
use parser::parse_all;
use parser::parse_all_unsafe;
use parser::parse_safe;
use parser::parse_unsafe;
use parser::result_matches;
use parser::results_match;

verus! {

/// Parses one document safely: no tag can trigger construction of
/// arbitrary objects or code execution.
pub fn safe_load(yaml_str: &str) -> (r: Result<NativeValue, YAMLError>)
    ensures
        result_matches(r, load_one_spec(yaml_str@, true)),
{
    parse_safe(yaml_str)
}

/// Parses one document without safety checks: only for trusted sources.
pub fn unsafe_load(yaml_str: &str) -> (r: Result<NativeValue, YAMLError>)
    ensures
        result_matches(r, load_one_spec(yaml_str@, false)),
{
    parse_unsafe(yaml_str)
}

/// Parses every document of a multi-document text safely, failing the
/// whole call on the first document that fails.
pub fn load_all(yaml_str: &str) -> (r: Result<Vec<NativeValue>, YAMLError>)
    ensures
        results_match(r, load_all_spec(yaml_str@, true)),
{
    parse_all(yaml_str)
}

/// Parses every document of a multi-document text without safety checks.
pub fn load_all_unsafe(yaml_str: &str) -> (r: Result<Vec<NativeValue>, YAMLError>)
    ensures
        results_match(r, load_all_spec(yaml_str@, false)),
{
    parse_all_unsafe(yaml_str)
}

/// The version string identifying the build.
pub fn version() -> (s: &'static str)
    ensures
        s@ == "0.1.0"@,
        s@.len() > 0,
{
    proof {
        reveal_strlit("0.1.0");
    }
    "0.1.0"
}

} // verus!
