//! The parallel batch loader: many independent texts run their parse and
//! filter stages concurrently across a worker pool; the surviving trees are
//! then realized as native values by a strictly serial pass, in input
//! order.  The whole call either yields a complete, aligned list or exactly
//! one diagnostic, never a partial list.

use vstd::prelude::*;

use rayon::iter::IntoParallelRefIterator;
use rayon::iter::ParallelIterator;

use crate::error::ErrSpec;
use crate::error::YAMLError;
use crate::error::view_err;
use crate::parser::parse_document;
use crate::parser::parsed_doc;
use crate::safe::check_safety;
use crate::safe::scan_node;
use crate::types::NativeSpec;
use crate::types::NativeValue;
use crate::types::NodeSpec;
use crate::types::ParsedNode;
use crate::types::native_of;
use crate::types::view_native;
use crate::types::view_node;
use crate::types::yaml_to_native;

verus! {

/// The parse-and-filter stage of one batch item: parse the text, then in
/// safe mode scan the tree.  The quick text scan is not part of the batch
/// pipeline.
pub open spec fn batch_stage_spec(text: Seq<char>, safe: bool) -> Result<NodeSpec, ErrSpec> {
    match parsed_doc(text) {
        Result::Err(e) => Err(e),
        Result::Ok(n) => if safe && scan_node(n) is Some {
            Err(ErrSpec::UnsafeTag { tag: scan_node(n)->Some_0 })
        } else {
            Ok(n)
        },
    }
}

/// The whole pipeline of one batch item: the stage above, then conversion.
pub open spec fn load_item_spec(text: Seq<char>, safe: bool) -> Result<NativeSpec, ErrSpec> {
    match batch_stage_spec(text, safe) {
        Result::Err(e) => Err(e),
        Result::Ok(n) => native_of(n),
    }
}

/// Runs the parse-and-filter stage of one batch item.
fn parse_filtered(text: &str, safe: bool) -> (r: Result<ParsedNode, YAMLError>)
    ensures
        match batch_stage_spec(text@, safe) {
            Result::Ok(n) => r matches Ok(node) && view_node(node) == n,
            Result::Err(e) => r matches Err(re) && view_err(re) == e,
        },
{
    let node = match parse_document(text) {
        Result::Err(e) => return Err(e),
        Result::Ok(n) => n,
    };
    if safe {
        if let Err(e) = check_safety(&node) {
            return Err(e);
        }
    }
    Ok(node)
}

/// Relies on rayon's par_iter().map().collect() for `Result`: every item
/// runs the stage concurrently; on success the collected trees keep input
/// order, index for index; on failure some failing item's error is
/// returned, not deterministically when several fail.
#[verifier::external_body]
fn par_parse_filter(texts: &Vec<String>, safe: bool) -> (r: Result<Vec<ParsedNode>, YAMLError>)
    ensures
        (r matches Ok(nodes) ==> nodes@.len() == texts@.len() && forall|i: int|
            0 <= i < texts@.len() ==> batch_stage_spec(#[trigger] texts@[i]@, safe) == Ok::<
                NodeSpec,
                ErrSpec,
            >(view_node(nodes@[i]))),
        (r matches Err(e) ==> exists|i: int|
            0 <= i < texts@.len() && batch_stage_spec(#[trigger] texts@[i]@, safe) == Err::<
                NodeSpec,
                ErrSpec,
            >(view_err(e))),
        ((forall|i: int|
            0 <= i < texts@.len() ==> (#[trigger] batch_stage_spec(texts@[i]@, safe)) is Ok)
            ==> r is Ok),
{
    texts.par_iter().map(|t| parse_filtered(t, safe)).collect()
}

/// The shared batch pipeline: concurrent parse and filter, then the serial
/// realization pass in input order.
fn load_many(yaml_strings: &Vec<String>, safe: bool) -> (r: Result<Vec<NativeValue>, YAMLError>)
    ensures
        (r matches Ok(vals) ==> vals@.len() == yaml_strings@.len() && forall|i: int|
            0 <= i < yaml_strings@.len() ==> load_item_spec(#[trigger] yaml_strings@[i]@, safe)
                == Ok::<NativeSpec, ErrSpec>(view_native(vals@[i]))),
        (r matches Err(e) ==> exists|i: int|
            0 <= i < yaml_strings@.len() && load_item_spec(#[trigger] yaml_strings@[i]@, safe)
                == Err::<NativeSpec, ErrSpec>(view_err(e))),
        ((forall|i: int|
            0 <= i < yaml_strings@.len() ==> (#[trigger] load_item_spec(
                yaml_strings@[i]@,
                safe,
            )) is Ok) ==> r is Ok),
{
    let nodes = match par_parse_filter(yaml_strings, safe) {
        Result::Err(e) => {
            proof {
                let i = choose|i: int|
                    0 <= i < yaml_strings@.len() && batch_stage_spec(
                        #[trigger] yaml_strings@[i]@,
                        safe,
                    ) == Err::<NodeSpec, ErrSpec>(view_err(e));
                assert(load_item_spec(yaml_strings@[i]@, safe) == Err::<NativeSpec, ErrSpec>(
                    view_err(e),
                ));
            }
            return Err(e);
        },
        Result::Ok(ns) => ns,
    };
    let mut out: Vec<NativeValue> = Vec::new();
    let mut idx: usize = 0;
    while idx < nodes.len()
        invariant
            idx <= nodes@.len(),
            nodes@.len() == yaml_strings@.len(),
            out@.len() == idx,
            forall|i: int| 0 <= i < yaml_strings@.len() ==> batch_stage_spec(
                #[trigger] yaml_strings@[i]@,
                safe,
            ) == Ok::<NodeSpec, ErrSpec>(view_node(nodes@[i])),
            forall|k: int| 0 <= k < idx ==> load_item_spec(#[trigger] yaml_strings@[k]@, safe)
                == Ok::<NativeSpec, ErrSpec>(view_native(out@[k])),
        decreases nodes@.len() - idx,
    {
        match yaml_to_native(&nodes[idx]) {
            Result::Err(e) => {
                proof {
                    assert(load_item_spec(yaml_strings@[idx as int]@, safe) == Err::<
                        NativeSpec,
                        ErrSpec,
                    >(view_err(e)));
                }
                return Err(e);
            }
            Result::Ok(v) => {
                out.push(v);
            }
        }
        idx = idx + 1;
    }
    Ok(out)
}

/// Parses many independent texts with the safety filter, concurrently, and
/// realizes the values serially in input order; the whole call fails with
/// one diagnostic if any item fails.
pub fn safe_load_many(yaml_strings: Vec<String>) -> (r: Result<Vec<NativeValue>, YAMLError>)
    ensures
        (r matches Ok(vals) ==> vals@.len() == yaml_strings@.len() && forall|i: int|
            0 <= i < yaml_strings@.len() ==> load_item_spec(#[trigger] yaml_strings@[i]@, true)
                == Ok::<NativeSpec, ErrSpec>(view_native(vals@[i]))),
        (r matches Err(e) ==> exists|i: int|
            0 <= i < yaml_strings@.len() && load_item_spec(#[trigger] yaml_strings@[i]@, true)
                == Err::<NativeSpec, ErrSpec>(view_err(e))),
        ((forall|i: int|
            0 <= i < yaml_strings@.len() ==> (#[trigger] load_item_spec(
                yaml_strings@[i]@,
                true,
            )) is Ok) ==> r is Ok),
{
    load_many(&yaml_strings, true)
}

/// The batch loader with the filter stage skipped; a tagged node still
/// fails at conversion.
pub fn unsafe_load_many(yaml_strings: Vec<String>) -> (r: Result<Vec<NativeValue>, YAMLError>)
    ensures
        (r matches Ok(vals) ==> vals@.len() == yaml_strings@.len() && forall|i: int|
            0 <= i < yaml_strings@.len() ==> load_item_spec(#[trigger] yaml_strings@[i]@, false)
                == Ok::<NativeSpec, ErrSpec>(view_native(vals@[i]))),
        (r matches Err(e) ==> exists|i: int|
            0 <= i < yaml_strings@.len() && load_item_spec(#[trigger] yaml_strings@[i]@, false)
                == Err::<NativeSpec, ErrSpec>(view_err(e))),
        ((forall|i: int|
            0 <= i < yaml_strings@.len() ==> (#[trigger] load_item_spec(
                yaml_strings@[i]@,
                false,
            )) is Ok) ==> r is Ok),
{
    load_many(&yaml_strings, false)
}

/// The character `c` is the letter `l`, compared ASCII-case-insensitively;
/// `l` is a lower-case letter.
pub open spec fn eq_letter_ci(c: char, l: char) -> bool {
    c == l || c as int == l as int - 32
}

/// The extension names a document file: `yaml` or `yml`, in any case.
pub open spec fn is_yaml_ext(e: Seq<char>) -> bool {
    ||| (e.len() == 4 && eq_letter_ci(e[0], 'y') && eq_letter_ci(e[1], 'a') && eq_letter_ci(
        e[2],
        'm',
    ) && eq_letter_ci(e[3], 'l'))
    ||| (e.len() == 3 && eq_letter_ci(e[0], 'y') && eq_letter_ci(e[1], 'm') && eq_letter_ci(
        e[2],
        'l',
    ))
}

/// The directory walker's collection rule: a file is collected exactly when
/// its extension is `yaml` or `yml`, case-insensitively.
pub fn is_yaml_extension(ext: &str) -> (b: bool)
    ensures
        b == is_yaml_ext(ext@),
{
    let n = ext.unicode_len();
    if n == 4 {
        let c0 = ext.get_char(0);
        let c1 = ext.get_char(1);
        let c2 = ext.get_char(2);
        let c3 = ext.get_char(3);
        (c0 == 'y' || c0 == 'Y') && (c1 == 'a' || c1 == 'A') && (c2 == 'm' || c2 == 'M') && (c3
            == 'l' || c3 == 'L')
    } else if n == 3 {
        let c0 = ext.get_char(0);
        let c1 = ext.get_char(1);
        let c2 = ext.get_char(2);
        (c0 == 'y' || c0 == 'Y') && (c1 == 'm' || c1 == 'M') && (c2 == 'l' || c2 == 'L')
    } else {
        false
    }
}

} // verus!
