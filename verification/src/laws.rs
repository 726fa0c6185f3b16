//! Laws of the loading pipeline, stated over the same abstractions the
//! function contracts use.

use vstd::prelude::*;

use crate::error::ErrSpec;
use crate::error::YAMLError;
use crate::error::view_err;
use crate::parser::load_one_spec;
use crate::parser::parsed_doc;
use crate::parser::result_matches;
use crate::safe::quick_bad;
use crate::safe::scan_node;
use crate::safe::scan_nodes;
use crate::safe::scan_pairs;
use crate::safe::tag_is_unsafe;
use crate::types::NativeValue;
use crate::types::NodeSpec;
use crate::types::view_native;

verus! {

/// The node carries a tag somewhere, at any depth.
pub open spec fn has_tag(n: NodeSpec) -> bool
    decreases n,
{
    match n {
        NodeSpec::Tagged(_, _) => true,
        NodeSpec::Sequence(items) => has_tag_nodes(items),
        NodeSpec::Mapping(pairs) => has_tag_pairs(pairs),
        _ => false,
    }
}

/// Some element carries a tag.
pub open spec fn has_tag_nodes(s: Seq<NodeSpec>) -> bool
    decreases s, 1nat,
{
    if s.len() == 0 {
        false
    } else {
        has_tag(s[0]) || has_tag_nodes(s.drop_first())
    }
}

/// Some key or value carries a tag.
pub open spec fn has_tag_pairs(s: Seq<(NodeSpec, NodeSpec)>) -> bool
    decreases s, 1nat via has_tag_pairs_dec
{
    if s.len() == 0 {
        false
    } else {
        has_tag(s[0].0) || has_tag(s[0].1) || has_tag_pairs(s.drop_first())
    }
}

#[via_fn]
proof fn has_tag_pairs_dec(s: Seq<(NodeSpec, NodeSpec)>) {
    if s.len() > 0 {
        assert(decreases_to!(s => s[0]));
        assert(decreases_to!(s[0] => s[0].0));
        assert(decreases_to!(s[0] => s[0].1));
    }
}

/// The node carries a deny-listed tag somewhere, at any depth, including
/// inside a mapping key.
pub open spec fn has_unsafe_tag(n: NodeSpec) -> bool
    decreases n,
{
    match n {
        NodeSpec::Tagged(tag, inner) => tag_is_unsafe(tag) || has_unsafe_tag(*inner),
        NodeSpec::Sequence(items) => has_unsafe_tag_nodes(items),
        NodeSpec::Mapping(pairs) => has_unsafe_tag_pairs(pairs),
        _ => false,
    }
}

/// Some element carries a deny-listed tag.
pub open spec fn has_unsafe_tag_nodes(s: Seq<NodeSpec>) -> bool
    decreases s, 1nat,
{
    if s.len() == 0 {
        false
    } else {
        has_unsafe_tag(s[0]) || has_unsafe_tag_nodes(s.drop_first())
    }
}

/// Some key or value carries a deny-listed tag.
pub open spec fn has_unsafe_tag_pairs(s: Seq<(NodeSpec, NodeSpec)>) -> bool
    decreases s, 1nat via has_unsafe_tag_pairs_dec
{
    if s.len() == 0 {
        false
    } else {
        has_unsafe_tag(s[0].0) || has_unsafe_tag(s[0].1) || has_unsafe_tag_pairs(s.drop_first())
    }
}

#[via_fn]
proof fn has_unsafe_tag_pairs_dec(s: Seq<(NodeSpec, NodeSpec)>) {
    if s.len() > 0 {
        assert(decreases_to!(s => s[0]));
        assert(decreases_to!(s[0] => s[0].0));
        assert(decreases_to!(s[0] => s[0].1));
    }
}

/// A tree without tags passes the deep scan.
pub proof fn lemma_no_tag_scan_none(n: NodeSpec)
    requires
        !has_tag(n),
    ensures
        scan_node(n) is None,
    decreases n,
{
    match n {
        NodeSpec::Sequence(items) => {
            lemma_no_tag_scan_none_nodes(items);
        }
        NodeSpec::Mapping(pairs) => {
            lemma_no_tag_scan_none_pairs(pairs);
        }
        _ => {}
    }
}

proof fn lemma_no_tag_scan_none_nodes(s: Seq<NodeSpec>)
    requires
        !has_tag_nodes(s),
    ensures
        scan_nodes(s) is None,
    decreases s, 1nat,
{
    if s.len() > 0 {
        lemma_no_tag_scan_none(s[0]);
        lemma_no_tag_scan_none_nodes(s.drop_first());
    }
}

proof fn lemma_no_tag_scan_none_pairs(s: Seq<(NodeSpec, NodeSpec)>)
    requires
        !has_tag_pairs(s),
    ensures
        scan_pairs(s) is None,
    decreases s, 1nat,
{
    if s.len() > 0 {
        assert(decreases_to!(s => s[0]));
        lemma_no_tag_scan_none(s[0].0);
        lemma_no_tag_scan_none(s[0].1);
        lemma_no_tag_scan_none_pairs(s.drop_first());
    }
}

/// A tree with a deny-listed tag anywhere fails the deep scan.
pub proof fn lemma_unsafe_tag_scan_some(n: NodeSpec)
    requires
        has_unsafe_tag(n),
    ensures
        scan_node(n) is Some,
    decreases n,
{
    match n {
        NodeSpec::Tagged(tag, inner) => {
            if !tag_is_unsafe(tag) {
                lemma_unsafe_tag_scan_some(*inner);
            }
        }
        NodeSpec::Sequence(items) => {
            lemma_unsafe_tag_scan_some_nodes(items);
        }
        NodeSpec::Mapping(pairs) => {
            lemma_unsafe_tag_scan_some_pairs(pairs);
        }
        _ => {}
    }
}

proof fn lemma_unsafe_tag_scan_some_nodes(s: Seq<NodeSpec>)
    requires
        has_unsafe_tag_nodes(s),
    ensures
        scan_nodes(s) is Some,
    decreases s, 1nat,
{
    if s.len() > 0 {
        if has_unsafe_tag(s[0]) {
            lemma_unsafe_tag_scan_some(s[0]);
        } else if scan_node(s[0]) is None {
            lemma_unsafe_tag_scan_some_nodes(s.drop_first());
        }
    }
}

proof fn lemma_unsafe_tag_scan_some_pairs(s: Seq<(NodeSpec, NodeSpec)>)
    requires
        has_unsafe_tag_pairs(s),
    ensures
        scan_pairs(s) is Some,
    decreases s, 1nat,
{
    if s.len() > 0 {
        assert(decreases_to!(s => s[0]));
        if has_unsafe_tag(s[0].0) {
            lemma_unsafe_tag_scan_some(s[0].0);
        } else if has_unsafe_tag(s[0].1) {
            lemma_unsafe_tag_scan_some(s[0].1);
        } else if scan_node(s[0].0) is None && scan_node(s[0].1) is None {
            lemma_unsafe_tag_scan_some_pairs(s.drop_first());
        }
    }
}

/// For a document that parses to a tag-free tree, and whose raw text the
/// quick scan passes, safe and unsafe loading produce the same outcome.
/// (The quick-scan premise cannot be dropped: a tag-free document whose
/// scalar text contains a deny-listed fragment is rejected by the quick
/// scan in safe mode alone.)
pub proof fn lemma_safe_unsafe_agree(text: Seq<char>, node: NodeSpec)
    requires
        quick_bad(text) is None,
        parsed_doc(text) == Ok::<NodeSpec, ErrSpec>(node),
        !has_tag(node),
    ensures
        load_one_spec(text, true) == load_one_spec(text, false),
{
    lemma_no_tag_scan_none(node);
}

/// A document that parses to a tree with a deny-listed tag at any depth,
/// including inside a mapping key, fails safe loading with an `UnsafeTag`
/// rejection.  (Unsafe loading of such a document is not the mirror image:
/// a surviving tagged node still fails at conversion.)
pub proof fn lemma_safe_rejects_unsafe_tags(text: Seq<char>, node: NodeSpec)
    requires
        parsed_doc(text) == Ok::<NodeSpec, ErrSpec>(node),
        has_unsafe_tag(node),
    ensures
        load_one_spec(text, true) is Err,
        load_one_spec(text, true)->Err_0 is UnsafeTag,
{
    if quick_bad(text) is None {
        lemma_unsafe_tag_scan_some(node);
    }
}

/// Loading is deterministic: two results of loading the same text in the
/// same mode are structurally identical, value for value or diagnostic for
/// diagnostic.
pub proof fn lemma_load_deterministic(
    text: Seq<char>,
    safe: bool,
    r1: Result<NativeValue, YAMLError>,
    r2: Result<NativeValue, YAMLError>,
)
    requires
        result_matches(r1, load_one_spec(text, safe)),
        result_matches(r2, load_one_spec(text, safe)),
    ensures
        match (r1, r2) {
            (Result::Ok(a), Result::Ok(b)) => view_native(a) == view_native(b),
            (Result::Err(a), Result::Err(b)) => view_err(a) == view_err(b),
            _ => false,
        },
{
}

} // verus!
