//! The two-stage, default-deny safety filter: a quick substring scan of the
//! raw text, and a recursive scan of the parsed tree.  Matching is
//! substring-based against a deny list of dangerous tag-name fragments, so
//! new tag variants sharing a blocked namespace prefix are rejected without
//! code changes, at the cost of being overly conservative.

use vstd::prelude::*;

use crate::error::ErrSpec;
use crate::error::YAMLError;
use crate::error::view_err;
use crate::text::contains_seq;
use crate::text::str_contains;
use crate::types::NodeSpec;
use crate::types::ParsedNode;
use crate::types::lemma_view_nodes;
use crate::types::lemma_view_pairs;
use crate::types::view_node;
use crate::types::view_nodes;
use crate::types::view_pairs;

verus! {

/// The tag contains one of the deny-listed fragments: object construction,
/// invocation, or name/module resolution, in canonical URI form, shorthand
/// form, or bare form.
pub open spec fn tag_is_unsafe(tag: Seq<char>) -> bool {
    ||| contains_seq(tag, "tag:yaml.org,2002:python/object"@)
    ||| contains_seq(tag, "tag:yaml.org,2002:python/object/apply"@)
    ||| contains_seq(tag, "tag:yaml.org,2002:python/object/new"@)
    ||| contains_seq(tag, "tag:yaml.org,2002:python/name"@)
    ||| contains_seq(tag, "tag:yaml.org,2002:python/module"@)
    ||| contains_seq(tag, "!!python/object"@)
    ||| contains_seq(tag, "!!python/object/apply"@)
    ||| contains_seq(tag, "!!python/object/new"@)
    ||| contains_seq(tag, "!!python/name"@)
    ||| contains_seq(tag, "!!python/module"@)
    ||| contains_seq(tag, "python/object"@)
    ||| contains_seq(tag, "python/object/apply"@)
    ||| contains_seq(tag, "python/object/new"@)
    ||| contains_seq(tag, "python/name"@)
    ||| contains_seq(tag, "python/module"@)
}

/// Tests a tag against every deny-listed fragment.
fn tag_matches_deny_list(tag: &str) -> (b: bool)
    ensures
        b == tag_is_unsafe(tag@),
{
    str_contains(tag, "tag:yaml.org,2002:python/object") || str_contains(
        tag,
        "tag:yaml.org,2002:python/object/apply",
    ) || str_contains(tag, "tag:yaml.org,2002:python/object/new") || str_contains(
        tag,
        "tag:yaml.org,2002:python/name",
    ) || str_contains(tag, "tag:yaml.org,2002:python/module") || str_contains(
        tag,
        "!!python/object",
    ) || str_contains(tag, "!!python/object/apply") || str_contains(tag, "!!python/object/new")
        || str_contains(tag, "!!python/name") || str_contains(tag, "!!python/module")
        || str_contains(tag, "python/object") || str_contains(tag, "python/object/apply")
        || str_contains(tag, "python/object/new") || str_contains(tag, "python/name")
        || str_contains(tag, "python/module")
}

/// The first deny-listed tag met on a walk of the node: the tag itself is
/// tested before the tagged value, sequence elements are walked in order,
/// and mapping keys are tested before their values.
pub open spec fn scan_node(n: NodeSpec) -> Option<Seq<char>>
    decreases n,
{
    match n {
        NodeSpec::Tagged(tag, inner) => if tag_is_unsafe(tag) {
            Some(tag)
        } else {
            scan_node(*inner)
        },
        NodeSpec::Sequence(items) => scan_nodes(items),
        NodeSpec::Mapping(pairs) => scan_pairs(pairs),
        _ => None,
    }
}

/// The first deny-listed tag met across a sequence of nodes, in order.
pub open spec fn scan_nodes(s: Seq<NodeSpec>) -> Option<Seq<char>>
    decreases s, 1nat,
{
    if s.len() == 0 {
        None
    } else if scan_node(s[0]) is Some {
        scan_node(s[0])
    } else {
        scan_nodes(s.drop_first())
    }
}

/// The first deny-listed tag met across key-value pairs, key before value.
pub open spec fn scan_pairs(s: Seq<(NodeSpec, NodeSpec)>) -> Option<Seq<char>>
    decreases s, 1nat via scan_pairs_dec
{
    if s.len() == 0 {
        None
    } else if scan_node(s[0].0) is Some {
        scan_node(s[0].0)
    } else if scan_node(s[0].1) is Some {
        scan_node(s[0].1)
    } else {
        scan_pairs(s.drop_first())
    }
}

#[via_fn]
proof fn scan_pairs_dec(s: Seq<(NodeSpec, NodeSpec)>) {
    if s.len() > 0 {
        assert(decreases_to!(s => s[0]));
        assert(decreases_to!(s[0] => s[0].0));
        assert(decreases_to!(s[0] => s[0].1));
    }
}

/// Skipping a clean prefix does not change what a scan finds.
proof fn lemma_scan_nodes_skip(s: Seq<NodeSpec>, i: int)
    requires
        0 <= i <= s.len(),
        forall|k: int| 0 <= k < i ==> scan_node(#[trigger] s[k]) is None,
    ensures
        scan_nodes(s) == scan_nodes(s.subrange(i, s.len() as int)),
    decreases i,
{
    if i > 0 {
        lemma_scan_nodes_skip(s, i - 1);
        let t = s.subrange(i - 1, s.len() as int);
        assert(t[0] == s[i - 1]);
        assert(t.drop_first() =~= s.subrange(i, s.len() as int));
    } else {
        assert(s.subrange(0, s.len() as int) =~= s);
    }
}

/// Skipping a clean prefix does not change what a pair scan finds.
proof fn lemma_scan_pairs_skip(s: Seq<(NodeSpec, NodeSpec)>, i: int)
    requires
        0 <= i <= s.len(),
        forall|k: int|
            0 <= k < i ==> scan_node(#[trigger] s[k].0) is None && scan_node(s[k].1) is None,
    ensures
        scan_pairs(s) == scan_pairs(s.subrange(i, s.len() as int)),
    decreases i,
{
    if i > 0 {
        lemma_scan_pairs_skip(s, i - 1);
        let t = s.subrange(i - 1, s.len() as int);
        assert(t[0] == s[i - 1]);
        assert(t.drop_first() =~= s.subrange(i, s.len() as int));
    } else {
        assert(s.subrange(0, s.len() as int) =~= s);
    }
}

/// Recursively scans a parsed tree for deny-listed tags.  Returns the first
/// offending tag as an `UnsafeTag` rejection; scalars are always safe.
pub fn check_safety(value: &ParsedNode) -> (r: Result<(), YAMLError>)
    ensures
        match scan_node(view_node(*value)) {
            Option::None => r is Ok,
            Option::Some(t) => r matches Err(e) && view_err(e) == (ErrSpec::UnsafeTag { tag: t }),
        },
    decreases *value,
{
    match value {
        ParsedNode::Tagged(tag, inner) => {
            if tag_matches_deny_list(tag.as_str()) {
                Err(YAMLError::UnsafeTag { tag: tag.clone() })
            } else {
                check_safety(inner)
            }
        }
        ParsedNode::Sequence(items) => {
            let ghost vs = view_nodes(items@);
            proof {
                lemma_view_nodes(items@);
                assert(decreases_to!(*value => items));
                assert(decreases_to!(items => items@));
            }
            let mut idx: usize = 0;
            while idx < items.len()
                invariant
                    idx <= items@.len(),
                    vs == view_nodes(items@),
                    vs.len() == items@.len(),
                    view_node(*value) == NodeSpec::Sequence(vs),
                    decreases_to!(*value => items@),
                    forall|i: int| 0 <= i < items@.len() ==> vs[i] == view_node(
                        #[trigger] items@[i],
                    ),
                    forall|k: int| 0 <= k < idx ==> scan_node(#[trigger] vs[k]) is None,
                decreases items@.len() - idx,
            {
                proof {
                    assert(decreases_to!(items@ => items@[idx as int]));
                }
                let r = check_safety(&items[idx]);
                if let Err(e) = r {
                    proof {
                        lemma_scan_nodes_skip(vs, idx as int);
                        let t = vs.subrange(idx as int, vs.len() as int);
                        assert(t[0] == vs[idx as int]);
                        assert(scan_nodes(t) == scan_node(t[0]));
                        assert(scan_node(view_node(*value)) == scan_nodes(vs));
                    }
                    return Err(e);
                }
                idx = idx + 1;
            }
            proof {
                lemma_scan_nodes_skip(vs, vs.len() as int);
                assert(vs.subrange(vs.len() as int, vs.len() as int) =~= Seq::<
                    NodeSpec,
                >::empty());
            }
            Ok(())
        }
        ParsedNode::Mapping(pairs) => {
            let ghost vs = view_pairs(pairs@);
            proof {
                lemma_view_pairs(pairs@);
                assert(decreases_to!(*value => pairs));
                assert(decreases_to!(pairs => pairs@));
            }
            let mut idx: usize = 0;
            while idx < pairs.len()
                invariant
                    idx <= pairs@.len(),
                    vs == view_pairs(pairs@),
                    vs.len() == pairs@.len(),
                    view_node(*value) == NodeSpec::Mapping(vs),
                    decreases_to!(*value => pairs@),
                    forall|i: int| 0 <= i < pairs@.len() ==> vs[i] == (
                        view_node(#[trigger] pairs@[i].0),
                        view_node(pairs@[i].1),
                    ),
                    forall|k: int|
                        0 <= k < idx ==> scan_node(#[trigger] vs[k].0) is None && scan_node(
                            vs[k].1,
                        ) is None,
                decreases pairs@.len() - idx,
            {
                proof {
                    assert(decreases_to!(pairs@ => pairs@[idx as int]));
                    assert(decreases_to!(pairs@[idx as int] => pairs@[idx as int].0));
                    assert(decreases_to!(pairs@[idx as int] => pairs@[idx as int].1));
                }
                let r = check_safety(&pairs[idx].0);
                if let Err(e) = r {
                    proof {
                        lemma_scan_pairs_skip(vs, idx as int);
                        let t = vs.subrange(idx as int, vs.len() as int);
                        assert(t[0] == vs[idx as int]);
                        assert(scan_pairs(t) == scan_node(t[0].0));
                        assert(scan_node(view_node(*value)) == scan_pairs(vs));
                    }
                    return Err(e);
                }
                let r = check_safety(&pairs[idx].1);
                if let Err(e) = r {
                    proof {
                        lemma_scan_pairs_skip(vs, idx as int);
                        let t = vs.subrange(idx as int, vs.len() as int);
                        assert(t[0] == vs[idx as int]);
                        assert(scan_pairs(t) == scan_node(t[0].1));
                        assert(scan_node(view_node(*value)) == scan_pairs(vs));
                    }
                    return Err(e);
                }
                idx = idx + 1;
            }
            proof {
                lemma_scan_pairs_skip(vs, vs.len() as int);
                assert(vs.subrange(vs.len() as int, vs.len() as int) =~= Seq::<
                    (NodeSpec, NodeSpec),
                >::empty());
            }
            Ok(())
        }
        _ => Ok(()),
    }
}

/// The first deny-listed fragment found in the raw text, tested in a fixed
/// order, before any parsing.
pub open spec fn quick_bad(text: Seq<char>) -> Option<Seq<char>> {
    if contains_seq(text, "!!python/object"@) {
        Some("!!python/object"@)
    } else if contains_seq(text, "!!python/name"@) {
        Some("!!python/name"@)
    } else if contains_seq(text, "!!python/module"@) {
        Some("!!python/module"@)
    } else if contains_seq(text, "!python/object"@) {
        Some("!python/object"@)
    } else if contains_seq(text, "!python/name"@) {
        Some("!python/name"@)
    } else if contains_seq(text, "!python/module"@) {
        Some("!python/module"@)
    } else if contains_seq(text, "tag:yaml.org,2002:python"@) {
        Some("tag:yaml.org,2002:python"@)
    } else {
        None
    }
}

/// Quick pre-scan of the raw, unparsed text against the deny list, to fail
/// fast on obviously dangerous input before the expensive parse step.  The
/// rejection names the matched fragment.
pub fn quick_safety_check(yaml_str: &str) -> (r: Result<(), YAMLError>)
    ensures
        match quick_bad(yaml_str@) {
            Option::None => r is Ok,
            Option::Some(p) => r matches Err(e) && view_err(e) == (ErrSpec::UnsafeTag { tag: p }),
        },
{
    if str_contains(yaml_str, "!!python/object") {
        return Err(YAMLError::UnsafeTag { tag: String::from_str("!!python/object") });
    }
    if str_contains(yaml_str, "!!python/name") {
        return Err(YAMLError::UnsafeTag { tag: String::from_str("!!python/name") });
    }
    if str_contains(yaml_str, "!!python/module") {
        return Err(YAMLError::UnsafeTag { tag: String::from_str("!!python/module") });
    }
    if str_contains(yaml_str, "!python/object") {
        return Err(YAMLError::UnsafeTag { tag: String::from_str("!python/object") });
    }
    if str_contains(yaml_str, "!python/name") {
        return Err(YAMLError::UnsafeTag { tag: String::from_str("!python/name") });
    }
    if str_contains(yaml_str, "!python/module") {
        return Err(YAMLError::UnsafeTag { tag: String::from_str("!python/module") });
    }
    if str_contains(yaml_str, "tag:yaml.org,2002:python") {
        return Err(YAMLError::UnsafeTag { tag: String::from_str("tag:yaml.org,2002:python") });
    }
    Ok(())
}

} // verus!
