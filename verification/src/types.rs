//! The document tree produced by the external parser, the native dynamic
//! value it converts to, and the order-preserving converter between them.

use vstd::prelude::*;

use crate::error::ErrSpec;
use crate::error::YAMLError;
use crate::error::view_err;

verus! {

/// One node of a parsed document tree.
///
/// Scalars carry their value directly.  A numeric scalar is one of a signed
/// 64-bit integer, an unsigned 64-bit integer, or a 64-bit IEEE 754 value
/// carried by its bit pattern (the bits are held opaque here; hosts that
/// need the floating-point value decode them at the boundary).
/// `Tagged` records an explicit type annotation together with the annotated
/// node.
#[derive(Debug, PartialEq)]
pub enum ParsedNode {
    Null,
    Bool(bool),
    Int(i64),
    UInt(u64),
    Float(u64),
    Str(String),
    Sequence(Vec<ParsedNode>),
    Mapping(Vec<(ParsedNode, ParsedNode)>),
    Tagged(String, Box<ParsedNode>),
}

/// The abstraction of a `ParsedNode`: the same shape over `Seq`.
pub enum NodeSpec {
    Null,
    Bool(bool),
    Int(i64),
    UInt(u64),
    Float(u64),
    Str(Seq<char>),
    Sequence(Seq<NodeSpec>),
    Mapping(Seq<(NodeSpec, NodeSpec)>),
    Tagged(Seq<char>, Box<NodeSpec>),
}

/// The native dynamic value handed to the host environment: scalars, an
/// ordered list, and an ordered associative structure whose pairs keep the
/// first-seen order of their keys.  A float is carried by its IEEE 754 bit
/// pattern, decoded at the host boundary.
#[derive(Debug, PartialEq)]
pub enum NativeValue {
    Null,
    Bool(bool),
    Int(i64),
    UInt(u64),
    Float(u64),
    Str(String),
    List(Vec<NativeValue>),
    Dict(Vec<(NativeValue, NativeValue)>),
}

/// The abstraction of a `NativeValue`: the same shape over `Seq`.
pub enum NativeSpec {
    Null,
    Bool(bool),
    Int(i64),
    UInt(u64),
    Float(u64),
    Str(Seq<char>),
    List(Seq<NativeSpec>),
    Dict(Seq<(NativeSpec, NativeSpec)>),
}

/// The abstraction of a native value: structure and scalar values, strings
/// as character sequences.
pub open spec fn view_native(v: NativeValue) -> NativeSpec
    decreases v via view_native_dec
{
    match v {
        NativeValue::Null => NativeSpec::Null,
        NativeValue::Bool(b) => NativeSpec::Bool(b),
        NativeValue::Int(i) => NativeSpec::Int(i),
        NativeValue::UInt(u) => NativeSpec::UInt(u),
        NativeValue::Float(bits) => NativeSpec::Float(bits),
        NativeValue::Str(s) => NativeSpec::Str(s@),
        NativeValue::List(items) => NativeSpec::List(view_natives(items@)),
        NativeValue::Dict(pairs) => NativeSpec::Dict(view_native_pairs(pairs@)),
    }
}

/// The abstraction of a sequence of native values, element for element.
pub open spec fn view_natives(s: Seq<NativeValue>) -> Seq<NativeSpec>
    decreases s,
{
    if s.len() == 0 {
        Seq::empty()
    } else {
        view_natives(s.drop_last()).push(view_native(s.last()))
    }
}

/// The abstraction of a sequence of native pairs, pair for pair.
pub open spec fn view_native_pairs(s: Seq<(NativeValue, NativeValue)>) -> Seq<
    (NativeSpec, NativeSpec),
>
    decreases s via view_native_pairs_dec
{
    if s.len() == 0 {
        Seq::empty()
    } else {
        view_native_pairs(s.drop_last()).push(
            (view_native(s.last().0), view_native(s.last().1)),
        )
    }
}

#[via_fn]
proof fn view_native_dec(v: NativeValue) {
    match v {
        NativeValue::List(items) => {
            assert(decreases_to!(v => items));
            assert(decreases_to!(items => items@));
        }
        NativeValue::Dict(pairs) => {
            assert(decreases_to!(v => pairs));
            assert(decreases_to!(pairs => pairs@));
        }
        _ => {}
    }
}

#[via_fn]
proof fn view_native_pairs_dec(s: Seq<(NativeValue, NativeValue)>) {
    if s.len() > 0 {
        let last = s.last();
        assert(decreases_to!(s => last));
        assert(decreases_to!(last => last.0));
        assert(decreases_to!(last => last.1));
    }
}

/// Every element of `view_natives` is the abstraction of the matching element.
pub proof fn lemma_view_natives(s: Seq<NativeValue>)
    ensures
        view_natives(s).len() == s.len(),
        forall|i: int| 0 <= i < s.len() ==> view_natives(s)[i] == view_native(#[trigger] s[i]),
    decreases s,
{
    if s.len() > 0 {
        lemma_view_natives(s.drop_last());
        assert forall|i: int| 0 <= i < s.len() implies view_natives(s)[i] == view_native(
            #[trigger] s[i],
        ) by {
            if i < s.len() - 1 {
                assert(s.drop_last()[i] == s[i]);
                assert(view_natives(s)[i] == view_natives(s.drop_last())[i]);
            } else {
                assert(s.last() == s[i]);
            }
        }
    }
}

/// Every element of `view_native_pairs` abstracts the matching pair.
pub proof fn lemma_view_native_pairs(s: Seq<(NativeValue, NativeValue)>)
    ensures
        view_native_pairs(s).len() == s.len(),
        forall|i: int| 0 <= i < s.len() ==> view_native_pairs(s)[i] == (
            view_native(#[trigger] s[i].0),
            view_native(s[i].1),
        ),
    decreases s,
{
    if s.len() > 0 {
        lemma_view_native_pairs(s.drop_last());
        assert forall|i: int| 0 <= i < s.len() implies view_native_pairs(s)[i] == (
            view_native(#[trigger] s[i].0),
            view_native(s[i].1),
        ) by {
            if i < s.len() - 1 {
                assert(s.drop_last()[i] == s[i]);
                assert(view_native_pairs(s)[i] == view_native_pairs(s.drop_last())[i]);
            } else {
                assert(s.last() == s[i]);
            }
        }
    }
}

/// The abstraction of a node: structure and scalar values, strings as
/// character sequences.
pub open spec fn view_node(n: ParsedNode) -> NodeSpec
    decreases n via view_node_dec
{
    match n {
        ParsedNode::Null => NodeSpec::Null,
        ParsedNode::Bool(b) => NodeSpec::Bool(b),
        ParsedNode::Int(i) => NodeSpec::Int(i),
        ParsedNode::UInt(u) => NodeSpec::UInt(u),
        ParsedNode::Float(bits) => NodeSpec::Float(bits),
        ParsedNode::Str(s) => NodeSpec::Str(s@),
        ParsedNode::Sequence(items) => NodeSpec::Sequence(view_nodes(items@)),
        ParsedNode::Mapping(pairs) => NodeSpec::Mapping(view_pairs(pairs@)),
        ParsedNode::Tagged(tag, inner) => NodeSpec::Tagged(tag@, Box::new(view_node(*inner))),
    }
}

/// The abstraction of a sequence of nodes, element for element.
pub open spec fn view_nodes(s: Seq<ParsedNode>) -> Seq<NodeSpec>
    decreases s,
{
    if s.len() == 0 {
        Seq::empty()
    } else {
        view_nodes(s.drop_last()).push(view_node(s.last()))
    }
}

/// The abstraction of a sequence of key-value pairs, pair for pair.
pub open spec fn view_pairs(s: Seq<(ParsedNode, ParsedNode)>) -> Seq<(NodeSpec, NodeSpec)>
    decreases s via view_pairs_dec
{
    if s.len() == 0 {
        Seq::empty()
    } else {
        view_pairs(s.drop_last()).push((view_node(s.last().0), view_node(s.last().1)))
    }
}

#[via_fn]
proof fn view_node_dec(n: ParsedNode) {
    match n {
        ParsedNode::Sequence(items) => {
            assert(decreases_to!(n => items));
            assert(decreases_to!(items => items@));
        }
        ParsedNode::Mapping(pairs) => {
            assert(decreases_to!(n => pairs));
            assert(decreases_to!(pairs => pairs@));
        }
        _ => {}
    }
}

#[via_fn]
proof fn view_pairs_dec(s: Seq<(ParsedNode, ParsedNode)>) {
    if s.len() > 0 {
        let last = s.last();
        assert(decreases_to!(s => last));
        assert(decreases_to!(last => last.0));
        assert(decreases_to!(last => last.1));
    }
}

/// Every element of `view_nodes` is the abstraction of the matching element.
pub proof fn lemma_view_nodes(s: Seq<ParsedNode>)
    ensures
        view_nodes(s).len() == s.len(),
        forall|i: int| 0 <= i < s.len() ==> view_nodes(s)[i] == view_node(#[trigger] s[i]),
    decreases s,
{
    if s.len() > 0 {
        lemma_view_nodes(s.drop_last());
        assert forall|i: int| 0 <= i < s.len() implies view_nodes(s)[i] == view_node(
            #[trigger] s[i],
        ) by {
            if i < s.len() - 1 {
                assert(s.drop_last()[i] == s[i]);
                assert(view_nodes(s)[i] == view_nodes(s.drop_last())[i]);
            } else {
                assert(s.last() == s[i]);
            }
        }
    }
}

/// Every element of `view_pairs` abstracts the matching pair.
pub proof fn lemma_view_pairs(s: Seq<(ParsedNode, ParsedNode)>)
    ensures
        view_pairs(s).len() == s.len(),
        forall|i: int| 0 <= i < s.len() ==> view_pairs(s)[i] == (
            view_node(#[trigger] s[i].0),
            view_node(s[i].1),
        ),
    decreases s,
{
    if s.len() > 0 {
        lemma_view_pairs(s.drop_last());
        assert forall|i: int| 0 <= i < s.len() implies view_pairs(s)[i] == (
            view_node(#[trigger] s[i].0),
            view_node(s[i].1),
        ) by {
            if i < s.len() - 1 {
                assert(s.drop_last()[i] == s[i]);
                assert(view_pairs(s)[i] == view_pairs(s.drop_last())[i]);
            } else {
                assert(s.last() == s[i]);
            }
        }
    }
}

} // verus!

verus! {

/// The index of the first pair of `d` whose key equals `k`, or -1.
pub open spec fn find_key(d: Seq<(NativeSpec, NativeSpec)>, k: NativeSpec) -> int
    decreases d,
{
    if d.len() == 0 {
        -1
    } else if d[0].0 == k {
        0
    } else {
        let r = find_key(d.drop_first(), k);
        if r == -1 {
            -1
        } else {
            r + 1
        }
    }
}

/// Inserting into the ordered associative structure: a colliding key keeps
/// its first-seen position and takes the new value (last write wins); a new
/// key is appended.
pub open spec fn dict_insert(
    d: Seq<(NativeSpec, NativeSpec)>,
    k: NativeSpec,
    v: NativeSpec,
) -> Seq<(NativeSpec, NativeSpec)> {
    let i = find_key(d, k);
    if i == -1 {
        d.push((k, v))
    } else {
        d.update(i, (d[i].0, v))
    }
}

/// When no key of `d` equals `k`, `find_key` reports -1.
pub proof fn lemma_find_key_none(d: Seq<(NativeSpec, NativeSpec)>, k: NativeSpec)
    requires
        forall|j: int| 0 <= j < d.len() ==> (#[trigger] d[j]).0 != k,
    ensures
        find_key(d, k) == -1,
    decreases d,
{
    if d.len() > 0 {
        lemma_find_key_none(d.drop_first(), k);
    }
}

/// When `i` is the first position of `d` whose key equals `k`, `find_key`
/// reports `i`.
pub proof fn lemma_find_key_at(d: Seq<(NativeSpec, NativeSpec)>, k: NativeSpec, i: int)
    requires
        0 <= i < d.len(),
        d[i].0 == k,
        forall|j: int| 0 <= j < i ==> (#[trigger] d[j]).0 != k,
    ensures
        find_key(d, k) == i,
    decreases i,
{
    if i > 0 {
        lemma_find_key_at(d.drop_first(), k, i - 1);
    }
}

/// Structural equality of native values, decided by their abstractions.
pub fn native_eq(a: &NativeValue, b: &NativeValue) -> (r: bool)
    ensures
        r == (view_native(*a) == view_native(*b)),
    decreases *a,
{
    match (a, b) {
        (NativeValue::Null, NativeValue::Null) => true,
        (NativeValue::Bool(x), NativeValue::Bool(y)) => x == y,
        (NativeValue::Int(x), NativeValue::Int(y)) => x == y,
        (NativeValue::UInt(x), NativeValue::UInt(y)) => x == y,
        (NativeValue::Float(x), NativeValue::Float(y)) => x == y,
        (NativeValue::Str(x), NativeValue::Str(y)) => *x == *y,
        (NativeValue::List(x), NativeValue::List(y)) => {
            proof {
                lemma_view_natives(x@);
                lemma_view_natives(y@);
                assert(decreases_to!(*a => x));
                assert(decreases_to!(x => x@));
            }
            if x.len() != y.len() {
                return false;
            }
            let mut i: usize = 0;
            while i < x.len()
                invariant
                    i <= x@.len(),
                    x@.len() == y@.len(),
                    view_native(*a) == NativeSpec::List(view_natives(x@)),
                    view_native(*b) == NativeSpec::List(view_natives(y@)),
                    decreases_to!(*a => x@),
                    forall|k: int| 0 <= k < i ==> view_native(#[trigger] x@[k]) == view_native(
                        y@[k],
                    ),
                decreases x@.len() - i,
            {
                proof {
                    assert(decreases_to!(x@ => x@[i as int]));
                }
                if !native_eq(&x[i], &y[i]) {
                    proof {
                        lemma_view_natives(x@);
                        lemma_view_natives(y@);
                        assert(view_natives(x@)[i as int] != view_natives(y@)[i as int]);
                    }
                    return false;
                }
                i = i + 1;
            }
            proof {
                lemma_view_natives(x@);
                lemma_view_natives(y@);
                assert forall|k: int| 0 <= k < view_natives(x@).len() implies view_natives(
                    x@,
                )[k] == view_natives(y@)[k] by {
                    assert(view_natives(x@)[k] == view_native(x@[k]));
                    assert(view_natives(y@)[k] == view_native(y@[k]));
                }
                assert(view_natives(x@) =~= view_natives(y@));
            }
            true
        }
        (NativeValue::Dict(x), NativeValue::Dict(y)) => {
            proof {
                lemma_view_native_pairs(x@);
                lemma_view_native_pairs(y@);
                assert(decreases_to!(*a => x));
                assert(decreases_to!(x => x@));
            }
            if x.len() != y.len() {
                return false;
            }
            let mut i: usize = 0;
            while i < x.len()
                invariant
                    i <= x@.len(),
                    x@.len() == y@.len(),
                    view_native(*a) == NativeSpec::Dict(view_native_pairs(x@)),
                    view_native(*b) == NativeSpec::Dict(view_native_pairs(y@)),
                    decreases_to!(*a => x@),
                    forall|k: int| 0 <= k < i ==> view_native(#[trigger] x@[k].0) == view_native(
                        y@[k].0,
                    ) && view_native(x@[k].1) == view_native(y@[k].1),
                decreases x@.len() - i,
            {
                proof {
                    assert(decreases_to!(x@ => x@[i as int]));
                    assert(decreases_to!(x@[i as int] => x@[i as int].0));
                    assert(decreases_to!(x@[i as int] => x@[i as int].1));
                }
                if !native_eq(&x[i].0, &y[i].0) {
                    proof {
                        lemma_view_native_pairs(x@);
                        lemma_view_native_pairs(y@);
                        assert(view_native_pairs(x@)[i as int] != view_native_pairs(y@)[i as int]);
                    }
                    return false;
                }
                if !native_eq(&x[i].1, &y[i].1) {
                    proof {
                        lemma_view_native_pairs(x@);
                        lemma_view_native_pairs(y@);
                        assert(view_native_pairs(x@)[i as int] != view_native_pairs(y@)[i as int]);
                    }
                    return false;
                }
                i = i + 1;
            }
            proof {
                lemma_view_native_pairs(x@);
                lemma_view_native_pairs(y@);
                assert forall|k: int| 0 <= k < view_native_pairs(x@).len() implies view_native_pairs(
                    x@,
                )[k] == view_native_pairs(y@)[k] by {
                    assert(view_native_pairs(x@)[k] == (view_native(x@[k].0), view_native(x@[k].1)));
                    assert(view_native_pairs(y@)[k] == (view_native(y@[k].0), view_native(y@[k].1)));
                }
                assert(view_native_pairs(x@) =~= view_native_pairs(y@));
            }
            true
        }
        _ => false,
    }
}

} // verus!

verus! {

/// The conversion of a node to a native value: scalars convert directly,
/// sequences element by element in index order, mappings pair by pair in
/// source order with last-write-wins key collisions, and a tagged node is
/// always a conversion-time failure naming its tag.
pub open spec fn native_of(n: NodeSpec) -> Result<NativeSpec, ErrSpec>
    decreases n,
{
    match n {
        NodeSpec::Null => Ok(NativeSpec::Null),
        NodeSpec::Bool(b) => Ok(NativeSpec::Bool(b)),
        NodeSpec::Int(i) => Ok(NativeSpec::Int(i)),
        NodeSpec::UInt(u) => Ok(NativeSpec::UInt(u)),
        NodeSpec::Float(bits) => Ok(NativeSpec::Float(bits)),
        NodeSpec::Str(s) => Ok(NativeSpec::Str(s)),
        NodeSpec::Sequence(items) => match natives_of(items) {
            Result::Ok(vs) => Ok(NativeSpec::List(vs)),
            Result::Err(e) => Err(e),
        },
        NodeSpec::Mapping(pairs) => match dict_of(pairs) {
            Result::Ok(d) => Ok(NativeSpec::Dict(d)),
            Result::Err(e) => Err(e),
        },
        NodeSpec::Tagged(tag, _) => Err(ErrSpec::UnsafeTag { tag }),
    }
}

/// The conversions of a sequence of nodes, in order; the earliest failing
/// element decides the error.
pub open spec fn natives_of(s: Seq<NodeSpec>) -> Result<Seq<NativeSpec>, ErrSpec>
    decreases s, 1nat,
{
    if s.len() == 0 {
        Ok(Seq::empty())
    } else {
        match natives_of(s.drop_last()) {
            Result::Err(e) => Err(e),
            Result::Ok(rest) => match native_of(s.last()) {
                Result::Err(e) => Err(e),
                Result::Ok(v) => Ok(rest.push(v)),
            },
        }
    }
}

/// The conversions of a mapping's pairs, inserted in source order; within a
/// pair the key converts before the value, and the earliest failure decides
/// the error.
pub open spec fn dict_of(s: Seq<(NodeSpec, NodeSpec)>) -> Result<
    Seq<(NativeSpec, NativeSpec)>,
    ErrSpec,
>
    decreases s, 1nat via dict_of_dec
{
    if s.len() == 0 {
        Ok(Seq::empty())
    } else {
        match dict_of(s.drop_last()) {
            Result::Err(e) => Err(e),
            Result::Ok(d) => match native_of(s.last().0) {
                Result::Err(e) => Err(e),
                Result::Ok(k) => match native_of(s.last().1) {
                    Result::Err(e) => Err(e),
                    Result::Ok(v) => Ok(dict_insert(d, k, v)),
                },
            },
        }
    }
}

#[via_fn]
proof fn dict_of_dec(s: Seq<(NodeSpec, NodeSpec)>) {
    if s.len() > 0 {
        let last = s.last();
        assert(decreases_to!(s => last));
        assert(decreases_to!(last => last.0));
        assert(decreases_to!(last => last.1));
    }
}

/// A failed prefix decides the conversion of the whole sequence.
proof fn lemma_natives_of_err(s: Seq<NodeSpec>, i: int)
    requires
        0 <= i <= s.len(),
        natives_of(s.subrange(0, i)) is Err,
    ensures
        natives_of(s) == natives_of(s.subrange(0, i)),
    decreases s.len() - i,
{
    if i < s.len() {
        assert(s.subrange(0, i + 1).drop_last() =~= s.subrange(0, i));
        lemma_natives_of_err(s, i + 1);
    } else {
        assert(s.subrange(0, s.len() as int) =~= s);
    }
}

/// A failed prefix decides the conversion of the whole mapping.
proof fn lemma_dict_of_err(s: Seq<(NodeSpec, NodeSpec)>, i: int)
    requires
        0 <= i <= s.len(),
        dict_of(s.subrange(0, i)) is Err,
    ensures
        dict_of(s) == dict_of(s.subrange(0, i)),
    decreases s.len() - i,
{
    if i < s.len() {
        assert(s.subrange(0, i + 1).drop_last() =~= s.subrange(0, i));
        lemma_dict_of_err(s, i + 1);
    } else {
        assert(s.subrange(0, s.len() as int) =~= s);
    }
}

/// Inserts a converted pair into the ordered associative structure: a
/// colliding key keeps its first-seen position and takes the new value; a
/// new key is appended.
fn dict_put(out: &mut Vec<(NativeValue, NativeValue)>, k: NativeValue, v: NativeValue)
    ensures
        view_native_pairs(final(out)@) == dict_insert(
            view_native_pairs(old(out)@),
            view_native(k),
            view_native(v),
        ),
{
    let ghost d = view_native_pairs(old(out)@);
    proof {
        lemma_view_native_pairs(old(out)@);
    }
    let mut i: usize = 0;
    while i < out.len()
        invariant
            i <= out@.len(),
            out@ == old(out)@,
            d == view_native_pairs(out@),
            d.len() == out@.len(),
            forall|j: int| 0 <= j < out@.len() ==> d[j] == (
                view_native(#[trigger] out@[j].0),
                view_native(out@[j].1),
            ),
            forall|j: int| 0 <= j < i ==> (#[trigger] d[j]).0 != view_native(k),
        decreases out@.len() - i,
    {
        if native_eq(&out[i].0, &k) {
            proof {
                lemma_find_key_at(d, view_native(k), i as int);
            }
            let ghost before = out@;
            let pair = out.remove(i);
            out.insert(i, (pair.0, v));
            proof {
                assert(out@ =~= before.update(i as int, (before[i as int].0, v)));
                lemma_view_native_pairs(out@);
                assert forall|j: int| 0 <= j < out@.len() implies view_native_pairs(out@)[j]
                    == dict_insert(d, view_native(k), view_native(v))[j] by {
                    assert(view_native_pairs(out@)[j] == (
                        view_native(out@[j].0),
                        view_native(out@[j].1),
                    ));
                }
                assert(view_native_pairs(out@) =~= dict_insert(d, view_native(k), view_native(v)));
            }
            return ;
        }
        i = i + 1;
    }
    proof {
        lemma_find_key_none(d, view_native(k));
    }
    let ghost before = out@;
    out.push((k, v));
    proof {
        lemma_view_native_pairs(out@);
        assert forall|j: int| 0 <= j < out@.len() implies view_native_pairs(out@)[j] == d.push(
            (view_native(k), view_native(v)),
        )[j] by {
            assert(view_native_pairs(out@)[j] == (view_native(out@[j].0), view_native(out@[j].1)));
            if j < before.len() {
                assert(out@[j] == before[j]);
            }
        }
        assert(view_native_pairs(out@) =~= d.push((view_native(k), view_native(v))));
    }
}

/// Converts a parsed tree to a native value, visiting every node exactly
/// once: null, booleans, numbers and strings convert directly, sequences
/// keep index order, mappings keep first-seen key order with last-write-wins
/// collisions, and any tagged node fails loudly with an `UnsafeTag`
/// rejection rather than silently dropping data.
pub fn yaml_to_native(value: &ParsedNode) -> (r: Result<NativeValue, YAMLError>)
    ensures
        match native_of(view_node(*value)) {
            Result::Ok(v) => r matches Ok(rv) && view_native(rv) == v,
            Result::Err(e) => r matches Err(re) && view_err(re) == e,
        },
    decreases *value,
{
    match value {
        ParsedNode::Null => Ok(NativeValue::Null),
        ParsedNode::Bool(b) => Ok(NativeValue::Bool(*b)),
        ParsedNode::Int(i) => Ok(NativeValue::Int(*i)),
        ParsedNode::UInt(u) => Ok(NativeValue::UInt(*u)),
        ParsedNode::Float(bits) => Ok(NativeValue::Float(*bits)),
        ParsedNode::Str(s) => Ok(NativeValue::Str(s.clone())),
        ParsedNode::Tagged(tag, _) => Err(YAMLError::UnsafeTag { tag: tag.clone() }),
        ParsedNode::Sequence(items) => {
            let ghost vs = view_nodes(items@);
            proof {
                lemma_view_nodes(items@);
                assert(decreases_to!(*value => items));
                assert(decreases_to!(items => items@));
                assert(vs.subrange(0, 0) =~= Seq::<NodeSpec>::empty());
            }
            let mut out: Vec<NativeValue> = Vec::new();
            let mut idx: usize = 0;
            while idx < items.len()
                invariant
                    idx <= items@.len(),
                    vs == view_nodes(items@),
                    vs.len() == items@.len(),
                    view_node(*value) == NodeSpec::Sequence(vs),
                    decreases_to!(*value => items@),
                    forall|i: int| 0 <= i < items@.len() ==> vs[i] == view_node(
                        #[trigger] items@[i],
                    ),
                    natives_of(vs.subrange(0, idx as int)) == Ok::<_, ErrSpec>(
                        view_natives(out@),
                    ),
                decreases items@.len() - idx,
            {
                proof {
                    assert(decreases_to!(items@ => items@[idx as int]));
                }
                let res = yaml_to_native(&items[idx]);
                match res {
                    Result::Err(e) => {
                        proof {
                            assert(vs.subrange(0, idx as int + 1).drop_last() =~= vs.subrange(
                                0,
                                idx as int,
                            ));
                            assert(vs.subrange(0, idx as int + 1).last() == vs[idx as int]);
                            assert(natives_of(vs.subrange(0, idx as int + 1)) == Err::<
                                Seq<NativeSpec>,
                                _,
                            >(view_err(e)));
                            lemma_natives_of_err(vs, idx as int + 1);
                            assert(vs.subrange(0, vs.len() as int) =~= vs);
                        }
                        return Err(e);
                    }
                    Result::Ok(v) => {
                        let ghost prev = out@;
                        proof {
                            assert(vs.subrange(0, idx as int + 1).drop_last() =~= vs.subrange(
                                0,
                                idx as int,
                            ));
                            assert(vs.subrange(0, idx as int + 1).last() == vs[idx as int]);
                        }
                        out.push(v);
                        proof {
                            assert(out@.drop_last() =~= prev);
                            assert(view_natives(out@) == view_natives(prev).push(
                                view_native(out@.last()),
                            ));
                        }
                    }
                }
                idx = idx + 1;
            }
            proof {
                assert(vs.subrange(0, vs.len() as int) =~= vs);
            }
            Ok(NativeValue::List(out))
        }
        ParsedNode::Mapping(pairs) => {
            let ghost vs = view_pairs(pairs@);
            proof {
                lemma_view_pairs(pairs@);
                assert(decreases_to!(*value => pairs));
                assert(decreases_to!(pairs => pairs@));
                assert(vs.subrange(0, 0) =~= Seq::<(NodeSpec, NodeSpec)>::empty());
            }
            let mut out: Vec<(NativeValue, NativeValue)> = Vec::new();
            let mut idx: usize = 0;
            while idx < pairs.len()
                invariant
                    idx <= pairs@.len(),
                    vs == view_pairs(pairs@),
                    vs.len() == pairs@.len(),
                    view_node(*value) == NodeSpec::Mapping(vs),
                    decreases_to!(*value => pairs@),
                    forall|i: int| 0 <= i < pairs@.len() ==> vs[i] == (
                        view_node(#[trigger] pairs@[i].0),
                        view_node(pairs@[i].1),
                    ),
                    dict_of(vs.subrange(0, idx as int)) == Ok::<_, ErrSpec>(
                        view_native_pairs(out@),
                    ),
                decreases pairs@.len() - idx,
            {
                proof {
                    assert(decreases_to!(pairs@ => pairs@[idx as int]));
                    assert(decreases_to!(pairs@[idx as int] => pairs@[idx as int].0));
                    assert(decreases_to!(pairs@[idx as int] => pairs@[idx as int].1));
                    assert(vs.subrange(0, idx as int + 1).drop_last() =~= vs.subrange(
                        0,
                        idx as int,
                    ));
                    assert(vs.subrange(0, idx as int + 1).last() == vs[idx as int]);
                }
                let kr = yaml_to_native(&pairs[idx].0);
                let k = match kr {
                    Result::Err(e) => {
                        proof {
                            assert(dict_of(vs.subrange(0, idx as int + 1)) == Err::<
                                Seq<(NativeSpec, NativeSpec)>,
                                _,
                            >(view_err(e)));
                            lemma_dict_of_err(vs, idx as int + 1);
                            assert(vs.subrange(0, vs.len() as int) =~= vs);
                        }
                        return Err(e);
                    }
                    Result::Ok(k) => k,
                };
                let vr = yaml_to_native(&pairs[idx].1);
                let v = match vr {
                    Result::Err(e) => {
                        proof {
                            assert(dict_of(vs.subrange(0, idx as int + 1)) == Err::<
                                Seq<(NativeSpec, NativeSpec)>,
                                _,
                            >(view_err(e)));
                            lemma_dict_of_err(vs, idx as int + 1);
                            assert(vs.subrange(0, vs.len() as int) =~= vs);
                        }
                        return Err(e);
                    }
                    Result::Ok(v) => v,
                };
                dict_put(&mut out, k, v);
                idx = idx + 1;
            }
            proof {
                assert(vs.subrange(0, vs.len() as int) =~= vs);
            }
            Ok(NativeValue::Dict(out))
        }
    }
}

} // verus!
