//! The document parser boundary and the loading pipeline: the external
//! grammar produces a `ParsedNode` tree per document; the pipeline runs the
//! safety filter over text and tree and converts to a native value.

use vstd::prelude::*;

use serde::Deserialize;

use crate::error::ErrSpec;
use crate::error::YAMLError;
use crate::error::view_err;
use crate::safe::check_safety;
use crate::safe::quick_bad;
use crate::safe::quick_safety_check;
use crate::safe::scan_node;
use crate::types::NativeSpec;
use crate::types::NativeValue;
use crate::types::NodeSpec;
use crate::types::ParsedNode;
use crate::types::lemma_view_nodes;
use crate::types::native_of;
use crate::types::view_native;
use crate::types::view_natives;
use crate::types::view_node;
use crate::types::view_nodes;
use crate::types::yaml_to_native;

verus! {

#[verifier::external_type_specification]
#[verifier::external_body]
pub struct ExValue(serde_yaml::Value);

#[verifier::external_type_specification]
#[verifier::external_body]
pub struct ExNumber(serde_yaml::Number);

#[verifier::external_type_specification]
#[verifier::external_body]
pub struct ExError(serde_yaml::Error);

/// What the external grammar makes of one document: the parse of a text is
/// a function of that text alone, either a tree or a positioned parse
/// failure.
pub uninterp spec fn parsed_doc(text: Seq<char>) -> Result<NodeSpec, ErrSpec>;

/// What the external grammar makes of a multi-document text: the documents
/// parsed before the first failure, in order, and that failure if any.
pub uninterp spec fn parsed_docs(text: Seq<char>) -> (Seq<NodeSpec>, Option<ErrSpec>);

/// Relies on serde_yaml::Number::as_i64, as_u64 and as_f64: a numeric
/// scalar is a signed integer, an unsigned integer beyond the signed range,
/// or a 64-bit float, tried in that order; the float is kept as its bit
/// pattern.
#[verifier::external_body]
fn number_node(n: &serde_yaml::Number) -> (r: ParsedNode) {
    if let Some(i) = n.as_i64() {
        ParsedNode::Int(i)
    } else if let Some(u) = n.as_u64() {
        ParsedNode::UInt(u)
    } else {
        ParsedNode::Float(n.as_f64().map(|x| x.to_bits()).unwrap_or(0))
    }
}

/// Relies on serde_yaml::Value: each variant of the parsed tree is carried
/// over one for one, a tag rendered by its display form.
#[verifier::external_body]
fn node_of_value(v: &serde_yaml::Value) -> (r: ParsedNode) {
    match v {
        serde_yaml::Value::Null => ParsedNode::Null,
        serde_yaml::Value::Bool(b) => ParsedNode::Bool(*b),
        serde_yaml::Value::Number(n) => number_node(n),
        serde_yaml::Value::String(s) => ParsedNode::Str(s.clone()),
        serde_yaml::Value::Sequence(s) => ParsedNode::Sequence(s.iter().map(node_of_value).collect()),
        serde_yaml::Value::Mapping(m) => ParsedNode::Mapping(
            m.iter().map(|(k, w)| (node_of_value(k), node_of_value(w))).collect(),
        ),
        serde_yaml::Value::Tagged(t) => ParsedNode::Tagged(
            t.tag.to_string(),
            Box::new(node_of_value(&t.value)),
        ),
    }
}

/// Relies on serde_yaml::Error::location: the failure position when one
/// exists, else the unknown-position sentinel 0, with the error's message.
#[verifier::external_body]
fn yaml_error_of(err: serde_yaml::Error) -> (r: YAMLError)
    ensures
        view_err(r) is ParseError,
{
    match err.location() {
        Some(loc) => YAMLError::ParseError {
            line: loc.line(),
            col: loc.column(),
            message: format!("{}", err),
        },
        None => YAMLError::ParseError { line: 0, col: 0, message: format!("{}", err) },
    }
}

/// Relies on serde_yaml::from_str: parses one document into a tree,
/// deterministically in the text, or fails with a positioned parse error.
#[verifier::external_body]
pub(crate) fn parse_document(text: &str) -> (r: Result<ParsedNode, YAMLError>)
    ensures
        (r matches Ok(node) ==> parsed_doc(text@) == Ok::<NodeSpec, ErrSpec>(view_node(node))),
        (r matches Err(e) ==> parsed_doc(text@) == Err::<NodeSpec, ErrSpec>(view_err(e))
            && view_err(e) is ParseError),
{
    match serde_yaml::from_str::<serde_yaml::Value>(text) {
        Ok(v) => Ok(node_of_value(&v)),
        Err(e) => Err(yaml_error_of(e)),
    }
}

/// Relies on serde_yaml::Deserializer::from_str: the documents of the text
/// in order up to the first parse failure, and that failure if any, all a
/// function of the text alone.
#[verifier::external_body]
pub(crate) fn parse_documents(text: &str) -> (r: (Vec<ParsedNode>, Option<YAMLError>))
    ensures
        view_nodes(r.0@) == parsed_docs(text@).0,
        (r.1 matches Some(e) ==> parsed_docs(text@).1 == Some(view_err(e)) && view_err(
            e,
        ) is ParseError),
        (r.1 is None ==> parsed_docs(text@).1 is None),
{
    let mut docs = Vec::new();
    for document in serde_yaml::Deserializer::from_str(text) {
        match serde_yaml::Value::deserialize(document) {
            Ok(v) => docs.push(node_of_value(&v)),
            Err(e) => return (docs, Some(yaml_error_of(e))),
        }
    }
    (docs, None)
}

/// The exec result `r` realizes the abstract outcome `s`.
pub open spec fn result_matches(
    r: Result<NativeValue, YAMLError>,
    s: Result<NativeSpec, ErrSpec>,
) -> bool {
    match s {
        Result::Ok(v) => r matches Ok(rv) && view_native(rv) == v,
        Result::Err(e) => r matches Err(re) && view_err(re) == e,
    }
}

/// The exec list result `r` realizes the abstract outcome `s`.
pub open spec fn results_match(
    r: Result<Vec<NativeValue>, YAMLError>,
    s: Result<Seq<NativeSpec>, ErrSpec>,
) -> bool {
    match s {
        Result::Ok(vs) => r matches Ok(out) && view_natives(out@) == vs,
        Result::Err(e) => r matches Err(re) && view_err(re) == e,
    }
}

/// Loading one document: in safe mode the quick text scan runs first, then
/// the parse, then the tree scan; what survives converts to a native value.
/// In unsafe mode both filter stages are skipped.
pub open spec fn load_one_spec(text: Seq<char>, safe: bool) -> Result<NativeSpec, ErrSpec> {
    if safe && quick_bad(text) is Some {
        Err(ErrSpec::UnsafeTag { tag: quick_bad(text)->Some_0 })
    } else {
        match parsed_doc(text) {
            Result::Err(pe) => Err(pe),
            Result::Ok(node) => if safe && scan_node(node) is Some {
                Err(ErrSpec::UnsafeTag { tag: scan_node(node)->Some_0 })
            } else {
                native_of(node)
            },
        }
    }
}

/// Parses one document with the full safety filter: quick text scan, parse,
/// tree scan, conversion.
pub fn parse_safe(yaml_str: &str) -> (r: Result<NativeValue, YAMLError>)
    ensures
        result_matches(r, load_one_spec(yaml_str@, true)),
{
    if let Err(e) = quick_safety_check(yaml_str) {
        return Err(e);
    }
    let node = match parse_document(yaml_str) {
        Result::Err(e) => return Err(e),
        Result::Ok(n) => n,
    };
    if let Err(e) = check_safety(&node) {
        return Err(e);
    }
    yaml_to_native(&node)
}

/// Parses one document with both filter stages skipped: the caller accepts
/// the risk, though a tagged node still fails at conversion.
pub fn parse_unsafe(yaml_str: &str) -> (r: Result<NativeValue, YAMLError>)
    ensures
        result_matches(r, load_one_spec(yaml_str@, false)),
{
    let node = match parse_document(yaml_str) {
        Result::Err(e) => return Err(e),
        Result::Ok(n) => n,
    };
    yaml_to_native(&node)
}

/// The conversions of the parsed documents, in order: per document the tree
/// scan (in safe mode) and then the conversion; the earliest failing
/// document decides the error.
pub open spec fn docs_convert(docs: Seq<NodeSpec>, safe: bool) -> Result<Seq<NativeSpec>, ErrSpec>
    decreases docs,
{
    if docs.len() == 0 {
        Ok(Seq::empty())
    } else {
        match docs_convert(docs.drop_last(), safe) {
            Result::Err(e) => Err(e),
            Result::Ok(rest) => {
                let n = docs.last();
                if safe && scan_node(n) is Some {
                    Err(ErrSpec::UnsafeTag { tag: scan_node(n)->Some_0 })
                } else {
                    match native_of(n) {
                        Result::Err(e) => Err(e),
                        Result::Ok(v) => Ok(rest.push(v)),
                    }
                }
            },
        }
    }
}

/// A failed prefix decides the conversion of all documents.
proof fn lemma_docs_convert_err(s: Seq<NodeSpec>, safe: bool, i: int)
    requires
        0 <= i <= s.len(),
        docs_convert(s.subrange(0, i), safe) is Err,
    ensures
        docs_convert(s, safe) == docs_convert(s.subrange(0, i), safe),
    decreases s.len() - i,
{
    if i < s.len() {
        assert(s.subrange(0, i + 1).drop_last() =~= s.subrange(0, i));
        lemma_docs_convert_err(s, safe, i + 1);
    } else {
        assert(s.subrange(0, s.len() as int) =~= s);
    }
}

/// Loading every document of one text: in safe mode the quick text scan
/// runs once over the whole text; each document is then scanned and
/// converted in order, and a parse failure after the last parsed document
/// surfaces only once the parsed documents are through.
pub open spec fn load_all_spec(text: Seq<char>, safe: bool) -> Result<Seq<NativeSpec>, ErrSpec> {
    if safe && quick_bad(text) is Some {
        Err(ErrSpec::UnsafeTag { tag: quick_bad(text)->Some_0 })
    } else {
        let (docs, perr) = parsed_docs(text);
        match docs_convert(docs, safe) {
            Result::Err(e) => Err(e),
            Result::Ok(vals) => match perr {
                Option::Some(e) => Err(e),
                Option::None => Ok(vals),
            },
        }
    }
}

/// Parses every document of the text with the full safety filter, failing
/// the whole call on the first document that fails.
pub fn parse_all(yaml_str: &str) -> (r: Result<Vec<NativeValue>, YAMLError>)
    ensures
        results_match(r, load_all_spec(yaml_str@, true)),
{
    if let Err(e) = quick_safety_check(yaml_str) {
        return Err(e);
    }
    parse_all_documents(yaml_str, true)
}

/// Parses every document of the text with both filter stages skipped.
pub fn parse_all_unsafe(yaml_str: &str) -> (r: Result<Vec<NativeValue>, YAMLError>)
    ensures
        results_match(r, load_all_spec(yaml_str@, false)),
{
    parse_all_documents(yaml_str, false)
}

/// The shared multi-document pipeline after the quick scan: parse all
/// documents, then scan (in safe mode) and convert each in order.
fn parse_all_documents(yaml_str: &str, safe: bool) -> (r: Result<Vec<NativeValue>, YAMLError>)
    ensures
        ({
            let (docs, perr) = parsed_docs(yaml_str@);
            match docs_convert(docs, safe) {
                Result::Err(e) => r matches Err(re) && view_err(re) == e,
                Result::Ok(vals) => match perr {
                    Option::Some(e) => r matches Err(re) && view_err(re) == e,
                    Option::None => r matches Ok(out) && view_natives(out@) == vals,
                },
            }
        }),
{
    let (docs, perr) = parse_documents(yaml_str);
    let ghost ds = parsed_docs(yaml_str@).0;
    let ghost sperr = parsed_docs(yaml_str@).1;
    proof {
        lemma_view_nodes(docs@);
        assert(ds.subrange(0, 0) =~= Seq::<NodeSpec>::empty());
    }
    let mut out: Vec<NativeValue> = Vec::new();
    let mut idx: usize = 0;
    while idx < docs.len()
        invariant
            idx <= docs@.len(),
            ds == parsed_docs(yaml_str@).0,
            ds == view_nodes(docs@),
            ds.len() == docs@.len(),
            forall|i: int| 0 <= i < docs@.len() ==> ds[i] == view_node(#[trigger] docs@[i]),
            docs_convert(ds.subrange(0, idx as int), safe) == Ok::<_, ErrSpec>(
                view_natives(out@),
            ),
        decreases docs@.len() - idx,
    {
        proof {
            assert(ds.subrange(0, idx as int + 1).drop_last() =~= ds.subrange(0, idx as int));
            assert(ds.subrange(0, idx as int + 1).last() == ds[idx as int]);
        }
        if safe {
            if let Err(e) = check_safety(&docs[idx]) {
                proof {
                    lemma_docs_convert_err(ds, safe, idx as int + 1);
                    assert(ds.subrange(0, ds.len() as int) =~= ds);
                }
                return Err(e);
            }
        }
        match yaml_to_native(&docs[idx]) {
            Result::Err(e) => {
                proof {
                    lemma_docs_convert_err(ds, safe, idx as int + 1);
                    assert(ds.subrange(0, ds.len() as int) =~= ds);
                }
                return Err(e);
            }
            Result::Ok(v) => {
                let ghost prev = out@;
                out.push(v);
                proof {
                    assert(out@.drop_last() =~= prev);
                    assert(view_natives(out@) == view_natives(prev).push(
                        view_native(out@.last()),
                    ));
                }
            }
        }
        idx = idx + 1;
    }
    proof {
        assert(ds.subrange(0, ds.len() as int) =~= ds);
    }
    match perr {
        Option::Some(e) => Err(e),
        Option::None => Ok(out),
    }
}

} // verus!
