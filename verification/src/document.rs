//! The document scanner: walks a parsed workflow document — an arbitrary
//! nesting of mappings, sequences and scalars — and collects every field
//! named `uses` whose string value parses as an action reference, in
//! depth-first encounter order.
//!
//! Parsing the document text itself is delegated to serde_yaml behind a
//! trusted wrapper; the walk over the resulting tree is verified.

use vstd::prelude::*;
use vstd::string::*;

use crate::chars::str_eq;
use crate::reference::parse_reference;
use crate::reference::parse_uses_string;
use crate::reference::ActionReference;
use crate::reference::RefView;

verus! {

/// A parsed workflow document: a tree of mappings, sequences and
/// scalars.  Only string scalars can hold action references; every other
/// scalar kind is `Other`.  Mapping entries keep the order in which the
/// document states them.
pub enum Node {
    Scalar(String),
    Other,
    Sequence(Vec<Node>),
    Mapping(Vec<(Node, Node)>),
}

/// The name of the field whose values are action references.
pub open spec fn uses_key() -> Seq<char> {
    seq!['u', 's', 'e', 's']
}

/// The views of a sequence of structured references.
pub open spec fn ref_views(s: Seq<ActionReference>) -> Seq<RefView> {
    s.map_values(|a: ActionReference| a@)
}

/// The references one mapping entry contributes directly: one when its
/// key is `uses` and its value is a string that parses as a reference,
/// none otherwise.
pub open spec fn entry_refs(e: (Node, Node)) -> Seq<RefView> {
    match e.0 {
        Node::Scalar(k) => match e.1 {
            Node::Scalar(v) => if k@ == uses_key() {
                match parse_reference(v@) {
                    Some(rv) => seq![rv],
                    None => Seq::empty(),
                }
            } else {
                Seq::empty()
            },
            _ => Seq::empty(),
        },
        _ => Seq::empty(),
    }
}

/// Every reference the scanner collects from `n`, in depth-first
/// traversal order: at a mapping, each entry's own contribution comes
/// before what its value holds deeper down.
pub open spec fn collected(n: Node) -> Seq<RefView>
    decreases n, 0int,
{
    match n {
        Node::Scalar(_) => Seq::empty(),
        Node::Other => Seq::empty(),
        Node::Sequence(items) => collected_nodes(items@, 0),
        Node::Mapping(entries) => collected_entries(entries@, 0),
    }
}

/// The references collected from the items of a sequence, from position
/// `i` on.
pub open spec fn collected_nodes(items: Seq<Node>, i: int) -> Seq<RefView>
    decreases items, items.len() - i,
{
    if i < 0 || i >= items.len() {
        Seq::empty()
    } else {
        collected(items[i]) + collected_nodes(items, i + 1)
    }
}

/// The references collected from the entries of a mapping, from position
/// `i` on.
pub open spec fn collected_entries(entries: Seq<(Node, Node)>, i: int) -> Seq<RefView>
    decreases entries, entries.len() - i,
{
    if i < 0 || i >= entries.len() {
        Seq::empty()
    } else {
        entry_refs(entries[i]) + collected(entries[i].1) + collected_entries(entries, i + 1)
    }
}

/// Appending one reference appends its view.
proof fn lemma_ref_views_push(s: Seq<ActionReference>, a: ActionReference)
    ensures
        ref_views(s.push(a)) == ref_views(s).push(a@),
{
    assert(ref_views(s.push(a)) =~= ref_views(s).push(a@));
}

/// Examines one mapping entry and appends the reference it contributes
/// directly, if any.
fn scan_entry(key: &Node, val: &Node, refs: &mut Vec<ActionReference>)
    ensures
        ref_views(final(refs)@) == ref_views(old(refs)@) + entry_refs((*key, *val)),
{
    let ghost e = (*key, *val);
    match key {
        Node::Scalar(key_str) => {
            proof {
                reveal_strlit("uses");
                assert("uses"@ =~= uses_key());
            }
            if str_eq(key_str.as_str(), "uses") {
                match val {
                    Node::Scalar(val_str) => {
                        match parse_uses_string(val_str.as_str()) {
                            Some(ar) => {
                                proof {
                                    lemma_ref_views_push(refs@, ar);
                                    assert(entry_refs(e) =~= seq![ar@]);
                                    assert(ref_views(refs@).push(ar@) =~= ref_views(refs@)
                                        + entry_refs(e));
                                }
                                refs.push(ar);
                            },
                            None => {
                                assert(ref_views(refs@) =~= ref_views(refs@) + entry_refs(e));
                            },
                        }
                    },
                    _ => {
                        assert(ref_views(refs@) =~= ref_views(refs@) + entry_refs(e));
                    },
                }
            } else {
                assert(ref_views(refs@) =~= ref_views(refs@) + entry_refs(e));
            }
        },
        _ => {
            assert(ref_views(refs@) =~= ref_views(refs@) + entry_refs(e));
        },
    }
}

/// Walks `value` depth-first and appends every action reference found in
/// a `uses` field to `refs`, in encounter order.
pub fn extract_uses_from_value(value: &Node, refs: &mut Vec<ActionReference>)
    ensures
        ref_views(final(refs)@) == ref_views(old(refs)@) + collected(*value),
    decreases *value,
{
    match value {
        Node::Scalar(_) => {
            assert(ref_views(refs@) =~= ref_views(refs@) + collected(*value));
        },
        Node::Other => {
            assert(ref_views(refs@) =~= ref_views(refs@) + collected(*value));
        },
        Node::Sequence(items) => {
            let ghost base = refs@;
            let n = items.len();
            let mut idx: usize = 0;
            while idx < n
                invariant
                    idx <= n,
                    n == items@.len(),
                    *value == Node::Sequence(*items),
                    ref_views(refs@) + collected_nodes(items@, idx as int) == ref_views(base)
                        + collected_nodes(items@, 0),
                decreases n - idx,
            {
                let ghost refs0 = refs@;
                proof {
                    assert(decreases_to!(*value => value->Sequence_0));
                    assert(value->Sequence_0 == *items);
                    assert(decreases_to!(*items => items@));
                    assert(decreases_to!(items@ => items@[idx as int]));
                }
                extract_uses_from_value(&items[idx], refs);
                proof {
                    assert((ref_views(refs0) + collected(items@[idx as int])) + collected_nodes(
                        items@,
                        idx + 1,
                    ) =~= ref_views(refs0) + (collected(items@[idx as int]) + collected_nodes(
                        items@,
                        idx + 1,
                    )));
                    assert(collected(items@[idx as int]) + collected_nodes(items@, idx + 1)
                        == collected_nodes(items@, idx as int));
                }
                idx = idx + 1;
            }
        },
        Node::Mapping(entries) => {
            let ghost base = refs@;
            let n = entries.len();
            let mut idx: usize = 0;
            while idx < n
                invariant
                    idx <= n,
                    n == entries@.len(),
                    *value == Node::Mapping(*entries),
                    ref_views(refs@) + collected_entries(entries@, idx as int) == ref_views(base)
                        + collected_entries(entries@, 0),
                decreases n - idx,
            {
                let ghost e = entries@[idx as int];
                let ghost refs0 = refs@;
                let (key, val) = &entries[idx];
                scan_entry(key, val, refs);
                let ghost refs1 = refs@;
                proof {
                    assert(decreases_to!(*value => value->Mapping_0));
                    assert(value->Mapping_0 == *entries);
                    assert(decreases_to!(*entries => entries@));
                    assert(decreases_to!(entries@ => entries@[idx as int]));
                    assert(decreases_to!(entries@[idx as int] => entries@[idx as int].1));
                }
                extract_uses_from_value(val, refs);
                proof {
                    assert(ref_views(refs1) == ref_views(refs0) + entry_refs(e));
                    assert(ref_views(refs@) =~= ref_views(refs0) + (entry_refs(e) + collected(e.1)));
                    assert((ref_views(refs0) + (entry_refs(e) + collected(e.1)))
                        + collected_entries(entries@, idx + 1) =~= ref_views(refs0) + (entry_refs(e)
                        + collected(e.1) + collected_entries(entries@, idx + 1)));
                    assert(entry_refs(e) + collected(e.1) + collected_entries(entries@, idx + 1)
                        == collected_entries(entries@, idx as int));
                }
                idx = idx + 1;
            }
        },
    }
}


/// Declares serde_yaml's value type so that the conversion below can
/// name it; the library never looks inside such a value.
#[verifier::external_type_specification]
#[verifier::external_body]
pub struct ExYamlValue(serde_yaml::Value);

/// What parsing a document text yields, as this library's tree: `None`
/// exactly when the text is not a well-formed document.  The tree is a
/// function of the text alone.
pub uninterp spec fn yaml_tree_of(s: Seq<char>) -> Option<Node>;

/// Relies on serde_yaml::from_str: parses a document text
/// deterministically, keeping mapping entries in document order.  On
/// failure the error's own message is returned; nothing is promised of
/// its wording.
#[verifier::external_body]
fn parse_yaml(content: &str) -> (r: Result<Node, String>)
    ensures
        r matches Ok(t) ==> yaml_tree_of(content@) == Some(t),
        r is Err <==> yaml_tree_of(content@) is None,
{
    match serde_yaml::from_str::<serde_yaml::Value>(content) {
        Ok(v) => Ok(node_of_value(&v)),
        Err(e) => Err(e.to_string()),
    }
}

/// Converts serde_yaml's parsed value into the library's tree, one
/// variant arm at a time: string scalars, sequences and mappings keep
/// their structure; every other value becomes `Node::Other`.
#[verifier::external_body]
fn node_of_value(v: &serde_yaml::Value) -> Node {
    match v {
        serde_yaml::Value::String(s) => Node::Scalar(s.clone()),
        serde_yaml::Value::Sequence(items) => Node::Sequence(
            items.iter().map(node_of_value).collect(),
        ),
        serde_yaml::Value::Mapping(entries) => Node::Mapping(
            entries.iter().map(|(k, val)| (node_of_value(k), node_of_value(val))).collect(),
        ),
        _ => Node::Other,
    }
}

/// Finds every action reference in a workflow document text, in
/// traversal order: parses the text, then walks the tree.  A document
/// that cannot be parsed is an error for that file, carrying the
/// parser's message; a document with no reference fields yields an
/// empty list, which is not an error.
pub fn find_action_references(content: &str) -> (r: Result<Vec<ActionReference>, String>)
    ensures
        match r {
            Ok(refs) => yaml_tree_of(content@) matches Some(t) && ref_views(refs@) == collected(t),
            Err(_) => yaml_tree_of(content@) is None,
        },
{
    match parse_yaml(content) {
        Ok(node) => {
            let mut refs: Vec<ActionReference> = Vec::new();
            proof {
                assert(ref_views(refs@) =~= Seq::<RefView>::empty());
            }
            extract_uses_from_value(&node, &mut refs);
            proof {
                assert(Seq::<RefView>::empty() + collected(node) =~= collected(node));
            }
            Ok(refs)
        },
        Err(e) => Err(e),
    }
}

/// Whether one mapping entry is a recognized reference field: its key
/// is `uses` and its value is a string that parses as a reference.
pub open spec fn is_reference_field(e: (Node, Node)) -> bool {
    &&& e.0 matches Node::Scalar(k)
    &&& k@ == uses_key()
    &&& e.1 matches Node::Scalar(v)
    &&& parse_reference(v@) is Some
}

/// How many recognized reference fields `n` holds, at any depth.
pub open spec fn reference_field_count(n: Node) -> nat
    decreases n, 0int,
{
    match n {
        Node::Scalar(_) => 0,
        Node::Other => 0,
        Node::Sequence(items) => field_count_nodes(items@, 0),
        Node::Mapping(entries) => field_count_entries(entries@, 0),
    }
}

/// The reference fields held by the items of a sequence from position
/// `i` on.
pub open spec fn field_count_nodes(items: Seq<Node>, i: int) -> nat
    decreases items, items.len() - i,
{
    if i < 0 || i >= items.len() {
        0
    } else {
        reference_field_count(items[i]) + field_count_nodes(items, i + 1)
    }
}

/// The reference fields held by the entries of a mapping from position
/// `i` on.
pub open spec fn field_count_entries(entries: Seq<(Node, Node)>, i: int) -> nat
    decreases entries, entries.len() - i,
{
    if i < 0 || i >= entries.len() {
        0
    } else {
        (if is_reference_field(entries[i]) {
            1nat
        } else {
            0nat
        }) + reference_field_count(entries[i].1) + field_count_entries(entries, i + 1)
    }
}

/// Law: the scanner finds all reference fields regardless of nesting
/// depth — what it collects from a document has exactly one element per
/// recognized reference field, however deeply mappings and sequences
/// nest.
pub proof fn lemma_scanner_finds_every_field(n: Node)
    ensures
        collected(n).len() == reference_field_count(n),
    decreases n, 0int,
{
    match n {
        Node::Scalar(_) => {},
        Node::Other => {},
        Node::Sequence(items) => {
            lemma_scanner_nodes(items@, 0);
        },
        Node::Mapping(entries) => {
            lemma_scanner_entries(entries@, 0);
        },
    }
}

proof fn lemma_scanner_nodes(items: Seq<Node>, i: int)
    ensures
        collected_nodes(items, i).len() == field_count_nodes(items, i),
    decreases items, items.len() - i,
{
    if 0 <= i < items.len() {
        lemma_scanner_finds_every_field(items[i]);
        lemma_scanner_nodes(items, i + 1);
    }
}

proof fn lemma_scanner_entries(entries: Seq<(Node, Node)>, i: int)
    ensures
        collected_entries(entries, i).len() == field_count_entries(entries, i),
    decreases entries, entries.len() - i,
{
    if 0 <= i < entries.len() {
        lemma_scanner_finds_every_field(entries[i].1);
        lemma_scanner_entries(entries, i + 1);
        assert(entry_refs(entries[i]).len() == (if is_reference_field(entries[i]) {
            1nat
        } else {
            0nat
        }));
    }
}

} // verus!
