//! The schema tree a synthesis produces, and the facts the contracts
//! state about it: which `(namespace, name)` pairs a tree defines, and
//! when a default literal fits a node.

use vstd::prelude::*;
use crate::attributes::DefaultValue;

verus! {

/// One field entry of an emitted record schema.
#[derive(Debug)]
pub struct RecordField {
    pub name: String,
    pub schema: SchemaNode,
    pub doc: Option<String>,
    pub default: Option<DefaultValue>,
    pub aliases: Vec<String>,
}

/// A node of the produced Avro schema tree.  A record or enum appears in
/// full at its first occurrence in a document; every later occurrence is
/// a [`SchemaNode::NamedReference`] carrying the qualified name.
#[derive(Debug)]
pub enum SchemaNode {
    Null,
    Boolean,
    Int,
    Long,
    Float,
    Double,
    Bytes,
    Str,
    Array(Box<SchemaNode>),
    Mapping(Box<SchemaNode>),
    Union(Vec<SchemaNode>),
    Record {
        name: String,
        namespace: String,
        doc: Option<String>,
        aliases: Vec<String>,
        fields: Vec<RecordField>,
    },
    Enum {
        name: String,
        namespace: String,
        doc: Option<String>,
        aliases: Vec<String>,
        symbols: Vec<String>,
    },
    NamedReference(String),
}

/// The `(namespace, name)` pairs of the full record and enum definitions
/// a node inlines, in emission order.  A named reference defines
/// nothing.
pub open spec fn node_def_keys(n: SchemaNode) -> Seq<(Seq<char>, Seq<char>)>
    decreases n,
{
    match n {
        SchemaNode::Array(e) => node_def_keys(*e),
        SchemaNode::Mapping(e) => node_def_keys(*e),
        SchemaNode::Union(items) => union_def_keys(items@),
        SchemaNode::Record { name, namespace, fields, .. } => seq![(namespace@, name@)]
            + fields_def_keys(fields@),
        SchemaNode::Enum { name, namespace, .. } => seq![(namespace@, name@)],
        _ => Seq::empty(),
    }
}

/// The definition keys of a union's branches, in order.
pub open spec fn union_def_keys(items: Seq<SchemaNode>) -> Seq<(Seq<char>, Seq<char>)>
    decreases items,
{
    if items.len() == 0 {
        Seq::empty()
    } else {
        union_def_keys(items.drop_last()) + node_def_keys(items.last())
    }
}

/// The definition keys of a record's field schemas, in order.
pub open spec fn fields_def_keys(fields: Seq<RecordField>) -> Seq<(Seq<char>, Seq<char>)>
    decreases fields,
{
    if fields.len() == 0 {
        Seq::empty()
    } else {
        fields_def_keys(fields.drop_last()) + node_def_keys(fields.last().schema)
    }
}

/// Whether a default literal fits one union branch.
pub open spec fn default_fits_branch(n: SchemaNode, v: DefaultValue) -> bool {
    match (n, v) {
        (SchemaNode::Null, DefaultValue::Null) => true,
        (SchemaNode::Boolean, DefaultValue::Boolean(_)) => true,
        (SchemaNode::Int, DefaultValue::Integer(x)) => -0x8000_0000 <= x <= 0x7fff_ffff,
        (SchemaNode::Long, DefaultValue::Integer(_)) => true,
        (SchemaNode::Str, DefaultValue::Text(_)) => true,
        (SchemaNode::Bytes, DefaultValue::Text(_)) => true,
        (SchemaNode::Enum { .. }, DefaultValue::Text(_)) => true,
        _ => false,
    }
}

/// Whether a default literal fits a field schema.  Against a union the
/// literal must fit the first branch, the branch Avro takes as the
/// default's type.
pub open spec fn default_fits(n: SchemaNode, v: DefaultValue) -> bool {
    match n {
        SchemaNode::Union(items) => items@.len() > 0 && default_fits_branch(items@[0], v),
        _ => default_fits_branch(n, v),
    }
}

/// Decides whether a default literal fits a field schema.
pub fn check_default(n: &SchemaNode, v: &DefaultValue) -> (r: bool)
    ensures
        r == default_fits(*n, *v),
{
    let branch: &SchemaNode = match n {
        SchemaNode::Union(items) => {
            if items.len() == 0 {
                return false;
            }
            &items[0]
        },
        _ => n,
    };
    match (branch, v) {
        (SchemaNode::Null, DefaultValue::Null) => true,
        (SchemaNode::Boolean, DefaultValue::Boolean(_)) => true,
        (SchemaNode::Int, DefaultValue::Integer(x)) => -0x8000_0000 <= *x && *x <= 0x7fff_ffff,
        (SchemaNode::Long, DefaultValue::Integer(_)) => true,
        (SchemaNode::Str, DefaultValue::Text(_)) => true,
        (SchemaNode::Bytes, DefaultValue::Text(_)) => true,
        (SchemaNode::Enum { .. }, DefaultValue::Text(_)) => true,
        _ => false,
    }
}

} // verus!
