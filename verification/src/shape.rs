//! Structural description of a host type, as an external shape extractor
//! hands it in: a graph of record and enum definitions whose fields refer
//! to primitives, containers, or other definitions by index.

use vstd::prelude::*;
use crate::attributes::{AttributeSet, DefaultValue};
use crate::names::{resolved_name, resolved_namespace};

verus! {

/// The primitive element types a field can declare.
#[derive(Debug, Clone, Copy, PartialEq, Eq, Structural)]
pub enum PrimitiveKind {
    Null,
    Boolean,
    Int32,
    Int64,
    Float32,
    Float64,
    Bytes,
    Str,
}

/// The container element types a field can declare: an array of, a
/// string-keyed map of, or an optional occurrence of an element type.
#[derive(Debug, Clone, Copy, PartialEq, Eq, Structural)]
pub enum ContainerKind {
    Array,
    Mapping,
    Optional,
}

/// The element type a field or container declares: a primitive, a
/// container of a further element type, or a reference by index to a
/// record or enum definition of the enclosing [`TypeGraph`].
#[derive(Debug)]
pub enum TypeShape {
    Primitive(PrimitiveKind),
    Container { kind: ContainerKind, element: Box<TypeShape> },
    Named(usize),
}

/// One field of a record definition, in declaration order.
#[derive(Debug)]
pub struct FieldSpec {
    pub source_name: String,
    pub declared_type: TypeShape,
    pub overrides: AttributeSet,
}

/// One variant of an enum definition, in declaration order.
#[derive(Debug)]
pub struct VariantSpec {
    pub source_name: String,
    pub overrides: AttributeSet,
}

/// A named definition: a record with ordered fields, or an enum with
/// ordered variants.  `declared_path` is the fully qualified path of the
/// definition site and supplies the default namespace and name.
#[derive(Debug)]
pub enum TypeDef {
    Record { declared_path: Vec<String>, overrides: AttributeSet, fields: Vec<FieldSpec> },
    Enum { declared_path: Vec<String>, overrides: AttributeSet, variants: Vec<VariantSpec> },
}

/// The definitions a synthesis request may refer to, indexed by
/// [`TypeShape::Named`].  Self- and mutually-referential types are
/// expressed by fields whose element type points back into this table.
#[derive(Debug)]
pub struct TypeGraph {
    pub defs: Vec<TypeDef>,
}

/// The declaration path of a definition.
pub open spec fn def_path(d: TypeDef) -> Seq<Seq<char>> {
    match d {
        TypeDef::Record { declared_path, .. } => declared_path.deep_view(),
        TypeDef::Enum { declared_path, .. } => declared_path.deep_view(),
    }
}

/// The override annotations of a definition.
pub open spec fn def_attrs(d: TypeDef) -> AttributeSet {
    match d {
        TypeDef::Record { overrides, .. } => overrides,
        TypeDef::Enum { overrides, .. } => overrides,
    }
}

/// The canonical `(namespace, name)` pair a definition resolves to.
pub open spec fn def_key(d: TypeDef) -> (Seq<char>, Seq<char>) {
    (resolved_namespace(def_path(d), def_attrs(d)), resolved_name(def_path(d), def_attrs(d)))
}

/// View-level equality of two optional strings.
pub open spec fn opt_str_eq(a: Option<String>, b: Option<String>) -> bool {
    match (a, b) {
        (Option::None, Option::None) => true,
        (Option::Some(x), Option::Some(y)) => x@ == y@,
        _ => false,
    }
}

/// View-level equality of two default literals.
pub open spec fn default_eq(a: DefaultValue, b: DefaultValue) -> bool {
    match (a, b) {
        (DefaultValue::Null, DefaultValue::Null) => true,
        (DefaultValue::Boolean(x), DefaultValue::Boolean(y)) => x == y,
        (DefaultValue::Integer(x), DefaultValue::Integer(y)) => x == y,
        (DefaultValue::Text(x), DefaultValue::Text(y)) => x@ == y@,
        _ => false,
    }
}

/// View-level equality of two optional default literals.
pub open spec fn opt_default_eq(a: Option<DefaultValue>, b: Option<DefaultValue>) -> bool {
    match (a, b) {
        (Option::None, Option::None) => true,
        (Option::Some(x), Option::Some(y)) => default_eq(x, y),
        _ => false,
    }
}

/// Structural equality of two attribute sets.
pub open spec fn attrs_eq(a: AttributeSet, b: AttributeSet) -> bool {
    &&& opt_str_eq(a.rename, b.rename)
    &&& opt_str_eq(a.namespace, b.namespace)
    &&& a.aliases.deep_view() == b.aliases.deep_view()
    &&& opt_default_eq(a.default, b.default)
    &&& opt_str_eq(a.doc, b.doc)
    &&& a.skip == b.skip
}

/// Structural equality of two element types.  Two references are equal
/// exactly when they point at the same definition.
pub open spec fn shape_eq(a: TypeShape, b: TypeShape) -> bool
    decreases a,
{
    match (a, b) {
        (TypeShape::Primitive(x), TypeShape::Primitive(y)) => x == y,
        (
            TypeShape::Container { kind: k1, element: e1 },
            TypeShape::Container { kind: k2, element: e2 },
        ) => k1 == k2 && shape_eq(*e1, *e2),
        (TypeShape::Named(i), TypeShape::Named(j)) => i == j,
        _ => false,
    }
}

/// Structural equality of two fields.
pub open spec fn field_eq(a: FieldSpec, b: FieldSpec) -> bool {
    &&& a.source_name@ == b.source_name@
    &&& shape_eq(a.declared_type, b.declared_type)
    &&& attrs_eq(a.overrides, b.overrides)
}

/// Structural equality of two variants.
pub open spec fn variant_eq(a: VariantSpec, b: VariantSpec) -> bool {
    &&& a.source_name@ == b.source_name@
    &&& attrs_eq(a.overrides, b.overrides)
}

/// Structural equality of two field sequences, position by position.
pub open spec fn fields_eq(a: Seq<FieldSpec>, b: Seq<FieldSpec>) -> bool {
    &&& a.len() == b.len()
    &&& forall|i: int| 0 <= i < a.len() ==> #[trigger] field_eq(a[i], b[i])
}

/// Structural equality of two variant sequences, position by position.
pub open spec fn variants_eq(a: Seq<VariantSpec>, b: Seq<VariantSpec>) -> bool {
    &&& a.len() == b.len()
    &&& forall|i: int| 0 <= i < a.len() ==> #[trigger] variant_eq(a[i], b[i])
}

/// Structural equality of two definitions: the criterion by which a name
/// collision is told apart from a legitimate reuse of one shared type.
/// The declaration path does not count: it only feeds the resolved key,
/// and the comparison is made between definitions whose keys already
/// agree.  What counts is what the definitions would emit: their
/// override sets and their fields or variants, in order.
pub open spec fn def_eq(a: TypeDef, b: TypeDef) -> bool {
    match (a, b) {
        (
            TypeDef::Record { overrides: o1, fields: f1, .. },
            TypeDef::Record { overrides: o2, fields: f2, .. },
        ) => attrs_eq(o1, o2) && fields_eq(f1@, f2@),
        (
            TypeDef::Enum { overrides: o1, variants: v1, .. },
            TypeDef::Enum { overrides: o2, variants: v2, .. },
        ) => attrs_eq(o1, o2) && variants_eq(v1@, v2@),
        _ => false,
    }
}

fn opt_str_equal(a: &Option<String>, b: &Option<String>) -> (r: bool)
    ensures
        r == opt_str_eq(*a, *b),
{
    match (a, b) {
        (Option::None, Option::None) => true,
        (Option::Some(x), Option::Some(y)) => *x == *y,
        _ => false,
    }
}

fn str_vec_equal(a: &Vec<String>, b: &Vec<String>) -> (r: bool)
    ensures
        r == (a.deep_view() == b.deep_view()),
{
    if a.len() != b.len() {
        proof {
            assert(a.deep_view().len() == a@.len());
            assert(b.deep_view().len() == b@.len());
        }
        return false;
    }
    let mut i: usize = 0;
    while i < a.len()
        invariant
            0 <= i <= a@.len(),
            a@.len() == b@.len(),
            forall|j: int| 0 <= j < i ==> a@[j]@ == b@[j]@,
        decreases a@.len() - i,
    {
        if !(a[i] == b[i]) {
            proof {
                assert(a.deep_view()[i as int] == a@[i as int]@);
                assert(b.deep_view()[i as int] == b@[i as int]@);
            }
            return false;
        }
        i += 1;
    }
    proof {
        assert(a.deep_view() =~~= b.deep_view());
    }
    true
}

fn default_equal(a: &DefaultValue, b: &DefaultValue) -> (r: bool)
    ensures
        r == default_eq(*a, *b),
{
    match (a, b) {
        (DefaultValue::Null, DefaultValue::Null) => true,
        (DefaultValue::Boolean(x), DefaultValue::Boolean(y)) => *x == *y,
        (DefaultValue::Integer(x), DefaultValue::Integer(y)) => *x == *y,
        (DefaultValue::Text(x), DefaultValue::Text(y)) => *x == *y,
        _ => false,
    }
}

fn attrs_equal(a: &AttributeSet, b: &AttributeSet) -> (r: bool)
    ensures
        r == attrs_eq(*a, *b),
{
    let defaults_ok = match (&a.default, &b.default) {
        (Option::None, Option::None) => true,
        (Option::Some(x), Option::Some(y)) => default_equal(x, y),
        _ => false,
    };
    opt_str_equal(&a.rename, &b.rename) && opt_str_equal(&a.namespace, &b.namespace)
        && str_vec_equal(&a.aliases, &b.aliases) && defaults_ok && opt_str_equal(&a.doc, &b.doc)
        && a.skip == b.skip
}

fn shape_equal(a: &TypeShape, b: &TypeShape) -> (r: bool)
    ensures
        r == shape_eq(*a, *b),
    decreases *a,
{
    match (a, b) {
        (TypeShape::Primitive(x), TypeShape::Primitive(y)) => *x == *y,
        (
            TypeShape::Container { kind: k1, element: e1 },
            TypeShape::Container { kind: k2, element: e2 },
        ) => *k1 == *k2 && shape_equal(e1, e2),
        (TypeShape::Named(i), TypeShape::Named(j)) => *i == *j,
        _ => false,
    }
}

fn field_equal(a: &FieldSpec, b: &FieldSpec) -> (r: bool)
    ensures
        r == field_eq(*a, *b),
{
    a.source_name == b.source_name && shape_equal(&a.declared_type, &b.declared_type)
        && attrs_equal(&a.overrides, &b.overrides)
}

fn variant_equal(a: &VariantSpec, b: &VariantSpec) -> (r: bool)
    ensures
        r == variant_eq(*a, *b),
{
    a.source_name == b.source_name && attrs_equal(&a.overrides, &b.overrides)
}

fn fields_equal(a: &Vec<FieldSpec>, b: &Vec<FieldSpec>) -> (r: bool)
    ensures
        r == fields_eq(a@, b@),
{
    if a.len() != b.len() {
        return false;
    }
    let mut i: usize = 0;
    while i < a.len()
        invariant
            0 <= i <= a@.len(),
            a@.len() == b@.len(),
            forall|j: int| 0 <= j < i ==> #[trigger] field_eq(a@[j], b@[j]),
        decreases a@.len() - i,
    {
        if !field_equal(&a[i], &b[i]) {
            return false;
        }
        i += 1;
    }
    true
}

fn variants_equal(a: &Vec<VariantSpec>, b: &Vec<VariantSpec>) -> (r: bool)
    ensures
        r == variants_eq(a@, b@),
{
    if a.len() != b.len() {
        return false;
    }
    let mut i: usize = 0;
    while i < a.len()
        invariant
            0 <= i <= a@.len(),
            a@.len() == b@.len(),
            forall|j: int| 0 <= j < i ==> #[trigger] variant_eq(a@[j], b@[j]),
        decreases a@.len() - i,
    {
        if !variant_equal(&a[i], &b[i]) {
            return false;
        }
        i += 1;
    }
    true
}

/// Decides structural equality of two definitions.
pub fn def_equal(a: &TypeDef, b: &TypeDef) -> (r: bool)
    ensures
        r == def_eq(*a, *b),
{
    match (a, b) {
        (
            TypeDef::Record { overrides: o1, fields: f1, .. },
            TypeDef::Record { overrides: o2, fields: f2, .. },
        ) => attrs_equal(o1, o2) && fields_equal(f1, f2),
        (
            TypeDef::Enum { overrides: o1, variants: v1, .. },
            TypeDef::Enum { overrides: o2, variants: v2, .. },
        ) => attrs_equal(o1, o2) && variants_equal(v1, v2),
        _ => false,
    }
}

} // verus!
