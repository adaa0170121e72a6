//! The schema tree builder: maps a type shape to a schema node,
//! threading the set of names already emitted in the current document so
//! that self- and mutually-referential type graphs terminate in named
//! back-references.

use vstd::prelude::*;
use vstd::set_lib::{lemma_int_range, lemma_len_subset, set_int_range};
use crate::attributes::{clone_str_vec, DefaultValue, SchemaError};
use crate::names::{check_name, full_name_spec, resolve, resolved_name, valid_name};
use crate::schema::{
    check_default, default_fits, default_fits_branch, fields_def_keys, node_def_keys,
    union_def_keys, RecordField, SchemaNode,
};
use crate::shape::{
    def_attrs, def_eq, def_equal, def_key, default_eq, opt_default_eq, opt_str_eq, ContainerKind,
    FieldSpec, PrimitiveKind,
    TypeDef, TypeGraph, TypeShape, VariantSpec,
};

verus! {

/// One name already fully emitted in the current document, together
/// with the definition that claimed it.
pub struct SeenEntry {
    pub namespace: String,
    pub name: String,
    pub def_index: usize,
}

/// The `(namespace, name)` pairs already fully emitted in the current
/// document, in emission order.  One document gets one fresh set; it is
/// never shared between independent synthesis requests.
pub struct SeenSet {
    pub entries: Vec<SeenEntry>,
}

impl SeenSet {
    /// The empty seen set a fresh document starts from.
    pub fn new() -> (r: SeenSet)
        ensures
            r.entries@.len() == 0,
    {
        SeenSet { entries: Vec::new() }
    }
}

/// The keys a seen set holds, in emission order.
pub open spec fn seen_keys(s: SeenSet) -> Seq<(Seq<char>, Seq<char>)> {
    s.entries@.map_values(|e: SeenEntry| (e.namespace@, e.name@))
}

/// Whether a key was already emitted.
pub open spec fn seen_has(s: SeenSet, key: (Seq<char>, Seq<char>)) -> bool {
    seen_keys(s).contains(key)
}

/// Well-formedness of a seen set against a graph: every entry points at
/// a definition of the graph that resolves to the entry's key, and no
/// key occurs twice.
pub open spec fn wf_seen(g: TypeGraph, s: SeenSet) -> bool {
    &&& forall|k: int|
        0 <= k < s.entries@.len() ==> {
            let e = #[trigger] s.entries@[k];
            &&& e.def_index < g.defs@.len()
            &&& (e.namespace@, e.name@) == def_key(g.defs@[e.def_index as int])
        }
    &&& forall|k1: int, k2: int|
        0 <= k1 < k2 < s.entries@.len() ==> #[trigger] seen_keys(s)[k1] != #[trigger] seen_keys(
            s,
        )[k2]
}

/// The earlier set's entries stand unchanged at the front of the later
/// set: a build only ever appends to the document's seen set.
pub open spec fn seen_extends(s1: SeenSet, s2: SeenSet) -> bool {
    s1.entries@.is_prefix_of(s2.entries@)
}

/// The position of a key inside a seen set that holds it.
pub open spec fn seen_lookup(s: SeenSet, key: (Seq<char>, Seq<char>)) -> int {
    choose|k: int| 0 <= k < s.entries@.len() && seen_keys(s)[k] == key
}

proof fn lemma_extends_has(s1: SeenSet, s2: SeenSet, key: (Seq<char>, Seq<char>))
    requires
        seen_extends(s1, s2),
        seen_has(s1, key),
    ensures
        seen_has(s2, key),
{
    let i = choose|i: int| 0 <= i < seen_keys(s1).len() && seen_keys(s1)[i] == key;
    assert(s1.entries@[i] == s2.entries@.subrange(0, s1.entries@.len() as int)[i]);
    assert(seen_keys(s2)[i] == key);
}

proof fn lemma_extends_trans(a: SeenSet, b: SeenSet, c: SeenSet)
    requires
        seen_extends(a, b),
        seen_extends(b, c),
    ensures
        seen_extends(a, c),
{
    assert(a.entries@ =~= c.entries@.subrange(0, a.entries@.len() as int));
}

/// The definitions of the graph whose key the seen set does not hold
/// yet: the measure by which a build terminates.
pub open spec fn unseen_set(g: TypeGraph, s: SeenSet) -> Set<int> {
    Set::new(|j: int| 0 <= j < g.defs@.len() && !seen_has(s, def_key(g.defs@[j])))
}

/// The number of definitions not yet emitted.
pub open spec fn unseen_count(g: TypeGraph, s: SeenSet) -> int {
    unseen_set(g, s).len() as int
}

proof fn lemma_unseen_finite(g: TypeGraph, s: SeenSet)
    ensures
        unseen_set(g, s).finite(),
        unseen_set(g, s).len() <= g.defs@.len(),
{
    lemma_int_range(0, g.defs@.len() as int);
    assert(unseen_set(g, s).subset_of(set_int_range(0, g.defs@.len() as int)));
    lemma_len_subset(unseen_set(g, s), set_int_range(0, g.defs@.len() as int));
}

proof fn lemma_unseen_monotone(g: TypeGraph, s1: SeenSet, s2: SeenSet)
    requires
        seen_extends(s1, s2),
    ensures
        unseen_count(g, s2) <= unseen_count(g, s1),
{
    lemma_unseen_finite(g, s1);
    assert forall|j: int| unseen_set(g, s2).contains(j) implies unseen_set(g, s1).contains(
        j,
    ) by {
        if seen_has(s1, def_key(g.defs@[j])) {
            lemma_extends_has(s1, s2, def_key(g.defs@[j]));
        }
    }
    lemma_len_subset(unseen_set(g, s2), unseen_set(g, s1));
}

proof fn lemma_unseen_strict(g: TypeGraph, s1: SeenSet, s2: SeenSet, j: int)
    requires
        seen_extends(s1, s2),
        0 <= j < g.defs@.len(),
        !seen_has(s1, def_key(g.defs@[j])),
        seen_has(s2, def_key(g.defs@[j])),
    ensures
        unseen_count(g, s2) < unseen_count(g, s1),
{
    lemma_unseen_finite(g, s1);
    let u1 = unseen_set(g, s1);
    assert(u1.contains(j));
    assert forall|k: int| unseen_set(g, s2).contains(k) implies u1.remove(j).contains(k) by {
        if seen_has(s1, def_key(g.defs@[k])) {
            lemma_extends_has(s1, s2, def_key(g.defs@[k]));
        }
    }
    lemma_len_subset(unseen_set(g, s2), u1.remove(j));
}

/// The structural height of a shape: containers recurse into their
/// element, primitives and references are leaves.
pub open spec fn shape_size(s: TypeShape) -> nat
    decreases s,
{
    match s {
        TypeShape::Container { element, .. } => 1 + shape_size(*element),
        _ => 1,
    }
}

/// The summed heights of a definition's field types.
pub open spec fn fields_size(fs: Seq<FieldSpec>) -> nat
    decreases fs.len(),
{
    if fs.len() == 0 {
        0
    } else {
        fields_size(fs.drop_last()) + shape_size(fs.last().declared_type)
    }
}

/// A bound above every field type of a definition, the second
/// component of the builder's termination measure.
pub open spec fn def_size(d: TypeDef) -> nat {
    match d {
        TypeDef::Record { fields, .. } => 1 + fields_size(fields@),
        TypeDef::Enum { .. } => 1,
    }
}

proof fn lemma_field_size_le(fs: Seq<FieldSpec>, k: int)
    requires
        0 <= k < fs.len(),
    ensures
        shape_size(fs[k].declared_type) <= fields_size(fs),
    decreases fs.len(),
{
    if k < fs.len() - 1 {
        lemma_field_size_le(fs.drop_last(), k);
        assert(fs.drop_last()[k] == fs[k]);
    }
}

/// The name a field is emitted under: its `rename` override when
/// present, else its source name.
pub open spec fn field_display_name(f: FieldSpec) -> Seq<char> {
    match f.overrides.rename {
        Some(s) => s@,
        None => f.source_name@,
    }
}

/// The fields a record emits: the declared fields with every field
/// marked `skip` left out, their order preserved.
pub open spec fn emitted_fields(fs: Seq<FieldSpec>) -> Seq<FieldSpec>
    decreases fs.len(),
{
    if fs.len() == 0 {
        Seq::empty()
    } else if fs.last().overrides.skip {
        emitted_fields(fs.drop_last())
    } else {
        emitted_fields(fs.drop_last()).push(fs.last())
    }
}

/// The symbol a variant is emitted as: its `rename` override when
/// present, else its source name.
pub open spec fn variant_display_name(v: VariantSpec) -> Seq<char> {
    match v.overrides.rename {
        Some(s) => s@,
        None => v.source_name@,
    }
}

/// The symbols an enum emits, in declared order.
pub open spec fn emitted_symbols(vs: Seq<VariantSpec>) -> Seq<Seq<char>>
    decreases vs.len(),
{
    if vs.len() == 0 {
        Seq::empty()
    } else {
        emitted_symbols(vs.drop_last()).push(variant_display_name(vs.last()))
    }
}

/// An error a failed build reports is witnessed: its defect stands in
/// the graph, or it is a dangling reference of the shape itself.
proof fn lemma_err_post_to_graph(g: TypeGraph, s: TypeShape, s0: SeenSet, e: SchemaError)
    requires
        wf_seen(g, s0),
        build_err_post(g, s, s0, e),
    ensures
        graph_err(g, e) || (e matches SchemaError::UnsupportedType { index } && shape_dangles(
            g,
            s,
            index,
        )),
    decreases s,
{
    match s {
        TypeShape::Container { element, .. } => {
            lemma_err_post_to_graph(g, *element, s0, e);
        },
        TypeShape::Named(i) => {
            if 0 <= i < g.defs@.len() {
                let key = def_key(g.defs@[i as int]);
                if valid_name(key.1) && seen_has(s0, key) {
                    let k = seen_lookup(s0, key);
                    assert(seen_keys(s0)[k] == key);
                    let j = s0.entries@[k].def_index as int;
                    assert((s0.entries@[k].namespace@, s0.entries@[k].name@) == def_key(
                        g.defs@[j],
                    ));
                    assert(def_key(g.defs@[j]) == key);
                    assert(graph_err(g, e));
                }
            }
        },
        TypeShape::Primitive(_) => {},
    }
}

/// With the fresh seen set of a new document, a failed build reports
/// what the root error rules say.
proof fn lemma_root_err(g: TypeGraph, s: TypeShape, s0: SeenSet, e: SchemaError)
    requires
        s0.entries@.len() == 0,
        build_err_post(g, s, s0, e),
    ensures
        root_err_post(g, s, e),
    decreases s,
{
    match s {
        TypeShape::Container { element, .. } => {
            lemma_root_err(g, *element, s0, e);
        },
        TypeShape::Named(i) => {
            assert(seen_keys(s0).len() == 0);
        },
        TypeShape::Primitive(_) => {},
    }
}

/// The declared fields of a definition.
pub open spec fn def_fields(d: TypeDef) -> Seq<FieldSpec> {
    match d {
        TypeDef::Record { fields, .. } => fields@,
        TypeDef::Enum { .. } => Seq::empty(),
    }
}

/// The declared variants of a definition.
pub open spec fn def_variants(d: TypeDef) -> Seq<VariantSpec> {
    match d {
        TypeDef::Enum { variants, .. } => variants@,
        TypeDef::Record { .. } => Seq::empty(),
    }
}

/// A reference with the given index stands in the shape and points at
/// no definition of the graph.
pub open spec fn shape_dangles(g: TypeGraph, s: TypeShape, index: usize) -> bool
    decreases s,
{
    match s {
        TypeShape::Named(j) => j == index && j >= g.defs@.len(),
        TypeShape::Container { element, .. } => shape_dangles(g, *element, index),
        TypeShape::Primitive(_) => false,
    }
}

/// Every reference in the shape points into the graph.
pub open spec fn shape_clean(g: TypeGraph, s: TypeShape) -> bool
    decreases s,
{
    match s {
        TypeShape::Named(j) => j < g.defs@.len(),
        TypeShape::Container { element, .. } => shape_clean(g, *element),
        TypeShape::Primitive(_) => true,
    }
}

/// Nothing about this declared field can fail a build: it is skipped,
/// or its display name is valid, its references point into the graph,
/// and its default, if any, fits its declared type.
pub open spec fn field_spec_clean(g: TypeGraph, f: FieldSpec) -> bool {
    f.overrides.skip || {
        &&& valid_name(field_display_name(f))
        &&& shape_clean(g, f.declared_type)
        &&& match f.overrides.default {
            Some(v) => default_fits_shape(g, f.declared_type, v),
            None => true,
        }
    }
}

/// Nothing local to this definition can fail a build.
pub open spec fn def_clean(g: TypeGraph, d: TypeDef) -> bool {
    &&& valid_name(def_key(d).1)
    &&& forall|k: int|
        0 <= k < def_fields(d).len() ==> field_spec_clean(g, #[trigger] def_fields(d)[k])
    &&& forall|k: int|
        0 <= k < def_variants(d).len() ==> valid_name(
            variant_display_name(#[trigger] def_variants(d)[k]),
        )
}

/// No definition of the graph can fail a build: each is locally clean,
/// and any two that share a key are structurally equal.
pub open spec fn graph_clean(g: TypeGraph) -> bool {
    &&& forall|j: int| 0 <= j < g.defs@.len() ==> def_clean(g, #[trigger] g.defs@[j])
    &&& forall|i1: int, i2: int|
        0 <= i1 < g.defs@.len() && 0 <= i2 < g.defs@.len() && i1 != i2 && def_key(
            #[trigger] g.defs@[i1],
        ) == def_key(#[trigger] g.defs@[i2]) ==> def_eq(g.defs@[i1], g.defs@[i2])
}

/// The defect an error names actually stands in the graph: a dangling
/// reference in some definition's field, an invalid resolved type,
/// field or symbol name equal to the one reported, two structurally
/// different definitions sharing the reported key, or a field of the
/// reported name whose default does not fit its declared type.
pub open spec fn graph_err(g: TypeGraph, e: SchemaError) -> bool {
    match e {
        SchemaError::UnsupportedType { index } => exists|j: int, k: int|
            #![trigger def_fields(g.defs@[j])[k]]
            0 <= j < g.defs@.len() && 0 <= k < def_fields(g.defs@[j]).len() && shape_dangles(
                g,
                def_fields(g.defs@[j])[k].declared_type,
                index,
            ),
        SchemaError::Naming { name } => !valid_name(name@) && {
            ||| exists|j: int| 0 <= j < g.defs@.len() && def_key(#[trigger] g.defs@[j]).1 == name@
            ||| exists|j: int, k: int|
                #![trigger def_fields(g.defs@[j])[k]]
                0 <= j < g.defs@.len() && 0 <= k < def_fields(g.defs@[j]).len() && !(def_fields(
                    g.defs@[j],
                )[k].overrides.skip) && field_display_name(def_fields(g.defs@[j])[k]) == name@
            ||| exists|j: int, k: int|
                #![trigger def_variants(g.defs@[j])[k]]
                0 <= j < g.defs@.len() && 0 <= k < def_variants(g.defs@[j]).len()
                    && variant_display_name(def_variants(g.defs@[j])[k]) == name@
        },
        SchemaError::DuplicateName { namespace, name } => exists|i1: int, i2: int|
            #![trigger g.defs@[i1], g.defs@[i2]]
            0 <= i1 < g.defs@.len() && 0 <= i2 < g.defs@.len() && i1 != i2 && def_key(g.defs@[i1])
                == (namespace@, name@) && def_key(g.defs@[i2]) == (namespace@, name@) && !def_eq(
                g.defs@[i1],
                g.defs@[i2],
            ),
        SchemaError::InvalidDefault { field } => exists|j: int, k: int|
            #![trigger def_fields(g.defs@[j])[k]]
            0 <= j < g.defs@.len() && 0 <= k < def_fields(g.defs@[j]).len() && !(def_fields(
                g.defs@[j],
            )[k].overrides.skip) && def_fields(g.defs@[j])[k].source_name@ == field@ && (def_fields(
                g.defs@[j],
            )[k].overrides.default matches Some(v) && !default_fits_shape(
                g,
                def_fields(g.defs@[j])[k].declared_type,
                v,
            )),
        SchemaError::UnknownAttribute { .. } => false,
    }
}

/// The qualified names of a key sequence, as a set.
pub open spec fn names_of(keys: Seq<(Seq<char>, Seq<char>)>) -> Set<Seq<char>> {
    keys.map_values(|k: (Seq<char>, Seq<char>)| full_name_spec(k.0, k.1)).to_set()
}

/// Every named reference in the node names a definition available to
/// it: one of `avail`, or one emitted earlier in the same node — for a
/// field, the enclosing record and the definitions of the fields
/// before it included.
pub open spec fn refs_ok(n: SchemaNode, avail: Set<Seq<char>>) -> bool
    decreases n,
{
    match n {
        SchemaNode::NamedReference(q) => avail.contains(q@),
        SchemaNode::Array(e) => refs_ok(*e, avail),
        SchemaNode::Mapping(e) => refs_ok(*e, avail),
        SchemaNode::Union(items) => union_refs_ok(items@, avail),
        SchemaNode::Record { name, namespace, fields, .. } => fields_refs_ok(
            fields@,
            avail.insert(full_name_spec(namespace@, name@)),
        ),
        _ => true,
    }
}

/// References of a union's branches, each branch seeing what the
/// branches before it defined.
pub open spec fn union_refs_ok(items: Seq<SchemaNode>, avail: Set<Seq<char>>) -> bool
    decreases items,
{
    if items.len() == 0 {
        true
    } else {
        &&& union_refs_ok(items.drop_last(), avail)
        &&& refs_ok(items.last(), avail.union(names_of(union_def_keys(items.drop_last()))))
    }
}

/// References of a record's field schemas, each field seeing what the
/// fields before it defined.
pub open spec fn fields_refs_ok(fields: Seq<RecordField>, avail: Set<Seq<char>>) -> bool
    decreases fields,
{
    if fields.len() == 0 {
        true
    } else {
        &&& fields_refs_ok(fields.drop_last(), avail)
        &&& refs_ok(
            fields.last().schema,
            avail.union(names_of(fields_def_keys(fields.drop_last()))),
        )
    }
}

proof fn lemma_names_of_concat(a: Seq<(Seq<char>, Seq<char>)>, b: Seq<(Seq<char>, Seq<char>)>)
    ensures
        names_of(a + b) == names_of(a).union(names_of(b)),
{
    let f = |k: (Seq<char>, Seq<char>)| full_name_spec(k.0, k.1);
    assert((a + b).map_values(f) =~= a.map_values(f) + b.map_values(f));
    assert forall|x: Seq<char>| #[trigger] names_of(a + b).contains(x) implies names_of(a).union(
        names_of(b),
    ).contains(x) by {
        let i = choose|i: int| 0 <= i < (a + b).map_values(f).len() && (a + b).map_values(f)[i]
            == x;
        if i < a.len() {
            assert(a.map_values(f)[i] == x);
        } else {
            assert(b.map_values(f)[i - a.len()] == x);
        }
    }
    assert forall|x: Seq<char>| names_of(a).union(names_of(b)).contains(x) implies #[trigger]
        names_of(a + b).contains(x) by {
        if names_of(a).contains(x) {
            let i = choose|i: int| 0 <= i < a.map_values(f).len() && a.map_values(f)[i] == x;
            assert((a + b).map_values(f)[i] == x);
        } else {
            let i = choose|i: int| 0 <= i < b.map_values(f).len() && b.map_values(f)[i] == x;
            assert((a + b).map_values(f)[i + a.len()] == x);
        }
    }
    assert(names_of(a + b) =~= names_of(a).union(names_of(b)));
}

/// The schema node a primitive kind maps to, one to one.
pub open spec fn prim_node(k: PrimitiveKind) -> SchemaNode {
    match k {
        PrimitiveKind::Null => SchemaNode::Null,
        PrimitiveKind::Boolean => SchemaNode::Boolean,
        PrimitiveKind::Int32 => SchemaNode::Int,
        PrimitiveKind::Int64 => SchemaNode::Long,
        PrimitiveKind::Float32 => SchemaNode::Float,
        PrimitiveKind::Float64 => SchemaNode::Double,
        PrimitiveKind::Bytes => SchemaNode::Bytes,
        PrimitiveKind::Str => SchemaNode::Str,
    }
}

/// No branch of the union is itself a union: Avro disallows nesting
/// them, so the builder flattens instead.
pub open spec fn union_flat(items: Seq<SchemaNode>) -> bool {
    forall|i: int| 0 <= i < items.len() ==> !((#[trigger] items[i]) matches SchemaNode::Union(_))
}

/// A union whose first branch is null: the form an optional element
/// takes, null being the union's default branch.
pub open spec fn nullable_union(n: SchemaNode) -> bool {
    n matches SchemaNode::Union(items) && items@.len() >= 1 && items@[0] == SchemaNode::Null
}

/// Whether a default literal fits a field of the given declared type:
/// the literal must fit the schema the type maps to — for an optional
/// that is the union's first branch, null; for a reference, the named
/// definition (only an enum takes a text default).
pub open spec fn default_fits_shape(g: TypeGraph, s: TypeShape, v: DefaultValue) -> bool {
    match s {
        TypeShape::Primitive(k) => default_fits_branch(prim_node(k), v),
        TypeShape::Container { kind, .. } => kind == ContainerKind::Optional
            && v is Null,
        TypeShape::Named(i) => 0 <= i < g.defs@.len() && (g.defs@[i as int] matches TypeDef::Enum {
            ..
        }) && v is Text,
    }
}

/// The node built for a shape, pinned recursively: a primitive maps to
/// its exact node; an array or map wraps exactly its element's node;
/// an optional is a union whose branches [`union_items_match`] pins
/// exactly; a reference is either the named back-reference carrying
/// its definition's qualified name, or that definition in full.
pub open spec fn node_matches_shape(g: TypeGraph, s: TypeShape, n: SchemaNode) -> bool
    decreases n, shape_size(s),
{
    match s {
        TypeShape::Primitive(k) => n == prim_node(k),
        TypeShape::Container { kind, element } => match kind {
            ContainerKind::Array => n matches SchemaNode::Array(e) && node_matches_shape(
                g,
                *element,
                *e,
            ),
            ContainerKind::Mapping => n matches SchemaNode::Mapping(e) && node_matches_shape(
                g,
                *element,
                *e,
            ),
            ContainerKind::Optional => n matches SchemaNode::Union(items) && union_items_match(
                g,
                *element,
                items@,
            ),
        },
        TypeShape::Named(i) => 0 <= i < g.defs@.len() && {
            let key = def_key(g.defs@[i as int]);
            ||| (n matches SchemaNode::NamedReference(q) && q@ == full_name_spec(key.0, key.1))
            ||| def_node_matches(g, g.defs@[i as int], n)
        },
    }
}

/// The branches of the union an optional element builds: null first,
/// then, for an element that is not itself optional, exactly the
/// element's node and nothing else; an optional element contributes
/// its own branches unchanged, so unions never nest.
pub open spec fn union_items_match(g: TypeGraph, element: TypeShape, items: Seq<SchemaNode>) -> bool
    decreases items, shape_size(element),
{
    &&& items.len() >= 1
    &&& items[0] == SchemaNode::Null
    &&& match element {
        TypeShape::Container { kind: ContainerKind::Optional, element: inner } => union_items_match(
            g,
            *inner,
            items,
        ),
        _ => items.len() == 2 && node_matches_shape(g, element, items[1]),
    }
}

/// One emitted field entry against the declared field it came from:
/// the resolved field name, valid in the Avro name grammar; the built
/// field schema, pinned recursively against the declared type; the
/// `doc`, `default` and `aliases` overrides carried over; and a stored
/// default that fits the declared type.
pub open spec fn field_out_ok(g: TypeGraph, rf: RecordField, f: FieldSpec) -> bool
    decreases rf, 0nat,
{
    &&& rf.name@ == field_display_name(f)
    &&& valid_name(rf.name@)
    &&& node_matches_shape(g, f.declared_type, rf.schema)
    &&& opt_str_eq(rf.doc, f.overrides.doc)
    &&& opt_default_eq(rf.default, f.overrides.default)
    &&& rf.aliases.deep_view() == f.overrides.aliases.deep_view()
    &&& match rf.default {
        Some(v) => default_fits_shape(g, f.declared_type, v),
        None => true,
    }
}

/// The emitted field entries are exactly the non-skipped declared
/// fields, in declared order, each carried over as [`field_out_ok`]
/// says.
pub open spec fn record_fields_ok(g: TypeGraph, out: Seq<RecordField>, fs: Seq<FieldSpec>) -> bool
    decreases out, 0nat,
{
    &&& out.len() == emitted_fields(fs).len()
    &&& forall|k: int|
        0 <= k < out.len() ==> field_out_ok(g, #[trigger] out[k], emitted_fields(fs)[k])
}

/// A freshly inlined definition's node: the resolved names, the
/// type-level `doc` and `aliases` overrides, the field entries pinned
/// recursively, and every enum symbol in the Avro name grammar.
pub open spec fn def_node_matches(g: TypeGraph, d: TypeDef, node: SchemaNode) -> bool
    decreases node, 0nat,
{
    match d {
        TypeDef::Record { fields, .. } => node matches SchemaNode::Record {
            name,
            namespace,
            doc,
            aliases,
            fields: out,
        } && namespace@ == def_key(d).0 && name@ == def_key(d).1 && valid_name(name@) && opt_str_eq(
            doc,
            def_attrs(d).doc,
        ) && aliases.deep_view() == def_attrs(d).aliases.deep_view() && record_fields_ok(
            g,
            out@,
            fields@,
        ),
        TypeDef::Enum { variants, .. } => node matches SchemaNode::Enum {
            name,
            namespace,
            doc,
            aliases,
            symbols,
        } && namespace@ == def_key(d).0 && name@ == def_key(d).1 && valid_name(name@) && opt_str_eq(
            doc,
            def_attrs(d).doc,
        ) && aliases.deep_view() == def_attrs(d).aliases.deep_view() && symbols.deep_view()
            == emitted_symbols(variants@) && (forall|k: int|
            0 <= k < symbols.deep_view().len() ==> valid_name(#[trigger] symbols.deep_view()[k])),
    }
}

/// What a successful build of a reference to definition `i` yields,
/// judged against the seen set `s0` the build started from: a bare
/// named reference when the key was already emitted by the same or a
/// structurally equal definition, else the full definition node.
pub open spec fn named_ok_post(g: TypeGraph, i: int, s0: SeenSet, node: SchemaNode) -> bool {
    let key = def_key(g.defs@[i]);
    &&& 0 <= i < g.defs@.len()
    &&& valid_name(key.1)
    &&& if seen_has(s0, key) {
        let k = seen_lookup(s0, key);
        &&& node matches SchemaNode::NamedReference(q) && q@ == full_name_spec(key.0, key.1)
        &&& (s0.entries@[k].def_index == i || def_eq(
            g.defs@[s0.entries@[k].def_index as int],
            g.defs@[i],
        ))
    } else {
        def_node_matches(g, g.defs@[i], node)
    }
}

/// What a successful build guarantees: the seen set grows by exactly
/// the keys the node defines, in emission order, and the node's form
/// follows its shape.
pub open spec fn build_ok_post(
    g: TypeGraph,
    shape: TypeShape,
    s0: SeenSet,
    s1: SeenSet,
    node: SchemaNode,
) -> bool {
    &&& seen_keys(s1) == seen_keys(s0) + node_def_keys(node)
    &&& node_matches_shape(g, shape, node)
    &&& refs_ok(node, names_of(seen_keys(s0)))
    &&& (shape matches TypeShape::Named(i) ==> named_ok_post(g, i as int, s0, node))
    &&& (node matches SchemaNode::Union(items) ==> union_flat(items@))
}

/// What a failed build guarantees about the reported error.  A
/// primitive never fails; a container fails exactly as its element
/// does; a reference fails exactly as the dangling-index, naming and
/// duplicate-name rules say, or carries out of the definition an error
/// whose defect [`graph_err`] shows to stand in the graph.
pub open spec fn build_err_post(g: TypeGraph, shape: TypeShape, s0: SeenSet, e: SchemaError) -> bool
    decreases shape,
{
    match shape {
        TypeShape::Primitive(_) => false,
        TypeShape::Container { element, .. } => build_err_post(g, *element, s0, e),
        TypeShape::Named(i) => named_err_post(g, i as int, s0, e),
    }
}

/// The error rules of a reference to definition `i`: a dangling index
/// is unsupported; an invalid resolved name is a naming error carrying
/// that name; a key already emitted by a structurally different
/// definition is a duplicate-name error carrying the key; any error
/// carried out of the definition itself names a defect that
/// [`graph_err`] shows to stand in the graph.
pub open spec fn named_err_post(g: TypeGraph, i: int, s0: SeenSet, e: SchemaError) -> bool {
    if !(0 <= i < g.defs@.len()) {
        e matches SchemaError::UnsupportedType { index } && index == i
    } else {
        let key = def_key(g.defs@[i]);
        if !valid_name(key.1) {
            e matches SchemaError::Naming { name } && name@ == key.1
        } else if seen_has(s0, key) {
            let k = seen_lookup(s0, key);
            &&& e matches SchemaError::DuplicateName { namespace, name } && namespace@ == key.0
                && name@ == key.1
            &&& s0.entries@[k].def_index != i
            &&& !def_eq(g.defs@[s0.entries@[k].def_index as int], g.defs@[i])
        } else {
            graph_err(g, e)
        }
    }
}

fn primitive_node(k: PrimitiveKind) -> (n: SchemaNode)
    ensures
        n == prim_node(k),
{
    match k {
        PrimitiveKind::Null => SchemaNode::Null,
        PrimitiveKind::Boolean => SchemaNode::Boolean,
        PrimitiveKind::Int32 => SchemaNode::Int,
        PrimitiveKind::Int64 => SchemaNode::Long,
        PrimitiveKind::Float32 => SchemaNode::Float,
        PrimitiveKind::Float64 => SchemaNode::Double,
        PrimitiveKind::Bytes => SchemaNode::Bytes,
        PrimitiveKind::Str => SchemaNode::Str,
    }
}

/// Wraps an element node as an optional: a union with null first.  An
/// element that is itself optional already built a null-first union,
/// which is reused unchanged, so unions never nest.
fn make_optional(
    inner: SchemaNode,
    Ghost(g): Ghost<TypeGraph>,
    Ghost(element): Ghost<TypeShape>,
    Ghost(avail): Ghost<Set<Seq<char>>>,
) -> (n: SchemaNode)
    requires
        node_matches_shape(g, element, inner),
        inner matches SchemaNode::Union(its) ==> union_flat(its@),
        refs_ok(inner, avail),
    ensures
        n matches SchemaNode::Union(items) && union_items_match(g, element, items@),
        n matches SchemaNode::Union(items) ==> union_flat(items@),
        nullable_union(n),
        node_def_keys(n) == node_def_keys(inner),
        refs_ok(n, avail),
{
    match inner {
        SchemaNode::Union(items) => {
            proof {
                reveal_with_fuel(node_matches_shape, 2);
                reveal_with_fuel(def_node_matches, 2);
                reveal_with_fuel(union_items_match, 2);
                // only an optional element builds to a union, and its
                // branches already lead with null
                match element {
                    TypeShape::Container { kind, .. } => {
                        if kind != ContainerKind::Optional {
                            assert(false);
                        }
                    },
                    TypeShape::Primitive(_) => {
                        assert(false);
                    },
                    TypeShape::Named(_) => {
                        assert(false);
                    },
                }
                assert(union_items_match(g, element, items@));
            }
            SchemaNode::Union(items)
        },
        _ => {
            let ghost inner_spec = inner;
            let mut items: Vec<SchemaNode> = Vec::new();
            items.push(SchemaNode::Null);
            items.push(inner);
            proof {
                reveal_with_fuel(union_def_keys, 3);
                reveal_with_fuel(node_def_keys, 3);
                assert(items@.drop_last() =~= seq![SchemaNode::Null]);
                assert(seq![SchemaNode::Null].drop_last() =~= Seq::<SchemaNode>::empty());
                assert(union_def_keys(Seq::<SchemaNode>::empty()) =~= Seq::<
                    (Seq<char>, Seq<char>),
                >::empty());
                assert(union_def_keys(seq![SchemaNode::Null]) =~= Seq::<
                    (Seq<char>, Seq<char>),
                >::empty());
                assert(union_def_keys(items@) == union_def_keys(items@.drop_last())
                    + node_def_keys(items@.last()));
                assert(union_def_keys(items@) =~= node_def_keys(inner_spec));
                match element {
                    TypeShape::Container { kind, .. } => {
                        if kind == ContainerKind::Optional {
                            assert(false);
                        }
                    },
                    _ => {},
                }
                assert(items@[0] == SchemaNode::Null);
                assert(items@[1] == inner_spec);
                assert(union_items_match(g, element, items@));
                reveal_with_fuel(union_refs_ok, 3);
                assert(union_refs_ok(items@.drop_last(), avail));
                assert(names_of(union_def_keys(items@.drop_last())) =~= Set::<Seq<char>>::empty());
                assert(avail.union(names_of(union_def_keys(items@.drop_last()))) =~= avail);
                assert(union_refs_ok(items@, avail));
            }
            SchemaNode::Union(items)
        },
    }
}

/// Decides whether a default literal fits a field of the given
/// declared type.
fn check_default_shape(graph: &TypeGraph, s: &TypeShape, v: &DefaultValue) -> (r: bool)
    ensures
        r == default_fits_shape(*graph, *s, *v),
{
    match s {
        TypeShape::Primitive(k) => {
            let node = primitive_node(*k);
            let r = check_default(&node, v);
            proof {
                assert(default_fits(node, *v) == default_fits_branch(node, *v));
            }
            r
        },
        TypeShape::Container { kind, .. } => match kind {
            ContainerKind::Optional => matches!(v, DefaultValue::Null),
            _ => false,
        },
        TypeShape::Named(i) => {
            if *i >= graph.defs.len() {
                return false;
            }
            let is_enum = matches!(&graph.defs[*i], TypeDef::Enum { .. });
            is_enum && matches!(v, DefaultValue::Text(_))
        },
    }
}

fn seen_find(seen: &SeenSet, ns: &String, nm: &String) -> (r: Option<usize>)
    ensures
        match r {
            Some(j) => exists|k: int|
                0 <= k < seen.entries@.len() && #[trigger] seen_keys(*seen)[k] == (ns@, nm@)
                    && seen.entries@[k].def_index == j,
            None => !seen_has(*seen, (ns@, nm@)),
        },
{
    let mut k: usize = 0;
    while k < seen.entries.len()
        invariant
            0 <= k <= seen.entries@.len(),
            forall|t: int| 0 <= t < k ==> #[trigger] seen_keys(*seen)[t] != (ns@, nm@),
        decreases seen.entries@.len() - k,
    {
        let e = &seen.entries[k];
        if e.namespace == *ns && e.name == *nm {
            assert(seen_keys(*seen)[k as int] == (ns@, nm@));
            return Some(e.def_index);
        }
        k += 1;
    }
    None
}

fn clone_opt_str(o: &Option<String>) -> (r: Option<String>)
    ensures
        opt_str_eq(r, *o),
{
    match o {
        Some(s) => Some(s.clone()),
        None => None,
    }
}

fn clone_opt_default(o: &Option<DefaultValue>) -> (r: Option<
    DefaultValue,
>)
    ensures
        opt_default_eq(r, *o),
{
    match o {
        None => None,
        Some(DefaultValue::Null) => Some(DefaultValue::Null),
        Some(DefaultValue::Boolean(b)) => Some(
            DefaultValue::Boolean(*b),
        ),
        Some(DefaultValue::Integer(x)) => Some(
            DefaultValue::Integer(*x),
        ),
        Some(DefaultValue::Text(s)) => Some(
            DefaultValue::Text(s.clone()),
        ),
    }
}

proof fn lemma_default_fits_eq(g: TypeGraph, s: TypeShape, a: DefaultValue, b: DefaultValue)
    requires
        default_eq(a, b),
        default_fits_shape(g, s, a),
    ensures
        default_fits_shape(g, s, b),
{
}

/// Builds the schema node of one shape against the document's seen
/// set, returning the node (or the first error) together with the seen
/// set as the build left it.
pub fn build_shape(graph: &TypeGraph, shape: &TypeShape, seen: SeenSet) -> (r: (
    Result<SchemaNode, SchemaError>,
    SeenSet,
))
    requires
        wf_seen(*graph, seen),
    ensures
        wf_seen(*graph, r.1),
        seen_extends(seen, r.1),
        match r.0 {
            Ok(node) => build_ok_post(*graph, *shape, seen, r.1, node),
            Err(e) => build_err_post(*graph, *shape, seen, e),
        },
        graph_clean(*graph) && shape_clean(*graph, *shape) ==> r.0 is Ok,
    decreases unseen_count(*graph, seen), shape_size(*shape),
{
    let ghost avail0 = names_of(seen_keys(seen));
    match shape {
        TypeShape::Primitive(k) => {
            let node = primitive_node(*k);
            proof {
                assert(seen_keys(seen) + node_def_keys(node) =~= seen_keys(seen));
            }
            (Ok(node), seen)
        },
        TypeShape::Container { kind, element } => {
            let (er, seen1) = build_shape(graph, element, seen);
            match er {
                Err(e) => (Err(e), seen1),
                Ok(inner) => {
                    let node = match kind {
                        ContainerKind::Array => SchemaNode::Array(Box::new(inner)),
                        ContainerKind::Mapping => SchemaNode::Mapping(Box::new(inner)),
                        ContainerKind::Optional => make_optional(
                            inner,
                            Ghost(*graph),
                            Ghost(**element),
                            Ghost(avail0),
                        ),
                    };
                    (Ok(node), seen1)
                },
            }
        },
        TypeShape::Named(index) => {
            let i = *index;
            if i >= graph.defs.len() {
                return (Err(SchemaError::UnsupportedType { index: i }), seen);
            }
            let d = &graph.defs[i];
            let rn_result = match d {
                TypeDef::Record { declared_path, overrides, .. } => resolve(
                    declared_path,
                    overrides,
                ),
                TypeDef::Enum { declared_path, overrides, .. } => resolve(
                    declared_path,
                    overrides,
                ),
            };
            let rn = match rn_result {
                Err(e) => {
                    return (Err(e), seen);
                },
                Ok(rn) => rn,
            };
            let ghost key = def_key(graph.defs@[i as int]);
            assert(rn.namespace@ == key.0 && rn.name@ == key.1);
            match seen_find(&seen, &rn.namespace, &rn.name) {
                Some(j) => {
                    let ghost k0 = choose|k: int|
                        0 <= k < seen.entries@.len() && seen_keys(seen)[k] == (
                        rn.namespace@,
                        rn.name@,
                        ) && seen.entries@[k].def_index == j;
                    proof {
                        assert(seen_has(seen, key));
                        let kc = seen_lookup(seen, key);
                        assert(seen_keys(seen)[kc] == key);
                        assert(kc == k0);
                        assert(seen.entries@[k0].def_index < graph.defs@.len());
                    }
                    let same = j == i || def_equal(&graph.defs[j], d);
                    if same {
                        let q = rn.full_name();
                        let node = SchemaNode::NamedReference(q);
                        proof {
                            assert(seen_keys(seen) + node_def_keys(node) =~= seen_keys(seen));
                            let fname = full_name_spec(key.0, key.1);
                            assert(seen_keys(seen).map_values(
                                |p: (Seq<char>, Seq<char>)| full_name_spec(p.0, p.1),
                            )[k0] == fname);
                            assert(avail0.contains(fname));
                        }
                        (Ok(node), seen)
                    } else {
                        (
                            Err(
                                SchemaError::DuplicateName {
                                    namespace: rn.namespace,
                                    name: rn.name,
                                },
                            ),
                            seen,
                        )
                    }
                },
                None => {
                    let ghost s0 = seen;
                    let mut seen1 = seen;
                    seen1.entries.push(
                        SeenEntry { namespace: rn.namespace, name: rn.name, def_index: i },
                    );
                    proof {
                        assert(s0.entries@ =~= seen1.entries@.subrange(
                            0,
                            s0.entries@.len() as int,
                        ));
                        assert(seen_keys(seen1) =~= seen_keys(s0).push(key));
                        assert(seen_keys(seen1)[s0.entries@.len() as int] == key);
                        assert(seen_has(seen1, key));
                        lemma_unseen_strict(*graph, s0, seen1, i as int);
                    }
                    let (r, seen2) = build_def(graph, i, seen1);
                    match r {
                        Ok(node) => {
                            proof {
                                lemma_extends_trans(s0, seen1, seen2);
                                assert(seen_keys(seen2) =~= seen_keys(s0) + node_def_keys(node));
                                let fname = full_name_spec(key.0, key.1);
                                assert(seen_keys(seen1) =~= seen_keys(s0) + seq![key]);
                                lemma_names_of_concat(seen_keys(s0), seq![key]);
                                assert(seq![key].map_values(
                                    |p: (Seq<char>, Seq<char>)| full_name_spec(p.0, p.1),
                                ) =~= seq![fname]);
                                assert forall|x: Seq<char>| #[trigger] names_of(
                                    seq![key],
                                ).contains(x) implies x == fname by {
                                    let t = choose|t: int| 0 <= t < seq![fname].len()
                                        && seq![fname][t] == x;
                                }
                                assert(seq![fname][0] == fname);
                                assert(names_of(seq![key]).contains(fname));
                                assert(names_of(seen_keys(seen1)) =~= avail0.insert(fname));
                                match &node {
                                    SchemaNode::Record { name, namespace, fields, .. } => {
                                        assert(full_name_spec(namespace@, name@) == fname);
                                        assert(fields_refs_ok(fields@, names_of(seen_keys(seen1))));
                                        assert(fields_refs_ok(fields@, avail0.insert(fname)));
                                        assert(refs_ok(node, avail0));
                                    },
                                    _ => {},
                                }
                            }
                            (Ok(node), seen2)
                        },
                        Err(e) => {
                            proof {
                                lemma_extends_trans(s0, seen1, seen2);
                            }
                            (Err(e), seen2)
                        },
                    }
                },
            }
        },
    }
}

/// Inlines the full definition `i`, whose key the caller has just
/// recorded in the seen set, recursing into its fields.
#[verifier::loop_isolation(false)]
fn build_def(graph: &TypeGraph, i: usize, seen: SeenSet) -> (r: (
    Result<SchemaNode, SchemaError>,
    SeenSet,
))
    requires
        i < graph.defs@.len(),
        wf_seen(*graph, seen),
    ensures
        wf_seen(*graph, r.1),
        seen_extends(seen, r.1),
        match r.0 {
            Ok(node) => {
                &&& def_node_matches(*graph, graph.defs@[i as int], node)
                &&& node_def_keys(node).len() >= 1
                &&& node_def_keys(node)[0] == def_key(graph.defs@[i as int])
                &&& seen_keys(r.1) == seen_keys(seen) + node_def_keys(node).drop_first()
                &&& !(node matches SchemaNode::Union(_))
                &&& (node matches SchemaNode::Record { fields: outf, .. } ==> fields_refs_ok(
                    outf@,
                    names_of(seen_keys(seen)),
                ))
            },
            Err(e) => graph_err(*graph, e),
        },
        graph_clean(*graph) ==> r.0 is Ok,
    decreases unseen_count(*graph, seen), def_size(graph.defs@[i as int]),
{
    let d = &graph.defs[i];
    match d {
        TypeDef::Record { declared_path, overrides, fields } => {
            let rn = match resolve(declared_path, overrides) {
                Err(e) => {
                    proof {
                        assert(def_key(graph.defs@[i as int]).1 == resolved_name(
                            declared_path.deep_view(),
                            *overrides,
                        ));
                    }
                    return (Err(e), seen);
                },
                Ok(rn) => rn,
            };
            let ghost s_in = seen;
            let ghost dd = graph.defs@[i as int];
            let mut out: Vec<RecordField> = Vec::new();
            let mut seen = seen;
            let mut k: usize = 0;
            proof {
                assert(s_in.entries@ =~= s_in.entries@.subrange(0, s_in.entries@.len() as int));
                assert(fields_def_keys(out@) =~= Seq::<(Seq<char>, Seq<char>)>::empty());
                assert(seen_keys(seen) =~= seen_keys(s_in) + fields_def_keys(out@));
                assert(fields@.take(0) =~= Seq::<FieldSpec>::empty());
                assert(emitted_fields(fields@.take(0)) =~= Seq::<FieldSpec>::empty());
                assert(fields_refs_ok(out@, names_of(seen_keys(s_in))));
            }
            while k < fields.len()
                invariant
                    0 <= k <= fields@.len(),
                    i < graph.defs@.len(),
                    graph.defs@[i as int] == dd,
                    dd matches TypeDef::Record { fields: dfs, .. } && dfs@ == fields@,
                    wf_seen(*graph, seen),
                    seen_extends(s_in, seen),
                    seen_keys(seen) == seen_keys(s_in) + fields_def_keys(out@),
                    fields_refs_ok(out@, names_of(seen_keys(s_in))),
                    out@.len() == emitted_fields(fields@.take(k as int)).len(),
                    forall|t: int|
                        0 <= t < out@.len() ==> field_out_ok(
                            *graph,
                            #[trigger] out@[t],
                            emitted_fields(fields@.take(k as int))[t],
                        ),
                decreases fields@.len() - k,
            {
                let f = &fields[k];
                let ghost out_pre = out@;
                let ghost seen_pre = seen;
                if !f.overrides.skip {
                    let fname = match &f.overrides.rename {
                        Some(s) => s.clone(),
                        None => f.source_name.clone(),
                    };
                    if !check_name(fname.as_str()) {
                        proof {
                            assert(def_fields(graph.defs@[i as int]) == fields@);
                            assert(field_display_name(def_fields(graph.defs@[i as int])[k as int])
                                == fname@);
                        }
                        return (Err(SchemaError::Naming { name: fname }), seen);
                    }
                    let fdefault = match &f.overrides.default {
                        Some(v) => {
                            if !check_default_shape(graph, &f.declared_type, v) {
                                proof {
                                    assert(def_fields(graph.defs@[i as int]) == fields@);
                                    assert(def_fields(graph.defs@[i as int])[k as int] == fields@[k
                                        as int]);
                                }
                                return (
                                    Err(
                                        SchemaError::InvalidDefault {
                                            field: f.source_name.clone(),
                                        },
                                    ),
                                    seen,
                                );
                            }
                            clone_opt_default(&f.overrides.default)
                        },
                        None => None,
                    };
                    proof {
                        if f.overrides.default is Some && fdefault is Some {
                            lemma_default_fits_eq(
                                *graph,
                                f.declared_type,
                                f.overrides.default->0,
                                fdefault->0,
                            );
                        }
                        lemma_field_size_le(fields@, k as int);
                        lemma_unseen_monotone(*graph, s_in, seen);
                        assert(def_size(graph.defs@[i as int]) == 1 + fields_size(fields@));
                        assert(shape_size(f.declared_type) <= fields_size(fields@));
                    }
                    let (br, seen2) = build_shape(graph, &f.declared_type, seen);
                    seen = seen2;
                    match br {
                        Err(e) => {
                            proof {
                                lemma_extends_trans(s_in, seen_pre, seen);
                                lemma_err_post_to_graph(*graph, f.declared_type, seen_pre, e);
                                assert(def_fields(graph.defs@[i as int]) == fields@);
                                assert(def_fields(graph.defs@[i as int])[k as int] == fields@[k
                                    as int]);
                            }
                            return (Err(e), seen);
                        },
                        Ok(fnode) => {
                            let rf = RecordField {
                                name: fname,
                                schema: fnode,
                                doc: clone_opt_str(&f.overrides.doc),
                                default: fdefault,
                                aliases: clone_str_vec(&f.overrides.aliases),
                            };
                            out.push(rf);
                            proof {
                                lemma_extends_trans(s_in, seen_pre, seen);
                                assert(out@.drop_last() =~= out_pre);
                                assert(fields_def_keys(out@) =~= fields_def_keys(out_pre)
                                    + node_def_keys(out@.last().schema));
                                assert(seen_keys(seen) =~= seen_keys(s_in) + fields_def_keys(
                                    out@,
                                ));
                                assert(field_out_ok(*graph, out@.last(), fields@[k as int]));
                                lemma_names_of_concat(
                                    seen_keys(s_in),
                                    fields_def_keys(out_pre),
                                );
                                assert(names_of(seen_keys(seen_pre)) == names_of(
                                    seen_keys(s_in),
                                ).union(names_of(fields_def_keys(out_pre))));
                                assert(refs_ok(
                                    out@.last().schema,
                                    names_of(seen_keys(s_in)).union(
                                        names_of(fields_def_keys(out_pre)),
                                    ),
                                ));
                                assert(fields_refs_ok(out@, names_of(seen_keys(s_in))));
                            }
                        },
                    }
                }
                k += 1;
                proof {
                    let t = fields@.take(k as int);
                    assert(t.drop_last() =~= fields@.take(k - 1 as int));
                    assert(t.last() == fields@[k - 1 as int]);
                    if f.overrides.skip {
                        assert(emitted_fields(t) == emitted_fields(fields@.take(k - 1 as int)));
                    } else {
                        assert(emitted_fields(t) == emitted_fields(
                            fields@.take(k - 1 as int),
                        ).push(fields@[k - 1 as int]));
                    }
                }
            }
            proof {
                assert(fields@.take(fields@.len() as int) =~= fields@);
            }
            let node = SchemaNode::Record {
                name: rn.name,
                namespace: rn.namespace,
                doc: clone_opt_str(&overrides.doc),
                aliases: clone_str_vec(&overrides.aliases),
                fields: out,
            };
            proof {
                assert(node_def_keys(node) =~= seq![def_key(dd)] + fields_def_keys(
                    node->Record_fields@,
                ));
                assert(node_def_keys(node).drop_first() =~= fields_def_keys(
                    node->Record_fields@,
                ));
            }
            (Ok(node), seen)
        },
        TypeDef::Enum { declared_path, overrides, variants } => {
            let rn = match resolve(declared_path, overrides) {
                Err(e) => {
                    proof {
                        assert(def_key(graph.defs@[i as int]).1 == resolved_name(
                            declared_path.deep_view(),
                            *overrides,
                        ));
                    }
                    return (Err(e), seen);
                },
                Ok(rn) => rn,
            };
            let ghost dd = graph.defs@[i as int];
            let mut symbols: Vec<String> = Vec::new();
            let mut k: usize = 0;
            proof {
                assert(variants@.take(0) =~= Seq::<VariantSpec>::empty());
                assert(symbols.deep_view() =~~= emitted_symbols(variants@.take(0)));
                assert(seen.entries@ =~= seen.entries@.subrange(0, seen.entries@.len() as int));
            }
            while k < variants.len()
                invariant
                    0 <= k <= variants@.len(),
                    dd matches TypeDef::Enum { variants: dvs, .. } && dvs@ == variants@,
                    symbols.deep_view() == emitted_symbols(variants@.take(k as int)),
                    forall|t: int|
                        0 <= t < symbols.deep_view().len() ==> valid_name(
                            #[trigger] symbols.deep_view()[t],
                        ),
                decreases variants@.len() - k,
            {
                let v = &variants[k];
                let ghost sym_pre = symbols.deep_view();
                let sname = match &v.overrides.rename {
                    Some(s) => s.clone(),
                    None => v.source_name.clone(),
                };
                if !check_name(sname.as_str()) {
                    proof {
                        assert(def_variants(graph.defs@[i as int]) == variants@);
                        assert(variant_display_name(def_variants(graph.defs@[i as int])[k as int])
                            == sname@);
                    }
                    return (Err(SchemaError::Naming { name: sname }), seen);
                }
                symbols.push(sname);
                k += 1;
                proof {
                    let t = variants@.take(k as int);
                    assert(t.drop_last() =~= variants@.take(k - 1 as int));
                    assert(t.last() == variants@[k - 1 as int]);
                    assert(symbols.deep_view() =~= sym_pre.push(
                        variant_display_name(variants@[k - 1 as int]),
                    ));
                }
            }
            proof {
                assert(variants@.take(variants@.len() as int) =~= variants@);
            }
            let node = SchemaNode::Enum {
                name: rn.name,
                namespace: rn.namespace,
                doc: clone_opt_str(&overrides.doc),
                aliases: clone_str_vec(&overrides.aliases),
                symbols,
            };
            proof {
                assert(node_def_keys(node) =~= seq![def_key(dd)]);
                assert(node_def_keys(node).drop_first()
                    =~= Seq::<(Seq<char>, Seq<char>)>::empty());
                assert(seen_keys(seen) =~= seen_keys(seen) + node_def_keys(node).drop_first());
            }
            (Ok(node), seen)
        },
    }
}

/// No key occurs twice in the sequence: the document inlines each
/// record or enum at most once.
pub open spec fn key_seq_unique(keys: Seq<(Seq<char>, Seq<char>)>) -> bool {
    forall|a: int, b: int| 0 <= a < b < keys.len() ==> keys[a] != keys[b]
}

/// What a successful top-level synthesis yields, with the fresh seen
/// set a document starts from.
pub open spec fn root_ok_post(g: TypeGraph, shape: TypeShape, node: SchemaNode) -> bool {
    &&& key_seq_unique(node_def_keys(node))
    &&& node_matches_shape(g, shape, node)
    &&& refs_ok(node, Set::empty())
    &&& (shape matches TypeShape::Named(i) ==> {
        &&& valid_name(def_key(g.defs@[i as int]).1)
        &&& def_node_matches(g, g.defs@[i as int], node)
    })
    &&& (node matches SchemaNode::Union(items) ==> union_flat(items@))
}

/// What a failed top-level synthesis reports: a primitive never
/// fails, a container fails as its element does, and a reference
/// fails by the dangling-index and naming rules or carries an error
/// whose defect [`graph_err`] shows to stand in the graph.
pub open spec fn root_err_post(g: TypeGraph, shape: TypeShape, e: SchemaError) -> bool
    decreases shape,
{
    match shape {
        TypeShape::Primitive(_) => false,
        TypeShape::Container { element, .. } => root_err_post(g, *element, e),
        TypeShape::Named(i) => {
            if !(0 <= i < g.defs@.len()) {
                e matches SchemaError::UnsupportedType { index } && index == i
            } else if !valid_name(def_key(g.defs@[i as int]).1) {
                e matches SchemaError::Naming { name } && name@ == def_key(g.defs@[i as int]).1
            } else {
                graph_err(g, e)
            }
        },
    }
}

/// Synthesises the schema tree of `root` against `graph`.  Each call
/// works against a fresh seen set scoped to this one document, so
/// independent syntheses never suppress each other's definitions; in
/// the returned tree every `(namespace, name)` pair is defined at most
/// once, later occurrences being named references.
pub fn build_schema(graph: &TypeGraph, root: &TypeShape) -> (r: Result<SchemaNode, SchemaError>)
    ensures
        match r {
            Ok(node) => root_ok_post(*graph, *root, node),
            Err(e) => root_err_post(*graph, *root, e),
        },
        graph_clean(*graph) && shape_clean(*graph, *root) ==> r is Ok,
{
    let seen = SeenSet::new();
    let ghost s0 = seen;
    proof {
        assert(seen_keys(s0).len() == 0);
        assert(wf_seen(*graph, s0));
    }
    let (r, seen1) = build_shape(graph, root, seen);
    match r {
        Ok(node) => {
            proof {
                assert(seen_keys(seen1) =~= node_def_keys(node));
                assert(names_of(seen_keys(s0)) =~= Set::<Seq<char>>::empty());
                assert forall|a: int, b: int|
                    0 <= a < b < node_def_keys(node).len() implies node_def_keys(node)[a]
                    != node_def_keys(node)[b] by {
                    assert(seen_keys(seen1)[a] != seen_keys(seen1)[b]);
                }
                match *root {
                    TypeShape::Named(i) => {
                        assert(!seen_has(s0, def_key(graph.defs@[i as int])));
                    },
                    _ => {},
                }
            }
            Ok(node)
        },
        Err(e) => {
            proof {
                lemma_root_err(*graph, *root, s0, e);
            }
            Err(e)
        },
    }
}

/// A field-level `rename` override always takes precedence over the
/// field's source name, and omitting it reproduces the source name
/// exactly.
pub proof fn lemma_field_rename_precedence(f: FieldSpec)
    ensures
        f.overrides.rename matches Some(s) ==> field_display_name(f) == s@,
        f.overrides.rename is None ==> field_display_name(f) == f.source_name@,
{
}

} // verus!
