//! Typed model of the recognised override annotations, and the errors a
//! schema synthesis can report.

use vstd::prelude::*;
use vstd::string::StringExecFns;

verus! {

/// A schema-typed literal that a field declares as its default value.
///
/// Only literals that can stand in an Avro schema document are
/// representable: the null literal, booleans, integers and text.
#[derive(Debug)]
pub enum DefaultValue {
    Null,
    Boolean(bool),
    Integer(i64),
    Text(String),
}

/// The recognised per-type and per-field override options.
///
/// Every option is absent by default; an absent option leaves the
/// structural default of the synthesis in force.
#[derive(Debug)]
pub struct AttributeSet {
    /// Replaces the default name of the type or field.
    pub rename: Option<String>,
    /// Replaces the default namespace of the type.
    pub namespace: Option<String>,
    /// Alternate names recorded for schema evolution.
    pub aliases: Vec<String>,
    /// Default literal embedded in the field's schema entry.
    pub default: Option<DefaultValue>,
    /// Human-readable description string.
    pub doc: Option<String>,
    /// Excludes a field from the schema entirely.
    pub skip: bool,
}

/// Holds when no override is present in `a`.
pub open spec fn attrs_empty(a: AttributeSet) -> bool {
    &&& a.rename is None
    &&& a.namespace is None
    &&& a.aliases@.len() == 0
    &&& a.default is None
    &&& a.doc is None
    &&& !a.skip
}

impl AttributeSet {
    /// The empty attribute set: every synthesis default stays in force.
    pub fn none() -> (r: AttributeSet)
        ensures
            attrs_empty(r),
    {
        AttributeSet {
            rename: None,
            namespace: None,
            aliases: Vec::new(),
            default: None,
            doc: None,
            skip: false,
        }
    }
}

/// The value an override annotation carries, as the external attribute
/// parser hands it in.
#[derive(Debug)]
pub enum AttributeValue {
    Text(String),
    TextList(Vec<String>),
    Literal(DefaultValue),
    Flag(bool),
}

/// One override annotation: a key and its value.
#[derive(Debug)]
pub struct AttributeEntry {
    pub key: String,
    pub value: AttributeValue,
}

/// An error detected while synthesising a schema.  Every error names the
/// offending path, name, field or key, so the caller can surface an
/// actionable failure; none is recoverable by substituting a fallback
/// schema.
#[derive(Debug)]
pub enum SchemaError {
    /// The resolved name of a record or enum is empty or falls outside
    /// the Avro name grammar.
    Naming { name: String },
    /// Two structurally different definitions resolved to the same
    /// `(namespace, name)` pair within one document.
    DuplicateName { namespace: String, name: String },
    /// A type reference points at no definition of the type graph.
    UnsupportedType { index: usize },
    /// An override annotation used a key that is not recognised, or gave
    /// a recognised key a value of the wrong kind.
    UnknownAttribute { key: String },
    /// A field's default literal does not fit the field's schema.
    InvalidDefault { field: String },
}

/// Holds when the entry's key is recognised and its value has the kind
/// that key takes.
pub open spec fn recognized(e: AttributeEntry) -> bool {
    ||| (e.key@ == ("rename")@ && e.value is Text)
    ||| (e.key@ == ("namespace")@ && e.value is Text)
    ||| (e.key@ == ("aliases")@ && e.value is TextList)
    ||| (e.key@ == ("default")@ && e.value is Literal)
    ||| (e.key@ == ("doc")@ && e.value is Text)
    ||| (e.key@ == ("skip")@ && e.value is Flag)
}

/// The attribute set after one recognised entry takes effect.
pub open spec fn apply_entry(a: AttributeSet, e: AttributeEntry) -> AttributeSet {
    match e.value {
        AttributeValue::Text(s) => {
            if e.key@ == ("rename")@ {
                AttributeSet { rename: Some(s), ..a }
            } else if e.key@ == ("namespace")@ {
                AttributeSet { namespace: Some(s), ..a }
            } else if e.key@ == ("doc")@ {
                AttributeSet { doc: Some(s), ..a }
            } else {
                a
            }
        },
        AttributeValue::TextList(xs) => {
            if e.key@ == ("aliases")@ {
                AttributeSet { aliases: xs, ..a }
            } else {
                a
            }
        },
        AttributeValue::Literal(v) => {
            if e.key@ == ("default")@ {
                AttributeSet { default: Some(v), ..a }
            } else {
                a
            }
        },
        AttributeValue::Flag(b) => {
            if e.key@ == ("skip")@ {
                AttributeSet { skip: b, ..a }
            } else {
                a
            }
        },
    }
}

/// The attribute set after every entry takes effect, in order: a later
/// entry overrides an earlier one.
pub open spec fn entries_fold(base: AttributeSet, es: Seq<AttributeEntry>) -> AttributeSet
    decreases es.len(),
{
    if es.len() == 0 {
        base
    } else {
        apply_entry(entries_fold(base, es.drop_last()), es.last())
    }
}

fn key_is(k: &String, lit: &str) -> (r: bool)
    ensures
        r == (k@ == lit@),
{
    let s = String::from_str(lit);
    *k == s
}

pub(crate) fn clone_str_vec(v: &Vec<String>) -> (r: Vec<String>)
    ensures
        r.deep_view() == v.deep_view(),
{
    let mut r: Vec<String> = Vec::new();
    let mut i: usize = 0;
    while i < v.len()
        invariant
            0 <= i <= v@.len(),
            r@.len() == i,
            forall|j: int| 0 <= j < i ==> r@[j]@ == v@[j]@,
        decreases v@.len() - i,
    {
        r.push(v[i].clone());
        i += 1;
    }
    proof {
        assert(r.deep_view() =~~= v.deep_view());
    }
    r
}

/// Builds the attribute set of a declaration from the entries the
/// external attribute parser hands in, applied in order over `base`.
/// The first entry whose key is not recognised, or whose value has the
/// wrong kind for its key, is reported as an unknown-attribute error
/// carrying that key: an unrecognised override is never silently
/// ignored.
#[verifier::loop_isolation(false)]
pub fn apply_entries(base: AttributeSet, entries: &Vec<AttributeEntry>) -> (r: Result<
    AttributeSet,
    SchemaError,
>)
    ensures
        match r {
            Ok(a) => {
                &&& forall|j: int| 0 <= j < entries@.len() ==> recognized(#[trigger] entries@[j])
                &&& crate::shape::attrs_eq(a, entries_fold(base, entries@))
            },
            Err(e) => exists|i: int|
                0 <= i < entries@.len() && !recognized(#[trigger] entries@[i]) && (forall|j: int|
                    0 <= j < i ==> recognized(#[trigger] entries@[j])) && (
                e matches SchemaError::UnknownAttribute { key } && key@ == entries@[i].key@),
        },
{
    let ghost base_spec = base;
    let mut acc = base;
    let mut i: usize = 0;
    proof {
        assert(entries@.take(0) =~= Seq::<AttributeEntry>::empty());
    }
    while i < entries.len()
        invariant
            0 <= i <= entries@.len(),
            forall|j: int| 0 <= j < i ==> recognized(#[trigger] entries@[j]),
            crate::shape::attrs_eq(acc, entries_fold(base_spec, entries@.take(i as int))),
        decreases entries@.len() - i,
    {
        let e = &entries[i];
        match &e.value {
            AttributeValue::Text(s) => {
                if key_is(&e.key, "rename") {
                    acc.rename = Some(s.clone());
                } else if key_is(&e.key, "namespace") {
                    acc.namespace = Some(s.clone());
                } else if key_is(&e.key, "doc") {
                    acc.doc = Some(s.clone());
                } else {
                    return Err(SchemaError::UnknownAttribute { key: e.key.clone() });
                }
            },
            AttributeValue::TextList(xs) => {
                if key_is(&e.key, "aliases") {
                    acc.aliases = clone_str_vec(xs);
                } else {
                    return Err(SchemaError::UnknownAttribute { key: e.key.clone() });
                }
            },
            AttributeValue::Literal(v) => {
                if key_is(&e.key, "default") {
                    acc.default = match v {
                        DefaultValue::Null => Some(DefaultValue::Null),
                        DefaultValue::Boolean(b) => Some(DefaultValue::Boolean(*b)),
                        DefaultValue::Integer(x) => Some(DefaultValue::Integer(*x)),
                        DefaultValue::Text(t) => Some(DefaultValue::Text(t.clone())),
                    };
                } else {
                    return Err(SchemaError::UnknownAttribute { key: e.key.clone() });
                }
            },
            AttributeValue::Flag(b) => {
                if key_is(&e.key, "skip") {
                    acc.skip = *b;
                } else {
                    return Err(SchemaError::UnknownAttribute { key: e.key.clone() });
                }
            },
        }
        i += 1;
        proof {
            let t = entries@.take(i as int);
            assert(t.drop_last() =~= entries@.take(i - 1 as int));
            assert(t.last() == entries@[i - 1 as int]);
            assert(crate::shape::attrs_eq(acc, entries_fold(base_spec, t)));
        }
    }
    proof {
        assert(entries@.take(entries@.len() as int) =~= entries@);
    }
    Ok(acc)
}

} // verus!
