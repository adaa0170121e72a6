//! Resolution of the canonical `(namespace, name)` pair of a record or
//! enum node from its declaration path and its override annotations.

use vstd::prelude::*;
use vstd::string::StrSliceExecFns;
use crate::attributes::{AttributeSet, SchemaError};

verus! {

/// Holds when `c` may open an Avro name: a letter or an underscore.
/// The comparisons are on the character's code point.
pub open spec fn name_start_char(c: char) -> bool {
    let u = c as u32;
    (65 <= u && u <= 90) || (97 <= u && u <= 122) || u == 95
}

/// Holds when `c` may continue an Avro name: a letter, a digit or an
/// underscore.
pub open spec fn name_part_char(c: char) -> bool {
    let u = c as u32;
    name_start_char(c) || (48 <= u && u <= 57)
}

/// The Avro name grammar: one opening character, then any number of
/// continuation characters.
pub open spec fn valid_name(s: Seq<char>) -> bool {
    &&& s.len() > 0
    &&& name_start_char(s[0])
    &&& forall|i: int| 1 <= i < s.len() ==> name_part_char(#[trigger] s[i])
}

/// The path segments joined with `.`, the shape of an Avro namespace.
pub open spec fn joined(segs: Seq<Seq<char>>) -> Seq<char>
    decreases segs.len(),
{
    if segs.len() == 0 {
        Seq::empty()
    } else if segs.len() == 1 {
        segs[0]
    } else {
        joined(segs.drop_last()) + seq!['.'] + segs.last()
    }
}

/// The namespace a declaration path yields when no override replaces it:
/// every segment but the last, joined with `.`.
pub open spec fn default_namespace(path: Seq<Seq<char>>) -> Seq<char> {
    if path.len() == 0 {
        Seq::empty()
    } else {
        joined(path.drop_last())
    }
}

/// The name the resolution yields: the `rename` override when present,
/// else the last segment of the declaration path.
pub open spec fn resolved_name(path: Seq<Seq<char>>, o: AttributeSet) -> Seq<char> {
    match o.rename {
        Some(s) => s@,
        None => if path.len() == 0 {
            Seq::empty()
        } else {
            path.last()
        },
    }
}

/// The namespace the resolution yields: the `namespace` override when
/// present, else the default namespace of the declaration path.
pub open spec fn resolved_namespace(path: Seq<Seq<char>>, o: AttributeSet) -> Seq<char> {
    match o.namespace {
        Some(s) => s@,
        None => default_namespace(path),
    }
}

/// A namespace and a name prefixed by it, written `namespace.name`, or
/// the bare name where the namespace is empty.
pub open spec fn full_name_spec(ns: Seq<char>, nm: Seq<char>) -> Seq<char> {
    if ns.len() == 0 {
        nm
    } else {
        ns + seq!['.'] + nm
    }
}

/// The canonical pair a record or enum node is named by.
#[derive(Debug)]
pub struct ResolvedName {
    pub namespace: String,
    pub name: String,
}

impl ResolvedName {
    /// The qualified name the document refers to this node by.
    pub fn full_name(&self) -> (r: String)
        ensures
            r@ == full_name_spec(self.namespace@, self.name@),
    {
        proof {
            reveal_strlit(".");
            assert((".")@ =~= seq!['.']);
        }
        if self.namespace.as_str().unicode_len() == 0 {
            let r = self.name.clone();
            r
        } else {
            let mut r = self.namespace.clone();
            r.append(".");
            r.append(self.name.as_str());
            assert(r@ =~= full_name_spec(self.namespace@, self.name@));
            r
        }
    }
}

fn is_name_start(c: char) -> (r: bool)
    ensures
        r == name_start_char(c),
{
    let u = c as u32;
    (65 <= u && u <= 90) || (97 <= u && u <= 122) || u == 95
}

fn is_name_part(c: char) -> (r: bool)
    ensures
        r == name_part_char(c),
{
    let u = c as u32;
    is_name_start(c) || (48 <= u && u <= 57)
}

/// Whether `s` lies in the Avro name grammar.
pub fn check_name(s: &str) -> (r: bool)
    ensures
        r == valid_name(s@),
{
    let n = s.unicode_len();
    if n == 0 {
        return false;
    }
    if !is_name_start(s.get_char(0)) {
        return false;
    }
    let mut i: usize = 1;
    while i < n
        invariant
            1 <= i <= n,
            n == s@.len(),
            name_start_char(s@[0]),
            forall|j: int| 1 <= j < i ==> name_part_char(#[trigger] s@[j]),
        decreases n - i,
    {
        if !is_name_part(s.get_char(i)) {
            return false;
        }
        i += 1;
    }
    true
}

fn join_default_namespace(path: &Vec<String>) -> (r: String)
    ensures
        r@ == default_namespace(path.deep_view()),
{
    proof {
        reveal_strlit(".");
        assert((".")@ =~= seq!['.']);
    }
    let ghost segs: Seq<Seq<char>> = path.deep_view();
    let mut r = String::new();
    if path.len() == 0 {
        return r;
    }
    let end = path.len() - 1;
    let mut i: usize = 0;
    while i < end
        invariant
            0 <= i <= end,
            end == path@.len() - 1,
            segs == path.deep_view(),
            segs.len() == path@.len(),
            forall|j: int| 0 <= j < segs.len() ==> segs[j] == path@[j]@,
            r@ == joined(segs.take(i as int)),
        decreases end - i,
    {
        if i > 0 {
            r.append(".");
        }
        r.append(path[i].as_str());
        proof {
            reveal_strlit(".");
            assert((".")@ =~= seq!['.']);
            let t = segs.take(i + 1 as int);
            assert(t.drop_last() =~= segs.take(i as int));
            assert(t.last() == segs[i as int]);
            assert(r@ =~= joined(t));
        }
        i += 1;
    }
    proof {
        assert(segs.take(end as int) =~= segs.drop_last());
    }
    r
}

/// Computes the canonical `(namespace, name)` pair of a record or enum:
/// the `rename` and `namespace` overrides fully replace the structural
/// defaults, and a resolved name outside the Avro name grammar is
/// reported as a naming error carrying the offending name.
pub fn resolve(declared_path: &Vec<String>, overrides: &AttributeSet) -> (r: Result<
    ResolvedName,
    SchemaError,
>)
    ensures
        ({
            let nm = resolved_name(declared_path.deep_view(), *overrides);
            let ns = resolved_namespace(declared_path.deep_view(), *overrides);
            match r {
                Ok(rn) => rn.name@ == nm && rn.namespace@ == ns && valid_name(nm),
                Err(e) => !valid_name(nm) && (e matches SchemaError::Naming { name } && name@
                    == nm),
            }
        }),
{
    let name: String = match &overrides.rename {
        Some(s) => s.clone(),
        None => {
            if declared_path.len() == 0 {
                String::new()
            } else {
                declared_path[declared_path.len() - 1].clone()
            }
        },
    };
    if !check_name(name.as_str()) {
        return Err(SchemaError::Naming { name });
    }
    let namespace: String = match &overrides.namespace {
        Some(s) => s.clone(),
        None => join_default_namespace(declared_path),
    };
    Ok(ResolvedName { namespace, name })
}

/// A type-level `rename` or `namespace` override always takes
/// precedence over the structural default drawn from the declaration
/// path, and omitting it reproduces that default exactly.
pub proof fn lemma_override_precedence(path: Seq<Seq<char>>, o: AttributeSet)
    ensures
        o.rename matches Some(s) ==> resolved_name(path, o) == s@,
        o.rename is None && path.len() > 0 ==> resolved_name(path, o) == path.last(),
        o.namespace matches Some(s) ==> resolved_namespace(path, o) == s@,
        o.namespace is None ==> resolved_namespace(path, o) == default_namespace(path),
{
}

} // verus!
