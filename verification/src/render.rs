//! Canonical serialisation of a schema tree to Avro schema JSON.  The
//! text a tree serialises to is a function of the tree alone, so two
//! serialisations of one tree are byte-identical.

use vstd::prelude::*;
use vstd::string::StrSliceExecFns;
use vstd::string::StringExecFns;
use crate::attributes::DefaultValue;
use crate::schema::{RecordField, SchemaNode};

verus! {

/// The lower-case hexadecimal digit of a value below sixteen.
pub open spec fn hex_digit(d: int) -> char {
    if d == 0 { '0' } else if d == 1 { '1' } else if d == 2 { '2' } else if d == 3 { '3' }
    else if d == 4 { '4' } else if d == 5 { '5' } else if d == 6 { '6' } else if d == 7 { '7' }
    else if d == 8 { '8' } else if d == 9 { '9' } else if d == 10 { 'a' } else if d == 11 { 'b' }
    else if d == 12 { 'c' } else if d == 13 { 'd' } else if d == 14 { 'e' } else { 'f' }
}

/// The decimal digit of a value below ten.
pub open spec fn digit_char(d: int) -> char {
    if d == 0 { '0' } else if d == 1 { '1' } else if d == 2 { '2' } else if d == 3 { '3' }
    else if d == 4 { '4' } else if d == 5 { '5' } else if d == 6 { '6' } else if d == 7 { '7' }
    else if d == 8 { '8' } else { '9' }
}

/// The decimal digits of a natural number, most significant first.
pub open spec fn dec_str(n: nat) -> Seq<char>
    decreases n,
{
    if n < 10 {
        seq![digit_char(n as int)]
    } else {
        dec_str(n / 10) + seq![digit_char((n % 10) as int)]
    }
}

/// The decimal text of an integer, with a leading minus sign when
/// negative.
pub open spec fn int_str(v: int) -> Seq<char> {
    if v < 0 {
        seq!['-'] + dec_str((-v) as nat)
    } else {
        dec_str(v as nat)
    }
}

/// The JSON escape of one character of a string literal.
pub open spec fn esc_char(c: char) -> Seq<char> {
    if c == '"' {
        seq!['\\', '"']
    } else if c == '\\' {
        seq!['\\', '\\']
    } else if c == '\n' {
        seq!['\\', 'n']
    } else if c == '\r' {
        seq!['\\', 'r']
    } else if c == '\t' {
        seq!['\\', 't']
    } else if (c as u32) < 32 {
        seq!['\\', 'u', '0', '0', hex_digit((c as u32) as int / 16), hex_digit(
            (c as u32) as int % 16,
        )]
    } else {
        seq![c]
    }
}

/// The JSON escape of a whole string.
pub open spec fn esc(s: Seq<char>) -> Seq<char>
    decreases s.len(),
{
    if s.len() == 0 {
        Seq::empty()
    } else {
        esc(s.drop_last()) + esc_char(s.last())
    }
}

/// A string as a JSON string literal: quoted and escaped.
pub open spec fn quoted(s: Seq<char>) -> Seq<char> {
    seq!['"'] + esc(s) + seq!['"']
}

/// The JSON text of a default literal.
pub open spec fn render_default(v: DefaultValue) -> Seq<char> {
    match v {
        DefaultValue::Null => ("null")@,
        DefaultValue::Boolean(b) => if b {
            ("true")@
        } else {
            ("false")@
        },
        DefaultValue::Integer(x) => int_str(x as int),
        DefaultValue::Text(s) => quoted(s@),
    }
}

/// The `namespace` entry of a record or enum, absent when the
/// namespace is empty.
pub open spec fn render_namespace(ns: Seq<char>) -> Seq<char> {
    if ns.len() == 0 {
        Seq::empty()
    } else {
        (",\"namespace\":")@ + quoted(ns)
    }
}

/// The `doc` entry, absent when no doc string is attached.
pub open spec fn render_doc(d: Option<String>) -> Seq<char> {
    match d {
        Some(s) => (",\"doc\":")@ + quoted(s@),
        None => Seq::empty(),
    }
}

/// A comma-separated list of JSON string literals.
pub open spec fn render_strings(xs: Seq<Seq<char>>) -> Seq<char>
    decreases xs.len(),
{
    if xs.len() == 0 {
        Seq::empty()
    } else if xs.len() == 1 {
        quoted(xs[0])
    } else {
        render_strings(xs.drop_last()) + seq![','] + quoted(xs.last())
    }
}

/// The `aliases` entry, absent when no alias is attached.
pub open spec fn render_aliases(al: Seq<Seq<char>>) -> Seq<char> {
    if al.len() == 0 {
        Seq::empty()
    } else {
        (",\"aliases\":[")@ + render_strings(al) + ("]")@
    }
}

/// The `default` entry of a field, absent when none is attached.
pub open spec fn render_opt_default(d: Option<DefaultValue>) -> Seq<char> {
    match d {
        Some(v) => (",\"default\":")@ + render_default(v),
        None => Seq::empty(),
    }
}

/// The canonical JSON text of a schema node.  Primitives and named
/// references render as bare quoted names; a record or enum renders in
/// full, its fields or symbols in order.
pub open spec fn render(n: SchemaNode) -> Seq<char>
    decreases n,
{
    match n {
        SchemaNode::Null => ("\"null\"")@,
        SchemaNode::Boolean => ("\"boolean\"")@,
        SchemaNode::Int => ("\"int\"")@,
        SchemaNode::Long => ("\"long\"")@,
        SchemaNode::Float => ("\"float\"")@,
        SchemaNode::Double => ("\"double\"")@,
        SchemaNode::Bytes => ("\"bytes\"")@,
        SchemaNode::Str => ("\"string\"")@,
        SchemaNode::Array(e) => ("{\"type\":\"array\",\"items\":")@ + render(*e) + ("}")@,
        SchemaNode::Mapping(e) => ("{\"type\":\"map\",\"values\":")@ + render(*e) + ("}")@,
        SchemaNode::Union(items) => ("[")@ + render_list(items@) + ("]")@,
        SchemaNode::Record { name, namespace, doc, aliases, fields } => (
            "{\"type\":\"record\",\"name\":"
        )@ + quoted(name@) + render_namespace(namespace@) + render_doc(doc) + render_aliases(
            aliases.deep_view(),
        ) + (",\"fields\":[")@ + render_fields(fields@) + ("]}")@,
        SchemaNode::Enum { name, namespace, doc, aliases, symbols } => (
            "{\"type\":\"enum\",\"name\":"
        )@ + quoted(name@) + render_namespace(namespace@) + render_doc(doc) + render_aliases(
            aliases.deep_view(),
        ) + (",\"symbols\":[")@ + render_strings(symbols.deep_view()) + ("]}")@,
        SchemaNode::NamedReference(q) => quoted(q@),
    }
}

/// A comma-separated list of rendered nodes: the branches of a union.
pub open spec fn render_list(items: Seq<SchemaNode>) -> Seq<char>
    decreases items,
{
    if items.len() == 0 {
        Seq::empty()
    } else if items.len() == 1 {
        render(items[0])
    } else {
        render_list(items.drop_last()) + seq![','] + render(items.last())
    }
}

/// One field entry of a record.
pub open spec fn render_field(f: RecordField) -> Seq<char>
    decreases f,
{
    ("{\"name\":")@ + quoted(f.name@) + (",\"type\":")@ + render(f.schema) + render_doc(f.doc)
        + render_opt_default(f.default) + render_aliases(f.aliases.deep_view()) + ("}")@
}

/// A comma-separated list of field entries.
pub open spec fn render_fields(fs: Seq<RecordField>) -> Seq<char>
    decreases fs,
{
    if fs.len() == 0 {
        Seq::empty()
    } else if fs.len() == 1 {
        render_field(fs[0])
    } else {
        render_fields(fs.drop_last()) + seq![','] + render_field(fs.last())
    }
}

/// Relies on `String::push`: appends exactly the one given character.
#[verifier::external_body]
fn push_char(s: &mut String, c: char)
    ensures
        final(s)@ == old(s)@.push(c),
{
    s.push(c);
}

#[verifier::loop_isolation(false)]
fn append_hex_digit(out: &mut String, d: u32)
    requires
        d < 16,
    ensures
        final(out)@ == old(out)@.push(hex_digit(d as int)),
{
    let c: char = match d {
        0 => '0', 1 => '1', 2 => '2', 3 => '3', 4 => '4', 5 => '5', 6 => '6', 7 => '7',
        8 => '8', 9 => '9', 10 => 'a', 11 => 'b', 12 => 'c', 13 => 'd', 14 => 'e', _ => 'f',
    };
    push_char(out, c);
}

#[verifier::loop_isolation(false)]
fn append_digit(out: &mut String, d: u64)
    requires
        d < 10,
    ensures
        final(out)@ == old(out)@.push(digit_char(d as int)),
{
    let c: char = match d {
        0 => '0', 1 => '1', 2 => '2', 3 => '3', 4 => '4', 5 => '5', 6 => '6', 7 => '7',
        8 => '8', _ => '9',
    };
    push_char(out, c);
}

fn append_dec(out: &mut String, n: u64)
    ensures
        final(out)@ == old(out)@ + dec_str(n as nat),
    decreases n,
{
    if n < 10 {
        append_digit(out, n);
        proof {
            assert(old(out)@.push(digit_char(n as int)) =~= old(out)@ + dec_str(n as nat));
        }
    } else {
        append_dec(out, n / 10);
        append_digit(out, n % 10);
        proof {
            assert((old(out)@ + dec_str((n / 10) as nat)).push(digit_char((n % 10) as int))
                =~= old(out)@ + dec_str(n as nat));
        }
    }
}

fn append_int(out: &mut String, v: i64)
    ensures
        final(out)@ == old(out)@ + int_str(v as int),
{
    if v < 0 {
        out.append("-");
        proof {
            reveal_strlit("-");
            assert(("-")@ =~= seq!['-']);
        }
        if v == -0x8000_0000_0000_0000i64 {
            append_dec(out, 0x8000_0000_0000_0000u64);
        } else {
            append_dec(out, (-v) as u64);
        }
        proof {
            assert(final(out)@ =~= old(out)@ + int_str(v as int));
        }
    } else {
        append_dec(out, v as u64);
    }
}

#[verifier::loop_isolation(false)]
fn append_escaped(out: &mut String, s: &str)
    ensures
        final(out)@ == old(out)@ + esc(s@),
{
    proof {
        reveal_strlit("\\\"");
        reveal_strlit("\\\\");
        reveal_strlit("\\n");
        reveal_strlit("\\r");
        reveal_strlit("\\t");
        reveal_strlit("\\u00");
        assert(("\\\"")@ =~= seq!['\\', '"']);
        assert(("\\\\")@ =~= seq!['\\', '\\']);
        assert(("\\n")@ =~= seq!['\\', 'n']);
        assert(("\\r")@ =~= seq!['\\', 'r']);
        assert(("\\t")@ =~= seq!['\\', 't']);
        assert(("\\u00")@ =~= seq!['\\', 'u', '0', '0']);
        assert(s@.take(0) =~= Seq::<char>::empty());
        assert(old(out)@ + esc(s@.take(0)) =~= old(out)@);
    }
    let n = s.unicode_len();
    let mut i: usize = 0;
    while i < n
        invariant
            0 <= i <= n,
            n == s@.len(),
            out@ == old(out)@ + esc(s@.take(i as int)),
        decreases n - i,
    {
        let c = s.get_char(i);
        if c == '"' {
            out.append("\\\"");
        } else if c == '\\' {
            out.append("\\\\");
        } else if c == '\n' {
            out.append("\\n");
        } else if c == '\r' {
            out.append("\\r");
        } else if c == '\t' {
            out.append("\\t");
        } else {
            let u = c as u32;
            if u < 32 {
                out.append("\\u00");
                append_hex_digit(out, u / 16);
                append_hex_digit(out, u % 16);
            } else {
                push_char(out, c);
            }
        }
        i += 1;
        proof {
            let t = s@.take(i as int);
            assert(t.drop_last() =~= s@.take(i - 1 as int));
            assert(t.last() == s@[i - 1 as int]);
            assert(out@ =~= old(out)@ + esc(t));
        }
    }
    proof {
        assert(s@.take(n as int) =~= s@);
    }
}

#[verifier::loop_isolation(false)]
fn append_quoted(out: &mut String, s: &str)
    ensures
        final(out)@ == old(out)@ + quoted(s@),
{
    proof {
        reveal_strlit("\"");
        assert(("\"")@ =~= seq!['"']);
    }
    out.append("\"");
    append_escaped(out, s);
    out.append("\"");
    proof {
        assert(final(out)@ =~= old(out)@ + quoted(s@));
    }
}

fn append_default(out: &mut String, v: &DefaultValue)
    ensures
        final(out)@ == old(out)@ + render_default(*v),
{
    match v {
        DefaultValue::Null => out.append("null"),
        DefaultValue::Boolean(b) => {
            if *b {
                out.append("true");
            } else {
                out.append("false");
            }
        },
        DefaultValue::Integer(x) => append_int(out, *x),
        DefaultValue::Text(s) => append_quoted(out, s.as_str()),
    }
}

fn append_doc(out: &mut String, d: &Option<String>)
    ensures
        final(out)@ == old(out)@ + render_doc(*d),
{
    match d {
        Some(s) => {
            out.append(",\"doc\":");
            append_quoted(out, s.as_str());
            proof {
                assert(final(out)@ =~= old(out)@ + render_doc(*d));
            }
        },
        None => {
            proof {
                assert(old(out)@ + render_doc(*d) =~= old(out)@);
            }
        },
    }
}

#[verifier::loop_isolation(false)]
fn append_strings(out: &mut String, xs: &Vec<String>)
    ensures
        final(out)@ == old(out)@ + render_strings(xs.deep_view()),
{
    proof {
        reveal_strlit(",");
        assert((",")@ =~= seq![',']);
        assert(xs.deep_view().take(0) =~= Seq::<Seq<char>>::empty());
        assert(old(out)@ + render_strings(xs.deep_view().take(0)) =~= old(out)@);
    }
    let ghost all = xs.deep_view();
    let mut i: usize = 0;
    while i < xs.len()
        invariant
            0 <= i <= xs@.len(),
            all == xs.deep_view(),
            all.len() == xs@.len(),
            forall|j: int| 0 <= j < all.len() ==> all[j] == xs@[j]@,
            out@ == old(out)@ + render_strings(all.take(i as int)),
        decreases xs@.len() - i,
    {
        if i > 0 {
            out.append(",");
        }
        append_quoted(out, xs[i].as_str());
        i += 1;
        proof {
            let t = all.take(i as int);
            assert(t.drop_last() =~= all.take(i - 1 as int));
            assert(t.last() == all[i - 1 as int]);
            assert(out@ =~= old(out)@ + render_strings(t));
        }
    }
    proof {
        assert(all.take(xs@.len() as int) =~= all);
    }
}

fn append_aliases(out: &mut String, al: &Vec<String>)
    ensures
        final(out)@ == old(out)@ + render_aliases(al.deep_view()),
{
    proof {
        assert(al.deep_view().len() == al@.len());
    }
    if al.len() == 0 {
        proof {
            assert(old(out)@ + render_aliases(al.deep_view()) =~= old(out)@);
        }
        return ;
    }
    out.append(",\"aliases\":[");
    append_strings(out, al);
    out.append("]");
    proof {
        assert(final(out)@ =~= old(out)@ + render_aliases(al.deep_view()));
    }
}

#[verifier::rlimit(80)]
fn append_node(n: &SchemaNode, out: &mut String)
    ensures
        final(out)@ == old(out)@ + render(*n),
    decreases *n,
{
    match n {
        SchemaNode::Null => out.append("\"null\""),
        SchemaNode::Boolean => out.append("\"boolean\""),
        SchemaNode::Int => out.append("\"int\""),
        SchemaNode::Long => out.append("\"long\""),
        SchemaNode::Float => out.append("\"float\""),
        SchemaNode::Double => out.append("\"double\""),
        SchemaNode::Bytes => out.append("\"bytes\""),
        SchemaNode::Str => out.append("\"string\""),
        SchemaNode::Array(e) => {
            out.append("{\"type\":\"array\",\"items\":");
            append_node(e, out);
            out.append("}");
            proof {
                assert(final(out)@ =~= old(out)@ + render(*n));
            }
        },
        SchemaNode::Mapping(e) => {
            out.append("{\"type\":\"map\",\"values\":");
            append_node(e, out);
            out.append("}");
            proof {
                assert(final(out)@ =~= old(out)@ + render(*n));
            }
        },
        SchemaNode::Union(items) => {
            out.append("[");
            append_list(items, out);
            out.append("]");
            proof {
                assert(final(out)@ =~= old(out)@ + render(*n));
            }
        },
        SchemaNode::Record { name, namespace, doc, aliases, fields } => {
            out.append("{\"type\":\"record\",\"name\":");
            append_quoted(out, name.as_str());
            if namespace.as_str().unicode_len() > 0 {
                out.append(",\"namespace\":");
                append_quoted(out, namespace.as_str());
            }
            proof {
                assert(render_namespace(namespace@) =~= if namespace@.len() == 0 {
                    Seq::<char>::empty()
                } else {
                    (",\"namespace\":")@ + quoted(namespace@)
                });
            }
            append_doc(out, doc);
            append_aliases(out, aliases);
            out.append(",\"fields\":[");
            append_record_fields(fields, out);
            out.append("]}");
            proof {
                assert(final(out)@ =~= old(out)@ + render(*n));
            }
        },
        SchemaNode::Enum { name, namespace, doc, aliases, symbols } => {
            out.append("{\"type\":\"enum\",\"name\":");
            append_quoted(out, name.as_str());
            if namespace.as_str().unicode_len() > 0 {
                out.append(",\"namespace\":");
                append_quoted(out, namespace.as_str());
            }
            append_doc(out, doc);
            append_aliases(out, aliases);
            out.append(",\"symbols\":[");
            append_strings(out, symbols);
            out.append("]}");
            proof {
                assert(final(out)@ =~= old(out)@ + render(*n));
            }
        },
        SchemaNode::NamedReference(q) => append_quoted(out, q.as_str()),
    }
}

#[verifier::loop_isolation(false)]
fn append_list(items: &Vec<SchemaNode>, out: &mut String)
    ensures
        final(out)@ == old(out)@ + render_list(items@),
    decreases items@,
{
    proof {
        reveal_strlit(",");
        assert((",")@ =~= seq![',']);
        assert(items@.take(0) =~= Seq::<SchemaNode>::empty());
        assert(old(out)@ + render_list(items@.take(0)) =~= old(out)@);
    }
    let mut i: usize = 0;
    while i < items.len()
        invariant
            0 <= i <= items@.len(),
            out@ == old(out)@ + render_list(items@.take(i as int)),
        decreases items@.len() - i,
    {
        if i > 0 {
            out.append(",");
        }
        append_node(&items[i], out);
        i += 1;
        proof {
            let t = items@.take(i as int);
            assert(t.drop_last() =~= items@.take(i - 1 as int));
            assert(t.last() == items@[i - 1 as int]);
            assert(out@ =~= old(out)@ + render_list(t));
        }
    }
    proof {
        assert(items@.take(items@.len() as int) =~= items@);
    }
}

fn append_field(f: &RecordField, out: &mut String)
    ensures
        final(out)@ == old(out)@ + render_field(*f),
    decreases *f,
{
    out.append("{\"name\":");
    append_quoted(out, f.name.as_str());
    out.append(",\"type\":");
    append_node(&f.schema, out);
    append_doc(out, &f.doc);
    match &f.default {
        Some(v) => {
            out.append(",\"default\":");
            append_default(out, v);
        },
        None => {},
    }
    proof {
        assert(render_opt_default(f.default) =~= match f.default {
            Some(v) => (",\"default\":")@ + render_default(v),
            None => Seq::<char>::empty(),
        });
    }
    append_aliases(out, &f.aliases);
    out.append("}");
    proof {
        assert(final(out)@ =~= old(out)@ + render_field(*f));
    }
}

#[verifier::loop_isolation(false)]
fn append_record_fields(fs: &Vec<RecordField>, out: &mut String)
    ensures
        final(out)@ == old(out)@ + render_fields(fs@),
    decreases fs@,
{
    proof {
        reveal_strlit(",");
        assert((",")@ =~= seq![',']);
        assert(fs@.take(0) =~= Seq::<RecordField>::empty());
        assert(old(out)@ + render_fields(fs@.take(0)) =~= old(out)@);
    }
    let mut i: usize = 0;
    while i < fs.len()
        invariant
            0 <= i <= fs@.len(),
            out@ == old(out)@ + render_fields(fs@.take(i as int)),
        decreases fs@.len() - i,
    {
        if i > 0 {
            out.append(",");
        }
        append_field(&fs[i], out);
        i += 1;
        proof {
            let t = fs@.take(i as int);
            assert(t.drop_last() =~= fs@.take(i - 1 as int));
            assert(t.last() == fs@[i - 1 as int]);
            assert(out@ =~= old(out)@ + render_fields(t));
        }
    }
    proof {
        assert(fs@.take(fs@.len() as int) =~= fs@);
    }
}

/// Serialises a schema tree to its canonical JSON text.  The result is
/// exactly [`render`] of the tree, so the output is deterministic.
pub fn serialize(n: &SchemaNode) -> (r: String)
    ensures
        r@ == render(*n),
{
    let mut out = String::new();
    append_node(n, &mut out);
    proof {
        assert(Seq::<char>::empty() + render(*n) =~= render(*n));
    }
    out
}

/// Serialising the built schema twice yields byte-identical output:
/// the serialised text is a function of the tree alone.
pub proof fn lemma_serialize_deterministic(n: SchemaNode, r1: Seq<char>, r2: Seq<char>)
    requires
        r1 == render(n),
        r2 == render(n),
    ensures
        r1 == r2,
{
}

} // verus!
