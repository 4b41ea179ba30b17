//! The boundary to the YAML reader.
//!
//! The manifest's structural syntax is decoded by an outside crate; its
//! document values are opaque here.  Their content is named by the
//! uninterpreted [`yaml_node`], which every probe wrapper's contract speaks
//! of, and the decode of a whole text is named by [`doc_of`]; the verified
//! converter below turns an opaque node into the crate's own [`RawValue`]
//! tree and is proved to reproduce [`yaml_node`] exactly, so everything
//! downstream is pinned to the named decode of the input text.

use vstd::prelude::*;

use crate::error::DockerError;
use crate::text::{chars_of, string_of, subvec};

verus! {

broadcast use vstd::std_specs::vec::axiom_vec_decreases_to_view, vstd::seq::axiom_seq_index_decreases;

#[verifier::external_type_specification]
#[verifier::external_body]
pub struct ExYamlValue(serde_yaml::Value);

/// A structural document value of the crate's own: what the manifest logic
/// reads.  `Scalar` keeps the raw text of a scalar that is none of the other
/// kinds (for example a fractional number).
pub enum RawValue {
    Null,
    Bool(bool),
    Int(i64),
    Str(String),
    Scalar(String),
    List(Vec<RawValue>),
    Mapping(Vec<(String, RawValue)>),
}

/// The mathematical form of a structural value.
pub enum RawView {
    Null,
    Bool(bool),
    Int(i64),
    Str(Seq<char>),
    Scalar(Seq<char>),
    List(Seq<RawView>),
    Mapping(Seq<(Seq<char>, RawView)>),
}

/// The mathematical form of a structural value.
pub open spec fn raw_view(v: RawValue) -> RawView
    decreases v,
{
    match v {
        RawValue::Null => RawView::Null,
        RawValue::Bool(b) => RawView::Bool(b),
        RawValue::Int(i) => RawView::Int(i),
        RawValue::Str(s) => RawView::Str(s@),
        RawValue::Scalar(s) => RawView::Scalar(s@),
        RawValue::List(items) => RawView::List(
            Seq::new(
                items@.len(),
                |i: int|
                    if 0 <= i < items@.len() {
                        raw_view(items@[i])
                    } else {
                        RawView::Null
                    },
            ),
        ),
        RawValue::Mapping(entries) => RawView::Mapping(
            Seq::new(
                entries@.len(),
                |i: int|
                    if 0 <= i < entries@.len() {
                        (entries@[i].0@, raw_view(entries@[i].1))
                    } else {
                        (Seq::empty(), RawView::Null)
                    },
            ),
        ),
    }
}

impl View for RawValue {
    type V = RawView;

    open spec fn view(&self) -> RawView {
        raw_view(*self)
    }
}

/// The content of an opaque document node: null, boolean, integer, string,
/// sequence or mapping by its kind, and any other scalar (a fractional
/// number, say) as `Scalar` of its serialized text, trailing newline
/// removed.  A mapping key that is
/// itself a string appears as the key's characters; other keys are not
/// constrained.  Every probe wrapper below states its result against this
/// one name.
pub uninterp spec fn yaml_node(v: serde_yaml::Value) -> RawView;

/// The serialized text of a node, exactly as `serde_yaml::to_string`
/// returns it, trailing newline included.
pub uninterp spec fn scalar_text(v: serde_yaml::Value) -> Seq<char>;

/// A string with one trailing newline removed, when it ends in one.
pub open spec fn strip_trailing_newline(s: Seq<char>) -> Seq<char> {
    if s.len() > 0 && s.last() == '\n' {
        s.subrange(0, s.len() - 1)
    } else {
        s
    }
}

/// What `serde_yaml::from_str::<Value>` returns on a text: the content of
/// the decoded document, or the error's displayed message.
pub uninterp spec fn doc_of(s: Seq<char>) -> Result<RawView, Seq<char>>;

/// Read a document into the outside crate's value tree.
///
/// Relies on `serde_yaml::from_str::<Value>`: it decodes any well-formed
/// document and fails with a displayable message otherwise; the result is a
/// function of the text alone, which [`doc_of`] names.
#[verifier::external_body]
fn parse_yaml(s: &str) -> (r: Result<serde_yaml::Value, String>)
    ensures
        match r {
            Ok(v) => doc_of(s@) == Ok::<_, Seq<char>>(yaml_node(v)),
            Err(m) => doc_of(s@) == Err::<RawView, _>(m@),
        },
{
    match serde_yaml::from_str::<serde_yaml::Value>(s) {
        Ok(v) => Ok(v),
        Err(e) => Err(e.to_string()),
    }
}

/// Relies on `serde_yaml::Value::is_null`: whether the node is the null
/// scalar.
#[verifier::external_body]
fn yaml_is_null(v: &serde_yaml::Value) -> (r: bool)
    ensures
        r == (yaml_node(*v) is Null),
{
    v.is_null()
}

/// Relies on `serde_yaml::Value::as_bool`: the node's boolean, when it is
/// one.
#[verifier::external_body]
fn yaml_as_bool(v: &serde_yaml::Value) -> (r: Option<bool>)
    ensures
        match r {
            Some(b) => yaml_node(*v) == RawView::Bool(b),
            None => !(yaml_node(*v) is Bool),
        },
{
    v.as_bool()
}

/// Relies on `serde_yaml::Value::as_i64`: the node's integer, when it is a
/// number that fits; a number that does not fit is no `Int` node (its raw
/// text is kept as `Scalar` instead).
#[verifier::external_body]
fn yaml_as_i64(v: &serde_yaml::Value) -> (r: Option<i64>)
    ensures
        match r {
            Some(i) => yaml_node(*v) == RawView::Int(i),
            None => !(yaml_node(*v) is Int),
        },
{
    v.as_i64()
}

/// Relies on `serde_yaml::Value::as_str`: the node's string, when it is one.
#[verifier::external_body]
fn yaml_as_str(v: &serde_yaml::Value) -> (r: Option<String>)
    ensures
        match r {
            Some(s) => yaml_node(*v) == RawView::Str(s@),
            None => !(yaml_node(*v) is Str),
        },
{
    match v.as_str() {
        Some(s) => Some(s.to_string()),
        None => None,
    }
}

/// Relies on `serde_yaml::Value::as_sequence`: the node's items in document
/// order, when it is a sequence.
#[verifier::external_body]
fn yaml_as_sequence(v: &serde_yaml::Value) -> (r: Option<Vec<serde_yaml::Value>>)
    ensures
        match r {
            Some(items) => yaml_node(*v) matches RawView::List(l) && l.len() == items@.len()
                && forall|i: int| 0 <= i < l.len() ==> l[i] == yaml_node(#[trigger] items@[i]),
            None => !(yaml_node(*v) is List),
        },
{
    match v.as_sequence() {
        Some(s) => Some(s.clone()),
        None => None,
    }
}

/// Relies on `serde_yaml::Value::as_mapping`: the node's entries in document
/// order, when it is a mapping.  A key that is a string appears in the
/// node's content as its characters; of other keys the content says nothing.
#[verifier::external_body]
fn yaml_as_mapping(v: &serde_yaml::Value) -> (r: Option<
    Vec<(serde_yaml::Value, serde_yaml::Value)>,
>)
    ensures
        match r {
            Some(es) => yaml_node(*v) matches RawView::Mapping(m) && m.len() == es@.len()
                && forall|i: int|
                0 <= i < m.len() ==> (#[trigger] m[i]).1 == yaml_node(es@[i].1) && (yaml_node(
                    es@[i].0,
                ) matches RawView::Str(k) ==> m[i].0 == k),
            None => !(yaml_node(*v) is Mapping),
        },
{
    match v.as_mapping() {
        Some(m) => Some(m.iter().map(|(k, val)| (k.clone(), val.clone())).collect()),
        None => None,
    }
}

/// Relies on `serde_yaml::to_string`: the serialized text of a node — the
/// text that [`scalar_text`] names; a scalar of no other kind has that text,
/// minus its trailing newline, as its content.
#[verifier::external_body]
fn yaml_scalar_string(v: &serde_yaml::Value) -> (r: Option<String>)
    ensures
        match r {
            Some(s) => s@ == scalar_text(*v) && (yaml_node(*v) matches RawView::Scalar(t) ==> t
                == strip_trailing_newline(s@)),
            None => true,
        },
{
    match serde_yaml::to_string(v) {
        Ok(s) => Some(s),
        Err(_) => None,
    }
}

/// The deepest nesting the converter follows.
pub const MAX_YAML_DEPTH: u32 = 128;

/// Convert one outside node into the crate's own tree, to the given depth.
/// The node's kind is probed in a fixed order: null, boolean, integer,
/// string, sequence, mapping; any other scalar keeps its raw text; a mapping
/// key that is not a string is an error, as is a document nested too deeply.
/// A converted tree's view is exactly the node's content.
fn raw_from_yaml(v: &serde_yaml::Value, depth: u32) -> (r: Result<RawValue, DockerError>)
    ensures
        match r {
            Ok(rv) => rv@ == yaml_node(*v),
            Err(e) => e is YamlError && (e.text() == "structure nested too deeply"@ || e.text()
                == "mapping key must be a string"@ || e.text() == "unsupported document value"@),
        },
    decreases depth,
{
    if depth == 0 {
        let mut msg = String::new();
        msg.append("structure nested too deeply");
        proof {
            reveal_strlit("structure nested too deeply");
            reveal_strlit("");
            assert(msg@ =~= "structure nested too deeply"@);
        }
        return Err(DockerError::YamlError(msg));
    }
    if yaml_is_null(v) {
        return Ok(RawValue::Null);
    }
    match yaml_as_bool(v) {
        Some(b) => {
            return Ok(RawValue::Bool(b));
        },
        None => {},
    }
    match yaml_as_i64(v) {
        Some(i) => {
            return Ok(RawValue::Int(i));
        },
        None => {},
    }
    match yaml_as_str(v) {
        Some(s) => {
            return Ok(RawValue::Str(s));
        },
        None => {},
    }
    match yaml_as_sequence(v) {
        Some(items) => {
            let ghost l = yaml_node(*v)->List_0;
            let mut out: Vec<RawValue> = Vec::new();
            let n = items.len();
            let mut i: usize = 0;
            while i < n
                invariant
                    i <= n,
                    n == items@.len(),
                    depth >= 1,
                    yaml_node(*v) matches RawView::List(ll) && ll == l,
                    l.len() == n,
                    forall|j: int| 0 <= j < l.len() ==> l[j] == yaml_node(#[trigger] items@[j]),
                    out@.len() == i,
                    forall|j: int| 0 <= j < i ==> raw_view(#[trigger] out@[j]) == l[j],
                decreases n - i,
            {
                match raw_from_yaml(&items[i], depth - 1) {
                    Ok(item) => {
                        out.push(item);
                    },
                    Err(e) => {
                        return Err(e);
                    },
                }
                i = i + 1;
            }
            let result = RawValue::List(out);
            proof {
                assert(raw_view(result)->List_0 =~= l);
            }
            return Ok(result);
        },
        None => {},
    }
    match yaml_as_mapping(v) {
        Some(entries) => {
            let ghost m = yaml_node(*v)->Mapping_0;
            let mut out: Vec<(String, RawValue)> = Vec::new();
            let n = entries.len();
            let mut i: usize = 0;
            while i < n
                invariant
                    i <= n,
                    n == entries@.len(),
                    depth >= 1,
                    yaml_node(*v) matches RawView::Mapping(mm) && mm == m,
                    m.len() == n,
                    forall|j: int|
                        0 <= j < m.len() ==> (#[trigger] m[j]).1 == yaml_node(entries@[j].1) && (
                        yaml_node(entries@[j].0) matches RawView::Str(k) ==> m[j].0 == k),
                    out@.len() == i,
                    forall|j: int|
                        0 <= j < i ==> ((#[trigger] out@[j]).0@, raw_view(out@[j].1)) == m[j],
                decreases n - i,
            {
                let key = match yaml_as_str(&entries[i].0) {
                    Some(k) => k,
                    None => {
                        let mut msg = String::new();
                        msg.append("mapping key must be a string");
                        proof {
                            reveal_strlit("mapping key must be a string");
                            reveal_strlit("");
                            assert(msg@ =~= "mapping key must be a string"@);
                        }
                        return Err(DockerError::YamlError(msg));
                    },
                };
                match raw_from_yaml(&entries[i].1, depth - 1) {
                    Ok(item) => {
                        out.push((key, item));
                    },
                    Err(e) => {
                        return Err(e);
                    },
                }
                i = i + 1;
            }
            let result = RawValue::Mapping(out);
            proof {
                assert(raw_view(result)->Mapping_0 =~= m);
            }
            return Ok(result);
        },
        None => {},
    }
    match yaml_scalar_string(v) {
        Some(s) => {
            proof {
                assert(yaml_node(*v) is Scalar);
            }
            let cs = chars_of(s.as_str());
            let stripped = if cs.len() > 0 && cs[cs.len() - 1] == '\n' {
                subvec(&cs, 0, cs.len() - 1)
            } else {
                subvec(&cs, 0, cs.len())
            };
            proof {
                assert(stripped@ =~= strip_trailing_newline(s@));
            }
            Ok(RawValue::Scalar(string_of(&stripped)))
        },
        None => {
            let mut msg = String::new();
            msg.append("unsupported document value");
            proof {
                reveal_strlit("unsupported document value");
                reveal_strlit("");
                assert(msg@ =~= "unsupported document value"@);
            }
            Err(DockerError::YamlError(msg))
        },
    }
}

/// Read manifest text into the crate's own structural tree.  On success the
/// tree's view is exactly the named decode of the text; a structurally
/// malformed document is an error carrying the reader's message, and a
/// decodable one can fail only with one of the converter's three messages.
pub fn parse_raw(content: &str) -> (r: Result<RawValue, DockerError>)
    ensures
        match r {
            Ok(rv) => doc_of(content@) matches Ok(node) && rv@ == node,
            Err(e) => e is YamlError && (match doc_of(content@) {
                Err(m) => e.text() == m,
                Ok(_) => e.text() == "structure nested too deeply"@ || e.text()
                    == "mapping key must be a string"@ || e.text()
                    == "unsupported document value"@,
            }),
        },
{
    match parse_yaml(content) {
        Ok(v) => raw_from_yaml(&v, MAX_YAML_DEPTH),
        Err(m) => Err(DockerError::YamlError(m)),
    }
}

/// The value of the first entry with the given key, if any.
pub open spec fn raw_get(entries: Seq<(Seq<char>, RawView)>, key: Seq<char>) -> Option<RawView>
    decreases entries.len(),
{
    if entries.len() == 0 {
        None
    } else if entries[0].0 == key {
        Some(entries[0].1)
    } else {
        raw_get(entries.subrange(1, entries.len() as int), key)
    }
}

/// Executable lookup matching [`raw_get`].
pub fn raw_get_exec<'a>(entries: &'a Vec<(String, RawValue)>, key: &str) -> (r: Option<
    &'a RawValue,
>)
    ensures
        ({
            let entries_view = entries@.map_values(|e: (String, RawValue)| (e.0@, raw_view(e.1)));
            match r {
                Some(v) => raw_get(entries_view, key@) == Some(raw_view(*v)),
                None => raw_get(entries_view, key@) is None,
            }
        }),
{
    let ghost entries_view = entries@.map_values(|e: (String, RawValue)| (e.0@, raw_view(e.1)));
    let n = entries.len();
    let mut i: usize = 0;
    proof {
        assert(entries_view.subrange(0, n as int) =~= entries_view);
    }
    while i < n
        invariant
            i <= n,
            n == entries@.len(),
            entries_view == entries@.map_values(|e: (String, RawValue)| (e.0@, raw_view(e.1))),
            raw_get(entries_view, key@) == raw_get(
                entries_view.subrange(i as int, n as int),
                key@,
            ),
        decreases n - i,
    {
        proof {
            assert(entries_view[i as int] == (entries@[i as int].0@, raw_view(entries@[i as int].1)));
            assert(entries_view.subrange(i as int, n as int)[0] == entries_view[i as int]);
            assert(entries_view.subrange(i as int, n as int).subrange(
                1,
                entries_view.subrange(i as int, n as int).len() as int,
            ) =~= entries_view.subrange(i + 1, n as int));
        }
        if crate::config::env_vars::str_eq(entries[i].0.as_str(), key) {
            return Some(&entries[i].1);
        }
        i = i + 1;
    }
    proof {
        assert(entries_view.subrange(n as int, n as int) =~= Seq::<(Seq<char>, RawView)>::empty());
    }
    None
}

} // verus!
