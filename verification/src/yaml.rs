//! A plain-value model of a parsed YAML document, and the calls into
//! `serde_yaml` that read and write YAML text.

use vstd::prelude::*;

use serde_yaml::value::{Tag, TaggedValue};
use serde_yaml::Value;

use crate::text::str_eq;

verus! {

/// A YAML tag such as `!reference`, with its leading `!`; never empty.
pub struct YamlTag {
    text: String,
}

impl YamlTag {
    #[verifier::type_invariant]
    spec fn tag_inv(self) -> bool {
        self.text@.len() > 0
    }

    /// The tag's text.
    pub closed spec fn spec_text(self) -> Seq<char> {
        self.text@
    }

    /// Builds a tag from its text; `None` for the empty text, which YAML
    /// does not allow as a tag.
    pub fn new(text: String) -> (r: Option<YamlTag>)
        ensures
            r is Some <==> text@.len() > 0,
            r matches Some(t) ==> t.spec_text() == text@,
    {
        if text.as_str().unicode_len() == 0 {
            None
        } else {
            Some(YamlTag { text })
        }
    }

    /// The tag's text.
    pub fn text(&self) -> (r: &String)
        ensures
            r@ == self.spec_text(),
            r@.len() > 0,
    {
        proof {
            use_type_invariant(self);
        }
        &self.text
    }
}

/// One YAML value, as `serde_yaml::Value` holds it: a number is kept as
/// its decimal text, a mapping as its entries in document order.
pub enum YamlNode {
    Null,
    Bool(bool),
    Number(String),
    Str(String),
    Sequence(Vec<YamlNode>),
    Mapping(Vec<(YamlNode, YamlNode)>),
    Tagged(YamlTag, Box<YamlNode>),
}

/// The first value in `entries` whose key is the plain string `key`.
pub open spec fn lookup_entry(entries: Seq<(YamlNode, YamlNode)>, key: Seq<char>) -> Option<YamlNode>
    decreases entries.len(),
{
    if entries.len() == 0 {
        None
    } else {
        match lookup_entry(entries.drop_last(), key) {
            Some(v) => Some(v),
            None => if is_key(entries.last().0, key) {
                Some(entries.last().1)
            } else {
                None
            },
        }
    }
}

/// `node` is the (untagged) string `key`.
pub open spec fn is_key(node: YamlNode, key: Seq<char>) -> bool {
    node matches YamlNode::Str(s) && s@ == key
}

impl YamlNode {
    /// The node with every tag around it removed.
    pub open spec fn untagged(self) -> YamlNode
        decreases self,
    {
        match self {
            YamlNode::Tagged(_, inner) => inner.untagged(),
            _ => self,
        }
    }

    /// The string the node holds, once untagged.
    pub open spec fn str_of(self) -> Option<Seq<char>> {
        match self.untagged() {
            YamlNode::Str(s) => Some(s@),
            _ => None,
        }
    }

    /// The boolean the node holds, once untagged.
    pub open spec fn bool_of(self) -> Option<bool> {
        match self.untagged() {
            YamlNode::Bool(b) => Some(b),
            _ => None,
        }
    }

    /// The items of the sequence the node holds, once untagged.
    pub open spec fn items_of(self) -> Option<Seq<YamlNode>> {
        match self.untagged() {
            YamlNode::Sequence(items) => Some(items@),
            _ => None,
        }
    }

    /// The entries of the mapping the node holds, once untagged.
    pub open spec fn entries_of(self) -> Option<Seq<(YamlNode, YamlNode)>> {
        match self.untagged() {
            YamlNode::Mapping(entries) => Some(entries@),
            _ => None,
        }
    }

    /// The value under the string key `key` of the mapping the node holds.
    pub open spec fn get_spec(self, key: Seq<char>) -> Option<YamlNode> {
        match self.entries_of() {
            Some(entries) => lookup_entry(entries, key),
            None => None,
        }
    }

    /// Removes every tag around the node.
    pub fn untag(&self) -> (r: &YamlNode)
        ensures
            *r == self.untagged(),
        decreases self,
    {
        match self {
            YamlNode::Tagged(_, inner) => inner.untag(),
            _ => self,
        }
    }

    /// The string the node holds, once untagged.
    pub fn as_str(&self) -> (r: Option<&String>)
        ensures
            r is Some <==> self.str_of() is Some,
            r matches Some(s) ==> self.str_of() == Some(s@),
    {
        match self.untag() {
            YamlNode::Str(s) => Some(s),
            _ => None,
        }
    }

    /// The boolean the node holds, once untagged.
    pub fn as_bool(&self) -> (r: Option<bool>)
        ensures
            r == self.bool_of(),
    {
        match self.untag() {
            YamlNode::Bool(b) => Some(*b),
            _ => None,
        }
    }

    /// The items of the sequence the node holds, once untagged.
    pub fn as_sequence(&self) -> (r: Option<&Vec<YamlNode>>)
        ensures
            r is Some <==> self.items_of() is Some,
            r matches Some(items) ==> self.items_of() == Some(items@),
    {
        match self.untag() {
            YamlNode::Sequence(items) => Some(items),
            _ => None,
        }
    }

    /// The entries of the mapping the node holds, once untagged.
    pub fn as_mapping(&self) -> (r: Option<&Vec<(YamlNode, YamlNode)>>)
        ensures
            r is Some <==> self.entries_of() is Some,
            r matches Some(entries) ==> self.entries_of() == Some(entries@),
    {
        match self.untag() {
            YamlNode::Mapping(entries) => Some(entries),
            _ => None,
        }
    }

    /// The value under the string key `key`, when the node is a mapping.
    pub fn get(&self, key: &str) -> (r: Option<&YamlNode>)
        ensures
            r is Some <==> self.get_spec(key@) is Some,
            r matches Some(v) ==> self.get_spec(key@) == Some(*v),
    {
        match self.as_mapping() {
            Some(entries) => lookup(entries, key),
            None => None,
        }
    }
}

/// The first value in `entries` whose key is the plain string `key`.
pub fn lookup<'a>(entries: &'a Vec<(YamlNode, YamlNode)>, key: &str) -> (r: Option<&'a YamlNode>)
    ensures
        r is Some <==> lookup_entry(entries@, key@) is Some,
        r matches Some(v) ==> lookup_entry(entries@, key@) == Some(*v),
{
    let n = entries.len();
    let mut i: usize = 0;
    while i < n
        invariant
            n == entries@.len(),
            i <= n,
            lookup_entry(entries@.take(i as int), key@) is None,
        decreases n - i,
    {
        proof {
            assert(entries@.take(i + 1).drop_last() =~= entries@.take(i as int));
        }
        let hit = match &entries[i].0 {
            YamlNode::Str(k) => str_eq(k.as_str(), key),
            _ => false,
        };
        if hit {
            proof {
                lemma_lookup_prefix(entries@, key@, i as int + 1);
            }
            return Some(&entries[i].1);
        }
        i = i + 1;
    }
    proof {
        assert(entries@.take(n as int) =~= entries@);
    }
    None
}

/// A hit in a prefix is the hit of the whole sequence.
proof fn lemma_lookup_prefix(entries: Seq<(YamlNode, YamlNode)>, key: Seq<char>, k: int)
    requires
        0 <= k <= entries.len(),
        lookup_entry(entries.take(k), key) is Some,
    ensures
        lookup_entry(entries, key) == lookup_entry(entries.take(k), key),
    decreases entries.len() - k,
{
    if k < entries.len() {
        assert(entries.take(k + 1).drop_last() =~= entries.take(k));
        lemma_lookup_prefix(entries, key, k + 1);
    } else {
        assert(entries.take(k) =~= entries);
    }
}


/// `serde_yaml::Value`, the document tree that `serde_yaml` parses into and
/// writes out; only the conversions below look inside it.
#[verifier::external_type_specification]
#[verifier::external_body]
pub struct ExYamlValue(Value);

/// The document that `serde_yaml::from_str` reads from `text`, or `None`
/// where it refuses the text.
pub uninterp spec fn yaml_document(text: Seq<char>) -> Option<YamlNode>;

/// The `Display` text of the error that `serde_yaml::from_str` gives for
/// `text`, where it refuses the text.
pub uninterp spec fn yaml_error_message(text: Seq<char>) -> Seq<char>;

/// The text that `serde_yaml::to_string` writes for `node`, or `None`
/// where it fails.
pub uninterp spec fn yaml_emitted(node: YamlNode) -> Option<Seq<char>>;

/// Converts a `serde_yaml::Value` into a `YamlNode`, variant for variant;
/// a number becomes its `Display` text and a tag its `Display` text, which
/// starts with `!`. Nothing is stated of the result.
#[verifier::external_body]
fn node_from_value(v: Value) -> YamlNode {
    match v {
        Value::Null => YamlNode::Null,
        Value::Bool(b) => YamlNode::Bool(b),
        Value::Number(n) => YamlNode::Number(n.to_string()),
        Value::String(s) => YamlNode::Str(s),
        Value::Sequence(items) => YamlNode::Sequence(items.into_iter().map(node_from_value).collect()),
        Value::Mapping(m) => YamlNode::Mapping(m.into_iter().map(|(k, v)| (node_from_value(k), node_from_value(v))).collect()),
        Value::Tagged(t) => YamlNode::Tagged(YamlTag { text: t.tag.to_string() }, Box::new(node_from_value(t.value))),
    }
}

/// Converts a `YamlNode` back into a `serde_yaml::Value`, variant for
/// variant; a number's text is read back with `serde_yaml::Number`'s
/// `FromStr`, and `None` comes back where that refuses it. Nothing is
/// stated of the result.
#[verifier::external_body]
fn value_from_node(node: &YamlNode) -> Option<Value> {
    Some(match node {
        YamlNode::Null => Value::Null,
        YamlNode::Bool(b) => Value::Bool(*b),
        YamlNode::Number(t) => Value::Number(t.parse().ok()?),
        YamlNode::Str(s) => Value::String(s.clone()),
        YamlNode::Sequence(items) => Value::Sequence(items.iter().map(value_from_node).collect::<Option<_>>()?),
        YamlNode::Mapping(es) => Value::Mapping(es.iter().map(|(k, v)| value_from_node(k).zip(value_from_node(v))).collect::<Option<_>>()?),
        YamlNode::Tagged(t, inner) => Value::Tagged(Box::new(TaggedValue { tag: Tag::new(&t.text), value: value_from_node(inner)? })),
    })
}

/// Calls `serde_yaml::from_str` for a `serde_yaml::Value` and converts the
/// document, or the error into its `Display` text; the contract claims that
/// the outcome is a function of `text` alone, named `yaml_document` and
/// `yaml_error_message`.
#[verifier::external_body]
pub(crate) fn parse_yaml(text: &str) -> (r: Result<YamlNode, String>)
    ensures
        match r {
            Ok(doc) => yaml_document(text@) == Some(doc),
            Err(m) => yaml_document(text@) is None && m@ == yaml_error_message(text@),
        },
{
    serde_yaml::from_str::<Value>(text).map(node_from_value).map_err(|e| e.to_string())
}

/// Calls `serde_yaml::to_string` on `node`, converted back; the contract
/// claims that the outcome is a function of `node` alone, named
/// `yaml_emitted`.
#[verifier::external_body]
pub(crate) fn emit_yaml(node: &YamlNode) -> (r: Option<String>)
    ensures
        match r {
            Some(s) => yaml_emitted(*node) == Some(s@),
            None => yaml_emitted(*node) is None,
        },
{
    match value_from_node(node) {
        Some(v) => serde_yaml::to_string(&v).ok(),
        None => None,
    }
}


/// Reads a YAML document; `None` where the text is not valid YAML.
pub fn parse_document(text: &str) -> (r: Option<YamlNode>)
    ensures
        r == yaml_document(text@),
{
    match parse_yaml(text) {
        Ok(doc) => Some(doc),
        Err(_) => None,
    }
}

} // verus!
