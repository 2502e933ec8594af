//! The YAML document model that the configuration files are read from and
//! written to.
//!
//! Documents are `yaml_rust2::Yaml` values.  Verus sees them as opaque; what
//! the library knows of one is its content as a plain value, a `YamlNode`
//! (`yaml_node`), and the wrappers in this file are the only places where
//! the outside crate is called.
use vstd::prelude::*;
use yaml_rust2::{EmitError, ScanError, Yaml, YamlEmitter, YamlLoader};
use hashlink::{DefaultHashBuilder, LinkedHashMap};

verus! {

/// The YAML document type of `yaml_rust2`.
#[verifier::external_type_specification]
#[verifier::external_body]
pub struct ExYaml(Yaml);

/// The ordered hash map that `yaml_rust2` uses for YAML mappings.
#[verifier::external_type_specification]
#[verifier::external_body]
#[verifier::reject_recursive_types(K)]
#[verifier::reject_recursive_types(V)]
#[verifier::reject_recursive_types(S)]
pub struct ExLinkedHashMap<K, V, S>(LinkedHashMap<K, V, S>);

/// The default hasher of `LinkedHashMap`.
#[verifier::external_type_specification]
#[verifier::external_body]
pub struct ExDefaultHashBuilder(DefaultHashBuilder);

/// The error of `YamlLoader::load_from_str`.
#[verifier::external_type_specification]
#[verifier::external_body]
pub struct ExScanError(ScanError);

/// The error of `YamlEmitter::dump`.
#[verifier::external_type_specification]
#[verifier::external_body]
pub struct ExEmitError(EmitError);

/// The content of a YAML node, as far as the configuration reads it.
pub enum YamlNode {
    /// A scalar string (`Yaml::String`).
    Str(Seq<char>),
    /// A sequence (`Yaml::Array`), with the content of its items.
    List(Seq<YamlNode>),
    /// A mapping (`Yaml::Hash`): its (key, value) pairs in the map's order.
    Mapping(Seq<(YamlNode, YamlNode)>),
    /// Any other node: a number, a boolean, null, an alias, or the bad
    /// value that indexing gives for a missing key.
    Other,
}

/// The content of a YAML document.
pub uninterp spec fn yaml_node(y: Yaml) -> YamlNode;

/// The (key, value) pairs that a YAML mapping holds, in its order, by
/// content.
pub uninterp spec fn hash_node_entries(h: LinkedHashMap<Yaml, Yaml>) -> Seq<(YamlNode, YamlNode)>;

/// The content of the documents that `YamlLoader::load_from_str` returns
/// for a text, or `None` where it reports a scan error.
pub uninterp spec fn yaml_docs(text: Seq<char>) -> Option<Seq<YamlNode>>;

/// The text that a `YamlEmitter` writes for a document, with multi-line
/// strings switched on or off, or `None` where `dump` reports an error.
pub uninterp spec fn yaml_text(doc: Yaml, multiline: bool) -> Option<Seq<char>>;

/// The content of each document of a list.
pub open spec fn nodes_of(docs: Seq<Yaml>) -> Seq<YamlNode> {
    docs.map_values(|d: Yaml| yaml_node(d))
}

/// The value stored under key `k` in a list of entries (the last entry with
/// that key; the entries of a map have distinct keys).
pub open spec fn entries_get(e: Seq<(YamlNode, YamlNode)>, k: YamlNode) -> Option<YamlNode>
    decreases e.len(),
{
    if e.len() == 0 {
        None
    } else if e.last().0 == k {
        Some(e.last().1)
    } else {
        entries_get(e.drop_last(), k)
    }
}

/// The entries without those whose key is `k`, in their order.
pub open spec fn entries_remove(e: Seq<(YamlNode, YamlNode)>, k: YamlNode) -> Seq<(YamlNode, YamlNode)>
    decreases e.len(),
{
    if e.len() == 0 {
        e
    } else if e.last().0 == k {
        entries_remove(e.drop_last(), k)
    } else {
        entries_remove(e.drop_last(), k).push(e.last())
    }
}

/// Inserting into a `LinkedHashMap`: the pair goes to the back, and an
/// entry with the same key is taken out first.
pub open spec fn entries_insert(e: Seq<(YamlNode, YamlNode)>, k: YamlNode, v: YamlNode) -> Seq<
    (YamlNode, YamlNode),
> {
    entries_remove(e, k).push((k, v))
}

/// What `y[key]` finds: the value under the string key `key` when the node
/// is a mapping that holds that key.
pub open spec fn yaml_lookup(n: YamlNode, key: Seq<char>) -> Option<YamlNode> {
    match n {
        YamlNode::Mapping(e) => entries_get(e, YamlNode::Str(key)),
        _ => None,
    }
}

/// `y[key].as_str()`.
pub open spec fn yaml_str_at(n: YamlNode, key: Seq<char>) -> Option<Seq<char>> {
    match yaml_lookup(n, key) {
        Some(YamlNode::Str(s)) => Some(s),
        _ => None,
    }
}

/// `y[key].as_vec()`, by content.
pub open spec fn yaml_list_at(n: YamlNode, key: Seq<char>) -> Option<Seq<YamlNode>> {
    match yaml_lookup(n, key) {
        Some(YamlNode::List(items)) => Some(items),
        _ => None,
    }
}

/// The mapping whose entries are, in order, the string keys and string
/// values of `pairs`.
pub open spec fn string_mapping(pairs: Seq<(Seq<char>, Seq<char>)>) -> YamlNode {
    YamlNode::Mapping(
        pairs.map_values(|p: (Seq<char>, Seq<char>)| (YamlNode::Str(p.0), YamlNode::Str(p.1))),
    )
}

/// `Yaml::String(s)`.
#[verifier::external_body]
pub fn yaml_from_string(s: String) -> (y: Yaml)
    ensures
        yaml_node(y) == YamlNode::Str(s@),
{
    Yaml::String(s)
}

/// `Yaml::Array(v)`.
#[verifier::external_body]
pub fn yaml_from_array(v: Vec<Yaml>) -> (y: Yaml)
    ensures
        yaml_node(y) == YamlNode::List(nodes_of(v@)),
{
    Yaml::Array(v)
}

/// `Yaml::Hash(h)`.
#[verifier::external_body]
pub fn yaml_from_hash(h: LinkedHashMap<Yaml, Yaml>) -> (y: Yaml)
    ensures
        yaml_node(y) == YamlNode::Mapping(hash_node_entries(h)),
{
    Yaml::Hash(h)
}

/// `LinkedHashMap::new`: an empty map.
#[verifier::external_body]
pub fn hash_new() -> (h: LinkedHashMap<Yaml, Yaml>)
    ensures
        hash_node_entries(h) == Seq::<(YamlNode, YamlNode)>::empty(),
{
    LinkedHashMap::new()
}

/// `LinkedHashMap::insert` with a string key: the pair goes to the back of
/// the map; an entry with an equal key (a string with the same content) is
/// replaced and moved to the back.
#[verifier::external_body]
pub fn hash_insert(h: &mut LinkedHashMap<Yaml, Yaml>, k: Yaml, v: Yaml)
    requires
        yaml_node(k) is Str,
    ensures
        hash_node_entries(*final(h)) == entries_insert(
            hash_node_entries(*old(h)),
            yaml_node(k),
            yaml_node(v),
        ),
{
    h.insert(k, v);
}

/// `LinkedHashMap::get` with a string key: the value stored under the
/// string with the same content.
#[verifier::external_body]
pub fn hash_get<'a>(h: &'a LinkedHashMap<Yaml, Yaml>, k: &Yaml) -> (r: Option<&'a Yaml>)
    requires
        yaml_node(*k) is Str,
    ensures
        match r {
            Some(v) => entries_get(hash_node_entries(*h), yaml_node(*k)) == Some(yaml_node(*v)),
            None => entries_get(hash_node_entries(*h), yaml_node(*k)) is None,
        },
{
    h.get(k)
}

/// `y[key]`: the value under `Yaml::String(key)` when `y` is a mapping that
/// holds it, else `Yaml::BadValue`.
#[verifier::external_body]
pub fn yaml_index<'a>(y: &'a Yaml, key: &str) -> (r: &'a Yaml)
    ensures
        yaml_node(*r) == match yaml_lookup(yaml_node(*y), key@) {
            Some(v) => v,
            None => YamlNode::Other,
        },
{
    &y[key]
}

/// `Yaml::as_str`.
#[verifier::external_body]
pub fn yaml_as_str<'a>(y: &'a Yaml) -> (r: Option<&'a str>)
    ensures
        match r {
            Some(s) => yaml_node(*y) == YamlNode::Str(s@),
            None => !(yaml_node(*y) is Str),
        },
{
    y.as_str()
}

/// `Yaml::as_vec`.
#[verifier::external_body]
pub fn yaml_as_vec<'a>(y: &'a Yaml) -> (r: Option<&'a Vec<Yaml>>)
    ensures
        match r {
            Some(v) => yaml_node(*y) == YamlNode::List(nodes_of(v@)),
            None => !(yaml_node(*y) is List),
        },
{
    y.as_vec()
}

/// `Yaml::as_hash`.
#[verifier::external_body]
pub fn yaml_as_hash<'a>(y: &'a Yaml) -> (r: Option<&'a LinkedHashMap<Yaml, Yaml>>)
    ensures
        match r {
            Some(h) => yaml_node(*y) == YamlNode::Mapping(hash_node_entries(*h)),
            None => !(yaml_node(*y) is Mapping),
        },
{
    y.as_hash()
}

/// `YamlLoader::load_from_str`: the documents of a text.
#[verifier::external_body]
pub fn yaml_load(text: &str) -> (r: Result<Vec<Yaml>, ScanError>)
    ensures
        match r {
            Ok(docs) => yaml_docs(text@) == Some(nodes_of(docs@)),
            Err(_) => yaml_docs(text@) is None,
        },
{
    YamlLoader::load_from_str(text)
}

/// `YamlEmitter::dump`, on an emitter that writes into a fresh `String` and
/// has multi-line strings set by `multiline`.
#[verifier::external_body]
pub fn yaml_dump(doc: &Yaml, multiline: bool) -> (r: Result<String, EmitError>)
    ensures
        match r {
            Ok(text) => yaml_text(*doc, multiline) == Some(text@),
            Err(_) => yaml_text(*doc, multiline) is None,
        },
{
    let mut out = String::new();
    let mut emitter = YamlEmitter::new(&mut out);
    emitter.multiline_strings(multiline);
    emitter.dump(doc)?;
    Ok(out)
}

/// In a list of entries whose keys differ from `k` but at `j`, the value
/// found under `k` is the one at `j`.
pub proof fn lemma_entries_get_at(e: Seq<(YamlNode, YamlNode)>, k: YamlNode, j: int)
    requires
        0 <= j < e.len(),
        e[j].0 == k,
        forall|i: int| 0 <= i < e.len() && i != j ==> e[i].0 != k,
    ensures
        entries_get(e, k) == Some(e[j].1),
    decreases e.len(),
{
    if j != e.len() - 1 {
        assert(e.last().0 != k);
        let d = e.drop_last();
        assert forall|i: int| 0 <= i < d.len() && i != j implies d[i].0 != k by {
            assert(d[i] == e[i]);
        }
        lemma_entries_get_at(d, k, j);
    }
}

/// In a string mapping with distinct keys, `y[key].as_str()` is the value
/// paired with `key`.
pub proof fn lemma_string_mapping_str_at(pairs: Seq<(Seq<char>, Seq<char>)>, j: int)
    requires
        0 <= j < pairs.len(),
        forall|i: int| 0 <= i < pairs.len() && i != j ==> pairs[i].0 != pairs[j].0,
    ensures
        yaml_str_at(string_mapping(pairs), pairs[j].0) == Some(pairs[j].1),
{
    let e = pairs.map_values(|p: (Seq<char>, Seq<char>)| (YamlNode::Str(p.0), YamlNode::Str(p.1)));
    let k = YamlNode::Str(pairs[j].0);
    assert forall|i: int| 0 <= i < e.len() && i != j implies e[i].0 != k by {
        assert(e[i].0 == YamlNode::Str(pairs[i].0));
    }
    lemma_entries_get_at(e, k, j);
}

/// Builds the mapping `{k1: v1, k2: v2}`, in that order.
pub fn string_pair_mapping(k1: &str, v1: String, k2: &str, v2: String) -> (y: Yaml)
    requires
        k1@ != k2@,
    ensures
        yaml_node(y) == string_mapping(seq![(k1@, v1@), (k2@, v2@)]),
{
    let mut hash = hash_new();
    let key1 = yaml_from_string(k1.to_owned());
    let val1 = yaml_from_string(v1);
    hash_insert(&mut hash, key1, val1);
    let key2 = yaml_from_string(k2.to_owned());
    let val2 = yaml_from_string(v2);
    hash_insert(&mut hash, key2, val2);
    proof {
        let n1 = (yaml_node(key1), yaml_node(val1));
        let e0 = Seq::<(YamlNode, YamlNode)>::empty();
        assert(entries_remove(e0, n1.0) == e0);
        let e1 = e0.push(n1);
        assert(e1.drop_last() == e0);
        assert(entries_remove(e0, yaml_node(key2)) == e0);
        assert(entries_remove(e1, yaml_node(key2)) == e1);
    }
    let y = yaml_from_hash(hash);
    proof {
        let pairs = seq![(k1@, v1@), (k2@, v2@)];
        assert(hash_node_entries(hash) =~= pairs.map_values(
            |p: (Seq<char>, Seq<char>)| (YamlNode::Str(p.0), YamlNode::Str(p.1)),
        ));
    }
    y
}

/// Reads `y[k1].as_str()` and `y[k2].as_str()`; `None` unless both are
/// strings.
pub fn read_string_pair(y: &Yaml, k1: &str, k2: &str) -> (r: Option<(String, String)>)
    ensures
        match r {
            Some(p) => yaml_str_at(yaml_node(*y), k1@) == Some(p.0@) && yaml_str_at(
                yaml_node(*y),
                k2@,
            ) == Some(p.1@),
            None => yaml_str_at(yaml_node(*y), k1@) is None || yaml_str_at(yaml_node(*y), k2@) is None,
        },
{
    let a = yaml_as_str(yaml_index(y, k1));
    let b = yaml_as_str(yaml_index(y, k2));
    match (a, b) {
        (Some(a), Some(b)) => Some((a.to_owned(), b.to_owned())),
        _ => None,
    }
}

} // verus!
