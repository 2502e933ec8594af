//! A user variable of the configuration (such as `fullname` or `email`),
//! available to the license templates when they are rendered.
use vstd::prelude::*;
use yaml_rust2::Yaml;
use crate::yaml::{
    lemma_string_mapping_str_at, read_string_pair, string_mapping, string_pair_mapping,
    yaml_node, yaml_str_at, YamlNode,
};

verus! {

#[derive(Debug, Clone)]
pub struct Variable {
    pub key: String,
    pub value: String,
}

/// The value of a `Variable`.
pub struct VariableView {
    pub key: Seq<char>,
    pub value: Seq<char>,
}

impl View for Variable {
    type V = VariableView;

    open spec fn view(&self) -> VariableView {
        VariableView { key: self.key@, value: self.value@ }
    }
}

/// The two entries of a variable's mapping, in the order they are written.
pub open spec fn variable_pairs(v: VariableView) -> Seq<(Seq<char>, Seq<char>)> {
    seq![("key"@, v.key), ("value"@, v.value)]
}

/// The YAML form of `v`: the mapping `{key: .., value: ..}`.
pub open spec fn variable_node(v: VariableView) -> YamlNode {
    string_mapping(variable_pairs(v))
}

/// The variable that a YAML node describes: `Some` exactly when its `key`
/// and `value` entries are both strings.
pub open spec fn variable_of_node(n: YamlNode) -> Option<VariableView> {
    match (yaml_str_at(n, "key"@), yaml_str_at(n, "value"@)) {
        (Some(key), Some(value)) => Some(VariableView { key, value }),
        _ => None,
    }
}

impl Variable {
    /// The YAML mapping `{key: .., value: ..}` of this variable.
    pub fn to_yml(&self) -> (r: Yaml)
        ensures
            yaml_node(r) == variable_node(self@),
    {
        proof {
            reveal_strlit("key");
            reveal_strlit("value");
            assert("key"@.len() != "value"@.len());
        }
        string_pair_mapping("key", self.key.clone(), "value", self.value.clone())
    }

    /// Reads a variable from a mapping whose `key` and `value` entries are
    /// strings.
    pub fn from_yml(yml: &Yaml) -> (r: Variable)
        requires
            variable_of_node(yaml_node(*yml)) is Some,
        ensures
            variable_of_node(yaml_node(*yml)) == Some(r@),
    {
        Self::try_from_yml(yml).unwrap()
    }

    /// Reads a variable from a YAML node; `None` where `from_yml` has no
    /// variable to give (an entry is missing or is no string).
    pub fn try_from_yml(yml: &Yaml) -> (r: Option<Variable>)
        ensures
            match r {
                Some(v) => variable_of_node(yaml_node(*yml)) == Some(v@),
                None => variable_of_node(yaml_node(*yml)) is None,
            },
    {
        match read_string_pair(yml, "key", "value") {
            Some((key, value)) => Some(Variable { key, value }),
            None => None,
        }
    }
}

/// Reading back what `to_yml` writes gives the same variable.
pub proof fn lemma_variable_round_trip(v: VariableView)
    ensures
        variable_of_node(variable_node(v)) == Some(v),
{
    reveal_strlit("key");
    reveal_strlit("value");
    let pairs = variable_pairs(v);
    assert("key"@.len() != "value"@.len());
    assert(pairs[0].0 != pairs[1].0);
    lemma_string_mapping_str_at(pairs, 0);
    lemma_string_mapping_str_at(pairs, 1);
}

/// The YAML form of a variable is the mapping whose first entry is the key
/// `key` with the variable's key, and whose second entry is the key `value`
/// with its value.
pub proof fn lemma_variable_node_form(v: VariableView)
    ensures
        variable_node(v) == YamlNode::Mapping(
            seq![
                (YamlNode::Str("key"@), YamlNode::Str(v.key)),
                (YamlNode::Str("value"@), YamlNode::Str(v.value)),
            ],
        ),
{
    let pairs = variable_pairs(v);
    let e = pairs.map_values(|p: (Seq<char>, Seq<char>)| (YamlNode::Str(p.0), YamlNode::Str(p.1)));
    assert(e =~= seq![
        (YamlNode::Str("key"@), YamlNode::Str(v.key)),
        (YamlNode::Str("value"@), YamlNode::Str(v.value)),
    ]);
}

/// A node is read as variable `v` exactly when its `key` entry is the string
/// `v.key` and its `value` entry is the string `v.value`.
pub proof fn lemma_variable_reading(n: YamlNode, v: VariableView)
    ensures
        variable_of_node(n) == Some(v) <==> (yaml_str_at(n, "key"@) == Some(v.key) && yaml_str_at(
            n,
            "value"@,
        ) == Some(v.value)),
{
}

} // verus!
