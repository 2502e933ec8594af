//! A license template of the catalogue: its display name and the file, under
//! the licenses directory, that holds its text.
use vstd::prelude::*;
use yaml_rust2::Yaml;
use crate::yaml::{
    entries_get, hash_get, lemma_string_mapping_str_at, read_string_pair, string_mapping,
    string_pair_mapping, yaml_as_hash, yaml_as_str, yaml_from_string, yaml_node, yaml_str_at,
    YamlNode,
};

verus! {

#[derive(Debug, Clone)]
pub struct Template {
    pub name: String,
    pub filename: String,
}

/// The value of a `Template`.
pub struct TemplateView {
    pub name: Seq<char>,
    pub filename: Seq<char>,
}

impl View for Template {
    type V = TemplateView;

    open spec fn view(&self) -> TemplateView {
        TemplateView { name: self.name@, filename: self.filename@ }
    }
}

/// The two entries of a template's mapping, in the order they are written.
pub open spec fn template_pairs(t: TemplateView) -> Seq<(Seq<char>, Seq<char>)> {
    seq![("name"@, t.name), ("filename"@, t.filename)]
}

/// The YAML form of `t`: the mapping `{name: .., filename: ..}`.
pub open spec fn template_node(t: TemplateView) -> YamlNode {
    string_mapping(template_pairs(t))
}

/// The template that a YAML node describes: `Some` exactly when its `name`
/// and `filename` entries are both strings.
pub open spec fn template_of_node(n: YamlNode) -> Option<TemplateView> {
    match (yaml_str_at(n, "name"@), yaml_str_at(n, "filename"@)) {
        (Some(name), Some(filename)) => Some(TemplateView { name, filename }),
        _ => None,
    }
}

/// The template that the conversion from a YAML hash reads: the node must
/// be a mapping, and the values under the keys `name` and `filename` must be
/// strings.
pub open spec fn template_of_hash(n: YamlNode) -> Option<TemplateView> {
    match n {
        YamlNode::Mapping(e) => match (
            entries_get(e, YamlNode::Str("name"@)),
            entries_get(e, YamlNode::Str("filename"@)),
        ) {
            (Some(YamlNode::Str(name)), Some(YamlNode::Str(filename))) => Some(
                TemplateView { name, filename },
            ),
            _ => None,
        },
        _ => None,
    }
}

impl Template {
    /// The YAML mapping `{name: .., filename: ..}` of this template.
    pub fn to_yml(&self) -> (r: Yaml)
        ensures
            yaml_node(r) == template_node(self@),
    {
        proof {
            reveal_strlit("name");
            reveal_strlit("filename");
            assert("name"@.len() != "filename"@.len());
        }
        string_pair_mapping("name", self.name.clone(), "filename", self.filename.clone())
    }

    /// Reads a template from a mapping whose `name` and `filename` entries
    /// are strings.
    pub fn from_yml(yml: &Yaml) -> (r: Template)
        requires
            template_of_node(yaml_node(*yml)) is Some,
        ensures
            template_of_node(yaml_node(*yml)) == Some(r@),
    {
        Self::try_from_yml(yml).unwrap()
    }

    /// Reads a template from a YAML node; `None` where `from_yml` has no
    /// template to give (an entry is missing or is no string).
    pub fn try_from_yml(yml: &Yaml) -> (r: Option<Template>)
        ensures
            match r {
                Some(t) => template_of_node(yaml_node(*yml)) == Some(t@),
                None => template_of_node(yaml_node(*yml)) is None,
            },
    {
        match read_string_pair(yml, "name", "filename") {
            Some((name, filename)) => Some(Template { name, filename }),
            None => None,
        }
    }

    /// Reads a template the way the conversion from a YAML hash does: the
    /// node must be a mapping, and its `name` and `filename` keys must hold
    /// strings; `None` otherwise.
    pub fn from_yaml_hash(yaml: &Yaml) -> (r: Option<Template>)
        ensures
            match r {
                Some(t) => template_of_hash(yaml_node(*yaml)) == Some(t@),
                None => template_of_hash(yaml_node(*yaml)) is None,
            },
    {
        let hash = match yaml_as_hash(yaml) {
            Some(h) => h,
            None => return None,
        };
        let name_key = yaml_from_string("name".to_owned());
        let filename_key = yaml_from_string("filename".to_owned());
        let name = match hash_get(hash, &name_key) {
            Some(v) => match yaml_as_str(v) {
                Some(s) => s.to_owned(),
                None => return None,
            },
            None => return None,
        };
        let filename = match hash_get(hash, &filename_key) {
            Some(v) => match yaml_as_str(v) {
                Some(s) => s.to_owned(),
                None => return None,
            },
            None => return None,
        };
        Some(Template { name, filename })
    }
}

impl From<Template> for Yaml {
    /// The YAML form of a template, as `Template::to_yml` writes it.
    fn from(template: Template) -> (r: Yaml)
        ensures
            yaml_node(r) == template_node(template@),
    {
        template.to_yml()
    }
}

/// The result of the conversion is known by its content (see `from` above):
/// two mappings with the same entries may still differ in their hashers, so
/// it is tied to no single spec value.
impl vstd::std_specs::convert::FromSpecImpl<Template> for Yaml {
    open spec fn obeys_from_spec() -> bool {
        false
    }

    open spec fn from_spec(v: Template) -> Yaml {
        arbitrary()
    }
}

/// The conversion from a YAML hash and `from_yml` read the same template
/// from every node, and fail on the same nodes.
pub proof fn lemma_hash_conversion_agrees(n: YamlNode)
    ensures
        template_of_hash(n) == template_of_node(n),
{
}

/// Reading back what `to_yml` writes gives the same template.
pub proof fn lemma_template_round_trip(t: TemplateView)
    ensures
        template_of_node(template_node(t)) == Some(t),
{
    reveal_strlit("name");
    reveal_strlit("filename");
    let pairs = template_pairs(t);
    assert("name"@.len() != "filename"@.len());
    assert(pairs[0].0 != pairs[1].0);
    lemma_string_mapping_str_at(pairs, 0);
    lemma_string_mapping_str_at(pairs, 1);
}

/// The YAML form of a template is the mapping whose first entry is the key
/// `name` with the template's name, and whose second entry is the key
/// `filename` with its file name.
pub proof fn lemma_template_node_form(t: TemplateView)
    ensures
        template_node(t) == YamlNode::Mapping(
            seq![
                (YamlNode::Str("name"@), YamlNode::Str(t.name)),
                (YamlNode::Str("filename"@), YamlNode::Str(t.filename)),
            ],
        ),
{
    let pairs = template_pairs(t);
    let e = pairs.map_values(|p: (Seq<char>, Seq<char>)| (YamlNode::Str(p.0), YamlNode::Str(p.1)));
    assert(e =~= seq![
        (YamlNode::Str("name"@), YamlNode::Str(t.name)),
        (YamlNode::Str("filename"@), YamlNode::Str(t.filename)),
    ]);
}

/// A node is read as template `t` exactly when its `name` entry is the
/// string `t.name` and its `filename` entry is the string `t.filename`.
pub proof fn lemma_template_reading(n: YamlNode, t: TemplateView)
    ensures
        template_of_node(n) == Some(t) <==> (yaml_str_at(n, "name"@) == Some(t.name) && yaml_str_at(
            n,
            "filename"@,
        ) == Some(t.filename)),
{
}

} // verus!
