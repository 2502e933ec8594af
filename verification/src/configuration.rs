//! The configuration of the tool: where the license catalogue is downloaded
//! from, the templates of the catalogue, and the user's variables; and its
//! YAML form, as the configuration file holds it.
use vstd::prelude::*;
use yaml_rust2::{EmitError, ScanError, Yaml};
use crate::template::{lemma_template_round_trip, template_node, template_of_node, Template, TemplateView};
use crate::variable::{lemma_variable_round_trip, variable_node, variable_of_node, Variable, VariableView};
use crate::order::{sort_names, sorted, str_equal};
use crate::yaml::{
    entries_insert, entries_remove, hash_insert, hash_node_entries, hash_new, lemma_entries_get_at, nodes_of,
    yaml_as_str, yaml_as_vec, yaml_docs, yaml_dump, yaml_from_array, yaml_from_hash,
    yaml_from_string, yaml_index, yaml_list_at, yaml_load, yaml_node, yaml_str_at, yaml_text,
    YamlNode,
};

verus! {

#[derive(Debug)]
pub struct Configuration {
    pub url: String,
    pub templates: Vec<Template>,
    pub variables: Vec<Variable>,
}

/// The value of a `Configuration`.
pub struct ConfigurationView {
    pub url: Seq<char>,
    pub templates: Seq<TemplateView>,
    pub variables: Seq<VariableView>,
}

impl View for Configuration {
    type V = ConfigurationView;

    open spec fn view(&self) -> ConfigurationView {
        ConfigurationView {
            url: self.url@,
            templates: self.templates@.map_values(|t: Template| t@),
            variables: self.variables@.map_values(|v: Variable| v@),
        }
    }
}

/// Why a configuration could not be read or written.
#[derive(Debug)]
pub enum ConfigError {
    /// The text is no YAML.
    Scan(ScanError),
    /// The text holds no YAML document.
    NoDocument,
    /// The document lacks an entry that the configuration needs, or holds
    /// one of the wrong shape.
    Malformed,
    /// The YAML emitter failed.
    Emit(EmitError),
}

/// Where the license catalogue is downloaded from, unless the configuration
/// says otherwise.
pub open spec fn default_url() -> Seq<char> {
    "https://github.com/atareao/licensor-templates/archive/main.zip"@
}

pub fn get_default_url() -> (r: String)
    ensures
        r@ == default_url(),
{
    "https://github.com/atareao/licensor-templates/archive/main.zip".to_owned()
}

pub fn get_default_templates() -> (r: Vec<Template>)
    ensures
        r@.len() == 0,
{
    Vec::new()
}

pub fn get_default_variables() -> (r: Vec<Variable>)
    ensures
        r@.len() == 0,
{
    Vec::new()
}

/// The YAML form of `c`: the mapping `{url: .., templates: [..],
/// variables: [..]}`, in that order.
pub open spec fn config_node(c: ConfigurationView) -> YamlNode {
    YamlNode::Mapping(
        seq![
            (YamlNode::Str("url"@), YamlNode::Str(c.url)),
            (
                YamlNode::Str("templates"@),
                YamlNode::List(c.templates.map_values(|t: TemplateView| template_node(t))),
            ),
            (
                YamlNode::Str("variables"@),
                YamlNode::List(c.variables.map_values(|v: VariableView| variable_node(v))),
            ),
        ],
    )
}

/// The templates that the items of a YAML sequence describe: `Some` exactly
/// when there is a sequence and every item describes a template.
pub open spec fn templates_of_list(items: Option<Seq<YamlNode>>) -> Option<Seq<TemplateView>> {
    match items {
        Some(s) => if forall|i: int| 0 <= i < s.len() ==> (#[trigger] template_of_node(s[i])) is Some {
            Some(s.map_values(|n: YamlNode| template_of_node(n)->0))
        } else {
            None
        },
        None => None,
    }
}

/// The variables that the items of a YAML sequence describe: `Some` exactly
/// when there is a sequence and every item describes a variable.
pub open spec fn variables_of_list(items: Option<Seq<YamlNode>>) -> Option<Seq<VariableView>> {
    match items {
        Some(s) => if forall|i: int| 0 <= i < s.len() ==> (#[trigger] variable_of_node(s[i])) is Some {
            Some(s.map_values(|n: YamlNode| variable_of_node(n)->0))
        } else {
            None
        },
        None => None,
    }
}

/// The configuration that a YAML document describes.  The url falls back to
/// the default where the document has no string `url`; `templates` and
/// `variables` must be sequences of well-formed items.
pub open spec fn config_of_node(n: YamlNode) -> Option<ConfigurationView> {
    let url = match yaml_str_at(n, "url"@) {
        Some(u) => u,
        None => default_url(),
    };
    match (
        templates_of_list(yaml_list_at(n, "templates"@)),
        variables_of_list(yaml_list_at(n, "variables"@)),
    ) {
        (Some(templates), Some(variables)) => Some(ConfigurationView { url, templates, variables }),
        _ => None,
    }
}

/// The items of a sequence node.
pub open spec fn list_items(n: YamlNode) -> Option<Seq<YamlNode>> {
    match n {
        YamlNode::List(items) => Some(items),
        _ => None,
    }
}

/// Reads a list of templates from the items of a YAML sequence; `None` as
/// soon as one item describes no template.
fn templates_from_items(items: &Vec<Yaml>) -> (r: Option<Vec<Template>>)
    ensures
        match r {
            Some(ts) => templates_of_list(Some(nodes_of(items@))) == Some(ts@.map_values(|t: Template| t@)),
            None => templates_of_list(Some(nodes_of(items@))) is None,
        },
{
    let mut out: Vec<Template> = Vec::new();
    let mut i: usize = 0;
    while i < items.len()
        invariant
            i <= items@.len(),
            out@.len() == i,
            forall|j: int| 0 <= j < i ==> (#[trigger] template_of_node(yaml_node(items@[j]))) == Some(out@[j]@),
        decreases items@.len() - i,
    {
        match Template::try_from_yml(&items[i]) {
            Some(t) => out.push(t),
            None => {
                assert(template_of_node(nodes_of(items@)[i as int]) is None);
                return None;
            },
        }
        i = i + 1;
    }
    let ghost ns = nodes_of(items@);
    assert forall|j: int| 0 <= j < ns.len() implies (#[trigger] template_of_node(ns[j])) is Some by {
        assert(template_of_node(yaml_node(items@[j])) == Some(out@[j]@));
    }
    assert(ns.map_values(|n: YamlNode| template_of_node(n)->0) =~= out@.map_values(|t: Template| t@));
    Some(out)
}

/// Reads a list of variables from the items of a YAML sequence; `None` as
/// soon as one item describes no variable.
fn variables_from_items(items: &Vec<Yaml>) -> (r: Option<Vec<Variable>>)
    ensures
        match r {
            Some(vs) => variables_of_list(Some(nodes_of(items@))) == Some(vs@.map_values(|v: Variable| v@)),
            None => variables_of_list(Some(nodes_of(items@))) is None,
        },
{
    let mut out: Vec<Variable> = Vec::new();
    let mut i: usize = 0;
    while i < items.len()
        invariant
            i <= items@.len(),
            out@.len() == i,
            forall|j: int| 0 <= j < i ==> (#[trigger] variable_of_node(yaml_node(items@[j]))) == Some(out@[j]@),
        decreases items@.len() - i,
    {
        match Variable::try_from_yml(&items[i]) {
            Some(v) => out.push(v),
            None => {
                assert(variable_of_node(nodes_of(items@)[i as int]) is None);
                return None;
            },
        }
        i = i + 1;
    }
    let ghost ns = nodes_of(items@);
    assert forall|j: int| 0 <= j < ns.len() implies (#[trigger] variable_of_node(ns[j])) is Some by {
        assert(variable_of_node(yaml_node(items@[j])) == Some(out@[j]@));
    }
    assert(ns.map_values(|n: YamlNode| variable_of_node(n)->0) =~= out@.map_values(|v: Variable| v@));
    Some(out)
}

/// The templates of `ts` whose name is `name`, in their order.
pub open spec fn templates_with_name(ts: Seq<TemplateView>, name: Seq<char>) -> Seq<TemplateView>
    decreases ts.len(),
{
    if ts.len() == 0 {
        Seq::empty()
    } else if ts.last().name == name {
        templates_with_name(ts.drop_last(), name).push(ts.last())
    } else {
        templates_with_name(ts.drop_last(), name)
    }
}

/// The names of the templates, as strings.
pub open spec fn template_name_strings(ts: Seq<Template>) -> Seq<String> {
    ts.map_values(|t: Template| t.name)
}

impl Configuration {
    /// The names of the templates, in order, to choose a license from.
    pub fn template_names(&self) -> (r: Vec<String>)
        ensures
            sorted(r@),
            r@.to_multiset() == template_name_strings(self.templates@).to_multiset(),
    {
        let mut names: Vec<String> = Vec::new();
        let mut i: usize = 0;
        while i < self.templates.len()
            invariant
                i <= self.templates@.len(),
                names@ == template_name_strings(self.templates@).take(i as int),
            decreases self.templates@.len() - i,
        {
            names.push(self.templates[i].name.clone());
            proof {
                assert(template_name_strings(self.templates@).take(i + 1) =~= template_name_strings(
                    self.templates@,
                ).take(i as int).push(self.templates@[i as int].name));
            }
            i = i + 1;
        }
        proof {
            assert(template_name_strings(self.templates@).take(self.templates@.len() as int)
                =~= template_name_strings(self.templates@));
        }
        sort_names(names)
    }

    /// The templates whose name is `name`, in their order: those that are
    /// rendered when `name` is chosen.
    pub fn templates_named(&self, name: &str) -> (r: Vec<Template>)
        ensures
            r@.map_values(|t: Template| t@) == templates_with_name(self@.templates, name@),
    {
        let ghost ts = self@.templates;
        let mut out: Vec<Template> = Vec::new();
        let mut i: usize = 0;
        while i < self.templates.len()
            invariant
                i <= self.templates@.len(),
                ts == self@.templates,
                out@.map_values(|t: Template| t@) == templates_with_name(ts.take(i as int), name@),
            decreases self.templates@.len() - i,
        {
            let t = &self.templates[i];
            proof {
                assert(ts.take(i + 1).drop_last() =~= ts.take(i as int));
                assert(ts.take(i + 1).last() == t@);
            }
            if str_equal(t.name.as_str(), name) {
                let ghost before = out@;
                out.push(Template { name: t.name.clone(), filename: t.filename.clone() });
                proof {
                    assert(out@.map_values(|t: Template| t@) =~= before.map_values(|t: Template| t@).push(
                        self.templates@[i as int]@,
                    ));
                }
            }
            i = i + 1;
        }
        proof {
            assert(ts.take(self.templates@.len() as int) =~= ts);
        }
        out
    }

    /// The YAML mapping `{url: .., templates: [..], variables: [..]}` of this
    /// configuration.
    pub fn to_yml(&self) -> (r: Yaml)
        ensures
            yaml_node(r) == config_node(self@),
    {
        let mut templates: Vec<Yaml> = Vec::new();
        let mut i: usize = 0;
        while i < self.templates.len()
            invariant
                i <= self.templates@.len(),
                templates@.len() == i,
                forall|j: int| 0 <= j < i ==> yaml_node(#[trigger] templates@[j]) == template_node(self.templates@[j]@),
            decreases self.templates@.len() - i,
        {
            templates.push(self.templates[i].to_yml());
            i = i + 1;
        }
        let mut variables: Vec<Yaml> = Vec::new();
        let mut i: usize = 0;
        while i < self.variables.len()
            invariant
                i <= self.variables@.len(),
                variables@.len() == i,
                forall|j: int| 0 <= j < i ==> yaml_node(#[trigger] variables@[j]) == variable_node(self.variables@[j]@),
            decreases self.variables@.len() - i,
        {
            variables.push(self.variables[i].to_yml());
            i = i + 1;
        }
        proof {
            assert(nodes_of(templates@) =~= self@.templates.map_values(|t: TemplateView| template_node(t)));
            assert(nodes_of(variables@) =~= self@.variables.map_values(|v: VariableView| variable_node(v)));
        }
        let mut hash = hash_new();
        let k1 = yaml_from_string("url".to_owned());
        let v1 = yaml_from_string(self.url.clone());
        hash_insert(&mut hash, k1, v1);
        let k2 = yaml_from_string("templates".to_owned());
        let v2 = yaml_from_array(templates);
        hash_insert(&mut hash, k2, v2);
        let k3 = yaml_from_string("variables".to_owned());
        let v3 = yaml_from_array(variables);
        hash_insert(&mut hash, k3, v3);
        proof {
            reveal_strlit("url");
            reveal_strlit("templates");
            reveal_strlit("variables");
            assert("url"@.len() != "templates"@.len());
            assert("url"@.len() != "variables"@.len());
            assert("templates"@[0] != "variables"@[0]);
            let n1 = (yaml_node(k1), yaml_node(v1));
            let n2 = (yaml_node(k2), yaml_node(v2));
            let e0 = Seq::<(YamlNode, YamlNode)>::empty();
            let e1 = e0.push(n1);
            let e2 = e1.push(n2);
            assert(entries_remove(e0, n1.0) == e0);
            assert(e1.drop_last() == e0);
            assert(entries_remove(e0, n2.0) == e0);
            assert(entries_remove(e1, n2.0) == e1);
            assert(entries_remove(e0, yaml_node(k3)) == e0);
            assert(entries_remove(e1, yaml_node(k3)) == e1);
            assert(e2.drop_last() == e1);
            assert(entries_remove(e2, yaml_node(k3)) == e2);
            assert(entries_insert(e2, yaml_node(k3), yaml_node(v3)) == e2.push((yaml_node(k3), yaml_node(v3))));
        }
        let y = yaml_from_hash(hash);
        proof {
            let c = self@;
            assert(hash_node_entries(hash) =~= seq![
                (YamlNode::Str("url"@), YamlNode::Str(c.url)),
                (
                    YamlNode::Str("templates"@),
                    YamlNode::List(c.templates.map_values(|t: TemplateView| template_node(t))),
                ),
                (
                    YamlNode::Str("variables"@),
                    YamlNode::List(c.variables.map_values(|v: VariableView| variable_node(v))),
                ),
            ]);
        }
        y
    }

    /// Reads the configuration file's text: its first YAML document
    /// describes the configuration.
    pub fn from_yaml_text(text: &str) -> (r: Result<Configuration, ConfigError>)
        ensures
            match yaml_docs(text@) {
                None => r matches Err(ConfigError::Scan(_)),
                Some(docs) => if docs.len() == 0 {
                    r matches Err(ConfigError::NoDocument)
                } else {
                    match config_of_node(docs[0]) {
                        Some(c) => r matches Ok(cfg) && cfg@ == c,
                        None => r matches Err(ConfigError::Malformed),
                    }
                },
            },
    {
        let docs = match yaml_load(text) {
            Ok(docs) => docs,
            Err(e) => return Err(ConfigError::Scan(e)),
        };
        if docs.len() == 0 {
            return Err(ConfigError::NoDocument);
        }
        match Self::try_from_yml(&docs[0]) {
            Some(c) => Ok(c),
            None => Err(ConfigError::Malformed),
        }
    }

    /// The text of the configuration file: the YAML form of this
    /// configuration, as the emitter writes it with multi-line strings
    /// switched on.
    pub fn to_yaml_text(&self) -> (r: Result<String, ConfigError>)
        ensures
            exists|y: Yaml|
                #![trigger yaml_text(y, true)]
                yaml_node(y) == config_node(self@) && match r {
                    Ok(text) => yaml_text(y, true) == Some(text@),
                    Err(e) => yaml_text(y, true) is None && e is Emit,
                },
    {
        let y = self.to_yml();
        let r = match yaml_dump(&y, true) {
            Ok(text) => Ok(text),
            Err(e) => Err(ConfigError::Emit(e)),
        };
        assert(yaml_node(y) == config_node(self@) && match r {
            Ok(text) => yaml_text(y, true) == Some(text@),
            Err(e) => yaml_text(y, true) is None && e is Emit,
        });
        r
    }

    /// Reads the list of templates of the license catalogue: the first YAML
    /// document of the text is a sequence of templates.
    pub fn licenses_from_yaml_text(text: &str) -> (r: Result<Vec<Template>, ConfigError>)
        ensures
            match yaml_docs(text@) {
                None => r matches Err(ConfigError::Scan(_)),
                Some(docs) => if docs.len() == 0 {
                    r matches Err(ConfigError::NoDocument)
                } else {
                    match templates_of_list(list_items(docs[0])) {
                        Some(ts) => r matches Ok(v) && v@.map_values(|t: Template| t@) == ts,
                        None => r matches Err(ConfigError::Malformed),
                    }
                },
            },
    {
        let docs = match yaml_load(text) {
            Ok(docs) => docs,
            Err(e) => return Err(ConfigError::Scan(e)),
        };
        if docs.len() == 0 {
            return Err(ConfigError::NoDocument);
        }
        match yaml_as_vec(&docs[0]) {
            Some(items) => match templates_from_items(items) {
                Some(ts) => Ok(ts),
                None => Err(ConfigError::Malformed),
            },
            None => Err(ConfigError::Malformed),
        }
    }

    /// Reads a configuration from a YAML document that describes one.
    pub fn from_yml(yml: Yaml) -> (r: Configuration)
        requires
            config_of_node(yaml_node(yml)) is Some,
        ensures
            config_of_node(yaml_node(yml)) == Some(r@),
    {
        Self::try_from_yml(&yml).unwrap()
    }

    /// Reads a configuration from a YAML document; `None` where `from_yml`
    /// has no configuration to give.
    pub fn try_from_yml(yml: &Yaml) -> (r: Option<Configuration>)
        ensures
            match r {
                Some(c) => config_of_node(yaml_node(*yml)) == Some(c@),
                None => config_of_node(yaml_node(*yml)) is None,
            },
    {
        let url = match yaml_as_str(yaml_index(yml, "url")) {
            Some(s) => s.to_owned(),
            None => get_default_url(),
        };
        let templates = match yaml_as_vec(yaml_index(yml, "templates")) {
            Some(items) => match templates_from_items(items) {
                Some(ts) => ts,
                None => return None,
            },
            None => return None,
        };
        let variables = match yaml_as_vec(yaml_index(yml, "variables")) {
            Some(items) => match variables_from_items(items) {
                Some(vs) => vs,
                None => return None,
            },
            None => return None,
        };
        Some(Configuration { url, templates, variables })
    }
}

/// Reading back what `to_yml` writes gives the same configuration.
pub proof fn lemma_configuration_round_trip(c: ConfigurationView)
    ensures
        config_of_node(config_node(c)) == Some(c),
{
    reveal_strlit("url");
    reveal_strlit("templates");
    reveal_strlit("variables");
    assert("url"@.len() != "templates"@.len());
    assert("url"@.len() != "variables"@.len());
    assert("templates"@[0] != "variables"@[0]);
    let n = config_node(c);
    let e = match n {
        YamlNode::Mapping(e) => e,
        _ => Seq::empty(),
    };
    lemma_entries_get_at(e, YamlNode::Str("url"@), 0);
    lemma_entries_get_at(e, YamlNode::Str("templates"@), 1);
    lemma_entries_get_at(e, YamlNode::Str("variables"@), 2);
    assert(yaml_str_at(n, "url"@) == Some(c.url));
    let ts = c.templates.map_values(|t: TemplateView| template_node(t));
    assert(yaml_list_at(n, "templates"@) == Some(ts));
    assert forall|i: int| 0 <= i < ts.len() implies (#[trigger] template_of_node(ts[i])) == Some(c.templates[i]) by {
        lemma_template_round_trip(c.templates[i]);
    }
    assert(ts.map_values(|t: YamlNode| template_of_node(t)->0) =~= c.templates);
    let vs = c.variables.map_values(|v: VariableView| variable_node(v));
    assert(yaml_list_at(n, "variables"@) == Some(vs));
    assert forall|i: int| 0 <= i < vs.len() implies (#[trigger] variable_of_node(vs[i])) == Some(c.variables[i]) by {
        lemma_variable_round_trip(c.variables[i]);
    }
    assert(vs.map_values(|v: YamlNode| variable_of_node(v)->0) =~= c.variables);
}

/// The YAML form of a configuration: the entries `url` (the url as a
/// string), `templates` (a sequence holding the YAML form of each template,
/// in order) and `variables` (likewise for the variables), in that order.
pub proof fn lemma_config_node_form(c: ConfigurationView)
    ensures
        config_node(c) matches YamlNode::Mapping(e) && {
            &&& e.len() == 3
            &&& e[0] == (YamlNode::Str("url"@), YamlNode::Str(c.url))
            &&& e[1].0 == YamlNode::Str("templates"@)
            &&& e[1].1 matches YamlNode::List(items) && items.len() == c.templates.len() && forall|i: int|
                0 <= i < items.len() ==> items[i] == template_node(c.templates[i])
            &&& e[2].0 == YamlNode::Str("variables"@)
            &&& e[2].1 matches YamlNode::List(items) && items.len() == c.variables.len() && forall|i: int|
                0 <= i < items.len() ==> items[i] == variable_node(c.variables[i])
        },
{
}

/// How a configuration is read from a node: its templates are the items of
/// the `templates` sequence, each read as a template; its variables are the
/// items of the `variables` sequence, each read as a variable; its url is
/// the `url` string, or the default url where there is none.  A
/// configuration is read exactly when both sequences exist and all their
/// items are readable.
pub proof fn lemma_config_reading(n: YamlNode)
    ensures
        config_of_node(n) is Some <==> {
            &&& yaml_list_at(n, "templates"@) matches Some(ts) && forall|i: int|
                0 <= i < ts.len() ==> (#[trigger] template_of_node(ts[i])) is Some
            &&& yaml_list_at(n, "variables"@) matches Some(vs) && forall|i: int|
                0 <= i < vs.len() ==> (#[trigger] variable_of_node(vs[i])) is Some
        },
        config_of_node(n) matches Some(c) ==> {
            &&& c.url == match yaml_str_at(n, "url"@) {
                Some(u) => u,
                None => default_url(),
            }
            &&& yaml_list_at(n, "templates"@) matches Some(ts) && ts.len() == c.templates.len()
                && forall|i: int| 0 <= i < ts.len() ==> template_of_node(ts[i]) == Some(c.templates[i])
            &&& yaml_list_at(n, "variables"@) matches Some(vs) && vs.len() == c.variables.len()
                && forall|i: int| 0 <= i < vs.len() ==> variable_of_node(vs[i]) == Some(c.variables[i])
        },
{
}

/// The license catalogue is a sequence of any length: it is read exactly
/// when every item is readable as a template, and then the templates are
/// the items read one by one, in order.
pub proof fn lemma_license_list(items: Seq<YamlNode>)
    ensures
        templates_of_list(list_items(YamlNode::List(items))) is Some <==> forall|i: int|
            0 <= i < items.len() ==> (#[trigger] template_of_node(items[i])) is Some,
        templates_of_list(list_items(YamlNode::List(items))) matches Some(ts) ==> {
            &&& ts.len() == items.len()
            &&& forall|i: int| 0 <= i < items.len() ==> template_of_node(items[i]) == Some(ts[i])
        },
{
}

/// A node that is no sequence gives no license list.
pub proof fn lemma_license_list_not_a_list(n: YamlNode)
    requires
        !(n is List),
    ensures
        templates_of_list(list_items(n)) is None,
{
}

/// The templates found for a name are exactly those of the configuration
/// with that name, in their order: the filter by name equality.
pub proof fn lemma_templates_with_name(ts: Seq<TemplateView>, name: Seq<char>)
    ensures
        templates_with_name(ts, name) == ts.filter(|t: TemplateView| t.name == name),
        forall|t: TemplateView|
            templates_with_name(ts, name).contains(t) <==> (ts.contains(t) && t.name == name),
    decreases ts.len(),
{
    reveal(Seq::filter);
    let r = templates_with_name(ts, name);
    if ts.len() > 0 {
        lemma_templates_with_name(ts.drop_last(), name);
        let d = ts.drop_last();
        let rd = templates_with_name(d, name);
        let last = ts.last();
        assert(ts =~= d.push(last));
        assert forall|t: TemplateView| r.contains(t) <==> (ts.contains(t) && t.name == name) by {
            if r.contains(t) {
                let k = choose|k: int| 0 <= k < r.len() && r[k] == t;
                if k < rd.len() {
                    assert(r[k] == rd[k]);
                    assert(rd.contains(t));
                    assert(d.contains(t));
                    let j = choose|j: int| 0 <= j < d.len() && d[j] == t;
                    assert(ts[j] == t);
                } else {
                    assert(last.name == name);
                    assert(t == last);
                    assert(ts[ts.len() - 1] == t);
                }
            }
            if ts.contains(t) && t.name == name {
                let j = choose|j: int| 0 <= j < ts.len() && ts[j] == t;
                if j < ts.len() - 1 {
                    assert(d[j] == t);
                    assert(d.contains(t));
                    assert(rd.contains(t));
                    let k = choose|k: int| 0 <= k < rd.len() && rd[k] == t;
                    assert(r[k] == t);
                } else {
                    assert(t == last);
                    assert(r[r.len() - 1] == t);
                }
            }
        }
    } else {
        assert forall|t: TemplateView| r.contains(t) <==> (ts.contains(t) && t.name == name) by {
        }
    }
}

} // verus!
