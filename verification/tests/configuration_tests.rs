use licensor::{
    get_default_templates, get_default_url, get_default_variables, ConfigError, Configuration,
    Template, Variable,
};
use yaml_rust2::{Yaml, YamlLoader};

fn template(name: &str, filename: &str) -> Template {
    Template { name: name.to_string(), filename: filename.to_string() }
}

fn variable(key: &str, value: &str) -> Variable {
    Variable { key: key.to_string(), value: value.to_string() }
}

fn sample() -> Configuration {
    Configuration {
        url: "https://example.org/licenses.zip".to_string(),
        templates: vec![template("MIT", "mit.txt"), template("Apache 2.0", "apache.txt")],
        variables: vec![variable("fullname", "Ada Lovelace"), variable("email", "ada@example.org")],
    }
}

fn same_config(a: &Configuration, b: &Configuration) -> bool {
    a.url == b.url
        && a.templates.len() == b.templates.len()
        && a.templates.iter().zip(b.templates.iter()).all(|(x, y)| x.name == y.name && x.filename == y.filename)
        && a.variables.len() == b.variables.len()
        && a.variables.iter().zip(b.variables.iter()).all(|(x, y)| x.key == y.key && x.value == y.value)
}

#[test]
fn default_url_is_the_catalogue_archive() {
    assert_eq!(get_default_url(), "https://github.com/atareao/licensor-templates/archive/main.zip");
    assert!(get_default_templates().is_empty());
    assert!(get_default_variables().is_empty());
}

#[test]
fn template_yaml_round_trip() {
    let t = template("MIT", "mit.txt");
    let y = t.to_yml();
    assert_eq!(y["name"].as_str(), Some("MIT"));
    assert_eq!(y["filename"].as_str(), Some("mit.txt"));
    let keys: Vec<&str> = y.as_hash().unwrap().keys().map(|k| k.as_str().unwrap()).collect();
    assert_eq!(keys, vec!["name", "filename"]);
    let back = Template::from_yml(&y);
    assert_eq!(back.name, "MIT");
    assert_eq!(back.filename, "mit.txt");
}

#[test]
fn template_into_yaml_is_to_yml() {
    let t = template("GPL", "gpl.txt");
    let expected = t.to_yml();
    let y: Yaml = t.into();
    assert_eq!(y, expected);
}

#[test]
fn template_from_hash_agrees_with_from_yml() {
    let docs = YamlLoader::load_from_str("name: BSD\nfilename: bsd.txt\nextra: 1\n").unwrap();
    let a = Template::from_yaml_hash(&docs[0]).unwrap();
    let b = Template::from_yml(&docs[0]);
    assert_eq!((a.name.as_str(), a.filename.as_str()), ("BSD", "bsd.txt"));
    assert_eq!((b.name.as_str(), b.filename.as_str()), ("BSD", "bsd.txt"));
    let list = YamlLoader::load_from_str("- a\n- b\n").unwrap();
    assert!(Template::from_yaml_hash(&list[0]).is_none());
    assert!(Template::try_from_yml(&list[0]).is_none());
    let missing = YamlLoader::load_from_str("name: BSD\n").unwrap();
    assert!(Template::from_yaml_hash(&missing[0]).is_none());
    assert!(Template::try_from_yml(&missing[0]).is_none());
    let not_string = YamlLoader::load_from_str("name: BSD\nfilename: [1]\n").unwrap();
    assert!(Template::try_from_yml(&not_string[0]).is_none());
}

#[test]
fn variable_yaml_round_trip() {
    let v = variable("email", "ada@example.org");
    let y = v.to_yml();
    assert_eq!(y["key"].as_str(), Some("email"));
    assert_eq!(y["value"].as_str(), Some("ada@example.org"));
    let back = Variable::from_yml(&y);
    assert_eq!(back.key, "email");
    assert_eq!(back.value, "ada@example.org");
    let bad = YamlLoader::load_from_str("key: email\n").unwrap();
    assert!(Variable::try_from_yml(&bad[0]).is_none());
}

#[test]
fn configuration_yaml_round_trip() {
    let c = sample();
    let y = c.to_yml();
    assert_eq!(y["url"].as_str(), Some("https://example.org/licenses.zip"));
    assert_eq!(y["templates"].as_vec().unwrap().len(), 2);
    assert_eq!(y["variables"].as_vec().unwrap().len(), 2);
    let back = Configuration::from_yml(y);
    assert!(same_config(&c, &back));
}

#[test]
fn configuration_text_round_trip() {
    let c = sample();
    let text = c.to_yaml_text().unwrap();
    assert!(text.starts_with("---"));
    assert!(text.contains("url: \"https://example.org/licenses.zip\"") || text.contains("url: https://example.org/licenses.zip"));
    let back = Configuration::from_yaml_text(&text).unwrap();
    assert!(same_config(&c, &back));
}

#[test]
fn configuration_url_falls_back_to_default() {
    let c = Configuration::from_yaml_text("templates: []\nvariables: []\n").unwrap();
    assert_eq!(c.url, get_default_url());
    assert!(c.templates.is_empty());
    let c = Configuration::from_yaml_text("url: 3\ntemplates: []\nvariables: []\n").unwrap();
    assert_eq!(c.url, get_default_url());
}

#[test]
fn configuration_text_errors() {
    assert!(matches!(Configuration::from_yaml_text("url: [unclosed"), Err(ConfigError::Scan(_))));
    assert!(matches!(Configuration::from_yaml_text(""), Err(ConfigError::NoDocument)));
    assert!(matches!(Configuration::from_yaml_text("url: x\nvariables: []\n"), Err(ConfigError::Malformed)));
    assert!(matches!(
        Configuration::from_yaml_text("templates:\n  - name: MIT\nvariables: []\n"),
        Err(ConfigError::Malformed)
    ));
    let docs = YamlLoader::load_from_str("url: x\n").unwrap();
    assert!(Configuration::try_from_yml(&docs[0]).is_none());
}

#[test]
fn licenses_list_is_read() {
    let text = "- name: MIT\n  filename: mit.txt\n- name: GPL\n  filename: gpl.txt\n";
    let ts = Configuration::licenses_from_yaml_text(text).unwrap();
    assert_eq!(ts.len(), 2);
    assert_eq!((ts[1].name.as_str(), ts[1].filename.as_str()), ("GPL", "gpl.txt"));
    assert!(matches!(Configuration::licenses_from_yaml_text("name: MIT\n"), Err(ConfigError::Malformed)));
    assert!(matches!(Configuration::licenses_from_yaml_text("- name: MIT\n"), Err(ConfigError::Malformed)));
    assert!(matches!(Configuration::licenses_from_yaml_text("- [a"), Err(ConfigError::Scan(_))));
    assert!(matches!(Configuration::licenses_from_yaml_text("# nothing\n"), Err(ConfigError::NoDocument)));
}

#[test]
fn template_names_are_sorted() {
    let mut c = sample();
    c.templates.push(template("BSD", "bsd.txt"));
    c.templates.push(template("MIT", "mit2.txt"));
    assert_eq!(c.template_names(), vec!["Apache 2.0", "BSD", "MIT", "MIT"]);
}

#[test]
fn templates_are_found_by_name() {
    let mut c = sample();
    c.templates.push(template("MIT", "mit2.txt"));
    let found = c.templates_named("MIT");
    let files: Vec<&str> = found.iter().map(|t| t.filename.as_str()).collect();
    assert_eq!(files, vec!["mit.txt", "mit2.txt"]);
    assert!(c.templates_named("Unknown").is_empty());
}

#[test]
fn hash_conversion_matches_from_yml_on_a_hash() {
    let t = template("ISC", "isc.txt");
    let y = t.to_yml();
    let a = Template::from_yaml_hash(&y).unwrap();
    let b = Template::from_yml(&y);
    assert_eq!((a.name.as_str(), a.filename.as_str()), (b.name.as_str(), b.filename.as_str()));
    let scalar = YamlLoader::load_from_str("just text").unwrap();
    assert!(Template::from_yaml_hash(&scalar[0]).is_none());
}
