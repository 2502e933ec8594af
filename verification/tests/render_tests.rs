use chrono::Datelike;
use licensor::order::{sort_names, str_equal, str_less};
use licensor::render::{date_of_reading, decimal_string, template_variables};
use licensor::{reder_template, render_with_date, sanitize_file_path, Cli, Commands, RenderError, Variable};

fn variable(key: &str, value: &str) -> Variable {
    Variable { key: key.to_string(), value: value.to_string() }
}

fn lookup<'a>(pairs: &'a [(String, String)], key: &str) -> Option<&'a str> {
    pairs.iter().find(|(k, _)| k == key).map(|(_, v)| v.as_str())
}

#[test]
fn decimal_numbers() {
    assert_eq!(decimal_string(0), "0");
    assert_eq!(decimal_string(7), "7");
    assert_eq!(decimal_string(2024), "2024");
    assert_eq!(decimal_string(-5), "-5");
    assert_eq!(decimal_string(i64::MIN), i64::MIN.to_string());
    assert_eq!(decimal_string(i64::MAX), i64::MAX.to_string());
}

#[test]
fn date_variables_override_user_variables() {
    let vars = vec![
        variable("fullname", "Ada"),
        variable("YEAR", "1900"),
        variable("fullname", "Ada Lovelace"),
    ];
    let pairs = template_variables(&vars, 2024, 3, 9);
    assert_eq!(pairs.len(), 4);
    assert_eq!(lookup(&pairs, "fullname"), Some("Ada Lovelace"));
    assert_eq!(lookup(&pairs, "YEAR"), Some("2024"));
    assert_eq!(lookup(&pairs, "MONTH"), Some("3"));
    assert_eq!(lookup(&pairs, "DAY"), Some("9"));
    assert_eq!(lookup(&pairs, "email"), None);
}

#[test]
fn render_with_a_given_date() {
    let vars = vec![variable("fullname", "Ada Lovelace")];
    let text = render_with_date(&vars, "mit.txt", "Copyright (c) {{ var.YEAR }} {{ var.fullname }}", 2024, 3, 9)
        .unwrap();
    assert_eq!(text, "Copyright (c) 2024 Ada Lovelace");
    let text = render_with_date(&vars, "x.txt", "{{ var.MONTH }}/{{ var.DAY }}", 1999, 12, 31).unwrap();
    assert_eq!(text, "12/31");
}

#[test]
fn render_escapes_by_template_name() {
    let vars = vec![variable("fullname", "<Ada>")];
    let plain = render_with_date(&vars, "mit.txt", "{{ var.fullname }}", 2024, 1, 1).unwrap();
    assert_eq!(plain, "<Ada>");
    let html = render_with_date(&vars, "mit.html", "{{ var.fullname }}", 2024, 1, 1).unwrap();
    assert_eq!(html, "&lt;Ada&gt;");
}

#[test]
fn render_reports_template_errors() {
    let vars = vec![];
    let r = render_with_date(&vars, "bad.txt", "{{ var.YEAR ", 2024, 1, 1);
    assert!(matches!(r, Err(RenderError::Template(_))));
}

#[test]
fn render_uses_today() {
    let vars = vec![variable("fullname", "Ada")];
    let before = chrono::Utc::now();
    let text = reder_template(&vars, "mit.txt", "{{ var.YEAR }}-{{ var.MONTH }}-{{ var.DAY }} {{ var.fullname }}").unwrap();
    let after = chrono::Utc::now();
    let at = |d: chrono::DateTime<chrono::Utc>| format!("{}-{}-{} Ada", d.year(), d.month(), d.day());
    assert!(text == at(before) || text == at(after));
}

#[test]
fn file_paths_are_sanitized() {
    assert_eq!(sanitize_file_path("licenses/mit.txt"), vec!["licenses", "mit.txt"]);
    assert_eq!(sanitize_file_path("a\\b/../c"), vec!["a", "b", "", "c"]);
    assert_eq!(sanitize_file_path("a//b/"), vec!["a", "", "b", ""]);
    assert_eq!(sanitize_file_path(""), vec![""]);
    assert_eq!(sanitize_file_path("./x:y*z"), vec!["", "xyz"]);
    assert_eq!(sanitize_file_path("licensor-templates-main/"), vec!["licensor-templates-main", ""]);
}

#[test]
fn strings_compare_by_characters() {
    assert!(str_less("Apache", "BSD"));
    assert!(!str_less("BSD", "Apache"));
    assert!(str_less("MIT", "MIT-0"));
    assert!(!str_less("MIT", "MIT"));
    assert!(str_less("Z", "a"));
    assert!(str_less("é", "ú"));
    assert!(str_equal("MIT", "MIT"));
    assert!(!str_equal("MIT", "MIT "));
    assert!(!str_equal("MIT", "mit"));
}

#[test]
fn names_sort_like_std() {
    let names: Vec<String> = ["MIT", "Apache 2.0", "BSD", "apache", "MIT", "Ünlicense", ""]
        .iter()
        .map(|s| s.to_string())
        .collect();
    let mut expected = names.clone();
    expected.sort();
    assert_eq!(sort_names(names), expected);
}

#[test]
fn command_line_values() {
    let cli = Cli { debug: true, command: Commands::Select };
    assert!(cli.debug);
    assert_eq!(cli.command, Commands::Select);
    assert_ne!(Commands::Update, Commands::Select);
}

#[test]
fn clock_readings_give_dates() {
    assert_eq!(date_of_reading(Some((0, 0))), Some((1970, 1, 1)));
    assert_eq!(date_of_reading(Some((1_709_942_400, 5))), Some((2024, 3, 9)));
    assert_eq!(date_of_reading(None), None);
    assert_eq!(date_of_reading(Some((u64::MAX, 0))), None);
    assert_eq!(date_of_reading(Some((i64::MAX as u64, 0))), None);
}

#[test]
fn variable_order_does_not_matter() {
    let a = vec![variable("fullname", "Ada"), variable("email", "ada@example.org")];
    let b = vec![variable("email", "ada@example.org"), variable("fullname", "Ada")];
    let src = "{{ var.fullname }} <{{ var.email }}> {{ var.YEAR }}";
    let ra = render_with_date(&a, "x.txt", src, 2024, 1, 2).unwrap();
    let rb = render_with_date(&b, "x.txt", src, 2024, 1, 2).unwrap();
    assert_eq!(ra, rb);
    assert_eq!(ra, "Ada <ada@example.org> 2024");
}

#[test]
fn control_and_reserved_characters_are_removed() {
    assert_eq!(sanitize_file_path("a\u{0007}b?<>|\"c"), vec!["abc"]);
    assert_eq!(sanitize_file_path("x/\u{0085}y/..."), vec!["x", "y", ""]);
    let long = "é".repeat(200);
    let parts = sanitize_file_path(&long);
    assert_eq!(parts.len(), 1);
    assert!(parts[0].len() <= 255);
    assert_eq!(parts[0].chars().count(), 127);
}
