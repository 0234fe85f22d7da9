use media_classifier::config::{Config, FileSizeFilter, DEFAULT_CONFIG_YAML};
use serde_yaml_bw::Value;

#[test]
fn test_config_default() {
    let config = Config::default();
    assert!(!config.rules.is_empty());
    assert_eq!(config.global.date_format, "YYYYMMDD");
}

#[test]
fn default_config_has_the_six_rules_in_order() {
    let config = Config::default_config();
    let names: Vec<&str> = config.rules.iter().map(|rule| rule.name.as_str()).collect();
    assert_eq!(
        names,
        vec!["High Quality Photos", "RAW Photos", "Thumbnails", "Videos", "Music", "Default"]
    );
    assert!(config.rules.iter().all(|rule| rule.enabled));
    assert_eq!(config.rules[0].extensions, vec!["jpg", "jpeg", "png"]);
    let bounds = config.rules[0].file_size.as_ref().unwrap();
    assert_eq!(bounds.min.as_deref(), Some("5MB"));
    assert_eq!(bounds.max.as_deref(), Some("0B"));
    assert_eq!(config.rules[0].directory_template, "Photos/{year}/{month}");
    assert_eq!(config.rules[0].date_format.as_deref(), Some("YYYY/MM"));
    assert_eq!(config.rules[4].date_format, None);
    assert_eq!(config.rules[5].extensions, vec!["*"]);
}

#[test]
fn default_config_has_globals_aliases_and_excludes() {
    let config = Config::default();
    assert_eq!(config.global.directory_template, "{ext}/{date}");
    assert!(config.global.clean_empty_dirs);
    let bounds = config.global.file_size.as_ref().unwrap();
    assert_eq!(bounds.min.as_deref(), Some("0B"));
    assert_eq!(bounds.max.as_deref(), Some("0B"));

    let groups: Vec<(&str, Vec<&str>)> = config
        .extension_aliases
        .iter()
        .map(|group| {
            (group.name.as_str(), group.extensions.iter().map(|e| e.as_str()).collect())
        })
        .collect();
    assert_eq!(
        groups,
        vec![
            ("JPG", vec!["jpg", "jpeg"]),
            ("TIFF", vec!["tif", "tiff"]),
            ("MPEG", vec!["mpg", "mpeg", "mpe"]),
        ]
    );

    assert!(config.exclude.hidden_files);
    assert_eq!(
        config.exclude.directories,
        vec![".git", ".svn", "node_modules", "target", "__pycache__"]
    );
    assert_eq!(
        config.exclude.patterns,
        vec!["*.tmp", "*.bak", "*.swp", "desktop.ini", "Thumbs.db", ".DS_Store"]
    );
}

#[test]
fn default_yaml_is_the_constant() {
    let text = Config::generate_default_yaml();
    assert_eq!(text, DEFAULT_CONFIG_YAML);
    assert!(text.contains("rules:"));
    assert!(text.contains("name: \"High Quality Photos\""));
    assert!(text.contains("extension_aliases:"));
}

fn text<'a>(value: &'a Value, key: &str) -> Option<&'a str> {
    value.get(key).and_then(|found| found.as_str())
}

fn texts(value: &Value, key: &str) -> Vec<String> {
    value
        .get(key)
        .and_then(|found| found.as_sequence())
        .map(|list| list.iter().map(|item| item.as_str().unwrap().to_string()).collect())
        .unwrap_or_default()
}

fn bounds_agree(yaml: &Value, filter: &Option<FileSizeFilter>) {
    let filter = filter.as_ref().unwrap();
    let written = yaml.get("file_size").unwrap();
    assert_eq!(text(written, "min"), filter.min.as_deref());
    assert_eq!(text(written, "max"), filter.max.as_deref());
}

#[test]
fn default_yaml_states_the_default_config() {
    let config = Config::default();
    let yaml: Value = serde_yaml_bw::from_str(&Config::generate_default_yaml()).unwrap();

    let global = yaml.get("global").unwrap();
    assert_eq!(text(global, "date_format"), Some(config.global.date_format.as_str()));
    assert_eq!(
        text(global, "directory_template"),
        Some(config.global.directory_template.as_str())
    );
    assert_eq!(
        global.get("clean_empty_dirs").and_then(|b| b.as_bool()),
        Some(config.global.clean_empty_dirs)
    );
    bounds_agree(global, &config.global.file_size);

    let rules = yaml.get("rules").and_then(|r| r.as_sequence()).unwrap();
    assert_eq!(rules.len(), config.rules.len());
    for (written, rule) in rules.iter().zip(config.rules.iter()) {
        assert_eq!(text(written, "name"), Some(rule.name.as_str()));
        assert_eq!(text(written, "description"), Some(rule.description.as_str()));
        assert_eq!(texts(written, "extensions"), rule.extensions);
        bounds_agree(written, &rule.file_size);
        assert_eq!(text(written, "directory_template"), Some(rule.directory_template.as_str()));
        assert_eq!(text(written, "date_format"), rule.date_format.as_deref());
        assert_eq!(written.get("enabled").and_then(|b| b.as_bool()), Some(rule.enabled));
    }

    let aliases = yaml.get("extension_aliases").and_then(|a| a.as_mapping()).unwrap();
    assert_eq!(aliases.len(), config.extension_aliases.len());
    for group in &config.extension_aliases {
        assert_eq!(texts(yaml.get("extension_aliases").unwrap(), &group.name), group.extensions);
    }

    let exclude = yaml.get("exclude").unwrap();
    assert_eq!(
        exclude.get("hidden_files").and_then(|b| b.as_bool()),
        Some(config.exclude.hidden_files)
    );
    assert_eq!(texts(exclude, "directories"), config.exclude.directories);
    assert_eq!(texts(exclude, "patterns"), config.exclude.patterns);
}
