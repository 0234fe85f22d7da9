use media_classifier::config::ExcludeConfig;
use media_classifier::filter::{is_media_name_dir, Entry, FileFilter};

fn create_test_config(hidden: bool, dirs: Vec<&str>, patterns: Vec<&str>) -> ExcludeConfig {
    ExcludeConfig {
        hidden_files: hidden,
        directories: dirs.iter().map(|s| s.to_string()).collect(),
        patterns: patterns.iter().map(|s| s.to_string()).collect(),
    }
}

fn dir(name: &str) -> Entry {
    Entry { file_name: name.to_string(), is_dir: true }
}

fn file(name: &str) -> Entry {
    Entry { file_name: name.to_string(), is_dir: false }
}

#[test]
fn test_wildcard_matching() {
    let config = create_test_config(false, vec![], vec!["*.tmp", "*.bak", "desktop.ini"]);
    let filter = FileFilter::new(&config);

    assert!(filter.match_wildcard("*.tmp", "file.tmp"));
    assert!(filter.match_wildcard("*.tmp", "FILE.TMP"));
    assert!(!filter.match_wildcard("*.tmp", "file.txt"));

    assert!(filter.match_wildcard("desktop.ini", "desktop.ini"));
    assert!(filter.match_wildcard("desktop.ini", "Desktop.ini"));
    assert!(!filter.match_wildcard("desktop.ini", "desktop.txt"));
}

#[test]
fn test_prefix_wildcard() {
    let config = create_test_config(false, vec![], vec!["temp*"]);
    let filter = FileFilter::new(&config);

    assert!(filter.match_wildcard("temp*", "temp.txt"));
    assert!(filter.match_wildcard("temp*", "temporary"));
    assert!(!filter.match_wildcard("temp*", "test"));
}

#[test]
fn test_middle_wildcard() {
    let config = create_test_config(false, vec![], vec!["*cache*"]);
    let filter = FileFilter::new(&config);

    assert!(filter.match_wildcard("*cache*", "my_cache_file"));
    assert!(filter.match_wildcard("*cache*", "cache"));
    assert!(filter.match_wildcard("*cache*", "test_cache"));
    assert!(!filter.match_wildcard("*cache*", "test"));
}

#[test]
fn test_exclude_patterns() {
    let config = create_test_config(
        false,
        vec![],
        vec!["*.tmp", "*.bak", "desktop.ini", "Thumbs.db"],
    );
    let filter = FileFilter::new(&config);

    assert!(filter.matches_exclude_pattern("file.tmp"));
    assert!(filter.matches_exclude_pattern("backup.bak"));
    assert!(filter.matches_exclude_pattern("desktop.ini"));
    assert!(filter.matches_exclude_pattern("Thumbs.db"));
    assert!(!filter.matches_exclude_pattern("important.txt"));
}

#[test]
fn test_hidden_files() {
    let config = create_test_config(true, vec![], vec![]);
    let filter = FileFilter::new(&config);

    assert!(filter.should_exclude_file(".hidden"));
    assert!(filter.should_exclude_file(".DS_Store"));
    assert!(!filter.should_exclude_file("visible.txt"));
}

#[test]
fn test_exclude_directories() {
    let config = create_test_config(false, vec![".git", "node_modules", "target"], vec![]);
    let _filter = FileFilter::new(&config);

    assert!(config.directories.contains(&".git".to_string()));
    assert!(config.directories.contains(&"node_modules".to_string()));
    assert!(config.directories.contains(&"target".to_string()));
}

#[test]
fn glob_scenarios() {
    let config = create_test_config(false, vec![], vec![]);
    let filter = FileFilter::new(&config);
    assert!(filter.match_wildcard("*.tmp", "a.TMP"));
    assert!(filter.match_wildcard("*cache*", "my_cache_file"));
    assert!(filter.match_wildcard("temp*", "temporary"));
    assert!(!filter.match_wildcard("temp*", "contains_temp"));
}

#[test]
fn the_lone_star_takes_everything() {
    let config = create_test_config(false, vec![], vec![]);
    let filter = FileFilter::new(&config);
    assert!(filter.match_wildcard("*", ""));
    assert!(filter.match_wildcard("*", "anything.at.all"));
}

#[test]
fn patterns_compare_without_regard_to_case() {
    let config = create_test_config(false, vec![], vec![]);
    let filter = FileFilter::new(&config);
    assert!(filter.match_wildcard("*.TMP", "a.tmp"));
    assert!(filter.match_wildcard("TEMP*", "temporary"));
    assert!(filter.match_wildcard("*CaChE*", "my_cache_file"));
    assert!(filter.match_wildcard("Thumbs.db", "THUMBS.DB"));
}

#[test]
fn a_star_in_the_middle_takes_nothing() {
    let config = create_test_config(false, vec![], vec![]);
    let filter = FileFilter::new(&config);
    assert!(!filter.match_wildcard("a*b", "ab"));
    assert!(!filter.match_wildcard("a*b", "axb"));
    assert!(!filter.match_wildcard("a*b", "a*b"));
}

#[test]
fn two_stars_are_a_suffix_pattern() {
    let config = create_test_config(false, vec![], vec![]);
    let filter = FileFilter::new(&config);
    assert!(filter.match_wildcard("**", "ends_with_star*"));
    assert!(!filter.match_wildcard("**", "no_star"));
    assert!(filter.match_wildcard("***", "has*star"));
    assert!(!filter.match_wildcard("***", "none"));
}

#[test]
fn empty_pattern_takes_the_empty_name_only() {
    let config = create_test_config(false, vec![], vec![]);
    let filter = FileFilter::new(&config);
    assert!(filter.match_wildcard("", ""));
    assert!(!filter.match_wildcard("", "a"));
}

#[test]
fn suffix_and_prefix_may_be_the_whole_name() {
    let config = create_test_config(false, vec![], vec![]);
    let filter = FileFilter::new(&config);
    assert!(filter.match_wildcard("*.tmp", ".tmp"));
    assert!(!filter.match_wildcard("*.tmp", "tmp"));
    assert!(filter.match_wildcard("temp*", "temp"));
    assert!(!filter.match_wildcard("temp*", "tem"));
}

#[test]
fn hidden_files_stay_when_not_excluded() {
    let config = create_test_config(false, vec![], vec!["*.tmp"]);
    let filter = FileFilter::new(&config);
    assert!(!filter.should_exclude_file(".hidden"));
    assert!(filter.should_exclude_file(".hidden.tmp"));
    assert!(!filter.should_exclude_file(""));
}

#[test]
fn directories_are_excluded_by_name_and_by_dot() {
    let config = create_test_config(true, vec![".git", "node_modules", "target"], vec!["*.tmp"]);
    let filter = FileFilter::new(&config);
    assert!(filter.should_exclude_dir(&dir("node_modules")));
    assert!(filter.should_exclude_dir(&dir("Node_Modules")));
    assert!(filter.should_exclude_dir(&dir("TARGET")));
    assert!(filter.should_exclude_dir(&dir(".cache")));
    assert!(!filter.should_exclude_dir(&dir("photos")));
    assert!(!filter.should_exclude_dir(&dir("x.tmp")));
    // a file is never excluded as a directory
    assert!(!filter.should_exclude_dir(&file("node_modules")));
    assert!(!filter.should_exclude_dir(&file(".git")));

    let config = create_test_config(false, vec!["target"], vec![]);
    let filter = FileFilter::new(&config);
    assert!(!filter.should_exclude_dir(&dir(".cache")));
    assert!(filter.should_exclude_dir(&dir("target")));
}

#[test]
fn entries_are_judged_by_their_kind() {
    let config = create_test_config(true, vec!["target"], vec!["*.tmp"]);
    let filter = FileFilter::new(&config);
    assert!(filter.should_exclude_entry(&dir("target")));
    assert!(!filter.should_exclude_entry(&file("target")));
    assert!(filter.should_exclude_entry(&file("a.tmp")));
    assert!(!filter.should_exclude_entry(&dir("a.tmp")));
    assert!(filter.should_exclude_entry(&file(".hidden")));
    assert!(filter.should_exclude_entry(&dir(".hidden")));
    assert!(!filter.should_exclude_entry(&file("photo.jpg")));
}

#[test]
fn default_exclude_config_leaves_nothing_out() {
    let config = ExcludeConfig::default();
    assert!(!config.hidden_files);
    assert!(config.directories.is_empty());
    assert!(config.patterns.is_empty());
    let filter = FileFilter::new(&config);
    assert!(!filter.should_exclude_entry(&file(".hidden")));
    assert!(!filter.should_exclude_entry(&dir(".git")));
}

#[test]
fn directories_named_like_media_extensions() {
    assert!(is_media_name_dir(&dir("JPG")));
    assert!(is_media_name_dir(&dir("mp4")));
    assert!(is_media_name_dir(&dir("Flac")));
    assert!(!is_media_name_dir(&dir("photos")));
    assert!(!is_media_name_dir(&file("JPG")));
}
