//! What a classification run is configured with: the rules, the groups of
//! extensions that count as one, and what to leave out of a scan.

use crate::text::str_to_string;
use vstd::prelude::*;

verus! {

/// The bounds that a rule puts on a file's size, each a size expression.
/// A bound that is absent, or that states 0, is no bound.
#[derive(Debug, Clone)]
pub struct FileSizeFilter {
    /// The smallest size admitted, such as `5MB`.
    pub min: Option<String>,
    /// The largest size admitted, such as `1GB`.
    pub max: Option<String>,
}

/// A `FileSizeFilter` as plain text.
pub struct FilterView {
    pub min: Option<Seq<char>>,
    pub max: Option<Seq<char>>,
}

impl View for FileSizeFilter {
    type V = FilterView;

    open spec fn view(&self) -> FilterView {
        FilterView { min: self.min.deep_view(), max: self.max.deep_view() }
    }
}

/// One classification rule: which files it takes and where it sends them.
#[derive(Debug, Clone)]
pub struct Rule {
    pub name: String,
    pub description: String,
    /// The extensions that the rule takes, in any letter case.
    pub extensions: Vec<String>,
    /// The sizes that the rule takes; `None` takes every size.
    pub file_size: Option<FileSizeFilter>,
    /// The directory that files go to, with placeholders such as `{year}`.
    pub directory_template: String,
    /// How `{date}` is written; a rule without it needs no date.
    pub date_format: Option<String>,
    pub enabled: bool,
}

/// A `Rule` as plain text.
pub struct RuleView {
    pub name: Seq<char>,
    pub description: Seq<char>,
    pub extensions: Seq<Seq<char>>,
    pub file_size: Option<FilterView>,
    pub directory_template: Seq<char>,
    pub date_format: Option<Seq<char>>,
    pub enabled: bool,
}

impl View for Rule {
    type V = RuleView;

    open spec fn view(&self) -> RuleView {
        RuleView {
            name: self.name@,
            description: self.description@,
            extensions: self.extensions.deep_view(),
            file_size: match self.file_size {
                Some(filter) => Some(filter@),
                None => None,
            },
            directory_template: self.directory_template@,
            date_format: self.date_format.deep_view(),
            enabled: self.enabled,
        }
    }
}

/// Settings that hold where a rule has none of its own.
#[derive(Debug, Clone)]
pub struct GlobalConfig {
    pub date_format: String,
    pub directory_template: String,
    pub clean_empty_dirs: bool,
    pub file_size: Option<FileSizeFilter>,
}

/// A `GlobalConfig` as plain text.
pub struct GlobalView {
    pub date_format: Seq<char>,
    pub directory_template: Seq<char>,
    pub clean_empty_dirs: bool,
    pub file_size: Option<FilterView>,
}

impl View for GlobalConfig {
    type V = GlobalView;

    open spec fn view(&self) -> GlobalView {
        GlobalView {
            date_format: self.date_format@,
            directory_template: self.directory_template@,
            clean_empty_dirs: self.clean_empty_dirs,
            file_size: match self.file_size {
                Some(filter) => Some(filter@),
                None => None,
            },
        }
    }
}

/// What a scan leaves out.
#[derive(Debug, Clone)]
pub struct ExcludeConfig {
    /// Leave out files and directories whose name begins with a dot.
    pub hidden_files: bool,
    /// Names of directories to leave out, in any letter case.
    pub directories: Vec<String>,
    /// Patterns of file names to leave out, such as `*.tmp`.
    pub patterns: Vec<String>,
}

/// An `ExcludeConfig` as plain text.
pub struct ExcludeView {
    pub hidden_files: bool,
    pub directories: Seq<Seq<char>>,
    pub patterns: Seq<Seq<char>>,
}

impl View for ExcludeConfig {
    type V = ExcludeView;

    open spec fn view(&self) -> ExcludeView {
        ExcludeView {
            hidden_files: self.hidden_files,
            directories: self.directories.deep_view(),
            patterns: self.patterns.deep_view(),
        }
    }
}

impl Default for ExcludeConfig {
    /// Leaves nothing out.
    fn default() -> (r: ExcludeConfig)
        ensures
            !r@.hidden_files,
            r@.directories.len() == 0,
            r@.patterns.len() == 0,
    {
        ExcludeConfig { hidden_files: false, directories: Vec::new(), patterns: Vec::new() }
    }
}

/// A named group of extensions that count as one another, such as `jpg` and
/// `jpeg`.
#[derive(Debug, Clone)]
pub struct AliasGroup {
    pub name: String,
    pub extensions: Vec<String>,
}

/// An `AliasGroup` as plain text.
pub struct AliasView {
    pub name: Seq<char>,
    pub extensions: Seq<Seq<char>>,
}

impl View for AliasGroup {
    type V = AliasView;

    open spec fn view(&self) -> AliasView {
        AliasView { name: self.name@, extensions: self.extensions.deep_view() }
    }
}

/// The whole configuration. The order of `rules` is their priority: an
/// earlier rule wins over a later one.
#[derive(Debug, Clone)]
pub struct Config {
    pub global: GlobalConfig,
    pub rules: Vec<Rule>,
    pub extension_aliases: Vec<AliasGroup>,
    pub exclude: ExcludeConfig,
}

/// A `Config` as plain text.
pub struct ConfigView {
    pub global: GlobalView,
    pub rules: Seq<RuleView>,
    pub extension_aliases: Seq<AliasView>,
    pub exclude: ExcludeView,
}

impl View for Config {
    type V = ConfigView;

    open spec fn view(&self) -> ConfigView {
        ConfigView {
            global: self.global@,
            rules: self.rules@.map_values(|rule: Rule| rule@),
            extension_aliases: self.extension_aliases@.map_values(|group: AliasGroup| group@),
            exclude: self.exclude@,
        }
    }
}

impl ConfigView {
    /// No two alias groups have the same name.
    pub open spec fn alias_names_differ(self) -> bool {
        forall|g: int, h: int|
            0 <= g < h < self.extension_aliases.len() ==> (
            #[trigger] self.extension_aliases[g]).name != (#[trigger] self.extension_aliases[h]).name
    }
}

/// The bounds of a size filter, both present.
pub open spec fn bounds(min: Seq<char>, max: Seq<char>) -> Option<FilterView> {
    Some(FilterView { min: Some(min), max: Some(max) })
}

/// The rules of the default configuration.
pub open spec fn default_rules() -> Seq<RuleView> {
    seq![
        RuleView {
            name: "High Quality Photos"@,
            description: "大尺寸照片按年月分类到 Photos 目录"@,
            extensions: seq!["jpg"@, "jpeg"@, "png"@],
            file_size: bounds("5MB"@, "0B"@),
            directory_template: "Photos/{year}/{month}"@,
            date_format: Some("YYYY/MM"@),
            enabled: true,
        },
        RuleView {
            name: "RAW Photos"@,
            description: "RAW 格式照片按年/月/日详细分类"@,
            extensions: seq!["nef"@, "cr2"@, "cr3"@, "arw"@, "dng"@, "orf"@, "raf"@, "rw2"@],
            file_size: bounds("0B"@, "0B"@),
            directory_template: "RAW/{year}/{month}/{day}"@,
            date_format: Some("YYYY/MM/DD"@),
            enabled: true,
        },
        RuleView {
            name: "Thumbnails"@,
            description: "小尺寸图片分类到 Thumbnails 目录"@,
            extensions: seq!["jpg"@, "jpeg"@, "png"@],
            file_size: bounds("0B"@, "5MB"@),
            directory_template: "Thumbnails/{date}"@,
            date_format: Some("YYYYMMDD"@),
            enabled: true,
        },
        RuleView {
            name: "Videos"@,
            description: "视频文件按年份分类"@,
            extensions: seq!["mp4"@, "mov"@, "avi"@, "mkv"@, "m4v"@, "wmv"@, "flv"@],
            file_size: bounds("0B"@, "0B"@),
            directory_template: "Videos/{year}"@,
            date_format: Some("YYYY"@),
            enabled: true,
        },
        RuleView {
            name: "Music"@,
            description: "音乐文件按格式分类"@,
            extensions: seq!["mp3"@, "flac"@, "wav"@, "aac"@, "m4a"@],
            file_size: bounds("0B"@, "0B"@),
            directory_template: "Music/{ext}"@,
            date_format: None,
            enabled: true,
        },
        RuleView {
            name: "Default"@,
            description: "默认规则：扩展名/日期格式"@,
            extensions: seq!["*"@],
            file_size: bounds("0B"@, "0B"@),
            directory_template: "{ext}/{date}"@,
            date_format: Some("YYYYMMDD"@),
            enabled: true,
        },
    ]
}

/// The alias groups of the default configuration.
pub open spec fn default_aliases() -> Seq<AliasView> {
    seq![
        AliasView { name: "JPG"@, extensions: seq!["jpg"@, "jpeg"@] },
        AliasView { name: "TIFF"@, extensions: seq!["tif"@, "tiff"@] },
        AliasView { name: "MPEG"@, extensions: seq!["mpg"@, "mpeg"@, "mpe"@] },
    ]
}

/// The default configuration.
pub open spec fn default_config_view() -> ConfigView {
    ConfigView {
        global: GlobalView {
            date_format: "YYYYMMDD"@,
            directory_template: "{ext}/{date}"@,
            clean_empty_dirs: true,
            file_size: bounds("0B"@, "0B"@),
        },
        rules: default_rules(),
        extension_aliases: default_aliases(),
        exclude: ExcludeView {
            hidden_files: true,
            directories: seq![".git"@, ".svn"@, "node_modules"@, "target"@, "__pycache__"@],
            patterns: seq!["*.tmp"@, "*.bak"@, "*.swp"@, "desktop.ini"@, "Thumbs.db"@, ".DS_Store"@],
        },
    }
}

/// The default configuration as a YAML file, with comments.
pub const DEFAULT_CONFIG_YAML: &'static str = "# Rules for sorting media files into directories.
#
# Sizes are written as a number and a unit: B, KB, MB, GB, TB for bytes,
# b, Kb, Mb, Gb, Tb for bits. A bound of 0B is no bound.
#
# Templates may hold {type}, {ext}, {year}, {month}, {day} and {date}.
# Date formats: YYYY, YYYYMM, YYYYMMDD, YYYY/MM, YYYY/MM/DD, YYYY-MM,
# YYYY-MM-DD, or a strftime pattern.

global:
  date_format: \"YYYYMMDD\"
  directory_template: \"{ext}/{date}\"
  clean_empty_dirs: true
  file_size:
    min: \"0B\"
    max: \"0B\"

# The first rule that takes a file wins.
rules:
  - name: \"High Quality Photos\"
    description: \"大尺寸照片按年月分类到 Photos 目录\"
    extensions: [\"jpg\", \"jpeg\", \"png\"]
    file_size:
      min: \"5MB\"
      max: \"0B\"
    directory_template: \"Photos/{year}/{month}\"
    date_format: \"YYYY/MM\"
    enabled: true
  - name: \"RAW Photos\"
    description: \"RAW 格式照片按年/月/日详细分类\"
    extensions: [\"nef\", \"cr2\", \"cr3\", \"arw\", \"dng\", \"orf\", \"raf\", \"rw2\"]
    file_size:
      min: \"0B\"
      max: \"0B\"
    directory_template: \"RAW/{year}/{month}/{day}\"
    date_format: \"YYYY/MM/DD\"
    enabled: true
  - name: \"Thumbnails\"
    description: \"小尺寸图片分类到 Thumbnails 目录\"
    extensions: [\"jpg\", \"jpeg\", \"png\"]
    file_size:
      min: \"0B\"
      max: \"5MB\"
    directory_template: \"Thumbnails/{date}\"
    date_format: \"YYYYMMDD\"
    enabled: true
  - name: \"Videos\"
    description: \"视频文件按年份分类\"
    extensions: [\"mp4\", \"mov\", \"avi\", \"mkv\", \"m4v\", \"wmv\", \"flv\"]
    file_size:
      min: \"0B\"
      max: \"0B\"
    directory_template: \"Videos/{year}\"
    date_format: \"YYYY\"
    enabled: true
  - name: \"Music\"
    description: \"音乐文件按格式分类\"
    extensions: [\"mp3\", \"flac\", \"wav\", \"aac\", \"m4a\"]
    file_size:
      min: \"0B\"
      max: \"0B\"
    directory_template: \"Music/{ext}\"
    enabled: true
  - name: \"Default\"
    description: \"默认规则：扩展名/日期格式\"
    extensions: [\"*\"]
    file_size:
      min: \"0B\"
      max: \"0B\"
    directory_template: \"{ext}/{date}\"
    date_format: \"YYYYMMDD\"
    enabled: true

# Extensions that count as one another.
extension_aliases:
  JPG: [\"jpg\", \"jpeg\"]
  TIFF: [\"tif\", \"tiff\"]
  MPEG: [\"mpg\", \"mpeg\", \"mpe\"]

# What a scan leaves out.
exclude:
  hidden_files: true
  directories:
    - \".git\"
    - \".svn\"
    - \"node_modules\"
    - \"target\"
    - \"__pycache__\"
  patterns:
    - \"*.tmp\"
    - \"*.bak\"
    - \"*.swp\"
    - \"desktop.ini\"
    - \"Thumbs.db\"
    - \".DS_Store\"
";

/// Appends `word` to `list`.
fn push_word(list: &mut Vec<String>, word: &str)
    ensures
        final(list).deep_view() == old(list).deep_view().push(word@),
{
    list.push(str_to_string(word));
    assert(list.deep_view() =~= old(list).deep_view().push(word@));
}

/// A size filter with both bounds.
fn size_filter(min: &str, max: &str) -> (filter: Option<FileSizeFilter>)
    ensures
        (match filter {
            Some(found) => Some(found@),
            None => None,
        }) == bounds(min@, max@),
{
    Some(FileSizeFilter { min: Some(str_to_string(min)), max: Some(str_to_string(max)) })
}

/// An enabled rule.
fn rule(
    name: &str,
    description: &str,
    extensions: Vec<String>,
    min: &str,
    max: &str,
    directory_template: &str,
    date_format: Option<&str>,
) -> (made: Rule)
    ensures
        made@ == (RuleView {
            name: name@,
            description: description@,
            extensions: extensions.deep_view(),
            file_size: bounds(min@, max@),
            directory_template: directory_template@,
            date_format: match date_format {
                Some(format) => Some(format@),
                None => None,
            },
            enabled: true,
        }),
{
    Rule {
        name: str_to_string(name),
        description: str_to_string(description),
        extensions,
        file_size: size_filter(min, max),
        directory_template: str_to_string(directory_template),
        date_format: match date_format {
            Some(format) => Some(str_to_string(format)),
            None => None,
        },
        enabled: true,
    }
}

impl Config {
    /// The default configuration; the same as `default`.
    pub fn default_config() -> (config: Config)
        ensures
            config@ == default_config_view(),
            config@.alias_names_differ(),
    {
        Config::default()
    }

    /// The default configuration: rules for photos, raw photos, thumbnails,
    /// videos and music, and a rule named `Default`.
    pub fn default() -> (config: Config)
        ensures
            config@ == default_config_view(),
            config@.alias_names_differ(),
    {
        proof {
            reveal_strlit("JPG");
            reveal_strlit("TIFF");
            reveal_strlit("MPEG");
            assert("TIFF"@[0] != "MPEG"@[0]);
        }
        let mut rules: Vec<Rule> = Vec::new();
        let mut extensions: Vec<String> = Vec::new();
        push_word(&mut extensions, "jpg");
        push_word(&mut extensions, "jpeg");
        push_word(&mut extensions, "png");
        assert(extensions.deep_view() == seq!["jpg"@, "jpeg"@, "png"@]);
        rules.push(
            rule(
                "High Quality Photos",
                "大尺寸照片按年月分类到 Photos 目录",
                extensions,
                "5MB",
                "0B",
                "Photos/{year}/{month}",
                Some("YYYY/MM"),
            ),
        );
        let mut extensions: Vec<String> = Vec::new();
        push_word(&mut extensions, "nef");
        push_word(&mut extensions, "cr2");
        push_word(&mut extensions, "cr3");
        push_word(&mut extensions, "arw");
        push_word(&mut extensions, "dng");
        push_word(&mut extensions, "orf");
        push_word(&mut extensions, "raf");
        push_word(&mut extensions, "rw2");
        assert(extensions.deep_view() == seq!["nef"@, "cr2"@, "cr3"@, "arw"@, "dng"@, "orf"@, "raf"@, "rw2"@]);
        rules.push(
            rule(
                "RAW Photos",
                "RAW 格式照片按年/月/日详细分类",
                extensions,
                "0B",
                "0B",
                "RAW/{year}/{month}/{day}",
                Some("YYYY/MM/DD"),
            ),
        );
        let mut extensions: Vec<String> = Vec::new();
        push_word(&mut extensions, "jpg");
        push_word(&mut extensions, "jpeg");
        push_word(&mut extensions, "png");
        assert(extensions.deep_view() == seq!["jpg"@, "jpeg"@, "png"@]);
        rules.push(
            rule(
                "Thumbnails",
                "小尺寸图片分类到 Thumbnails 目录",
                extensions,
                "0B",
                "5MB",
                "Thumbnails/{date}",
                Some("YYYYMMDD"),
            ),
        );
        let mut extensions: Vec<String> = Vec::new();
        push_word(&mut extensions, "mp4");
        push_word(&mut extensions, "mov");
        push_word(&mut extensions, "avi");
        push_word(&mut extensions, "mkv");
        push_word(&mut extensions, "m4v");
        push_word(&mut extensions, "wmv");
        push_word(&mut extensions, "flv");
        assert(extensions.deep_view() == seq!["mp4"@, "mov"@, "avi"@, "mkv"@, "m4v"@, "wmv"@, "flv"@]);
        rules.push(
            rule(
                "Videos",
                "视频文件按年份分类",
                extensions,
                "0B",
                "0B",
                "Videos/{year}",
                Some("YYYY"),
            ),
        );
        let mut extensions: Vec<String> = Vec::new();
        push_word(&mut extensions, "mp3");
        push_word(&mut extensions, "flac");
        push_word(&mut extensions, "wav");
        push_word(&mut extensions, "aac");
        push_word(&mut extensions, "m4a");
        assert(extensions.deep_view() == seq!["mp3"@, "flac"@, "wav"@, "aac"@, "m4a"@]);
        rules.push(
            rule(
                "Music",
                "音乐文件按格式分类",
                extensions,
                "0B",
                "0B",
                "Music/{ext}",
                None,
            ),
        );
        let mut extensions: Vec<String> = Vec::new();
        push_word(&mut extensions, "*");
        assert(extensions.deep_view() == seq!["*"@]);
        rules.push(
            rule(
                "Default",
                "默认规则：扩展名/日期格式",
                extensions,
                "0B",
                "0B",
                "{ext}/{date}",
                Some("YYYYMMDD"),
            ),
        );
        assert(rules@.map_values(|rule: Rule| rule@) == default_rules());
        let mut extension_aliases: Vec<AliasGroup> = Vec::new();
        let mut members: Vec<String> = Vec::new();
        push_word(&mut members, "jpg");
        push_word(&mut members, "jpeg");
        assert(members.deep_view() == seq!["jpg"@, "jpeg"@]);
        extension_aliases.push(AliasGroup { name: str_to_string("JPG"), extensions: members });
        let mut members: Vec<String> = Vec::new();
        push_word(&mut members, "tif");
        push_word(&mut members, "tiff");
        assert(members.deep_view() == seq!["tif"@, "tiff"@]);
        extension_aliases.push(AliasGroup { name: str_to_string("TIFF"), extensions: members });
        let mut members: Vec<String> = Vec::new();
        push_word(&mut members, "mpg");
        push_word(&mut members, "mpeg");
        push_word(&mut members, "mpe");
        assert(members.deep_view() == seq!["mpg"@, "mpeg"@, "mpe"@]);
        extension_aliases.push(AliasGroup { name: str_to_string("MPEG"), extensions: members });
        assert(extension_aliases@.map_values(|group: AliasGroup| group@) == default_aliases());
        let mut directories: Vec<String> = Vec::new();
        push_word(&mut directories, ".git");
        push_word(&mut directories, ".svn");
        push_word(&mut directories, "node_modules");
        push_word(&mut directories, "target");
        push_word(&mut directories, "__pycache__");
        assert(directories.deep_view() == seq![".git"@, ".svn"@, "node_modules"@, "target"@, "__pycache__"@]);
        let mut patterns: Vec<String> = Vec::new();
        push_word(&mut patterns, "*.tmp");
        push_word(&mut patterns, "*.bak");
        push_word(&mut patterns, "*.swp");
        push_word(&mut patterns, "desktop.ini");
        push_word(&mut patterns, "Thumbs.db");
        push_word(&mut patterns, ".DS_Store");
        assert(patterns.deep_view() == seq!["*.tmp"@, "*.bak"@, "*.swp"@, "desktop.ini"@, "Thumbs.db"@, ".DS_Store"@]);
        Config {
            global: GlobalConfig {
                date_format: str_to_string("YYYYMMDD"),
                directory_template: str_to_string("{ext}/{date}"),
                clean_empty_dirs: true,
                file_size: size_filter("0B", "0B"),
            },
            rules,
            extension_aliases,
            exclude: ExcludeConfig { hidden_files: true, directories, patterns },
        }
    }

    /// The default configuration as the text of a YAML file, with comments.
    pub fn generate_default_yaml() -> (text: String)
        ensures
            text@ == DEFAULT_CONFIG_YAML@,
    {
        str_to_string(DEFAULT_CONFIG_YAML)
    }
}

} // verus!
