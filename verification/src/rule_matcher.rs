//! Which rule takes a file. The rules are indexed once by extension; a
//! query then looks at the rules listed under the file's extension, in the
//! order in which they were declared, and takes the first whose size bounds
//! admit the file.
//!
//! A rule is listed under every extension that it names and under every
//! member of every alias group that holds one of them. An enabled rule that
//! names no extension at all is the fallback: it takes any media file that
//! no listed rule takes. Where several rules could be the fallback, the last
//! declared is. The name `*` has no meaning of its own: it is listed like
//! any other extension.

use crate::config::{AliasView, Config, ConfigView, Rule, RuleView};
use crate::decimal::decimal_value;
use crate::file_size::{
    parse_size, size_in_bytes, split_size, FileSize, SizeParseError, SizeUnit,
};
use crate::media_types::{is_media_ext, is_media_extension, MediaInfo, MediaInfoView, MediaType};
use crate::paths::{SourcePath, SourceView, TargetPath, TargetView};
use crate::template::{
    expand_template, expansion, fill_undated_template, filled_undated, plain_expansion,
    DateStamp,
};
use crate::rule_index::{index_covers, lemma_unlisted_rule, list_rule, listed};
use crate::text::{
    eq_ignoring_ascii_case, is_ascii_text, leading, lowercase_of, str_to_string, to_lowercase,
    trailing, trim, CharClass,
};
use vstd::arithmetic::power::pow;
use vstd::hash_map::StringHashMap;
use vstd::prelude::*;

verus! {

/// Whether `group` holds `ext`, up to the case of ASCII letters.
pub open spec fn group_has(group: Seq<Seq<char>>, ext: Seq<char>) -> bool {
    exists|a: int| 0 <= a < group.len() && eq_ignoring_ascii_case(#[trigger] group[a], ext)
}

/// Whether `key` is the lower-case form of a member of `group`.
pub open spec fn group_yields(group: Seq<Seq<char>>, key: Seq<char>) -> bool {
    exists|b: int| 0 <= b < group.len() && lowercase_of(#[trigger] group[b]) == key
}

/// Whether some alias group holds `ext` and has a member whose lower-case
/// form is `key`.
pub open spec fn alias_links(aliases: Seq<AliasView>, ext: Seq<char>, key: Seq<char>) -> bool {
    exists|g: int|
        0 <= g < aliases.len() && group_has((#[trigger] aliases[g]).extensions, ext)
            && group_yields(aliases[g].extensions, key)
}

/// Whether a rule that names `ext` is listed under `key`: `key` is the
/// lower-case form of `ext`, or of an alias of `ext`.
pub open spec fn ext_registers(aliases: Seq<AliasView>, ext: Seq<char>, key: Seq<char>) -> bool {
    lowercase_of(ext) == key || alias_links(aliases, ext, key)
}

/// Whether `rule` is listed under `key`.
pub open spec fn rule_registers(rule: RuleView, aliases: Seq<AliasView>, key: Seq<char>) -> bool {
    exists|j: int|
        0 <= j < rule.extensions.len() && ext_registers(aliases, #[trigger] rule.extensions[j], key)
}

/// Whether `rule` is a fallback: enabled, and naming no extension.
pub open spec fn is_fallback(rule: RuleView) -> bool {
    rule.enabled && rule.extensions.len() == 0
}

/// Whether the rule at `i` is enabled and listed under `key`.
pub open spec fn is_candidate(config: ConfigView, i: int, key: Seq<char>) -> bool {
    &&& 0 <= i < config.rules.len()
    &&& config.rules[i].enabled
    &&& rule_registers(config.rules[i], config.extension_aliases, key)
}

/// The size that a bound states: none where the bound is absent.
pub open spec fn bound_of(text: Option<Seq<char>>) -> Result<FileSize, SizeParseError> {
    match text {
        None => Ok(FileSize { bytes: 0 }),
        Some(expression) => parse_size(expression),
    }
}

/// Whether the size bounds of `rule` admit a file of `size` bytes. A rule
/// without bounds admits every size; one with a bound that cannot be read
/// admits none.
pub open spec fn size_admits(rule: RuleView, size: u64) -> bool {
    match rule.file_size {
        None => true,
        Some(filter) => match (bound_of(filter.min), bound_of(filter.max)) {
            (Ok(min), Ok(max)) => (FileSize { bytes: size }).in_range(min, max),
            _ => false,
        },
    }
}

/// Whether the rule at `i` takes a file whose extension has the lower-case
/// form `key` and whose size is `size`.
pub open spec fn applies(config: ConfigView, i: int, key: Seq<char>, size: u64) -> bool {
    is_candidate(config, i, key) && size_admits(config.rules[i], size)
}

/// The first rule at or after `from` that takes the file.
pub open spec fn first_applying(config: ConfigView, key: Seq<char>, size: u64, from: int) -> Option<
    int,
>
    decreases config.rules.len() - from,
{
    if from < 0 || from >= config.rules.len() {
        None
    } else if applies(config, from, key, size) {
        Some(from)
    } else {
        first_applying(config, key, size, from + 1)
    }
}

/// The last fallback among the first `upto` rules.
pub open spec fn last_fallback(rules: Seq<RuleView>, upto: int) -> Option<int>
    decreases upto,
{
    if upto <= 0 || upto > rules.len() {
        None
    } else if is_fallback(rules[upto - 1]) {
        Some(upto - 1)
    } else {
        last_fallback(rules, upto - 1)
    }
}

/// The rule that takes a file, by its place in the list of rules: the first
/// listed rule that admits the size; else, for a media extension, the
/// fallback; else none.
pub open spec fn matched_rule(config: ConfigView, key: Seq<char>, size: u64) -> Option<int> {
    match first_applying(config, key, size, 0) {
        Some(i) => Some(i),
        None => if is_media_ext(key) {
            last_fallback(config.rules, config.rules.len() as int)
        } else {
            None
        },
    }
}

/// What `first_applying` finds: a rule that takes the file, with none
/// before it that does; or nothing, where no rule takes the file.
pub proof fn lemma_first_applying(config: ConfigView, key: Seq<char>, size: u64, from: int)
    requires
        0 <= from,
    ensures
        match first_applying(config, key, size, from) {
            Some(i) => from <= i && applies(config, i, key, size) && forall|j: int|
                from <= j < i ==> !applies(config, j, key, size),
            None => forall|j: int| from <= j ==> !applies(config, j, key, size),
        },
    decreases config.rules.len() - from,
{
    if from < config.rules.len() && !applies(config, from, key, size) {
        lemma_first_applying(config, key, size, from + 1);
    }
}

/// Whether `list` holds the first `upto` rules that are listed under
/// `key`, each once, in the order of their declaration.
pub open spec fn list_covers(list: Seq<usize>, config: ConfigView, key: Seq<char>, upto: int) -> bool {
    &&& forall|p: int, q: int| 0 <= p < q < list.len() ==> list[p] < list[q]
    &&& forall|p: int|
        0 <= p < list.len() ==> list[p] < upto && is_candidate(config, list[p] as int, key)
    &&& forall|i: int| 0 <= i < upto && is_candidate(config, i, key) ==> list.contains(i as usize)
}

/// The place of a rule as a number of the model.
pub open spec fn place(found: Option<usize>) -> Option<int> {
    match found {
        Some(i) => Some(i as int),
        None => None,
    }
}

/// Why no destination can be built for a file.
#[derive(Debug, Clone, Copy, PartialEq, Eq, Structural)]
pub enum PathError {
    /// The source path ends in no file name.
    MissingFileName,
    /// The date cannot be rendered as the date format asks.
    UnrenderableDate,
}

/// The destination whose directory is `expanded`, below the base
/// directory, with the file's own name; none where the date could not be
/// rendered.
pub open spec fn path_from(expanded: Option<Seq<char>>, base_dir: Seq<char>, file_name: Seq<char>) -> Result<
    TargetView,
    PathError,
> {
    match expanded {
        Some(directory) => Ok(TargetView { base_dir, directory, file_name }),
        None => Err(PathError::UnrenderableDate),
    }
}

/// The destination of a file under a rule, for a date and a date format:
/// the rule's template expanded, below the base directory, with the file's
/// own name.
pub open spec fn dated_path(
    rule: RuleView,
    base_dir: Seq<char>,
    extension: Seq<char>,
    media_type: MediaType,
    stamp: DateStamp,
    date_format: Seq<char>,
    file_name: Seq<char>,
) -> Result<TargetView, PathError> {
    path_from(
        expansion(rule.directory_template, extension, media_type, stamp, date_format),
        base_dir,
        file_name,
    )
}

/// The destination of a file under a rule for a plain date, where year,
/// month and day are the zero-padded digits.
pub open spec fn plain_dated_path(
    rule: RuleView,
    base_dir: Seq<char>,
    extension: Seq<char>,
    media_type: MediaType,
    stamp: DateStamp,
    date_format: Seq<char>,
    file_name: Seq<char>,
) -> Result<TargetView, PathError> {
    path_from(
        plain_expansion(rule.directory_template, extension, media_type, stamp, date_format),
        base_dir,
        file_name,
    )
}

/// The destination of a file under a rule. Where there is no date, or the
/// rule asks for none, only the extension and the kind are filled into the
/// template.
pub open spec fn target_path(
    base_dir: Seq<char>,
    source: SourceView,
    info: MediaInfoView,
    date: Option<DateStamp>,
    rule: RuleView,
) -> Result<TargetView, PathError> {
    match source.file_name {
        None => Err(PathError::MissingFileName),
        Some(file_name) => match (date, rule.date_format) {
            (Some(stamp), Some(format)) => dated_path(
                rule,
                base_dir,
                info.extension,
                info.media_type,
                stamp,
                format,
                file_name,
            ),
            _ => Ok(
                TargetView {
                    base_dir,
                    directory: filled_undated(
                        rule.directory_template,
                        info.extension,
                        info.media_type.label(),
                    ),
                    file_name,
                },
            ),
        },
    }
}

/// The destination of a file under a rule where the date, if there is one,
/// is plain: year, month and day are the zero-padded digits.
pub open spec fn plain_target_path(
    base_dir: Seq<char>,
    source: SourceView,
    info: MediaInfoView,
    date: Option<DateStamp>,
    rule: RuleView,
) -> Result<TargetView, PathError> {
    match source.file_name {
        None => Err(PathError::MissingFileName),
        Some(file_name) => match (date, rule.date_format) {
            (Some(stamp), Some(format)) => plain_dated_path(
                rule,
                base_dir,
                info.extension,
                info.media_type,
                stamp,
                format,
                file_name,
            ),
            _ => Ok(
                TargetView {
                    base_dir,
                    directory: filled_undated(
                        rule.directory_template,
                        info.extension,
                        info.media_type.label(),
                    ),
                    file_name,
                },
            ),
        },
    }
}

/// A result as plain text.
pub open spec fn path_view(result: Result<TargetPath, PathError>) -> Result<TargetView, PathError> {
    match result {
        Ok(path) => Ok(path@),
        Err(error) => Err(error),
    }
}

/// Finds for each file the rule that takes it, by an index that is built
/// once from the configuration.
pub struct RuleMatcher<'a> {
    config: &'a Config,
    /// For each extension in lower case, the rules listed under it, by
    /// their places in `config.rules`, in rising order.
    extension_rules: StringHashMap<Vec<usize>>,
    /// The place of the fallback rule.
    global_rule: Option<usize>,
}

impl<'a> RuleMatcher<'a> {
    /// The index holds every rule of the configuration, and the fallback is
    /// the last rule that can be one.
    #[verifier::type_invariant]
    spec fn well_formed(&self) -> bool {
        &&& index_covers(self.extension_rules@, self.config@, self.config.rules.len() as int)
        &&& place(self.global_rule) == last_fallback(
            self.config@.rules,
            self.config.rules.len() as int,
        )
    }

    /// The configuration that the matcher was built from.
    pub closed spec fn config(&self) -> Config {
        *self.config
    }

    /// The configuration that the matcher was built from.
    pub fn configuration(&self) -> (config: &'a Config)
        ensures
            *config == self.config(),
    {
        self.config
    }

    /// The rules listed under `key`, by their places in the list of rules.
    pub closed spec fn listed_under(&self, key: Seq<char>) -> Seq<usize> {
        listed(self.extension_rules@, key)
    }

    /// The place of the fallback rule, if there is one.
    pub closed spec fn fallback(&self) -> Option<usize> {
        self.global_rule
    }

    /// Builds the index of `config`'s rules: under each extension in lower
    /// case stand the enabled rules that are listed under it, each once, in
    /// the order of their declaration; the fallback is the last enabled
    /// rule that names no extension.
    pub fn new(config: &'a Config) -> (matcher: RuleMatcher<'a>)
        ensures
            matcher.config() == *config,
            forall|key: Seq<char>|
                list_covers(
                    #[trigger] matcher.listed_under(key),
                    config@,
                    key,
                    config.rules.len() as int,
                ),
            place(matcher.fallback()) == last_fallback(config@.rules, config.rules.len() as int),
    {
        let mut index: StringHashMap<Vec<usize>> = StringHashMap::new();
        let mut global_rule: Option<usize> = None;
        let mut n: usize = 0;
        assert(index_covers(index@, config@, 0)) by {
            assert forall|key: Seq<char>| (#[trigger] listed(index@, key)).len() == 0 by {}
        }
        while n < config.rules.len()
            invariant
                n <= config.rules.len(),
                index_covers(index@, config@, n as int),
                place(global_rule) == last_fallback(config@.rules, n as int),
            decreases config.rules.len() - n,
        {
            assert(config@.rules[n as int] == config.rules[n as int]@);
            let rule = &config.rules[n];
            if rule.enabled && rule.extensions.len() > 0 {
                list_rule(&mut index, config, n);
            } else {
                if rule.enabled {
                    global_rule = Some(n);
                }
                proof {
                    lemma_unlisted_rule(index@, config@, n as int);
                }
            }
            n += 1;
        }
        RuleMatcher { config, extension_rules: index, global_rule }
    }

    /// Whether the size bounds of `rule` admit `file_size`. A bound that
    /// cannot be read admits nothing.
    pub fn check_file_size_match(&self, rule: &Rule, file_size: &FileSize) -> (r: bool)
        ensures
            r == size_admits(rule@, file_size.bytes),
    {
        match &rule.file_size {
            Some(filter) => {
                let min = match &filter.min {
                    Some(text) => match FileSize::parse(text.as_str()) {
                        Ok(size) => size,
                        Err(_) => {
                            return false;
                        },
                    },
                    None => FileSize { bytes: 0 },
                };
                let max = match &filter.max {
                    Some(text) => match FileSize::parse(text.as_str()) {
                        Ok(size) => size,
                        Err(_) => {
                            return false;
                        },
                    },
                    None => FileSize { bytes: 0 },
                };
                file_size.is_in_range(min, max)
            },
            None => true,
        }
    }

    /// Whether `ext`, in lower case, is the extension of a media file.
    pub fn is_supported_media_type(&self, ext: &str) -> (r: bool)
        ensures
            r == is_media_ext(ext@),
    {
        is_media_extension(ext)
    }

    /// The place, in the list of rules, of the rule that takes a file with
    /// this extension and size.
    pub fn match_index(&self, extension: &str, file_size: u64) -> (found: Option<usize>)
        ensures
            place(found) == matched_rule(self.config()@, lowercase_of(extension@), file_size),
            found matches Some(i) ==> i < self.config().rules.len(),
    {
        proof {
            use_type_invariant(self);
        }
        let key = to_lowercase(extension);
        let size = FileSize { bytes: file_size };
        let ghost config = self.config@;
        let ghost list = listed(self.extension_rules@, key@);
        proof {
            lemma_first_applying(config, key@, file_size, 0);
            lemma_last_fallback(config.rules, config.rules.len() as int);
            assert(list_covers(list, config, key@, self.config.rules.len() as int));
        }
        match self.extension_rules.get(key.as_str()) {
            Some(rules) => {
                let mut p: usize = 0;
                while p < rules.len()
                    invariant
                        p <= rules.len(),
                        rules@ == list,
                        config == self.config@,
                        size.bytes == file_size,
                        key@ == lowercase_of(extension@),
                        forall|q: int|
                            0 <= q < p ==> !size_admits(#[trigger] config.rules[list[q] as int], file_size),
                        list_covers(list, config, key@, self.config.rules.len() as int),
                    decreases rules.len() - p,
                {
                    let i = rules[p];
                    assert(list[p as int] == i);
                    assert(config.rules[i as int] == self.config.rules[i as int]@);
                    if self.check_file_size_match(&self.config.rules[i], &size) {
                        proof {
                            assert(list[p as int] == i);
                            assert(applies(config, i as int, key@, file_size));
                            lemma_first_applying(config, key@, file_size, 0);
                            assert forall|j: int| 0 <= j < i implies !applies(
                                config,
                                j,
                                key@,
                                file_size,
                            ) by {
                                if is_candidate(config, j, key@) {
                                    let q = choose|q: int|
                                        0 <= q < list.len() && list[q] == j as usize;
                                    assert(q < p);
                                }
                            }
                        }
                        return Some(i);
                    }
                    p += 1;
                }
            },
            None => {},
        }
        proof {
            assert forall|j: int| !applies(config, j, key@, file_size) by {
                if is_candidate(config, j, key@) {
                    let q = choose|q: int| 0 <= q < list.len() && list[q] == j as usize;
                    assert(!size_admits(config.rules[list[q] as int], file_size));
                }
            }
        }
        if is_media_extension(key.as_str()) {
            self.global_rule
        } else {
            None
        }
    }

    /// The rule that takes a file with this extension and size: the first
    /// declared rule that is listed under the extension and admits the
    /// size; else the fallback, for a media file; else none.
    pub fn match_file(&self, extension: &str, file_size: u64) -> (found: Option<&Rule>)
        ensures
            match matched_rule(self.config()@, lowercase_of(extension@), file_size) {
                Some(i) => 0 <= i < self.config().rules.len() && found == Some(
                    &self.config().rules[i],
                ),
                None => found is None,
            },
    {
        match self.match_index(extension, file_size) {
            Some(i) => Some(&self.config.rules[i]),
            None => None,
        }
    }

    /// The destination of `source` under `rule`: the rule's directory
    /// template expanded, below `base_dir`, with the file's own name. The
    /// date goes in only where there is one and the rule has a date format.
    pub fn build_target_path(
        &self,
        base_dir: &str,
        source: &SourcePath,
        media_info: &MediaInfo,
        date: Option<&DateStamp>,
        rule: &Rule,
    ) -> (target: Result<TargetPath, PathError>)
        ensures
            path_view(target) == target_path(
                base_dir@,
                source@,
                media_info@,
                match date {
                    Some(stamp) => Some(*stamp),
                    None => None,
                },
                rule@,
            ),
            (match date {
                Some(stamp) => stamp.is_plain(),
                None => true,
            }) ==> path_view(target) == plain_target_path(
                base_dir@,
                source@,
                media_info@,
                match date {
                    Some(stamp) => Some(*stamp),
                    None => None,
                },
                rule@,
            ),
    {
        let file_name = match &source.file_name {
            Some(name) => name,
            None => {
                return Err(PathError::MissingFileName);
            },
        };
        match (date, &rule.date_format) {
            (Some(stamp), Some(_)) => self.build_path(
                rule,
                base_dir,
                media_info.extension.as_str(),
                media_info.media_type,
                stamp,
                file_name.as_str(),
            ),
            _ => {
                let directory = fill_undated_template(
                    rule.directory_template.as_str(),
                    media_info.extension.as_str(),
                    media_info.media_type,
                );
                Ok(
                    TargetPath {
                        base_dir: str_to_string(base_dir),
                        directory,
                        file_name: file_name.clone(),
                    },
                )
            },
        }
    }

    /// The destination of a file under `rule` for the date `date`, written
    /// as the rule's date format asks, or as the global one where the rule
    /// has none.
    pub fn build_path(
        &self,
        rule: &Rule,
        base_dir: &str,
        extension: &str,
        media_type: MediaType,
        date: &DateStamp,
        filename: &str,
    ) -> (target: Result<TargetPath, PathError>)
        ensures
            path_view(target) == dated_path(
                rule@,
                base_dir@,
                extension@,
                media_type,
                *date,
                match rule@.date_format {
                    Some(format) => format,
                    None => self.config()@.global.date_format,
                },
                filename@,
            ),
            date.is_plain() ==> path_view(target) == plain_dated_path(
                rule@,
                base_dir@,
                extension@,
                media_type,
                *date,
                match rule@.date_format {
                    Some(format) => format,
                    None => self.config()@.global.date_format,
                },
                filename@,
            ),
    {
        let date_format = match &rule.date_format {
            Some(format) => format.as_str(),
            None => self.config.global.date_format.as_str(),
        };
        match expand_template(
            rule.directory_template.as_str(),
            extension,
            media_type,
            date,
            date_format,
        ) {
            Some(directory) => Ok(
                TargetPath {
                    base_dir: str_to_string(base_dir),
                    directory,
                    file_name: str_to_string(filename),
                },
            ),
            None => Err(PathError::UnrenderableDate),
        }
    }

    /// The same as `match_file`.
    pub fn find_matching_rule(&self, extension: &str, file_size: u64) -> (found: Option<&Rule>)
        ensures
            match matched_rule(self.config()@, lowercase_of(extension@), file_size) {
                Some(i) => 0 <= i < self.config().rules.len() && found == Some(
                    &self.config().rules[i],
                ),
                None => found is None,
            },
    {
        self.match_file(extension, file_size)
    }
}

/// The last fallback is a fallback, and no later rule is one.
pub proof fn lemma_last_fallback(rules: Seq<RuleView>, upto: int)
    requires
        0 <= upto <= rules.len(),
    ensures
        match last_fallback(rules, upto) {
            Some(i) => 0 <= i < upto && is_fallback(rules[i]) && forall|j: int|
                i < j < upto ==> !is_fallback(rules[j]),
            None => forall|j: int| 0 <= j < upto ==> !is_fallback(rules[j]),
        },
    decreases upto,
{
    if upto > 0 && !is_fallback(rules[upto - 1]) {
        lemma_last_fallback(rules, upto - 1);
    }
}

/// The answer to a query is a function of the rules, the extension and the
/// size: whatever two queries with the same three return, it is the same.
pub proof fn law_same_query_same_rule(
    config: ConfigView,
    extension: Seq<char>,
    size: u64,
    first: Option<int>,
    second: Option<int>,
)
    requires
        first == matched_rule(config, lowercase_of(extension), size),
        second == matched_rule(config, lowercase_of(extension), size),
    ensures
        first == second,
{
}

/// The letter case of an extension does not matter: two extensions with
/// the same lower-case form get the same answer.
pub proof fn law_letter_case_is_ignored(
    config: ConfigView,
    extension: Seq<char>,
    other: Seq<char>,
    size: u64,
)
    requires
        lowercase_of(extension) == lowercase_of(other),
    ensures
        matched_rule(config, lowercase_of(extension), size) == matched_rule(
            config,
            lowercase_of(other),
            size,
        ),
{
}

/// Two extensions of ASCII characters that differ only in the case of
/// their letters, such as `JPG` and `jpg`, have the same lower-case form and
/// get the same answer.
pub proof fn law_ascii_case_is_ignored(
    config: ConfigView,
    extension: Seq<char>,
    other: Seq<char>,
    size: u64,
)
    requires
        is_ascii_text(extension),
        is_ascii_text(other),
        eq_ignoring_ascii_case(extension, other),
    ensures
        lowercase_of(extension) == lowercase_of(other),
        matched_rule(config, lowercase_of(extension), size) == matched_rule(
            config,
            lowercase_of(other),
            size,
        ),
{
    assert(lowercase_of(extension) =~= lowercase_of(other));
}

/// A disabled rule is never the answer, neither as a listed rule nor as the
/// fallback.
pub proof fn law_disabled_rules_never_match(config: ConfigView, key: Seq<char>, size: u64, i: int)
    requires
        0 <= i < config.rules.len(),
        !config.rules[i].enabled,
    ensures
        matched_rule(config, key, size) != Some(i),
{
    lemma_first_applying(config, key, size, 0);
    lemma_last_fallback(config.rules, config.rules.len() as int);
}

/// The answer to a query is a rule that takes the file or the fallback, and
/// the fallback only for a media extension that no listed rule takes.
pub proof fn law_answer_is_first_or_fallback(config: ConfigView, key: Seq<char>, size: u64)
    ensures
        match matched_rule(config, key, size) {
            Some(i) => 0 <= i < config.rules.len() && config.rules[i].enabled && (applies(
                config,
                i,
                key,
                size,
            ) || (is_media_ext(key) && is_fallback(config.rules[i]) && forall|j: int|
                !applies(config, j, key, size))),
            None => forall|j: int| !applies(config, j, key, size),
        },
{
    lemma_first_applying(config, key, size, 0);
    lemma_last_fallback(config.rules, config.rules.len() as int);
}

/// Of two rules that both take a file, the later one is never the answer:
/// the answer is the earlier one, or a rule before it that takes the file
/// too.
pub proof fn law_earlier_rule_wins(config: ConfigView, key: Seq<char>, size: u64, i: int, j: int)
    requires
        applies(config, i, key, size),
        applies(config, j, key, size),
        i < j,
    ensures
        matched_rule(config, key, size) != Some(j),
        matched_rule(config, key, size) matches Some(k) && k <= i && applies(config, k, key, size),
        (forall|m: int| 0 <= m < i ==> !applies(config, m, key, size)) ==> matched_rule(
            config,
            key,
            size,
        ) == Some(i),
{
    lemma_first_applying(config, key, size, 0);
}

/// A rule that names one member of an alias group takes the files of every
/// other member: asked for any member of the group, with a size that the
/// rule admits, the answer is that rule, or an earlier one that takes the
/// file too.
pub proof fn law_alias_symmetry(
    config: ConfigView,
    i: int,
    j: int,
    g: int,
    a: int,
    b: int,
    size: u64,
)
    requires
        0 <= i < config.rules.len(),
        config.rules[i].enabled,
        0 <= j < config.rules[i].extensions.len(),
        0 <= g < config.extension_aliases.len(),
        0 <= a < config.extension_aliases[g].extensions.len(),
        0 <= b < config.extension_aliases[g].extensions.len(),
        eq_ignoring_ascii_case(
            config.extension_aliases[g].extensions[a],
            config.rules[i].extensions[j],
        ),
        size_admits(config.rules[i], size),
    ensures
        ({
            let key = lowercase_of(config.extension_aliases[g].extensions[b]);
            &&& applies(config, i, key, size)
            &&& matched_rule(config, key, size) matches Some(k) && k <= i && applies(
                config,
                k,
                key,
                size,
            )
            &&& (forall|m: int| 0 <= m < i ==> !applies(config, m, key, size)) ==> matched_rule(
                config,
                key,
                size,
            ) == Some(i)
        }),
{
    let group = config.extension_aliases[g].extensions;
    let ext = config.rules[i].extensions[j];
    let key = lowercase_of(group[b]);
    assert(group_has(group, ext));
    assert(group_yields(group, key));
    assert(alias_links(config.extension_aliases, ext, key));
    assert(ext_registers(config.extension_aliases, config.rules[i].extensions[j], key));
    assert(rule_registers(config.rules[i], config.extension_aliases, key));
    assert(is_candidate(config, i, key));
    assert(applies(config, i, key, size));
    lemma_first_applying(config, key, size, 0);
    let found = first_applying(config, key, size, 0);
    assert(found is Some);
    assert(found->0 <= i);
    assert(matched_rule(config, key, size) == found);
}

/// The expression `0B` states the size 0.
pub proof fn lemma_zero_bytes()
    ensures
        parse_size("0B"@) == Ok::<FileSize, SizeParseError>(FileSize { bytes: 0 }),
{
    reveal_strlit("0B");
    reveal_strlit("B");
    let text = "0B"@;
    assert(text == seq!['0', 'B']);
    reveal_with_fuel(leading, 3);
    reveal_with_fuel(trailing, 3);
    assert(leading(text, CharClass::Whitespace) == 0);
    assert(text.skip(0) == text);
    assert(trailing(text, CharClass::Whitespace) == 0);
    assert(text.take(2) == text);
    assert(trim(text) == text);
    assert(leading(text, CharClass::Digit) == 1);
    let rest = text.skip(1);
    assert(rest == seq!['B']);
    assert(leading(rest, CharClass::Whitespace) == 0);
    assert(rest.skip(0) == rest);
    assert(leading(rest, CharClass::Letter) == 1);
    let parts = split_size(text).unwrap();
    assert(parts.unit == "B"@);
    assert(parts.fraction_len == 0);
    assert(parts.digits == seq!['0']);
    reveal_with_fuel(decimal_value, 3);
    assert(decimal_value(parts.digits) == 0);
    reveal(pow);
    assert(pow(10, 0) == 1);
    assert(size_in_bytes(parts.digits, 0, SizeUnit::Bytes(1)) == 0);
}

/// A bound of 0 is no bound: a size filter whose bounds are absent or state
/// `0B` admits every size, 0 included.
pub proof fn law_zero_bounds_admit_all(rule: RuleView, size: u64)
    requires
        rule.file_size matches Some(filter) ==> {
            &&& filter.min is None || filter.min == Some("0B"@)
            &&& filter.max is None || filter.max == Some("0B"@)
        },
    ensures
        size_admits(rule, size),
{
    lemma_zero_bytes();
}

} // verus!
