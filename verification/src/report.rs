//! What a run reports: the count of each kind of result, and sizes as a
//! table of the configuration shows them.

use crate::classifier::{ClassifyResult, ResultView};
use crate::config::{Config, RuleView};
use crate::decimal::{decimal_chars, decimal_text};
use crate::file_size::{format_size, parse_size, FileSize};
use crate::text::{append_chars, from_chars, str_to_string, to_chars};
use vstd::prelude::*;

verus! {

/// How many files ended in each way.
#[derive(Debug, Clone, Copy, PartialEq, Eq, Structural)]
pub struct Statistics {
    pub success: usize,
    pub skipped: usize,
    pub renamed: usize,
    pub failed: usize,
}

impl Statistics {
    /// The number of files counted.
    pub open spec fn sum(self) -> int {
        self.success + self.skipped + self.renamed + self.failed
    }

    /// The counts with one more file that ended as `result`.
    pub open spec fn with(self, result: ResultView) -> Statistics {
        match result {
            ResultView::Success { from, to } => Statistics {
                success: (self.success + 1) as usize,
                ..self
            },
            ResultView::Skipped { path, reason } => Statistics {
                skipped: (self.skipped + 1) as usize,
                ..self
            },
            ResultView::Renamed { from, to } => Statistics {
                renamed: (self.renamed + 1) as usize,
                ..self
            },
            ResultView::Failed { path, error } => Statistics {
                failed: (self.failed + 1) as usize,
                ..self
            },
        }
    }

    /// No file counted yet.
    pub fn new() -> (counts: Statistics)
        ensures
            counts == (Statistics { success: 0, skipped: 0, renamed: 0, failed: 0 }),
    {
        Statistics { success: 0, skipped: 0, renamed: 0, failed: 0 }
    }

    /// Counts one more file, which ended as `result`.
    pub fn record(&mut self, result: &ClassifyResult)
        requires
            old(self).sum() < usize::MAX,
        ensures
            *final(self) == old(self).with(result@),
            final(self).sum() == old(self).sum() + 1,
    {
        match result {
            ClassifyResult::Success { .. } => {
                self.success += 1;
            },
            ClassifyResult::Skipped { .. } => {
                self.skipped += 1;
            },
            ClassifyResult::Renamed { .. } => {
                self.renamed += 1;
            },
            ClassifyResult::Failed { .. } => {
                self.failed += 1;
            },
        }
    }

    /// The number of files counted.
    pub fn total(&self) -> (n: usize)
        requires
            self.sum() <= usize::MAX,
        ensures
            n == self.sum(),
    {
        self.success + self.skipped + self.renamed + self.failed
    }
}

/// A size expression as a table shows it: the size that it states, written
/// for people to read; or the expression itself where it states none.
pub fn format_size_for_display_str(size_str: &str) -> (text: String)
    ensures
        text@ == (match parse_size(size_str@) {
            Ok(size) => format_size(size.bytes),
            Err(_) => size_str@,
        }),
{
    match FileSize::parse(size_str) {
        Ok(size) => size.format(),
        Err(_) => str_to_string(size_str),
    }
}

/// The words of `words`, one after the other, with `separator` between
/// every two.
pub open spec fn joined(words: Seq<Seq<char>>, separator: Seq<char>) -> Seq<char>
    decreases words.len(),
{
    if words.len() == 0 {
        Seq::empty()
    } else if words.len() == 1 {
        words[0]
    } else {
        joined(words.drop_last(), separator) + separator + words.last()
    }
}

/// The first `count` words of `words`, joined by `separator`.
fn join_first(words: &Vec<String>, count: usize, separator: &str) -> (text: Vec<char>)
    requires
        count <= words.len(),
    ensures
        text@ == joined(words.deep_view().take(count as int), separator@),
{
    let mut text: Vec<char> = Vec::new();
    let sep = to_chars(separator);
    let mut i: usize = 0;
    assert(words.deep_view().take(0).len() == 0);
    while i < count
        invariant
            i <= count <= words.len(),
            sep@ == separator@,
            text@ == joined(words.deep_view().take(i as int), separator@),
        decreases count - i,
    {
        let ghost before = words.deep_view().take(i as int);
        let ghost after = words.deep_view().take(i + 1);
        assert(after.drop_last() == before);
        assert(after.last() == words[i as int]@);
        if i > 0 {
            append_chars(&mut text, &sep);
        }
        let word = to_chars(words[i].as_str());
        append_chars(&mut text, &word);
        proof {
            if i == 0 {
                assert(before.len() == 0);
                assert(text@ == words[i as int]@);
            }
        }
        i += 1;
    }
    text
}

/// The extensions of a rule as a table shows them: all of them, with
/// commas between; or, of more than three, the first three and how many
/// there are.
pub open spec fn extensions_shown(extensions: Seq<Seq<char>>) -> Seq<char> {
    if extensions.len() > 3 {
        joined(extensions.take(3), ","@) + "... ("@ + decimal_text(extensions.len()) + " total)"@
    } else {
        joined(extensions, ","@)
    }
}

/// The extensions of a rule as a table shows them, as in `jpg,jpeg,png` or
/// `nef,cr2,cr3... (8 total)`.
pub fn extensions_summary(extensions: &Vec<String>) -> (text: String)
    ensures
        text@ == extensions_shown(extensions.deep_view()),
{
    if extensions.len() > 3 {
        let mut text = join_first(extensions, 3, ",");
        let open = to_chars("... (");
        append_chars(&mut text, &open);
        let count = decimal_chars(extensions.len() as u64);
        append_chars(&mut text, &count);
        let close = to_chars(" total)");
        append_chars(&mut text, &close);
        from_chars(&text)
    } else {
        assert(extensions.deep_view().take(extensions.len() as int) == extensions.deep_view());
        from_chars(&join_first(extensions, extensions.len(), ","))
    }
}

/// How many of the first `upto` rules are enabled.
pub open spec fn enabled_among(rules: Seq<RuleView>, upto: int) -> nat
    decreases upto,
{
    if upto <= 0 || upto > rules.len() {
        0
    } else if rules[upto - 1].enabled {
        enabled_among(rules, upto - 1) + 1
    } else {
        enabled_among(rules, upto - 1)
    }
}

/// How many rules of `config` are enabled.
pub fn enabled_count(config: &Config) -> (count: usize)
    ensures
        count == enabled_among(config@.rules, config.rules.len() as int),
{
    let mut count: usize = 0;
    let mut i: usize = 0;
    while i < config.rules.len()
        invariant
            i <= config.rules.len(),
            count <= i,
            count == enabled_among(config@.rules, i as int),
        decreases config.rules.len() - i,
    {
        assert(config@.rules[i as int] == config.rules[i as int]@);
        if config.rules[i].enabled {
            count += 1;
        }
        i += 1;
    }
    count
}

/// A rule as a form shows it, every field as text.
#[derive(Debug, Clone)]
pub struct RuleItem {
    /// The place of the rule in the list of rules.
    pub id: i32,
    pub name: String,
    pub description: String,
    /// The extensions, with commas between.
    pub extensions: String,
    pub directory_template: String,
    /// The lower bound of the size, empty where there is none.
    pub min_size: String,
    /// The upper bound of the size, empty where there is none.
    pub max_size: String,
    pub enabled: bool,
}

/// A `RuleItem` as plain text.
pub struct RuleItemView {
    pub id: i32,
    pub name: Seq<char>,
    pub description: Seq<char>,
    pub extensions: Seq<char>,
    pub directory_template: Seq<char>,
    pub min_size: Seq<char>,
    pub max_size: Seq<char>,
    pub enabled: bool,
}

impl View for RuleItem {
    type V = RuleItemView;

    open spec fn view(&self) -> RuleItemView {
        RuleItemView {
            id: self.id,
            name: self.name@,
            description: self.description@,
            extensions: self.extensions@,
            directory_template: self.directory_template@,
            min_size: self.min_size@,
            max_size: self.max_size@,
            enabled: self.enabled,
        }
    }
}

/// A bound as a form shows it: its text, or nothing where it is absent.
pub open spec fn bound_shown(bound: Option<Seq<char>>) -> Seq<char> {
    match bound {
        Some(text) => text,
        None => Seq::empty(),
    }
}

/// The rule at `place` as a form shows it. The place is cut to the width of
/// `id`.
pub open spec fn rule_item(rule: RuleView, place: usize) -> RuleItemView {
    RuleItemView {
        id: place as i32,
        name: rule.name,
        description: rule.description,
        extensions: joined(rule.extensions, ","@),
        directory_template: rule.directory_template,
        min_size: match rule.file_size {
            Some(filter) => bound_shown(filter.min),
            None => Seq::empty(),
        },
        max_size: match rule.file_size {
            Some(filter) => bound_shown(filter.max),
            None => Seq::empty(),
        },
        enabled: rule.enabled,
    }
}

/// Computes `bound_shown`.
fn shown_bound(bound: &Option<String>) -> (text: String)
    ensures
        text@ == bound_shown(bound.deep_view()),
{
    match bound {
        Some(text) => text.clone(),
        None => String::new(),
    }
}

/// The rules of `config` as a form shows them, in their order.
pub fn rules_to_gui(config: &Config) -> (items: Vec<RuleItem>)
    ensures
        items.len() == config.rules.len(),
        forall|i: int|
            0 <= i < items.len() ==> (#[trigger] items[i])@ == rule_item(
                config@.rules[i],
                i as usize,
            ),
{
    let mut items: Vec<RuleItem> = Vec::new();
    let mut i: usize = 0;
    while i < config.rules.len()
        invariant
            i <= config.rules.len(),
            items.len() == i,
            forall|k: int|
                0 <= k < i ==> (#[trigger] items[k])@ == rule_item(config@.rules[k], k as usize),
        decreases config.rules.len() - i,
    {
        let rule = &config.rules[i];
        assert(config@.rules[i as int] == rule@);
        assert(rule.extensions.deep_view().take(rule.extensions.len() as int)
            == rule.extensions.deep_view());
        let (min_size, max_size) = match &rule.file_size {
            Some(filter) => (shown_bound(&filter.min), shown_bound(&filter.max)),
            None => (String::new(), String::new()),
        };
        items.push(
            RuleItem {
                id: #[verifier::truncate]
                (i as i32),
                name: rule.name.clone(),
                description: rule.description.clone(),
                extensions: from_chars(&join_first(&rule.extensions, rule.extensions.len(), ",")),
                directory_template: rule.directory_template.clone(),
                min_size,
                max_size,
                enabled: rule.enabled,
            },
        );
        i += 1;
    }
    items
}

} // verus!
