//! The index of rules by extension, and how it is built: rule by rule,
//! extension by extension, alias group by alias group, so that in the end
//! each key holds the places of the rules listed under it, each once and in
//! rising order.

use crate::config::{AliasView, Config, ConfigView, RuleView};
use crate::rule_matcher::{
    alias_links, ext_registers, group_has, group_yields, is_candidate, list_covers,
    rule_registers,
};
use crate::text::{
    chars_eq_ignore_ascii_case, eq_ignoring_ascii_case, lowercase_of, to_chars, to_lowercase,
};
use vstd::hash_map::StringHashMap;
use vstd::prelude::*;

verus! {

/// The rules listed under `key`; none where the index has no such key.
pub open spec fn listed(index: Map<Seq<char>, Vec<usize>>, key: Seq<char>) -> Seq<usize> {
    if index.contains_key(key) {
        index[key]@
    } else {
        Seq::empty()
    }
}

/// Whether `list` is what the index holds under `key` while the rule at `n`
/// is being listed: the rules before `n` that are listed under `key`, in
/// order, followed by `n` itself where `covered` says that it was listed
/// there already.
pub open spec fn list_within(
    list: Seq<usize>,
    config: ConfigView,
    key: Seq<char>,
    n: int,
    covered: bool,
) -> bool {
    &&& forall|p: int, q: int| 0 <= p < q < list.len() ==> list[p] < list[q]
    &&& forall|p: int| 0 <= p < list.len() ==> list[p] <= n && is_candidate(config, list[p] as int, key)
    &&& forall|i: int| 0 <= i < n && is_candidate(config, i, key) ==> list.contains(i as usize)
    &&& covered ==> list.contains(n as usize)
}

/// Whether the index holds `list_within` under every key.
pub open spec fn index_within(
    index: Map<Seq<char>, Vec<usize>>,
    config: ConfigView,
    n: int,
    covered: spec_fn(Seq<char>) -> bool,
) -> bool {
    forall|key: Seq<char>| list_within(#[trigger] listed(index, key), config, key, n, covered(key))
}

/// Whether the index lists exactly the first `upto` rules.
pub open spec fn index_covers(index: Map<Seq<char>, Vec<usize>>, config: ConfigView, upto: int) -> bool {
    forall|key: Seq<char>| list_covers(#[trigger] listed(index, key), config, key, upto)
}

/// `list` with `n` at its end, unless it holds `n` already.
pub open spec fn with_rule(list: Seq<usize>, n: usize) -> Seq<usize> {
    if list.contains(n) {
        list
    } else {
        list.push(n)
    }
}

/// Whether `list` holds `n`.
fn list_holds(list: &Vec<usize>, n: usize) -> (r: bool)
    ensures
        r == list@.contains(n),
{
    let mut p: usize = 0;
    while p < list.len()
        invariant
            p <= list.len(),
            forall|q: int| 0 <= q < p ==> list@[q] != n,
        decreases list.len() - p,
    {
        if list[p] == n {
            return true;
        }
        p += 1;
    }
    false
}

/// Lists the rule at `n` under `key`, unless it is listed there already.
fn register(index: &mut StringHashMap<Vec<usize>>, key: String, n: usize)
    ensures
        forall|other: Seq<char>|
            #[trigger] listed(final(index)@, other) == if other == key@ {
                with_rule(listed(old(index)@, other), n)
            } else {
                listed(old(index)@, other)
            },
{
    let mut list: Vec<usize> = Vec::new();
    match index.get(key.as_str()) {
        Some(found) => {
            let mut p: usize = 0;
            while p < found.len()
                invariant
                    p <= found.len(),
                    list@ == found@.take(p as int),
                decreases found.len() - p,
            {
                list.push(found[p]);
                p += 1;
            }
            assert(list@ == found@);
        },
        None => {},
    }
    assert(list@ == listed(index@, key@));
    if !list_holds(&list, n) {
        list.push(n);
    }
    index.insert(key, list);
}

/// Whether the rule was listed under `key` for one of its first `j`
/// extensions.
pub open spec fn covered_by_exts(rule: RuleView, aliases: Seq<AliasView>, key: Seq<char>, j: int) -> bool {
    exists|e: int|
        0 <= e < j && e < rule.extensions.len() && ext_registers(
            aliases,
            #[trigger] rule.extensions[e],
            key,
        )
}

/// Whether one of the first `g` alias groups links `ext` to `key`.
pub open spec fn covered_by_groups(aliases: Seq<AliasView>, ext: Seq<char>, key: Seq<char>, g: int) -> bool {
    exists|h: int|
        0 <= h < g && h < aliases.len() && group_has((#[trigger] aliases[h]).extensions, ext)
            && group_yields(aliases[h].extensions, key)
}

/// Whether `key` is the lower-case form of one of the first `b` members of
/// `group`.
pub open spec fn covered_by_members(group: Seq<Seq<char>>, key: Seq<char>, b: int) -> bool {
    exists|m: int| 0 <= m < b && m < group.len() && lowercase_of(#[trigger] group[m]) == key
}

/// Whether the rule was listed under `key` when its first `j` extensions
/// are done, and of extension `j` its own name and the first `g` groups.
pub open spec fn covered_in_ext(
    rule: RuleView,
    aliases: Seq<AliasView>,
    key: Seq<char>,
    j: int,
    g: int,
) -> bool {
    ||| covered_by_exts(rule, aliases, key, j)
    ||| lowercase_of(rule.extensions[j]) == key
    ||| covered_by_groups(aliases, rule.extensions[j], key, g)
}

/// Whether the rule was listed under `key` when, beyond `covered_in_ext`,
/// the first `b` members of group `g` are done.
pub open spec fn covered_in_group(
    rule: RuleView,
    aliases: Seq<AliasView>,
    key: Seq<char>,
    j: int,
    g: int,
    b: int,
) -> bool {
    covered_in_ext(rule, aliases, key, j, g) || covered_by_members(aliases[g].extensions, key, b)
}

/// Listing the rule at `n` under one more key keeps the index in order.
proof fn lemma_listing(
    before: Map<Seq<char>, Vec<usize>>,
    after: Map<Seq<char>, Vec<usize>>,
    config: ConfigView,
    n: usize,
    key: Seq<char>,
    covered_before: spec_fn(Seq<char>) -> bool,
    covered_after: spec_fn(Seq<char>) -> bool,
)
    requires
        index_within(before, config, n as int, covered_before),
        forall|other: Seq<char>|
            #[trigger] listed(after, other) == if other == key {
                with_rule(listed(before, other), n)
            } else {
                listed(before, other)
            },
        is_candidate(config, n as int, key),
        forall|other: Seq<char>| #[trigger]
            covered_after(other) ==> covered_before(other) || other == key,
    ensures
        index_within(after, config, n as int, covered_after),
{
    assert forall|other: Seq<char>|
        list_within(
            #[trigger] listed(after, other),
            config,
            other,
            n as int,
            covered_after(other),
        ) by {
        let old_list = listed(before, other);
        let new_list = listed(after, other);
        assert(list_within(old_list, config, other, n as int, covered_before(other)));
        if other == key && !old_list.contains(n) {
            assert(new_list == old_list.push(n));
            assert forall|p: int, q: int| 0 <= p < q < new_list.len() implies new_list[p]
                < new_list[q] by {
                if q == old_list.len() {
                    assert(old_list[p] <= n);
                    assert(old_list[p] != n);
                }
            }
            assert forall|i: int| 0 <= i < n && is_candidate(config, i, other) implies
                new_list.contains(i as usize) by {
                let p = choose|p: int| 0 <= p < old_list.len() && old_list[p] == i as usize;
                assert(new_list[p] == i as usize);
            }
            assert(new_list[old_list.len() as int] == n);
        }
    }
}

/// What holds for more keys than needed holds for the needed ones.
proof fn lemma_narrow(
    index: Map<Seq<char>, Vec<usize>>,
    config: ConfigView,
    n: int,
    wide: spec_fn(Seq<char>) -> bool,
    narrow: spec_fn(Seq<char>) -> bool,
)
    requires
        index_within(index, config, n, wide),
        forall|key: Seq<char>| #[trigger] narrow(key) ==> wide(key),
    ensures
        index_within(index, config, n, narrow),
{
    assert forall|key: Seq<char>|
        list_within(#[trigger] listed(index, key), config, key, n, narrow(key)) by {
        assert(list_within(listed(index, key), config, key, n, wide(key)));
    }
}

/// An index of the first `n` rules is ready for the rule at `n`.
proof fn lemma_start_rule(index: Map<Seq<char>, Vec<usize>>, config: ConfigView, n: int)
    requires
        index_covers(index, config, n),
    ensures
        index_within(index, config, n, |key: Seq<char>| false),
{
    assert forall|key: Seq<char>|
        list_within(#[trigger] listed(index, key), config, key, n, false) by {}
}

/// Once the rule at `n` is listed under each of its keys, the index holds
/// the first `n + 1` rules.
proof fn lemma_end_rule(
    index: Map<Seq<char>, Vec<usize>>,
    config: ConfigView,
    n: int,
    covered: spec_fn(Seq<char>) -> bool,
)
    requires
        index_within(index, config, n, covered),
        forall|key: Seq<char>| is_candidate(config, n, key) ==> #[trigger] covered(key),
    ensures
        index_covers(index, config, n + 1),
{
    assert forall|key: Seq<char>|
        list_covers(#[trigger] listed(index, key), config, key, n + 1) by {
        let list = listed(index, key);
        assert(list_within(list, config, key, n, covered(key)));
        assert forall|i: int| 0 <= i < n + 1 && is_candidate(config, i, key) implies list.contains(
            i as usize,
        ) by {
            if i == n {
                assert(covered(key));
            }
        }
    }
}

/// Whether `group` holds `ext`, up to the case of ASCII letters.
fn group_holds(group: &Vec<String>, ext: &Vec<char>) -> (r: bool)
    ensures
        r == group_has(group.deep_view(), ext@),
{
    let mut a: usize = 0;
    while a < group.len()
        invariant
            a <= group.len(),
            forall|k: int|
                0 <= k < a ==> !eq_ignoring_ascii_case(#[trigger] group.deep_view()[k], ext@),
        decreases group.len() - a,
    {
        let member = to_chars(group[a].as_str());
        assert(group.deep_view()[a as int] == member@);
        if chars_eq_ignore_ascii_case(&member, ext) {
            return true;
        }
        a += 1;
    }
    false
}

/// Lists the rule at `n` under every member of the alias group at `g`, if
/// the group holds the rule's extension at `j`.
fn list_group(index: &mut StringHashMap<Vec<usize>>, config: &Config, n: usize, j: usize, g: usize)
    requires
        n < config.rules.len(),
        config.rules[n as int].enabled,
        j < config.rules[n as int].extensions.len(),
        g < config.extension_aliases.len(),
        index_within(
            old(index)@,
            config@,
            n as int,
            |key: Seq<char>|
                covered_in_ext(
                    config@.rules[n as int],
                    config@.extension_aliases,
                    key,
                    j as int,
                    g as int,
                ),
        ),
    ensures
        index_within(
            final(index)@,
            config@,
            n as int,
            |key: Seq<char>|
                covered_in_ext(
                    config@.rules[n as int],
                    config@.extension_aliases,
                    key,
                    j as int,
                    g + 1,
                ),
        ),
{
    let ghost rule = config@.rules[n as int];
    let ghost aliases = config@.extension_aliases;
    let ghost ext_text = rule.extensions[j as int];
    let group = &config.extension_aliases[g].extensions;
    let ext = to_chars(config.rules[n].extensions[j].as_str());
    assert(config@.rules[n as int] == config.rules[n as int]@);
    assert(aliases[g as int] == config.extension_aliases[g as int]@);
    assert(ext@ == ext_text);
    assert(group.deep_view() == aliases[g as int].extensions);
    if !group_holds(group, &ext) {
        proof {
            lemma_narrow(
                index@,
                config@,
                n as int,
                |key: Seq<char>| covered_in_ext(rule, aliases, key, j as int, g as int),
                |key: Seq<char>| covered_in_ext(rule, aliases, key, j as int, g + 1),
            );
        }
        return ;
    }
    let mut b: usize = 0;
    proof {
        lemma_narrow(
            index@,
            config@,
            n as int,
            |key: Seq<char>| covered_in_ext(rule, aliases, key, j as int, g as int),
            |key: Seq<char>| covered_in_group(rule, aliases, key, j as int, g as int, 0),
        );
    }
    while b < group.len()
        invariant
            b <= group.len(),
            n < config.rules.len(),
            j < config.rules[n as int].extensions.len(),
            g < config.extension_aliases.len(),
            rule == config@.rules[n as int],
            rule.enabled,
            aliases == config@.extension_aliases,
            ext_text == rule.extensions[j as int],
            group.deep_view() == aliases[g as int].extensions,
            group_has(aliases[g as int].extensions, ext_text),
            index_within(
                index@,
                config@,
                n as int,
                |key: Seq<char>| covered_in_group(rule, aliases, key, j as int, g as int, b as int),
            ),
        decreases group.len() - b,
    {
        let key = to_lowercase(group[b].as_str());
        let ghost before = index@;
        assert(group.deep_view()[b as int] == group[b as int]@);
        proof {
            assert(group_yields(aliases[g as int].extensions, key@));
            assert(alias_links(aliases, ext_text, key@));
            assert(ext_registers(aliases, rule.extensions[j as int], key@));
            assert(rule_registers(rule, aliases, key@));
        }
        register(index, key, n);
        proof {
            lemma_listing(
                before,
                index@,
                config@,
                n,
                key@,
                |other: Seq<char>| covered_in_group(rule, aliases, other, j as int, g as int, b as int),
                |other: Seq<char>| covered_in_group(rule, aliases, other, j as int, g as int, b + 1),
            );
        }
        b += 1;
    }
    proof {
        assert forall|key: Seq<char>|
            covered_in_ext(rule, aliases, key, j as int, g + 1) implies covered_in_group(
            rule,
            aliases,
            key,
            j as int,
            g as int,
            b as int,
        ) by {
            if !covered_in_ext(rule, aliases, key, j as int, g as int) {
                let h = choose|h: int|
                    0 <= h < g + 1 && h < aliases.len() && group_has(
                        (#[trigger] aliases[h]).extensions,
                        ext_text,
                    ) && group_yields(aliases[h].extensions, key);
                assert(h == g);
            }
        }
        lemma_narrow(
            index@,
            config@,
            n as int,
            |key: Seq<char>| covered_in_group(rule, aliases, key, j as int, g as int, b as int),
            |key: Seq<char>| covered_in_ext(rule, aliases, key, j as int, g + 1),
        );
    }
}

/// Lists the rule at `n` under its extension at `j` and under the members
/// of every alias group that holds that extension.
fn list_extension(index: &mut StringHashMap<Vec<usize>>, config: &Config, n: usize, j: usize)
    requires
        n < config.rules.len(),
        config.rules[n as int].enabled,
        j < config.rules[n as int].extensions.len(),
        index_within(
            old(index)@,
            config@,
            n as int,
            |key: Seq<char>|
                covered_by_exts(config@.rules[n as int], config@.extension_aliases, key, j as int),
        ),
    ensures
        index_within(
            final(index)@,
            config@,
            n as int,
            |key: Seq<char>|
                covered_by_exts(config@.rules[n as int], config@.extension_aliases, key, j + 1),
        ),
{
    let ghost rule = config@.rules[n as int];
    let ghost aliases = config@.extension_aliases;
    let ghost before = index@;
    assert(config@.rules[n as int] == config.rules[n as int]@);
    let key = to_lowercase(config.rules[n].extensions[j].as_str());
    assert(key@ == lowercase_of(rule.extensions[j as int]));
    proof {
        assert(ext_registers(aliases, rule.extensions[j as int], key@));
        assert(rule_registers(rule, aliases, key@));
    }
    register(index, key, n);
    proof {
        lemma_listing(
            before,
            index@,
            config@,
            n,
            lowercase_of(rule.extensions[j as int]),
            |other: Seq<char>| covered_by_exts(rule, aliases, other, j as int),
            |other: Seq<char>| covered_in_ext(rule, aliases, other, j as int, 0),
        );
    }
    let mut g: usize = 0;
    while g < config.extension_aliases.len()
        invariant
            g <= config.extension_aliases.len(),
            n < config.rules.len(),
            config.rules[n as int].enabled,
            j < config.rules[n as int].extensions.len(),
            rule == config@.rules[n as int],
            aliases == config@.extension_aliases,
            index_within(
                index@,
                config@,
                n as int,
                |key: Seq<char>| covered_in_ext(rule, aliases, key, j as int, g as int),
            ),
        decreases config.extension_aliases.len() - g,
    {
        list_group(index, config, n, j, g);
        g += 1;
    }
    proof {
        assert forall|key: Seq<char>|
            covered_by_exts(rule, aliases, key, j + 1) implies covered_in_ext(
            rule,
            aliases,
            key,
            j as int,
            g as int,
        ) by {
            let e = choose|e: int|
                0 <= e < j + 1 && e < rule.extensions.len() && ext_registers(
                    aliases,
                    #[trigger] rule.extensions[e],
                    key,
                );
            if e == j && lowercase_of(rule.extensions[j as int]) != key {
                let h = choose|h: int|
                    0 <= h < aliases.len() && group_has(
                        (#[trigger] aliases[h]).extensions,
                        rule.extensions[j as int],
                    ) && group_yields(aliases[h].extensions, key);
                assert(covered_by_groups(aliases, rule.extensions[j as int], key, g as int));
            }
        }
        lemma_narrow(
            index@,
            config@,
            n as int,
            |key: Seq<char>| covered_in_ext(rule, aliases, key, j as int, g as int),
            |key: Seq<char>| covered_by_exts(rule, aliases, key, j + 1),
        );
    }
}

/// Lists the rule at `n`, which is enabled, under each of its keys.
pub(crate) fn list_rule(index: &mut StringHashMap<Vec<usize>>, config: &Config, n: usize)
    requires
        n < config.rules.len(),
        config.rules[n as int].enabled,
        index_covers(old(index)@, config@, n as int),
    ensures
        index_covers(final(index)@, config@, n + 1),
{
    let ghost rule = config@.rules[n as int];
    let ghost aliases = config@.extension_aliases;
    assert(config@.rules[n as int] == config.rules[n as int]@);
    proof {
        lemma_start_rule(index@, config@, n as int);
        lemma_narrow(
            index@,
            config@,
            n as int,
            |key: Seq<char>| false,
            |key: Seq<char>| covered_by_exts(rule, aliases, key, 0),
        );
    }
    let mut j: usize = 0;
    while j < config.rules[n].extensions.len()
        invariant
            j <= config.rules[n as int].extensions.len(),
            n < config.rules.len(),
            config.rules[n as int].enabled,
            rule == config@.rules[n as int],
            rule.extensions.len() == config.rules[n as int].extensions.len(),
            aliases == config@.extension_aliases,
            index_within(
                index@,
                config@,
                n as int,
                |key: Seq<char>| covered_by_exts(rule, aliases, key, j as int),
            ),
        decreases config.rules[n as int].extensions.len() - j,
    {
        list_extension(index, config, n, j);
        j += 1;
    }
    proof {
        assert forall|key: Seq<char>| is_candidate(config@, n as int, key) implies covered_by_exts(
            rule,
            aliases,
            key,
            j as int,
        ) by {
            let e = choose|e: int|
                0 <= e < rule.extensions.len() && ext_registers(
                    aliases,
                    #[trigger] rule.extensions[e],
                    key,
                );
            assert(0 <= e < j);
        }
        lemma_end_rule(
            index@,
            config@,
            n as int,
            |key: Seq<char>| covered_by_exts(rule, aliases, key, j as int),
        );
    }
}

/// An index of the first `n` rules holds the first `n + 1` as it is, where
/// the rule at `n` is listed nowhere.
pub(crate) proof fn lemma_unlisted_rule(index: Map<Seq<char>, Vec<usize>>, config: ConfigView, n: int)
    requires
        0 <= n < config.rules.len(),
        index_covers(index, config, n),
        !config.rules[n].enabled || config.rules[n].extensions.len() == 0,
    ensures
        index_covers(index, config, n + 1),
{
    lemma_start_rule(index, config, n);
    lemma_end_rule(index, config, n, |key: Seq<char>| false);
}

} // verus!
