//! Level resolution: how directive rules combine with the configured filter.
//!
//! From the lowest to the highest priority, a module's threshold is decided
//! by the configured default, the configured override of that module, the
//! last directive rule that sets the default, and the last directive rule for
//! that module.

use crate::directive::{last_default, last_for, rule_views, rules_of, Rule, RuleView};
use crate::filter::{lemma_with_override, LevelFilter, LevelFilterView};
use crate::level::Level;
use vstd::prelude::*;

verus! {

/// The threshold that applies to `module` under the configured filter and the
/// rules of a directive.
pub open spec fn effective_level(
    configured: LevelFilterView,
    rules: Seq<RuleView>,
    module: Seq<char>,
) -> Level {
    match last_for(rules, module) {
        Some(level) => level,
        None => match last_default(rules) {
            Some(level) => level,
            None => configured.threshold(module),
        },
    }
}

/// The filter that the module rules are applied to. A rule that sets the
/// default threshold outranks everything configured, the configured overrides
/// included, so with such a rule the filter starts from that default alone.
pub open spec fn base_filter(configured: LevelFilterView, rules: Seq<RuleView>) -> LevelFilterView {
    match last_default(rules) {
        Some(level) => LevelFilterView { default: level, overrides: Seq::empty() },
        None => configured,
    }
}

/// `filter` after each module rule, in the order written, has overridden its
/// module.
pub open spec fn with_module_rules(filter: LevelFilterView, rules: Seq<RuleView>) -> LevelFilterView
    decreases rules.len(),
{
    if rules.len() == 0 {
        filter
    } else {
        let before = with_module_rules(filter, rules.drop_last());
        match rules.last().module {
            Some(module) => before.with_override(module, rules.last().level),
            None => before,
        }
    }
}

/// The single filter that stands for the configured filter combined with the
/// rules of a directive.
pub open spec fn resolved(configured: LevelFilterView, rules: Seq<RuleView>) -> LevelFilterView {
    with_module_rules(base_filter(configured, rules), rules)
}

/// Applying module rules keeps a filter's default, and gives each module the
/// level of its last rule, or leaves its threshold; a well-formed filter
/// stays well formed.
pub proof fn lemma_with_module_rules(
    filter: LevelFilterView,
    rules: Seq<RuleView>,
    module: Seq<char>,
)
    ensures
        filter.wf() ==> with_module_rules(filter, rules).wf(),
        with_module_rules(filter, rules).default == filter.default,
        with_module_rules(filter, rules).threshold(module) == match last_for(rules, module) {
            Some(level) => level,
            None => filter.threshold(module),
        },
    decreases rules.len(),
{
    if rules.len() > 0 {
        let before = with_module_rules(filter, rules.drop_last());
        lemma_with_module_rules(filter, rules.drop_last(), module);
        match rules.last().module {
            Some(named) => {
                lemma_with_override(before, named, rules.last().level, module);
            },
            None => {},
        }
    }
}

/// The resolved filter gives every module its effective level.
pub proof fn lemma_resolved_threshold(
    configured: LevelFilterView,
    rules: Seq<RuleView>,
    module: Seq<char>,
)
    ensures
        configured.wf() ==> resolved(configured, rules).wf(),
        resolved(configured, rules).threshold(module) == effective_level(configured, rules, module),
{
    lemma_with_module_rules(base_filter(configured, rules), rules, module);
}

/// Without a directive the configuration alone decides: `Debug` records of a
/// module that is configured at `Debug` are kept, and `Debug` records of a
/// module without an override are dropped under the default `Info`.
pub proof fn lemma_configured_override_applies(
    configured: LevelFilterView,
    listed: Seq<char>,
    unlisted: Seq<char>,
)
    requires
        configured.override_for(listed) == Some(Level::Debug),
        configured.override_for(unlisted) is None,
        configured.default == Level::Info,
    ensures
        rules_of(None) is Ok,
        resolved(configured, rules_of(None)->Ok_0).retains(listed, Level::Debug),
        !resolved(configured, rules_of(None)->Ok_0).retains(unlisted, Level::Debug),
{
    let rules = rules_of(None)->Ok_0;
    lemma_resolved_threshold(configured, rules, listed);
    lemma_resolved_threshold(configured, rules, unlisted);
}

/// A directive rule that sets the default threshold outranks what was
/// configured: the last such rule decides for every module that the
/// directive does not name, whatever the configured default and overrides.
pub proof fn lemma_directive_default_wins(
    configured: LevelFilterView,
    rules: Seq<RuleView>,
    module: Seq<char>,
)
    requires
        last_default(rules) is Some,
        last_for(rules, module) is None,
    ensures
        resolved(configured, rules).threshold(module) == last_default(rules)->0,
{
    lemma_resolved_threshold(configured, rules, module);
}

/// A directive rule for a module outranks everything else: the last such
/// rule decides for that module, whatever was configured for it and whatever
/// default the directive sets.
pub proof fn lemma_directive_module_wins(
    configured: LevelFilterView,
    rules: Seq<RuleView>,
    module: Seq<char>,
)
    requires
        last_for(rules, module) is Some,
    ensures
        resolved(configured, rules).threshold(module) == last_for(rules, module)->0,
{
    lemma_resolved_threshold(configured, rules, module);
}

/// A record is kept exactly when its severity is at least the effective
/// level of its module.
pub proof fn lemma_retained_iff_at_least(
    configured: LevelFilterView,
    rules: Seq<RuleView>,
    module: Seq<char>,
    level: Level,
)
    ensures
        resolved(configured, rules).retains(module, level) <==> level.severity()
            >= effective_level(configured, rules, module).severity(),
{
    lemma_resolved_threshold(configured, rules, module);
}

/// The level of the last rule that sets the default threshold.
fn find_default(rules: &Vec<Rule>) -> (r: Option<Level>)
    ensures
        r == last_default(rule_views(rules@)),
{
    let ghost all = rule_views(rules@);
    let mut i: usize = rules.len();
    assert(all.take(i as int) =~= all);
    while i > 0
        invariant
            i <= rules.len(),
            all == rule_views(rules@),
            last_default(all) == last_default(all.take(i as int)),
        decreases i,
    {
        assert(all.take(i as int).drop_last() =~= all.take(i - 1));
        if rules[i - 1].module.is_none() {
            return Some(rules[i - 1].level);
        }
        i -= 1;
    }
    None
}

/// Combines the configured filter with the rules of a directive into one
/// filter.
pub fn resolve(configured: &LevelFilter, rules: &Vec<Rule>) -> (r: LevelFilter)
    ensures
        r@ == resolved(configured@, rule_views(rules@)),
        r@.wf(),
{
    let ghost all = rule_views(rules@);
    let mut filter = match find_default(rules) {
        Some(level) => LevelFilter::new(level),
        None => configured.clone(),
    };
    let ghost base = filter@;
    let mut i: usize = 0;
    while i < rules.len()
        invariant
            i <= rules.len(),
            all == rule_views(rules@),
            base == base_filter(configured@, all),
            filter@ == with_module_rules(base, all.take(i as int)),
            filter@.wf(),
        decreases rules.len() - i,
    {
        assert(all.take(i + 1).drop_last() =~= all.take(i as int));
        match &rules[i].module {
            Some(module) => {
                filter.set_module(module.as_str(), rules[i].level);
            },
            None => {},
        }
        i += 1;
    }
    assert(all.take(i as int) =~= all);
    filter
}

} // verus!
