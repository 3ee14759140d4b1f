//! Runtime directives: comma-separated rules that override configured levels.
//!
//! A directive is a list of rules separated by commas. A rule is either a
//! level name, which sets the default threshold, or `module=level`, which sets
//! the threshold of one module. Empty rules are skipped. Anything else makes
//! the whole directive invalid.

use crate::level::{level_named, recognise_level, Level};
use crate::text::chars_of;
use vstd::prelude::*;

verus! {

/// One rule of a directive. Without a module it sets the default threshold.
#[derive(Debug, PartialEq, Eq)]
pub struct Rule {
    pub module: Option<String>,
    pub level: Level,
}

/// Mathematical model of a [`Rule`].
pub struct RuleView {
    pub module: Option<Seq<char>>,
    pub level: Level,
}

impl View for Rule {
    type V = RuleView;

    open spec fn view(&self) -> RuleView {
        RuleView {
            module: match self.module {
                Some(name) => Some(name@),
                None => None,
            },
            level: self.level,
        }
    }
}

/// The views of a list of rules, in order.
pub open spec fn rule_views(rules: Seq<Rule>) -> Seq<RuleView> {
    rules.map_values(|r: Rule| r@)
}

/// A directive that could not be read; `rule` is the text of its first
/// invalid rule.
#[derive(Debug, PartialEq, Eq)]
pub struct ConfigurationError {
    pub rule: String,
}

impl View for ConfigurationError {
    type V = Seq<char>;

    open spec fn view(&self) -> Seq<char> {
        self.rule@
    }
}

impl ConfigurationError {
    /// A sentence that names the invalid rule.
    pub fn message(&self) -> (r: String)
        ensures
            r@ == "invalid logging directive: '"@ + self.rule@ + "'"@,
    {
        let mut text = "invalid logging directive: '".to_owned();
        text.append(self.rule.as_str());
        text.append("'");
        text
    }
}

/// Index of the first occurrence of `c` in `text`, or the length of `text`
/// if `c` does not occur.
pub open spec fn first_index(text: Seq<char>, c: char) -> int
    decreases text.len(),
{
    if text.len() == 0 {
        0
    } else if text[0] == c {
        0
    } else {
        1 + first_index(text.drop_first(), c)
    }
}

/// The rule that a non-empty piece of text stands for, if it is one: a level
/// name, or a module, `=` and a level name.
pub open spec fn rule_of(text: Seq<char>) -> Option<RuleView> {
    let eq = first_index(text, '=');
    if eq < text.len() {
        match level_named(text.skip(eq + 1)) {
            Some(level) => Some(RuleView { module: Some(text.take(eq)), level }),
            None => None,
        }
    } else {
        match level_named(text) {
            Some(level) => Some(RuleView { module: None, level }),
            None => None,
        }
    }
}

/// The outcome for a directive that starts with the piece `first`, given the
/// outcome for the rest of it. An empty piece is skipped; an invalid one is
/// the error, whatever follows.
pub open spec fn preceded_by(
    first: Seq<char>,
    rest: Result<Seq<RuleView>, Seq<char>>,
) -> Result<Seq<RuleView>, Seq<char>> {
    if first.len() == 0 {
        rest
    } else {
        match rule_of(first) {
            None => Err(first),
            Some(rule) => match rest {
                Ok(rules) => Ok(seq![rule] + rules),
                Err(e) => Err(e),
            },
        }
    }
}

/// The rules of a directive in the order written, or the text of the first
/// rule that is invalid.
pub open spec fn directive_rules(text: Seq<char>) -> Result<Seq<RuleView>, Seq<char>>
    decreases text.len(),
    via directive_rules_decreases
{
    let end = first_index(text, ',');
    if end < text.len() {
        preceded_by(text.take(end), directive_rules(text.skip(end + 1)))
    } else {
        preceded_by(text, Ok(Seq::empty()))
    }
}

#[via_fn]
proof fn directive_rules_decreases(text: Seq<char>) {
    lemma_first_index(text, ',');
}

/// The text of an optional string.
pub open spec fn text_of(value: Option<&str>) -> Option<Seq<char>> {
    match value {
        Some(text) => Some(text@),
        None => None,
    }
}

/// The rules of an optional directive: none where no directive is given.
pub open spec fn rules_of(directive: Option<Seq<char>>) -> Result<Seq<RuleView>, Seq<char>> {
    match directive {
        Some(text) => directive_rules(text),
        None => Ok(Seq::empty()),
    }
}

/// The level of the last rule that sets the default threshold, if any.
pub open spec fn last_default(rules: Seq<RuleView>) -> Option<Level>
    decreases rules.len(),
{
    if rules.len() == 0 {
        None
    } else if rules.last().module is None {
        Some(rules.last().level)
    } else {
        last_default(rules.drop_last())
    }
}

/// The level of the last rule for `module`, if any.
pub open spec fn last_for(rules: Seq<RuleView>, module: Seq<char>) -> Option<Level>
    decreases rules.len(),
{
    if rules.len() == 0 {
        None
    } else if rules.last().module == Some(module) {
        Some(rules.last().level)
    } else {
        last_for(rules.drop_last(), module)
    }
}

/// What `first_index` finds: the first occurrence, with none before it.
pub proof fn lemma_first_index(text: Seq<char>, c: char)
    ensures
        0 <= first_index(text, c) <= text.len(),
        first_index(text, c) < text.len() ==> text[first_index(text, c)] == c,
        forall|j: int| 0 <= j < first_index(text, c) ==> #[trigger] text[j] != c,
    decreases text.len(),
{
    if text.len() > 0 && text[0] != c {
        let rest = text.drop_first();
        lemma_first_index(rest, c);
        assert forall|j: int| 0 <= j < first_index(text, c) implies #[trigger] text[j] != c by {
            if j > 0 {
                assert(rest[j - 1] == text[j]);
            }
        }
    }
}

/// A position with no occurrence before it, which holds `c` or is the end of
/// the text, is the one `first_index` returns.
pub proof fn lemma_first_index_is(text: Seq<char>, c: char, p: int)
    requires
        0 <= p <= text.len(),
        p < text.len() ==> text[p] == c,
        forall|j: int| 0 <= j < p ==> #[trigger] text[j] != c,
    ensures
        first_index(text, c) == p,
{
    lemma_first_index(text, c);
}

/// Position of the first `c` in `chars`, or its length.
fn scan(chars: &Vec<char>, c: char) -> (r: usize)
    ensures
        r as int == first_index(chars@, c),
        r <= chars.len(),
{
    let mut i: usize = 0;
    while i < chars.len() && chars[i] != c
        invariant
            i <= chars.len(),
            forall|j: int| 0 <= j < i ==> #[trigger] chars@[j] != c,
        decreases chars.len() - i,
    {
        i += 1;
    }
    proof {
        lemma_first_index_is(chars@, c, i as int);
    }
    i
}

/// Reads one rule: a level name, or a module, `=` and a level name.
pub fn parse_rule(text: &str) -> (r: Option<Rule>)
    ensures
        match r {
            Some(rule) => rule_of(text@) == Some(rule@),
            None => rule_of(text@) is None,
        },
{
    let chars = chars_of(text);
    let eq = scan(&chars, '=');
    if eq < chars.len() {
        match recognise_level(text.substring_char(eq + 1, chars.len())) {
            Some(level) => {
                let module = text.substring_char(0, eq).to_owned();
                Some(Rule { module: Some(module), level })
            },
            None => None,
        }
    } else {
        match recognise_level(text) {
            Some(level) => Some(Rule { module: None, level }),
            None => None,
        }
    }
}

/// Joins the rules read so far with the outcome for the rest of a directive.
spec fn continued(
    done: Seq<RuleView>,
    rest: Result<Seq<RuleView>, Seq<char>>,
) -> Result<Seq<RuleView>, Seq<char>> {
    match rest {
        Ok(rules) => Ok(done + rules),
        Err(e) => Err(e),
    }
}

/// Reads a directive: its rules in the order written, or an error that holds
/// the first rule that is invalid.
pub fn parse_directive(directive: &str) -> (r: Result<Vec<Rule>, ConfigurationError>)
    ensures
        match r {
            Ok(rules) => directive_rules(directive@) == Ok::<Seq<RuleView>, Seq<char>>(
                rule_views(rules@),
            ),
            Err(e) => directive_rules(directive@) == Err::<Seq<RuleView>, Seq<char>>(e@),
        },
{
    let chars = chars_of(directive);
    let n = chars.len();
    let mut rules: Vec<Rule> = Vec::new();
    let mut start: usize = 0;
    assert(directive@.skip(0) =~= directive@);
    loop
        invariant
            start <= n,
            n == chars.len(),
            chars@ == directive@,
            directive_rules(directive@) == continued(
                rule_views(rules@),
                directive_rules(directive@.skip(start as int)),
            ),
        decreases n - start,
    {
        let ghost rest = directive@.skip(start as int);
        let ghost done = rule_views(rules@);
        let mut end: usize = start;
        while end < n && chars[end] != ','
            invariant
                start <= end <= n,
                n == chars.len(),
                forall|j: int| start <= j < end ==> #[trigger] chars@[j] != ',',
            decreases n - end,
        {
            end += 1;
        }
        proof {
            lemma_first_index_is(rest, ',', end - start);
            assert(rest.take(end - start) =~= directive@.subrange(start as int, end as int));
            if end < n {
                assert(rest.skip(end - start + 1) =~= directive@.skip(end + 1));
            }
        }
        if end > start {
            let piece = directive.substring_char(start, end);
            match parse_rule(piece) {
                Some(rule) => {
                    rules.push(rule);
                    proof {
                        assert(rule_views(rules@) =~= done.push(rule@));
                        let tail = if end < n {
                            directive_rules(directive@.skip(end + 1))
                        } else {
                            Ok(Seq::empty())
                        };
                        match tail {
                            Ok(more) => {
                                assert(done + (seq![rule@] + more) =~= done.push(rule@) + more);
                            },
                            Err(_) => {},
                        }
                    }
                },
                None => {
                    return Err(ConfigurationError { rule: piece.to_owned() });
                },
            }
        }
        if end == n {
            proof {
            }
            return Ok(rules);
        }
        start = end + 1;
    }
}

/// Reads an optional directive; without one there are no rules.
pub fn parse_optional(directive: Option<&str>) -> (r: Result<Vec<Rule>, ConfigurationError>)
    ensures
        match r {
            Ok(rules) => rules_of(text_of(directive)) == Ok::<Seq<RuleView>, Seq<char>>(
                rule_views(rules@),
            ),
            Err(e) => rules_of(text_of(directive)) == Err::<Seq<RuleView>, Seq<char>>(e@),
        },
{
    match directive {
        Some(text) => parse_directive(text),
        None => {
            let rules: Vec<Rule> = Vec::new();
            assert(rule_views(rules@) =~= Seq::empty());
            Ok(rules)
        },
    }
}

} // verus!
