//! Level filters: a default threshold plus per-module overrides.

use crate::level::Level;
use crate::text::same_text;
use vstd::prelude::*;

verus! {

/// A per-module override: records from `module` are filtered at `level`.
#[derive(Debug, PartialEq, Eq)]
pub struct ModuleLevel {
    pub module: String,
    pub level: Level,
}

impl View for ModuleLevel {
    type V = (Seq<char>, Level);

    open spec fn view(&self) -> (Seq<char>, Level) {
        (self.module@, self.level)
    }
}

/// The views of a list of overrides, in order.
pub open spec fn override_views(list: Seq<ModuleLevel>) -> Seq<(Seq<char>, Level)> {
    list.map_values(|o: ModuleLevel| o@)
}

/// Index of the last override for `module`, or `-1` if there is none.
pub open spec fn last_position(overrides: Seq<(Seq<char>, Level)>, module: Seq<char>) -> int
    decreases overrides.len(),
{
    if overrides.len() == 0 {
        -1
    } else if overrides.last().0 == module {
        overrides.len() - 1
    } else {
        last_position(overrides.drop_last(), module)
    }
}

/// No module is overridden twice.
pub open spec fn distinct_modules(overrides: Seq<(Seq<char>, Level)>) -> bool {
    forall|i: int, j: int|
        0 <= i < j < overrides.len() ==> (#[trigger] overrides[i]).0 != (#[trigger] overrides[j]).0
}

/// Mathematical model of a [`LevelFilter`].
pub struct LevelFilterView {
    pub default: Level,
    pub overrides: Seq<(Seq<char>, Level)>,
}

impl LevelFilterView {
    /// The filter holds at most one override per module.
    pub open spec fn wf(self) -> bool {
        distinct_modules(self.overrides)
    }

    /// The override that applies to `module`, matched by its exact name.
    pub open spec fn override_for(self, module: Seq<char>) -> Option<Level> {
        let p = last_position(self.overrides, module);
        if p >= 0 {
            Some(self.overrides[p].1)
        } else {
            None
        }
    }

    /// The minimum severity a record from `module` must have.
    pub open spec fn threshold(self, module: Seq<char>) -> Level {
        match self.override_for(module) {
            Some(level) => level,
            None => self.default,
        }
    }

    /// Whether a record of severity `level` from `module` is kept.
    pub open spec fn retains(self, module: Seq<char>, level: Level) -> bool {
        level.severity() >= self.threshold(module).severity()
    }

    /// The filter with its default threshold replaced.
    pub open spec fn with_default(self, level: Level) -> Self {
        LevelFilterView { default: level, overrides: self.overrides }
    }

    /// The filter after overriding `module`: an override already present is
    /// replaced where it stands, a new one is added at the end.
    pub open spec fn with_override(self, module: Seq<char>, level: Level) -> Self {
        let p = last_position(self.overrides, module);
        if p >= 0 {
            LevelFilterView {
                default: self.default,
                overrides: self.overrides.update(p, (module, level)),
            }
        } else {
            LevelFilterView {
                default: self.default,
                overrides: self.overrides.push((module, level)),
            }
        }
    }
}

/// What `last_position` finds: the named module at the position it returns,
/// and no other override for that module behind it.
pub proof fn lemma_last_position(overrides: Seq<(Seq<char>, Level)>, module: Seq<char>)
    ensures
        -1 <= last_position(overrides, module) < overrides.len(),
        last_position(overrides, module) >= 0 ==> overrides[last_position(overrides, module)].0
            == module,
        forall|j: int|
            last_position(overrides, module) < j < overrides.len() ==> (#[trigger] overrides[j]).0
                != module,
    decreases overrides.len(),
{
    if overrides.len() > 0 && overrides.last().0 != module {
        let front = overrides.drop_last();
        lemma_last_position(front, module);
        assert forall|j: int|
            last_position(overrides, module) < j < overrides.len() implies (
        #[trigger] overrides[j]).0 != module by {
            if j < front.len() {
                assert(front[j] == overrides[j]);
            }
        }
    }
}

/// A position that holds the named module and has no override for it behind
/// is the one `last_position` returns.
pub proof fn lemma_last_position_is(overrides: Seq<(Seq<char>, Level)>, module: Seq<char>, p: int)
    requires
        -1 <= p < overrides.len(),
        p >= 0 ==> overrides[p].0 == module,
        forall|j: int| p < j < overrides.len() ==> (#[trigger] overrides[j]).0 != module,
    ensures
        last_position(overrides, module) == p,
{
    lemma_last_position(overrides, module);
}

/// Overriding a module gives that module the new level and leaves the
/// default and the override of every other module as they were; a
/// well-formed filter stays well formed.
pub proof fn lemma_with_override(
    filter: LevelFilterView,
    module: Seq<char>,
    level: Level,
    other: Seq<char>,
)
    ensures
        filter.wf() ==> filter.with_override(module, level).wf(),
        filter.with_override(module, level).default == filter.default,
        filter.with_override(module, level).override_for(other) == if other == module {
            Some(level)
        } else {
            filter.override_for(other)
        },
        filter.with_override(module, level).threshold(other) == if other == module {
            level
        } else {
            filter.threshold(other)
        },
{
    let before = filter.overrides;
    let after = filter.with_override(module, level).overrides;
    let p = last_position(before, module);
    let q = last_position(before, other);
    lemma_last_position(before, module);
    lemma_last_position(before, other);
    if p >= 0 {
        // The override at `p` was replaced: every name stands where it stood.
        assert forall|i: int| 0 <= i < after.len() implies (#[trigger] after[i]).0 == before[i].0 by {}
        lemma_last_position_is(after, other, q);
    } else {
        // A new override was added behind the others.
        assert forall|i: int| 0 <= i < before.len() implies (#[trigger] after[i]) == before[i] by {}
        if other == module {
            lemma_last_position_is(after, other, before.len() as int);
        } else {
            lemma_last_position_is(after, other, q);
        }
    }
}

/// Overrides of two different modules can be made in either order: every
/// module ends with the same threshold.
pub proof fn lemma_overrides_commute(
    filter: LevelFilterView,
    first: Seq<char>,
    first_level: Level,
    second: Seq<char>,
    second_level: Level,
    module: Seq<char>,
)
    requires
        first != second,
    ensures
        filter.with_override(first, first_level).with_override(second, second_level).threshold(
            module,
        ) == filter.with_override(second, second_level).with_override(
            first,
            first_level,
        ).threshold(module),
{
    lemma_with_override(filter, first, first_level, module);
    lemma_with_override(filter.with_override(first, first_level), second, second_level, module);
    lemma_with_override(filter, second, second_level, module);
    lemma_with_override(filter.with_override(second, second_level), first, first_level, module);
}

/// A level filter: the default threshold and the per-module overrides, which
/// keep the order in which their modules were first named.
#[derive(Debug)]
pub struct LevelFilter {
    default: Level,
    overrides: Vec<ModuleLevel>,
}

impl View for LevelFilter {
    type V = LevelFilterView;

    closed spec fn view(&self) -> LevelFilterView {
        LevelFilterView { default: self.default, overrides: override_views(self.overrides@) }
    }
}

/// Finds the last override for `module` in `list`.
fn find_override(list: &Vec<ModuleLevel>, module: &str) -> (r: Option<usize>)
    ensures
        match r {
            Some(i) => i < list.len() && i as int == last_position(
                override_views(list@),
                module@,
            ),
            None => last_position(override_views(list@), module@) == -1,
        },
{
    let ghost all = override_views(list@);
    let mut i: usize = list.len();
    assert(all.take(i as int) =~= all);
    while i > 0
        invariant
            i <= list.len(),
            all == override_views(list@),
            last_position(all, module@) == last_position(all.take(i as int), module@),
        decreases i,
    {
        assert(all.take(i as int).drop_last() =~= all.take(i - 1));
        if same_text(list[i - 1].module.as_str(), module) {
            return Some(i - 1);
        }
        i -= 1;
    }
    None
}

impl LevelFilter {
    #[verifier::type_invariant]
    spec fn inv(self) -> bool {
        distinct_modules(override_views(self.overrides@))
    }

    /// A filter with the given default threshold and no override.
    pub fn new(default: Level) -> (r: Self)
        ensures
            r@ == (LevelFilterView { default, overrides: Seq::empty() }),
            r@.wf(),
    {
        let r = LevelFilter { default, overrides: Vec::new() };
        assert(r@.overrides =~= Seq::empty());
        r
    }

    /// The default threshold.
    pub fn default_level(&self) -> (r: Level)
        ensures
            r == self@.default,
    {
        self.default
    }

    /// The overrides, in the order in which their modules were first named.
    pub fn overrides(&self) -> (r: &Vec<ModuleLevel>)
        ensures
            override_views(r@) == self@.overrides,
            self@.wf(),
    {
        proof {
            use_type_invariant(self);
        }
        &self.overrides
    }

    /// Replaces the default threshold.
    pub fn set_default(&mut self, level: Level)
        ensures
            final(self)@ == old(self)@.with_default(level),
    {
        proof {
            use_type_invariant(&*self);
        }
        self.default = level;
    }

    /// Overrides the threshold of `module`. An override that the module
    /// already has is replaced and keeps its place.
    pub fn set_module(&mut self, module: &str, level: Level)
        ensures
            final(self)@ == old(self)@.with_override(module@, level),
            final(self)@.wf(),
    {
        proof {
            use_type_invariant(&*self);
            lemma_with_override(self@, module@, level, module@);
        }
        let mut list: Vec<ModuleLevel> = Vec::new();
        std::mem::swap(&mut list, &mut self.overrides);
        let ghost before = override_views(list@);
        match find_override(&list, module) {
            Some(i) => {
                list.set(i, ModuleLevel { module: module.to_owned(), level });
                assert(override_views(list@) =~= before.update(i as int, (module@, level)));
            },
            None => {
                list.push(ModuleLevel { module: module.to_owned(), level });
                assert(override_views(list@) =~= before.push((module@, level)));
            },
        }
        self.overrides = list;
    }

    /// The minimum severity a record from `module` must have.
    pub fn threshold(&self, module: &str) -> (r: Level)
        ensures
            r == self@.threshold(module@),
    {
        match find_override(&self.overrides, module) {
            Some(i) => self.overrides[i].level,
            None => self.default,
        }
    }

    /// Whether a record of severity `level` from `module` is kept: its
    /// severity is at least the module's threshold.
    pub fn retains(&self, module: &str, level: Level) -> (r: bool)
        ensures
            r == self@.retains(module@, level),
    {
        level.at_least(self.threshold(module))
    }
}

impl Clone for LevelFilter {
    fn clone(&self) -> (r: Self)
        ensures
            r@ == self@,
            r@.wf(),
    {
        proof {
            use_type_invariant(self);
        }
        let mut list: Vec<ModuleLevel> = Vec::new();
        let mut i: usize = 0;
        while i < self.overrides.len()
            invariant
                i <= self.overrides.len(),
                list.len() == i,
                forall|k: int| 0 <= k < i ==> (#[trigger] list@[k])@ == self.overrides@[k]@,
            decreases self.overrides.len() - i,
        {
            let entry = &self.overrides[i];
            list.push(ModuleLevel { module: entry.module.clone(), level: entry.level });
            i += 1;
        }
        assert(override_views(list@) =~= override_views(self.overrides@));
        LevelFilter { default: self.default, overrides: list }
    }
}

} // verus!
