//! The builder that collects the logging configuration, and the step that
//! turns it into the plan of a pipeline.

use crate::bridge::{accepts_install, after_install, BridgeHandle, BridgeSlot};
use crate::context::{root_fields, Context, Field};
use crate::directive::{
    parse_optional, rule_views, rules_of, text_of, ConfigurationError, RuleView,
};
use crate::filter::{LevelFilter, LevelFilterView};
use crate::level::Level;
use crate::resolve::{effective_level, lemma_resolved_threshold, resolve, resolved};
use crate::text::same_text;
use vstd::prelude::*;

verus! {

/// How records are encoded on the output stream.
#[derive(Clone, Copy, Debug, PartialEq, Eq, Structural)]
pub enum OutputFormat {
    /// One self-contained structured object per record.
    Structured,
    /// One human-readable line per record.
    Terminal,
}

/// What happens to a record that finds the queue of the asynchronous
/// boundary full.
#[derive(Clone, Copy, Debug, PartialEq, Eq, Structural)]
pub enum Overflow {
    /// The producer waits until there is room.
    Block,
    /// The record is dropped; the number of records dropped is reported once
    /// there is room again.
    DropAndReport,
}

/// The asynchronous boundary between the threads that emit records and the
/// single consumer that writes them: a bounded queue, emptied in the order
/// of submission.
#[derive(Clone, Copy, Debug, PartialEq, Eq, Structural)]
pub struct Boundary {
    /// Number of records the queue holds.
    pub capacity: usize,
    /// What a full queue does with a record.
    pub overflow: Overflow,
}

/// Number of records the queue of the asynchronous boundary holds.
pub const QUEUE_CAPACITY: usize = 128;

/// The boundary of every pipeline: emitting never blocks the producer. A
/// record that finds the queue full is lost, and the loss is reported.
pub open spec fn standard_boundary() -> Boundary {
    Boundary { capacity: QUEUE_CAPACITY, overflow: Overflow::DropAndReport }
}

/// Whether the value of the format switch asks for structured output: it
/// does when it is set to exactly `1`.
pub open spec fn selects_structured(switch: Option<Seq<char>>) -> bool {
    switch == Some("1"@)
}

/// The format that a builder starts with under the given format switch.
pub open spec fn initial_format(switch: Option<Seq<char>>) -> OutputFormat {
    if selects_structured(switch) {
        OutputFormat::Structured
    } else {
        OutputFormat::Terminal
    }
}

/// Decides whether the value of the format switch asks for structured
/// output.
pub fn requests_structured(switch: Option<&str>) -> (r: bool)
    ensures
        r == selects_structured(text_of(switch)),
{
    match switch {
        Some(value) => same_text(value, "1"),
        None => false,
    }
}

/// Why a pipeline could not be planned.
#[derive(Debug, PartialEq, Eq)]
pub enum InitError {
    /// The directive holds an invalid rule.
    Configuration(ConfigurationError),
    /// The bridge is to be installed while another installation is live.
    AlreadyInstalled,
}

/// Mathematical model of a [`SlogKickstarter`].
pub struct SlogKickstarterView {
    pub service_name: Seq<char>,
    pub filter: LevelFilterView,
    pub format: OutputFormat,
    pub install_bridge: bool,
}

impl SlogKickstarterView {
    /// The configuration with the default threshold replaced.
    pub open spec fn with_default_level(self, level: Level) -> Self {
        SlogKickstarterView { filter: self.filter.with_default(level), ..self }
    }

    /// The configuration with the threshold of `module` overridden.
    pub open spec fn with_level_for(self, module: Seq<char>, level: Level) -> Self {
        SlogKickstarterView { filter: self.filter.with_override(module, level), ..self }
    }

    /// The configuration with the output format replaced.
    pub open spec fn with_format(self, format: OutputFormat) -> Self {
        SlogKickstarterView { format, ..self }
    }

    /// The configuration with the bridge switched off.
    pub open spec fn without_bridge(self) -> Self {
        SlogKickstarterView { install_bridge: false, ..self }
    }
}

/// The builder steps that touch different parts of a configuration can be
/// taken in either order.
pub proof fn lemma_steps_commute(
    config: SlogKickstarterView,
    default: Level,
    module: Seq<char>,
    level: Level,
    format: OutputFormat,
)
    ensures
        config.with_default_level(default).with_level_for(module, level) == config.with_level_for(
            module,
            level,
        ).with_default_level(default),
        config.with_default_level(default).with_format(format) == config.with_format(
            format,
        ).with_default_level(default),
        config.with_default_level(default).without_bridge()
            == config.without_bridge().with_default_level(default),
        config.with_level_for(module, level).with_format(format) == config.with_format(
            format,
        ).with_level_for(module, level),
        config.with_level_for(module, level).without_bridge()
            == config.without_bridge().with_level_for(module, level),
        config.with_format(format).without_bridge() == config.without_bridge().with_format(format),
{
}

/// The builder of a logging pipeline.
#[derive(Debug)]
pub struct SlogKickstarter {
    filter: LevelFilter,
    service_name: String,
    init_std_log: bool,
    use_json_logging: bool,
}

impl View for SlogKickstarter {
    type V = SlogKickstarterView;

    closed spec fn view(&self) -> SlogKickstarterView {
        SlogKickstarterView {
            service_name: self.service_name@,
            filter: self.filter@,
            format: if self.use_json_logging {
                OutputFormat::Structured
            } else {
                OutputFormat::Terminal
            },
            install_bridge: self.init_std_log,
        }
    }
}

/// The plan of a pipeline: everything that was decided about it.
#[derive(Debug)]
pub struct Pipeline {
    /// The encoding of the base drain.
    pub format: OutputFormat,
    /// The filter that stands between the loggers and the base drain.
    pub filter: LevelFilter,
    /// The queue between the filter and the loggers.
    pub boundary: Boundary,
    /// The static fields of the root logger.
    pub context: Context,
    /// The bridge installation, where the bridge is to be installed.
    pub bridge: Option<BridgeHandle>,
}

impl Pipeline {
    /// Whether a record of severity `level` from `module` reaches the drain.
    pub fn retains(&self, module: &str, level: Level) -> (r: bool)
        ensures
            r == self.filter@.retains(module@, level),
    {
        self.filter.retains(module, level)
    }

    /// The fields that the root logger attaches to a record from `module`.
    pub fn record_fields(&self, module: &str) -> (r: Vec<Field>)
        ensures
            crate::context::field_views(r@) == crate::context::record_fields(
                self.context@,
                module@,
            ),
    {
        self.context.record_fields(module)
    }
}

impl SlogKickstarter {
    /// Starts a builder for the service `service_name`.
    ///
    /// The default threshold is `Info`, no module is overridden, and the
    /// bridge is to be installed. `json_switch` is the value of the variable
    /// that selects the output format, if it is set: structured output where
    /// it is `1`, terminal output otherwise.
    #[must_use]
    pub fn new(service_name: &str, json_switch: Option<&str>) -> (r: Self)
        ensures
            r@ == (SlogKickstarterView {
                service_name: service_name@,
                filter: LevelFilterView { default: Level::Info, overrides: Seq::empty() },
                format: initial_format(text_of(json_switch)),
                install_bridge: true,
            }),
    {
        SlogKickstarter {
            filter: LevelFilter::new(Level::Info),
            service_name: service_name.to_owned(),
            init_std_log: true,
            use_json_logging: requests_structured(json_switch),
        }
    }

    /// Sets the threshold of `module_name` to `level`. Naming a module again
    /// replaces its earlier override.
    pub fn with_level_for(&mut self, module_name: &'static str, level: Level) -> (ret: &mut Self)
        ensures
            ret@ == old(self)@.with_level_for(module_name@, level),
            *final(self) == *final(ret),
    {
        self.filter.set_module(module_name, level);
        self
    }

    /// Enables debug logging for `module_name`: sets its threshold to
    /// `Debug`. May be called for any number of modules.
    pub fn with_debug_log_for(&mut self, module_name: &'static str) -> (ret: &mut Self)
        ensures
            ret@ == old(self)@.with_level_for(module_name@, Level::Debug),
            *final(self) == *final(ret),
    {
        self.filter.set_module(module_name, Level::Debug);
        self
    }

    /// Sets the default threshold.
    pub fn with_default_level(&mut self, level: Level) -> (ret: &mut Self)
        ensures
            ret@ == old(self)@.with_default_level(level),
            *final(self) == *final(ret),
    {
        self.filter.set_default(level);
        self
    }

    /// Selects structured output, whatever the format switch said.
    pub fn with_json_logging(&mut self) -> (ret: &mut Self)
        ensures
            ret@ == old(self)@.with_format(OutputFormat::Structured),
            *final(self) == *final(ret),
    {
        self.use_json_logging = true;
        self
    }

    /// Selects terminal output, whatever the format switch said.
    pub fn without_json_logging(&mut self) -> (ret: &mut Self)
        ensures
            ret@ == old(self)@.with_format(OutputFormat::Terminal),
            *final(self) == *final(ret),
    {
        self.use_json_logging = false;
        self
    }

    /// Leaves the bridge for the `log` facade out of the pipeline.
    pub fn without_stdlog(&mut self) -> (ret: &mut Self)
        ensures
            ret@ == old(self)@.without_bridge(),
            *final(self) == *final(ret),
    {
        self.init_std_log = false;
        self
    }

    /// The name of the service.
    pub fn service_name(&self) -> (r: &str)
        ensures
            r@ == self@.service_name,
    {
        self.service_name.as_str()
    }

    /// The configured filter: the default threshold and the overrides.
    pub fn filter(&self) -> (r: &LevelFilter)
        ensures
            r@ == self@.filter,
    {
        &self.filter
    }

    /// The selected output format.
    pub fn format(&self) -> (r: OutputFormat)
        ensures
            r == self@.format,
    {
        if self.use_json_logging {
            OutputFormat::Structured
        } else {
            OutputFormat::Terminal
        }
    }

    /// Whether the bridge for the `log` facade is to be installed.
    pub fn installs_bridge(&self) -> (r: bool)
        ensures
            r == self@.install_bridge,
    {
        self.init_std_log
    }

    /// The threshold that applies to `module` under this configuration and
    /// the given directive, or the error of an invalid directive.
    pub fn effective_level(&self, module: &str, directive: Option<&str>) -> (r: Result<
        Level,
        ConfigurationError,
    >)
        ensures
            match r {
                Ok(level) => rules_of(text_of(directive)) is Ok && level == effective_level(
                    self@.filter,
                    rules_of(text_of(directive))->Ok_0,
                    module@,
                ),
                Err(e) => rules_of(text_of(directive)) == Err::<Seq<RuleView>, Seq<char>>(e@),
            },
    {
        match parse_optional(directive) {
            Ok(rules) => {
                let filter = resolve(&self.filter, &rules);
                proof {
                    lemma_resolved_threshold(self@.filter, rule_views(rules@), module@);
                }
                Ok(filter.threshold(module))
            },
            Err(e) => Err(e),
        }
    }

    /// Plans the pipeline.
    ///
    /// `directive` is the runtime directive, if one is set; `bridge` is the
    /// process-wide slot of the bridge. An invalid directive fails before
    /// anything else is looked at. Where the bridge is to be installed and the
    /// slot is taken, planning fails with `AlreadyInstalled`. A failure leaves
    /// the slot as it was; success occupies it where the bridge is to be
    /// installed, and the plan then holds the handle.
    pub fn init(&self, directive: Option<&str>, bridge: &mut BridgeSlot) -> (r: Result<
        Pipeline,
        InitError,
    >)
        ensures
            r is Ok <==> rules_of(text_of(directive)) is Ok && (self@.install_bridge
                ==> accepts_install(old(bridge)@)),
            match r {
                Ok(plan) => {
                    &&& plan.format == self@.format
                    &&& plan.filter@ == resolved(self@.filter, rules_of(text_of(directive))->Ok_0)
                    &&& forall|module: Seq<char>| #[trigger]
                        plan.filter@.threshold(module) == effective_level(
                            self@.filter,
                            rules_of(text_of(directive))->Ok_0,
                            module,
                        )
                    &&& plan.boundary == standard_boundary()
                    &&& plan.context@ == root_fields(self@.service_name)
                    &&& plan.bridge is Some <==> self@.install_bridge
                    &&& final(bridge)@ == if self@.install_bridge {
                        after_install(old(bridge)@)
                    } else {
                        old(bridge)@
                    }
                },
                Err(InitError::Configuration(e)) => {
                    &&& rules_of(text_of(directive)) == Err::<Seq<RuleView>, Seq<char>>(e@)
                    &&& final(bridge)@ == old(bridge)@
                },
                Err(InitError::AlreadyInstalled) => {
                    &&& rules_of(text_of(directive)) is Ok
                    &&& self@.install_bridge
                    &&& !accepts_install(old(bridge)@)
                    &&& final(bridge)@ == old(bridge)@
                },
            },
    {
        let rules = match parse_optional(directive) {
            Ok(rules) => rules,
            Err(e) => {
                return Err(InitError::Configuration(e));
            },
        };
        let filter = resolve(&self.filter, &rules);
        assert forall|module: Seq<char>| #[trigger]
            filter@.threshold(module) == effective_level(
                self@.filter,
                rule_views(rules@),
                module,
            ) by {
            lemma_resolved_threshold(self@.filter, rule_views(rules@), module);
        }
        let handle = if self.init_std_log {
            match bridge.install() {
                Ok(handle) => Some(handle),
                Err(_) => {
                    return Err(InitError::AlreadyInstalled);
                },
            }
        } else {
            None
        };
        Ok(
            Pipeline {
                format: self.format(),
                filter,
                boundary: Boundary { capacity: QUEUE_CAPACITY, overflow: Overflow::DropAndReport },
                context: Context::root(self.service_name.as_str()),
                bridge: handle,
            },
        )
    }
}

} // verus!
