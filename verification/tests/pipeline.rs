use slog_kickstarter::{
    parse_directive, requests_structured, resolve, structured_head, Boundary, BridgeSlot,
    ConfigurationError, Context, Field, InitError, Level, LevelFilter, ModuleLevel, OutputFormat,
    Overflow, SlogKickstarter, QUEUE_CAPACITY, VERSION,
};

fn entry(module: &str, level: Level) -> ModuleLevel {
    ModuleLevel { module: module.to_string(), level }
}

fn field(key: &'static str, value: &str) -> Field {
    Field { key, value: value.to_string() }
}

#[test]
fn format_switch_is_exactly_one() {
    assert!(requests_structured(Some("1")));
    assert!(!requests_structured(Some("0")));
    assert!(!requests_structured(Some("")));
    assert!(!requests_structured(Some("11")));
    assert!(!requests_structured(Some("true")));
    assert!(!requests_structured(Some(" 1")));
    assert!(!requests_structured(Some("１")));
    assert!(!requests_structured(None));
}

#[test]
fn new_builder_has_the_defaults() {
    let config = SlogKickstarter::new("service-name", None);
    assert_eq!(config.service_name(), "service-name");
    assert_eq!(config.filter().default_level(), Level::Info);
    assert!(config.filter().overrides().is_empty());
    assert_eq!(config.format(), OutputFormat::Terminal);
    assert!(config.installs_bridge());
}

#[test]
fn format_switch_selects_the_initial_format() {
    assert_eq!(SlogKickstarter::new("svc", Some("1")).format(), OutputFormat::Structured);
    assert_eq!(SlogKickstarter::new("svc", Some("0")).format(), OutputFormat::Terminal);
    assert_eq!(SlogKickstarter::new("svc", Some("yes")).format(), OutputFormat::Terminal);
}

#[test]
fn builder_steps_can_be_chained() {
    let mut config = SlogKickstarter::new("svc", None);
    config
        .with_debug_log_for("full::sample_module")
        .with_default_level(Level::Warning)
        .with_json_logging()
        .without_stdlog();
    assert_eq!(config.filter().default_level(), Level::Warning);
    assert_eq!(config.filter().overrides(), &vec![entry("full::sample_module", Level::Debug)]);
    assert_eq!(config.format(), OutputFormat::Structured);
    assert!(!config.installs_bridge());
    config.without_json_logging();
    assert_eq!(config.format(), OutputFormat::Terminal);
    assert_eq!(config.service_name(), "svc");
}

#[test]
fn later_override_replaces_and_keeps_its_place() {
    let mut config = SlogKickstarter::new("svc", None);
    config
        .with_level_for("a", Level::Debug)
        .with_level_for("b", Level::Trace)
        .with_level_for("a", Level::Error)
        .with_debug_log_for("c")
        .with_debug_log_for("b");
    assert_eq!(
        config.filter().overrides(),
        &vec![entry("a", Level::Error), entry("b", Level::Debug), entry("c", Level::Debug)]
    );
}

#[test]
fn modules_match_by_exact_name() {
    let mut filter = LevelFilter::new(Level::Info);
    filter.set_module("crate2", Level::Debug);
    filter.set_module("crate1::mod1", Level::Warning);
    assert_eq!(filter.threshold("crate2"), Level::Debug);
    assert_eq!(filter.threshold("crate2::mod1"), Level::Info);
    assert_eq!(filter.threshold("crate"), Level::Info);
    assert_eq!(filter.threshold("crate1::mod1"), Level::Warning);
    assert_eq!(filter.threshold("crate1"), Level::Info);
    assert_eq!(filter.threshold(""), Level::Info);
}

#[test]
fn record_is_kept_at_or_above_the_threshold() {
    let mut filter = LevelFilter::new(Level::Warning);
    filter.set_module("m", Level::Trace);
    assert!(!filter.retains("x", Level::Trace));
    assert!(!filter.retains("x", Level::Debug));
    assert!(!filter.retains("x", Level::Info));
    assert!(filter.retains("x", Level::Warning));
    assert!(filter.retains("x", Level::Error));
    assert!(filter.retains("x", Level::Critical));
    assert!(filter.retains("m", Level::Trace));
    filter.set_default(Level::Critical);
    assert!(!filter.retains("x", Level::Error));
    assert!(filter.retains("x", Level::Critical));
}

#[test]
fn clone_keeps_the_filter() {
    let mut filter = LevelFilter::new(Level::Error);
    filter.set_module("a", Level::Debug);
    filter.set_module("b", Level::Trace);
    let copy = filter.clone();
    filter.set_module("a", Level::Critical);
    assert_eq!(copy.default_level(), Level::Error);
    assert_eq!(copy.overrides(), &vec![entry("a", Level::Debug), entry("b", Level::Trace)]);
    assert_eq!(filter.threshold("a"), Level::Critical);
}

#[test]
fn configured_debug_override_keeps_debug_records() {
    let mut config = SlogKickstarter::new("svc", None);
    config.with_debug_log_for("m");
    let mut slot = BridgeSlot::new();
    let plan = config.init(None, &mut slot).unwrap();
    assert!(plan.retains("m", Level::Debug));
    assert!(!plan.retains("unlisted", Level::Debug));
    assert!(plan.retains("unlisted", Level::Info));
    assert!(!plan.retains("m", Level::Trace));
    assert_eq!(config.effective_level("m", None), Ok(Level::Debug));
    assert_eq!(config.effective_level("unlisted", None), Ok(Level::Info));
}

#[test]
fn directive_default_overrides_configured_default() {
    let mut config = SlogKickstarter::new("svc", None);
    config.with_default_level(Level::Info);
    assert_eq!(config.effective_level("any::module", Some("debug")), Ok(Level::Debug));
    assert_eq!(config.effective_level("other", Some("debug")), Ok(Level::Debug));
    let mut slot = BridgeSlot::new();
    let plan = config.init(Some("debug"), &mut slot).unwrap();
    assert!(plan.retains("any::module", Level::Debug));
    assert!(!plan.retains("any::module", Level::Trace));
}

#[test]
fn directive_default_outranks_configured_override() {
    let mut config = SlogKickstarter::new("svc", None);
    config.with_debug_log_for("m");
    assert_eq!(config.effective_level("m", Some("warn")), Ok(Level::Warning));
    assert_eq!(config.effective_level("m", Some("trace")), Ok(Level::Trace));
    assert_eq!(config.effective_level("other", Some("warn")), Ok(Level::Warning));
}

#[test]
fn directive_module_overrides_configured_module() {
    let mut config = SlogKickstarter::new("svc", None);
    config.with_debug_log_for("module_x");
    assert_eq!(config.effective_level("module_x", Some("module_x=trace")), Ok(Level::Trace));
    assert_eq!(config.effective_level("module_x", Some("module_x=error")), Ok(Level::Error));
    assert_eq!(config.effective_level("other", Some("module_x=trace")), Ok(Level::Info));
    assert_eq!(config.effective_level("module_x::inner", Some("module_x=trace")), Ok(Level::Info));
}

#[test]
fn directive_module_outranks_directive_default_in_any_order() {
    let config = SlogKickstarter::new("svc", None);
    assert_eq!(config.effective_level("m", Some("m=trace,debug")), Ok(Level::Trace));
    assert_eq!(config.effective_level("m", Some("debug,m=trace")), Ok(Level::Trace));
    assert_eq!(config.effective_level("x", Some("m=trace,debug")), Ok(Level::Debug));
}

#[test]
fn later_rule_wins_among_its_kind() {
    let config = SlogKickstarter::new("svc", None);
    assert_eq!(config.effective_level("m", Some("m=trace,m=error")), Ok(Level::Error));
    assert_eq!(config.effective_level("m", Some("error,debug")), Ok(Level::Debug));
    assert_eq!(config.effective_level("m", Some("debug,error,m=warn,critical")), Ok(Level::Warning));
    assert_eq!(config.effective_level("x", Some("debug,error,m=warn,critical")), Ok(Level::Critical));
}

#[test]
fn invalid_directive_has_no_effective_level() {
    let config = SlogKickstarter::new("svc", None);
    assert_eq!(
        config.effective_level("m", Some("debug,m=loud")),
        Err(ConfigurationError { rule: "m=loud".to_string() })
    );
}

#[test]
fn resolved_filter_without_directive_default_extends_the_configured_one() {
    let mut configured = LevelFilter::new(Level::Info);
    configured.set_module("b", Level::Debug);
    configured.set_module("a", Level::Debug);
    let rules = parse_directive("a=trace,c=error").unwrap();
    let filter = resolve(&configured, &rules);
    assert_eq!(filter.default_level(), Level::Info);
    assert_eq!(
        filter.overrides(),
        &vec![entry("b", Level::Debug), entry("a", Level::Trace), entry("c", Level::Error)]
    );
}

#[test]
fn resolved_filter_with_directive_default_drops_configured_overrides() {
    let mut configured = LevelFilter::new(Level::Info);
    configured.set_module("b", Level::Debug);
    let rules = parse_directive("a=trace,warn,a=debug").unwrap();
    let filter = resolve(&configured, &rules);
    assert_eq!(filter.default_level(), Level::Warning);
    assert_eq!(filter.overrides(), &vec![entry("a", Level::Debug)]);
    assert_eq!(filter.threshold("b"), Level::Warning);
}

#[test]
fn resolving_without_rules_keeps_the_configured_filter() {
    let mut configured = LevelFilter::new(Level::Error);
    configured.set_module("b", Level::Debug);
    let filter = resolve(&configured, &vec![]);
    assert_eq!(filter.default_level(), Level::Error);
    assert_eq!(filter.overrides(), &vec![entry("b", Level::Debug)]);
}

#[test]
fn plan_holds_format_fields_and_filter() {
    let mut config = SlogKickstarter::new("svc", None);
    config.with_json_logging().with_debug_log_for("m");
    let mut slot = BridgeSlot::new();
    let plan = config.init(Some("m=trace"), &mut slot).unwrap();
    assert_eq!(plan.format, OutputFormat::Structured);
    assert_eq!(plan.filter.default_level(), Level::Info);
    assert_eq!(plan.filter.overrides(), &vec![entry("m", Level::Trace)]);
    assert_eq!(
        plan.context.fields(),
        &vec![
            field("version", VERSION),
            field("service", "svc"),
            field("log_type", "application"),
            field("application_type", "service"),
        ]
    );
    assert!(plan.bridge.is_some());
    assert!(slot.is_installed());
}

#[test]
fn terminal_plan_differs_only_in_format() {
    let mut config = SlogKickstarter::new("svc", Some("1"));
    config.without_json_logging();
    let mut slot = BridgeSlot::new();
    let plan = config.init(None, &mut slot).unwrap();
    assert_eq!(plan.format, OutputFormat::Terminal);
    assert!(plan.context.fields().contains(&field("service", "svc")));
}

#[test]
fn record_fields_end_with_the_module() {
    let config = SlogKickstarter::new("svc", None);
    let mut slot = BridgeSlot::new();
    let plan = config.init(None, &mut slot).unwrap();
    let first = plan.record_fields("crate::a");
    let second = plan.record_fields("crate::b");
    assert_eq!(first.len(), 5);
    assert_eq!(first[4], field("module", "crate::a"));
    assert_eq!(second[4], field("module", "crate::b"));
    assert_eq!(first[..4], second[..4]);
    assert_eq!(first[1], field("service", "svc"));
}

#[test]
fn version_is_the_package_version() {
    assert_eq!(VERSION, "0.2.0");
}

#[test]
fn invalid_directive_fails_planning_and_leaves_the_slot() {
    let config = SlogKickstarter::new("svc", None);
    let mut slot = BridgeSlot::new();
    let outcome = config.init(Some("info,broken=,debug"), &mut slot);
    assert_eq!(
        outcome.err(),
        Some(InitError::Configuration(ConfigurationError { rule: "broken=".to_string() }))
    );
    assert!(!slot.is_installed());
}

#[test]
fn invalid_directive_is_reported_before_the_bridge() {
    let config = SlogKickstarter::new("svc", None);
    let mut slot = BridgeSlot::new();
    let handle = slot.install().unwrap();
    let outcome = config.init(Some("nonsense"), &mut slot);
    assert_eq!(
        outcome.err(),
        Some(InitError::Configuration(ConfigurationError { rule: "nonsense".to_string() }))
    );
    assert!(slot.is_installed());
    slot.release(handle);
    assert!(!slot.is_installed());
}

#[test]
fn second_installation_is_refused_until_release() {
    let config = SlogKickstarter::new("svc", None);
    let mut slot = BridgeSlot::new();
    let first = config.init(None, &mut slot).unwrap();
    assert!(slot.is_installed());
    let second = config.init(None, &mut slot);
    assert_eq!(second.err(), Some(InitError::AlreadyInstalled));
    assert!(slot.is_installed());
    slot.release(first.bridge.unwrap());
    assert!(!slot.is_installed());
    let third = config.init(None, &mut slot).unwrap();
    assert!(third.bridge.is_some());
    assert!(slot.is_installed());
}

#[test]
fn slot_refuses_while_installed() {
    let mut slot = BridgeSlot::new();
    assert!(!slot.is_installed());
    let handle = slot.install().unwrap();
    assert!(slot.install().is_err());
    assert!(slot.install().is_err());
    assert!(slot.is_installed());
    slot.release(handle);
    assert!(slot.install().is_ok());
}

#[test]
fn plan_without_bridge_ignores_the_slot() {
    let mut config = SlogKickstarter::new("svc", None);
    config.without_stdlog();
    let mut free = BridgeSlot::new();
    let plan = config.init(None, &mut free).unwrap();
    assert!(plan.bridge.is_none());
    assert!(!free.is_installed());
    let mut taken = BridgeSlot::new();
    let handle = taken.install().unwrap();
    let plan = config.init(None, &mut taken).unwrap();
    assert!(plan.bridge.is_none());
    assert!(taken.is_installed());
    taken.release(handle);
}

#[test]
fn children_share_the_root_fields() {
    let root = Context::root("svc");
    let first = root.child(&vec![field("scope", "global")]);
    let second = root.child(&vec![field("scope", "module-specific logger")]);
    let from_first = first.record_fields("app");
    let from_second = second.record_fields("app");
    assert_eq!(from_first[..4], root.fields()[..]);
    assert_eq!(from_second[..4], root.fields()[..]);
    assert_eq!(from_first[4], field("scope", "global"));
    assert_eq!(from_second[4], field("scope", "module-specific logger"));
    assert_eq!(from_first[5], field("module", "app"));
    assert_eq!(from_second[5], field("module", "app"));
    assert_eq!(from_first.len(), 6);
    assert_eq!(from_second.len(), 6);
}

#[test]
fn deriving_a_child_leaves_the_parent() {
    let root = Context::root("svc");
    let child = root.child(&vec![field("a", "1"), field("b", "2")]);
    let grandchild = child.child(&vec![field("a", "3")]);
    assert_eq!(root.fields(), Context::root("svc").fields());
    assert_eq!(root.fields().len(), 4);
    assert_eq!(child.fields().len(), 6);
    assert_eq!(grandchild.fields().len(), 7);
    assert_eq!(grandchild.fields()[..6], child.fields()[..]);
    assert_eq!(grandchild.fields()[6], field("a", "3"));
    assert_eq!(child.fields()[4], field("a", "1"));
}

#[test]
fn child_without_fields_equals_its_parent() {
    let root = Context::root("svc");
    let child = root.child(&vec![]);
    assert_eq!(child.fields(), root.fields());
}

#[test]
fn structured_head_holds_timestamp_level_and_message() {
    assert_eq!(
        structured_head(Level::Warning, "disk almost full", "2018-01-26T10:30:09+08:00"),
        vec![
            field("@timestamp", "2018-01-26T10:30:09+08:00"),
            field("level", "warning"),
            field("msg", "disk almost full"),
        ]
    );
    assert_eq!(structured_head(Level::Critical, "", "")[1], field("level", "critical"));
}

#[test]
fn structured_record_carries_timestamp_level_message_and_service() {
    let mut config = SlogKickstarter::new("svc", None);
    config.with_json_logging();
    let mut slot = BridgeSlot::new();
    let plan = config.init(None, &mut slot).unwrap();
    assert_eq!(plan.format, OutputFormat::Structured);
    assert!(plan.retains("app", Level::Info));
    let mut record = structured_head(Level::Info, "Hello", "2018-01-26T18:30:09Z");
    record.extend(plan.record_fields("app"));
    assert_eq!(record[0], field("@timestamp", "2018-01-26T18:30:09Z"));
    assert_eq!(record[1], field("level", "info"));
    assert_eq!(record[2], field("msg", "Hello"));
    assert!(record.contains(&field("service", "svc")));
    assert!(record.contains(&field("module", "app")));
    assert_eq!(record.len(), 8);
}

#[test]
fn boundary_drops_and_reports_when_full() {
    let config = SlogKickstarter::new("svc", None);
    let mut slot = BridgeSlot::new();
    let plan = config.init(None, &mut slot).unwrap();
    assert_eq!(plan.boundary, Boundary { capacity: 128, overflow: Overflow::DropAndReport });
    assert_eq!(QUEUE_CAPACITY, 128);
}

#[test]
fn builder_steps_can_be_taken_in_any_order() {
    let mut first = SlogKickstarter::new("svc", None);
    first.with_default_level(Level::Error).with_debug_log_for("a").with_json_logging().without_stdlog();
    let mut second = SlogKickstarter::new("svc", None);
    second.without_stdlog().with_json_logging().with_debug_log_for("a").with_default_level(Level::Error);
    assert_eq!(first.filter().default_level(), second.filter().default_level());
    assert_eq!(first.filter().overrides(), second.filter().overrides());
    assert_eq!(first.format(), second.format());
    assert_eq!(first.installs_bridge(), second.installs_bridge());
}

#[test]
fn overrides_of_different_modules_commute() {
    let mut first = LevelFilter::new(Level::Info);
    first.set_module("a", Level::Debug);
    first.set_module("b", Level::Error);
    let mut second = LevelFilter::new(Level::Info);
    second.set_module("b", Level::Error);
    second.set_module("a", Level::Debug);
    for module in ["a", "b", "c", ""] {
        assert_eq!(first.threshold(module), second.threshold(module));
    }
    assert_eq!(first.overrides(), &vec![entry("a", Level::Debug), entry("b", Level::Error)]);
    assert_eq!(second.overrides(), &vec![entry("b", Level::Error), entry("a", Level::Debug)]);
}
