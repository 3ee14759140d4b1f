//! The fields that a logger attaches to every record it emits.

use crate::level::Level;
use vstd::prelude::*;

verus! {

/// Version tag attached to every record.
pub const VERSION: &'static str = "0.2.0";

/// A key and a value attached to records.
#[derive(Debug, PartialEq, Eq)]
pub struct Field {
    pub key: &'static str,
    pub value: String,
}

impl View for Field {
    type V = (Seq<char>, Seq<char>);

    open spec fn view(&self) -> (Seq<char>, Seq<char>) {
        (self.key@, self.value@)
    }
}

/// The views of a list of fields, in order.
pub open spec fn field_views(fields: Seq<Field>) -> Seq<(Seq<char>, Seq<char>)> {
    fields.map_values(|f: Field| f@)
}

/// The static fields of a root logger: the version tag, the service name and
/// the two tags that classify the record.
pub open spec fn root_fields(service_name: Seq<char>) -> Seq<(Seq<char>, Seq<char>)> {
    seq![
        ("version"@, VERSION@),
        ("service"@, service_name),
        ("log_type"@, "application"@),
        ("application_type"@, "service"@),
    ]
}

/// The leading fields of a structured record: when it was emitted, its level
/// by its lower-case name, and its message.
pub open spec fn head_fields(
    level: Level,
    message: Seq<char>,
    timestamp: Seq<char>,
) -> Seq<(Seq<char>, Seq<char>)> {
    seq![("@timestamp"@, timestamp), ("level"@, level.long_name()), ("msg"@, message)]
}

/// The fields of one record: the logger's static fields, then the module the
/// record comes from.
pub open spec fn record_fields(
    fields: Seq<(Seq<char>, Seq<char>)>,
    module: Seq<char>,
) -> Seq<(Seq<char>, Seq<char>)> {
    fields.push(("module"@, module))
}

/// The static fields of a logger handle. A child handle holds its parent's
/// fields followed by its own.
#[derive(Debug)]
pub struct Context {
    fields: Vec<Field>,
}

impl View for Context {
    type V = Seq<(Seq<char>, Seq<char>)>;

    closed spec fn view(&self) -> Seq<(Seq<char>, Seq<char>)> {
        field_views(self.fields@)
    }
}

/// Copies the fields of `from` to the end of `into`.
fn append_fields(into: &mut Vec<Field>, from: &Vec<Field>)
    ensures
        field_views(final(into)@) == field_views(old(into)@) + field_views(from@),
{
    let ghost start = field_views(into@);
    let mut i: usize = 0;
    while i < from.len()
        invariant
            i <= from.len(),
            field_views(into@) == start + field_views(from@).take(i as int),
        decreases from.len() - i,
    {
        let ghost before = field_views(into@);
        into.push(Field { key: from[i].key, value: from[i].value.clone() });
        assert(field_views(into@) =~= before.push(from@[i as int]@));
        i += 1;
    }
}

/// The leading fields of a structured record of severity `level` with the
/// given message, emitted at the time that `timestamp` spells out.
pub fn structured_head(level: Level, message: &str, timestamp: &str) -> (r: Vec<Field>)
    ensures
        field_views(r@) == head_fields(level, message@, timestamp@),
{
    let mut fields: Vec<Field> = Vec::new();
    fields.push(Field { key: "@timestamp", value: timestamp.to_owned() });
    fields.push(Field { key: "level", value: level.name().to_owned() });
    fields.push(Field { key: "msg", value: message.to_owned() });
    fields
}

impl Context {
    /// The context of a root logger for the service `service_name`.
    pub fn root(service_name: &str) -> (r: Self)
        ensures
            r@ == root_fields(service_name@),
    {
        let mut fields: Vec<Field> = Vec::new();
        fields.push(Field { key: "version", value: VERSION.to_owned() });
        fields.push(Field { key: "service", value: service_name.to_owned() });
        fields.push(Field { key: "log_type", value: "application".to_owned() });
        fields.push(Field { key: "application_type", value: "service".to_owned() });
        Context { fields }
    }

    /// The context of a child logger: the fields of `self`, then `extra`.
    /// The parent is left as it is.
    pub fn child(&self, extra: &Vec<Field>) -> (r: Self)
        ensures
            r@ == self@ + field_views(extra@),
    {
        let mut fields: Vec<Field> = Vec::new();
        append_fields(&mut fields, &self.fields);
        append_fields(&mut fields, extra);
        Context { fields }
    }

    /// The static fields, in order.
    pub fn fields(&self) -> (r: &Vec<Field>)
        ensures
            field_views(r@) == self@,
    {
        &self.fields
    }

    /// The fields of a record that comes from `module`. The module field is
    /// worked out anew for each record.
    pub fn record_fields(&self, module: &str) -> (r: Vec<Field>)
        ensures
            field_views(r@) == record_fields(self@, module@),
    {
        let mut fields: Vec<Field> = Vec::new();
        append_fields(&mut fields, &self.fields);
        fields.push(Field { key: "module", value: module.to_owned() });
        fields
    }
}

/// Two children of one parent emit records that carry the parent's fields
/// unchanged and in the same places, each followed by the child's own
/// fields; where their own fields differ, so do their records.
pub proof fn lemma_children_share_parent(
    parent: Seq<(Seq<char>, Seq<char>)>,
    first: Seq<(Seq<char>, Seq<char>)>,
    second: Seq<(Seq<char>, Seq<char>)>,
    module: Seq<char>,
)
    ensures
        record_fields(parent + first, module).take(parent.len() as int) == parent,
        record_fields(parent + second, module).take(parent.len() as int) == parent,
        record_fields(parent + first, module).skip(parent.len() as int) == record_fields(
            first,
            module,
        ),
        record_fields(parent + second, module).skip(parent.len() as int) == record_fields(
            second,
            module,
        ),
        first != second ==> record_fields(parent + first, module) != record_fields(
            parent + second,
            module,
        ),
{
    let a = record_fields(parent + first, module);
    let b = record_fields(parent + second, module);
    assert(a.skip(parent.len() as int) =~= record_fields(first, module));
    assert(b.skip(parent.len() as int) =~= record_fields(second, module));
    if a == b {
        assert(record_fields(first, module).drop_last() =~= first);
        assert(record_fields(second, module).drop_last() =~= second);
    }
}

} // verus!
