//! Fields recorded on the spans of tasks and resources, and the metadata
//! that names them.
use vstd::prelude::*;
use crate::intern::{holds_text, lemma_holds_push, push_text, push_texts, InternedStr, Strings};
use crate::location::{truncate_registry_path, truncated_path};
use crate::text::{chars_of, decimal, push_decimal, string_from};
use crate::order::{lemma_seq_le_total, lemma_seq_le_trans, le_of, seq_le, sort_by_order, str_le, TotalPreorder};
use crate::styles::{adding, fg_style_in, plain_style, span_views, Color, Modifier, Span, Style, Styles};
use vstd::relations::sorted_by;

verus! {

broadcast use vstd::string::group_string_axioms;

/// The value of a field.
pub enum FieldValue {
    Bool(bool),
    Str(String),
    U64(u64),
    I64(i64),
    Debug(String),
}

/// The name of a field on the wire: the name itself, or its index in the
/// field names of the span's metadata.
pub enum FieldName {
    Str(String),
    Index(u64),
}

/// A field as the observed program sends it.
pub struct ProtoField {
    pub name: Option<FieldName>,
    pub metadata_id: Option<u64>,
    pub value: Option<FieldValue>,
}

/// Metadata of a span as the observed program sends it.
pub struct ProtoMetadata {
    pub field_names: Vec<String>,
    pub target: String,
}

/// The metadata of a span: the names of its fields and its target.
pub struct Metadata {
    pub field_names: Vec<InternedStr>,
    pub target: InternedStr,
    pub id: u64,
}

/// A named field of a span.
pub struct Field {
    pub name: InternedStr,
    pub value: FieldValue,
}

/// The name of the field that holds a task's spawn location.
pub open spec fn spawn_location_name() -> Seq<char> {
    "spawn.location"@
}

/// The name of the field that holds a task's name.
pub open spec fn task_name_name() -> Seq<char> {
    "task.name"@
}

/// The name of the field that holds a task's ID in its runtime.
pub open spec fn task_id_name() -> Seq<char> {
    "task.id"@
}

/// What a field value shows: `true` or `false`, the string, or the number in
/// decimal.
pub open spec fn value_text(v: FieldValue) -> Seq<char> {
    match v {
        FieldValue::Bool(b) => if b {
            "true"@
        } else {
            "false"@
        },
        FieldValue::Str(s) => s@,
        FieldValue::Debug(s) => s@,
        FieldValue::U64(n) => decimal(n as nat),
        FieldValue::I64(n) => if n < 0 {
            seq!['-'] + decimal((-n) as nat)
        } else {
            decimal(n as nat)
        },
    }
}

/// Whether `v` is an empty string.
pub open spec fn is_empty_string(v: FieldValue) -> bool {
    match v {
        FieldValue::Str(s) => s@.len() == 0,
        FieldValue::Debug(s) => s@.len() == 0,
        _ => false,
    }
}

impl FieldValue {
    /// What the value shows (its display).
    pub fn to_string(&self) -> (r: String)
        ensures
            r@ == value_text(*self),
    {
        match self {
            FieldValue::Bool(b) => {
                if *b {
                    "true".to_string()
                } else {
                    "false".to_string()
                }
            },
            FieldValue::Str(s) => s.clone(),
            FieldValue::Debug(s) => s.clone(),
            FieldValue::U64(n) => {
                let mut v: Vec<char> = Vec::new();
                push_decimal(*n as u128, &mut v);
                string_from(v.as_slice())
            },
            FieldValue::I64(n) => {
                let mut v: Vec<char> = Vec::new();
                if *n < 0 {
                    v.push('-');
                    let m: i128 = -(*n as i128);
                    push_decimal(m as u128, &mut v);
                } else {
                    push_decimal(*n as u128, &mut v);
                }
                string_from(v.as_slice())
            },
        }
    }

    /// A string value with its path into Cargo's directory shortened; the
    /// result is shown as a debug value. Other values are unchanged.
    pub fn truncate_registry_path(self) -> (r: Self)
        ensures
            match self {
                FieldValue::Str(s) => r matches FieldValue::Debug(t) && t@ == truncated_path(s@),
                FieldValue::Debug(s) => r matches FieldValue::Debug(t) && t@ == truncated_path(s@),
                _ => r == self,
            },
    {
        match self {
            FieldValue::Str(s) => FieldValue::Debug(truncate_registry_path(s)),
            FieldValue::Debug(s) => FieldValue::Debug(truncate_registry_path(s)),
            f => f,
        }
    }

    /// `None` for an empty string, else the value itself.
    pub fn ensure_nonempty(self) -> (r: Option<Self>)
        ensures
            is_empty_string(self) ==> r is None,
            !is_empty_string(self) ==> r == Some(self),
    {
        match self {
            FieldValue::Debug(s) => {
                if s.as_str().is_empty() {
                    None
                } else {
                    Some(FieldValue::Debug(s))
                }
            },
            FieldValue::Str(s) => {
                if s.as_str().is_empty() {
                    None
                } else {
                    Some(FieldValue::Str(s))
                }
            },
            val => Some(val),
        }
    }
}

/// The name that `pb` gives its field under the metadata `meta`: the name
/// itself, or the field name at the index when the field refers to `meta`.
pub open spec fn proto_field_name(pb: ProtoField, meta: Metadata) -> Option<Seq<char>> {
    match pb.name {
        None => None,
        Some(FieldName::Str(n)) => Some(n@),
        Some(FieldName::Index(idx)) => if pb.metadata_id == Some(meta.id) && idx
            < meta.field_names@.len() {
            Some(meta.field_names@[idx as int]@)
        } else {
            None
        },
    }
}

/// Whether `f` is the value `v` received for a field named `name`: string
/// values of the spawn location have their paths shortened.
pub open spec fn received_value(name: Seq<char>, v: FieldValue, f: FieldValue) -> bool {
    if name == spawn_location_name() {
        match v {
            FieldValue::Str(s) => f matches FieldValue::Debug(t) && t@ == truncated_path(s@),
            FieldValue::Debug(s) => f matches FieldValue::Debug(t) && t@ == truncated_path(s@),
            _ => f == v,
        }
    } else {
        f == v
    }
}

impl Field {
    /// A field with an interned name.
    pub fn new(name: InternedStr, value: FieldValue) -> (r: Self)
        ensures
            r.name@ == name@,
            r.value == value,
    {
        Field { name, value }
    }

    /// The field that `pb` describes under the metadata `meta`, or `None` when
    /// its name cannot be found, it has no value, or its value is an empty
    /// string.
    pub fn from_proto(pb: ProtoField, meta: &Metadata, strings: &mut Strings) -> (r: Option<Field>)
        ensures
            r is Some <==> (proto_field_name(pb, *meta) is Some && pb.value is Some
                && !is_empty_string(pb.value.unwrap())),
            r matches Some(f) ==> {
                &&& f.name@ == proto_field_name(pb, *meta).unwrap()
                &&& received_value(f.name@, pb.value.unwrap(), f.value)
            },
            final(strings)@ == (match pb.name {
                Some(FieldName::Str(n)) => old(strings)@.insert(n@),
                _ => old(strings)@,
            }),
    {
        let ghost spb = pb;
        let ProtoField { name, metadata_id, value } = pb;
        let name = match name {
            None => {
                return None;
            },
            Some(FieldName::Str(n)) => strings.string(n),
            Some(FieldName::Index(idx)) => {
                match metadata_id {
                    Some(m) => {
                        if m != meta.id {
                            return None;
                        }
                    },
                    None => {
                        return None;
                    },
                }
                if idx < meta.field_names.len() as u64 {
                    meta.field_names[idx as usize].clone()
                } else {
                    return None;
                }
            },
        };
        let value = match value {
            Some(v) => v,
            None => {
                return None;
            },
        };
        let ghost received = value;
        let mut value = match value.ensure_nonempty() {
            Some(v) => v,
            None => {
                return None;
            },
        };
        if name.eq_str("spawn.location") {
            value = value.truncate_registry_path();
        }
        Some(Field { name, value })
    }
}

impl Metadata {
    /// The metadata `pb` with ID `id`, its names interned.
    pub fn from_proto(pb: ProtoMetadata, id: u64, strings: &mut Strings) -> (r: Self)
        ensures
            r.id == id,
            r.target@ == pb.target@,
            r.field_names@.len() == pb.field_names@.len(),
            forall|i: int|
                0 <= i < r.field_names@.len() ==> #[trigger] r.field_names@[i]@ == pb.field_names@[i]@,
            final(strings)@ == old(strings)@.union(
                pb.field_names@.map_values(|s: String| s@).to_set(),
            ).insert(pb.target@),
    {
        let ProtoMetadata { field_names, target } = pb;
        let ghost names = field_names@;
        let rest = crate::store::reversed(field_names);
        let mut rest = rest;
        let mut out: Vec<InternedStr> = Vec::new();
        let ghost start = strings@;
        let ghost total = names.len();
        while rest.len() > 0
            invariant
                rest@.len() <= total,
                total == names.len(),
                rest@ == names.reverse().take(rest@.len() as int),
                out@.len() == total - rest@.len(),
                forall|i: int| 0 <= i < out@.len() ==> #[trigger] out@[i]@ == names[i]@,
                strings@ == start.union(
                    names.take(total - rest@.len()).map_values(|s: String| s@).to_set(),
                ),
            decreases rest.len(),
        {
            let ghost done = total - rest@.len();
            let n = rest.pop().unwrap();
            assert(names[done] == n) by {
                assert(names.reverse()[rest@.len() as int] == names[total - 1 - rest@.len()]);
            }
            let ghost before = strings@;
            let s = strings.string(n);
            out.push(s);
            proof {
                let a = names.take(done).map_values(|s: String| s@);
                let b = names.take(done + 1).map_values(|s: String| s@);
                assert(b =~= a.push(names[done]@));
                a.lemma_push_to_set_commute(names[done]@);
                assert(strings@ =~= start.union(b.to_set()));
                assert(rest@ =~= names.reverse().take(rest@.len() as int));
            }
        }
        assert(names.take(total as int) =~= names);
        let target = strings.string(target);
        Metadata { field_names: out, target, id }
    }
}


/// Whether `pb` gives a field under `meta`: its name is found, and it has a
/// value that is not an empty string.
pub open spec fn accepted_field(pb: ProtoField, meta: Metadata) -> bool {
    &&& proto_field_name(pb, meta) is Some
    &&& pb.value is Some
    &&& !is_empty_string(pb.value.unwrap())
}

/// Whether `pb` gives a field named `n` under `meta`.
pub open spec fn field_named(pb: ProtoField, meta: Metadata, n: Seq<char>) -> bool {
    accepted_field(pb, meta) && proto_field_name(pb, meta).unwrap() == n
}

/// The index of the last of the first `upto` fields of `pbs` that gives a
/// field named `n`.
pub open spec fn last_named(pbs: Seq<ProtoField>, meta: Metadata, n: Seq<char>, upto: int) -> Option<
    int,
>
    decreases upto,
{
    if upto <= 0 {
        None
    } else if field_named(pbs[upto - 1], meta, n) {
        Some(upto - 1)
    } else {
        last_named(pbs, meta, n, upto - 1)
    }
}

/// The indices, in order, of the first `upto` fields of `pbs` that give a
/// field other than the task's name and ID.
pub open spec fn other_fields(pbs: Seq<ProtoField>, meta: Metadata, upto: int) -> Seq<int>
    decreases upto,
{
    if upto <= 0 {
        Seq::empty()
    } else {
        let prev = other_fields(pbs, meta, upto - 1);
        let pb = pbs[upto - 1];
        if accepted_field(pb, meta) && proto_field_name(pb, meta).unwrap() != task_name_name()
            && proto_field_name(pb, meta).unwrap() != task_id_name() {
            prev.push(upto - 1)
        } else {
            prev
        }
    }
}

/// The task name that the fields `pbs` give: the value of the last field named
/// `task.name`.
pub open spec fn name_from_fields(pbs: Seq<ProtoField>, meta: Metadata) -> Option<Seq<char>> {
    match last_named(pbs, meta, task_name_name(), pbs.len() as int) {
        Some(i) => Some(value_text(pbs[i].value.unwrap())),
        None => None,
    }
}

/// The task ID that the fields `pbs` give: the value of the last field named
/// `task.id`, when it is an unsigned number.
pub open spec fn task_id_from_fields(pbs: Seq<ProtoField>, meta: Metadata) -> Option<u64> {
    match last_named(pbs, meta, task_id_name(), pbs.len() as int) {
        Some(i) => match pbs[i].value.unwrap() {
            FieldValue::U64(v) => Some(v),
            _ => None,
        },
        None => None,
    }
}

/// Whether `f` is the field that `pb` gives under `meta`.
pub open spec fn field_from(pb: ProtoField, meta: Metadata, f: Field) -> bool {
    &&& f.name@ == proto_field_name(pb, meta).unwrap()
    &&& received_value(f.name@, pb.value.unwrap(), f.value)
}

/// Whether `fields` are the fields other than name and ID that `pbs` give.
pub open spec fn fields_from(pbs: Seq<ProtoField>, meta: Metadata, fields: Seq<Field>) -> bool {
    let idx = other_fields(pbs, meta, pbs.len() as int);
    &&& fields.len() == idx.len()
    &&& forall|i: int| 0 <= i < fields.len() ==> field_from(pbs[idx[i]], meta, #[trigger] fields[i])
}

/// The fields of a task: its name, its ID in its runtime, and the other
/// fields, in the order they came.
pub struct TaskFields {
    pub name: Option<InternedStr>,
    pub task_id: Option<u64>,
    pub fields: Vec<Field>,
}

/// Converts the fields of a task's span: the `task.name` and `task.id` fields
/// become the task's name and ID, the others are kept.
pub fn split_task_fields(pbs: Vec<ProtoField>, meta: &Metadata, strings: &mut Strings) -> (r: TaskFields)
    ensures
        r.name is Some == name_from_fields(pbs@, *meta) is Some,
        r.name matches Some(n) ==> n@ == name_from_fields(pbs@, *meta).unwrap(),
        r.task_id == task_id_from_fields(pbs@, *meta),
        fields_from(pbs@, *meta, r.fields@),
        old(strings)@.subset_of(final(strings)@),
{
    let ghost orig = pbs@;
    let ghost total = orig.len();
    let mut rest = crate::store::reversed(pbs);
    let mut name: Option<InternedStr> = None;
    let mut task_id: Option<u64> = None;
    let mut fields: Vec<Field> = Vec::new();
    while rest.len() > 0
        invariant
            rest@.len() <= total,
            total == orig.len(),
            rest@ == orig.reverse().take(rest@.len() as int),
            name is Some == last_named(orig, *meta, task_name_name(), total - rest@.len()) is Some,
            name matches Some(n) ==> n@ == value_text(
                orig[last_named(orig, *meta, task_name_name(), total - rest@.len()).unwrap()].value.unwrap(),
            ),
            task_id == match last_named(orig, *meta, task_id_name(), total - rest@.len()) {
                Some(i) => match orig[i].value.unwrap() {
                    FieldValue::U64(v) => Some(v),
                    _ => None,
                },
                None => None,
            },
            fields@.len() == other_fields(orig, *meta, total - rest@.len()).len(),
            forall|i: int|
                0 <= i < fields@.len() ==> field_from(
                    orig[other_fields(orig, *meta, total - rest@.len())[i]],
                    *meta,
                    #[trigger] fields@[i],
                ),
            old(strings)@.subset_of(strings@),
        decreases rest.len(),
    {
        let ghost done = total - rest@.len();
        let pb = rest.pop().unwrap();
        assert(orig[done] == pb) by {
            assert(orig.reverse()[rest@.len() as int] == orig[total - 1 - rest@.len()]);
        }
        assert(rest@ =~= orig.reverse().take(rest@.len() as int));
        let ghost prev_fields = fields@;
        let ghost before = strings@;
        proof {
            reveal_strlit("task.name");
            reveal_strlit("task.id");
            reveal_strlit("spawn.location");
            assert(task_name_name()[0] != spawn_location_name()[0]);
            assert(task_id_name()[0] != spawn_location_name()[0]);
            assert(task_id_name()[5] != task_name_name()[5]);
        }
        if let Some(field) = Field::from_proto(pb, meta, strings) {
            if field.name.eq_str("task.name") {
                let text = field.value.to_string();
                name = Some(strings.string(text));
            } else if field.name.eq_str("task.id") {
                task_id = match field.value {
                    FieldValue::U64(id) => Some(id),
                    _ => None,
                };
            } else {
                fields.push(field);
                assert forall|i: int|
                    0 <= i < fields@.len() implies field_from(
                        orig[other_fields(orig, *meta, done + 1)[i]],
                        *meta,
                        #[trigger] fields@[i],
                    ) by {
                    if i < prev_fields.len() {
                        assert(fields@[i] == prev_fields[i]);
                    }
                }
            }
        }
    }
    TaskFields { name, task_id, fields }
}


/// Where a field comes in the order of fields: `task.name` first,
/// `spawn.location` (which is long) last, the others between them.
pub open spec fn field_rank(name: Seq<char>) -> nat {
    if name == task_name_name() {
        0
    } else if name == spawn_location_name() {
        2
    } else {
        1
    }
}

/// The rank of a field's name.
fn rank_of(name: &InternedStr) -> (r: u8)
    ensures
        r == field_rank(name@),
{
    if name.eq_str("task.name") {
        0
    } else if name.eq_str("spawn.location") {
        2
    } else {
        1
    }
}

impl TotalPreorder for Field {
    /// Fields are ordered by rank, and fields of the middle rank by name; the
    /// value plays no part.
    open spec fn le(a: Self, b: Self) -> bool {
        let ra = field_rank(a.name@);
        let rb = field_rank(b.name@);
        ra < rb || (ra == rb && (ra != 1 || seq_le(a.name@, b.name@)))
    }

    proof fn lemma_le_total(a: Self, b: Self) {
        lemma_seq_le_total(a.name@, b.name@);
    }

    proof fn lemma_le_trans(a: Self, b: Self, c: Self) {
        if seq_le(a.name@, b.name@) && seq_le(b.name@, c.name@) {
            lemma_seq_le_trans(a.name@, b.name@, c.name@);
        }
    }

    fn le_exec(&self, other: &Self) -> (r: bool) {
        let ra = rank_of(&self.name);
        let rb = rank_of(&other.name);
        ra < rb || (ra == rb && (ra != 1 || str_le(self.name.as_str(), other.name.as_str())))
    }
}

/// A field of a resource or an async operation, with the unit of its value.
pub struct Attribute {
    pub field: Field,
    pub unit: Option<String>,
}

/// Whether the unit `a` comes before `b` or equals it: no unit first, then
/// by name.
pub open spec fn unit_le(a: Option<String>, b: Option<String>) -> bool {
    match (a, b) {
        (None, _) => true,
        (Some(_), None) => false,
        (Some(x), Some(y)) => seq_le(x@, y@),
    }
}

impl TotalPreorder for Attribute {
    /// Attributes are ordered by their fields, and those that tie by unit.
    open spec fn le(a: Self, b: Self) -> bool {
        let fa = <Field as TotalPreorder>::le(a.field, b.field);
        let fb = <Field as TotalPreorder>::le(b.field, a.field);
        (fa && !fb) || (fa && fb && unit_le(a.unit, b.unit))
    }

    proof fn lemma_le_total(a: Self, b: Self) {
        <Field as TotalPreorder>::lemma_le_total(a.field, b.field);
        match (a.unit, b.unit) {
            (Some(x), Some(y)) => lemma_seq_le_total(x@, y@),
            _ => {},
        }
    }

    proof fn lemma_le_trans(a: Self, b: Self, c: Self) {
        let x = a.field.name@;
        let y = b.field.name@;
        let z = c.field.name@;
        if seq_le(x, y) && seq_le(y, z) {
            lemma_seq_le_trans(x, y, z);
        }
        if seq_le(y, z) && seq_le(z, x) {
            lemma_seq_le_trans(y, z, x);
        }
        if seq_le(z, x) && seq_le(x, y) {
            lemma_seq_le_trans(z, x, y);
        }
        if seq_le(x, z) && seq_le(z, y) {
            lemma_seq_le_trans(x, z, y);
        }
        if seq_le(y, x) && seq_le(x, z) {
            lemma_seq_le_trans(y, x, z);
        }
        if seq_le(z, y) && seq_le(y, x) {
            lemma_seq_le_trans(z, y, x);
        }
        lemma_seq_le_total(x, y);
        lemma_seq_le_total(y, z);
        lemma_seq_le_total(x, z);
        match (a.unit, b.unit, c.unit) {
            (Some(u), Some(v), Some(w)) => {
                if seq_le(u@, v@) && seq_le(v@, w@) {
                    lemma_seq_le_trans(u@, v@, w@);
                }
            },
            _ => {},
        }
    }

    fn le_exec(&self, other: &Self) -> (r: bool) {
        let fa = self.field.le_exec(&other.field);
        let fb = other.field.le_exec(&self.field);
        if fa && !fb {
            return true;
        }
        if !(fa && fb) {
            return false;
        }
        match (&self.unit, &other.unit) {
            (None, _) => true,
            (Some(_), None) => false,
            (Some(x), Some(y)) => str_le(x.as_str(), y.as_str()),
        }
    }
}

/// The style of a field's name: bold, light blue if the palette shows it.
pub open spec fn key_style(s: Styles) -> Style {
    adding(fg_style_in(s.palette, Color::LightBlue), Modifier { bold: true, dim: false, reversed: false })
}

/// The style of the `=` between a name and a value: dim, light blue if the
/// palette shows it.
pub open spec fn delim_style(s: Styles) -> Style {
    adding(fg_style_in(s.palette, Color::LightBlue), Modifier { bold: false, dim: true, reversed: false })
}

/// The style of a value: yellow if the palette shows it.
pub open spec fn val_style(s: Styles) -> Style {
    fg_style_in(s.palette, Color::Yellow)
}

/// The style of a unit: light blue if the palette shows it.
pub open spec fn unit_style(s: Styles) -> Style {
    fg_style_in(s.palette, Color::LightBlue)
}

/// How a field is shown: `name=value ` in the styles of names, `=` and values.
pub open spec fn field_spans(s: Styles, f: Field) -> Seq<(Seq<char>, Style)> {
    seq![
        (f.name@, key_style(s)),
        ("="@, delim_style(s)),
        (value_text(f.value) + seq![' '], val_style(s)),
    ]
}

/// How an attribute is shown: `name=value`, its unit, and a space.
pub open spec fn attribute_spans(s: Styles, a: Attribute) -> Seq<(Seq<char>, Style)> {
    seq![
        (a.field.name@, key_style(s)),
        ("="@, delim_style(s)),
        (value_text(a.field.value), val_style(s)),
    ] + match a.unit {
        Some(u) => seq![(u@, unit_style(s))],
        None => Seq::empty(),
    } + seq![(" "@, plain_style())]
}

/// The spans that show a name and a value: `name`, `=`, and the value with
/// `tail` after it.
fn name_value_spans(styles: &Styles, f: &Field, tail: &str) -> (r: Vec<Span>)
    ensures
        span_views(r@) == seq![
            (f.name@, key_style(*styles)),
            ("="@, delim_style(*styles)),
            (value_text(f.value) + tail@, val_style(*styles)),
        ],
{
    let key = styles.fg(Color::LightBlue).add_modifier(Modifier::bold());
    let delim = styles.fg(Color::LightBlue).add_modifier(Modifier::dim());
    let val = styles.fg(Color::Yellow);
    let mut text: Vec<char> = Vec::new();
    let value = f.value.to_string();
    crate::warnings::push_str(&mut text, value.as_str());
    crate::warnings::push_str(&mut text, tail);
    let mut spans: Vec<Span> = Vec::new();
    spans.push(Span::styled(f.name.to_string(), key));
    spans.push(Span::styled("=".to_string(), delim));
    spans.push(Span::styled(string_from(text.as_slice()), val));
    assert(span_views(spans@) =~= seq![
        (f.name@, key_style(*styles)),
        ("="@, delim_style(*styles)),
        (value_text(f.value) + tail@, val_style(*styles)),
    ]);
    spans
}

impl Field {
    /// Sorts `fields` (by rank, then by name) and returns how each of them is
    /// shown, in that order.
    pub fn make_formatted(styles: &Styles, fields: &mut Vec<Field>) -> (r: Vec<Vec<Span>>)
        ensures
            final(fields)@.to_multiset() == old(fields)@.to_multiset(),
            sorted_by(final(fields)@, le_of::<Field>()),
            r@.len() == final(fields)@.len(),
            forall|i: int|
                0 <= i < r@.len() ==> span_views(#[trigger] r@[i]@) == field_spans(
                    *styles,
                    final(fields)@[i],
                ),
    {
        let mut taken: Vec<Field> = Vec::new();
        std::mem::swap(&mut taken, fields);
        let sorted = sort_by_order(taken);
        *fields = sorted;
        let mut formatted: Vec<Vec<Span>> = Vec::new();
        let n = fields.len();
        for i in 0..n
            invariant
                n == fields@.len(),
                formatted@.len() == i,
                forall|j: int|
                    0 <= j < i ==> span_views(#[trigger] formatted@[j]@) == field_spans(
                        *styles,
                        fields@[j],
                    ),
        {
            let spans = name_value_spans(styles, &fields[i], " ");
            proof {
                reveal_strlit(" ");
                assert(" "@ =~= seq![' ']);
            }
            formatted.push(spans);
        }
        formatted
    }
}

impl Attribute {
    /// Sorts `attributes` (by field, then by unit) and returns how each of
    /// them is shown, in that order.
    pub fn make_formatted(styles: &Styles, attributes: &mut Vec<Attribute>) -> (r: Vec<Vec<Span>>)
        ensures
            final(attributes)@.to_multiset() == old(attributes)@.to_multiset(),
            sorted_by(final(attributes)@, le_of::<Attribute>()),
            r@.len() == final(attributes)@.len(),
            forall|i: int|
                0 <= i < r@.len() ==> span_views(#[trigger] r@[i]@) == attribute_spans(
                    *styles,
                    final(attributes)@[i],
                ),
    {
        let mut taken: Vec<Attribute> = Vec::new();
        std::mem::swap(&mut taken, attributes);
        let sorted = sort_by_order(taken);
        *attributes = sorted;
        let mut formatted: Vec<Vec<Span>> = Vec::new();
        let n = attributes.len();
        for i in 0..n
            invariant
                n == attributes@.len(),
                formatted@.len() == i,
                forall|j: int|
                    0 <= j < i ==> span_views(#[trigger] formatted@[j]@) == attribute_spans(
                        *styles,
                        attributes@[j],
                    ),
        {
            let attr = &attributes[i];
            let mut elems = name_value_spans(styles, &attr.field, "");
            proof {
                reveal_strlit("");
                assert(value_text(attr.field.value) + ""@ =~= value_text(attr.field.value));
            }
            let ghost head = span_views(elems@);
            match &attr.unit {
                Some(unit) => {
                    elems.push(Span::styled(unit.clone(), styles.fg(Color::LightBlue)));
                },
                None => {},
            }
            elems.push(Span::raw(" ".to_string()));
            assert(span_views(elems@) =~= attribute_spans(*styles, *attr));
            formatted.push(elems);
        }
        formatted
    }
}

/// Whether one of `fields` is named `s`.
pub open spec fn has_field_named(fields: Seq<Field>, s: Seq<char>) -> bool {
    exists|i: int| 0 <= i < fields.len() && #[trigger] fields[i].name@ == s
}

proof fn lemma_field_named_take(fields: Seq<Field>, j: int, s: Seq<char>)
    requires
        0 <= j < fields.len(),
    ensures
        has_field_named(fields.take(j + 1), s) <==> has_field_named(fields.take(j), s) || fields[j].name@ == s,
{
    if has_field_named(fields.take(j + 1), s) {
        let m = choose|m: int| 0 <= m < j + 1 && #[trigger] fields.take(j + 1)[m].name@ == s;
        if m < j {
            assert(fields.take(j)[m].name@ == s);
        }
    }
    if has_field_named(fields.take(j), s) {
        let m = choose|m: int| 0 <= m < j && #[trigger] fields.take(j)[m].name@ == s;
        assert(fields.take(j + 1)[m].name@ == s);
    }
    if fields[j].name@ == s {
        assert(fields.take(j + 1)[j].name@ == s);
    }
}

/// Pushes copies of the names of `fields` onto `out`.
pub fn push_field_names(out: &mut Vec<InternedStr>, fields: &Vec<Field>)
    ensures
        forall|s: Seq<char>| #![trigger holds_text(final(out)@, s)]
            holds_text(final(out)@, s) <==> holds_text(old(out)@, s) || has_field_named(fields@, s),
{
    let ghost start = out@;
    let n = fields.len();
    let mut i: usize = 0;
    while i < n
        invariant
            n == fields@.len(),
            i <= n,
            start == old(out)@,
            forall|s: Seq<char>|
                holds_text(out@, s) <==> holds_text(start, s) || has_field_named(fields@.take(i as int), s),
        decreases n - i,
    {
        let ghost before = out@;
        let ghost j = i as int;
        let c = fields[i].name.clone();
        proof {
            lemma_holds_push(out@, c);
        }
        out.push(c);
        i = i + 1;
        assert(j + 1 == i as int);
        assert forall|s: Seq<char>|
            holds_text(out@, s) <==> holds_text(start, s) || has_field_named(fields@.take(i as int), s) by {
            assert(holds_text(before, s) <==> holds_text(start, s) || has_field_named(fields@.take(j), s));
            assert(holds_text(out@, s) <==> holds_text(before, s) || fields@[j].name@ == s);
            lemma_field_named_take(fields@, j, s);
        }
    }
    assert(fields@.take(i as int) =~= fields@);
    assert(forall|s: Seq<char>|
        holds_text(out@, s) <==> holds_text(old(out)@, s) || has_field_named(fields@, s));
}

/// Whether one of the attributes `attrs` is named `s`.
pub open spec fn attribute_named(attrs: Seq<Attribute>, s: Seq<char>) -> bool {
    exists|i: int| 0 <= i < attrs.len() && #[trigger] attrs[i].field.name@ == s
}

proof fn lemma_attribute_named_take(attrs: Seq<Attribute>, j: int, s: Seq<char>)
    requires
        0 <= j < attrs.len(),
    ensures
        attribute_named(attrs.take(j + 1), s) <==> attribute_named(attrs.take(j), s) || attrs[j].field.name@
            == s,
{
    if attribute_named(attrs.take(j + 1), s) {
        let m = choose|m: int| 0 <= m < j + 1 && #[trigger] attrs.take(j + 1)[m].field.name@ == s;
        if m < j {
            assert(attrs.take(j)[m].field.name@ == s);
        }
    }
    if attribute_named(attrs.take(j), s) {
        let m = choose|m: int| 0 <= m < j && #[trigger] attrs.take(j)[m].field.name@ == s;
        assert(attrs.take(j + 1)[m].field.name@ == s);
    }
    if attrs[j].field.name@ == s {
        assert(attrs.take(j + 1)[j].field.name@ == s);
    }
}

/// Pushes copies of the names of the attributes `attrs` onto `out`.
pub fn push_attribute_names(out: &mut Vec<InternedStr>, attrs: &Vec<Attribute>)
    ensures
        forall|s: Seq<char>| #![trigger holds_text(final(out)@, s)]
            holds_text(final(out)@, s) <==> holds_text(old(out)@, s) || attribute_named(attrs@, s),
{
    let ghost start = out@;
    let n = attrs.len();
    let mut i: usize = 0;
    while i < n
        invariant
            n == attrs@.len(),
            i <= n,
            start == old(out)@,
            forall|s: Seq<char>|
                holds_text(out@, s) <==> holds_text(start, s) || attribute_named(attrs@.take(i as int), s),
        decreases n - i,
    {
        let ghost before = out@;
        let ghost j = i as int;
        let c = attrs[i].field.name.clone();
        proof {
            lemma_holds_push(out@, c);
        }
        out.push(c);
        i = i + 1;
        assert(j + 1 == i as int);
        assert forall|s: Seq<char>|
            holds_text(out@, s) <==> holds_text(start, s) || attribute_named(attrs@.take(i as int), s) by {
            assert(holds_text(before, s) <==> holds_text(start, s) || attribute_named(attrs@.take(j), s));
            assert(holds_text(out@, s) <==> holds_text(before, s) || attrs@[j].field.name@ == s);
            lemma_attribute_named_take(attrs@, j, s);
        }
    }
    assert(attrs@.take(i as int) =~= attrs@);
    assert(forall|s: Seq<char>|
        holds_text(out@, s) <==> holds_text(old(out)@, s) || attribute_named(attrs@, s));
}

/// Whether the metadata `m` holds the interned string `s`: its target or one
/// of its field names.
pub open spec fn metadata_holds(m: Metadata, s: Seq<char>) -> bool {
    m.target@ == s || holds_text(m.field_names@, s)
}

/// Pushes copies of the interned strings of `m` onto `out`.
pub fn push_metadata_texts(out: &mut Vec<InternedStr>, m: &Metadata)
    ensures
        forall|s: Seq<char>| #![trigger holds_text(final(out)@, s)]
            holds_text(final(out)@, s) <==> holds_text(old(out)@, s) || metadata_holds(*m, s),
{
    let ghost start = out@;
    push_text(out, &m.target);
    let ghost mid = out@;
    push_texts(out, &m.field_names);
    assert forall|s: Seq<char>|
        holds_text(out@, s) <==> holds_text(start, s) || metadata_holds(*m, s) by {
        assert(holds_text(mid, s) <==> holds_text(start, s) || m.target@ == s);
        assert(holds_text(out@, s) <==> holds_text(mid, s) || holds_text(m.field_names@, s));
    }
}

} // verus!
