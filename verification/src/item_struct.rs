//! Rewriting of a record: it gets a hidden field for its identity, and beside
//! it stands a plain record without that field, from which it can be made.

use crate::text::{join, join_text, lemma_take_push, lemma_views_push, views};
use vstd::prelude::*;

verus! {

/// A named field of a record.
#[derive(Clone, Debug, PartialEq, Eq)]
pub struct Field {
    pub attrs: String,
    pub name: String,
    pub ty: String,
}

pub struct FieldView {
    pub attrs: Seq<char>,
    pub name: Seq<char>,
    pub ty: Seq<char>,
}

impl View for Field {
    type V = FieldView;

    open spec fn view(&self) -> FieldView {
        FieldView { attrs: self.attrs@, name: self.name@, ty: self.ty@ }
    }
}

/// A record with named fields.
#[derive(Clone, Debug, PartialEq, Eq)]
pub struct DataRecord {
    pub attrs: String,
    pub name: String,
    pub fields: Vec<Field>,
}

pub struct DataRecordView {
    pub attrs: Seq<char>,
    pub name: Seq<char>,
    pub fields: Seq<FieldView>,
}

impl View for DataRecord {
    type V = DataRecordView;

    open spec fn view(&self) -> DataRecordView {
        DataRecordView { attrs: self.attrs@, name: self.name@, fields: views(self.fields@) }
    }
}

/// The declaration of a field.
pub open spec fn field_text(field: FieldView) -> Seq<char> {
    field.attrs + " "@ + field.name + ": "@ + field.ty
}

/// The declarations of the fields, a comma between each two and one at the end.
pub open spec fn fields_text(fields: Seq<FieldView>) -> Seq<char> {
    join(Seq::new(fields.len(), |i: int| field_text(fields[i])), ", "@) + ","@
}

/// The names of the fields, a comma between each two.
pub open spec fn names_text(fields: Seq<FieldView>) -> Seq<char> {
    join(Seq::new(fields.len(), |i: int| fields[i].name), ", "@)
}

/// The name of the plain record that stands beside a record.
pub open spec fn plain_name(name: Seq<char>) -> Seq<char> {
    "Mry"@ + name
}

/// The record with the hidden field behind its own fields.
pub open spec fn augmented_text(record: DataRecordView) -> Seq<char> {
    record.attrs + " struct "@ + record.name + " { "@ + fields_text(record.fields)
        + " #[cfg(test)] mry_id: mry::MryId, }"@
}

/// The plain record: the same attributes and fields under the plain name.
pub open spec fn plain_text(record: DataRecordView) -> Seq<char> {
    record.attrs + " struct "@ + plain_name(record.name) + " { "@ + fields_text(record.fields)
        + " }"@
}

/// The conversion from the plain record: every field is handed on, and the
/// hidden field gets its default.
pub open spec fn conversion_text(record: DataRecordView) -> Seq<char> {
    "impl From<"@ + plain_name(record.name) + "> for "@ + record.name + " { fn from("@
        + plain_name(record.name) + " { "@ + names_text(record.fields) + " }: "@ + plain_name(
        record.name,
    ) + ") -> Self { "@ + record.name + " { "@ + names_text(record.fields)
        + ", #[cfg(test)] mry_id: Default::default(), } } }"@
}

/// The three declarations that a record becomes.
pub open spec fn record_text(record: DataRecordView) -> Seq<char> {
    augmented_text(record) + " "@ + plain_text(record) + " "@ + conversion_text(record)
}

fn render_fields(fields: &Vec<Field>) -> (r: String)
    ensures
        r@ == fields_text(views(fields@)),
{
    let ghost wanted = Seq::new(fields@.len(), |i: int| field_text(views(fields@)[i]));
    let mut texts: Vec<String> = Vec::new();
    let mut i: usize = 0;
    while i < fields.len()
        invariant
            i <= fields.len(),
            wanted == Seq::new(fields@.len(), |i: int| field_text(views(fields@)[i])),
            views(texts@) == wanted.take(i as int),
        decreases fields.len() - i,
    {
        let mut text = fields[i].attrs.clone();
        text.append(" ");
        text.append(fields[i].name.as_str());
        text.append(": ");
        text.append(fields[i].ty.as_str());
        proof {
            lemma_views_push(texts@, text);
            lemma_take_push(wanted, i as int);
        }
        texts.push(text);
        i += 1;
    }
    assert(wanted.take(fields.len() as int) =~= wanted);
    let mut out = join_text(&texts, ", ");
    out.append(",");
    out
}

fn render_names(fields: &Vec<Field>) -> (r: String)
    ensures
        r@ == names_text(views(fields@)),
{
    let ghost wanted = Seq::new(fields@.len(), |i: int| views(fields@)[i].name);
    let mut names: Vec<String> = Vec::new();
    let mut i: usize = 0;
    while i < fields.len()
        invariant
            i <= fields.len(),
            wanted == Seq::new(fields@.len(), |i: int| views(fields@)[i].name),
            views(names@) == wanted.take(i as int),
        decreases fields.len() - i,
    {
        proof {
            lemma_views_push(names@, fields@[i as int].name);
            lemma_take_push(wanted, i as int);
        }
        names.push(fields[i].name.clone());
        i += 1;
    }
    assert(wanted.take(fields.len() as int) =~= wanted);
    join_text(&names, ", ")
}

fn render_plain_name(name: &String) -> (r: String)
    ensures
        r@ == plain_name(name@),
{
    let mut out = "Mry".to_owned();
    out.append(name.as_str());
    out
}

fn render_augmented(record: &DataRecord) -> (r: String)
    ensures
        r@ == augmented_text(record@),
{
    let mut out = record.attrs.clone();
    out.append(" struct ");
    out.append(record.name.as_str());
    out.append(" { ");
    out.append(render_fields(&record.fields).as_str());
    out.append(" #[cfg(test)] mry_id: mry::MryId, }");
    out
}

fn render_plain(record: &DataRecord) -> (r: String)
    ensures
        r@ == plain_text(record@),
{
    let mut out = record.attrs.clone();
    out.append(" struct ");
    out.append(render_plain_name(&record.name).as_str());
    out.append(" { ");
    out.append(render_fields(&record.fields).as_str());
    out.append(" }");
    out
}

fn render_conversion(record: &DataRecord) -> (r: String)
    ensures
        r@ == conversion_text(record@),
{
    let plain = render_plain_name(&record.name);
    let names = render_names(&record.fields);
    let mut out = "impl From<".to_owned();
    out.append(plain.as_str());
    out.append("> for ");
    out.append(record.name.as_str());
    out.append(" { fn from(");
    out.append(plain.as_str());
    out.append(" { ");
    out.append(names.as_str());
    out.append(" }: ");
    out.append(plain.as_str());
    out.append(") -> Self { ");
    out.append(record.name.as_str());
    out.append(" { ");
    out.append(names.as_str());
    out.append(", #[cfg(test)] mry_id: Default::default(), } } }");
    out
}

/// Rewrites a record: the record with a hidden field that holds its identity
/// under test, a plain record with the same attributes and fields, and the
/// conversion from the plain record.
pub fn transform(record: &DataRecord) -> (r: String)
    ensures
        r@ == record_text(record@),
{
    let mut out = render_augmented(record);
    out.append(" ");
    out.append(render_plain(record).as_str());
    out.append(" ");
    out.append(render_conversion(record).as_str());
    out
}

} // verus!
