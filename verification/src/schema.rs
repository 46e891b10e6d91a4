//! The schema document: the keywords that the builder reads.

use crate::literal::{Literal, LiteralView};
use crate::text::text_view;
use vstd::prelude::*;

verus! {

/// The name of a primitive or container type in a `type` keyword.
#[derive(Clone, Copy, Debug, PartialEq, Eq, Structural)]
pub enum InstanceType {
    Null,
    Boolean,
    Object,
    Array,
    Number,
    String,
    Integer,
}

/// The `type` keyword: one type name, or a list of them.
#[derive(Debug, PartialEq, Eq)]
pub enum InstanceTypes {
    Single(InstanceType),
    Vec(Vec<InstanceType>),
}

/// The `items` keyword: one schema shared by every element, or one schema
/// per position.
#[derive(Debug, PartialEq, Eq)]
pub enum Items {
    Single(Box<Schema>),
    Vec(Vec<Schema>),
}

/// The descriptive keywords. They have no part in matching.
#[derive(Debug, PartialEq, Eq)]
pub struct Metadata {
    pub title: Option<String>,
    pub description: Option<String>,
}

/// The composition keywords.
#[derive(Debug, PartialEq, Eq)]
pub struct SubschemaValidation {
    pub all_of: Option<Vec<Schema>>,
    pub any_of: Option<Vec<Schema>>,
    pub one_of: Option<Vec<Schema>>,
    pub not: Option<Box<Schema>>,
}

/// The keywords on the shape of an array.
#[derive(Debug, PartialEq, Eq)]
pub struct ArrayValidation {
    pub items: Option<Items>,
    pub min_items: Option<u32>,
    pub max_items: Option<u32>,
}

/// The keywords on the shape of an object.
#[derive(Debug, PartialEq, Eq)]
pub struct ObjectValidation {
    /// The declared properties, in the order of their declaration.
    pub properties: Vec<(String, Schema)>,
    pub additional_properties: Option<Box<Schema>>,
}

/// One schema fragment: a set of keywords that describes a shape.
#[derive(Debug, PartialEq, Eq)]
pub struct SchemaObject {
    pub metadata: Option<Metadata>,
    pub instance_type: Option<InstanceTypes>,
    /// A hint on the numeric subkind.
    pub format: Option<String>,
    pub enum_values: Option<Vec<Literal>>,
    pub subschemas: Option<SubschemaValidation>,
    pub array: Option<ArrayValidation>,
    pub object: Option<ObjectValidation>,
    /// A reference of the form `#/definitions/<name>`.
    pub reference: Option<String>,
}

/// A schema: a fragment, or a plain boolean. `true` matches anything and
/// `false` matches nothing.
#[derive(Debug, PartialEq, Eq)]
pub enum Schema {
    Bool(bool),
    Object(SchemaObject),
}

/// A schema document: the root fragment and the table of the definitions
/// that references name.
#[derive(Debug, PartialEq, Eq)]
pub struct RootSchema {
    pub schema: SchemaObject,
    pub definitions: Vec<(String, Schema)>,
}

/// The mathematical value of an [`InstanceTypes`].
pub enum InstanceTypesView {
    Single(InstanceType),
    Vec(Seq<InstanceType>),
}

/// The mathematical value of an [`Items`].
pub enum ItemsView {
    Single(Box<SchemaView>),
    Vec(Seq<SchemaView>),
}

/// The mathematical value of a [`Metadata`].
pub struct MetadataView {
    pub title: Option<Seq<char>>,
    pub description: Option<Seq<char>>,
}

/// The mathematical value of a [`SubschemaValidation`].
pub struct SubschemaValidationView {
    pub all_of: Option<Seq<SchemaView>>,
    pub any_of: Option<Seq<SchemaView>>,
    pub one_of: Option<Seq<SchemaView>>,
    pub not: Option<Box<SchemaView>>,
}

/// The mathematical value of an [`ArrayValidation`].
pub struct ArrayValidationView {
    pub items: Option<ItemsView>,
    pub min_items: Option<u32>,
    pub max_items: Option<u32>,
}

/// The mathematical value of an [`ObjectValidation`].
pub struct ObjectValidationView {
    pub properties: Seq<(Seq<char>, SchemaView)>,
    pub additional_properties: Option<Box<SchemaView>>,
}

/// The mathematical value of a [`SchemaObject`].
pub struct SchemaObjectView {
    pub metadata: Option<MetadataView>,
    pub instance_type: Option<InstanceTypesView>,
    pub format: Option<Seq<char>>,
    pub enum_values: Option<Seq<LiteralView>>,
    pub subschemas: Option<SubschemaValidationView>,
    pub array: Option<ArrayValidationView>,
    pub object: Option<ObjectValidationView>,
    pub reference: Option<Seq<char>>,
}

/// The mathematical value of a [`Schema`].
pub enum SchemaView {
    Bool(bool),
    Object(SchemaObjectView),
}

/// The mathematical value of a [`RootSchema`].
pub struct RootSchemaView {
    pub schema: SchemaObjectView,
    pub definitions: Seq<(Seq<char>, SchemaView)>,
}

/// The views of `literals`, in order.
pub open spec fn literals_view(literals: Vec<Literal>) -> Seq<LiteralView> {
    Seq::new(literals.len() as nat, |i: int| literals[i]@)
}

/// The view of a `type` keyword.
pub open spec fn types_view(types: InstanceTypes) -> InstanceTypesView {
    match types {
        InstanceTypes::Single(instance_type) => InstanceTypesView::Single(instance_type),
        InstanceTypes::Vec(names) => InstanceTypesView::Vec(names@),
    }
}

/// The view of the descriptive keywords.
pub open spec fn metadata_view(metadata: Metadata) -> MetadataView {
    MetadataView {
        title: text_view(metadata.title),
        description: text_view(metadata.description),
    }
}

/// The view of the descriptive keywords, where there are any.
pub open spec fn optional_metadata_view(metadata: Option<Metadata>) -> Option<MetadataView> {
    match metadata {
        Some(metadata) => Some(metadata_view(metadata)),
        None => None,
    }
}

/// The views of `schemas`, in order.
pub open spec fn schemas_view(schemas: Vec<Schema>) -> Seq<SchemaView>
    decreases schemas,
{
    Seq::new(
        schemas.len() as nat,
        |i: int|
            if 0 <= i < schemas.len() {
                schema_view(schemas[i])
            } else {
                SchemaView::Bool(true)
            },
    )
}

/// The views of named schemas, in order: the properties of an object, or
/// the table of definitions.
pub open spec fn named_schemas_view(entries: Vec<(String, Schema)>) -> Seq<(Seq<char>, SchemaView)>
    decreases entries,
{
    Seq::new(
        entries.len() as nat,
        |i: int|
            if 0 <= i < entries.len() {
                (entries[i].0@, schema_view(entries[i].1))
            } else {
                (Seq::empty(), SchemaView::Bool(true))
            },
    )
}

/// The view of the composition keywords.
pub open spec fn subschemas_view(subschemas: SubschemaValidation) -> SubschemaValidationView
    decreases subschemas,
{
    SubschemaValidationView {
        all_of: match subschemas.all_of {
            Some(branches) => Some(schemas_view(branches)),
            None => None,
        },
        any_of: match subschemas.any_of {
            Some(branches) => Some(schemas_view(branches)),
            None => None,
        },
        one_of: match subschemas.one_of {
            Some(branches) => Some(schemas_view(branches)),
            None => None,
        },
        not: match subschemas.not {
            Some(negated) => Some(Box::new(schema_view(*negated))),
            None => None,
        },
    }
}

/// The view of the keywords on the shape of an array.
pub open spec fn array_view(shape: ArrayValidation) -> ArrayValidationView
    decreases shape,
{
    ArrayValidationView {
        items: match shape.items {
            Some(Items::Single(schema)) => Some(ItemsView::Single(Box::new(schema_view(*schema)))),
            Some(Items::Vec(schemas)) => Some(ItemsView::Vec(schemas_view(schemas))),
            None => None,
        },
        min_items: shape.min_items,
        max_items: shape.max_items,
    }
}

/// The view of the keywords on the shape of an object.
pub open spec fn object_shape_view(shape: ObjectValidation) -> ObjectValidationView
    decreases shape,
{
    ObjectValidationView {
        properties: named_schemas_view(shape.properties),
        additional_properties: match shape.additional_properties {
            Some(schema) => Some(Box::new(schema_view(*schema))),
            None => None,
        },
    }
}

/// The view of a fragment.
pub open spec fn object_view(object: SchemaObject) -> SchemaObjectView
    decreases object,
{
    SchemaObjectView {
        metadata: optional_metadata_view(object.metadata),
        instance_type: match object.instance_type {
            Some(types) => Some(types_view(types)),
            None => None,
        },
        format: text_view(object.format),
        enum_values: match object.enum_values {
            Some(literals) => Some(literals_view(literals)),
            None => None,
        },
        subschemas: match object.subschemas {
            Some(subschemas) => Some(subschemas_view(subschemas)),
            None => None,
        },
        array: match object.array {
            Some(shape) => Some(array_view(shape)),
            None => None,
        },
        object: match object.object {
            Some(shape) => Some(object_shape_view(shape)),
            None => None,
        },
        reference: text_view(object.reference),
    }
}

/// The view of a schema.
pub open spec fn schema_view(schema: Schema) -> SchemaView
    decreases schema,
{
    match schema {
        Schema::Bool(accepts) => SchemaView::Bool(accepts),
        Schema::Object(object) => SchemaView::Object(object_view(object)),
    }
}

impl View for InstanceTypes {
    type V = InstanceTypesView;

    open spec fn view(&self) -> InstanceTypesView {
        types_view(*self)
    }
}

impl View for Metadata {
    type V = MetadataView;

    open spec fn view(&self) -> MetadataView {
        metadata_view(*self)
    }
}

impl View for SubschemaValidation {
    type V = SubschemaValidationView;

    open spec fn view(&self) -> SubschemaValidationView {
        subschemas_view(*self)
    }
}

impl View for ArrayValidation {
    type V = ArrayValidationView;

    open spec fn view(&self) -> ArrayValidationView {
        array_view(*self)
    }
}

impl View for ObjectValidation {
    type V = ObjectValidationView;

    open spec fn view(&self) -> ObjectValidationView {
        object_shape_view(*self)
    }
}

impl View for SchemaObject {
    type V = SchemaObjectView;

    open spec fn view(&self) -> SchemaObjectView {
        object_view(*self)
    }
}

impl View for Schema {
    type V = SchemaView;

    open spec fn view(&self) -> SchemaView {
        schema_view(*self)
    }
}

impl View for RootSchema {
    type V = RootSchemaView;

    open spec fn view(&self) -> RootSchemaView {
        RootSchemaView {
            schema: object_view(self.schema),
            definitions: named_schemas_view(self.definitions),
        }
    }
}

/// The fragment without any keyword.
pub open spec fn empty_object() -> SchemaObjectView {
    SchemaObjectView {
        metadata: None,
        instance_type: None,
        format: None,
        enum_values: None,
        subschemas: None,
        array: None,
        object: None,
        reference: None,
    }
}

/// The fragment that stands for the schema `false`: its only keyword is a
/// negation of the fragment without any keyword.
pub open spec fn never_object() -> SchemaObjectView {
    SchemaObjectView {
        metadata: None,
        instance_type: None,
        format: None,
        enum_values: None,
        subschemas: Some(
            SubschemaValidationView {
                all_of: None,
                any_of: None,
                one_of: None,
                not: Some(Box::new(SchemaView::Object(empty_object()))),
            },
        ),
        array: None,
        object: None,
        reference: None,
    }
}

/// The fragment that a schema stands for: the fragment itself; for `true`
/// the fragment without any keyword; for `false` the negation of that one.
pub open spec fn fragment_of(schema: SchemaView) -> SchemaObjectView {
    match schema {
        SchemaView::Object(object) => object,
        SchemaView::Bool(true) => empty_object(),
        SchemaView::Bool(false) => never_object(),
    }
}

impl Default for SchemaObject {
    fn default() -> (object: Self)
        ensures
            object@ == empty_object(),
    {
        SchemaObject {
            metadata: None,
            instance_type: None,
            format: None,
            enum_values: None,
            subschemas: None,
            array: None,
            object: None,
            reference: None,
        }
    }
}

/// A fragment that is borrowed from a schema, or owned where the schema
/// holds none.
#[derive(Debug, PartialEq, Eq)]
pub enum ObjectCow<'a> {
    Borrowed(&'a SchemaObject),
    Owned(SchemaObject),
}

impl<'a> ObjectCow<'a> {
    /// The fragment that `self` holds.
    pub open spec fn object(self) -> SchemaObject {
        match self {
            ObjectCow::Borrowed(borrowed) => *borrowed,
            ObjectCow::Owned(owned) => owned,
        }
    }

    /// The fragment that `self` holds.
    pub fn get(&self) -> (object: &SchemaObject)
        ensures
            *object == self.object(),
    {
        match self {
            ObjectCow::Borrowed(borrowed) => borrowed,
            ObjectCow::Owned(owned) => owned,
        }
    }
}

impl<'a> View for ObjectCow<'a> {
    type V = SchemaObjectView;

    open spec fn view(&self) -> SchemaObjectView {
        object_view(self.object())
    }
}

/// What can be read as a schema fragment.
pub trait ToSchemaObject {
    /// The fragment that `self` stands for.
    spec fn object_spec(&self) -> SchemaObjectView;

    /// The fragment that `self` stands for: borrowed where `self` holds
    /// one, made where it does not.
    fn to_object(&self) -> (object: ObjectCow<'_>)
        ensures
            object@ == self.object_spec(),
    ;
}

impl ToSchemaObject for Schema {
    open spec fn object_spec(&self) -> SchemaObjectView {
        fragment_of(self@)
    }

    fn to_object(&self) -> (object: ObjectCow<'_>)
        ensures
            object matches ObjectCow::Borrowed(borrowed) ==> *self == Schema::Object(*borrowed),
            object is Borrowed <==> self is Object,
    {
        match self {
            Schema::Object(object) => ObjectCow::Borrowed(object),
            Schema::Bool(true) => ObjectCow::Owned(SchemaObject::default()),
            Schema::Bool(false) => ObjectCow::Owned(
                SchemaObject {
                    metadata: None,
                    instance_type: None,
                    format: None,
                    enum_values: None,
                    subschemas: Some(
                        SubschemaValidation {
                            all_of: None,
                            any_of: None,
                            one_of: None,
                            not: Some(Box::new(Schema::Object(SchemaObject::default()))),
                        },
                    ),
                    array: None,
                    object: None,
                    reference: None,
                },
            ),
        }
    }
}

} // verus!
