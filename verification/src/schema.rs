//! The description of a struct from which flags are generated: its fields,
//! their types and documentation, and the annotation blocks attached to it.

use crate::text::texts;
use vstd::prelude::*;

verus! {

/// A literal value written in an annotation.
#[derive(Clone, Debug, PartialEq, Eq)]
pub enum Literal {
    /// A quoted string, by the text between its quotes.
    Str(String),
    /// Any other literal, as it was written.
    Other(String),
}

pub enum LiteralView {
    Str(Seq<char>),
    Other(Seq<char>),
}

impl View for Literal {
    type V = LiteralView;

    open spec fn view(&self) -> LiteralView {
        match self {
            Literal::Str(text) => LiteralView::Str(text@),
            Literal::Other(text) => LiteralView::Other(text@),
        }
    }
}

/// The view of a literal that may be absent.
pub open spec fn literal_view(literal: Option<Literal>) -> Option<LiteralView> {
    match literal {
        Some(literal) => Some(literal@),
        None => None,
    }
}

/// One entry of an annotation block: a key alone, or a key with a value.
#[derive(Clone, Debug, PartialEq, Eq)]
pub struct AnnotationEntry {
    pub key: String,
    pub value: Option<Literal>,
}

pub struct AnnotationEntryView {
    pub key: Seq<char>,
    pub value: Option<LiteralView>,
}

impl View for AnnotationEntry {
    type V = AnnotationEntryView;

    open spec fn view(&self) -> AnnotationEntryView {
        AnnotationEntryView { key: self.key@, value: literal_view(self.value) }
    }
}

/// One annotation attached to a struct or to a field: the tag it was written
/// under and its entries in the order written.
#[derive(Clone, Debug, PartialEq, Eq)]
pub struct AnnotationBlock {
    pub tag: String,
    pub entries: Vec<AnnotationEntry>,
}

pub struct AnnotationBlockView {
    pub tag: Seq<char>,
    pub entries: Seq<AnnotationEntryView>,
}

impl View for AnnotationBlock {
    type V = AnnotationBlockView;

    open spec fn view(&self) -> AnnotationBlockView {
        AnnotationBlockView {
            tag: self.tag@,
            entries: self.entries@.map_values(|e: AnnotationEntry| e@),
        }
    }
}

/// The views of a sequence of blocks.
pub open spec fn block_views(blocks: Seq<AnnotationBlock>) -> Seq<AnnotationBlockView> {
    blocks.map_values(|b: AnnotationBlock| b@)
}

/// The declared type of a field, as far as flag generation reads it.
#[derive(Debug, PartialEq, Eq)]
pub enum Type {
    /// A type named by a path, such as `bool` or `std::option::Option<String>`.
    Path(TypePath),
    /// Any other type: a reference, a tuple, a function type and so on.
    Other,
}

/// A type named by a path.
#[derive(Debug, PartialEq, Eq)]
pub struct TypePath {
    /// The path is written with a qualified self type, as in
    /// `<T as Trait>::Name`.
    pub qself: bool,
    /// The segments of the path, in order.
    pub segments: Vec<PathSegment>,
    /// The whole type as it was written.
    pub tokens: String,
}

/// One segment of a path: a name and what is written after it.
#[derive(Debug, PartialEq, Eq)]
pub struct PathSegment {
    pub ident: String,
    pub arguments: PathArguments,
}

/// What is written after the name of a path segment.
#[derive(Debug, PartialEq, Eq)]
pub enum PathArguments {
    /// Nothing.
    Bare,
    /// Arguments in angle brackets, as in `Option<String>`.
    AngleBracketed(Vec<GenericArgument>),
    /// Arguments in round brackets, as in `Fn(u8) -> bool`.
    Parenthesized,
}

/// One argument in angle brackets.
#[derive(Debug, PartialEq, Eq)]
pub enum GenericArgument {
    /// A type.
    Type(Type),
    /// Anything else: a lifetime, a constant, a binding.
    Other,
}

pub enum TypeView {
    Path(TypePathView),
    Other,
}

pub struct TypePathView {
    pub qself: bool,
    pub segments: Seq<PathSegmentView>,
    pub tokens: Seq<char>,
}

pub struct PathSegmentView {
    pub ident: Seq<char>,
    pub arguments: PathArgumentsView,
}

pub enum PathArgumentsView {
    Bare,
    AngleBracketed(Seq<GenericArgumentView>),
    Parenthesized,
}

pub enum GenericArgumentView {
    Type(TypeView),
    Other,
}

impl View for Type {
    type V = TypeView;

    open spec fn view(&self) -> TypeView
        decreases self,
    {
        match self {
            Type::Path(path) => TypeView::Path(path@),
            Type::Other => TypeView::Other,
        }
    }
}

impl View for TypePath {
    type V = TypePathView;

    open spec fn view(&self) -> TypePathView
        decreases self,
    {
        TypePathView {
            qself: self.qself,
            segments: Seq::new(
                self.segments@.len(),
                |i: int|
                    if 0 <= i < self.segments.len() {
                        self.segments[i]@
                    } else {
                        arbitrary()
                    },
            ),
            tokens: self.tokens@,
        }
    }
}

impl View for PathSegment {
    type V = PathSegmentView;

    open spec fn view(&self) -> PathSegmentView
        decreases self,
    {
        PathSegmentView { ident: self.ident@, arguments: self.arguments@ }
    }
}

impl View for PathArguments {
    type V = PathArgumentsView;

    open spec fn view(&self) -> PathArgumentsView
        decreases self,
    {
        match self {
            PathArguments::Bare => PathArgumentsView::Bare,
            PathArguments::Parenthesized => PathArgumentsView::Parenthesized,
            PathArguments::AngleBracketed(arguments) => PathArgumentsView::AngleBracketed(
                Seq::new(
                    arguments@.len(),
                    |i: int|
                        if 0 <= i < arguments.len() {
                            arguments[i]@
                        } else {
                            arbitrary()
                        },
                ),
            ),
        }
    }
}

impl View for GenericArgument {
    type V = GenericArgumentView;

    open spec fn view(&self) -> GenericArgumentView
        decreases self,
    {
        match self {
            GenericArgument::Type(ty) => GenericArgumentView::Type(ty@),
            GenericArgument::Other => GenericArgumentView::Other,
        }
    }
}

/// One field of a struct.
#[derive(Debug, PartialEq, Eq)]
pub struct FieldSchema {
    /// The field's name.
    pub name: String,
    /// The field's declared type.
    pub ty: Type,
    /// The lines of the field's documentation, in order.
    pub docs: Vec<String>,
    /// The annotation blocks attached to the field, in order.
    pub blocks: Vec<AnnotationBlock>,
}

pub struct FieldSchemaView {
    pub name: Seq<char>,
    pub ty: TypeView,
    pub docs: Seq<Seq<char>>,
    pub blocks: Seq<AnnotationBlockView>,
}

impl View for FieldSchema {
    type V = FieldSchemaView;

    open spec fn view(&self) -> FieldSchemaView {
        FieldSchemaView {
            name: self.name@,
            ty: self.ty@,
            docs: texts(self.docs@),
            blocks: block_views(self.blocks@),
        }
    }
}

/// A struct with named fields.
#[derive(Debug, PartialEq, Eq)]
pub struct StructSchema {
    /// The annotation blocks attached to the struct, in order.
    pub blocks: Vec<AnnotationBlock>,
    /// The fields in the order declared.
    pub fields: Vec<FieldSchema>,
}

pub struct StructSchemaView {
    pub blocks: Seq<AnnotationBlockView>,
    pub fields: Seq<FieldSchemaView>,
}

impl View for StructSchema {
    type V = StructSchemaView;

    open spec fn view(&self) -> StructSchemaView {
        StructSchemaView {
            blocks: block_views(self.blocks@),
            fields: self.fields@.map_values(|field: FieldSchema| field@),
        }
    }
}

/// The item that flags are to be generated from.
#[derive(Debug, PartialEq, Eq)]
pub enum Item {
    /// A struct with named fields.
    Record(StructSchema),
    /// Anything else: a tuple struct, a unit struct, an enum, a union.
    Other,
}

pub enum ItemView {
    Record(StructSchemaView),
    Other,
}

impl View for Item {
    type V = ItemView;

    open spec fn view(&self) -> ItemView {
        match self {
            Item::Record(schema) => ItemView::Record(schema@),
            Item::Other => ItemView::Other,
        }
    }
}

} // verus!
