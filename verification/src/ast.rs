//! The record-definition model the opaque front end hands to the generator.
//!
//! Names, visibilities, declared types, generic bounds and constraint clauses
//! are carried as verbatim source fragments (`Vec<char>`): the generator never
//! inspects them, it only copies them into the emitted artifacts.

use vstd::prelude::*;

verus! {

/// Source position of a declaration or annotation, as the front end reports
/// it: diagnostics are anchored to these positions.
#[derive(Clone, Copy, Debug, PartialEq, Eq, Structural)]
pub struct Span {
    pub lo: usize,
    pub hi: usize,
}

/// The annotation keys the generator recognizes. `view_as` declares view
/// names on the record; `ref_in` and `mut_in` mark a field as a shared-mode
/// or exclusive-mode member of the listed views. Every other key is ignored.
#[derive(Clone, Copy, Debug, PartialEq, Eq, Structural)]
pub enum AttrKey {
    ViewAs,
    RefIn,
    MutIn,
    Other,
}

/// One raw annotation: a recognized (or foreign) key, the verbatim payload
/// text between the key and the end of the annotation, and its position.
pub struct Annotation {
    pub key: AttrKey,
    pub payload: Vec<char>,
    pub span: Span,
}

/// Borrow mode of a field inside a view.
#[derive(Clone, Copy, Debug, PartialEq, Eq, Structural)]
pub enum Mode {
    Shared,
    Exclusive,
}

#[derive(Clone, Copy, Debug, PartialEq, Eq, Structural)]
pub enum GenericParamKind {
    Lifetime,
    Type,
    Const,
}

/// A generic parameter of the record: its name and the verbatim text of its
/// declaration-site bounds (empty when it has none).
pub struct GenericParam {
    pub kind: GenericParamKind,
    pub name: Vec<char>,
    pub bounds: Vec<char>,
}

/// A named field of the record, with the annotations attached to it.
pub struct FieldDef {
    pub name: Vec<char>,
    pub vis: Vec<char>,
    pub ty: Vec<char>,
    pub attrs: Vec<Annotation>,
}

/// The shape of the annotated declaration. Only named-field product types
/// are supported; every other shape is rejected before resolution.
pub enum RecordShape {
    NamedStruct { fields: Vec<FieldDef> },
    TupleStruct,
    UnitStruct,
    Enumeration,
    Union,
}

/// The record definition: the one input of a generation pass.
pub struct RecordDef {
    pub name: Vec<char>,
    pub vis: Vec<char>,
    pub generics: Vec<GenericParam>,
    pub where_clause: Option<Vec<char>>,
    pub attrs: Vec<Annotation>,
    pub shape: RecordShape,
    pub span: Span,
}

/// A structured diagnostic: a failed pass returns exactly one of these, and
/// the back end renders it at the recorded source position.
#[derive(Debug)]
pub enum ViewsError {
    /// An annotation payload does not match the identifier-list grammar.
    /// `span` is the offending annotation's position, `offset` the failing
    /// character position within its payload.
    AnnotationSyntax { span: Span, offset: usize },
    /// The annotated declaration is not a named-field struct.
    UnsupportedShape { span: Span },
    /// A field is annotated both shared and exclusive for the same view.
    /// `span` is the position of one of the conflicting annotations.
    FieldConflict { span: Span, field: Vec<char>, view: Vec<char> },
}

} // verus!
