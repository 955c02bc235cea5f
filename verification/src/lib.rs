//! A verified model of a view generator for record types.
//!
//! Given a record definition whose declaration and fields carry *view*
//! annotations, the generator resolves, for every declared view name, the set
//! of member fields together with their borrow modes, and emits three
//! artifacts per view: the view type itself, a narrowing (reborrow) operation,
//! and a constructor template. The record definition arrives from an opaque
//! front end as plain data; the rendering of the artifacts into source text is
//! the back end's concern and lives outside this library.
//!
//! A generation pass runs the three components in order — annotation parsing,
//! view resolution, type emission — and aborts with a single structured
//! diagnostic on the first failure; partial output is never produced.

pub mod ast;
pub mod emit;
pub mod parse;
pub mod resolve;
pub mod scopes;
pub mod text;

use vstd::prelude::*;

use crate::ast::{FieldDef, RecordDef, RecordShape, ViewsError};
use crate::emit::{
    construct_view_type, construct_view_type_ctor, construct_view_type_impl, ctor_suffix,
    elide_generics_bounds, entries_eq, exclusive_scope_name, generics_elided, gps_eq,
    inner_scope_name, opt_chars_eq, rebinds_match, shared_scope_name, CtorTemplate, NarrowingOp,
    ViewTypeDef,
};
use crate::resolve::{
    attrs_wf_for, check_field_annotations, conflicted, declared_views, entries_resolve,
    entry_matches, field_syntax_witness, fields_wf, guard_named_struct, has_conflict,
    record_syntax_witness, view_type_fields, view_type_names_from_attrs,
};
use crate::text::views_of;

verus! {

/// The fields of the record, when it is a named-field struct.
pub open spec fn record_fields(r: RecordDef) -> Seq<FieldDef> {
    match r.shape {
        RecordShape::NamedStruct { fields } => fields@,
        _ => Seq::empty(),
    }
}

/// Every recognized annotation of the record parses: the `view_as` payloads
/// on the record and the `ref_in` / `mut_in` payloads on its fields.
pub open spec fn record_wf(r: RecordDef) -> bool {
    attrs_wf_for(r.attrs@, crate::ast::AttrKey::ViewAs) && fields_wf(record_fields(r))
}

/// Some field is annotated under both modes for some declared view.
pub open spec fn record_conflict(r: RecordDef) -> bool {
    exists|j: int|
        0 <= j < declared_views(r).len() && has_conflict(
            record_fields(r),
            #[trigger] declared_views(r)[j],
        )
}

/// The three artifacts generated for one declared view.
pub struct ViewArtifacts {
    pub type_def: ViewTypeDef,
    pub narrowing: NarrowingOp,
    pub ctor: CtorTemplate,
}

/// `a` holds exactly the artifacts of view `vn` for record `r`: the view type
/// carries the resolved member fields with the record's visibility, generic
/// signature and constraint clause; the narrowing operation and the
/// constructor template rebind those same fields.
pub open spec fn artifacts_match(a: ViewArtifacts, vn: Seq<char>, r: RecordDef) -> bool {
    &&& a.type_def.name@ == vn
    &&& a.type_def.vis@ == r.vis@
    &&& a.type_def.shared_scope@ == shared_scope_name()
    &&& a.type_def.exclusive_scope@ == exclusive_scope_name()
    &&& generics_elided(a.type_def.generics@, r.generics@)
    &&& opt_chars_eq(a.type_def.where_clause, r.where_clause)
    &&& entries_resolve(a.type_def.fields@, record_fields(r), vn)
    &&& a.type_def.has_marker
    &&& a.narrowing.view_name@ == vn
    &&& gps_eq(a.narrowing.generics@, r.generics@)
    &&& generics_elided(a.narrowing.generics_stripped@, r.generics@)
    &&& opt_chars_eq(a.narrowing.where_clause, r.where_clause)
    &&& a.narrowing.shared_scope@ == shared_scope_name()
    &&& a.narrowing.exclusive_scope@ == exclusive_scope_name()
    &&& a.narrowing.inner_scope@ == inner_scope_name()
    &&& rebinds_match(a.narrowing.rebinds@, a.type_def.fields@)
    &&& a.ctor.macro_name@ == vn + ctor_suffix()
    &&& a.ctor.view_name@ == vn
    &&& rebinds_match(a.ctor.bindings@, a.type_def.fields@)
}

/// One generation pass: resolve every declared view of the record and emit
/// its three artifacts, in first-seen declaration order.
///
/// Fails with [`ViewsError::UnsupportedShape`] exactly when the record is not
/// a named-field struct, with [`ViewsError::AnnotationSyntax`] exactly when a
/// recognized annotation payload is malformed, and with
/// [`ViewsError::FieldConflict`] exactly when a field is annotated under both
/// modes for a declared view; otherwise every declared view yields exactly
/// the artifacts of its resolved field set.
pub fn generate(input: &RecordDef) -> (r: Result<Vec<ViewArtifacts>, ViewsError>)
    ensures
        match r {
            Ok(arts) => {
                &&& input.shape is NamedStruct
                &&& record_wf(*input)
                &&& !record_conflict(*input)
                &&& arts@.len() == declared_views(*input).len()
                &&& forall|j: int|
                    0 <= j < arts@.len() ==> artifacts_match(
                        #[trigger] arts@[j],
                        declared_views(*input)[j],
                        *input,
                    )
            },
            Err(e) => match e {
                ViewsError::UnsupportedShape { span } => !(input.shape is NamedStruct) && span
                    == input.span,
                ViewsError::AnnotationSyntax { span, offset } => input.shape is NamedStruct
                    && !record_wf(*input) && (record_syntax_witness(input.attrs@, span, offset as int)
                    || field_syntax_witness(record_fields(*input), span, offset as int)),
                ViewsError::FieldConflict { span, field, view } => {
                    &&& input.shape is NamedStruct
                    &&& record_wf(*input)
                    &&& record_conflict(*input)
                    &&& declared_views(*input).contains(view@)
                    &&& exists|t: int|
                        0 <= t < record_fields(*input).len() && conflicted(
                            #[trigger] record_fields(*input)[t],
                            view@,
                        ) && field@ == record_fields(*input)[t].name@
                            && crate::resolve::membership_span_witness(
                            record_fields(*input)[t],
                            view@,
                            crate::ast::Mode::Exclusive,
                            span,
                        )
                },
            },
        },
{
    let fields = match guard_named_struct(input) {
        Ok(fields) => fields,
        Err(e) => {
            return Err(e);
        },
    };
    let names = match view_type_names_from_attrs(&input.attrs) {
        Ok(names) => names,
        Err(e) => {
            return Err(e);
        },
    };
    if let Err(e) = check_field_annotations(fields) {
        return Err(e);
    }
    let mut arts: Vec<ViewArtifacts> = Vec::new();
    let mut i: usize = 0;
    while i < names.len()
        invariant
            i <= names.len(),
            fields@ == record_fields(*input),
            fields_wf(fields@),
            record_wf(*input),
            input.shape is NamedStruct,
            views_of(names@) == declared_views(*input),
            arts@.len() == i,
            forall|j: int|
                0 <= j < i ==> artifacts_match(
                    #[trigger] arts@[j],
                    declared_views(*input)[j],
                    *input,
                ),
            forall|j: int| 0 <= j < i ==> !has_conflict(fields@, declared_views(*input)[j]),
        decreases names.len() - i,
    {
        proof {
            assert(views_of(names@)[i as int] == names@[i as int]@);
        }
        let view_fields = match view_type_fields(&names[i], fields) {
            Ok(view_fields) => view_fields,
            Err(e) => {
                proof {
                    if e is FieldConflict {
                        assert(record_conflict(*input)) by {
                            assert(has_conflict(
                                record_fields(*input),
                                declared_views(*input)[i as int],
                            ));
                        }
                        assert(declared_views(*input).contains(names@[i as int]@));
                    }
                }
                return Err(e);
            },
        };
        let gens_stripped = elide_generics_bounds(&input.generics);
        let type_def = construct_view_type(
            &names[i],
            &view_fields,
            &input.vis,
            &input.generics,
            &input.where_clause,
        );
        let narrowing = construct_view_type_impl(
            &names[i],
            &view_fields,
            &input.generics,
            &gens_stripped,
            &input.where_clause,
        );
        let ctor = construct_view_type_ctor(&names[i], &view_fields);
        proof {
            assert forall|k: int|
                0 <= k < type_def.fields@.len() implies entry_matches(
                #[trigger] type_def.fields@[k],
                record_fields(*input)[crate::resolve::member_indices(
                    record_fields(*input),
                    names@[i as int]@,
                )[k]],
                names@[i as int]@,
            ) by {
                crate::resolve::lemma_member_indices_props(
                    record_fields(*input),
                    names@[i as int]@,
                );
            }
            assert(rebinds_match(narrowing.rebinds@, type_def.fields@));
            assert(rebinds_match(ctor.bindings@, type_def.fields@));
        }
        arts.push(ViewArtifacts { type_def, narrowing, ctor });
        i += 1;
    }
    Ok(arts)
}

} // verus!
