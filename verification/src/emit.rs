//! The type emitter.
//!
//! For every resolved view the emitter produces three artifacts, as structured
//! fragments for the opaque back end to render: the view type definition, the
//! narrowing (reborrow) operation, and the constructor template. Shared-mode
//! fields are bound to the shared borrow scope, exclusive-mode fields to the
//! exclusive borrow scope; the type also carries an inert marker member tying
//! both scope parameters to the type even when one of them binds no field.

use vstd::prelude::*;

use crate::ast::{GenericParam, GenericParamKind, Mode};
use crate::resolve::ViewFieldEntry;
use crate::text::{copy_chars, copy_opt_chars};

verus! {

/// Name of the shared borrow-scope parameter: `'__ref__`.
pub open spec fn shared_scope_name() -> Seq<char> {
    seq!['\'', '_', '_', 'r', 'e', 'f', '_', '_']
}

/// Name of the exclusive borrow-scope parameter: `'__mut__`.
pub open spec fn exclusive_scope_name() -> Seq<char> {
    seq!['\'', '_', '_', 'm', 'u', 't', '_', '_']
}

/// Name of the inner scope a narrowing operation introduces: `'__brw__`.
pub open spec fn inner_scope_name() -> Seq<char> {
    seq!['\'', '_', '_', 'b', 'r', 'w', '_', '_']
}

/// Suffix appended to the view name to name its constructor template.
pub open spec fn ctor_suffix() -> Seq<char> {
    seq!['_', 'c', 't', 'o', 'r']
}

fn make_shared_scope_name() -> (r: Vec<char>)
    ensures
        r@ == shared_scope_name(),
{
    let mut r: Vec<char> = Vec::new();
    r.push('\'');
    r.push('_');
    r.push('_');
    r.push('r');
    r.push('e');
    r.push('f');
    r.push('_');
    r.push('_');
    proof {
        assert(r@ =~= shared_scope_name());
    }
    r
}

fn make_exclusive_scope_name() -> (r: Vec<char>)
    ensures
        r@ == exclusive_scope_name(),
{
    let mut r: Vec<char> = Vec::new();
    r.push('\'');
    r.push('_');
    r.push('_');
    r.push('m');
    r.push('u');
    r.push('t');
    r.push('_');
    r.push('_');
    proof {
        assert(r@ =~= exclusive_scope_name());
    }
    r
}

fn make_inner_scope_name() -> (r: Vec<char>)
    ensures
        r@ == inner_scope_name(),
{
    let mut r: Vec<char> = Vec::new();
    r.push('\'');
    r.push('_');
    r.push('_');
    r.push('b');
    r.push('r');
    r.push('w');
    r.push('_');
    r.push('_');
    proof {
        assert(r@ =~= inner_scope_name());
    }
    r
}

/// Two generic parameters agree in kind, name and bounds text.
pub open spec fn gp_eq(a: GenericParam, b: GenericParam) -> bool {
    a.kind == b.kind && a.name@ == b.name@ && a.bounds@ == b.bounds@
}

/// Two generic parameter lists agree element-wise.
pub open spec fn gps_eq(a: Seq<GenericParam>, b: Seq<GenericParam>) -> bool {
    a.len() == b.len() && forall|k: int| 0 <= k < a.len() ==> gp_eq(#[trigger] a[k], b[k])
}

/// `out` is `src` with declaration-site bounds stripped from lifetime and
/// type parameters; const parameters are kept verbatim.
pub open spec fn generics_elided(out: Seq<GenericParam>, src: Seq<GenericParam>) -> bool {
    &&& out.len() == src.len()
    &&& forall|k: int|
        0 <= k < src.len() ==> {
            &&& (#[trigger] out[k]).kind == src[k].kind
            &&& out[k].name@ == src[k].name@
            &&& (if src[k].kind == GenericParamKind::Const {
                out[k].bounds@ == src[k].bounds@
            } else {
                out[k].bounds@ == Seq::<char>::empty()
            })
        }
}

/// Two optional verbatim fragments agree.
pub open spec fn opt_chars_eq(a: Option<Vec<char>>, b: Option<Vec<char>>) -> bool {
    match (a, b) {
        (Some(x), Some(y)) => x@ == y@,
        (None, None) => true,
        _ => false,
    }
}

/// Two resolved entries agree field-wise.
pub open spec fn entry_eq(a: ViewFieldEntry, b: ViewFieldEntry) -> bool {
    a.name@ == b.name@ && a.vis@ == b.vis@ && a.ty@ == b.ty@ && a.mode == b.mode
}

/// Two entry lists agree element-wise.
pub open spec fn entries_eq(a: Seq<ViewFieldEntry>, b: Seq<ViewFieldEntry>) -> bool {
    a.len() == b.len() && forall|k: int| 0 <= k < a.len() ==> entry_eq(#[trigger] a[k], b[k])
}

/// Copies of the record's generic parameters with their declaration-site
/// bounds stripped; the bounds are restated only in the constraint clause.
pub fn elide_generics_bounds(gens: &Vec<GenericParam>) -> (r: Vec<GenericParam>)
    ensures
        generics_elided(r@, gens@),
{
    let mut r: Vec<GenericParam> = Vec::new();
    let mut i: usize = 0;
    while i < gens.len()
        invariant
            i <= gens.len(),
            r@.len() == i,
            generics_elided(r@, gens@.subrange(0, i as int)),
        decreases gens.len() - i,
    {
        let param = match gens[i].kind {
            GenericParamKind::Const => GenericParam {
                kind: GenericParamKind::Const,
                name: copy_chars(&gens[i].name),
                bounds: copy_chars(&gens[i].bounds),
            },
            GenericParamKind::Type => GenericParam {
                kind: GenericParamKind::Type,
                name: copy_chars(&gens[i].name),
                bounds: Vec::new(),
            },
            GenericParamKind::Lifetime => GenericParam {
                kind: GenericParamKind::Lifetime,
                name: copy_chars(&gens[i].name),
                bounds: Vec::new(),
            },
        };
        r.push(param);
        i += 1;
    }
    proof {
        assert(gens@.subrange(0, gens@.len() as int) =~= gens@);
    }
    r
}

fn copy_generics(gens: &Vec<GenericParam>) -> (r: Vec<GenericParam>)
    ensures
        gps_eq(r@, gens@),
{
    let mut r: Vec<GenericParam> = Vec::new();
    let mut i: usize = 0;
    while i < gens.len()
        invariant
            i <= gens.len(),
            r@.len() == i,
            gps_eq(r@, gens@.subrange(0, i as int)),
        decreases gens.len() - i,
    {
        r.push(
            GenericParam {
                kind: gens[i].kind,
                name: copy_chars(&gens[i].name),
                bounds: copy_chars(&gens[i].bounds),
            },
        );
        i += 1;
    }
    proof {
        assert(gens@.subrange(0, gens@.len() as int) =~= gens@);
    }
    r
}

fn copy_entries(es: &Vec<ViewFieldEntry>) -> (r: Vec<ViewFieldEntry>)
    ensures
        entries_eq(r@, es@),
{
    let mut r: Vec<ViewFieldEntry> = Vec::new();
    let mut i: usize = 0;
    while i < es.len()
        invariant
            i <= es.len(),
            r@.len() == i,
            entries_eq(r@, es@.subrange(0, i as int)),
        decreases es.len() - i,
    {
        r.push(
            ViewFieldEntry {
                name: copy_chars(&es[i].name),
                vis: copy_chars(&es[i].vis),
                mode: es[i].mode,
                ty: copy_chars(&es[i].ty),
            },
        );
        i += 1;
    }
    proof {
        assert(es@.subrange(0, es@.len() as int) =~= es@);
    }
    r
}

/// The view type definition: a record named after the view, parameterized by
/// the two borrow scopes and the original generic parameters (bounds elided),
/// one reference-typed member per resolved field, plus the inert marker.
pub struct ViewTypeDef {
    pub name: Vec<char>,
    pub vis: Vec<char>,
    pub shared_scope: Vec<char>,
    pub exclusive_scope: Vec<char>,
    pub generics: Vec<GenericParam>,
    pub where_clause: Option<Vec<char>>,
    pub fields: Vec<ViewFieldEntry>,
    /// The rendering appends an inert marker member that ties both scope
    /// parameters to the type even when a mode binds no field.
    pub has_marker: bool,
}

/// The emitted view type copies the view's name, the record's visibility,
/// constraint clause and (bound-stripped) generic parameters, and binds each
/// resolved field to the scope its mode selects.
pub fn construct_view_type(
    view_name: &Vec<char>,
    view_fields: &Vec<ViewFieldEntry>,
    vis: &Vec<char>,
    gens: &Vec<GenericParam>,
    where_clause: &Option<Vec<char>>,
) -> (td: ViewTypeDef)
    ensures
        td.name@ == view_name@,
        td.vis@ == vis@,
        td.shared_scope@ == shared_scope_name(),
        td.exclusive_scope@ == exclusive_scope_name(),
        generics_elided(td.generics@, gens@),
        opt_chars_eq(td.where_clause, *where_clause),
        entries_eq(td.fields@, view_fields@),
        td.has_marker,
{
    ViewTypeDef {
        name: copy_chars(view_name),
        vis: copy_chars(vis),
        shared_scope: make_shared_scope_name(),
        exclusive_scope: make_exclusive_scope_name(),
        generics: elide_generics_bounds(gens),
        where_clause: copy_opt_chars(where_clause),
        fields: copy_entries(view_fields),
        has_marker: true,
    }
}

/// One field rebinding of a narrowing operation or constructor: shared-mode
/// fields are re-shared at the fixed shared scope, exclusive-mode fields are
/// re-borrowed at the operation's scope.
pub struct Rebind {
    pub field: Vec<char>,
    pub mode: Mode,
}

/// The rebind list names the resolved fields in order with their modes.
pub open spec fn rebinds_match(rs: Seq<Rebind>, es: Seq<ViewFieldEntry>) -> bool {
    rs.len() == es.len() && forall|k: int|
        0 <= k < es.len() ==> (#[trigger] rs[k]).field@ == es[k].name@ && rs[k].mode == es[k].mode
}

fn rebinds_of(es: &Vec<ViewFieldEntry>) -> (r: Vec<Rebind>)
    ensures
        rebinds_match(r@, es@),
{
    let mut r: Vec<Rebind> = Vec::new();
    let mut i: usize = 0;
    while i < es.len()
        invariant
            i <= es.len(),
            r@.len() == i,
            forall|k: int|
                0 <= k < i ==> (#[trigger] r@[k]).field@ == es@[k].name@ && r@[k].mode
                    == es@[k].mode,
        decreases es.len() - i,
    {
        r.push(Rebind { field: copy_chars(&es[i].name), mode: es[i].mode });
        i += 1;
    }
    r
}

/// The narrowing operation: a method on the view type that consumes an
/// exclusively held reference to the view for an ephemeral inner scope and
/// rebuilds the view with the shared scope unchanged and the exclusive scope
/// replaced by the inner one.
pub struct NarrowingOp {
    pub view_name: Vec<char>,
    /// Generic parameters with their bounds, for the impl header.
    pub generics: Vec<GenericParam>,
    /// The same parameters, bounds stripped, for type-argument positions.
    pub generics_stripped: Vec<GenericParam>,
    pub where_clause: Option<Vec<char>>,
    pub shared_scope: Vec<char>,
    pub exclusive_scope: Vec<char>,
    pub inner_scope: Vec<char>,
    pub rebinds: Vec<Rebind>,
}

/// The emitted narrowing operation restates the record's generic signature
/// and rebinds every resolved field: shared fields at the unchanged shared
/// scope, exclusive fields at the fresh inner scope.
pub fn construct_view_type_impl(
    view_name: &Vec<char>,
    view_fields: &Vec<ViewFieldEntry>,
    gens: &Vec<GenericParam>,
    gens_stripped: &Vec<GenericParam>,
    where_clause: &Option<Vec<char>>,
) -> (op: NarrowingOp)
    ensures
        op.view_name@ == view_name@,
        gps_eq(op.generics@, gens@),
        gps_eq(op.generics_stripped@, gens_stripped@),
        opt_chars_eq(op.where_clause, *where_clause),
        op.shared_scope@ == shared_scope_name(),
        op.exclusive_scope@ == exclusive_scope_name(),
        op.inner_scope@ == inner_scope_name(),
        rebinds_match(op.rebinds@, view_fields@),
{
    NarrowingOp {
        view_name: copy_chars(view_name),
        generics: copy_generics(gens),
        generics_stripped: copy_generics(gens_stripped),
        where_clause: copy_opt_chars(where_clause),
        shared_scope: make_shared_scope_name(),
        exclusive_scope: make_exclusive_scope_name(),
        inner_scope: make_inner_scope_name(),
        rebinds: rebinds_of(view_fields),
    }
}

/// The constructor template: a named, exported expansion template with one
/// owner-expression placeholder. It is a template rather than a function so
/// that the borrow of each member field appears lexically at the call site,
/// keeping the per-field borrow scopes independent.
pub struct CtorTemplate {
    pub macro_name: Vec<char>,
    pub view_name: Vec<char>,
    pub bindings: Vec<Rebind>,
}

/// The emitted constructor template is named after the view and borrows each
/// resolved field off the owner placeholder with the field's mode.
pub fn construct_view_type_ctor(view_name: &Vec<char>, view_fields: &Vec<ViewFieldEntry>) -> (t:
    CtorTemplate)
    ensures
        t.macro_name@ == view_name@ + ctor_suffix(),
        t.view_name@ == view_name@,
        rebinds_match(t.bindings@, view_fields@),
{
    let mut macro_name = copy_chars(view_name);
    macro_name.push('_');
    macro_name.push('c');
    macro_name.push('t');
    macro_name.push('o');
    macro_name.push('r');
    proof {
        assert(macro_name@ =~= view_name@ + ctor_suffix());
    }
    CtorTemplate {
        macro_name,
        view_name: copy_chars(view_name),
        bindings: rebinds_of(view_fields),
    }
}

/// One field initializer of an expanded constructor: the named field is
/// borrowed off the substituted owner expression with the given mode.
pub struct FieldInit {
    pub field: Vec<char>,
    pub mode: Mode,
    pub owner: Vec<char>,
}

/// A constructor template expanded against one owner expression.
pub struct CtorExpansion {
    pub view_name: Vec<char>,
    pub inits: Vec<FieldInit>,
}

/// `e` is the expansion of template `t` against the owner expression `owner`.
pub open spec fn expansion_matches(e: CtorExpansion, t: CtorTemplate, owner: Seq<char>) -> bool {
    &&& e.view_name@ == t.view_name@
    &&& e.inits@.len() == t.bindings@.len()
    &&& forall|k: int|
        0 <= k < t.bindings@.len() ==> {
            &&& (#[trigger] e.inits@[k]).field@ == t.bindings@[k].field@
            &&& e.inits@[k].mode == t.bindings@[k].mode
            &&& e.inits@[k].owner@ == owner
        }
}

/// Expand a constructor template against an owner expression: every binding
/// becomes a field initializer borrowing off that expression.
pub fn expand_ctor(t: &CtorTemplate, owner: &Vec<char>) -> (e: CtorExpansion)
    ensures
        expansion_matches(e, *t, owner@),
{
    let mut inits: Vec<FieldInit> = Vec::new();
    let mut i: usize = 0;
    while i < t.bindings.len()
        invariant
            i <= t.bindings.len(),
            inits@.len() == i,
            forall|k: int|
                0 <= k < i ==> (#[trigger] inits@[k]).field@ == t.bindings@[k].field@
                    && inits@[k].mode == t.bindings@[k].mode && inits@[k].owner@ == owner@,
        decreases t.bindings.len() - i,
    {
        inits.push(
            FieldInit {
                field: copy_chars(&t.bindings[i].field),
                mode: t.bindings[i].mode,
                owner: copy_chars(owner),
            },
        );
        i += 1;
    }
    CtorExpansion { view_name: copy_chars(&t.view_name), inits }
}

/// Law: one constructor template expanded against two owner expressions gives
/// structurally identical artifacts, differing only in the substituted owner
/// expression.
pub proof fn lemma_ctor_expansion_structural(
    t: CtorTemplate,
    e1: CtorExpansion,
    e2: CtorExpansion,
    owner1: Seq<char>,
    owner2: Seq<char>,
)
    requires
        expansion_matches(e1, t, owner1),
        expansion_matches(e2, t, owner2),
    ensures
        e1.view_name@ == e2.view_name@,
        e1.inits@.len() == e2.inits@.len(),
        forall|k: int|
            0 <= k < e1.inits@.len() ==> {
                &&& (#[trigger] e1.inits@[k]).field@ == e2.inits@[k].field@
                &&& e1.inits@[k].mode == e2.inits@[k].mode
                &&& e1.inits@[k].owner@ == owner1
                &&& e2.inits@[k].owner@ == owner2
            },
{
}

} // verus!
