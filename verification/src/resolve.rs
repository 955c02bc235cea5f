//! View resolution.
//!
//! The record-level `view_as` annotations declare the view names; each field's
//! `ref_in` / `mut_in` annotations make it a shared-mode or exclusive-mode
//! member of the views they list. Resolution computes, for every declared
//! view, its member fields in record order. Views are emitted in first-seen
//! declaration order and fields in record order, so the output is
//! deterministic. A field annotated both shared and exclusive for the same
//! view is rejected with [`ViewsError::FieldConflict`].

use vstd::prelude::*;

use crate::ast::{Annotation, AttrKey, FieldDef, Mode, RecordDef, RecordShape, Span, ViewsError};
use crate::parse::{parse_ident_tuple, payload_fail_at, payload_names, payload_wf};
use crate::text::{chars_eq, copy_chars, views_of};

verus! {

/// The annotation key that marks a membership with the given mode.
pub open spec fn mode_key(m: Mode) -> AttrKey {
    match m {
        Mode::Shared => AttrKey::RefIn,
        Mode::Exclusive => AttrKey::MutIn,
    }
}

/// Every annotation under the given key carries a well-formed payload.
pub open spec fn attrs_wf_for(attrs: Seq<Annotation>, key: AttrKey) -> bool {
    forall|i: int|
        0 <= i < attrs.len() ==> ((#[trigger] attrs[i]).key == key ==> payload_wf(
            attrs[i].payload@,
        ))
}

/// The membership annotations of one field are well formed.
pub open spec fn field_attrs_wf(f: FieldDef) -> bool {
    attrs_wf_for(f.attrs@, AttrKey::RefIn) && attrs_wf_for(f.attrs@, AttrKey::MutIn)
}

/// The membership annotations of every field are well formed.
pub open spec fn fields_wf(fields: Seq<FieldDef>) -> bool {
    forall|i: int| 0 <= i < fields.len() ==> field_attrs_wf(#[trigger] fields[i])
}

/// The view names the record declares, in declaration order, one block per
/// `view_as` annotation (duplicates included).
pub open spec fn declared_names(attrs: Seq<Annotation>) -> Seq<Seq<char>>
    decreases attrs.len(),
{
    if attrs.len() == 0 {
        Seq::empty()
    } else {
        let rest = declared_names(attrs.drop_last());
        if attrs.last().key == AttrKey::ViewAs {
            rest + payload_names(attrs.last().payload@)
        } else {
            rest
        }
    }
}

/// First-seen deduplication: keeps the first occurrence of each name.
pub open spec fn dedup_first(names: Seq<Seq<char>>) -> Seq<Seq<char>>
    decreases names.len(),
{
    if names.len() == 0 {
        Seq::empty()
    } else {
        let d = dedup_first(names.drop_last());
        if d.contains(names.last()) {
            d
        } else {
            d.push(names.last())
        }
    }
}

/// The deduplicated view names a record declares, in first-seen order.
pub open spec fn declared_views(r: RecordDef) -> Seq<Seq<char>> {
    dedup_first(declared_names(r.attrs@))
}

/// Field `f` carries a membership annotation for view `vn` with mode `m`.
pub open spec fn field_has(f: FieldDef, vn: Seq<char>, m: Mode) -> bool {
    exists|i: int|
        0 <= i < f.attrs@.len() && (#[trigger] f.attrs@[i]).key == mode_key(m) && payload_names(
            f.attrs@[i].payload@,
        ).contains(vn)
}

/// Field `f` is a member of view `vn` under some mode.
pub open spec fn is_member(f: FieldDef, vn: Seq<char>) -> bool {
    field_has(f, vn, Mode::Shared) || field_has(f, vn, Mode::Exclusive)
}

/// Field `f` is annotated for view `vn` under both modes.
pub open spec fn conflicted(f: FieldDef, vn: Seq<char>) -> bool {
    field_has(f, vn, Mode::Shared) && field_has(f, vn, Mode::Exclusive)
}

/// The mode a conflict-free member field resolves to.
pub open spec fn mode_of(f: FieldDef, vn: Seq<char>) -> Mode {
    if field_has(f, vn, Mode::Exclusive) {
        Mode::Exclusive
    } else {
        Mode::Shared
    }
}

/// Some field is annotated for view `vn` under both modes.
pub open spec fn has_conflict(fields: Seq<FieldDef>, vn: Seq<char>) -> bool {
    exists|i: int| 0 <= i < fields.len() && conflicted(#[trigger] fields[i], vn)
}

/// The positions, in record order, of the fields that are members of `vn`.
pub open spec fn member_indices(fields: Seq<FieldDef>, vn: Seq<char>) -> Seq<int>
    decreases fields.len(),
{
    if fields.len() == 0 {
        Seq::empty()
    } else {
        let prev = member_indices(fields.drop_last(), vn);
        if is_member(fields.last(), vn) {
            prev.push(fields.len() - 1)
        } else {
            prev
        }
    }
}

/// One resolved member of a view: the field's name, visibility and type are
/// echoed verbatim from the record; only the access mode is the view's own.
pub struct ViewFieldEntry {
    pub name: Vec<char>,
    pub vis: Vec<char>,
    pub mode: Mode,
    pub ty: Vec<char>,
}

/// `e` is the resolved entry of field `f` for view `vn`.
pub open spec fn entry_matches(e: ViewFieldEntry, f: FieldDef, vn: Seq<char>) -> bool {
    &&& e.name@ == f.name@
    &&& e.vis@ == f.vis@
    &&& e.ty@ == f.ty@
    &&& e.mode == mode_of(f, vn)
}

/// `es` resolves view `vn` against `fields`: one entry per member field, in
/// record order.
pub open spec fn entries_resolve(es: Seq<ViewFieldEntry>, fields: Seq<FieldDef>, vn: Seq<char>) -> bool {
    let idxs = member_indices(fields, vn);
    &&& es.len() == idxs.len()
    &&& forall|k: int|
        0 <= k < idxs.len() ==> entry_matches(#[trigger] es[k], fields[idxs[k]], vn)
}

/// Some recognized membership annotation on some field is malformed: the
/// diagnostic sits at that annotation's `span`, and `offset` is the payload
/// position it is rejected at.
pub open spec fn field_syntax_witness(fields: Seq<FieldDef>, span: Span, offset: int) -> bool {
    exists|t: int, u: int|
        0 <= t < fields.len() && 0 <= u < fields[t].attrs@.len()
            && ((#[trigger] fields[t].attrs@[u]).key == AttrKey::RefIn
            || fields[t].attrs@[u].key == AttrKey::MutIn)
            && !payload_wf(fields[t].attrs@[u].payload@)
            && span == fields[t].attrs@[u].span
            && offset == payload_fail_at(fields[t].attrs@[u].payload@)
}

/// Some `view_as` annotation is malformed: the diagnostic sits at that
/// annotation's `span`, and `offset` is the payload position it is rejected
/// at.
pub open spec fn record_syntax_witness(attrs: Seq<Annotation>, span: Span, offset: int) -> bool {
    exists|t: int|
        0 <= t < attrs.len() && (#[trigger] attrs[t]).key == AttrKey::ViewAs && !payload_wf(
            attrs[t].payload@,
        ) && span == attrs[t].span && offset == payload_fail_at(attrs[t].payload@)
}

/// Field `f` has a membership annotation for view `vn` with mode `m` whose
/// position is `span`.
pub open spec fn membership_span_witness(f: FieldDef, vn: Seq<char>, m: Mode, span: Span) -> bool {
    exists|u: int|
        0 <= u < f.attrs@.len() && (#[trigger] f.attrs@[u]).key == mode_key(m) && payload_names(
            f.attrs@[u].payload@,
        ).contains(vn) && span == f.attrs@[u].span
}

/// Whether a list of names already holds `x`.
pub fn names_contains(v: &Vec<Vec<char>>, x: &Vec<char>) -> (r: bool)
    ensures
        r == views_of(v@).contains(x@),
{
    let mut i: usize = 0;
    while i < v.len()
        invariant
            i <= v.len(),
            forall|j: int| 0 <= j < i ==> v@[j]@ != x@,
        decreases v.len() - i,
    {
        if chars_eq(&v[i], x) {
            proof {
                assert(views_of(v@)[i as int] == x@);
            }
            return true;
        }
        i += 1;
    }
    proof {
        assert forall|j: int| 0 <= j < views_of(v@).len() implies views_of(v@)[j] != x@ by {
            assert(views_of(v@)[j] == v@[j]@);
        }
    }
    false
}

/// The fields of a named-field struct; every other shape is unsupported.
pub fn guard_named_struct(record: &RecordDef) -> (r: Result<&Vec<FieldDef>, ViewsError>)
    ensures
        match r {
            Ok(fields) => record.shape matches RecordShape::NamedStruct { fields: fs } && fields@
                == fs@,
            Err(e) => !(record.shape is NamedStruct) && (e matches ViewsError::UnsupportedShape {
                span,
            } && span == record.span),
        },
{
    if let RecordShape::NamedStruct { fields } = &record.shape {
        Ok(fields)
    } else {
        Err(ViewsError::UnsupportedShape { span: record.span })
    }
}

/// The view names the record declares, deduplicated in first-seen order.
///
/// Fails exactly when some `view_as` payload is malformed.
pub fn view_type_names_from_attrs(attrs: &Vec<Annotation>) -> (r: Result<
    Vec<Vec<char>>,
    ViewsError,
>)
    ensures
        r is Ok <==> attrs_wf_for(attrs@, AttrKey::ViewAs),
        r matches Ok(v) ==> views_of(v@) == dedup_first(declared_names(attrs@)),
        r matches Err(e) ==> (e matches ViewsError::AnnotationSyntax { span, offset }
            && record_syntax_witness(attrs@, span, offset as int)),
{
    let mut acc: Vec<Vec<char>> = Vec::new();
    let mut i: usize = 0;
    proof {
        assert(attrs@.subrange(0, 0) =~= Seq::<Annotation>::empty());
        assert(views_of(acc@) =~= Seq::<Seq<char>>::empty());
    }
    while i < attrs.len()
        invariant
            i <= attrs.len(),
            views_of(acc@) == dedup_first(declared_names(attrs@.subrange(0, i as int))),
            attrs_wf_for(attrs@.subrange(0, i as int), AttrKey::ViewAs),
        decreases attrs.len() - i,
    {
        let ghost pre = attrs@.subrange(0, i as int);
        let ghost pre1 = attrs@.subrange(0, i as int + 1);
        proof {
            assert(pre1.drop_last() =~= pre);
            assert(pre1.last() == attrs@[i as int]);
        }
        if attrs[i].key == AttrKey::ViewAs {
            match parse_ident_tuple(&attrs[i].payload) {
                Ok(list) => {
                    let ghost decl = declared_names(pre);
                    let ghost block = payload_names(attrs@[i as int].payload@);
                    assert(declared_names(pre1) == decl + block);
                    let mut j: usize = 0;
                    proof {
                        assert(decl + block.subrange(0, 0) =~= decl);
                    }
                    while j < list.len()
                        invariant
                            j <= list.len(),
                            views_of(list@) == block,
                            views_of(acc@) == dedup_first(decl + block.subrange(0, j as int)),
                        decreases list.len() - j,
                    {
                        let ghost part = decl + block.subrange(0, j as int);
                        let ghost part1 = decl + block.subrange(0, j as int + 1);
                        proof {
                            assert(part1.drop_last() =~= part);
                            assert(part1.last() == block[j as int]);
                            assert(block[j as int] == list@[j as int]@);
                        }
                        if !names_contains(&acc, &list[j]) {
                            let name = copy_chars(&list[j]);
                            acc.push(name);
                            proof {
                                assert(views_of(acc@) =~= dedup_first(part).push(
                                    block[j as int],
                                ));
                            }
                        }
                        j += 1;
                    }
                    proof {
                        assert(decl + block.subrange(0, block.len() as int) =~= decl + block);
                    }
                },
                Err(pe) => {
                    return Err(
                        ViewsError::AnnotationSyntax { span: attrs[i].span, offset: pe.offset },
                    );
                },
            }
        } else {
            assert(declared_names(pre1) == declared_names(pre));
        }
        i += 1;
    }
    proof {
        assert(attrs@.subrange(0, attrs@.len() as int) =~= attrs@);
    }
    Ok(acc)
}

/// Checks every field's membership annotations for payload syntax.
pub fn check_field_annotations(fields: &Vec<FieldDef>) -> (r: Result<(), ViewsError>)
    ensures
        r is Ok <==> fields_wf(fields@),
        r matches Err(e) ==> (e matches ViewsError::AnnotationSyntax { span, offset }
            && field_syntax_witness(fields@, span, offset as int)),
{
    let mut i: usize = 0;
    while i < fields.len()
        invariant
            i <= fields.len(),
            forall|t: int| 0 <= t < i ==> field_attrs_wf(#[trigger] fields@[t]),
        decreases fields.len() - i,
    {
        let attrs = &fields[i].attrs;
        let mut j: usize = 0;
        while j < attrs.len()
            invariant
                j <= attrs.len(),
                attrs@ == fields@[i as int].attrs@,
                0 <= i < fields@.len(),
                forall|u: int|
                    0 <= u < j ==> (((#[trigger] attrs@[u]).key == AttrKey::RefIn || attrs@[u].key
                        == AttrKey::MutIn) ==> payload_wf(attrs@[u].payload@)),
            decreases attrs.len() - j,
        {
            if attrs[j].key == AttrKey::RefIn || attrs[j].key == AttrKey::MutIn {
                if let Err(pe) = parse_ident_tuple(&attrs[j].payload) {
                    return Err(
                        ViewsError::AnnotationSyntax { span: attrs[j].span, offset: pe.offset },
                    );
                }
            }
            j += 1;
        }
        i += 1;
    }
    Ok(())
}

/// Looks for a membership annotation of `f` naming view `vn` with mode `m`;
/// returns the annotation's position when one exists.
fn find_membership(f: &FieldDef, m: Mode, vn: &Vec<char>) -> (r: Option<Span>)
    requires
        field_attrs_wf(*f),
    ensures
        r is Some <==> field_has(*f, vn@, m),
        r matches Some(sp) ==> membership_span_witness(*f, vn@, m, sp),
{
    let key = match m {
        Mode::Shared => AttrKey::RefIn,
        Mode::Exclusive => AttrKey::MutIn,
    };
    assert(key == mode_key(m));
    let attrs = &f.attrs;
    let mut j: usize = 0;
    while j < attrs.len()
        invariant
            j <= attrs.len(),
            attrs@ == f.attrs@,
            key == mode_key(m),
            field_attrs_wf(*f),
            forall|u: int|
                0 <= u < j ==> !((#[trigger] attrs@[u]).key == mode_key(m) && payload_names(
                    attrs@[u].payload@,
                ).contains(vn@)),
        decreases attrs.len() - j,
    {
        if attrs[j].key == key {
            match parse_ident_tuple(&attrs[j].payload) {
                Ok(list) => {
                    if names_contains(&list, vn) {
                        return Some(attrs[j].span);
                    }
                },
                Err(_) => {
                    proof {
                        assert(false);
                    }
                    return None;
                },
            }
        }
        j += 1;
    }
    None
}

/// The member fields of one view, in record order.
///
/// Fails with [`ViewsError::AnnotationSyntax`] exactly when some membership
/// payload is malformed, and with [`ViewsError::FieldConflict`] exactly when
/// some field is annotated for this view under both modes.
pub fn view_type_fields(view_name: &Vec<char>, fields: &Vec<FieldDef>) -> (r: Result<
    Vec<ViewFieldEntry>,
    ViewsError,
>)
    ensures
        r is Ok <==> fields_wf(fields@) && !has_conflict(fields@, view_name@),
        r matches Ok(v) ==> entries_resolve(v@, fields@, view_name@),
        r matches Err(e) ==> match e {
            ViewsError::AnnotationSyntax { span, offset } => !fields_wf(fields@)
                && field_syntax_witness(fields@, span, offset as int),
            ViewsError::FieldConflict { span, field, view } => fields_wf(fields@) && view@
                == view_name@ && exists|t: int|
                0 <= t < fields@.len() && conflicted(#[trigger] fields@[t], view_name@) && field@
                    == fields@[t].name@ && membership_span_witness(
                    fields@[t],
                    view_name@,
                    Mode::Exclusive,
                    span,
                ),
            ViewsError::UnsupportedShape { .. } => false,
        },
{
    if let Err(e) = check_field_annotations(fields) {
        return Err(e);
    }
    let mut entries: Vec<ViewFieldEntry> = Vec::new();
    let mut i: usize = 0;
    proof {
        assert(fields@.subrange(0, 0) =~= Seq::<FieldDef>::empty());
    }
    while i < fields.len()
        invariant
            i <= fields.len(),
            fields_wf(fields@),
            entries_resolve(entries@, fields@.subrange(0, i as int), view_name@),
            forall|t: int| 0 <= t < i ==> !conflicted(#[trigger] fields@[t], view_name@),
        decreases fields.len() - i,
    {
        let ghost pre = fields@.subrange(0, i as int);
        let ghost pre1 = fields@.subrange(0, i as int + 1);
        proof {
            assert(pre1.drop_last() =~= pre);
            assert(pre1.last() == fields@[i as int]);
        }
        let sh = find_membership(&fields[i], Mode::Shared, view_name);
        let ex = find_membership(&fields[i], Mode::Exclusive, view_name);
        match (sh, ex) {
            (Some(_), Some(sp)) => {
                return Err(
                    ViewsError::FieldConflict {
                        span: sp,
                        field: copy_chars(&fields[i].name),
                        view: copy_chars(view_name),
                    },
                );
            },
            (Some(_), None) => {
                entries.push(
                    ViewFieldEntry {
                        name: copy_chars(&fields[i].name),
                        vis: copy_chars(&fields[i].vis),
                        mode: Mode::Shared,
                        ty: copy_chars(&fields[i].ty),
                    },
                );
            },
            (None, Some(_)) => {
                entries.push(
                    ViewFieldEntry {
                        name: copy_chars(&fields[i].name),
                        vis: copy_chars(&fields[i].vis),
                        mode: Mode::Exclusive,
                        ty: copy_chars(&fields[i].ty),
                    },
                );
            },
            (None, None) => {},
        }
        proof {
            lemma_member_indices_props(pre, view_name@);
            let idxs0 = member_indices(pre, view_name@);
            let idxs1 = member_indices(pre1, view_name@);
            assert(forall|t: int| 0 <= t < pre.len() ==> #[trigger] pre1[t] == pre[t]);
            if is_member(fields@[i as int], view_name@) {
                assert(idxs1 == idxs0.push(pre1.len() - 1));
                assert forall|k: int| 0 <= k < idxs1.len() implies entry_matches(
                    #[trigger] entries@[k],
                    pre1[idxs1[k]],
                    view_name@,
                ) by {
                    if k < idxs0.len() {
                        assert(idxs1[k] == idxs0[k]);
                        assert(pre1[idxs0[k]] == pre[idxs0[k]]);
                    } else {
                        assert(idxs1[k] == pre1.len() - 1);
                    }
                }
            } else {
                assert(idxs1 == idxs0);
                assert forall|k: int| 0 <= k < idxs1.len() implies entry_matches(
                    #[trigger] entries@[k],
                    pre1[idxs1[k]],
                    view_name@,
                ) by {
                    assert(pre1[idxs0[k]] == pre[idxs0[k]]);
                }
            }
        }
        i += 1;
    }
    proof {
        assert(fields@.subrange(0, fields@.len() as int) =~= fields@);
    }
    Ok(entries)
}

/// Positions named by `member_indices` are in range, strictly increasing, and
/// name exactly the member fields.
pub proof fn lemma_member_indices_props(fields: Seq<FieldDef>, vn: Seq<char>)
    ensures
        forall|k: int|
            0 <= k < member_indices(fields, vn).len() ==> 0 <= #[trigger] member_indices(
                fields,
                vn,
            )[k] < fields.len() && is_member(fields[member_indices(fields, vn)[k]], vn),
        forall|k1: int, k2: int|
            #![trigger member_indices(fields, vn)[k1], member_indices(fields, vn)[k2]]
            0 <= k1 < k2 < member_indices(fields, vn).len() ==> member_indices(fields, vn)[k1]
                < member_indices(fields, vn)[k2],
        forall|j: int|
            0 <= j < fields.len() ==> (is_member(#[trigger] fields[j], vn) <==> member_indices(
                fields,
                vn,
            ).contains(j)),
    decreases fields.len(),
{
    if fields.len() == 0 {
    } else {
        let prev = fields.drop_last();
        lemma_member_indices_props(prev, vn);
        let idxs0 = member_indices(prev, vn);
        let idxs = member_indices(fields, vn);
        assert(forall|t: int| 0 <= t < prev.len() ==> prev[t] == #[trigger] fields[t]);
        assert forall|j: int|
            0 <= j < fields.len() && is_member(#[trigger] fields[j], vn) implies idxs.contains(
            j,
        ) by {
            if j < fields.len() - 1 {
                assert(idxs0.contains(j));
                let k = choose|k: int| 0 <= k < idxs0.len() && idxs0[k] == j;
                assert(idxs[k] == j);
            } else {
                assert(idxs[idxs.len() - 1] == j);
            }
        }
        assert forall|j: int|
            0 <= j < fields.len() && member_indices(fields, vn).contains(j) implies is_member(
            fields[j],
            vn,
        ) by {
            let k = choose|k: int| 0 <= k < idxs.len() && idxs[k] == j;
            if k < idxs0.len() {
                assert(idxs0.contains(j));
            }
        }
    }
}

/// Entry `k` of `es` copies some member field of view `vn`.
pub open spec fn entry_from_member(
    es: Seq<ViewFieldEntry>,
    fields: Seq<FieldDef>,
    vn: Seq<char>,
    k: int,
) -> bool {
    exists|j: int|
        0 <= j < fields.len() && is_member(#[trigger] fields[j], vn) && entry_matches(
            es[k],
            fields[j],
            vn,
        )
}

/// Member field `j` of view `vn` appears among the entries `es`.
pub open spec fn member_represented(
    es: Seq<ViewFieldEntry>,
    fields: Seq<FieldDef>,
    vn: Seq<char>,
    j: int,
) -> bool {
    exists|k: int| 0 <= k < es.len() && entry_matches(#[trigger] es[k], fields[j], vn)
}

/// Law: a resolved view contains exactly the fields whose memberships name
/// that view — no extra entry, no missing field — and each entry's mode is
/// the declared one.
pub proof fn lemma_view_fields_exact(
    es: Seq<ViewFieldEntry>,
    fields: Seq<FieldDef>,
    vn: Seq<char>,
)
    requires
        entries_resolve(es, fields, vn),
    ensures
        forall|k: int| 0 <= k < es.len() ==> #[trigger] entry_from_member(es, fields, vn, k),
        forall|j: int|
            0 <= j < fields.len() && is_member(#[trigger] fields[j], vn) ==> member_represented(
                es,
                fields,
                vn,
                j,
            ),
{
    lemma_member_indices_props(fields, vn);
    let idxs = member_indices(fields, vn);
    assert forall|k: int| 0 <= k < es.len() implies #[trigger] entry_from_member(
        es,
        fields,
        vn,
        k,
    ) by {
        let j = idxs[k];
        assert(0 <= j < fields.len() && is_member(fields[j], vn) && entry_matches(
            es[k],
            fields[j],
            vn,
        ));
    }
    assert forall|j: int|
        0 <= j < fields.len() && is_member(#[trigger] fields[j], vn) implies member_represented(
        es,
        fields,
        vn,
        j,
    ) by {
        assert(idxs.contains(j));
        let k = choose|k: int| 0 <= k < idxs.len() && idxs[k] == j;
        assert(entry_matches(es[k], fields[j], vn));
    }
}

/// Law: for a conflict-free member field the resolved mode is literally the
/// declared one.
pub proof fn lemma_mode_literal(f: FieldDef, vn: Seq<char>)
    requires
        !conflicted(f, vn),
    ensures
        field_has(f, vn, Mode::Shared) ==> mode_of(f, vn) == Mode::Shared,
        field_has(f, vn, Mode::Exclusive) ==> mode_of(f, vn) == Mode::Exclusive,
{
}

/// Law: a view no field is a member of resolves to the empty view; the
/// declaration is still honored with an (empty) artifact.
pub proof fn lemma_empty_view(fields: Seq<FieldDef>, vn: Seq<char>)
    requires
        forall|j: int| 0 <= j < fields.len() ==> !is_member(#[trigger] fields[j], vn),
    ensures
        member_indices(fields, vn).len() == 0,
    decreases fields.len(),
{
    if fields.len() == 0 {
    } else {
        let prev = fields.drop_last();
        assert(forall|t: int| 0 <= t < prev.len() ==> prev[t] == #[trigger] fields[t]);
        lemma_empty_view(prev, vn);
    }
}

/// First-seen deduplication keeps exactly the declared names, each once.
pub proof fn lemma_dedup_first_props(names: Seq<Seq<char>>)
    ensures
        forall|n: Seq<char>| #[trigger]
            dedup_first(names).contains(n) <==> names.contains(n),
        forall|k1: int, k2: int|
            #![trigger dedup_first(names)[k1], dedup_first(names)[k2]]
            0 <= k1 < k2 < dedup_first(names).len() ==> dedup_first(names)[k1] != dedup_first(
                names,
            )[k2],
    decreases names.len(),
{
    if names.len() == 0 {
    } else {
        let prev = names.drop_last();
        lemma_dedup_first_props(prev);
        let d0 = dedup_first(prev);
        let d = dedup_first(names);
        assert(forall|t: int| 0 <= t < prev.len() ==> prev[t] == #[trigger] names[t]);
        assert forall|n: Seq<char>| #[trigger] names.contains(n) implies d.contains(n) by {
            let t = choose|t: int| 0 <= t < names.len() && names[t] == n;
            if t < names.len() - 1 {
                assert(prev.contains(n));
                assert(d0.contains(n));
                let k = choose|k: int| 0 <= k < d0.len() && d0[k] == n;
                assert(d[k] == n);
            } else {
                if d0.contains(n) {
                    let k = choose|k: int| 0 <= k < d0.len() && d0[k] == n;
                    assert(d[k] == n);
                } else {
                    assert(d[d.len() - 1] == n);
                }
            }
        }
        assert forall|n: Seq<char>| #[trigger] d.contains(n) implies names.contains(n) by {
            let k = choose|k: int| 0 <= k < d.len() && d[k] == n;
            if k < d0.len() {
                assert(d0.contains(n));
                assert(prev.contains(n));
                let t = choose|t: int| 0 <= t < prev.len() && prev[t] == n;
                assert(names[t] == n);
            } else {
                assert(n == names.last());
            }
        }
        assert forall|k1: int, k2: int|
            0 <= k1 < k2 < d.len() implies #[trigger] d[k1] != #[trigger] d[k2] by {
            if k2 < d0.len() {
            } else if !d0.contains(names.last()) && k2 == d0.len() {
                assert(d[k1] == d0[k1]);
                assert(d0.contains(d0[k1]));
            }
        }
    }
}

} // verus!
