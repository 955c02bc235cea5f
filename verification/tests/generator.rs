use viu::ast::{
    Annotation, AttrKey, FieldDef, GenericParam, GenericParamKind, Mode, RecordDef, RecordShape,
    Span, ViewsError,
};
use viu::emit::expand_ctor;
use viu::generate;
use viu::scopes::{instantiate, reborrow};

fn cs(s: &str) -> Vec<char> {
    s.chars().collect()
}

fn ann(key: AttrKey, payload: &str, lo: usize) -> Annotation {
    Annotation { key, payload: cs(payload), span: Span { lo, hi: lo + payload.len() } }
}

fn field(name: &str, ty: &str, attrs: Vec<Annotation>) -> FieldDef {
    FieldDef { name: cs(name), vis: cs(""), ty: cs(ty), attrs }
}

fn record(attrs: Vec<Annotation>, fields: Vec<FieldDef>) -> RecordDef {
    RecordDef {
        name: cs("Point"),
        vis: cs("pub"),
        generics: Vec::new(),
        where_clause: None,
        attrs,
        shape: RecordShape::NamedStruct { fields },
        span: Span { lo: 0, hi: 0 },
    }
}

#[test]
fn point_scenario_each_view_has_only_its_fields() {
    let input = record(
        vec![ann(AttrKey::ViewAs, "(ReadView, WriteView)", 1)],
        vec![
            field("x", "i32", vec![ann(AttrKey::RefIn, "(ReadView)", 2)]),
            field("y", "i32", vec![ann(AttrKey::MutIn, "(WriteView)", 3)]),
        ],
    );
    let arts = generate(&input).unwrap();
    assert_eq!(arts.len(), 2);

    let read = &arts[0];
    assert_eq!(read.type_def.name, cs("ReadView"));
    assert_eq!(read.type_def.fields.len(), 1);
    assert_eq!(read.type_def.fields[0].name, cs("x"));
    assert_eq!(read.type_def.fields[0].ty, cs("i32"));
    assert!(read.type_def.fields[0].mode == Mode::Shared);

    let write = &arts[1];
    assert_eq!(write.type_def.name, cs("WriteView"));
    assert_eq!(write.type_def.fields.len(), 1);
    assert_eq!(write.type_def.fields[0].name, cs("y"));
    assert_eq!(write.type_def.fields[0].ty, cs("i32"));
    assert!(write.type_def.fields[0].mode == Mode::Exclusive);
}

#[test]
fn dual_mode_annotation_for_same_view_is_a_conflict() {
    let input = record(
        vec![ann(AttrKey::ViewAs, "(V)", 1)],
        vec![field(
            "x",
            "i32",
            vec![ann(AttrKey::RefIn, "(V)", 2), ann(AttrKey::MutIn, "(V)", 3)],
        )],
    );
    match generate(&input) {
        Err(ViewsError::FieldConflict { span, field, view }) => {
            assert_eq!(field, cs("x"));
            assert_eq!(view, cs("V"));
            assert_eq!(span.lo, 3);
        },
        _ => panic!("expected a field conflict"),
    }
}

#[test]
fn empty_view_is_generated_and_instantiable() {
    let input = record(vec![ann(AttrKey::ViewAs, "(Empty)", 1)], vec![field("x", "i32", vec![])]);
    let arts = generate(&input).unwrap();
    assert_eq!(arts.len(), 1);
    assert_eq!(arts[0].type_def.name, cs("Empty"));
    assert_eq!(arts[0].type_def.fields.len(), 0);
    assert!(arts[0].type_def.has_marker);
    assert_eq!(arts[0].ctor.macro_name, cs("Empty_ctor"));

    let expansion = expand_ctor(&arts[0].ctor, &cs("owner"));
    let instance = instantiate(&expansion, 1, 2);
    assert_eq!(instance.borrows.len(), 0);
    assert_eq!(instance.shared_scope, 1);
    assert_eq!(instance.exclusive_scope, 2);
}

#[test]
fn non_struct_shapes_are_unsupported() {
    let mut input = record(vec![ann(AttrKey::ViewAs, "(V)", 1)], vec![]);
    input.shape = RecordShape::Enumeration;
    assert!(matches!(generate(&input), Err(ViewsError::UnsupportedShape { .. })));
    input.shape = RecordShape::TupleStruct;
    assert!(matches!(generate(&input), Err(ViewsError::UnsupportedShape { .. })));
}

#[test]
fn views_come_in_first_seen_order_deduplicated() {
    let input = record(
        vec![ann(AttrKey::ViewAs, "(A, B)", 1), ann(AttrKey::ViewAs, "(B, C, A)", 2)],
        vec![],
    );
    let arts = generate(&input).unwrap();
    assert_eq!(arts.len(), 3);
    assert_eq!(arts[0].type_def.name, cs("A"));
    assert_eq!(arts[1].type_def.name, cs("B"));
    assert_eq!(arts[2].type_def.name, cs("C"));
}

#[test]
fn one_field_may_join_several_views_under_different_modes() {
    let input = record(
        vec![ann(AttrKey::ViewAs, "(A, B)", 1)],
        vec![field("x", "u8", vec![ann(AttrKey::RefIn, "(A)", 2), ann(AttrKey::MutIn, "(B)", 3)])],
    );
    let arts = generate(&input).unwrap();
    assert_eq!(arts[0].type_def.fields.len(), 1);
    assert!(arts[0].type_def.fields[0].mode == Mode::Shared);
    assert_eq!(arts[1].type_def.fields.len(), 1);
    assert!(arts[1].type_def.fields[0].mode == Mode::Exclusive);
}

#[test]
fn repeated_same_mode_annotations_are_harmless() {
    let input = record(
        vec![ann(AttrKey::ViewAs, "(V)", 1)],
        vec![field("x", "u8", vec![ann(AttrKey::RefIn, "(V)", 2), ann(AttrKey::RefIn, "(V)", 3)])],
    );
    let arts = generate(&input).unwrap();
    assert_eq!(arts[0].type_def.fields.len(), 1);
    assert!(arts[0].type_def.fields[0].mode == Mode::Shared);
}

#[test]
fn membership_in_undeclared_view_is_ignored() {
    let input = record(vec![], vec![field("x", "u8", vec![ann(AttrKey::RefIn, "(Ghosty)", 2)])]);
    let arts = generate(&input).unwrap();
    assert_eq!(arts.len(), 0);
}

#[test]
fn fields_keep_record_order_inside_a_view() {
    let input = record(
        vec![ann(AttrKey::ViewAs, "(V)", 1)],
        vec![
            field("a", "u8", vec![ann(AttrKey::RefIn, "(V)", 2)]),
            field("b", "u8", vec![]),
            field("c", "u8", vec![ann(AttrKey::MutIn, "(V)", 3)]),
        ],
    );
    let arts = generate(&input).unwrap();
    let fields = &arts[0].type_def.fields;
    assert_eq!(fields.len(), 2);
    assert_eq!(fields[0].name, cs("a"));
    assert!(fields[0].mode == Mode::Shared);
    assert_eq!(fields[1].name, cs("c"));
    assert!(fields[1].mode == Mode::Exclusive);
}

#[test]
fn malformed_record_annotation_reports_its_span() {
    let bad = ann(AttrKey::ViewAs, "(A B)", 7);
    let input = record(vec![bad], vec![]);
    match generate(&input) {
        Err(ViewsError::AnnotationSyntax { span, .. }) => {
            assert_eq!(span.lo, 7);
        },
        _ => panic!("expected an annotation syntax error"),
    }
}

#[test]
fn malformed_field_annotation_reports_its_span() {
    let input = record(
        vec![ann(AttrKey::ViewAs, "(V)", 1)],
        vec![field("x", "u8", vec![ann(AttrKey::MutIn, "(V,", 9)])],
    );
    match generate(&input) {
        Err(ViewsError::AnnotationSyntax { span, .. }) => {
            assert_eq!(span.lo, 9);
        },
        _ => panic!("expected an annotation syntax error"),
    }
}

#[test]
fn unrecognized_annotations_are_ignored() {
    let input = record(
        vec![ann(AttrKey::ViewAs, "(V)", 1), ann(AttrKey::Other, "not ( a list", 2)],
        vec![field("x", "u8", vec![ann(AttrKey::Other, "= \"doc\"", 3)])],
    );
    let arts = generate(&input).unwrap();
    assert_eq!(arts.len(), 1);
    assert_eq!(arts[0].type_def.fields.len(), 0);
}

#[test]
fn generic_bounds_are_elided_on_the_type_but_kept_on_the_impl() {
    let mut input = record(vec![ann(AttrKey::ViewAs, "(V)", 1)], vec![]);
    input.generics = vec![
        GenericParam { kind: GenericParamKind::Lifetime, name: cs("'a"), bounds: cs("'b") },
        GenericParam { kind: GenericParamKind::Type, name: cs("T"), bounds: cs("Clone") },
        GenericParam { kind: GenericParamKind::Const, name: cs("N"), bounds: cs("usize") },
    ];
    input.where_clause = Some(cs("where T: Clone"));
    let arts = generate(&input).unwrap();

    let td = &arts[0].type_def;
    assert_eq!(td.generics.len(), 3);
    assert_eq!(td.generics[0].name, cs("'a"));
    assert_eq!(td.generics[0].bounds, cs(""));
    assert_eq!(td.generics[1].name, cs("T"));
    assert_eq!(td.generics[1].bounds, cs(""));
    assert_eq!(td.generics[2].name, cs("N"));
    assert_eq!(td.generics[2].bounds, cs("usize"));
    assert_eq!(td.where_clause.as_ref().unwrap(), &cs("where T: Clone"));
    assert_eq!(td.shared_scope, cs("'__ref__"));
    assert_eq!(td.exclusive_scope, cs("'__mut__"));

    let op = &arts[0].narrowing;
    assert_eq!(op.generics[1].bounds, cs("Clone"));
    assert_eq!(op.generics_stripped[1].bounds, cs(""));
    assert_eq!(op.inner_scope, cs("'__brw__"));
}

#[test]
fn narrowing_chain_keeps_the_shared_scope() {
    let input = record(
        vec![ann(AttrKey::ViewAs, "(V)", 1)],
        vec![
            field("x", "u8", vec![ann(AttrKey::RefIn, "(V)", 2)]),
            field("y", "u8", vec![ann(AttrKey::MutIn, "(V)", 3)]),
        ],
    );
    let arts = generate(&input).unwrap();
    let expansion = expand_ctor(&arts[0].ctor, &cs("owner"));
    let v0 = instantiate(&expansion, 10, 20);
    let v1 = reborrow(&v0, 21);
    let v2 = reborrow(&v1, 22);

    assert_eq!(v2.shared_scope, 10);
    assert_eq!(v2.exclusive_scope, 22);
    assert_eq!(v2.borrows[0].field, cs("x"));
    assert_eq!(v2.borrows[0].scope, 10);
    assert_eq!(v2.borrows[1].field, cs("y"));
    assert_eq!(v2.borrows[1].scope, 22);
}

#[test]
fn ctor_expansions_differ_only_in_the_owner_expression() {
    let input = record(
        vec![ann(AttrKey::ViewAs, "(V)", 1)],
        vec![
            field("x", "u8", vec![ann(AttrKey::RefIn, "(V)", 2)]),
            field("y", "u8", vec![ann(AttrKey::MutIn, "(V)", 3)]),
        ],
    );
    let arts = generate(&input).unwrap();
    assert_eq!(arts[0].ctor.macro_name, cs("V_ctor"));

    let e1 = expand_ctor(&arts[0].ctor, &cs("self.data"));
    let e2 = expand_ctor(&arts[0].ctor, &cs("other"));
    assert_eq!(e1.view_name, e2.view_name);
    assert_eq!(e1.inits.len(), e2.inits.len());
    for (a, b) in e1.inits.iter().zip(e2.inits.iter()) {
        assert_eq!(a.field, b.field);
        assert!(a.mode == b.mode);
        assert_eq!(a.owner, cs("self.data"));
        assert_eq!(b.owner, cs("other"));
    }
}
