use type_guards::compiler::compile;
use type_guards::guardians::{emit, guard_declaration, Guardian, Guardians};
use type_guards::model::{
    Declaration, ExportNamed, ExportedDecl, LiteralValue, MalformedExport, Member, ModuleItem,
    PrimitiveKind, TypeExpression, Unsupported,
};

fn s(x: &str) -> String {
    x.to_string()
}

fn lit(x: &str) -> TypeExpression {
    TypeExpression::Literal(LiteralValue::Str(s(x)))
}

fn prim(k: PrimitiveKind) -> TypeExpression {
    TypeExpression::Primitive(k)
}

fn type_alias(name: &str, shape: TypeExpression) -> ModuleItem {
    ModuleItem::Named(ExportNamed {
        declaration: Some(ExportedDecl::TypeAlias(Declaration { name: s(name), shape })),
        specifiers: vec![],
    })
}

fn interface(name: &str, members: Vec<Member>) -> ModuleItem {
    ModuleItem::Named(ExportNamed {
        declaration: Some(ExportedDecl::Interface(Declaration {
            name: s(name),
            shape: TypeExpression::ObjectShape(members),
        })),
        specifiers: vec![],
    })
}

fn guards(items: Vec<ModuleItem>) -> Vec<Guardian> {
    Guardians::new().parse(&items).unwrap().0
}

#[test]
fn string_literal_union() {
    let t = TypeExpression::Union(vec![lit("a"), lit("b")]);
    assert_eq!(compile(&t, "it").unwrap(), r#"it === "a" || it === "b""#);
    let gs = guards(vec![type_alias("T", TypeExpression::Union(vec![lit("a"), lit("b")]))]);
    assert_eq!(gs.len(), 1);
    assert_eq!(gs[0].typename(), "T");
    assert_eq!(gs[0].check_code(), r#"it === "a" || it === "b""#);
}

#[test]
fn interface_with_two_properties() {
    let gs = guards(vec![interface(
        "I",
        vec![
            Member::Property(s("a"), prim(PrimitiveKind::Number)),
            Member::Property(s("b"), prim(PrimitiveKind::String)),
        ],
    )]);
    assert_eq!(
        gs[0].check_code(),
        r#"it && typeof it === "object" && (typeof it.a === "number") && (typeof it.b === "string")"#
    );
}

#[test]
fn string_array() {
    let t = TypeExpression::Array(Box::new(prim(PrimitiveKind::String)));
    assert_eq!(
        compile(&t, "it").unwrap(),
        r#"(Array.isArray(it) && it.every((v) => typeof v === "string"))"#
    );
}

#[test]
fn index_signature_of_numbers() {
    let t = TypeExpression::ObjectShape(vec![Member::IndexSignature(
        s("k"),
        prim(PrimitiveKind::Number),
    )]);
    assert_eq!(
        compile(&t, "it").unwrap(),
        r#"it && typeof it === "object" && (Object.values(it).every((v) => typeof v === "number"))"#
    );
}

#[test]
fn union_of_references_before_their_declarations() {
    let gs = guards(vec![
        type_alias(
            "T",
            TypeExpression::Union(vec![
                TypeExpression::Reference(s("A")),
                TypeExpression::Reference(s("B")),
            ]),
        ),
        type_alias("A", prim(PrimitiveKind::Number)),
        type_alias("B", prim(PrimitiveKind::String)),
    ]);
    assert_eq!(gs.len(), 3);
    assert_eq!(gs[0].check_code(), "isA(it) || isB(it)");
    assert_eq!(gs[1].typename(), "A");
    assert_eq!(gs[2].typename(), "B");
}

#[test]
fn tuple_alias_is_rejected() {
    let t = TypeExpression::Unsupported(Unsupported::TupleType);
    assert_eq!(compile(&t, "it"), Err(Unsupported::TupleType));
    let d = Declaration { name: s("T"), shape: TypeExpression::Unsupported(Unsupported::TupleType) };
    assert!(matches!(guard_declaration(&d), Err(Unsupported::TupleType)));
    let (gs, skipped) = Guardians::new()
        .parse(&vec![
            type_alias("T", TypeExpression::Unsupported(Unsupported::TupleType)),
            type_alias("U", prim(PrimitiveKind::Boolean)),
        ])
        .unwrap();
    assert_eq!(gs.len(), 1);
    assert_eq!(gs[0].typename(), "U");
    assert_eq!(skipped.len(), 1);
    assert_eq!(skipped[0].typename, "T");
    assert_eq!(skipped[0].construct, Unsupported::TupleType);
}

#[test]
fn compiling_twice_gives_the_same_text() {
    let d = Declaration {
        name: s("I"),
        shape: TypeExpression::ObjectShape(vec![
            Member::AnyProperty(s("x")),
            Member::Property(s("y"), TypeExpression::Array(Box::new(lit("z")))),
        ]),
    };
    let first = guard_declaration(&d).unwrap();
    let second = guard_declaration(&d).unwrap();
    assert_eq!(first.check_code(), second.check_code());
    assert_eq!(first.typename(), second.typename());
}

#[test]
fn primitive_kinds() {
    assert_eq!(compile(&prim(PrimitiveKind::Number), "x").unwrap(), r#"typeof x === "number""#);
    assert_eq!(compile(&prim(PrimitiveKind::String), "x").unwrap(), r#"typeof x === "string""#);
    assert_eq!(compile(&prim(PrimitiveKind::Boolean), "x").unwrap(), r#"typeof x === "boolean""#);
    assert_eq!(compile(&prim(PrimitiveKind::Object), "x").unwrap(), r#"typeof x === "object""#);
}

#[test]
fn boolean_literals() {
    let t = TypeExpression::Literal(LiteralValue::Bool(true));
    assert_eq!(compile(&t, "it").unwrap(), "it === true");
    let f = TypeExpression::Literal(LiteralValue::Bool(false));
    assert_eq!(compile(&f, "it.a").unwrap(), "it.a === false");
}

#[test]
fn single_member_union_is_the_member() {
    let t = TypeExpression::Union(vec![TypeExpression::Reference(s("A"))]);
    assert_eq!(compile(&t, "it").unwrap(), "isA(it)");
}

#[test]
fn empty_union_is_false() {
    let t = TypeExpression::Union(vec![]);
    assert_eq!(compile(&t, "it").unwrap(), "false");
}

#[test]
fn union_order_is_kept() {
    let ab = TypeExpression::Union(vec![lit("a"), lit("b")]);
    let ba = TypeExpression::Union(vec![lit("b"), lit("a")]);
    assert_eq!(compile(&ab, "it").unwrap(), r#"it === "a" || it === "b""#);
    assert_eq!(compile(&ba, "it").unwrap(), r#"it === "b" || it === "a""#);
}

#[test]
fn nested_arrays_bind_distinct_names() {
    let t = TypeExpression::Array(Box::new(TypeExpression::Array(Box::new(prim(
        PrimitiveKind::Number,
    )))));
    assert_eq!(
        compile(&t, "it").unwrap(),
        r#"(Array.isArray(it) && it.every((v) => (Array.isArray(v) && v.every((vv) => typeof vv === "number"))))"#
    );
}

#[test]
fn any_property_checks_presence() {
    let t = TypeExpression::ObjectShape(vec![Member::AnyProperty(s("a"))]);
    assert_eq!(compile(&t, "it").unwrap(), r#"it && typeof it === "object" && ("a" in it)"#);
}

#[test]
fn nested_object_checks_its_path() {
    let inner = TypeExpression::ObjectShape(vec![Member::Property(
        s("b"),
        TypeExpression::Union(vec![prim(PrimitiveKind::Number), lit("n")]),
    )]);
    let t = TypeExpression::ObjectShape(vec![Member::Property(s("a"), inner)]);
    assert_eq!(
        compile(&t, "it").unwrap(),
        r#"it && typeof it === "object" && (it.a && typeof it.a === "object" && (typeof it.a.b === "number" || it.a.b === "n"))"#
    );
}

#[test]
fn empty_interface_checks_only_the_object() {
    let t = TypeExpression::ObjectShape(vec![]);
    assert_eq!(compile(&t, "it").unwrap(), r#"it && typeof it === "object""#);
}

#[test]
fn first_unsupported_construct_is_reported() {
    let t = TypeExpression::ObjectShape(vec![
        Member::Property(s("a"), prim(PrimitiveKind::Number)),
        Member::Unsupported(Unsupported::MethodSignature),
        Member::Property(s("b"), TypeExpression::Unsupported(Unsupported::NeverType)),
    ]);
    assert_eq!(compile(&t, "it"), Err(Unsupported::MethodSignature));
    let u = TypeExpression::Union(vec![
        lit("a"),
        TypeExpression::Array(Box::new(TypeExpression::Unsupported(Unsupported::NullType))),
        TypeExpression::Unsupported(Unsupported::AnyType),
    ]);
    assert_eq!(compile(&u, "it"), Err(Unsupported::NullType));
}

#[test]
fn guard_function_text() {
    let g = Guardian::new("T", s("typeof it === \"number\""));
    assert_eq!(
        g.to_text(),
        "function isT(it: any): it is T {\n\treturn typeof it === \"number\";\n}\n"
    );
}

#[test]
fn guards_are_emitted_in_order_with_blank_lines() {
    let gs = vec![Guardian::new("A", s("x")), Guardian::new("B", s("y"))];
    assert_eq!(
        emit(&gs),
        "function isA(it: any): it is A {\n\treturn x;\n}\n\nfunction isB(it: any): it is B {\n\treturn y;\n}\n"
    );
    assert_eq!(emit(&vec![]), "");
}

#[test]
fn other_exports_are_passed_over() {
    let items = vec![
        ModuleItem::Named(ExportNamed {
            declaration: Some(ExportedDecl::Function(Some(s("f")))),
            specifiers: vec![],
        }),
        ModuleItem::Named(ExportNamed { declaration: None, specifiers: vec![s("x")] }),
        ModuleItem::Default,
        ModuleItem::All,
        type_alias("T", prim(PrimitiveKind::Number)),
    ];
    let (gs, skipped) = Guardians::new().parse(&items).unwrap();
    assert_eq!(gs.len(), 1);
    assert_eq!(gs[0].typename(), "T");
    assert!(skipped.is_empty());
}

#[test]
fn declaration_with_specifiers_is_malformed() {
    let items = vec![
        type_alias("T", prim(PrimitiveKind::Number)),
        ModuleItem::Named(ExportNamed {
            declaration: Some(ExportedDecl::Enum(s("E"))),
            specifiers: vec![s("x")],
        }),
    ];
    assert_eq!(Guardians::new().parse(&items).unwrap_err(), MalformedExport);
}
