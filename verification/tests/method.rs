use efi_ir::ast::{DeclNode, NodeKind, TypeKind, TypeNode};
use efi_ir::error::ExtractError;
use efi_ir::method::{
    collect_parameter_names, process_method_args, to_efi_argdir, to_efi_argopt, to_efi_method,
};
use efi_ir::types::{EfiArg, EfiArgDir, EfiMethod, EfiType};

fn record(name: &str) -> TypeNode {
    let mut t = TypeNode::new(TypeKind::Record, format!("struct {}", name));
    t.declaration = Some(DeclNode::new(NodeKind::StructDecl, Some(name.to_string())));
    t
}

fn alias(name: &str, canonical: TypeNode) -> TypeNode {
    let mut t = TypeNode::new(TypeKind::Typedef, name.to_string());
    t.declaration = Some(DeclNode::new(NodeKind::TypedefDecl, Some(name.to_string())));
    t.canonical = Some(Box::new(canonical));
    t
}

fn prototype(result: Option<TypeNode>, arguments: Option<Vec<TypeNode>>) -> TypeNode {
    let mut t = TypeNode::new(TypeKind::FunctionPrototype, "fn".to_string());
    t.result = result.map(Box::new);
    t.arguments = arguments;
    t
}

fn arg(name: &str, typ: EfiType, dir: EfiArgDir, optional: bool) -> EfiArg {
    EfiArg { name: name.to_string(), typ, dir, optional }
}

fn parm(name: Option<&str>) -> DeclNode {
    DeclNode::new(NodeKind::ParmDecl, name.map(|n| n.to_string()))
}

fn group(kind: NodeKind, name: Option<&str>, children: Vec<DeclNode>) -> DeclNode {
    let mut d = DeclNode::new(kind, name.map(|n| n.to_string()));
    d.children = children;
    d
}

#[test]
fn direction_markers_are_told_by_the_dealiased_declaration() {
    assert_eq!(to_efi_argdir(&record("efi_arg_in")), Some(EfiArgDir::In));
    assert_eq!(to_efi_argdir(&record("efi_arg_out")), Some(EfiArgDir::Out));
    assert_eq!(to_efi_argdir(&record("efi_arg_optional")), None);
    assert_eq!(to_efi_argdir(&record("efi_uintn")), None);
    assert_eq!(to_efi_argdir(&record("_efi_arg_in")), None);
    assert_eq!(to_efi_argdir(&alias("IN", record("efi_arg_in"))), Some(EfiArgDir::In));
    assert_eq!(to_efi_argdir(&alias("efi_arg_out", record("efi_uintn"))), None);
    assert_eq!(to_efi_argdir(&TypeNode::new(TypeKind::Record, "efi_arg_in".to_string())), None);
}

#[test]
fn optional_marker_is_told_by_the_dealiased_declaration() {
    assert!(to_efi_argopt(&record("efi_arg_optional")));
    assert!(to_efi_argopt(&alias("OPTIONAL", record("efi_arg_optional"))));
    assert!(!to_efi_argopt(&record("efi_arg_in")));
    assert!(!to_efi_argopt(&record("efi_arg_optional_")));
    assert!(!to_efi_argopt(&alias("efi_arg_optional", record("efi_bool"))));
    assert!(!to_efi_argopt(&TypeNode::new(TypeKind::Record, "efi_arg_optional".to_string())));
    let mut unnamed = TypeNode::new(TypeKind::Record, "efi_arg_optional".to_string());
    unnamed.declaration = Some(DeclNode::new(NodeKind::StructDecl, None));
    assert!(!to_efi_argopt(&unnamed));
}

#[test]
fn direction_is_sticky_until_set_again() {
    let t = prototype(
        Some(record("efi_status")),
        Some(vec![
            record("efi_arg_out"),
            record("efi_uint8"),
            record("efi_uint16"),
            record("efi_arg_in"),
            record("efi_uint32"),
        ]),
    );
    assert_eq!(
        to_efi_method(&t),
        Ok(EfiMethod {
            name: String::new(),
            typ: EfiType::Status,
            args: vec![
                arg("", EfiType::UInt8, EfiArgDir::Out, false),
                arg("", EfiType::UInt16, EfiArgDir::Out, false),
                arg("", EfiType::UInt32, EfiArgDir::In, false),
            ],
        })
    );
}

#[test]
fn direction_starts_as_in_for_every_method() {
    let first = prototype(
        Some(record("efi_status")),
        Some(vec![record("efi_arg_out"), record("efi_bool")]),
    );
    let second = prototype(Some(record("efi_status")), Some(vec![record("efi_bool")]));
    assert_eq!(to_efi_method(&first).unwrap().args[0].dir, EfiArgDir::Out);
    assert_eq!(to_efi_method(&second).unwrap().args[0].dir, EfiArgDir::In);
}

#[test]
fn optional_marker_marks_the_argument_before_it() {
    let without = prototype(
        Some(record("efi_status")),
        Some(vec![record("efi_uint8"), record("efi_uint16")]),
    );
    let with = prototype(
        Some(record("efi_status")),
        Some(vec![
            record("efi_uint8"),
            record("efi_arg_optional"),
            record("efi_uint16"),
            record("efi_arg_optional"),
            record("efi_arg_optional"),
        ]),
    );
    let plain = to_efi_method(&without).unwrap();
    let marked = to_efi_method(&with).unwrap();
    assert_eq!(plain.args.len(), 2);
    assert_eq!(marked.args.len(), 5 - 3);
    assert_eq!(
        marked.args,
        vec![
            arg("", EfiType::UInt8, EfiArgDir::In, true),
            arg("", EfiType::UInt16, EfiArgDir::In, true),
        ]
    );
    assert!(!plain.args[0].optional && !plain.args[1].optional);
}

#[test]
fn optional_marker_reaches_back_over_a_direction_marker_only() {
    let t = prototype(
        Some(record("efi_status")),
        Some(vec![
            record("efi_uint8"),
            record("efi_arg_out"),
            record("efi_arg_optional"),
            record("efi_uint16"),
            record("efi_uint32"),
            record("efi_arg_optional"),
        ]),
    );
    assert_eq!(
        to_efi_method(&t).unwrap().args,
        vec![
            arg("", EfiType::UInt8, EfiArgDir::In, true),
            arg("", EfiType::UInt16, EfiArgDir::Out, false),
            arg("", EfiType::UInt32, EfiArgDir::Out, true),
        ]
    );
}

#[test]
fn optional_marker_before_any_argument_is_dropped() {
    let t = prototype(
        Some(record("efi_status")),
        Some(vec![record("efi_arg_optional"), record("efi_uint8")]),
    );
    assert_eq!(
        to_efi_method(&t).unwrap().args,
        vec![arg("", EfiType::UInt8, EfiArgDir::In, false)]
    );
    let only = prototype(Some(record("efi_status")), Some(vec![record("efi_arg_optional")]));
    assert_eq!(to_efi_method(&only).unwrap().args, vec![]);
}

#[test]
fn method_without_parameters_has_no_arguments() {
    let t = prototype(Some(record("efi_bool")), Some(vec![]));
    assert_eq!(
        to_efi_method(&t),
        Ok(EfiMethod { name: String::new(), typ: EfiType::Bool, args: vec![] })
    );
}

#[test]
fn prototype_without_result_or_parameter_list_is_a_missing_node() {
    assert_eq!(to_efi_method(&prototype(None, Some(vec![]))), Err(ExtractError::MissingNode));
    assert_eq!(
        to_efi_method(&prototype(Some(record("efi_status")), None)),
        Err(ExtractError::MissingNode)
    );
    let scalar = TypeNode::new(TypeKind::Other, "int".to_string());
    assert_eq!(to_efi_method(&prototype(None, Some(vec![scalar]))), Err(ExtractError::MissingNode));
}

#[test]
fn the_first_failing_parameter_decides_before_the_result() {
    let scalar = || TypeNode::new(TypeKind::Other, "int".to_string());
    let dangling = || TypeNode::new(TypeKind::Pointer, "ptr".to_string());
    assert_eq!(
        to_efi_method(&prototype(Some(dangling()), Some(vec![record("efi_bool"), scalar()]))),
        Err(ExtractError::UnsupportedType)
    );
    assert_eq!(
        to_efi_method(&prototype(Some(scalar()), Some(vec![dangling(), scalar()]))),
        Err(ExtractError::MissingNode)
    );
    assert_eq!(
        to_efi_method(&prototype(Some(scalar()), Some(vec![record("efi_bool")]))),
        Err(ExtractError::UnsupportedType)
    );
    assert_eq!(
        to_efi_method(&prototype(Some(dangling()), Some(vec![]))),
        Err(ExtractError::MissingNode)
    );
}

#[test]
fn parameter_names_come_in_source_order() {
    let decl = group(
        NodeKind::TypedefDecl,
        Some("EFI_DO"),
        vec![
            group(NodeKind::Other, Some("ignored"), vec![parm(Some("a"))]),
            parm(None),
            group(NodeKind::ParmDecl, Some("b"), vec![parm(Some("c")), parm(Some("d"))]),
            parm(Some("e")),
        ],
    );
    let mut names = vec!["z".to_string()];
    collect_parameter_names(&decl, &mut names);
    assert_eq!(names, vec!["z", "a", "b", "c", "d", "e"]);
}

#[test]
fn names_are_given_to_the_arguments_in_order() {
    let decl = group(
        NodeKind::TypedefDecl,
        Some("EFI_DO"),
        vec![parm(None), parm(Some("first")), parm(None), parm(Some("second"))],
    );
    let mut args = vec![
        arg("", EfiType::UInt8, EfiArgDir::In, false),
        arg("", EfiType::UInt16, EfiArgDir::Out, true),
    ];
    assert_eq!(process_method_args(&decl, &mut args), Ok(()));
    assert_eq!(
        args,
        vec![
            arg("first", EfiType::UInt8, EfiArgDir::In, false),
            arg("second", EfiType::UInt16, EfiArgDir::Out, true),
        ]
    );
}

#[test]
fn arguments_past_the_names_keep_their_names() {
    let decl = group(NodeKind::TypedefDecl, None, vec![parm(Some("only"))]);
    let mut args = vec![
        arg("", EfiType::UInt8, EfiArgDir::In, false),
        arg("", EfiType::UInt16, EfiArgDir::In, false),
        arg("kept", EfiType::UInt32, EfiArgDir::In, false),
    ];
    assert_eq!(process_method_args(&decl, &mut args), Ok(()));
    assert_eq!(args[0].name, "only");
    assert_eq!(args[1].name, "");
    assert_eq!(args[2].name, "kept");
    let mut untouched = vec![arg("", EfiType::Bool, EfiArgDir::In, false)];
    assert_eq!(process_method_args(&DeclNode::new(NodeKind::Other, None), &mut untouched), Ok(()));
    assert_eq!(untouched, vec![arg("", EfiType::Bool, EfiArgDir::In, false)]);
}

#[test]
fn more_names_than_arguments_is_a_structural_mismatch() {
    let decl = group(NodeKind::TypedefDecl, None, vec![parm(Some("a")), parm(Some("b"))]);
    let mut args = vec![arg("", EfiType::UInt8, EfiArgDir::In, false)];
    assert_eq!(process_method_args(&decl, &mut args), Err(ExtractError::StructuralMismatch));
    assert_eq!(args, vec![arg("", EfiType::UInt8, EfiArgDir::In, false)]);
    let mut none: Vec<EfiArg> = vec![];
    assert_eq!(
        process_method_args(&parm(Some("a")), &mut none),
        Err(ExtractError::StructuralMismatch)
    );
    assert_eq!(none, vec![]);
}

#[test]
fn a_named_parameter_declaration_at_the_root_counts() {
    let mut args = vec![arg("", EfiType::UInt8, EfiArgDir::In, false)];
    assert_eq!(process_method_args(&parm(Some("root")), &mut args), Ok(()));
    assert_eq!(args[0].name, "root");
}
