use efi_ir::ast::{DeclNode, NodeKind, TypeKind, TypeNode};
use efi_ir::error::ExtractError;
use efi_ir::normalize::{name_of_type, record_type, to_efi_type};
use efi_ir::types::EfiType;

fn named(kind: TypeKind, decl_kind: NodeKind, name: &str) -> TypeNode {
    let mut t = TypeNode::new(kind, format!("struct {}", name));
    t.declaration = Some(DeclNode::new(decl_kind, Some(name.to_string())));
    t
}

fn record(name: &str) -> TypeNode {
    named(TypeKind::Record, NodeKind::StructDecl, name)
}

fn pointer_to(target: TypeNode) -> TypeNode {
    let mut t = TypeNode::new(TypeKind::Pointer, "ptr".to_string());
    t.pointee = Some(Box::new(target));
    t
}

fn typedef_of(name: &str, canonical: Option<TypeNode>) -> TypeNode {
    let mut t = named(TypeKind::Typedef, NodeKind::TypedefDecl, name);
    t.canonical = canonical.map(Box::new);
    t
}

#[test]
fn every_primitive_alias_has_its_tag() {
    let table = vec![
        ("efi_status", EfiType::Status),
        ("efi_uintn", EfiType::UIntN),
        ("efi_intn", EfiType::IntN),
        ("efi_bool", EfiType::Bool),
        ("efi_int8", EfiType::Int8),
        ("efi_uint8", EfiType::UInt8),
        ("efi_int16", EfiType::Int16),
        ("efi_uint16", EfiType::UInt16),
        ("efi_int32", EfiType::Int32),
        ("efi_uint32", EfiType::UInt32),
        ("efi_int64", EfiType::Int64),
        ("efi_uint64", EfiType::UInt64),
        ("efi_char8", EfiType::Char8),
        ("efi_char16", EfiType::Char16),
    ];
    for (name, tag) in table {
        assert_eq!(to_efi_type(&record(name)), Ok(tag.clone()));
        assert_eq!(record_type(name.to_string()), tag);
    }
}

#[test]
fn record_named_like_a_primitive_is_that_primitive() {
    assert_eq!(to_efi_type(&record("efi_uintn")), Ok(EfiType::UIntN));
    assert_eq!(to_efi_type(&record("_efi_status")), Ok(EfiType::Status));
}

#[test]
fn the_alias_table_matches_whole_names_only() {
    assert_eq!(to_efi_type(&record("efi_uint")), Ok(EfiType::Id("efi_uint".to_string())));
    assert_eq!(to_efi_type(&record("efi_uint88")), Ok(EfiType::Id("efi_uint88".to_string())));
    assert_eq!(to_efi_type(&record("EFI_STATUS")), Ok(EfiType::Id("EFI_STATUS".to_string())));
    assert_eq!(to_efi_type(&record("")), Ok(EfiType::Id(String::new())));
}

#[test]
fn unknown_record_is_a_reference_by_name_without_leading_underscores() {
    assert_eq!(to_efi_type(&record("_EFI_GUID")), Ok(EfiType::Id("EFI_GUID".to_string())));
    assert_eq!(to_efi_type(&record("___x_y_")), Ok(EfiType::Id("x_y_".to_string())));
    assert_eq!(to_efi_type(&record("___")), Ok(EfiType::Id(String::new())));
}

#[test]
fn anonymous_record_goes_by_its_display_name() {
    let mut t = TypeNode::new(TypeKind::Record, "_anon".to_string());
    assert_eq!(name_of_type(&t), "anon");
    assert_eq!(to_efi_type(&t), Ok(EfiType::Id("anon".to_string())));
    t.declaration = Some(DeclNode::new(NodeKind::StructDecl, None));
    assert_eq!(name_of_type(&t), "anon");
    t.declaration = Some(DeclNode::new(NodeKind::StructDecl, Some("_Real".to_string())));
    assert_eq!(name_of_type(&t), "Real");
}

#[test]
fn names_are_trimmed_by_characters_not_bytes() {
    let t = record("__\u{e9}t\u{e9}_");
    assert_eq!(name_of_type(&t), "\u{e9}t\u{e9}_");
}

#[test]
fn enum_is_always_a_reference_by_name() {
    let t = named(TypeKind::Enum, NodeKind::Other, "efi_status");
    assert_eq!(to_efi_type(&t), Ok(EfiType::Id("efi_status".to_string())));
    let u = named(TypeKind::Enum, NodeKind::Other, "_EFI_MODE");
    assert_eq!(to_efi_type(&u), Ok(EfiType::Id("EFI_MODE".to_string())));
}

#[test]
fn pointer_nesting_is_kept_level_for_level() {
    let mut t = record("efi_char16");
    let mut want = EfiType::Char16;
    assert_eq!(to_efi_type(&t), Ok(want.clone()));
    for _ in 0..5 {
        t = pointer_to(t);
        want = EfiType::Ptr(Box::new(want));
        assert_eq!(to_efi_type(&t), Ok(want.clone()));
    }
    assert_eq!(
        to_efi_type(&pointer_to(pointer_to(record("efi_uint8")))),
        Ok(EfiType::Ptr(Box::new(EfiType::Ptr(Box::new(EfiType::UInt8)))))
    );
}

#[test]
fn pointer_without_pointee_is_a_missing_node() {
    let t = TypeNode::new(TypeKind::Pointer, "ptr".to_string());
    assert_eq!(to_efi_type(&t), Err(ExtractError::MissingNode));
    assert_eq!(to_efi_type(&pointer_to(t)), Err(ExtractError::MissingNode));
}

#[test]
fn pointer_to_an_unsupported_type_is_unsupported() {
    let scalar = TypeNode::new(TypeKind::Other, "int".to_string());
    assert_eq!(to_efi_type(&pointer_to(scalar)), Err(ExtractError::UnsupportedType));
}

#[test]
fn other_kinds_are_refused() {
    let t = TypeNode::new(TypeKind::Other, "int".to_string());
    assert_eq!(to_efi_type(&t), Err(ExtractError::UnsupportedType));
    let f = TypeNode::new(TypeKind::FunctionPrototype, "void ()".to_string());
    assert_eq!(to_efi_type(&f), Err(ExtractError::UnsupportedType));
}

#[test]
fn typedef_takes_the_tag_of_its_dealiased_type() {
    let t = typedef_of("UINTN", Some(record("efi_uintn")));
    assert_eq!(to_efi_type(&t), Ok(EfiType::UIntN));
    let p = typedef_of("EFI_HANDLE", Some(pointer_to(record("_EFI_OBJECT"))));
    assert_eq!(
        to_efi_type(&p),
        Ok(EfiType::Ptr(Box::new(EfiType::Id("EFI_OBJECT".to_string()))))
    );
}

#[test]
fn typedef_never_fails() {
    let scalar = TypeNode::new(TypeKind::Other, "int".to_string());
    let t = typedef_of("_MY_INT", Some(scalar));
    assert_eq!(to_efi_type(&t), Ok(EfiType::Id("MY_INT".to_string())));
    let dangling = TypeNode::new(TypeKind::Pointer, "ptr".to_string());
    let u = typedef_of("EFI_DANGLING", Some(dangling));
    assert_eq!(to_efi_type(&u), Ok(EfiType::Id("EFI_DANGLING".to_string())));
    let alone = typedef_of("EFI_ALONE", None);
    assert_eq!(to_efi_type(&alone), Ok(EfiType::Id("EFI_ALONE".to_string())));
}

#[test]
fn pointer_to_a_failing_typedef_still_has_a_tag() {
    let scalar = TypeNode::new(TypeKind::Other, "int".to_string());
    let t = pointer_to(typedef_of("INT", Some(scalar)));
    assert_eq!(to_efi_type(&t), Ok(EfiType::Ptr(Box::new(EfiType::Id("INT".to_string())))));
}

#[test]
fn dealiased_is_the_canonical_type_or_the_type_itself() {
    let plain = record("efi_bool");
    assert_eq!(plain.dealiased(), &plain);
    let t = typedef_of("BOOLEAN", Some(record("efi_bool")));
    assert_eq!(t.dealiased(), &record("efi_bool"));
}

#[test]
fn cloned_tag_equals_its_source() {
    let t = EfiType::Ptr(Box::new(EfiType::Ptr(Box::new(EfiType::Id("EFI_X".to_string())))));
    assert_eq!(t.clone(), t);
    assert_eq!(EfiType::Int32.clone(), EfiType::Int32);
    assert_ne!(t.clone(), EfiType::Ptr(Box::new(EfiType::Id("EFI_X".to_string()))));
}
