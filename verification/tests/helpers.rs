use efi_ir::ast::{AstNode, DeclNode, NodeKind, TypeKind, TypeNode};
use efi_ir::error::ExtractError;
use efi_ir::option_ext::and_check;
use efi_ir::text::{drop_first_char, ends_with, same_text, starts_with, trim_leading_underscores};
use efi_ir::wrapper::aux_header;

#[test]
fn and_check_keeps_what_passes() {
    assert_eq!(and_check(Some(4), |n: &i32| *n > 3), Some(4));
    assert_eq!(and_check(Some(3), |n: &i32| *n > 3), None);
    assert_eq!(and_check(None, |n: &i32| *n > 3), None);
    assert_eq!(and_check(Some("x".to_string()), |s: &String| s.is_empty()), None);
}

#[test]
fn aux_header_includes_the_header_after_the_preamble() {
    assert_eq!(
        aux_header("typedef struct efi_bool efi_bool;", "/src/sample.h"),
        "typedef struct efi_bool efi_bool;\n#include \"/src/sample.h\""
    );
    assert_eq!(aux_header("", ""), "\n#include \"\"");
}

#[test]
fn prefixes_and_suffixes() {
    assert!(starts_with("EFI_FOO", "EFI_"));
    assert!(starts_with("EFI_", "EFI_"));
    assert!(starts_with("anything", ""));
    assert!(!starts_with("EFI", "EFI_"));
    assert!(!starts_with("_EFI_FOO", "EFI_"));
    assert!(!starts_with("", "E"));
    assert!(ends_with("EFI_FOO_PROTOCOL", "_PROTOCOL"));
    assert!(ends_with("_PROTOCOL", "_PROTOCOL"));
    assert!(ends_with("anything", ""));
    assert!(!ends_with("PROTOCOL", "_PROTOCOL"));
    assert!(!ends_with("EFI_FOO_PROTOCOL_", "_PROTOCOL"));
    assert!(starts_with("\u{e9}\u{e8}x", "\u{e9}\u{e8}"));
    assert!(ends_with("x\u{e9}\u{e8}", "\u{e9}\u{e8}"));
    assert!(!ends_with("x\u{e9}\u{e8}", "x\u{e9}"));
}

#[test]
fn text_comparison_is_exact() {
    assert!(same_text("efi_status", "efi_status"));
    assert!(same_text("", ""));
    assert!(!same_text("efi_status", "efi_statu"));
    assert!(!same_text("efi_status", "EFI_STATUS"));
}

#[test]
fn leading_underscores_are_all_removed() {
    assert_eq!(trim_leading_underscores("__a_b_"), "a_b_");
    assert_eq!(trim_leading_underscores("a"), "a");
    assert_eq!(trim_leading_underscores("____"), "");
    assert_eq!(trim_leading_underscores(""), "");
    assert_eq!(trim_leading_underscores("_\u{fc}_"), "\u{fc}_");
}

#[test]
fn first_character_is_dropped() {
    assert_eq!(drop_first_char("_EFI_X_PROTOCOL"), "EFI_X_PROTOCOL");
    assert_eq!(drop_first_char("x"), "");
    assert_eq!(drop_first_char("\u{e9}ab"), "ab");
}

#[test]
fn every_failure_has_its_message() {
    let all = [
        ExtractError::MissingNode,
        ExtractError::UnsupportedType,
        ExtractError::UnsupportedKind,
        ExtractError::UnknownTypedef,
        ExtractError::StructuralMismatch,
    ];
    assert_eq!(ExtractError::UnsupportedType.message(), "unsupported type");
    assert_eq!(ExtractError::UnknownTypedef.message(), "unknown typedef");
    for (i, a) in all.iter().enumerate() {
        assert!(!a.message().is_empty());
        for b in all.iter().skip(i + 1) {
            assert_ne!(a.message(), b.message());
        }
    }
}

#[test]
fn new_nodes_hold_nothing_but_what_they_are_given() {
    let d = DeclNode::new(NodeKind::ParmDecl, Some("a".to_string()));
    assert_eq!(
        d,
        DeclNode { kind: NodeKind::ParmDecl, name: Some("a".to_string()), children: vec![] }
    );
    let t = TypeNode::new(TypeKind::Enum, "enum e".to_string());
    assert_eq!(
        t,
        TypeNode {
            kind: TypeKind::Enum,
            display_name: "enum e".to_string(),
            declaration: None,
            canonical: None,
            pointee: None,
            result: None,
            arguments: None,
            fields: None,
        }
    );
    let e = AstNode::new(NodeKind::StructDecl, None);
    assert_eq!(
        e,
        AstNode {
            kind: NodeKind::StructDecl,
            name: None,
            file: None,
            typ: None,
            underlying: None,
            children: vec![],
        }
    );
}
