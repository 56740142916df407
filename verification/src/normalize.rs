//! Type tags: what a type of the syntax tree normalizes to.

use crate::ast::{TypeKind, TypeNode, TypeView};
use crate::error::ExtractError;
use crate::text::{
    lemma_no_leading_underscore, same_text, trim_leading_underscores,
    without_leading_underscores,
};
use crate::types::{EfiType, EfiTypeView};
use vstd::prelude::*;

verus! {

/// The name under which a type is known: that of its declaration, or the
/// display name where the declaration has none, without leading underscores.
pub open spec fn normalized_name(t: TypeView) -> Seq<char> {
    without_leading_underscores(
        match t.declared_name() {
            Some(name) => name,
            None => t.display_name,
        },
    )
}

/// The primitive that a record of this name stands for, if it is one of the
/// aliases.
pub open spec fn primitive(name: Seq<char>) -> Option<EfiTypeView> {
    if name == "efi_status"@ {
        Some(EfiTypeView::Status)
    } else if name == "efi_uintn"@ {
        Some(EfiTypeView::UIntN)
    } else if name == "efi_intn"@ {
        Some(EfiTypeView::IntN)
    } else if name == "efi_bool"@ {
        Some(EfiTypeView::Bool)
    } else if name == "efi_int8"@ {
        Some(EfiTypeView::Int8)
    } else if name == "efi_uint8"@ {
        Some(EfiTypeView::UInt8)
    } else if name == "efi_int16"@ {
        Some(EfiTypeView::Int16)
    } else if name == "efi_uint16"@ {
        Some(EfiTypeView::UInt16)
    } else if name == "efi_int32"@ {
        Some(EfiTypeView::Int32)
    } else if name == "efi_uint32"@ {
        Some(EfiTypeView::UInt32)
    } else if name == "efi_int64"@ {
        Some(EfiTypeView::Int64)
    } else if name == "efi_uint64"@ {
        Some(EfiTypeView::UInt64)
    } else if name == "efi_char8"@ {
        Some(EfiTypeView::Char8)
    } else if name == "efi_char16"@ {
        Some(EfiTypeView::Char16)
    } else {
        None
    }
}

/// The tag of a record of the given name.
pub open spec fn record_tag(name: Seq<char>) -> EfiTypeView {
    match primitive(name) {
        Some(tag) => tag,
        None => EfiTypeView::Id(name),
    }
}

/// The tag that a type normalizes to, or why it has none.
///
/// A record is a primitive or a reference by name, an enum a reference by
/// name, a pointer a pointer to what its pointee normalizes to. A typedef is
/// what its dealiased type normalizes to and, where that fails or is missing,
/// a reference by its own name: it never fails. Every other kind is refused.
pub open spec fn normalized(t: TypeView) -> Result<EfiTypeView, ExtractError>
    decreases t,
{
    match t.kind {
        TypeKind::Record => Ok(record_tag(normalized_name(t))),
        TypeKind::Enum => Ok(EfiTypeView::Id(normalized_name(t))),
        TypeKind::Pointer => match t.pointee {
            None => Err(ExtractError::MissingNode),
            Some(target) => match normalized(*target) {
                Ok(tag) => Ok(EfiTypeView::Ptr(Box::new(tag))),
                Err(e) => Err(e),
            },
        },
        TypeKind::Typedef => match t.canonical {
            None => Ok(EfiTypeView::Id(normalized_name(t))),
            Some(target) => match normalized(*target) {
                Ok(tag) => Ok(tag),
                Err(_) => Ok(EfiTypeView::Id(normalized_name(t))),
            },
        },
        _ => Err(ExtractError::UnsupportedType),
    }
}

/// The value of the outcome of a normalization.
pub open spec fn tag_outcome(r: Result<EfiType, ExtractError>) -> Result<EfiTypeView, ExtractError> {
    match r {
        Ok(tag) => Ok(tag@),
        Err(e) => Err(e),
    }
}

/// The name under which a type is known, without leading underscores.
pub fn name_of_type(typ: &TypeNode) -> (name: String)
    ensures
        name@ == normalized_name(typ@),
{
    match &typ.declaration {
        Some(decl) => match &decl.name {
            Some(name) => trim_leading_underscores(name.as_str()),
            None => trim_leading_underscores(typ.display_name.as_str()),
        },
        None => trim_leading_underscores(typ.display_name.as_str()),
    }
}

/// The tag of a record of the given name: the primitive of that name, or a
/// reference by name.
pub fn record_type(name: String) -> (tag: EfiType)
    ensures
        tag@ == record_tag(name@),
{
    let s = name.as_str();
    if same_text(s, "efi_status") {
        EfiType::Status
    } else if same_text(s, "efi_uintn") {
        EfiType::UIntN
    } else if same_text(s, "efi_intn") {
        EfiType::IntN
    } else if same_text(s, "efi_bool") {
        EfiType::Bool
    } else if same_text(s, "efi_int8") {
        EfiType::Int8
    } else if same_text(s, "efi_uint8") {
        EfiType::UInt8
    } else if same_text(s, "efi_int16") {
        EfiType::Int16
    } else if same_text(s, "efi_uint16") {
        EfiType::UInt16
    } else if same_text(s, "efi_int32") {
        EfiType::Int32
    } else if same_text(s, "efi_uint32") {
        EfiType::UInt32
    } else if same_text(s, "efi_int64") {
        EfiType::Int64
    } else if same_text(s, "efi_uint64") {
        EfiType::UInt64
    } else if same_text(s, "efi_char8") {
        EfiType::Char8
    } else if same_text(s, "efi_char16") {
        EfiType::Char16
    } else {
        EfiType::Id(name)
    }
}

/// Normalizes a type to its tag.
pub fn to_efi_type(typ: &TypeNode) -> (outcome: Result<EfiType, ExtractError>)
    ensures
        tag_outcome(outcome) == normalized(typ@),
        outcome matches Ok(tag) ==> tag@.well_formed(),
    decreases typ,
{
    proof {
        lemma_normalized_well_formed(typ@);
    }
    match typ.kind {
        TypeKind::Record => Ok(record_type(name_of_type(typ))),
        TypeKind::Enum => Ok(EfiType::Id(name_of_type(typ))),
        TypeKind::Pointer => match &typ.pointee {
            None => Err(ExtractError::MissingNode),
            Some(target) => {
                let pointee: &TypeNode = &**target;
                match to_efi_type(pointee) {
                    Ok(tag) => Ok(EfiType::Ptr(Box::new(tag))),
                    Err(e) => Err(e),
                }
            },
        },
        TypeKind::Typedef => match &typ.canonical {
            None => Ok(EfiType::Id(name_of_type(typ))),
            Some(target) => {
                let dealiased: &TypeNode = &**target;
                match to_efi_type(dealiased) {
                    Ok(tag) => Ok(tag),
                    Err(_) => Ok(EfiType::Id(name_of_type(typ))),
                }
            },
        },
        _ => Err(ExtractError::UnsupportedType),
    }
}

/// No name in a tag that a type normalizes to begins with an underscore.
pub proof fn lemma_normalized_well_formed(t: TypeView)
    ensures
        normalized(t) matches Ok(tag) ==> tag.well_formed(),
    decreases t,
{
    lemma_no_leading_underscore(
        match t.declared_name() {
            Some(name) => name,
            None => t.display_name,
        },
    );
    match t.kind {
        TypeKind::Pointer => {
            if let Some(target) = t.pointee {
                lemma_normalized_well_formed(*target);
            }
        },
        TypeKind::Typedef => {
            if let Some(target) = t.canonical {
                lemma_normalized_well_formed(*target);
            }
        },
        _ => {},
    }
}

/// Whether `t` is `base` under `depth` pointers.
pub open spec fn points_to(t: TypeView, depth: nat, base: TypeView) -> bool
    decreases depth,
{
    if depth == 0 {
        t == base
    } else {
        t.kind == TypeKind::Pointer && t.pointee is Some && points_to(
            *t.pointee->0,
            (depth - 1) as nat,
            base,
        )
    }
}

/// Normalization keeps the depth of pointers: a type that is `base` under
/// `depth` pointers has the tag of `base` under `depth` pointers, and fails
/// as `base` fails. So a record named like a primitive, under `depth`
/// pointers, is that primitive under `depth` pointers.
pub proof fn lemma_pointer_depth_is_kept(t: TypeView, depth: nat, base: TypeView)
    requires
        points_to(t, depth, base),
    ensures
        normalized(t) == (match normalized(base) {
            Ok(tag) => Ok(tag.pointer_to(depth)),
            Err(e) => Err(e),
        }),
        base.kind == TypeKind::Record && primitive(normalized_name(base)) is Some ==> normalized(t)
            == Ok::<EfiTypeView, ExtractError>(
            primitive(normalized_name(base))->0.pointer_to(depth),
        ),
    decreases depth,
{
    if depth > 0 {
        lemma_pointer_depth_is_kept(*t.pointee->0, (depth - 1) as nat, base);
    }
}

/// A typedef never fails: it has the tag of its dealiased type where that
/// has one, and is a reference by the typedef's own name where it has none.
pub proof fn lemma_typedef_never_fails(t: TypeView)
    requires
        t.kind == TypeKind::Typedef,
    ensures
        normalized(t) is Ok,
        t.canonical is Some && normalized(*t.canonical->0) is Ok ==> normalized(t) == normalized(
            *t.canonical->0,
        ),
        t.canonical is None || normalized(*t.canonical->0) is Err ==> normalized(t) == Ok::<
            EfiTypeView,
            ExtractError,
        >(EfiTypeView::Id(normalized_name(t))),
{
}

} // verus!
