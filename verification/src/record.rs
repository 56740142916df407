//! Records: typedefs of aggregates.

use crate::ast::{
    lemma_member_views, member_views, AstNode, AstView, FieldNode, FieldView, NodeKind,
};
use crate::error::ExtractError;
use crate::normalize::{lemma_normalized_well_formed, normalized, to_efi_type};
use crate::text::{ends_with, starts_with};
use crate::types::{
    field_views, record_views, EfiField, EfiFieldView, EfiModule, EfiModuleView, EfiRecord,
    EfiRecordView, EfiTypeView,
};
use vstd::prelude::*;

verus! {

/// The field that a member yields: its name and the tag of its type. A
/// member without a type or without a name is a failure, and so is one whose
/// type has no tag.
pub open spec fn member_field(m: FieldView) -> Result<EfiFieldView, ExtractError> {
    match m.typ {
        None => Err(ExtractError::MissingNode),
        Some(t) => match m.name {
            None => Err(ExtractError::MissingNode),
            Some(name) => match normalized(t) {
                Ok(tag) => Ok(EfiFieldView { name, typ: tag }),
                Err(e) => Err(e),
            },
        },
    }
}

/// The fields that a list of members yields, one for one and in order, or the
/// failure of the first member that has one.
pub open spec fn member_fields(members: Seq<FieldView>) -> Result<Seq<EfiFieldView>, ExtractError>
    decreases members.len(),
{
    if members.len() == 0 {
        Ok(Seq::empty())
    } else {
        match member_fields(members.drop_last()) {
            Err(e) => Err(e),
            Ok(fields) => match member_field(members.last()) {
                Ok(field) => Ok(fields.push(field)),
                Err(e) => Err(e),
            },
        }
    }
}

/// Whether a typedef of this name belongs to the domain.
pub open spec fn has_domain_prefix(name: Seq<char>) -> bool {
    "EFI_"@.is_prefix_of(name)
}

/// Whether a typedef of this name stands for a protocol.
pub open spec fn has_protocol_suffix(name: Seq<char>) -> bool {
    "_PROTOCOL"@.is_suffix_of(name)
}

/// What a typedef declaration yields: a record, nothing, or a failure.
///
/// A typedef without a name or outside the domain is a failure. One that
/// stands for a protocol yields nothing, and neither does one whose
/// dealiased type has no member list. Otherwise its members become the
/// fields of a record under the typedef's name, a struct or a union as the
/// declaration behind the underlying type says.
pub open spec fn record_of(e: AstView) -> Result<Option<EfiRecordView>, ExtractError> {
    match e.name {
        None => Err(ExtractError::MissingNode),
        Some(name) => if !has_domain_prefix(name) {
            Err(ExtractError::UnknownTypedef)
        } else if has_protocol_suffix(name) {
            Ok(None)
        } else {
            match e.underlying {
                None => Err(ExtractError::MissingNode),
                Some(t) => match t.dealiased().fields {
                    None => Ok(None),
                    Some(members) => match member_fields(members) {
                        Err(err) => Err(err),
                        Ok(fields) => match t.declaration {
                            None => Err(ExtractError::MissingNode),
                            Some(d) => match d.kind {
                                NodeKind::StructDecl => Ok(
                                    Some(EfiRecordView::EfiStruct { name, fields }),
                                ),
                                NodeKind::UnionDecl => Ok(
                                    Some(EfiRecordView::EfiUnion { name, fields }),
                                ),
                                _ => Err(ExtractError::UnsupportedKind),
                            },
                        },
                    },
                },
            }
        },
    }
}

/// The module after a typedef declaration has been dealt with: one record
/// longer where the typedef yields one, else unchanged.
pub open spec fn after_typedef(m: EfiModuleView, e: AstView) -> EfiModuleView {
    match record_of(e) {
        Ok(Some(record)) => EfiModuleView { protocols: m.protocols, records: m.records.push(record) },
        _ => m,
    }
}

/// The failure of a prefix of the members is the failure of them all.
pub proof fn lemma_member_fields_prefix_failure(members: Seq<FieldView>, n: int)
    requires
        0 <= n <= members.len(),
        member_fields(members.take(n)) is Err,
    ensures
        member_fields(members) == member_fields(members.take(n)),
    decreases members.len(),
{
    if n == members.len() {
        assert(members.take(n) == members);
    } else {
        assert(members.drop_last().take(n) == members.take(n));
        lemma_member_fields_prefix_failure(members.drop_last(), n);
    }
}

/// The fields of one more member, from those of the members before it.
pub proof fn lemma_member_fields_step(members: Seq<FieldView>, n: int)
    requires
        0 <= n < members.len(),
    ensures
        member_fields(members.take(n + 1)) == (match member_fields(members.take(n)) {
            Err(e) => Err(e),
            Ok(fields) => match member_field(members[n]) {
                Ok(field) => Ok(fields.push(field)),
                Err(e) => Err(e),
            },
        }),
{
    assert(members.take(n + 1).drop_last() == members.take(n));
}

/// The fields correspond to the members one for one and in order; a failure
/// is that of the first member that has one.
pub proof fn lemma_member_fields_one_for_one(members: Seq<FieldView>)
    ensures
        match member_fields(members) {
            Ok(fields) => {
                &&& fields.len() == members.len()
                &&& forall|i: int|
                    0 <= i < members.len() ==> member_field(#[trigger] members[i]) == Ok::<
                        EfiFieldView,
                        ExtractError,
                    >(fields[i])
            },
            Err(e) => exists|i: int|
                {
                    &&& 0 <= i < members.len()
                    &&& member_field(#[trigger] members[i]) == Err::<EfiFieldView, ExtractError>(e)
                    &&& forall|j: int| 0 <= j < i ==> member_field(#[trigger] members[j]) is Ok
                },
        },
    decreases members.len(),
{
    if members.len() > 0 {
        let front = members.drop_last();
        let last = members.len() - 1;
        lemma_member_fields_one_for_one(front);
        assert(forall|j: int| 0 <= j < last ==> members[j] == front[j]);
        match member_fields(front) {
            Ok(fields) => match member_field(members.last()) {
                Ok(field) => {
                    let all = fields.push(field);
                    assert forall|i: int| 0 <= i < members.len() implies member_field(
                        #[trigger] members[i],
                    ) == Ok::<EfiFieldView, ExtractError>(all[i]) by {
                        if i < last {
                            assert(member_field(front[i]) == Ok::<EfiFieldView, ExtractError>(
                                fields[i],
                            ));
                        }
                    }
                },
                Err(e) => {
                    assert forall|j: int| 0 <= j < last implies member_field(
                        #[trigger] members[j],
                    ) is Ok by {
                        assert(member_field(front[j]) is Ok);
                    }
                    assert(member_field(members[last]) == Err::<EfiFieldView, ExtractError>(e));
                },
            },
            Err(e) => {
                let i = choose|i: int|
                    {
                        &&& 0 <= i < front.len()
                        &&& member_field(#[trigger] front[i]) == Err::<EfiFieldView, ExtractError>(e)
                        &&& forall|j: int| 0 <= j < i ==> member_field(#[trigger] front[j]) is Ok
                    };
                assert forall|j: int| 0 <= j < i implies member_field(#[trigger] members[j]) is Ok by {
                    assert(member_field(front[j]) is Ok);
                }
                assert(member_field(members[i]) == Err::<EfiFieldView, ExtractError>(e));
            },
        }
    }
}

/// A record mirrors the typedef that it comes from: it carries the typedef's
/// name, which has the domain prefix and not the protocol suffix; it is a
/// struct or a union as the declaration behind the underlying type is; and it
/// has one field for each member of the dealiased type, in order, under the
/// member's name and with the tag of the member's type.
pub proof fn lemma_record_mirrors_typedef(e: AstView, record: EfiRecordView)
    requires
        record_of(e) == Ok::<Option<EfiRecordView>, ExtractError>(Some(record)),
    ensures
        e.name == Some(record.name()),
        has_domain_prefix(record.name()),
        !has_protocol_suffix(record.name()),
        e.underlying is Some,
        e.underlying->0.declaration is Some,
        record is EfiStruct <==> e.underlying->0.declaration->0.kind == NodeKind::StructDecl,
        record is EfiUnion <==> e.underlying->0.declaration->0.kind == NodeKind::UnionDecl,
        e.underlying->0.dealiased().fields is Some,
        record.fields().len() == e.underlying->0.dealiased().fields->0.len(),
        forall|i: int|
            #![trigger record.fields()[i]]
            0 <= i < record.fields().len() ==> {
                let member = e.underlying->0.dealiased().fields->0[i];
                &&& member.name == Some(record.fields()[i].name)
                &&& member.typ is Some
                &&& normalized(member.typ->0) == Ok::<EfiTypeView, ExtractError>(
                    record.fields()[i].typ,
                )
            },
{
    let members = e.underlying->0.dealiased().fields->0;
    lemma_member_fields_one_for_one(members);
    assert forall|i: int| 0 <= i < record.fields().len() implies {
        let member = members[i];
        &&& member.name == Some(#[trigger] record.fields()[i].name)
        &&& member.typ is Some
        &&& normalized(member.typ->0) == Ok::<EfiTypeView, ExtractError>(
            record.fields()[i].typ,
        )
    } by {
        assert(member_field(members[i]) is Ok);
    }
}

/// A typedef of the domain that does not stand for a protocol yields a
/// record where its dealiased type has a member list, every member has a
/// field to give, and the declaration behind the underlying type is a struct
/// or a union.
pub proof fn lemma_qualifying_typedef_yields_record(e: AstView)
    requires
        e.name is Some,
        has_domain_prefix(e.name->0),
        !has_protocol_suffix(e.name->0),
        e.underlying is Some,
        e.underlying->0.dealiased().fields is Some,
        forall|i: int|
            0 <= i < e.underlying->0.dealiased().fields->0.len() ==> member_field(
                #[trigger] e.underlying->0.dealiased().fields->0[i],
            ) is Ok,
        e.underlying->0.declaration is Some,
        e.underlying->0.declaration->0.kind == NodeKind::StructDecl
            || e.underlying->0.declaration->0.kind == NodeKind::UnionDecl,
    ensures
        record_of(e) matches Ok(Some(_)),
{
    lemma_member_fields_one_for_one(e.underlying->0.dealiased().fields->0);
}

/// No name in the tags of a record that a typedef yields begins with an
/// underscore.
pub proof fn lemma_record_well_formed(e: AstView)
    ensures
        record_of(e) matches Ok(Some(record)) ==> record.well_formed(),
{
    if let Ok(Some(record)) = record_of(e) {
        lemma_record_mirrors_typedef(e, record);
        assert forall|i: int| 0 <= i < record.fields().len() implies (
        #[trigger] record.fields()[i]).well_formed() by {
            lemma_normalized_well_formed(e.underlying->0.dealiased().fields->0[i].typ->0);
        }
    }
}

/// A typedef declaration keeps a module free of names that begin with an
/// underscore.
pub proof fn lemma_after_typedef_well_formed(m: EfiModuleView, e: AstView)
    requires
        m.well_formed(),
    ensures
        after_typedef(m, e).well_formed(),
{
    lemma_record_well_formed(e);
    let after = after_typedef(m, e);
    assert forall|i: int| 0 <= i < after.records.len() implies (
    #[trigger] after.records[i]).well_formed() by {
        if i < m.records.len() {
            assert(m.records[i].well_formed());
        }
    }
}

/// Whether `e` is a typedef of the domain that does not stand for a protocol
/// and whose dealiased type has at the place `i` a member without a name,
/// without a type, or with a type that has no tag.
pub open spec fn typedef_has_bad_member(e: AstView, i: int) -> bool {
    &&& e.name is Some
    &&& has_domain_prefix(e.name->0)
    &&& !has_protocol_suffix(e.name->0)
    &&& e.underlying is Some
    &&& e.underlying->0.dealiased().fields is Some
    &&& 0 <= i < e.underlying->0.dealiased().fields->0.len()
    &&& {
        let member = e.underlying->0.dealiased().fields->0[i];
        member.name is None || member.typ is None || normalized(member.typ->0) is Err
    }
}

/// One bad member fails the typedef: no record comes with a member left out
/// or made up.
pub proof fn lemma_member_failure_fails_typedef(e: AstView, i: int)
    requires
        typedef_has_bad_member(e, i),
    ensures
        record_of(e) is Err,
{
    lemma_member_fields_one_for_one(e.underlying->0.dealiased().fields->0);
    assert(member_field(e.underlying->0.dealiased().fields->0[i]) is Err);
}

/// The field that a member yields.
pub fn field_of_member(member: &FieldNode) -> (outcome: Result<EfiField, ExtractError>)
    ensures
        match outcome {
            Ok(field) => member_field(member@) == Ok::<EfiFieldView, ExtractError>(field@),
            Err(e) => member_field(member@) == Err::<EfiFieldView, ExtractError>(e),
        },
{
    let typ = match &member.typ {
        None => {
            return Err(ExtractError::MissingNode);
        },
        Some(t) => t,
    };
    let name = match &member.name {
        None => {
            return Err(ExtractError::MissingNode);
        },
        Some(n) => n.clone(),
    };
    match to_efi_type(typ) {
        Ok(tag) => Ok(EfiField { name, typ: tag }),
        Err(e) => Err(e),
    }
}

/// The fields that a list of members yields, or the first failure.
pub fn fields_of_members(members: &Vec<FieldNode>) -> (outcome: Result<Vec<EfiField>, ExtractError>)
    ensures
        match outcome {
            Ok(fields) => member_fields(member_views(members@)) == Ok::<
                Seq<EfiFieldView>,
                ExtractError,
            >(field_views(fields@)),
            Err(e) => member_fields(member_views(members@)) == Err::<
                Seq<EfiFieldView>,
                ExtractError,
            >(e),
        },
{
    let ghost views = member_views(members@);
    let mut fields: Vec<EfiField> = Vec::new();
    let mut i: usize = 0;
    assert(field_views(fields@) == Seq::<EfiFieldView>::empty());
    while i < members.len()
        invariant
            i <= members.len(),
            views == member_views(members@),
            member_fields(views.take(i as int)) == Ok::<Seq<EfiFieldView>, ExtractError>(
                field_views(fields@),
            ),
        decreases members.len() - i,
    {
        proof {
            lemma_member_views(members@);
            lemma_member_fields_step(views, i as int);
        }
        match field_of_member(&members[i]) {
            Ok(field) => {
                assert(field_views(fields@.push(field)) == field_views(fields@).push(field@));
                fields.push(field);
            },
            Err(e) => {
                proof {
                    lemma_member_fields_prefix_failure(views, i + 1);
                }
                return Err(e);
            },
        }
        i += 1;
    }
    proof {
        lemma_member_views(members@);
        assert(views.take(i as int) == views);
    }
    Ok(fields)
}

/// Deals with a typedef declaration: where it yields a record, the record is
/// added to the module after those that are there.
pub fn process_typedef(entity: &AstNode, module: &mut EfiModule) -> (outcome: Result<(), ExtractError>)
    ensures
        outcome == (match record_of(entity@) {
            Ok(_) => Ok(()),
            Err(e) => Err(e),
        }),
        final(module)@ == after_typedef(old(module)@, entity@),
        old(module)@.well_formed() ==> final(module)@.well_formed(),
{
    proof {
        if module@.well_formed() {
            lemma_after_typedef_well_formed(module@, entity@);
        }
    }
    let name = match &entity.name {
        None => {
            return Err(ExtractError::MissingNode);
        },
        Some(n) => n,
    };
    if !starts_with(name.as_str(), "EFI_") {
        return Err(ExtractError::UnknownTypedef);
    }
    if ends_with(name.as_str(), "_PROTOCOL") {
        return Ok(());
    }
    let typ = match &entity.underlying {
        None => {
            return Err(ExtractError::MissingNode);
        },
        Some(t) => t,
    };
    let target = typ.dealiased();
    let members = match &target.fields {
        None => {
            return Ok(());
        },
        Some(list) => list,
    };
    assert(target@.fields == Some(member_views(members@)));
    let fields = match fields_of_members(members) {
        Err(e) => {
            return Err(e);
        },
        Ok(fields) => fields,
    };
    let kind = match &typ.declaration {
        None => {
            return Err(ExtractError::MissingNode);
        },
        Some(d) => d.kind,
    };
    let record = match kind {
        NodeKind::StructDecl => EfiRecord::EfiStruct { name: name.clone(), fields },
        NodeKind::UnionDecl => EfiRecord::EfiUnion { name: name.clone(), fields },
        _ => {
            return Err(ExtractError::UnsupportedKind);
        },
    };
    assert(record_of(entity@) == Ok::<Option<EfiRecordView>, ExtractError>(Some(record@)));
    proof {
        let before = module.records@;
        assert(record_views(before.push(record)) == record_views(
            before,
        ).push(record@));
    }
    module.records.push(record);
    Ok(())
}

} // verus!
