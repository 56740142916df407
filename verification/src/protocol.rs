//! Protocols: struct declarations whose members are parted into methods and
//! data fields.

use crate::ast::{
    lemma_member_views, member_views, AstNode, AstView, DeclNode, DeclView, FieldNode, FieldView,
    TypeKind, TypeNode, TypeView,
};
use crate::error::ExtractError;
use crate::method::{
    lemma_signature_well_formed, named_args, parameter_names, process_method_args, signature,
    to_efi_method,
};
use crate::normalize::{lemma_normalized_well_formed, normalized, to_efi_type};
use crate::option_ext::and_check;
use crate::text::{drop_first_char, ends_with, starts_with, without_first};
use crate::types::{
    field_views, fields_well_formed, method_views, protocol_views, EfiField, EfiFieldView,
    EfiMethod, EfiMethodView, EfiModule, EfiModuleView, EfiProtocol, EfiProtocolView,
};
use vstd::prelude::*;

verus! {

/// What a member of a protocol becomes: a method or a data field.
#[derive(Clone, Debug, PartialEq, Eq, Hash)]
pub enum EfiMember {
    Method(EfiMethod),
    Field(EfiField),
}

/// The mathematical value of an [`EfiMember`].
pub enum EfiMemberView {
    Method(EfiMethodView),
    Field(EfiFieldView),
}

impl View for EfiMember {
    type V = EfiMemberView;

    open spec fn view(&self) -> EfiMemberView {
        match self {
            EfiMember::Method(m) => EfiMemberView::Method(m@),
            EfiMember::Field(f) => EfiMemberView::Field(f@),
        }
    }
}

/// Whether a struct of this name declares a protocol: the name begins with
/// the internal prefix and ends with the protocol suffix.
pub open spec fn is_protocol_name(name: Seq<char>) -> bool {
    "_EFI"@.is_prefix_of(name) && "PROTOCOL"@.is_suffix_of(name)
}

/// Whether a member of this type is a method: the dealiased type is a pointer
/// to a function prototype.
pub open spec fn is_method_type(t: TypeView) -> bool {
    match t.dealiased().pointee {
        Some(target) => target.kind == TypeKind::FunctionPrototype,
        None => false,
    }
}

/// The declaration that the names of a method's arguments are read from: the
/// one behind the member's type where there is one, as for a member whose
/// type is a typedef, and else the member's own, as for a function pointer
/// written in place.
pub open spec fn naming_declaration(t: TypeView, own: Option<DeclView>) -> Option<DeclView> {
    match t.declaration {
        Some(decl) => Some(decl),
        None => own,
    }
}

/// The method that a member of the given type yields under the given name:
/// the signature of the prototype that the dealiased type points to, with
/// the argument names of the naming declaration. A type that points to
/// nothing is a failure, and so is a member with no declaration behind its
/// type and none of its own, before any failure in the signature.
pub open spec fn method_of(name: Seq<char>, t: TypeView, own: Option<DeclView>) -> Result<
    EfiMethodView,
    ExtractError,
> {
    match t.dealiased().pointee {
        None => Err(ExtractError::MissingNode),
        Some(prototype) => match naming_declaration(t, own) {
            None => Err(ExtractError::MissingNode),
            Some(decl) => match signature(*prototype) {
                Err(e) => Err(e),
                Ok(method) => match named_args(method.args, parameter_names(decl)) {
                    Err(e) => Err(e),
                    Ok(args) => Ok(EfiMethodView { name, typ: method.typ, args }),
                },
            },
        },
    }
}

/// The value of a declaration that may be missing.
pub open spec fn declaration_view(d: Option<&DeclNode>) -> Option<DeclView> {
    match d {
        Some(decl) => Some(decl@),
        None => None,
    }
}

/// What a member of a protocol becomes. A member without a name or without a
/// type is a failure.
pub open spec fn member_item(m: FieldView) -> Result<EfiMemberView, ExtractError> {
    match m.name {
        None => Err(ExtractError::MissingNode),
        Some(name) => match m.typ {
            None => Err(ExtractError::MissingNode),
            Some(t) => if is_method_type(t) {
                match method_of(name, t, m.declaration) {
                    Ok(method) => Ok(EfiMemberView::Method(method)),
                    Err(e) => Err(e),
                }
            } else {
                match normalized(t) {
                    Ok(tag) => Ok(EfiMemberView::Field(EfiFieldView { name, typ: tag })),
                    Err(e) => Err(e),
                }
            },
        },
    }
}

/// What the members of a protocol become, one for one and in order, or the
/// failure of the first member that has one.
pub open spec fn member_items(members: Seq<FieldView>) -> Result<Seq<EfiMemberView>, ExtractError>
    decreases members.len(),
{
    if members.len() == 0 {
        Ok(Seq::empty())
    } else {
        match member_items(members.drop_last()) {
            Err(e) => Err(e),
            Ok(items) => match member_item(members.last()) {
                Ok(item) => Ok(items.push(item)),
                Err(e) => Err(e),
            },
        }
    }
}

/// The methods among the items, in order.
pub open spec fn methods_among(items: Seq<EfiMemberView>) -> Seq<EfiMethodView>
    decreases items.len(),
{
    if items.len() == 0 {
        Seq::empty()
    } else {
        match items.last() {
            EfiMemberView::Method(m) => methods_among(items.drop_last()).push(m),
            EfiMemberView::Field(_) => methods_among(items.drop_last()),
        }
    }
}

/// The data fields among the items, in order.
pub open spec fn fields_among(items: Seq<EfiMemberView>) -> Seq<EfiFieldView>
    decreases items.len(),
{
    if items.len() == 0 {
        Seq::empty()
    } else {
        match items.last() {
            EfiMemberView::Method(_) => fields_among(items.drop_last()),
            EfiMemberView::Field(f) => fields_among(items.drop_last()).push(f),
        }
    }
}

/// What a struct declaration yields: a protocol, nothing, or a failure.
///
/// A struct without a name, or whose name is not that of a protocol, yields
/// nothing. Otherwise its type must have a member list; the members become
/// the methods and the data fields of a protocol whose name is the struct's
/// without its first character.
pub open spec fn protocol_of(e: AstView) -> Result<Option<EfiProtocolView>, ExtractError> {
    match e.name {
        None => Ok(None),
        Some(name) => if !is_protocol_name(name) {
            Ok(None)
        } else {
            match e.typ {
                None => Err(ExtractError::MissingNode),
                Some(t) => match t.fields {
                    None => Err(ExtractError::MissingNode),
                    Some(members) => match member_items(members) {
                        Err(err) => Err(err),
                        Ok(items) => Ok(
                            Some(
                                EfiProtocolView {
                                    name: without_first(name),
                                    methods: methods_among(items),
                                    fields: fields_among(items),
                                },
                            ),
                        ),
                    },
                },
            }
        },
    }
}

/// The module after a struct declaration has been dealt with: one protocol
/// longer where the struct yields one, else unchanged.
pub open spec fn after_struct(m: EfiModuleView, e: AstView) -> EfiModuleView {
    match protocol_of(e) {
        Ok(Some(protocol)) => EfiModuleView {
            protocols: m.protocols.push(protocol),
            records: m.records,
        },
        _ => m,
    }
}

/// The failure of a prefix of the members is the failure of them all.
pub proof fn lemma_member_items_prefix_failure(members: Seq<FieldView>, n: int)
    requires
        0 <= n <= members.len(),
        member_items(members.take(n)) is Err,
    ensures
        member_items(members) == member_items(members.take(n)),
    decreases members.len(),
{
    if n == members.len() {
        assert(members.take(n) == members);
    } else {
        assert(members.drop_last().take(n) == members.take(n));
        lemma_member_items_prefix_failure(members.drop_last(), n);
    }
}

/// The items correspond to the members one for one and in order; a failure
/// is that of the first member that has one.
pub proof fn lemma_member_items_one_for_one(members: Seq<FieldView>)
    ensures
        match member_items(members) {
            Ok(items) => {
                &&& items.len() == members.len()
                &&& forall|i: int|
                    0 <= i < members.len() ==> member_item(#[trigger] members[i]) == Ok::<
                        EfiMemberView,
                        ExtractError,
                    >(items[i])
            },
            Err(e) => exists|i: int|
                {
                    &&& 0 <= i < members.len()
                    &&& member_item(#[trigger] members[i]) == Err::<EfiMemberView, ExtractError>(e)
                    &&& forall|j: int| 0 <= j < i ==> member_item(#[trigger] members[j]) is Ok
                },
        },
    decreases members.len(),
{
    if members.len() > 0 {
        let front = members.drop_last();
        let last = members.len() - 1;
        lemma_member_items_one_for_one(front);
        assert(forall|j: int| 0 <= j < last ==> members[j] == front[j]);
        match member_items(front) {
            Ok(items) => match member_item(members.last()) {
                Ok(item) => {
                    let all = items.push(item);
                    assert forall|i: int| 0 <= i < members.len() implies member_item(
                        #[trigger] members[i],
                    ) == Ok::<EfiMemberView, ExtractError>(all[i]) by {
                        if i < last {
                            assert(member_item(front[i]) == Ok::<EfiMemberView, ExtractError>(
                                items[i],
                            ));
                        }
                    }
                },
                Err(e) => {
                    assert forall|j: int| 0 <= j < last implies member_item(
                        #[trigger] members[j],
                    ) is Ok by {
                        assert(member_item(front[j]) is Ok);
                    }
                    assert(member_item(members[last]) == Err::<EfiMemberView, ExtractError>(e));
                },
            },
            Err(e) => {
                let i = choose|i: int|
                    {
                        &&& 0 <= i < front.len()
                        &&& member_item(#[trigger] front[i]) == Err::<EfiMemberView, ExtractError>(
                            e,
                        )
                        &&& forall|j: int| 0 <= j < i ==> member_item(#[trigger] front[j]) is Ok
                    };
                assert forall|j: int| 0 <= j < i implies member_item(#[trigger] members[j]) is Ok by {
                    assert(member_item(front[j]) is Ok);
                }
                assert(member_item(members[i]) == Err::<EfiMemberView, ExtractError>(e));
            },
        }
    }
}

/// The methods and the data fields together are as many as the items.
pub proof fn lemma_partition_sizes(items: Seq<EfiMemberView>)
    ensures
        methods_among(items).len() + fields_among(items).len() == items.len(),
    decreases items.len(),
{
    if items.len() > 0 {
        lemma_partition_sizes(items.drop_last());
    }
}

/// Every item stands in the list of its kind, at the place that the number
/// of items of that kind before it gives: each list keeps the order of the
/// items.
pub proof fn lemma_partition_places(items: Seq<EfiMemberView>, i: int)
    requires
        0 <= i < items.len(),
    ensures
        match items[i] {
            EfiMemberView::Method(m) => {
                let place = methods_among(items.take(i)).len() as int;
                place < methods_among(items).len() && methods_among(items)[place] == m
            },
            EfiMemberView::Field(f) => {
                let place = fields_among(items.take(i)).len() as int;
                place < fields_among(items).len() && fields_among(items)[place] == f
            },
        },
    decreases items.len(),
{
    let front = items.drop_last();
    if i == items.len() - 1 {
        assert(items.take(i) == front);
    } else {
        assert(front.take(i) == items.take(i));
        assert(front[i] == items[i]);
        lemma_partition_places(front, i);
    }
}

/// A protocol partitions the members of the struct that it comes from. Its
/// name is the struct's without the leading underscore. Each member becomes
/// one item, a method or a data field; the methods of the protocol are the
/// methods among the items and its fields the data fields among them, each
/// in the order of the members, so that the two lists together are as long as
/// the member list.
pub proof fn lemma_protocol_partitions_members(e: AstView, protocol: EfiProtocolView)
    requires
        protocol_of(e) == Ok::<Option<EfiProtocolView>, ExtractError>(Some(protocol)),
    ensures
        e.name is Some,
        is_protocol_name(e.name->0),
        e.name->0 == seq!['_'] + protocol.name,
        e.typ is Some,
        e.typ->0.fields is Some,
        member_items(e.typ->0.fields->0) is Ok,
        ({
            let members = e.typ->0.fields->0;
            let items = member_items(members)->Ok_0;
            &&& items.len() == members.len()
            &&& forall|i: int|
                0 <= i < members.len() ==> member_item(#[trigger] members[i]) == Ok::<
                    EfiMemberView,
                    ExtractError,
                >(items[i])
            &&& protocol.methods == methods_among(items)
            &&& protocol.fields == fields_among(items)
            &&& protocol.methods.len() + protocol.fields.len() == members.len()
            &&& forall|i: int|
                0 <= i < items.len() ==> match #[trigger] items[i] {
                    EfiMemberView::Method(m) => {
                        let place = methods_among(items.take(i)).len() as int;
                        place < protocol.methods.len() && protocol.methods[place] == m
                    },
                    EfiMemberView::Field(f) => {
                        let place = fields_among(items.take(i)).len() as int;
                        place < protocol.fields.len() && protocol.fields[place] == f
                    },
                }
        }),
{
    let members = e.typ->0.fields->0;
    let items = member_items(members)->Ok_0;
    lemma_member_items_one_for_one(members);
    lemma_partition_sizes(items);
    assert forall|i: int| 0 <= i < items.len() implies match #[trigger] items[i] {
        EfiMemberView::Method(m) => {
            let place = methods_among(items.take(i)).len() as int;
            place < protocol.methods.len() && protocol.methods[place] == m
        },
        EfiMemberView::Field(f) => {
            let place = fields_among(items.take(i)).len() as int;
            place < protocol.fields.len() && protocol.fields[place] == f
        },
    } by {
        lemma_partition_places(items, i);
    }
    reveal_strlit("_EFI");
    assert(e.name->0[0] == "_EFI"@.subrange(0, 4)[0]);
    assert(e.name->0 =~= seq!['_'] + protocol.name);
}

/// A struct that declares a protocol yields one where its type has a member
/// list and every member has an item to give.
pub proof fn lemma_qualifying_struct_yields_protocol(e: AstView)
    requires
        e.name is Some,
        is_protocol_name(e.name->0),
        e.typ is Some,
        e.typ->0.fields is Some,
        forall|i: int|
            0 <= i < e.typ->0.fields->0.len() ==> member_item(#[trigger] e.typ->0.fields->0[i]) is Ok,
    ensures
        protocol_of(e) matches Ok(Some(_)),
{
    lemma_member_items_one_for_one(e.typ->0.fields->0);
}

/// Whether no name in the tags of an item begins with an underscore.
pub open spec fn item_well_formed(item: EfiMemberView) -> bool {
    match item {
        EfiMemberView::Method(m) => m.well_formed(),
        EfiMemberView::Field(f) => f.well_formed(),
    }
}

/// No name in the tags of what a member becomes begins with an underscore.
pub proof fn lemma_member_item_well_formed(m: FieldView)
    ensures
        member_item(m) matches Ok(item) ==> item_well_formed(item),
{
    if let Ok(item) = member_item(m) {
        let t = m.typ->0;
        if is_method_type(t) {
            lemma_signature_well_formed(
                *t.dealiased().pointee->0,
                parameter_names(naming_declaration(t, m.declaration)->0),
            );
        } else {
            lemma_normalized_well_formed(t);
        }
    }
}

/// Methods and data fields of well-formed items are well-formed.
pub proof fn lemma_partition_well_formed(items: Seq<EfiMemberView>)
    requires
        forall|i: int| 0 <= i < items.len() ==> item_well_formed(#[trigger] items[i]),
    ensures
        forall|i: int|
            0 <= i < methods_among(items).len() ==> (#[trigger] methods_among(
                items,
            )[i]).well_formed(),
        fields_well_formed(fields_among(items)),
    decreases items.len(),
{
    if items.len() > 0 {
        let front = items.drop_last();
        assert forall|i: int| 0 <= i < front.len() implies item_well_formed(#[trigger] front[i]) by {
            assert(item_well_formed(items[i]));
        }
        lemma_partition_well_formed(front);
        assert(item_well_formed(items[items.len() - 1]));
        let methods = methods_among(items);
        assert forall|i: int| 0 <= i < methods.len() implies (#[trigger] methods[i]).well_formed() by {
            if i < methods_among(front).len() {
                assert(methods_among(front)[i].well_formed());
            }
        }
        let fields = fields_among(items);
        assert forall|i: int| 0 <= i < fields.len() implies (#[trigger] fields[i]).well_formed() by {
            if i < fields_among(front).len() {
                assert(fields_among(front)[i].well_formed());
            }
        }
    }
}

/// No name in the tags of a protocol that a struct yields begins with an
/// underscore.
pub proof fn lemma_protocol_well_formed(e: AstView)
    ensures
        protocol_of(e) matches Ok(Some(protocol)) ==> protocol.well_formed(),
{
    if let Ok(Some(protocol)) = protocol_of(e) {
        let members = e.typ->0.fields->0;
        let items = member_items(members)->Ok_0;
        lemma_member_items_one_for_one(members);
        assert forall|i: int| 0 <= i < items.len() implies item_well_formed(#[trigger] items[i]) by {
            lemma_member_item_well_formed(members[i]);
        }
        lemma_partition_well_formed(items);
    }
}

/// A struct declaration keeps a module free of names that begin with an
/// underscore.
pub proof fn lemma_after_struct_well_formed(m: EfiModuleView, e: AstView)
    requires
        m.well_formed(),
    ensures
        after_struct(m, e).well_formed(),
{
    lemma_protocol_well_formed(e);
    let after = after_struct(m, e);
    assert forall|i: int| 0 <= i < after.protocols.len() implies (
    #[trigger] after.protocols[i]).well_formed() by {
        if i < m.protocols.len() {
            assert(m.protocols[i].well_formed());
        }
    }
}

/// Whether `e` is a struct that declares a protocol and whose type has at
/// the place `i` a member without a name, without a type, or with nothing to
/// become: a type without a tag, or a method that cannot be made out.
pub open spec fn struct_has_bad_member(e: AstView, i: int) -> bool {
    &&& e.name is Some
    &&& is_protocol_name(e.name->0)
    &&& e.typ is Some
    &&& e.typ->0.fields is Some
    &&& 0 <= i < e.typ->0.fields->0.len()
    &&& {
        let member = e.typ->0.fields->0[i];
        member.name is None || member.typ is None || member_item(member) is Err
    }
}

/// One bad member fails the struct: no protocol comes with a member left out
/// or made up.
pub proof fn lemma_member_failure_fails_struct(e: AstView, i: int)
    requires
        struct_has_bad_member(e, i),
    ensures
        protocol_of(e) is Err,
{
    lemma_member_items_one_for_one(e.typ->0.fields->0);
    assert(member_item(e.typ->0.fields->0[i]) is Err);
}

/// Whether a member of this type is a method.
pub fn is_method(typ: &TypeNode) -> (found: bool)
    ensures
        found == is_method_type(typ@),
{
    let is_prototype = |target: &&Box<TypeNode>| -> (yes: bool)
        ensures
            yes == ((***target)@.kind == TypeKind::FunctionPrototype),
        {
            let prototype: &TypeNode = &***target;
            assert(prototype@.kind == prototype.kind);
            prototype.kind == TypeKind::FunctionPrototype
        };
    and_check(typ.dealiased().pointee.as_ref(), is_prototype).is_some()
}

/// The method that a member of the given type yields under the given name;
/// `own` is the member's own declaration.
pub fn method_of_member(name: String, typ: &TypeNode, own: Option<&DeclNode>) -> (outcome: Result<
    EfiMethod,
    ExtractError,
>)
    ensures
        match outcome {
            Ok(method) => method_of(name@, typ@, declaration_view(own)) == Ok::<
                EfiMethodView,
                ExtractError,
            >(method@),
            Err(e) => method_of(name@, typ@, declaration_view(own)) == Err::<
                EfiMethodView,
                ExtractError,
            >(e),
        },
{
    let prototype: &TypeNode = match &typ.dealiased().pointee {
        Some(target) => &**target,
        None => {
            return Err(ExtractError::MissingNode);
        },
    };
    let decl: &DeclNode = match &typ.declaration {
        Some(d) => d,
        None => match own {
            Some(d) => d,
            None => {
                return Err(ExtractError::MissingNode);
            },
        },
    };
    let mut method = match to_efi_method(prototype) {
        Err(e) => {
            return Err(e);
        },
        Ok(m) => m,
    };
    match process_method_args(decl, &mut method.args) {
        Err(e) => {
            return Err(e);
        },
        Ok(()) => {},
    }
    method.name = name;
    Ok(method)
}

/// What a member of a protocol becomes.
pub fn item_of_member(member: &FieldNode) -> (outcome: Result<EfiMember, ExtractError>)
    ensures
        match outcome {
            Ok(item) => member_item(member@) == Ok::<EfiMemberView, ExtractError>(item@),
            Err(e) => member_item(member@) == Err::<EfiMemberView, ExtractError>(e),
        },
{
    let name = match &member.name {
        None => {
            return Err(ExtractError::MissingNode);
        },
        Some(n) => n.clone(),
    };
    let typ = match &member.typ {
        None => {
            return Err(ExtractError::MissingNode);
        },
        Some(t) => t,
    };
    if is_method(typ) {
        match method_of_member(name, typ, member.declaration.as_ref()) {
            Ok(method) => Ok(EfiMember::Method(method)),
            Err(e) => Err(e),
        }
    } else {
        match to_efi_type(typ) {
            Ok(tag) => Ok(EfiMember::Field(EfiField { name, typ: tag })),
            Err(e) => Err(e),
        }
    }
}

/// Deals with a struct declaration: where it yields a protocol, the protocol
/// is added to the module after those that are there.
pub fn process_struct(entity: &AstNode, module: &mut EfiModule) -> (outcome: Result<(), ExtractError>)
    ensures
        outcome == (match protocol_of(entity@) {
            Ok(_) => Ok(()),
            Err(e) => Err(e),
        }),
        final(module)@ == after_struct(old(module)@, entity@),
        old(module)@.well_formed() ==> final(module)@.well_formed(),
{
    proof {
        if module@.well_formed() {
            lemma_after_struct_well_formed(module@, entity@);
        }
    }
    let names_protocol = |n: &&String| -> (yes: bool)
        ensures
            yes == is_protocol_name(n@),
        {
            starts_with(n.as_str(), "_EFI") && ends_with(n.as_str(), "PROTOCOL")
        };
    let name = match and_check(entity.name.as_ref(), names_protocol) {
        None => {
            return Ok(());
        },
        Some(n) => n,
    };
    proof {
        reveal_strlit("_EFI");
    }
    let mut protocol = EfiProtocol {
        name: drop_first_char(name.as_str()),
        methods: Vec::new(),
        fields: Vec::new(),
    };
    let members = match &entity.typ {
        None => {
            return Err(ExtractError::MissingNode);
        },
        Some(t) => match &t.fields {
            None => {
                return Err(ExtractError::MissingNode);
            },
            Some(list) => list,
        },
    };
    let ghost views = member_views(members@);
    let ghost items: Seq<EfiMemberView> = Seq::empty();
    let mut i: usize = 0;
    assert(method_views(protocol.methods@) == Seq::<EfiMethodView>::empty());
    assert(field_views(protocol.fields@) == Seq::<EfiFieldView>::empty());
    while i < members.len()
        invariant
            i <= members.len(),
            views == member_views(members@),
            protocol.name@ == without_first(entity@.name->0),
            member_items(views.take(i as int)) == Ok::<Seq<EfiMemberView>, ExtractError>(items),
            method_views(protocol.methods@) == methods_among(items),
            field_views(protocol.fields@) == fields_among(items),
            entity@.name is Some,
            is_protocol_name(entity@.name->0),
            entity@.typ is Some,
            entity@.typ->0.fields == Some(views),
            *module == *old(module),
        decreases members.len() - i,
    {
        proof {
            lemma_member_views(members@);
            assert(views.take(i + 1).drop_last() == views.take(i as int));
        }
        match item_of_member(&members[i]) {
            Err(e) => {
                proof {
                    lemma_member_items_prefix_failure(views, i + 1);
                }
                return Err(e);
            },
            Ok(EfiMember::Method(method)) => {
                proof {
                    let item = EfiMemberView::Method(method@);
                    assert(items.push(item).drop_last() == items);
                    assert(method_views(protocol.methods@.push(method)) == method_views(
                        protocol.methods@,
                    ).push(method@));
                    items = items.push(item);
                }
                protocol.methods.push(method);
            },
            Ok(EfiMember::Field(field)) => {
                proof {
                    let item = EfiMemberView::Field(field@);
                    assert(items.push(item).drop_last() == items);
                    assert(field_views(protocol.fields@.push(field)) == field_views(
                        protocol.fields@,
                    ).push(field@));
                    items = items.push(item);
                }
                protocol.fields.push(field);
            },
        }
        i += 1;
    }
    proof {
        lemma_member_views(members@);
        assert(views.take(i as int) == views);
        assert(protocol_of(entity@) == Ok::<Option<EfiProtocolView>, ExtractError>(Some(protocol@)));
        let before = module.protocols@;
        assert(protocol_views(before.push(protocol)) == protocol_views(before).push(protocol@));
    }
    module.protocols.push(protocol);
    Ok(())
}

} // verus!
