//! Methods: the arguments of a function prototype, with the direction and
//! optionality that marker parameters give them, and their names from the
//! declaration behind the member.

use crate::ast::{
    decl_views, lemma_decl_views, lemma_type_views, type_views, DeclNode, DeclView, NodeKind,
    TypeNode, TypeView,
};
use crate::error::ExtractError;
use crate::normalize::{lemma_normalized_well_formed, normalized, to_efi_type};
use crate::option_ext::and_check;
use crate::text::same_text;
use crate::types::{
    arg_views, EfiArg, EfiArgDir, EfiArgView, EfiMethod, EfiMethodView, EfiTypeView,
};
use vstd::prelude::*;

verus! {

/// The name by which a parameter's type is recognized as a marker: that of
/// the declaration behind its dealiased type.
pub open spec fn marker_name(t: TypeView) -> Option<Seq<char>> {
    t.dealiased().declared_name()
}

/// The direction that a parameter's type announces, if it is one of the two
/// direction markers.
pub open spec fn direction_marker(t: TypeView) -> Option<EfiArgDir> {
    match marker_name(t) {
        Some(name) => if name == "efi_arg_in"@ {
            Some(EfiArgDir::In)
        } else if name == "efi_arg_out"@ {
            Some(EfiArgDir::Out)
        } else {
            None
        },
        None => None,
    }
}

/// Whether a parameter's type is the marker that makes the argument before
/// it optional.
pub open spec fn is_optional_marker(t: TypeView) -> bool {
    marker_name(t) == Some("efi_arg_optional"@)
}

/// What a parameter of a prototype stands for.
pub enum ParameterClass {
    /// A marker that sets the direction of the arguments after it.
    Direction(EfiArgDir),
    /// A marker that makes the argument before it optional.
    Optional,
    /// An argument.
    Real,
}

/// What a parameter of this type stands for. The direction markers are
/// looked for first.
pub open spec fn classify(t: TypeView) -> ParameterClass {
    match direction_marker(t) {
        Some(dir) => ParameterClass::Direction(dir),
        None => if is_optional_marker(t) {
            ParameterClass::Optional
        } else {
            ParameterClass::Real
        },
    }
}

/// The direction in force after the parameters: that of the last direction
/// marker among them, and `In` where there is none.
pub open spec fn direction_after(params: Seq<TypeView>) -> EfiArgDir
    decreases params.len(),
{
    if params.len() == 0 {
        EfiArgDir::In
    } else {
        match direction_marker(params.last()) {
            Some(dir) => dir,
            None => direction_after(params.drop_last()),
        }
    }
}

/// The arguments with the last of them made optional; no argument, no change.
pub open spec fn with_last_optional(args: Seq<EfiArgView>) -> Seq<EfiArgView> {
    if args.len() == 0 {
        args
    } else {
        args.update(
            args.len() - 1,
            EfiArgView {
                name: args.last().name,
                typ: args.last().typ,
                dir: args.last().dir,
                optional: true,
            },
        )
    }
}

/// The argument that a parameter yields after the parameters `before` it.
pub open spec fn unnamed_arg(before: Seq<TypeView>, tag: EfiTypeView) -> EfiArgView {
    EfiArgView { name: Seq::empty(), typ: tag, dir: direction_after(before), optional: false }
}

/// The arguments that a parameter list yields, still without names, or the
/// failure of the first parameter whose type has no tag.
///
/// A direction marker yields nothing and sets the direction of what follows.
/// An optional marker yields nothing and makes the last argument so far
/// optional. Every other parameter yields one argument, in the direction in
/// force.
pub open spec fn collected_args(params: Seq<TypeView>) -> Result<Seq<EfiArgView>, ExtractError>
    decreases params.len(),
{
    if params.len() == 0 {
        Ok(Seq::empty())
    } else {
        match collected_args(params.drop_last()) {
            Err(e) => Err(e),
            Ok(args) => match classify(params.last()) {
                ParameterClass::Direction(_) => Ok(args),
                ParameterClass::Optional => Ok(with_last_optional(args)),
                ParameterClass::Real => match normalized(params.last()) {
                    Ok(tag) => Ok(args.push(unnamed_arg(params.drop_last(), tag))),
                    Err(e) => Err(e),
                },
            },
        }
    }
}

/// The method that a function prototype describes, still without a name and
/// without argument names. A prototype without a result or without a
/// parameter list is a failure; the parameters are dealt with before the
/// result.
pub open spec fn signature(t: TypeView) -> Result<EfiMethodView, ExtractError> {
    match t.result {
        None => Err(ExtractError::MissingNode),
        Some(result) => match t.arguments {
            None => Err(ExtractError::MissingNode),
            Some(params) => match collected_args(params) {
                Err(e) => Err(e),
                Ok(args) => match normalized(*result) {
                    Err(e) => Err(e),
                    Ok(tag) => Ok(EfiMethodView { name: Seq::empty(), typ: tag, args }),
                },
            },
        },
    }
}

/// The name that a node itself contributes: its own where it is a named
/// parameter declaration.
pub open spec fn own_parameter_name(d: DeclView) -> Seq<Seq<char>> {
    if d.kind == NodeKind::ParmDecl && d.name is Some {
        seq![d.name->0]
    } else {
        Seq::empty()
    }
}

/// The names of the named parameter declarations at and below a node, in
/// source order: a node before the nodes below it, these from first to last.
pub open spec fn parameter_names(d: DeclView) -> Seq<Seq<char>>
    decreases d,
{
    own_parameter_name(d) + parameter_names_below(d.children)
}

/// The names of the named parameter declarations at and below the nodes of a
/// list, in source order.
pub open spec fn parameter_names_below(nodes: Seq<DeclView>) -> Seq<Seq<char>>
    decreases nodes,
{
    if nodes.len() == 0 {
        Seq::empty()
    } else {
        parameter_names_below(nodes.drop_last()) + parameter_names(nodes.last())
    }
}

/// The arguments under the names given: the first name for the first
/// argument and so on, the arguments past the names unchanged. More names
/// than arguments is a failure.
pub open spec fn named_args(args: Seq<EfiArgView>, names: Seq<Seq<char>>) -> Result<
    Seq<EfiArgView>,
    ExtractError,
> {
    if names.len() > args.len() {
        Err(ExtractError::StructuralMismatch)
    } else {
        Ok(
            Seq::new(
                args.len(),
                |i: int|
                    if i < names.len() {
                        EfiArgView {
                            name: names[i],
                            typ: args[i].typ,
                            dir: args[i].dir,
                            optional: args[i].optional,
                        }
                    } else {
                        args[i]
                    },
            ),
        )
    }
}

/// The characters of each string of a list.
pub open spec fn texts(names: Seq<String>) -> Seq<Seq<char>> {
    names.map_values(|s: String| s@)
}

/// The failure of a prefix of the parameters is the failure of them all.
pub proof fn lemma_collected_args_prefix_failure(params: Seq<TypeView>, n: int)
    requires
        0 <= n <= params.len(),
        collected_args(params.take(n)) is Err,
    ensures
        collected_args(params) == collected_args(params.take(n)),
    decreases params.len(),
{
    if n == params.len() {
        assert(params.take(n) == params);
    } else {
        assert(params.drop_last().take(n) == params.take(n));
        lemma_collected_args_prefix_failure(params.drop_last(), n);
    }
}

/// How many of the parameters stand for arguments.
pub open spec fn real_arguments(params: Seq<TypeView>) -> nat
    decreases params.len(),
{
    if params.len() == 0 {
        0
    } else if classify(params.last()) is Real {
        real_arguments(params.drop_last()) + 1
    } else {
        real_arguments(params.drop_last())
    }
}

/// How many of the parameters are direction markers.
pub open spec fn direction_markers(params: Seq<TypeView>) -> nat
    decreases params.len(),
{
    if params.len() == 0 {
        0
    } else if classify(params.last()) is Direction {
        direction_markers(params.drop_last()) + 1
    } else {
        direction_markers(params.drop_last())
    }
}

/// How many of the parameters are optional markers.
pub open spec fn optional_markers(params: Seq<TypeView>) -> nat
    decreases params.len(),
{
    if params.len() == 0 {
        0
    } else if classify(params.last()) is Optional {
        optional_markers(params.drop_last()) + 1
    } else {
        optional_markers(params.drop_last())
    }
}

/// Whether the parameter at `i` is followed by an optional marker with no
/// argument between the two.
pub open spec fn marked_optional(params: Seq<TypeView>, i: int) -> bool {
    exists|j: int|
        {
            &&& i < j < params.len()
            &&& classify(#[trigger] params[j]) is Optional
            &&& forall|m: int| i < m < j ==> !(classify(#[trigger] params[m]) is Real)
        }
}

/// The direction in force is `In` where no direction marker stands among the
/// parameters, and else that of the last direction marker among them.
pub proof fn lemma_direction_is_sticky(params: Seq<TypeView>)
    ensures
        (forall|j: int| 0 <= j < params.len() ==> direction_marker(#[trigger] params[j]) is None)
            ==> direction_after(params) == EfiArgDir::In,
        forall|j: int|
            {
                &&& 0 <= j < params.len()
                &&& direction_marker(#[trigger] params[j]) is Some
                &&& forall|m: int|
                    j < m < params.len() ==> direction_marker(#[trigger] params[m]) is None
            } ==> direction_after(params) == direction_marker(params[j])->0,
    decreases params.len(),
{
    if params.len() > 0 {
        let front = params.drop_last();
        let last = params.len() - 1;
        lemma_direction_is_sticky(front);
        assert(forall|j: int| 0 <= j < last ==> params[j] == front[j]);
        if direction_marker(params.last()) is None {
            assert forall|j: int|
                {
                    &&& 0 <= j < params.len()
                    &&& direction_marker(#[trigger] params[j]) is Some
                    &&& forall|m: int|
                        j < m < params.len() ==> direction_marker(#[trigger] params[m]) is None
                } implies direction_after(params) == direction_marker(params[j])->0 by {
                assert(direction_marker(front[j]) is Some);
                assert forall|m: int| j < m < front.len() implies direction_marker(
                    #[trigger] front[m],
                ) is None by {
                    assert(direction_marker(params[m]) is None);
                }
            }
            if forall|j: int|
                0 <= j < params.len() ==> direction_marker(#[trigger] params[j]) is None {
                assert forall|j: int| 0 <= j < front.len() implies direction_marker(
                    #[trigger] front[j],
                ) is None by {
                    assert(direction_marker(params[j]) is None);
                }
            }
        } else {
            assert(direction_marker(params[last]) is Some);
        }
    }
}

/// Every parameter is an argument, a direction marker or an optional marker,
/// and the arguments gathered are as many as the parameters that stand for
/// one: each marker takes one entry away from the list.
pub proof fn lemma_argument_count(params: Seq<TypeView>)
    ensures
        real_arguments(params) + direction_markers(params) + optional_markers(params)
            == params.len(),
        collected_args(params) matches Ok(args) ==> args.len() == real_arguments(params),
    decreases params.len(),
{
    if params.len() > 0 {
        lemma_argument_count(params.drop_last());
    }
}

/// Whether no parameter from the place `n` on stands for an argument.
pub open spec fn no_argument_from(params: Seq<TypeView>, n: int) -> bool {
    forall|m: int| n <= m < params.len() ==> !(classify(#[trigger] params[m]) is Real)
}

/// A prefix of the parameters holds as many arguments as they all do exactly
/// where no argument stands past the prefix, and fewer otherwise.
pub proof fn lemma_real_arguments_past(params: Seq<TypeView>, n: int)
    requires
        0 <= n <= params.len(),
    ensures
        real_arguments(params.take(n)) <= real_arguments(params),
        real_arguments(params.take(n)) == real_arguments(params) <==> no_argument_from(params, n),
    decreases params.len(),
{
    if n == params.len() {
        assert(params.take(n) == params);
    } else {
        let front = params.drop_last();
        let last = params.len() - 1;
        assert(front.take(n) == params.take(n));
        lemma_real_arguments_past(front, n);
        assert(forall|m: int| 0 <= m < last ==> params[m] == front[m]);
        if classify(params.last()) is Real {
            assert(classify(params[last]) is Real);
        } else {
            if no_argument_from(front, n) {
                assert forall|m: int| n <= m < params.len() implies !(classify(
                    #[trigger] params[m],
                ) is Real) by {
                    if m < last {
                        assert(!(classify(front[m]) is Real));
                    }
                }
            }
            if no_argument_from(params, n) {
                assert forall|m: int| n <= m < front.len() implies !(classify(
                    #[trigger] front[m],
                ) is Real) by {
                    assert(!(classify(params[m]) is Real));
                }
            }
        }
    }
}

/// With one more parameter at the end, an argument is marked optional where
/// it was so before, or where the new parameter is an optional marker and no
/// argument stands between the two.
pub proof fn lemma_marked_optional_step(params: Seq<TypeView>, i: int)
    requires
        0 <= i < params.len() - 1,
    ensures
        marked_optional(params, i) <==> marked_optional(params.drop_last(), i) || (classify(
            params.last(),
        ) is Optional && no_argument_from(params.drop_last(), i + 1)),
{
    let front = params.drop_last();
    let last = params.len() - 1;
    assert(forall|m: int| 0 <= m < last ==> params[m] == front[m]);
    if marked_optional(front, i) {
        let j = choose|j: int|
            {
                &&& i < j < front.len()
                &&& classify(#[trigger] front[j]) is Optional
                &&& forall|m: int| i < m < j ==> !(classify(#[trigger] front[m]) is Real)
            };
        assert(classify(params[j]) is Optional);
        assert forall|m: int| i < m < j implies !(classify(#[trigger] params[m]) is Real) by {
            assert(!(classify(front[m]) is Real));
        }
    }
    if classify(params.last()) is Optional && no_argument_from(front, i + 1) {
        assert(classify(params[last]) is Optional);
        assert forall|m: int| i < m < last implies !(classify(#[trigger] params[m]) is Real) by {
            assert(!(classify(front[m]) is Real));
        }
    }
    if marked_optional(params, i) {
        let j = choose|j: int|
            {
                &&& i < j < params.len()
                &&& classify(#[trigger] params[j]) is Optional
                &&& forall|m: int| i < m < j ==> !(classify(#[trigger] params[m]) is Real)
            };
        if j == last {
            assert forall|m: int| i + 1 <= m < front.len() implies !(classify(
                #[trigger] front[m],
            ) is Real) by {
                assert(!(classify(params[m]) is Real));
            }
        } else {
            assert(classify(front[j]) is Optional);
            assert forall|m: int| i < m < j implies !(classify(#[trigger] front[m]) is Real) by {
                assert(!(classify(params[m]) is Real));
            }
        }
    }
}

/// The argument that a parameter yields: a parameter that stands for an
/// argument yields the entry whose place is the number of such parameters
/// before it. The entry has no name yet, carries the tag of the parameter's
/// type and the direction in force before the parameter, and is optional
/// exactly where an optional marker follows with no argument between.
pub proof fn lemma_argument_of_parameter(params: Seq<TypeView>, i: int)
    requires
        collected_args(params) is Ok,
        0 <= i < params.len(),
        classify(params[i]) is Real,
    ensures
        ({
            let args = collected_args(params)->Ok_0;
            let place = real_arguments(params.take(i)) as int;
            &&& place < args.len()
            &&& args[place].name == Seq::<char>::empty()
            &&& normalized(params[i]) == Ok::<EfiTypeView, ExtractError>(
                args[place].typ,
            )
            &&& args[place].dir == direction_after(params.take(i))
            &&& args[place].optional == marked_optional(params, i)
        }),
    decreases params.len(),
{
    let front = params.drop_last();
    let last = params.len() - 1;
    lemma_argument_count(params);
    lemma_argument_count(front);
    if i == last {
        assert(params.take(i) == front);
        assert(!marked_optional(params, i));
    } else {
        assert(front[i] == params[i]);
        assert(front.take(i) == params.take(i));
        assert(front.take(i + 1).drop_last() == front.take(i));
        assert(front.take(i + 1).last() == front[i]);
        lemma_argument_of_parameter(front, i);
        lemma_real_arguments_past(front, i + 1);
        lemma_marked_optional_step(params, i);
    }
}

/// No name in the tags of the arguments gathered begins with an underscore.
pub proof fn lemma_collected_args_well_formed(params: Seq<TypeView>)
    ensures
        collected_args(params) matches Ok(args) ==> forall|i: int|
            0 <= i < args.len() ==> (#[trigger] args[i]).well_formed(),
    decreases params.len(),
{
    if params.len() > 0 {
        lemma_collected_args_well_formed(params.drop_last());
        lemma_normalized_well_formed(params.last());
    }
}

/// No name in the tags of a signature begins with an underscore, and names
/// given to its arguments leave it so.
pub proof fn lemma_signature_well_formed(t: TypeView, names: Seq<Seq<char>>)
    ensures
        signature(t) matches Ok(method) ==> {
            &&& method.well_formed()
            &&& named_args(method.args, names) matches Ok(args) ==> forall|i: int|
                0 <= i < args.len() ==> (#[trigger] args[i]).well_formed()
        },
{
    if let Ok(method) = signature(t) {
        lemma_collected_args_well_formed(t.arguments->0);
        lemma_normalized_well_formed(*t.result->0);
        if let Ok(args) = named_args(method.args, names) {
            assert forall|i: int| 0 <= i < args.len() implies (#[trigger] args[i]).well_formed() by {
                assert(method.args[i].well_formed());
            }
        }
    }
}

/// An optional marker right after an argument makes that argument optional
/// and adds no entry: the list is as long as without the marker, and differs
/// from it in the last entry's flag alone.
pub proof fn lemma_optional_marker_marks_last(params: Seq<TypeView>, marker: TypeView)
    requires
        params.len() > 0,
        classify(params.last()) is Real,
        classify(marker) is Optional,
        collected_args(params) is Ok,
    ensures
        ({
            let before = collected_args(params)->Ok_0;
            let after = collected_args(params.push(marker));
            &&& after is Ok
            &&& after->Ok_0.len() == before.len()
            &&& before.len() > 0
            &&& after->Ok_0 == with_last_optional(before)
            &&& after->Ok_0.last().optional
            &&& after->Ok_0.last().typ == before.last().typ
            &&& normalized(params.last()) == Ok::<EfiTypeView, ExtractError>(
                before.last().typ,
            )
        }),
{
    assert(params.push(marker).drop_last() == params);
    assert(params.push(marker).last() == marker);
}

/// The direction that a parameter's type announces, if it is a direction
/// marker.
pub fn to_efi_argdir(typ: &TypeNode) -> (dir: Option<EfiArgDir>)
    ensures
        dir == direction_marker(typ@),
{
    match &typ.dealiased().declaration {
        None => None,
        Some(decl) => match &decl.name {
            None => None,
            Some(name) => if same_text(name.as_str(), "efi_arg_in") {
                Some(EfiArgDir::In)
            } else if same_text(name.as_str(), "efi_arg_out") {
                Some(EfiArgDir::Out)
            } else {
                None
            },
        },
    }
}

/// Whether a parameter's type is the optional marker.
pub fn to_efi_argopt(typ: &TypeNode) -> (optional: bool)
    ensures
        optional == is_optional_marker(typ@),
{
    let name: Option<&String> = match &typ.dealiased().declaration {
        None => None,
        Some(decl) => decl.name.as_ref(),
    };
    let is_marker = |n: &&String| -> (same: bool)
        ensures
            same == (n@ == "efi_arg_optional"@),
        {
            same_text(n.as_str(), "efi_arg_optional")
        };
    and_check(name, is_marker).is_some()
}

/// The method that a function prototype describes, without a name and without
/// argument names.
pub fn to_efi_method(typ: &TypeNode) -> (outcome: Result<EfiMethod, ExtractError>)
    ensures
        match outcome {
            Ok(method) => signature(typ@) == Ok::<EfiMethodView, ExtractError>(method@),
            Err(e) => signature(typ@) == Err::<EfiMethodView, ExtractError>(e),
        },
        outcome matches Ok(method) ==> method@.well_formed(),
{
    proof {
        lemma_signature_well_formed(typ@, Seq::empty());
    }
    let result = match &typ.result {
        None => {
            return Err(ExtractError::MissingNode);
        },
        Some(t) => &**t,
    };
    let params = match &typ.arguments {
        None => {
            return Err(ExtractError::MissingNode);
        },
        Some(list) => list,
    };
    let ghost views = type_views(params@);
    let mut args: Vec<EfiArg> = Vec::new();
    let mut dir = EfiArgDir::In;
    let mut i: usize = 0;
    assert(arg_views(args@) == Seq::<EfiArgView>::empty());
    while i < params.len()
        invariant
            i <= params.len(),
            views == type_views(params@),
            typ@.arguments == Some(views),
            typ@.result is Some,
            dir == direction_after(views.take(i as int)),
            collected_args(views.take(i as int)) == Ok::<Seq<EfiArgView>, ExtractError>(
                arg_views(args@),
            ),
        decreases params.len() - i,
    {
        let param = &params[i];
        proof {
            lemma_type_views(params@);
            assert(views.take(i + 1).drop_last() == views.take(i as int));
            assert(views.take(i + 1).last() == param@);
        }
        if let Some(new_dir) = to_efi_argdir(param) {
            dir = new_dir;
        } else if to_efi_argopt(param) {
            let n = args.len();
            if n > 0 {
                let ghost before = args@;
                args[n - 1].optional = true;
                assert(arg_views(args@) == with_last_optional(arg_views(before)));
            }
        } else {
            match to_efi_type(param) {
                Ok(tag) => {
                    let arg = EfiArg { name: String::new(), typ: tag, dir, optional: false };
                    assert(arg_views(args@.push(arg)) == arg_views(args@).push(arg@));
                    args.push(arg);
                },
                Err(e) => {
                    proof {
                        lemma_collected_args_prefix_failure(views, i + 1);
                    }
                    return Err(e);
                },
            }
        }
        i += 1;
    }
    proof {
        lemma_type_views(params@);
        assert(views.take(i as int) == views);
    }
    match to_efi_type(result) {
        Ok(tag) => Ok(EfiMethod { name: String::new(), typ: tag, args }),
        Err(e) => Err(e),
    }
}

/// Gathers the names of the named parameter declarations at and below a
/// node, in source order, after the names that are there.
pub fn collect_parameter_names(decl: &DeclNode, names: &mut Vec<String>)
    ensures
        texts(final(names)@) == texts(old(names)@) + parameter_names(decl@),
    decreases decl,
{
    let ghost before = texts(names@);
    if decl.kind == NodeKind::ParmDecl {
        if let Some(name) = &decl.name {
            let copy = name.clone();
            assert(texts(names@.push(copy)) == texts(names@).push(copy@));
            names.push(copy);
        }
    }
    assert(texts(names@) == before + own_parameter_name(decl@));
    let ghost below = decl_views(decl.children@);
    let mut i: usize = 0;
    while i < decl.children.len()
        invariant
            i <= decl.children.len(),
            below == decl_views(decl.children@),
            texts(names@) == before + own_parameter_name(decl@) + parameter_names_below(
                below.take(i as int),
            ),
        decreases decl.children.len() - i,
    {
        proof {
            lemma_decl_views(decl.children@);
            assert(below.take(i + 1).drop_last() == below.take(i as int));
        }
        collect_parameter_names(&decl.children[i], names);
        i += 1;
    }
    proof {
        lemma_decl_views(decl.children@);
        assert(below.take(i as int) == below);
    }
}

/// Gives the arguments the names of the parameter declarations at and below
/// `decl`, in order. Where there are more names than arguments this fails and
/// leaves the arguments as they were.
pub fn process_method_args(decl: &DeclNode, args: &mut Vec<EfiArg>) -> (outcome: Result<
    (),
    ExtractError,
>)
    ensures
        match named_args(arg_views(old(args)@), parameter_names(decl@)) {
            Ok(named) => outcome is Ok && arg_views(final(args)@) == named,
            Err(e) => outcome == Err::<(), ExtractError>(e) && arg_views(final(args)@)
                == arg_views(old(args)@),
        },
{
    let mut names: Vec<String> = Vec::new();
    assert(texts(names@) == Seq::<Seq<char>>::empty());
    collect_parameter_names(decl, &mut names);
    assert(texts(names@) == parameter_names(decl@));
    if names.len() > args.len() {
        return Err(ExtractError::StructuralMismatch);
    }
    let ghost before = arg_views(args@);
    let mut i: usize = 0;
    while i < names.len()
        invariant
            i <= names.len() <= args.len(),
            args.len() == before.len(),
            forall|k: int|
                0 <= k < i ==> #[trigger] arg_views(args@)[k] == (EfiArgView {
                    name: names@[k]@,
                    typ: before[k].typ,
                    dir: before[k].dir,
                    optional: before[k].optional,
                }),
            forall|k: int| i <= k < args.len() ==> #[trigger] arg_views(args@)[k] == before[k],
        decreases names.len() - i,
    {
        let ghost prev = args@;
        let name = names[i].clone();
        args[i].name = name;
        proof {
            assert(args@.len() == prev.len());
            assert(args@[i as int].name@ == names@[i as int]@);
            assert(args@[i as int].typ == prev[i as int].typ);
            assert(forall|k: int| 0 <= k < prev.len() && k != i ==> args@[k] == prev[k]);
            assert forall|k: int| 0 <= k < prev.len() implies #[trigger] arg_views(args@)[k] == (
            if k == i {
                EfiArgView {
                    name: names@[k]@,
                    typ: before[k].typ,
                    dir: before[k].dir,
                    optional: before[k].optional,
                }
            } else {
                arg_views(prev)[k]
            }) by {}
        }
        i += 1;
    }
    assert(arg_views(args@) == named_args(before, texts(names@))->Ok_0);
    Ok(())
}

} // verus!
