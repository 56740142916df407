//! The walk over the syntax tree that gathers the module.

use crate::ast::{ast_views, lemma_ast_views, AstNode, AstView, NodeKind};
use crate::error::ExtractError;
use crate::option_ext::and_check;
use crate::protocol::{
    after_struct, lemma_after_struct_well_formed, lemma_member_failure_fails_struct,
    process_struct, protocol_of, struct_has_bad_member,
};
use crate::record::{
    after_typedef, lemma_after_typedef_well_formed, lemma_member_failure_fails_typedef,
    process_typedef, record_of, typedef_has_bad_member,
};
use crate::text::same_text;
use crate::types::{EfiModule, EfiModuleView};
use vstd::prelude::*;

verus! {

/// Where a walk of the syntax tree stands: what it has gathered, and the
/// failure that ended it, if one did.
pub struct Walk {
    pub module: EfiModuleView,
    pub failure: Option<ExtractError>,
}

/// Whether a node is located in the header.
pub open spec fn in_header(e: AstView, header: Seq<char>) -> bool {
    e.file == Some(header)
}

/// Whether the walk hands a node to an extractor: the node is located in the
/// header and declares a typedef or a struct.
pub open spec fn is_extracted(e: AstView, header: Seq<char>) -> bool {
    in_header(e, header) && (e.kind == NodeKind::TypedefDecl || e.kind == NodeKind::StructDecl)
}

/// The failure in an outcome, if it is one.
pub open spec fn failure_in<T>(outcome: Result<T, ExtractError>) -> Option<ExtractError> {
    match outcome {
        Ok(_) => None,
        Err(e) => Some(e),
    }
}

/// The walk of one node, from a module that holds what was gathered before.
///
/// A typedef or struct declaration located in the header is handed to its
/// extractor, and the nodes below it are not walked. Below every other node
/// the walk goes on, from first to last.
pub open spec fn walk(e: AstView, header: Seq<char>, m: EfiModuleView) -> Walk
    decreases e,
{
    if in_header(e, header) && e.kind == NodeKind::TypedefDecl {
        Walk { module: after_typedef(m, e), failure: failure_in(record_of(e)) }
    } else if in_header(e, header) && e.kind == NodeKind::StructDecl {
        Walk { module: after_struct(m, e), failure: failure_in(protocol_of(e)) }
    } else {
        walk_all(e.children, header, m)
    }
}

/// The walk of a list of nodes in order; it ends with the first failure.
pub open spec fn walk_all(nodes: Seq<AstView>, header: Seq<char>, m: EfiModuleView) -> Walk
    decreases nodes,
{
    if nodes.len() == 0 {
        Walk { module: m, failure: None }
    } else {
        let before = walk_all(nodes.drop_last(), header, m);
        if before.failure is Some {
            before
        } else {
            walk(nodes.last(), header, before.module)
        }
    }
}

/// A walk that fails on a prefix of the nodes ends there.
pub proof fn lemma_walk_all_prefix_failure(
    nodes: Seq<AstView>,
    header: Seq<char>,
    m: EfiModuleView,
    n: int,
)
    requires
        0 <= n <= nodes.len(),
        walk_all(nodes.take(n), header, m).failure is Some,
    ensures
        walk_all(nodes, header, m) == walk_all(nodes.take(n), header, m),
    decreases nodes.len(),
{
    if n == nodes.len() {
        assert(nodes.take(n) == nodes);
    } else {
        assert(nodes.drop_last().take(n) == nodes.take(n));
        lemma_walk_all_prefix_failure(nodes.drop_last(), header, m, n);
    }
}

/// Whether the walk of `root` comes to the node `d`, unless a failure ends it
/// before.
pub open spec fn reaches(root: AstView, header: Seq<char>, d: AstView) -> bool
    decreases root,
{
    root == d || (!is_extracted(root, header) && reaches_below(root.children, header, d))
}

/// Whether the walk of the nodes comes to the node `d`, unless a failure ends
/// it before.
pub open spec fn reaches_below(nodes: Seq<AstView>, header: Seq<char>, d: AstView) -> bool
    decreases nodes,
{
    if nodes.len() == 0 {
        false
    } else {
        reaches_below(nodes.drop_last(), header, d) || reaches(nodes.last(), header, d)
    }
}

/// Whether `d` is a declaration that the walk hands to an extractor which
/// fails on it.
pub open spec fn fails_at(d: AstView, header: Seq<char>) -> bool {
    in_header(d, header) && ((d.kind == NodeKind::TypedefDecl && record_of(d) is Err) || (d.kind
        == NodeKind::StructDecl && protocol_of(d) is Err))
}

/// One failing declaration fails the whole walk: where the walk of `root`
/// comes to a declaration on which the extractor fails, or would but for an
/// earlier failure, the walk fails, whatever was gathered before.
pub proof fn lemma_failure_ends_walk(root: AstView, header: Seq<char>, d: AstView, m: EfiModuleView)
    requires
        reaches(root, header, d),
        fails_at(d, header),
    ensures
        walk(root, header, m).failure is Some,
    decreases root,
{
    if root != d {
        lemma_failure_ends_walk_below(root.children, header, d, m);
    }
}

/// One failing declaration below a list of nodes fails the walk of the list.
pub proof fn lemma_failure_ends_walk_below(
    nodes: Seq<AstView>,
    header: Seq<char>,
    d: AstView,
    m: EfiModuleView,
)
    requires
        reaches_below(nodes, header, d),
        fails_at(d, header),
    ensures
        walk_all(nodes, header, m).failure is Some,
    decreases nodes,
{
    let front = nodes.drop_last();
    if reaches_below(front, header, d) {
        lemma_failure_ends_walk_below(front, header, d, m);
    } else {
        let before = walk_all(front, header, m);
        if before.failure is None {
            lemma_failure_ends_walk(nodes.last(), header, d, before.module);
        }
    }
}

/// One bad member fails the whole extraction: where the walk comes to a
/// typedef or a struct of the header that has a member without a name or
/// without a resolvable type, it fails, and yields no module.
pub proof fn lemma_bad_member_fails_extraction(
    root: AstView,
    header: Seq<char>,
    d: AstView,
    i: int,
    m: EfiModuleView,
)
    requires
        reaches(root, header, d),
        in_header(d, header),
        (d.kind == NodeKind::TypedefDecl && typedef_has_bad_member(d, i)) || (d.kind
            == NodeKind::StructDecl && struct_has_bad_member(d, i)),
    ensures
        walk(root, header, m).failure is Some,
{
    if d.kind == NodeKind::TypedefDecl {
        lemma_member_failure_fails_typedef(d, i);
    } else {
        lemma_member_failure_fails_struct(d, i);
    }
    lemma_failure_ends_walk(root, header, d, m);
}

/// A walk only adds: what was gathered before it stays, in place, at the
/// head of both lists.
pub proof fn lemma_walk_keeps_what_was_gathered(e: AstView, header: Seq<char>, m: EfiModuleView)
    ensures
        m.protocols.is_prefix_of(walk(e, header, m).module.protocols),
        m.records.is_prefix_of(walk(e, header, m).module.records),
    decreases e,
{
    if !is_extracted(e, header) {
        lemma_walk_all_keeps_what_was_gathered(e.children, header, m);
    }
}

/// A walk of a list of nodes only adds to what was gathered before it.
pub proof fn lemma_walk_all_keeps_what_was_gathered(
    nodes: Seq<AstView>,
    header: Seq<char>,
    m: EfiModuleView,
)
    ensures
        m.protocols.is_prefix_of(walk_all(nodes, header, m).module.protocols),
        m.records.is_prefix_of(walk_all(nodes, header, m).module.records),
    decreases nodes,
{
    if nodes.len() > 0 {
        let before = walk_all(nodes.drop_last(), header, m);
        lemma_walk_all_keeps_what_was_gathered(nodes.drop_last(), header, m);
        if before.failure is None {
            lemma_walk_keeps_what_was_gathered(nodes.last(), header, before.module);
        }
    }
}

/// A walk keeps a module free of names that begin with an underscore.
pub proof fn lemma_walk_keeps_well_formed(e: AstView, header: Seq<char>, m: EfiModuleView)
    requires
        m.well_formed(),
    ensures
        walk(e, header, m).module.well_formed(),
    decreases e,
{
    if in_header(e, header) && e.kind == NodeKind::TypedefDecl {
        lemma_after_typedef_well_formed(m, e);
    } else if in_header(e, header) && e.kind == NodeKind::StructDecl {
        lemma_after_struct_well_formed(m, e);
    } else {
        lemma_walk_all_keeps_well_formed(e.children, header, m);
    }
}

/// A walk of a list of nodes keeps a module free of names that begin with an
/// underscore.
pub proof fn lemma_walk_all_keeps_well_formed(
    nodes: Seq<AstView>,
    header: Seq<char>,
    m: EfiModuleView,
)
    requires
        m.well_formed(),
    ensures
        walk_all(nodes, header, m).module.well_formed(),
    decreases nodes,
{
    if nodes.len() > 0 {
        let before = walk_all(nodes.drop_last(), header, m);
        lemma_walk_all_keeps_well_formed(nodes.drop_last(), header, m);
        if before.failure is None {
            lemma_walk_keeps_well_formed(nodes.last(), header, before.module);
        }
    }
}

/// Whether a node is located in the header.
pub fn located_in(entity: &AstNode, efi_header: &str) -> (found: bool)
    ensures
        found == in_header(entity@, efi_header@),
{
    let in_file = |path: &&String| -> (same: bool)
        ensures
            same == (path@ == efi_header@),
        {
            same_text(path.as_str(), efi_header)
        };
    and_check(entity.file.as_ref(), in_file).is_some()
}

/// Walks the tree below and at `entity` and adds to the module what the
/// declarations located in `efi_header` yield, in the order of discovery. The
/// walk ends with the first failure, and the module then holds what was
/// gathered before it.
pub fn process_tu(entity: &AstNode, efi_header: &str, module: &mut EfiModule) -> (outcome: Result<
    (),
    ExtractError,
>)
    ensures
        final(module)@ == walk(entity@, efi_header@, old(module)@).module,
        outcome == (match walk(entity@, efi_header@, old(module)@).failure {
            None => Ok(()),
            Some(e) => Err(e),
        }),
        old(module)@.well_formed() ==> final(module)@.well_formed(),
    decreases entity,
{
    proof {
        if module@.well_formed() {
            lemma_walk_keeps_well_formed(entity@, efi_header@, module@);
        }
    }
    if located_in(entity, efi_header) {
        match entity.kind {
            NodeKind::TypedefDecl => {
                return process_typedef(entity, module);
            },
            NodeKind::StructDecl => {
                return process_struct(entity, module);
            },
            _ => {},
        }
    }
    let ghost start = module@;
    let ghost below = ast_views(entity.children@);
    let mut i: usize = 0;
    while i < entity.children.len()
        invariant
            i <= entity.children.len(),
            below == ast_views(entity.children@),
            start == old(module)@,
            walk(entity@, efi_header@, start) == walk_all(below, efi_header@, start),
            start.well_formed() ==> walk(entity@, efi_header@, start).module.well_formed(),
            walk_all(below.take(i as int), efi_header@, start) == (Walk {
                module: module@,
                failure: None,
            }),
        decreases entity.children.len() - i,
    {
        proof {
            lemma_ast_views(entity.children@);
            assert(below.take(i + 1).drop_last() == below.take(i as int));
        }
        match process_tu(&entity.children[i], efi_header, module) {
            Ok(()) => {},
            Err(e) => {
                proof {
                    lemma_walk_all_prefix_failure(below, efi_header@, start, i + 1);
                }
                return Err(e);
            },
        }
        i += 1;
    }
    proof {
        lemma_ast_views(entity.children@);
        assert(below.take(i as int) == below);
    }
    Ok(())
}

/// Extracts the module that the syntax tree under `root` describes for the
/// header at the path `efi_header`. A failure anywhere in the walk is the
/// outcome, and no module is returned.
pub fn parse(root: &AstNode, efi_header: &str) -> (outcome: Result<EfiModule, ExtractError>)
    ensures
        match walk(root@, efi_header@, EfiModuleView::empty()).failure {
            None => outcome matches Ok(module) && module@ == walk(
                root@,
                efi_header@,
                EfiModuleView::empty(),
            ).module,
            Some(e) => outcome == Err::<EfiModule, ExtractError>(e),
        },
        outcome matches Ok(module) ==> module@.well_formed(),
{
    let mut module = EfiModule::new();
    match process_tu(root, efi_header, &mut module) {
        Ok(()) => Ok(module),
        Err(e) => Err(e),
    }
}

} // verus!
