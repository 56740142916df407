//! The syntax tree as the extraction reads it: a snapshot, in plain values,
//! of what the C front end reports of nodes, types and members.

use vstd::prelude::*;

verus! {

/// The kinds of type that the extraction tells apart.
#[derive(Copy, Clone, Debug, PartialEq, Eq, Hash, Structural)]
pub enum TypeKind {
    Record,
    Enum,
    Pointer,
    Typedef,
    FunctionPrototype,
    Other,
}

/// The kinds of syntax node that the extraction tells apart.
#[derive(Copy, Clone, Debug, PartialEq, Eq, Hash, Structural)]
pub enum NodeKind {
    TypedefDecl,
    StructDecl,
    UnionDecl,
    ParmDecl,
    Other,
}

/// The declaration that stands behind a type, with the nodes below it in
/// source order.
#[derive(Debug, PartialEq, Eq, Hash)]
pub struct DeclNode {
    pub kind: NodeKind,
    pub name: Option<String>,
    pub children: Vec<DeclNode>,
}

/// The mathematical value of a [`DeclNode`].
pub struct DeclView {
    pub kind: NodeKind,
    pub name: Option<Seq<char>>,
    pub children: Seq<DeclView>,
}

impl View for DeclNode {
    type V = DeclView;

    open spec fn view(&self) -> DeclView
        decreases self,
    {
        DeclView {
            kind: self.kind,
            name: text_of(self.name),
            children: decl_views(self.children@),
        }
    }
}

/// A type as the front end reports it.
///
/// `canonical` is the type with every alias removed; it is `None` where the
/// type is its own canonical type. `fields` is recorded for the type of a
/// declaration and for its canonical type; the types of the members are
/// recorded without members of their own.
#[derive(Debug, PartialEq, Eq, Hash)]
pub struct TypeNode {
    pub kind: TypeKind,
    pub display_name: String,
    pub declaration: Option<DeclNode>,
    pub canonical: Option<Box<TypeNode>>,
    pub pointee: Option<Box<TypeNode>>,
    pub result: Option<Box<TypeNode>>,
    pub arguments: Option<Vec<TypeNode>>,
    pub fields: Option<Vec<FieldNode>>,
}

/// A member of an aggregate.
///
/// `declaration` is the member's own declaration with the nodes below it:
/// where the member is a function pointer written in place, the declarations
/// of its parameters stand there.
#[derive(Debug, PartialEq, Eq, Hash)]
pub struct FieldNode {
    pub name: Option<String>,
    pub typ: Option<TypeNode>,
    pub declaration: Option<DeclNode>,
}

/// The mathematical value of a [`TypeNode`].
pub struct TypeView {
    pub kind: TypeKind,
    pub display_name: Seq<char>,
    pub declaration: Option<DeclView>,
    pub canonical: Option<Box<TypeView>>,
    pub pointee: Option<Box<TypeView>>,
    pub result: Option<Box<TypeView>>,
    pub arguments: Option<Seq<TypeView>>,
    pub fields: Option<Seq<FieldView>>,
}

/// The mathematical value of a [`FieldNode`].
pub struct FieldView {
    pub name: Option<Seq<char>>,
    pub typ: Option<TypeView>,
    pub declaration: Option<DeclView>,
}

impl View for TypeNode {
    type V = TypeView;

    open spec fn view(&self) -> TypeView
        decreases self,
    {
        TypeView {
            kind: self.kind,
            display_name: self.display_name@,
            declaration: match self.declaration {
                Some(d) => Some(d@),
                None => None,
            },
            canonical: match self.canonical {
                Some(t) => Some(Box::new((*t)@)),
                None => None,
            },
            pointee: match self.pointee {
                Some(t) => Some(Box::new((*t)@)),
                None => None,
            },
            result: match self.result {
                Some(t) => Some(Box::new((*t)@)),
                None => None,
            },
            arguments: match self.arguments {
                Some(list) => Some(type_views(list@)),
                None => None,
            },
            fields: match self.fields {
                Some(list) => Some(member_views(list@)),
                None => None,
            },
        }
    }
}

impl View for FieldNode {
    type V = FieldView;

    open spec fn view(&self) -> FieldView
        decreases self,
    {
        FieldView {
            name: text_of(self.name),
            typ: match self.typ {
                Some(t) => Some(t@),
                None => None,
            },
            declaration: match self.declaration {
                Some(d) => Some(d@),
                None => None,
            },
        }
    }
}

impl DeclNode {
    /// A declaration of the given kind and name with no node below it.
    pub fn new(kind: NodeKind, name: Option<String>) -> (d: DeclNode)
        ensures
            d@ == (DeclView { kind, name: text_of(name), children: Seq::empty() }),
    {
        let d = DeclNode { kind, name, children: Vec::new() };
        assert(decl_views(d.children@) == Seq::<DeclView>::empty());
        d
    }
}

impl TypeNode {
    /// A type of the given kind and display name of which nothing else is
    /// known.
    pub fn new(kind: TypeKind, display_name: String) -> (t: TypeNode)
        ensures
            t@ == (TypeView {
                kind,
                display_name: display_name@,
                declaration: None,
                canonical: None,
                pointee: None,
                result: None,
                arguments: None,
                fields: None,
            }),
    {
        TypeNode {
            kind,
            display_name,
            declaration: None,
            canonical: None,
            pointee: None,
            result: None,
            arguments: None,
            fields: None,
        }
    }

    /// The type with every alias removed: the type itself where it has no
    /// other.
    pub fn dealiased(&self) -> (t: &TypeNode)
        ensures
            t@ == self@.dealiased(),
    {
        match &self.canonical {
            Some(t) => &**t,
            None => self,
        }
    }
}

impl TypeView {
    /// The type with every alias removed: the type itself where it has no
    /// other.
    pub open spec fn dealiased(self) -> TypeView {
        match self.canonical {
            Some(t) => *t,
            None => self,
        }
    }

    /// The name of the declaration behind the type, if it has both.
    pub open spec fn declared_name(self) -> Option<Seq<char>> {
        match self.declaration {
            Some(d) => d.name,
            None => None,
        }
    }
}

/// A node of the syntax tree, with the nodes below it in source order.
///
/// `file` is the path of the file in which the node is located, `typ` the
/// node's type and `underlying` the type that a typedef stands for.
#[derive(Debug, PartialEq, Eq, Hash)]
pub struct AstNode {
    pub kind: NodeKind,
    pub name: Option<String>,
    pub file: Option<String>,
    pub typ: Option<TypeNode>,
    pub underlying: Option<TypeNode>,
    pub children: Vec<AstNode>,
}

/// The mathematical value of an [`AstNode`].
pub struct AstView {
    pub kind: NodeKind,
    pub name: Option<Seq<char>>,
    pub file: Option<Seq<char>>,
    pub typ: Option<TypeView>,
    pub underlying: Option<TypeView>,
    pub children: Seq<AstView>,
}

impl View for AstNode {
    type V = AstView;

    open spec fn view(&self) -> AstView
        decreases self,
    {
        AstView {
            kind: self.kind,
            name: text_of(self.name),
            file: text_of(self.file),
            typ: match self.typ {
                Some(t) => Some(t@),
                None => None,
            },
            underlying: match self.underlying {
                Some(t) => Some(t@),
                None => None,
            },
            children: ast_views(self.children@),
        }
    }
}

impl AstNode {
    /// A node of the given kind and name, with no location, no type and no
    /// node below it.
    pub fn new(kind: NodeKind, name: Option<String>) -> (e: AstNode)
        ensures
            e@ == (AstView {
                kind,
                name: text_of(name),
                file: None,
                typ: None,
                underlying: None,
                children: Seq::empty(),
            }),
    {
        let e = AstNode { kind, name, file: None, typ: None, underlying: None, children: Vec::new() };
        assert(ast_views(e.children@) == Seq::<AstView>::empty());
        e
    }
}

/// The values of a list of declarations.
pub open spec fn decl_views(nodes: Seq<DeclNode>) -> Seq<DeclView>
    decreases nodes,
{
    if nodes.len() == 0 {
        Seq::empty()
    } else {
        decl_views(nodes.drop_last()).push(nodes.last()@)
    }
}

/// The values of a list of types.
pub open spec fn type_views(nodes: Seq<TypeNode>) -> Seq<TypeView>
    decreases nodes,
{
    if nodes.len() == 0 {
        Seq::empty()
    } else {
        type_views(nodes.drop_last()).push(nodes.last()@)
    }
}

/// The values of a list of members.
pub open spec fn member_views(nodes: Seq<FieldNode>) -> Seq<FieldView>
    decreases nodes,
{
    if nodes.len() == 0 {
        Seq::empty()
    } else {
        member_views(nodes.drop_last()).push(nodes.last()@)
    }
}

/// The values of a list of syntax nodes.
pub open spec fn ast_views(nodes: Seq<AstNode>) -> Seq<AstView>
    decreases nodes,
{
    if nodes.len() == 0 {
        Seq::empty()
    } else {
        ast_views(nodes.drop_last()).push(nodes.last()@)
    }
}

/// A list of declarations and its values correspond one for one.
pub proof fn lemma_decl_views(nodes: Seq<DeclNode>)
    ensures
        decl_views(nodes).len() == nodes.len(),
        forall|i: int| 0 <= i < nodes.len() ==> decl_views(nodes)[i] == nodes[i]@,
    decreases nodes.len(),
{
    if nodes.len() > 0 {
        lemma_decl_views(nodes.drop_last());
        assert(decl_views(nodes) == decl_views(nodes.drop_last()).push(nodes.last()@));
    } else {
        assert(decl_views(nodes) == Seq::<DeclView>::empty());
    }
}

/// A list of types and its values correspond one for one.
pub proof fn lemma_type_views(nodes: Seq<TypeNode>)
    ensures
        type_views(nodes).len() == nodes.len(),
        forall|i: int| 0 <= i < nodes.len() ==> type_views(nodes)[i] == nodes[i]@,
    decreases nodes.len(),
{
    if nodes.len() > 0 {
        lemma_type_views(nodes.drop_last());
        assert(type_views(nodes) == type_views(nodes.drop_last()).push(nodes.last()@));
    } else {
        assert(type_views(nodes) == Seq::<TypeView>::empty());
    }
}

/// A list of members and its values correspond one for one.
pub proof fn lemma_member_views(nodes: Seq<FieldNode>)
    ensures
        member_views(nodes).len() == nodes.len(),
        forall|i: int| 0 <= i < nodes.len() ==> member_views(nodes)[i] == nodes[i]@,
    decreases nodes.len(),
{
    if nodes.len() > 0 {
        lemma_member_views(nodes.drop_last());
        assert(member_views(nodes) == member_views(nodes.drop_last()).push(nodes.last()@));
    } else {
        assert(member_views(nodes) == Seq::<FieldView>::empty());
    }
}

/// A list of syntax nodes and its values correspond one for one.
pub proof fn lemma_ast_views(nodes: Seq<AstNode>)
    ensures
        ast_views(nodes).len() == nodes.len(),
        forall|i: int| 0 <= i < nodes.len() ==> ast_views(nodes)[i] == nodes[i]@,
    decreases nodes.len(),
{
    if nodes.len() > 0 {
        lemma_ast_views(nodes.drop_last());
        assert(ast_views(nodes) == ast_views(nodes.drop_last()).push(nodes.last()@));
    } else {
        assert(ast_views(nodes) == Seq::<AstView>::empty());
    }
}

/// The characters of an optional string.
pub open spec fn text_of(s: Option<String>) -> Option<Seq<char>> {
    match s {
        Some(t) => Some(t@),
        None => None,
    }
}

} // verus!
