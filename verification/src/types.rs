//! What an extraction yields: type tags, arguments, methods, fields, records,
//! protocols and the module that holds them, each with its mathematical
//! value.

use vstd::prelude::*;

verus! {

/// A type tag: one of the primitive aliases, a reference by name to a struct,
/// enum or protocol that is resolved elsewhere, or a pointer to another tag.
#[derive(Debug, PartialEq, Eq, Hash)]
pub enum EfiType {
    Status,
    Bool,
    Int8,
    UInt8,
    Int16,
    UInt16,
    Int32,
    UInt32,
    Int64,
    UInt64,
    IntN,
    UIntN,
    Char8,
    Char16,
    Id(String),
    Ptr(Box<EfiType>),
}

/// The mathematical value of an [`EfiType`].
pub enum EfiTypeView {
    Status,
    Bool,
    Int8,
    UInt8,
    Int16,
    UInt16,
    Int32,
    UInt32,
    Int64,
    UInt64,
    IntN,
    UIntN,
    Char8,
    Char16,
    Id(Seq<char>),
    Ptr(Box<EfiTypeView>),
}

impl View for EfiType {
    type V = EfiTypeView;

    open spec fn view(&self) -> EfiTypeView
        decreases self,
    {
        match *self {
            EfiType::Status => EfiTypeView::Status,
            EfiType::Bool => EfiTypeView::Bool,
            EfiType::Int8 => EfiTypeView::Int8,
            EfiType::UInt8 => EfiTypeView::UInt8,
            EfiType::Int16 => EfiTypeView::Int16,
            EfiType::UInt16 => EfiTypeView::UInt16,
            EfiType::Int32 => EfiTypeView::Int32,
            EfiType::UInt32 => EfiTypeView::UInt32,
            EfiType::Int64 => EfiTypeView::Int64,
            EfiType::UInt64 => EfiTypeView::UInt64,
            EfiType::IntN => EfiTypeView::IntN,
            EfiType::UIntN => EfiTypeView::UIntN,
            EfiType::Char8 => EfiTypeView::Char8,
            EfiType::Char16 => EfiTypeView::Char16,
            EfiType::Id(name) => EfiTypeView::Id(name@),
            EfiType::Ptr(target) => EfiTypeView::Ptr(Box::new((*target)@)),
        }
    }
}

impl Clone for EfiType {
    fn clone(&self) -> (copy: EfiType)
        ensures
            copy@ == self@,
        decreases self,
    {
        match self {
            EfiType::Status => EfiType::Status,
            EfiType::Bool => EfiType::Bool,
            EfiType::Int8 => EfiType::Int8,
            EfiType::UInt8 => EfiType::UInt8,
            EfiType::Int16 => EfiType::Int16,
            EfiType::UInt16 => EfiType::UInt16,
            EfiType::Int32 => EfiType::Int32,
            EfiType::UInt32 => EfiType::UInt32,
            EfiType::Int64 => EfiType::Int64,
            EfiType::UInt64 => EfiType::UInt64,
            EfiType::IntN => EfiType::IntN,
            EfiType::UIntN => EfiType::UIntN,
            EfiType::Char8 => EfiType::Char8,
            EfiType::Char16 => EfiType::Char16,
            EfiType::Id(name) => EfiType::Id(name.clone()),
            EfiType::Ptr(target) => {
                let inner: &EfiType = &**target;
                EfiType::Ptr(Box::new(inner.clone()))
            },
        }
    }
}

impl EfiTypeView {
    /// No name in the tag begins with an underscore.
    pub open spec fn well_formed(self) -> bool
        decreases self,
    {
        match self {
            EfiTypeView::Id(name) => name.len() == 0 || name[0] != '_',
            EfiTypeView::Ptr(target) => target.well_formed(),
            _ => true,
        }
    }

    /// The tag under `depth` pointers.
    pub open spec fn pointer_to(self, depth: nat) -> EfiTypeView
        decreases depth,
    {
        if depth == 0 {
            self
        } else {
            EfiTypeView::Ptr(Box::new(self.pointer_to((depth - 1) as nat)))
        }
    }
}

/// Direction in which a method argument carries data.
#[derive(Copy, Clone, Debug, PartialEq, Eq, Hash, Structural)]
pub enum EfiArgDir {
    In,
    Out,
}

/// One argument of a method.
#[derive(Clone, Debug, PartialEq, Eq, Hash)]
pub struct EfiArg {
    pub name: String,
    pub typ: EfiType,
    pub dir: EfiArgDir,
    pub optional: bool,
}

/// The mathematical value of an [`EfiArg`].
pub struct EfiArgView {
    pub name: Seq<char>,
    pub typ: EfiTypeView,
    pub dir: EfiArgDir,
    pub optional: bool,
}

impl EfiArgView {
    /// No name in the argument's tag begins with an underscore.
    pub open spec fn well_formed(self) -> bool {
        self.typ.well_formed()
    }
}

impl View for EfiArg {
    type V = EfiArgView;

    open spec fn view(&self) -> EfiArgView {
        EfiArgView { name: self.name@, typ: self.typ@, dir: self.dir, optional: self.optional }
    }
}

/// A method of a protocol: its name, what it returns and its arguments in
/// order.
#[derive(Clone, Debug, PartialEq, Eq, Hash)]
pub struct EfiMethod {
    pub name: String,
    pub typ: EfiType,
    pub args: Vec<EfiArg>,
}

/// The mathematical value of an [`EfiMethod`].
pub struct EfiMethodView {
    pub name: Seq<char>,
    pub typ: EfiTypeView,
    pub args: Seq<EfiArgView>,
}

impl EfiMethodView {
    /// No name in the tags of the method begins with an underscore.
    pub open spec fn well_formed(self) -> bool {
        &&& self.typ.well_formed()
        &&& forall|i: int| 0 <= i < self.args.len() ==> (#[trigger] self.args[i]).well_formed()
    }
}

impl View for EfiMethod {
    type V = EfiMethodView;

    open spec fn view(&self) -> EfiMethodView {
        EfiMethodView { name: self.name@, typ: self.typ@, args: arg_views(self.args@) }
    }
}

/// A named, typed member of a record or of a protocol.
#[derive(Clone, Debug, PartialEq, Eq, Hash)]
pub struct EfiField {
    pub name: String,
    pub typ: EfiType,
}

/// The mathematical value of an [`EfiField`].
pub struct EfiFieldView {
    pub name: Seq<char>,
    pub typ: EfiTypeView,
}

impl EfiFieldView {
    /// No name in the field's tag begins with an underscore.
    pub open spec fn well_formed(self) -> bool {
        self.typ.well_formed()
    }
}

impl View for EfiField {
    type V = EfiFieldView;

    open spec fn view(&self) -> EfiFieldView {
        EfiFieldView { name: self.name@, typ: self.typ@ }
    }
}

/// An aggregate: a struct or a union with its members in order.
#[derive(Clone, Debug, PartialEq, Eq, Hash)]
pub enum EfiRecord {
    EfiStruct { name: String, fields: Vec<EfiField> },
    EfiUnion { name: String, fields: Vec<EfiField> },
}

/// The mathematical value of an [`EfiRecord`].
pub enum EfiRecordView {
    EfiStruct { name: Seq<char>, fields: Seq<EfiFieldView> },
    EfiUnion { name: Seq<char>, fields: Seq<EfiFieldView> },
}

impl View for EfiRecord {
    type V = EfiRecordView;

    open spec fn view(&self) -> EfiRecordView {
        match self {
            EfiRecord::EfiStruct { name, fields } => EfiRecordView::EfiStruct {
                name: name@,
                fields: field_views(fields@),
            },
            EfiRecord::EfiUnion { name, fields } => EfiRecordView::EfiUnion {
                name: name@,
                fields: field_views(fields@),
            },
        }
    }
}

impl EfiRecordView {
    /// The record's name.
    pub open spec fn name(self) -> Seq<char> {
        match self {
            EfiRecordView::EfiStruct { name, .. } => name,
            EfiRecordView::EfiUnion { name, .. } => name,
        }
    }

    /// The record's members in order.
    pub open spec fn fields(self) -> Seq<EfiFieldView> {
        match self {
            EfiRecordView::EfiStruct { fields, .. } => fields,
            EfiRecordView::EfiUnion { fields, .. } => fields,
        }
    }

    /// No name in the tags of the record begins with an underscore.
    pub open spec fn well_formed(self) -> bool {
        fields_well_formed(self.fields())
    }
}

/// An interface: function-pointer members as methods, the other members as
/// data fields, each list in the order of the source.
#[derive(Clone, Debug, PartialEq, Eq, Hash)]
pub struct EfiProtocol {
    pub name: String,
    pub methods: Vec<EfiMethod>,
    pub fields: Vec<EfiField>,
}

/// The mathematical value of an [`EfiProtocol`].
pub struct EfiProtocolView {
    pub name: Seq<char>,
    pub methods: Seq<EfiMethodView>,
    pub fields: Seq<EfiFieldView>,
}

impl EfiProtocolView {
    /// No name in the tags of the protocol begins with an underscore.
    pub open spec fn well_formed(self) -> bool {
        &&& forall|i: int|
            0 <= i < self.methods.len() ==> (#[trigger] self.methods[i]).well_formed()
        &&& fields_well_formed(self.fields)
    }
}

impl View for EfiProtocol {
    type V = EfiProtocolView;

    open spec fn view(&self) -> EfiProtocolView {
        EfiProtocolView {
            name: self.name@,
            methods: method_views(self.methods@),
            fields: field_views(self.fields@),
        }
    }
}

/// What one header yields: its protocols and its records, each list in the
/// order of discovery.
#[derive(Clone, Debug, PartialEq, Eq, Hash)]
pub struct EfiModule {
    pub protocols: Vec<EfiProtocol>,
    pub records: Vec<EfiRecord>,
}

/// The mathematical value of an [`EfiModule`].
pub struct EfiModuleView {
    pub protocols: Seq<EfiProtocolView>,
    pub records: Seq<EfiRecordView>,
}

impl View for EfiModule {
    type V = EfiModuleView;

    open spec fn view(&self) -> EfiModuleView {
        EfiModuleView {
            protocols: protocol_views(self.protocols@),
            records: record_views(self.records@),
        }
    }
}

impl EfiModule {
    /// A module that holds nothing.
    pub fn new() -> (module: EfiModule)
        ensures
            module@ == EfiModuleView::empty(),
    {
        let module = EfiModule { protocols: Vec::new(), records: Vec::new() };
        assert(protocol_views(module.protocols@) == Seq::<EfiProtocolView>::empty());
        assert(record_views(module.records@) == Seq::<EfiRecordView>::empty());
        module
    }
}

impl EfiModuleView {
    /// The module that holds nothing.
    pub open spec fn empty() -> EfiModuleView {
        EfiModuleView { protocols: Seq::empty(), records: Seq::empty() }
    }

    /// No name in the tags of the module begins with an underscore.
    pub open spec fn well_formed(self) -> bool {
        &&& forall|i: int|
            0 <= i < self.protocols.len() ==> (#[trigger] self.protocols[i]).well_formed()
        &&& forall|i: int|
            0 <= i < self.records.len() ==> (#[trigger] self.records[i]).well_formed()
    }
}

/// No name in the tags of the fields begins with an underscore.
pub open spec fn fields_well_formed(fields: Seq<EfiFieldView>) -> bool {
    forall|i: int| 0 <= i < fields.len() ==> (#[trigger] fields[i]).well_formed()
}

/// The values of a list of arguments.
pub open spec fn arg_views(args: Seq<EfiArg>) -> Seq<EfiArgView> {
    args.map_values(|a: EfiArg| a@)
}

/// The values of a list of fields.
pub open spec fn field_views(fields: Seq<EfiField>) -> Seq<EfiFieldView> {
    fields.map_values(|f: EfiField| f@)
}

/// The values of a list of methods.
pub open spec fn method_views(methods: Seq<EfiMethod>) -> Seq<EfiMethodView> {
    methods.map_values(|m: EfiMethod| m@)
}

/// The values of a list of records.
pub open spec fn record_views(records: Seq<EfiRecord>) -> Seq<EfiRecordView> {
    records.map_values(|r: EfiRecord| r@)
}

/// The values of a list of protocols.
pub open spec fn protocol_views(protocols: Seq<EfiProtocol>) -> Seq<EfiProtocolView> {
    protocols.map_values(|p: EfiProtocol| p@)
}

} // verus!
