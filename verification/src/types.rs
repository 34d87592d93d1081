//! The declarations and types that bindings are written from.
//!
//! A declaration is kept once, in the table for its sort, and referred to by
//! its place there.

use vstd::prelude::*;

verus! {

/// The integer types of C.
#[derive(Clone, Copy, Debug, PartialEq, Eq, Structural)]
pub enum IKind {
    ISChar,
    IUChar,
    IBool,
    IShort,
    IUShort,
    IInt,
    IUInt,
    ILong,
    IULong,
    ILongLong,
    IULongLong,
}

/// The floating point types of C.
#[derive(Clone, Copy, Debug, PartialEq, Eq, Structural)]
pub enum FKind {
    FFloat,
    FDouble,
}

/// One declaration to write, by its place in the table for its sort.
#[derive(Clone, Copy, Debug, PartialEq, Eq, Structural)]
pub enum Global {
    /// A `typedef`.
    GType(usize),
    /// A `struct` or `union` with its fields.
    GComp(usize),
    /// A `struct` or `union` of which only the name is known.
    GCompDecl(usize),
    /// An `enum` with its items.
    GEnum(usize),
    /// An `enum` of which only the name is known.
    GEnumDecl(usize),
    /// A variable.
    GVar(usize),
    /// A function.
    GFunc(usize),
    /// Nothing that can be written.
    GOther,
}

/// A type as it is written.
#[derive(Debug, PartialEq, Eq)]
pub enum Type {
    TVoid,
    TInt(IKind),
    TFloat(FKind),
    TPtr(Box<Type>),
    /// The type of an element, and how many there are.
    TArray(Box<Type>, usize),
    /// The result, the named arguments, and whether more may follow.
    TFunc(Box<Type>, Vec<(String, Type)>, bool),
    TNamed(usize),
    TComp(usize),
    TEnum(usize),
}

/// A `struct` or `union`.
#[derive(Debug, PartialEq, Eq)]
pub struct CompInfo {
    /// Set for a `struct`, clear for a `union`.
    pub cstruct: bool,
    pub name: String,
    pub fields: Vec<FieldInfo>,
}

/// A member of a `struct` or `union`.
#[derive(Debug, PartialEq, Eq)]
pub struct FieldInfo {
    pub name: String,
    pub ty: Type,
    /// The `struct` or `union` that it is a member of.
    pub comp: usize,
}

/// An `enum`.
#[derive(Debug, PartialEq, Eq)]
pub struct EnumInfo {
    pub name: String,
    pub kind: IKind,
    pub items: Vec<EnumItem>,
}

/// An enumerator.
#[derive(Debug, PartialEq, Eq)]
pub struct EnumItem {
    pub name: String,
    /// The value, as a machine word.
    pub val: isize,
    /// The `enum` that it belongs to.
    pub host: usize,
}

/// A `typedef`.
#[derive(Debug, PartialEq, Eq)]
pub struct TypeInfo {
    pub name: String,
    pub ty: Type,
}

/// A variable or function.
#[derive(Debug, PartialEq, Eq)]
pub struct VarInfo {
    pub name: String,
    pub ty: Type,
}

/// What a [`Global`] stands for.
pub enum GlobalView {
    GType(nat),
    GComp(nat),
    GCompDecl(nat),
    GEnum(nat),
    GEnumDecl(nat),
    GVar(nat),
    GFunc(nat),
    GOther,
}

/// What a [`Type`] stands for.
pub enum TypeView {
    TVoid,
    TInt(IKind),
    TFloat(FKind),
    TPtr(Box<TypeView>),
    TArray(Box<TypeView>, nat),
    TFunc(Box<TypeView>, Seq<(Seq<char>, TypeView)>, bool),
    TNamed(nat),
    TComp(nat),
    TEnum(nat),
}

/// What a [`CompInfo`] stands for.
pub struct CompView {
    pub cstruct: bool,
    pub name: Seq<char>,
    pub fields: Seq<FieldView>,
}

/// What a [`FieldInfo`] stands for.
pub struct FieldView {
    pub name: Seq<char>,
    pub ty: TypeView,
    pub comp: nat,
}

/// What an [`EnumInfo`] stands for.
pub struct EnumView {
    pub name: Seq<char>,
    pub kind: IKind,
    pub items: Seq<EnumItemView>,
}

/// What an [`EnumItem`] stands for.
pub struct EnumItemView {
    pub name: Seq<char>,
    pub val: int,
    pub host: nat,
}

/// What a [`TypeInfo`] stands for.
pub struct TypeInfoView {
    pub name: Seq<char>,
    pub ty: TypeView,
}

/// What a [`VarInfo`] stands for.
pub struct VarView {
    pub name: Seq<char>,
    pub ty: TypeView,
}

impl View for Global {
    type V = GlobalView;

    open spec fn view(&self) -> GlobalView {
        match *self {
            Global::GType(i) => GlobalView::GType(i as nat),
            Global::GComp(i) => GlobalView::GComp(i as nat),
            Global::GCompDecl(i) => GlobalView::GCompDecl(i as nat),
            Global::GEnum(i) => GlobalView::GEnum(i as nat),
            Global::GEnumDecl(i) => GlobalView::GEnumDecl(i as nat),
            Global::GVar(i) => GlobalView::GVar(i as nat),
            Global::GFunc(i) => GlobalView::GFunc(i as nat),
            Global::GOther => GlobalView::GOther,
        }
    }
}

/// The view of a type.
pub open spec fn type_view(t: Type) -> TypeView
    decreases t,
{
    match t {
        Type::TVoid => TypeView::TVoid,
        Type::TInt(k) => TypeView::TInt(k),
        Type::TFloat(k) => TypeView::TFloat(k),
        Type::TPtr(p) => TypeView::TPtr(Box::new(type_view(*p))),
        Type::TArray(e, n) => TypeView::TArray(Box::new(type_view(*e)), n as nat),
        Type::TFunc(r, args, variadic) => TypeView::TFunc(
            Box::new(type_view(*r)),
            args_view(args@),
            variadic,
        ),
        Type::TNamed(i) => TypeView::TNamed(i as nat),
        Type::TComp(i) => TypeView::TComp(i as nat),
        Type::TEnum(i) => TypeView::TEnum(i as nat),
    }
}

/// The view of the arguments of a function type.
pub open spec fn args_view(args: Seq<(String, Type)>) -> Seq<(Seq<char>, TypeView)>
    decreases args,
{
    if args.len() == 0 {
        Seq::empty()
    } else {
        args_view(args.drop_last()).push((args.last().0@, type_view(args.last().1)))
    }
}

impl View for Type {
    type V = TypeView;

    open spec fn view(&self) -> TypeView {
        type_view(*self)
    }
}

impl View for FieldInfo {
    type V = FieldView;

    open spec fn view(&self) -> FieldView {
        FieldView { name: self.name@, ty: self.ty@, comp: self.comp as nat }
    }
}

impl View for CompInfo {
    type V = CompView;

    open spec fn view(&self) -> CompView {
        CompView {
            cstruct: self.cstruct,
            name: self.name@,
            fields: self.fields@.map_values(|f: FieldInfo| f@),
        }
    }
}

impl View for EnumItem {
    type V = EnumItemView;

    open spec fn view(&self) -> EnumItemView {
        EnumItemView { name: self.name@, val: self.val as int, host: self.host as nat }
    }
}

impl View for EnumInfo {
    type V = EnumView;

    open spec fn view(&self) -> EnumView {
        EnumView {
            name: self.name@,
            kind: self.kind,
            items: self.items@.map_values(|i: EnumItem| i@),
        }
    }
}

impl View for TypeInfo {
    type V = TypeInfoView;

    open spec fn view(&self) -> TypeInfoView {
        TypeInfoView { name: self.name@, ty: self.ty@ }
    }
}

impl View for VarInfo {
    type V = VarView;

    open spec fn view(&self) -> VarView {
        VarView { name: self.name@, ty: self.ty@ }
    }
}

} // verus!
