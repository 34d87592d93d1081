//! From the types of C to the types that are written.

use vstd::prelude::*;

use crate::clang::{
    CXCursor, CXDecl, CXSignature, CXType, CURSOR_ENUM_DECL, CURSOR_NO_DECL_FOUND,
    CURSOR_STRUCT_DECL, CURSOR_TYPEDEF_DECL, CURSOR_UNION_DECL,
};
use crate::context::{decl_name, global_compinfo, global_enuminfo, global_typeinfo, BindGenCtx};
use crate::context::{
    extends, is_comp_kind, lemma_named, named, names_kept, place, type_ok, CtxView,
};
use crate::types::{FKind, GlobalView, IKind, Type, TypeView};
use crate::types::{args_view, type_view};

verus! {

/// Whether a type that refers to a cursor of this kind refers to a declaration.
pub open spec fn is_type_decl_kind(kind: i32) -> bool {
    is_comp_kind(kind) || kind == CURSOR_ENUM_DECL || kind == CURSOR_TYPEDEF_DECL
}

/// The declarations that are named when a type refers to `d`.
pub open spec fn decl_refs(d: CXDecl) -> Seq<CXDecl> {
    if is_type_decl_kind(d.cursor.kind) {
        seq![d]
    } else {
        Seq::empty()
    }
}

/// The declarations that are named when `ty` is converted, in order.
pub open spec fn refs(ty: CXType) -> Seq<CXDecl>
    decreases ty, 0int,
{
    match ty {
        CXType::Pointer(p) => ptr_refs(*p),
        CXType::Record(d) => decl_refs(d),
        CXType::Enum(d) => decl_refs(d),
        CXType::Typedef(d, _) => decl_refs(d),
        CXType::Unexposed(s) => decl_refs(s.decl),
        CXType::ConstantArray(e, _) => refs(*e),
        _ => Seq::empty(),
    }
}

/// The declarations that are named when a pointer to `ty` is converted, in
/// order.
pub open spec fn ptr_refs(ty: CXType) -> Seq<CXDecl>
    decreases ty, 1int,
{
    match ty {
        CXType::Unexposed(s) | CXType::FunctionProto(s) | CXType::FunctionNoProto(s) => if *s.result !is Invalid {
            args_refs(s.args@) + refs(*s.result)
        } else {
            decl_refs(s.decl)
        },
        CXType::Typedef(_, u) => if is_function(*u) {
            ptr_refs(*u)
        } else {
            refs(ty)
        },
        _ => refs(ty),
    }
}

/// The declarations that are named when each type of a list is converted, in
/// order.
pub open spec fn args_refs(args: Seq<CXType>) -> Seq<CXDecl>
    decreases args, 0int,
{
    if args.len() == 0 {
        Seq::empty()
    } else {
        args_refs(args.drop_last()) + refs(args.last())
    }
}

/// Whether a type is that of a function.
pub open spec fn is_function(ty: CXType) -> bool {
    ty is FunctionProto || ty is FunctionNoProto
}

/// What a reference to `d` becomes, given the names of the declarations.
pub open spec fn decl_shape(names: Map<CXCursor, GlobalView>, d: CXDecl) -> TypeView {
    let kind = d.cursor.kind;
    if is_comp_kind(kind) {
        TypeView::TComp(place(names[d.cursor]))
    } else if kind == CURSOR_ENUM_DECL {
        TypeView::TEnum(place(names[d.cursor]))
    } else if kind == CURSOR_TYPEDEF_DECL {
        TypeView::TNamed(place(names[d.cursor]))
    } else {
        TypeView::TVoid
    }
}

/// What `ty` becomes, given the names of the declarations.
pub open spec fn shape(names: Map<CXCursor, GlobalView>, ty: CXType) -> TypeView
    decreases ty, 0int,
{
    match ty {
        CXType::Bool => TypeView::TInt(IKind::IBool),
        CXType::SChar | CXType::CharS => TypeView::TInt(IKind::ISChar),
        CXType::UChar | CXType::CharU => TypeView::TInt(IKind::IUChar),
        CXType::UShort => TypeView::TInt(IKind::IUShort),
        CXType::UInt => TypeView::TInt(IKind::IUInt),
        CXType::ULong => TypeView::TInt(IKind::IULong),
        CXType::ULongLong => TypeView::TInt(IKind::IULongLong),
        CXType::Short => TypeView::TInt(IKind::IShort),
        CXType::Int => TypeView::TInt(IKind::IInt),
        CXType::Long => TypeView::TInt(IKind::ILong),
        CXType::LongLong => TypeView::TInt(IKind::ILongLong),
        CXType::Float => TypeView::TFloat(FKind::FFloat),
        CXType::Double | CXType::LongDouble => TypeView::TFloat(FKind::FDouble),
        CXType::Pointer(p) => ptr_shape(names, *p),
        CXType::Record(d) => decl_shape(names, d),
        CXType::Enum(d) => decl_shape(names, d),
        CXType::Typedef(d, _) => decl_shape(names, d),
        CXType::Unexposed(s) => decl_shape(names, s.decl),
        CXType::ConstantArray(e, n) => TypeView::TArray(
            Box::new(shape(names, *e)),
            (n as usize) as nat,
        ),
        CXType::Invalid | CXType::Void | CXType::FunctionProto(_) | CXType::FunctionNoProto(_)
        | CXType::Other => TypeView::TVoid,
    }
}

/// What a pointer to `ty` becomes, given the names of the declarations.
///
/// A pointer to a function becomes the function itself.
pub open spec fn ptr_shape(names: Map<CXCursor, GlobalView>, ty: CXType) -> TypeView
    decreases ty, 1int,
{
    match ty {
        CXType::Unexposed(s) | CXType::FunctionProto(s) | CXType::FunctionNoProto(s) => if *s.result !is Invalid {
            TypeView::TFunc(
                Box::new(shape(names, *s.result)),
                args_shape(names, s.args@),
                s.variadic,
            )
        } else {
            TypeView::TPtr(Box::new(decl_shape(names, s.decl)))
        },
        CXType::Typedef(_, u) => if is_function(*u) {
            TypeView::TPtr(Box::new(ptr_shape(names, *u)))
        } else {
            TypeView::TPtr(Box::new(shape(names, ty)))
        },
        _ => TypeView::TPtr(Box::new(shape(names, ty))),
    }
}

/// What the arguments of a function type become: they have no names there.
pub open spec fn args_shape(names: Map<CXCursor, GlobalView>, args: Seq<CXType>) -> Seq<
    (Seq<char>, TypeView),
>
    decreases args, 0int,
{
    if args.len() == 0 {
        Seq::empty()
    } else {
        args_shape(names, args.drop_last()).push((Seq::empty(), shape(names, args.last())))
    }
}

/// The state after each declaration of the list has been given a name.
pub open spec fn named_all(c: CtxView, ds: Seq<CXDecl>) -> CtxView
    decreases ds.len(),
{
    if ds.len() == 0 {
        c
    } else {
        named(named_all(c, ds.drop_last()), ds.last())
    }
}

/// Whether each declaration of the list has a name.
pub open spec fn all_named(names: Map<CXCursor, GlobalView>, ds: Seq<CXDecl>) -> bool {
    forall|i: int| 0 <= i < ds.len() ==> names.contains_key((#[trigger] ds[i]).cursor)
}

/// Naming one declaration is naming a list of one.
pub proof fn lemma_named_one(c: CtxView, d: CXDecl)
    ensures
        named_all(c, seq![d]) == named(c, d),
{
    reveal_with_fuel(named_all, 2);
    assert(seq![d].drop_last() =~= Seq::empty());
}

/// Naming two lists one after the other is naming the two as one list.
pub proof fn lemma_named_all_append(c: CtxView, a: Seq<CXDecl>, b: Seq<CXDecl>)
    ensures
        named_all(c, a + b) == named_all(named_all(c, a), b),
    decreases b.len(),
{
    if b.len() == 0 {
        assert(a + b =~= a);
    } else {
        lemma_named_all_append(c, a, b.drop_last());
        assert((a + b).drop_last() =~= a + b.drop_last());
    }
}

/// Being an extension carries over.
pub proof fn lemma_extends_trans(c: CtxView, d: CtxView, e: CtxView)
    requires
        extends(c, d),
        extends(d, e),
    ensures
        extends(c, e),
{
    assert(c.comps.is_prefix_of(e.comps)) by {
        assert(c.comps =~= e.comps.take(c.comps.len() as int));
    }
    assert(c.enums.is_prefix_of(e.enums)) by {
        assert(c.enums =~= e.enums.take(c.enums.len() as int));
    }
    assert(c.typedefs.is_prefix_of(e.typedefs)) by {
        assert(c.typedefs =~= e.typedefs.take(c.typedefs.len() as int));
    }
    assert(c.vars.is_prefix_of(e.vars)) by {
        assert(c.vars =~= e.vars.take(c.vars.len() as int));
    }
}

/// Naming a list of declarations names each of them, keeps the state sound, and
/// changes nothing that was there.
pub proof fn lemma_named_all(c: CtxView, ds: Seq<CXDecl>)
    requires
        c.ok(),
    ensures
        named_all(c, ds).ok(),
        extends(c, named_all(c, ds)),
        all_named(named_all(c, ds).name, ds),
    decreases ds.len(),
{
    if ds.len() > 0 {
        let front = ds.drop_last();
        lemma_named_all(c, front);
        lemma_named(named_all(c, front), ds.last());
        lemma_extends_trans(c, named_all(c, front), named_all(c, ds));
        assert forall|i: int| 0 <= i < ds.len() implies named_all(c, ds).name.contains_key(
            (#[trigger] ds[i]).cursor,
        ) by {
            if i < front.len() {
                assert(ds[i] == front[i]);
            }
        }
    }
}

/// What a type becomes does not change as further declarations are named.
pub proof fn lemma_shape_stable(
    names: Map<CXCursor, GlobalView>,
    more: Map<CXCursor, GlobalView>,
    ty: CXType,
)
    requires
        names_kept(names, more),
    ensures
        all_named(names, refs(ty)) ==> shape(names, ty) == shape(more, ty),
        all_named(names, ptr_refs(ty)) ==> ptr_shape(names, ty) == ptr_shape(more, ty),
    decreases ty, 0int,
{
    reveal_with_fuel(refs, 2);
    reveal_with_fuel(ptr_refs, 2);
    reveal_with_fuel(shape, 2);
    reveal_with_fuel(ptr_shape, 2);
    match ty {
        CXType::Pointer(p) => {
            lemma_shape_stable(names, more, *p);
        },
        CXType::ConstantArray(e, _) => {
            lemma_shape_stable(names, more, *e);
        },
        CXType::Record(d) | CXType::Enum(d) => {
            lemma_decl_stable(names, more, d);
        },
        CXType::Typedef(d, u) => {
            lemma_decl_stable(names, more, d);
            lemma_shape_stable(names, more, *u);
        },
        CXType::Unexposed(s) | CXType::FunctionProto(s) | CXType::FunctionNoProto(s) => {
            lemma_decl_stable(names, more, s.decl);
            lemma_args_stable(names, more, s.args@);
            lemma_shape_stable(names, more, *s.result);
            lemma_all_named_append(names, args_refs(s.args@), refs(*s.result));
        },
        _ => {},
    }
}

proof fn lemma_decl_stable(
    names: Map<CXCursor, GlobalView>,
    more: Map<CXCursor, GlobalView>,
    d: CXDecl,
)
    requires
        names_kept(names, more),
    ensures
        all_named(names, decl_refs(d)) ==> decl_shape(names, d) == decl_shape(more, d),
{
    if is_type_decl_kind(d.cursor.kind) && all_named(names, decl_refs(d)) {
        assert(decl_refs(d)[0] == d);
        assert(names.contains_key(d.cursor));
        assert(more.contains_key(d.cursor));
    }
}

/// All of two lists are named exactly if all of each are.
pub proof fn lemma_all_named_append(
    names: Map<CXCursor, GlobalView>,
    a: Seq<CXDecl>,
    b: Seq<CXDecl>,
)
    ensures
        all_named(names, a + b) <==> all_named(names, a) && all_named(names, b),
{
    if all_named(names, a + b) {
        assert forall|i: int| 0 <= i < a.len() implies names.contains_key(
            (#[trigger] a[i]).cursor,
        ) by {
            assert((a + b)[i] == a[i]);
        }
        assert forall|i: int| 0 <= i < b.len() implies names.contains_key(
            (#[trigger] b[i]).cursor,
        ) by {
            assert((a + b)[a.len() + i] == b[i]);
        }
    }
}

/// What a list of types becomes does not change as further declarations are
/// named.
pub proof fn lemma_args_stable(
    names: Map<CXCursor, GlobalView>,
    more: Map<CXCursor, GlobalView>,
    args: Seq<CXType>,
)
    requires
        names_kept(names, more),
    ensures
        all_named(names, args_refs(args)) ==> args_shape(names, args) == args_shape(more, args),
    decreases args, 0int,
{
    if args.len() > 0 {
        lemma_args_stable(names, more, args.drop_last());
        lemma_shape_stable(names, more, args.last());
        lemma_all_named_append(names, args_refs(args.drop_last()), refs(args.last()));
    }
}

/// What a type becomes refers only to declarations that are there.
pub proof fn lemma_shape_there(c: CtxView, ty: CXType)
    requires
        c.ok(),
    ensures
        all_named(c.name, refs(ty)) ==> c.has_type(shape(c.name, ty)),
        all_named(c.name, ptr_refs(ty)) ==> c.has_type(ptr_shape(c.name, ty)),
    decreases ty, 0int,
{
    reveal_with_fuel(refs, 2);
    reveal_with_fuel(ptr_refs, 2);
    reveal_with_fuel(shape, 2);
    reveal_with_fuel(ptr_shape, 2);
    reveal_with_fuel(type_ok, 2);
    match ty {
        CXType::Pointer(p) => {
            lemma_shape_there(c, *p);
        },
        CXType::ConstantArray(e, _) => {
            lemma_shape_there(c, *e);
        },
        CXType::Record(d) | CXType::Enum(d) => {
            lemma_decl_there(c, d);
        },
        CXType::Typedef(d, u) => {
            lemma_decl_there(c, d);
            lemma_shape_there(c, *u);
        },
        CXType::Unexposed(s) | CXType::FunctionProto(s) | CXType::FunctionNoProto(s) => {
            lemma_decl_there(c, s.decl);
            lemma_args_there(c, s.args@);
            lemma_shape_there(c, *s.result);
            lemma_all_named_append(c.name, args_refs(s.args@), refs(*s.result));
            if *s.result !is Invalid && all_named(c.name, ptr_refs(ty)) {
                let args = args_shape(c.name, s.args@);
                assert forall|i: int| 0 <= i < args.len() implies type_ok(
                    (#[trigger] args[i]).1,
                    c.comps.len(),
                    c.enums.len(),
                    c.typedefs.len(),
                ) by {
                    assert(c.has_type(args[i].1));
                }
            }

        },
        _ => {},
    }
}

proof fn lemma_decl_there(c: CtxView, d: CXDecl)
    requires
        c.ok(),
    ensures
        all_named(c.name, decl_refs(d)) ==> c.has_type(decl_shape(c.name, d)),
{
    if is_type_decl_kind(d.cursor.kind) && all_named(c.name, decl_refs(d)) {
        assert(decl_refs(d)[0] == d);
        assert(c.name.contains_key(d.cursor));
    }
}

/// What a list of types becomes refers only to declarations that are there.
pub proof fn lemma_args_there(c: CtxView, args: Seq<CXType>)
    requires
        c.ok(),
    ensures
        all_named(c.name, args_refs(args)) ==> forall|i: int|
            0 <= i < args_shape(c.name, args).len() ==> c.has_type(
                (#[trigger] args_shape(c.name, args)[i]).1,
            ),
    decreases args, 0int,
{
    if args.len() > 0 {
        lemma_args_there(c, args.drop_last());
        lemma_shape_there(c, args.last());
        lemma_all_named_append(c.name, args_refs(args.drop_last()), refs(args.last()));
        let front = args_shape(c.name, args.drop_last());
        let whole = args_shape(c.name, args);
        assert(forall|i: int| 0 <= i < front.len() ==> front[i] == #[trigger] whole[i]);
    }
}

/// Converts a reference to a declaration.
pub fn conv_decl_ty(ctx: &mut BindGenCtx, d: &CXDecl) -> (r: Type)
    requires
        old(ctx).wf(),
    ensures
        final(ctx).wf(),
        final(ctx)@ == named_all(old(ctx)@, decl_refs(*d)),
        r@ == decl_shape(final(ctx)@.name, *d),
{
    proof {
        lemma_named_one(ctx@, *d);
    }
    let kind = d.cursor.kind;
    if kind == CURSOR_STRUCT_DECL {
        let decl = decl_name(ctx, d);
        Type::TComp(global_compinfo(decl))
    } else if kind == CURSOR_UNION_DECL {
        let decl = decl_name(ctx, d);
        Type::TComp(global_compinfo(decl))
    } else if kind == CURSOR_ENUM_DECL {
        let decl = decl_name(ctx, d);
        Type::TEnum(global_enuminfo(decl))
    } else if kind == CURSOR_TYPEDEF_DECL {
        let decl = decl_name(ctx, d);
        Type::TNamed(global_typeinfo(decl))
    } else {
        Type::TVoid
    }
}

/// Converts a type.
pub fn conv_ty(ctx: &mut BindGenCtx, ty: &CXType) -> (r: Type)
    requires
        old(ctx).wf(),
    ensures
        final(ctx).wf(),
        final(ctx)@ == named_all(old(ctx)@, refs(*ty)),
        r@ == shape(final(ctx)@.name, *ty),
    decreases *ty, 0int,
{
    match ty {
        CXType::Bool => Type::TInt(IKind::IBool),
        CXType::SChar | CXType::CharS => Type::TInt(IKind::ISChar),
        CXType::UChar | CXType::CharU => Type::TInt(IKind::IUChar),
        CXType::UShort => Type::TInt(IKind::IUShort),
        CXType::UInt => Type::TInt(IKind::IUInt),
        CXType::ULong => Type::TInt(IKind::IULong),
        CXType::ULongLong => Type::TInt(IKind::IULongLong),
        CXType::Short => Type::TInt(IKind::IShort),
        CXType::Int => Type::TInt(IKind::IInt),
        CXType::Long => Type::TInt(IKind::ILong),
        CXType::LongLong => Type::TInt(IKind::ILongLong),
        CXType::Float => Type::TFloat(FKind::FFloat),
        CXType::Double | CXType::LongDouble => Type::TFloat(FKind::FDouble),
        CXType::Pointer(p) => conv_ptr_ty(ctx, p),
        CXType::Record(d) => conv_decl_ty(ctx, d),
        CXType::Enum(d) => conv_decl_ty(ctx, d),
        CXType::Typedef(d, _) => conv_decl_ty(ctx, d),
        CXType::Unexposed(s) => conv_decl_ty(ctx, &s.decl),
        CXType::ConstantArray(e, n) => {
            let a_ty = conv_ty(ctx, e);
            let size: usize = *n as usize;
            Type::TArray(Box::new(a_ty), size)
        },
        CXType::Invalid | CXType::Void | CXType::FunctionProto(_) | CXType::FunctionNoProto(_)
        | CXType::Other => Type::TVoid,
    }
}

/// Converts a pointer to a type.
pub fn conv_ptr_ty(ctx: &mut BindGenCtx, ty: &CXType) -> (r: Type)
    requires
        old(ctx).wf(),
    ensures
        final(ctx).wf(),
        final(ctx)@ == named_all(old(ctx)@, ptr_refs(*ty)),
        r@ == ptr_shape(final(ctx)@.name, *ty),
    decreases *ty, 1int,
{
    reveal_with_fuel(refs, 2);
    reveal_with_fuel(ptr_refs, 2);
    reveal_with_fuel(shape, 2);
    reveal_with_fuel(ptr_shape, 2);
    reveal_with_fuel(type_view, 2);
    match ty {
        CXType::Void => return Type::TPtr(Box::new(Type::TVoid)),
        CXType::Unexposed(s) | CXType::FunctionProto(s) | CXType::FunctionNoProto(s) => {
            return conv_signature(ctx, s);
        },
        CXType::Typedef(_, u) => {
            match &**u {
                CXType::FunctionProto(_) | CXType::FunctionNoProto(_) => {
                    return Type::TPtr(Box::new(conv_ptr_ty(ctx, u)));
                },
                _ => {},
            }
        },
        _ => {},
    }
    Type::TPtr(Box::new(conv_ty(ctx, ty)))
}

/// Converts a pointer to what may be a function.
fn conv_signature(ctx: &mut BindGenCtx, s: &CXSignature) -> (r: Type)
    requires
        old(ctx).wf(),
    ensures
        final(ctx).wf(),
        final(ctx)@ == named_all(old(ctx)@, ptr_refs(CXType::FunctionProto(*s))),
        r@ == ptr_shape(final(ctx)@.name, CXType::FunctionProto(*s)),
    decreases *s, 0int,
{
    reveal_with_fuel(type_view, 2);
    match &*s.result {
        CXType::Invalid => if s.decl.cursor.kind != CURSOR_NO_DECL_FOUND {
            Type::TPtr(Box::new(conv_decl_ty(ctx, &s.decl)))
        } else {
            Type::TPtr(Box::new(Type::TVoid))
        },
        _ => {
            let ghost start = ctx@;
            let args_lst = conv_args(ctx, &s.args);
            let ghost mid = ctx@;
            let ret_ty = conv_ty(ctx, &s.result);
            proof {
                lemma_named_all(start, args_refs(s.args@));
                lemma_named_all(mid, refs(*s.result));
                lemma_named_all_append(start, args_refs(s.args@), refs(*s.result));
                lemma_args_stable(mid.name, ctx@.name, s.args@);
            }
            Type::TFunc(Box::new(ret_ty), args_lst, s.variadic)
        },
    }
}

/// Converts the types of arguments that have no names.
fn conv_args(ctx: &mut BindGenCtx, args: &Vec<CXType>) -> (r: Vec<(String, Type)>)
    requires
        old(ctx).wf(),
    ensures
        final(ctx).wf(),
        final(ctx)@ == named_all(old(ctx)@, args_refs(args@)),
        args_view(r@) == args_shape(final(ctx)@.name, args@),
    decreases *args, 0int,
{
    let ghost start = ctx@;
    let mut r: Vec<(String, Type)> = Vec::new();
    let mut i: usize = 0;
    assert(args@.take(0) =~= Seq::empty());
    while i < args.len()
        invariant
            i <= args@.len(),
            start.ok(),
            ctx.wf(),
            ctx@ == named_all(start, args_refs(args@.take(i as int))),
            args_view(r@) == args_shape(ctx@.name, args@.take(i as int)),
        decreases args@.len() - i,
    {
        let ghost mid = ctx@;
        let ghost before = r@;
        let ghost done = args@.take(i as int);
        let ty = conv_ty(ctx, &args[i]);
        r.push((String::new(), ty));
        proof {
            let next = args@.take(i + 1);
            assert(next.drop_last() =~= done);
            assert(next.last() == args@[i as int]);
            assert(r@.drop_last() =~= before);
            lemma_named_all(start, args_refs(done));
            lemma_named_all(mid, refs(args@[i as int]));
            lemma_named_all_append(start, args_refs(done), refs(args@[i as int]));
            lemma_args_stable(mid.name, ctx@.name, done);
        }
        i = i + 1;
    }
    assert(args@.take(i as int) =~= args@);
    r
}

} // verus!
