//! What the types of C become, and which declarations are named on the way.

use vstd::prelude::*;

use crate::clang::{
    CXCursor, CXDecl, CXSignature, CXType, CURSOR_ENUM_DECL, CURSOR_STRUCT_DECL,
    CURSOR_TYPEDEF_DECL, CURSOR_UNION_DECL,
};
use crate::context::{named, CtxView};
use crate::convert::{
    args_refs, args_shape, decl_refs, decl_shape, named_all, ptr_refs, ptr_shape, refs, shape,
};
use crate::types::{FKind, GlobalView, IKind, TypeView};

verus! {

/// The simple types: each has its own, `char` is signed or unsigned as the
/// compiler has it, `long double` is written as `double`, and what is not known
/// is written as `void`. None of them names a declaration.
pub proof fn law_simple_types(names: Map<CXCursor, GlobalView>)
    ensures
        shape(names, CXType::Bool) == TypeView::TInt(IKind::IBool),
        shape(names, CXType::SChar) == TypeView::TInt(IKind::ISChar),
        shape(names, CXType::CharS) == TypeView::TInt(IKind::ISChar),
        shape(names, CXType::UChar) == TypeView::TInt(IKind::IUChar),
        shape(names, CXType::CharU) == TypeView::TInt(IKind::IUChar),
        shape(names, CXType::UShort) == TypeView::TInt(IKind::IUShort),
        shape(names, CXType::UInt) == TypeView::TInt(IKind::IUInt),
        shape(names, CXType::ULong) == TypeView::TInt(IKind::IULong),
        shape(names, CXType::ULongLong) == TypeView::TInt(IKind::IULongLong),
        shape(names, CXType::Short) == TypeView::TInt(IKind::IShort),
        shape(names, CXType::Int) == TypeView::TInt(IKind::IInt),
        shape(names, CXType::Long) == TypeView::TInt(IKind::ILong),
        shape(names, CXType::LongLong) == TypeView::TInt(IKind::ILongLong),
        shape(names, CXType::Float) == TypeView::TFloat(FKind::FFloat),
        shape(names, CXType::Double) == TypeView::TFloat(FKind::FDouble),
        shape(names, CXType::LongDouble) == TypeView::TFloat(FKind::FDouble),
        shape(names, CXType::Void) == TypeView::TVoid,
        shape(names, CXType::Invalid) == TypeView::TVoid,
        shape(names, CXType::Other) == TypeView::TVoid,
        refs(CXType::Bool).len() == 0,
        refs(CXType::SChar).len() == 0,
        refs(CXType::CharS).len() == 0,
        refs(CXType::UChar).len() == 0,
        refs(CXType::CharU).len() == 0,
        refs(CXType::UShort).len() == 0,
        refs(CXType::UInt).len() == 0,
        refs(CXType::ULong).len() == 0,
        refs(CXType::ULongLong).len() == 0,
        refs(CXType::Short).len() == 0,
        refs(CXType::Int).len() == 0,
        refs(CXType::Long).len() == 0,
        refs(CXType::LongLong).len() == 0,
        refs(CXType::Float).len() == 0,
        refs(CXType::Double).len() == 0,
        refs(CXType::LongDouble).len() == 0,
        refs(CXType::Void).len() == 0,
        refs(CXType::Invalid).len() == 0,
        refs(CXType::Other).len() == 0,
{
}

/// A function that stands behind no pointer is written as `void`, and names
/// nothing.
pub proof fn law_bare_function(names: Map<CXCursor, GlobalView>, s: CXSignature)
    ensures
        shape(names, CXType::FunctionProto(s)) == TypeView::TVoid,
        shape(names, CXType::FunctionNoProto(s)) == TypeView::TVoid,
        refs(CXType::FunctionProto(s)).len() == 0,
        refs(CXType::FunctionNoProto(s)).len() == 0,
{
}

/// A pointer to anything but a function, what may be one, and a `typedef` is a
/// pointer to what its target becomes by itself, and names what that names.
pub proof fn law_pointer(names: Map<CXCursor, GlobalView>, ty: CXType)
    requires
        ty !is Unexposed,
        ty !is FunctionProto,
        ty !is FunctionNoProto,
        ty !is Typedef,
    ensures
        shape(names, CXType::Pointer(Box::new(ty))) == TypeView::TPtr(Box::new(shape(names, ty))),
        refs(CXType::Pointer(Box::new(ty))) == refs(ty),
{
    reveal_with_fuel(shape, 3);
    reveal_with_fuel(ptr_shape, 3);
    reveal_with_fuel(refs, 3);
    reveal_with_fuel(ptr_refs, 3);
}

/// A pointer to a `typedef` is a pointer to that `typedef`, unless it is one of
/// a function: then it is a pointer to what a pointer to the function becomes.
pub proof fn law_pointer_to_typedef(names: Map<CXCursor, GlobalView>, d: CXDecl, u: CXType)
    ensures
        ({
            let t = CXType::Typedef(d, Box::new(u));
            let p = CXType::Pointer(Box::new(t));
            let q = CXType::Pointer(Box::new(u));
            &&& u is FunctionProto || u is FunctionNoProto ==> {
                &&& shape(names, p) == TypeView::TPtr(Box::new(shape(names, q)))
                &&& refs(p) == refs(q)
            }
            &&& u !is FunctionProto && u !is FunctionNoProto ==> {
                &&& shape(names, p) == TypeView::TPtr(Box::new(shape(names, t)))
                &&& refs(p) == refs(t)
            }
        }),
{
    reveal_with_fuel(shape, 4);
    reveal_with_fuel(ptr_shape, 4);
    reveal_with_fuel(refs, 4);
    reveal_with_fuel(ptr_refs, 4);
}

proof fn lemma_args_shape(names: Map<CXCursor, GlobalView>, args: Seq<CXType>)
    ensures
        args_shape(names, args).len() == args.len(),
        forall|i: int|
            0 <= i < args.len() ==> (#[trigger] args_shape(names, args)[i]).0.len() == 0
                && args_shape(names, args)[i].1 == shape(names, args[i]),
    decreases args.len(),
{
    reveal_with_fuel(args_shape, 2);
    if args.len() > 0 {
        let front = args.drop_last();
        lemma_args_shape(names, front);
        let part = args_shape(names, front);
        let whole = args_shape(names, args);
        assert forall|i: int| 0 <= i < args.len() implies (#[trigger] whole[i]).0.len() == 0
            && whole[i].1 == shape(names, args[i]) by {
            if i < front.len() {
                assert(part[i] == whole[i]);
                assert(front[i] == args[i]);
            }
        }
    }
}

/// A pointer to a function is the function: its result and its arguments as they
/// become by themselves, one for one, the arguments without names, and as
/// variadic as it is. Where it is no function after all, it is a pointer to the
/// declaration of the type.
pub proof fn law_pointer_to_function(names: Map<CXCursor, GlobalView>, s: CXSignature, ty: CXType)
    requires
        ty == CXType::Unexposed(s) || ty == CXType::FunctionProto(s) || ty
            == CXType::FunctionNoProto(s),
    ensures
        ({
            let t = shape(names, CXType::Pointer(Box::new(ty)));
            &&& *s.result !is Invalid ==> {
                &&& t matches TypeView::TFunc(result, args, variadic)
                &&& *result == shape(names, *s.result)
                &&& args.len() == s.args@.len()
                &&& forall|i: int|
                    0 <= i < s.args@.len() ==> (#[trigger] args[i]).0.len() == 0 && args[i].1
                        == shape(names, s.args@[i])
                &&& variadic == s.variadic
            }
            &&& *s.result is Invalid ==> t == TypeView::TPtr(
                Box::new(shape(names, CXType::Record(s.decl))),
            )
        }),
{
    reveal_with_fuel(shape, 3);
    reveal_with_fuel(ptr_shape, 3);
    lemma_args_shape(names, s.args@);
}

/// A pointer to a function names what its arguments name, in order, and then
/// what its result names; where it is no function after all, what the
/// declaration of the type does.
pub proof fn law_function_names(s: CXSignature, ty: CXType)
    requires
        ty == CXType::Unexposed(s) || ty == CXType::FunctionProto(s) || ty
            == CXType::FunctionNoProto(s),
    ensures
        *s.result !is Invalid ==> refs(CXType::Pointer(Box::new(ty))) == args_refs(s.args@) + refs(
            *s.result,
        ),
        *s.result is Invalid ==> refs(CXType::Pointer(Box::new(ty))) == refs(
            CXType::Record(s.decl),
        ),
{
    reveal_with_fuel(refs, 3);
    reveal_with_fuel(ptr_refs, 3);
}

/// Types that stand in a list name what each of them names, in order.
pub proof fn law_list_names(a: Seq<CXType>, t: CXType)
    ensures
        args_refs(Seq::empty()).len() == 0,
        args_refs(a.push(t)) == args_refs(a) + refs(t),
{
    assert(a.push(t).drop_last() =~= a);
}

/// A type that refers to a declaration becomes, in whichever way it does so, a
/// reference to what the cursor of the declaration was given: a `struct` or
/// `union`, an `enum` or a `typedef` by its place in its table. What is declared
/// otherwise is written as `void`.
pub proof fn law_reference(c: CtxView, d: CXDecl, u: CXType, s: CXSignature)
    requires
        c.ok(),
        c.name.contains_key(d.cursor),
        s.decl == d,
    ensures
        ({
            let t = shape(c.name, CXType::Record(d));
            let kind = d.cursor.kind;
            &&& shape(c.name, CXType::Enum(d)) == t
            &&& shape(c.name, CXType::Typedef(d, Box::new(u))) == t
            &&& shape(c.name, CXType::Unexposed(s)) == t
            &&& kind == CURSOR_STRUCT_DECL || kind == CURSOR_UNION_DECL ==> {
                &&& t matches TypeView::TComp(i)
                &&& c.name[d.cursor] == GlobalView::GCompDecl(i)
            }
            &&& kind == CURSOR_ENUM_DECL ==> {
                &&& t matches TypeView::TEnum(i)
                &&& c.name[d.cursor] == GlobalView::GEnumDecl(i)
            }
            &&& kind == CURSOR_TYPEDEF_DECL ==> {
                &&& t matches TypeView::TNamed(i)
                &&& c.name[d.cursor] == GlobalView::GType(i)
            }
            &&& kind != CURSOR_STRUCT_DECL && kind != CURSOR_UNION_DECL && kind != CURSOR_ENUM_DECL
                && kind != CURSOR_TYPEDEF_DECL ==> t == TypeView::TVoid
        }),
{
}

/// A type that refers to a declaration names it, and nothing else, if it is a
/// `struct`, `union`, `enum` or `typedef`, and nothing at all if it is not.
pub proof fn law_reference_names(d: CXDecl, u: CXType, s: CXSignature)
    requires
        s.decl == d,
    ensures
        ({
            let kind = d.cursor.kind;
            let ds = refs(CXType::Record(d));
            &&& refs(CXType::Enum(d)) == ds
            &&& refs(CXType::Typedef(d, Box::new(u))) == ds
            &&& refs(CXType::Unexposed(s)) == ds
            &&& kind == CURSOR_STRUCT_DECL || kind == CURSOR_UNION_DECL || kind == CURSOR_ENUM_DECL
                || kind == CURSOR_TYPEDEF_DECL ==> ds == seq![d]
            &&& kind != CURSOR_STRUCT_DECL && kind != CURSOR_UNION_DECL && kind != CURSOR_ENUM_DECL
                && kind != CURSOR_TYPEDEF_DECL ==> ds.len() == 0
        }),
{
}

/// What is declared otherwise than as a type is written as `void`, whether or
/// not its cursor was given anything.
pub proof fn law_no_reference(names: Map<CXCursor, GlobalView>, d: CXDecl)
    requires
        d.cursor.kind != CURSOR_STRUCT_DECL,
        d.cursor.kind != CURSOR_UNION_DECL,
        d.cursor.kind != CURSOR_ENUM_DECL,
        d.cursor.kind != CURSOR_TYPEDEF_DECL,
    ensures
        shape(names, CXType::Record(d)) == TypeView::TVoid,
{
}

/// An array is one of what its elements become, of the same length, and names
/// what they name.
pub proof fn law_array(names: Map<CXCursor, GlobalView>, e: CXType, n: i64)
    ensures
        ({
            let t = CXType::ConstantArray(Box::new(e), n);
            &&& shape(names, t) == TypeView::TArray(
                Box::new(shape(names, e)),
                (n as usize) as nat,
            )
            &&& refs(t) == refs(e)
            &&& 0 <= n <= usize::MAX ==> (shape(names, t)->TArray_1) == n
        }),
{
    reveal_with_fuel(shape, 2);
    reveal_with_fuel(refs, 2);
}

/// Converting what a pointer points to, as a pointer, is converting the pointer;
/// and converting a declaration is converting a type that refers to it.
pub proof fn law_one_conversion(names: Map<CXCursor, GlobalView>, ty: CXType, d: CXDecl)
    ensures
        ptr_shape(names, ty) == shape(names, CXType::Pointer(Box::new(ty))),
        ptr_refs(ty) == refs(CXType::Pointer(Box::new(ty))),
        decl_shape(names, d) == shape(names, CXType::Record(d)),
        decl_refs(d) == refs(CXType::Record(d)),
{
    reveal_with_fuel(shape, 2);
    reveal_with_fuel(refs, 2);
}

/// Declarations are named one after the other.
pub proof fn law_named_in_turn(c: CtxView, ds: Seq<CXDecl>, d: CXDecl)
    ensures
        named_all(c, Seq::empty()) == c,
        named_all(c, ds.push(d)) == named(named_all(c, ds), d),
{
    assert(ds.push(d).drop_last() =~= ds);
}

} // verus!
