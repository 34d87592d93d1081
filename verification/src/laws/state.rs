//! What the state of a run is, and how a declaration gets its place in it.

use vstd::prelude::*;
use vstd::std_specs::cmp::PartialEqSpec;

use crate::clang::{
    word_len, CXCursor, CXDecl, CXType, CURSOR_ENUM_CONSTANT_DECL, CURSOR_ENUM_DECL,
    CURSOR_FIELD_DECL, CURSOR_FUNCTION_DECL, CURSOR_INVALID_FILE, CURSOR_NO_DECL_FOUND,
    CURSOR_STRUCT_DECL, CURSOR_TYPEDEF_DECL, CURSOR_UNION_DECL, CURSOR_VAR_DECL, DIAGNOSTIC_ERROR,
    LINKAGE_EXTERNAL, LINKAGE_UNIQUE_EXTERNAL,
};
use crate::context::BindGenCtx;
use crate::context::{
    declared, initial, named, option_view, place, strings_view, type_ok, CtxView,
};
use crate::types::{
    args_view, CompInfo, EnumInfo, EnumItem, FKind, FieldInfo, Global, GlobalView, IKind, Type,
    TypeInfo, TypeView, VarInfo,
};

verus! {

/// Two cursors are equal exactly if the kind, the number and the three addresses
/// of the one are those of the other.
pub proof fn law_cursor_equality(a: CXCursor, b: CXCursor)
    ensures
        CXCursor::obeys_eq_spec(),
        a.eq_spec(&b) <==> a.kind == b.kind && a.xdata == b.xdata && a.data@[0] == b.data@[0]
            && a.data@[1] == b.data@[1] && a.data@[2] == b.data@[2],
{
    if a.kind == b.kind && a.xdata == b.xdata && a.data@[0] == b.data@[0] && a.data@[1]
        == b.data@[1] && a.data@[2] == b.data@[2] {
        assert(a.data =~= b.data);
    }
}

/// The bytes of a cursor are those of its kind, its number and its three
/// addresses, in this order, a machine word each: the byte that counts `256` to
/// the power of `j` stands at the `j`th place of its word, from the front or
/// from the back.
pub proof fn law_bytes_in_place(c: CXCursor, j: int)
    requires
        0 <= j < word_len(),
    ensures
        ({
            let n = word_len() as int;
            let front = c.bytes(true);
            let back = c.bytes(false);
            let shift = (8 * j) as usize;
            &&& 8 * n == usize::BITS
            &&& front.len() == 5 * n
            &&& back.len() == 5 * n
            &&& front[j] == ((c.kind as usize) >> shift) as u8
            &&& front[n + j] == ((c.xdata as usize) >> shift) as u8
            &&& front[2 * n + j] == (c.data@[0] >> shift) as u8
            &&& front[3 * n + j] == (c.data@[1] >> shift) as u8
            &&& front[4 * n + j] == (c.data@[2] >> shift) as u8
            &&& back[n - 1 - j] == front[j]
            &&& back[2 * n - 1 - j] == front[n + j]
            &&& back[3 * n - 1 - j] == front[2 * n + j]
            &&& back[4 * n - 1 - j] == front[3 * n + j]
            &&& back[5 * n - 1 - j] == front[4 * n + j]
        }),
{
}

/// What a declaration stands for is the declaration: its sort and its place.
pub proof fn law_global_is_its_view(i: usize)
    ensures
        Global::GType(i)@ == GlobalView::GType(i as nat),
        Global::GComp(i)@ == GlobalView::GComp(i as nat),
        Global::GCompDecl(i)@ == GlobalView::GCompDecl(i as nat),
        Global::GEnum(i)@ == GlobalView::GEnum(i as nat),
        Global::GEnumDecl(i)@ == GlobalView::GEnumDecl(i as nat),
        Global::GVar(i)@ == GlobalView::GVar(i as nat),
        Global::GFunc(i)@ == GlobalView::GFunc(i as nat),
        Global::GOther@ == GlobalView::GOther,
{
}

/// The place of a declaration is the one that it names.
pub proof fn law_place(i: nat)
    ensures
        place(GlobalView::GType(i)) == i,
        place(GlobalView::GComp(i)) == i,
        place(GlobalView::GCompDecl(i)) == i,
        place(GlobalView::GEnum(i)) == i,
        place(GlobalView::GEnumDecl(i)) == i,
        place(GlobalView::GVar(i)) == i,
        place(GlobalView::GFunc(i)) == i,
{
}

proof fn lemma_args_are_views(args: Seq<(String, Type)>)
    ensures
        args_view(args).len() == args.len(),
        forall|i: int|
            0 <= i < args.len() ==> (#[trigger] args_view(args)[i]).0 == args[i].0@ && args_view(
                args,
            )[i].1 == args[i].1@,
    decreases args.len(),
{
    if args.len() > 0 {
        let front = args.drop_last();
        lemma_args_are_views(front);
        assert forall|i: int| 0 <= i < args.len() implies (#[trigger] args_view(args)[i]).0
            == args[i].0@ && args_view(args)[i].1 == args[i].1@ by {
            if i < front.len() {
                assert(args_view(front)[i] == args_view(args)[i]);
                assert(front[i] == args[i]);
            }
        }
    }
}

/// What a type stands for is the type, part by part.
pub proof fn law_type_is_its_view(
    t: Type,
    args: Vec<(String, Type)>,
    variadic: bool,
    i: usize,
    k: IKind,
    f: FKind,
)
    ensures
        Type::TVoid@ == TypeView::TVoid,
        Type::TInt(k)@ == TypeView::TInt(k),
        Type::TFloat(f)@ == TypeView::TFloat(f),
        Type::TPtr(Box::new(t))@ == TypeView::TPtr(Box::new(t@)),
        Type::TArray(Box::new(t), i)@ == TypeView::TArray(Box::new(t@), i as nat),
        Type::TNamed(i)@ == TypeView::TNamed(i as nat),
        Type::TComp(i)@ == TypeView::TComp(i as nat),
        Type::TEnum(i)@ == TypeView::TEnum(i as nat),
        ({
            &&& Type::TFunc(Box::new(t), args, variadic)@ matches TypeView::TFunc(r, a, v)
            &&& *r == t@
            &&& v == variadic
            &&& a.len() == args@.len()
            &&& forall|j: int|
                0 <= j < args@.len() ==> (#[trigger] a[j]).0 == args@[j].0@ && a[j].1
                    == args@[j].1@
        }),
{
    lemma_args_are_views(args@);
}

/// What a `struct`, `union` or `enum` stands for is what it holds, member by
/// member.
pub proof fn law_members_are_their_views(
    comp: CompInfo,
    field: FieldInfo,
    info: EnumInfo,
    item: EnumItem,
)
    ensures
        comp@.cstruct == comp.cstruct,
        comp@.name == comp.name@,
        comp@.fields.len() == comp.fields@.len(),
        forall|i: int|
            0 <= i < comp.fields@.len() ==> #[trigger] comp@.fields[i] == comp.fields@[i]@,
        field@.name == field.name@,
        field@.ty == field.ty@,
        field@.comp == field.comp,
        info@.name == info.name@,
        info@.kind == info.kind,
        info@.items.len() == info.items@.len(),
        forall|i: int| 0 <= i < info.items@.len() ==> #[trigger] info@.items[i] == info.items@[i]@,
        item@.name == item.name@,
        item@.val == item.val,
        item@.host == item.host,
{
}

/// What a `typedef`, variable or function stands for is its name and its type.
pub proof fn law_typed_are_their_views(t: TypeInfo, v: VarInfo)
    ensures
        t@.name == t.name@,
        t@.ty == t.ty@,
        v@.name == v.name@,
        v@.ty == v.ty@,
{
}

/// What the state of a run stands for is what it holds, part by part.
pub proof fn law_state_is_its_view(ctx: BindGenCtx)
    ensures
        ctx@.match_pat.len() == ctx.match_pat@.len(),
        forall|i: int|
            0 <= i < ctx.match_pat@.len() ==> #[trigger] ctx@.match_pat[i] == ctx.match_pat@[i]@,
        ctx@.link is Some <==> ctx.link is Some,
        ctx.link is Some ==> ctx@.link->0 == ctx.link->0@,
        ctx@.out is Some <==> ctx.out is Some,
        ctx.out is Some ==> ctx@.out->0 == ctx.out->0@,
        ctx@.name == ctx.name@,
        ctx@.comps.len() == ctx.comps@.len(),
        forall|i: int| 0 <= i < ctx.comps@.len() ==> #[trigger] ctx@.comps[i] == ctx.comps@[i]@,
        ctx@.enums.len() == ctx.enums@.len(),
        forall|i: int| 0 <= i < ctx.enums@.len() ==> #[trigger] ctx@.enums[i] == ctx.enums@[i]@,
        ctx@.typedefs.len() == ctx.typedefs@.len(),
        forall|i: int|
            0 <= i < ctx.typedefs@.len() ==> #[trigger] ctx@.typedefs[i] == ctx.typedefs@[i]@,
        ctx@.vars.len() == ctx.vars@.len(),
        forall|i: int| 0 <= i < ctx.vars@.len() ==> #[trigger] ctx@.vars[i] == ctx.vars@[i]@,
        ctx@.globals.len() == ctx.globals@.len(),
        forall|i: int|
            0 <= i < ctx.globals@.len() ==> #[trigger] ctx@.globals[i] == ctx.globals@[i]@,
        ctx@.cur_glob == ctx.cur_glob@,
{
}

/// Strings, in a list or one that may be missing, stand for their texts.
pub proof fn law_strings_are_their_views(s: Seq<String>, o: Option<String>)
    ensures
        strings_view(s).len() == s.len(),
        forall|i: int| 0 <= i < s.len() ==> #[trigger] strings_view(s)[i] == s[i]@,
        option_view(o) is Some <==> o is Some,
        o is Some ==> option_view(o)->0 == o->0@,
{
}

/// A run starts with what was asked for and nothing else.
pub proof fn law_start(
    match_pat: Seq<Seq<char>>,
    link: Option<Seq<char>>,
    out: Option<Seq<char>>,
)
    ensures
        initial(match_pat, link, out).match_pat == match_pat,
        initial(match_pat, link, out).link == link,
        initial(match_pat, link, out).out == out,
        initial(match_pat, link, out).name == Map::<CXCursor, GlobalView>::empty(),
        initial(match_pat, link, out).comps.len() == 0,
        initial(match_pat, link, out).enums.len() == 0,
        initial(match_pat, link, out).typedefs.len() == 0,
        initial(match_pat, link, out).vars.len() == 0,
        initial(match_pat, link, out).globals.len() == 0,
        initial(match_pat, link, out).cur_glob == GlobalView::GOther,
{
}

/// A cursor that was met before is not named again.
pub proof fn law_named_before(c: CtxView, d: CXDecl)
    requires
        c.name.contains_key(d.cursor),
    ensures
        named(c, d) == c,
{
}

/// Naming a cursor that was not met before gives it the next place in the table
/// for its kind: an entry with the declared name and nothing else yet, a
/// `struct` told from a `union`, an `enum` signed exactly if it is one over
/// `int`, a `typedef`, variable or function of type `void`. Nothing else
/// changes; a cursor of any other kind gets no entry at all.
pub proof fn law_first_naming(c: CtxView, d: CXDecl)
    requires
        !c.name.contains_key(d.cursor),
    ensures
        ({
            let r = named(c, d);
            let kind = d.cursor.kind;
            &&& r.match_pat == c.match_pat
            &&& r.link == c.link
            &&& r.out == c.out
            &&& r.globals == c.globals
            &&& r.cur_glob == c.cur_glob
            &&& r.name.contains_key(d.cursor)
            &&& r.name.remove(d.cursor) == c.name
            &&& if kind == CURSOR_STRUCT_DECL || kind == CURSOR_UNION_DECL {
                &&& r.name[d.cursor] == GlobalView::GCompDecl(c.comps.len())
                &&& r.comps.len() == c.comps.len() + 1
                &&& r.comps.drop_last() == c.comps
                &&& r.comps.last().cstruct <==> kind == CURSOR_STRUCT_DECL
                &&& r.comps.last().name == d.spelling@
                &&& r.comps.last().fields.len() == 0
            } else {
                r.comps == c.comps
            }
            &&& if kind == CURSOR_ENUM_DECL {
                &&& r.name[d.cursor] == GlobalView::GEnumDecl(c.enums.len())
                &&& r.enums.len() == c.enums.len() + 1
                &&& r.enums.drop_last() == c.enums
                &&& r.enums.last().name == d.spelling@
                &&& *d.int_type == CXType::Int ==> r.enums.last().kind == IKind::IInt
                &&& *d.int_type != CXType::Int ==> r.enums.last().kind == IKind::IUInt
                &&& r.enums.last().items.len() == 0
            } else {
                r.enums == c.enums
            }
            &&& if kind == CURSOR_TYPEDEF_DECL {
                &&& r.name[d.cursor] == GlobalView::GType(c.typedefs.len())
                &&& r.typedefs.len() == c.typedefs.len() + 1
                &&& r.typedefs.drop_last() == c.typedefs
                &&& r.typedefs.last().name == d.spelling@
                &&& r.typedefs.last().ty == TypeView::TVoid
            } else {
                r.typedefs == c.typedefs
            }
            &&& if kind == CURSOR_VAR_DECL || kind == CURSOR_FUNCTION_DECL {
                &&& kind == CURSOR_VAR_DECL ==> r.name[d.cursor] == GlobalView::GVar(c.vars.len())
                &&& kind == CURSOR_FUNCTION_DECL ==> r.name[d.cursor] == GlobalView::GFunc(
                    c.vars.len(),
                )
                &&& r.vars.len() == c.vars.len() + 1
                &&& r.vars.drop_last() == c.vars
                &&& r.vars.last().name == d.spelling@
                &&& r.vars.last().ty == TypeView::TVoid
            } else {
                r.vars == c.vars
            }
            &&& kind != CURSOR_STRUCT_DECL && kind != CURSOR_UNION_DECL && kind != CURSOR_ENUM_DECL
                && kind != CURSOR_TYPEDEF_DECL && kind != CURSOR_VAR_DECL && kind
                != CURSOR_FUNCTION_DECL ==> r.name[d.cursor] == GlobalView::GOther
        }),
{
    let r = named(c, d);
    assert(r.name.remove(d.cursor) =~= c.name);
    assert(r.comps.len() > c.comps.len() ==> r.comps.drop_last() =~= c.comps);
    assert(r.enums.len() > c.enums.len() ==> r.enums.drop_last() =~= c.enums);
    assert(r.typedefs.len() > c.typedefs.len() ==> r.typedefs.drop_last() =~= c.typedefs);
    assert(r.vars.len() > c.vars.len() ==> r.vars.drop_last() =~= c.vars);
}

/// Putting a declaration down by its name names it, and adds what its cursor was
/// given to what is to be written, behind all else; nothing else changes.
pub proof fn law_declared(c: CtxView, d: CXDecl)
    ensures
        ({
            let n = named(c, d);
            let r = declared(c, d);
            &&& r.globals.len() == c.globals.len() + 1
            &&& r.globals.drop_last() == c.globals
            &&& r.globals.last() == n.name[d.cursor]
            &&& r.match_pat == c.match_pat
            &&& r.link == c.link
            &&& r.out == c.out
            &&& r.cur_glob == c.cur_glob
            &&& r.name == n.name
            &&& r.comps == n.comps
            &&& r.enums == n.enums
            &&& r.typedefs == n.typedefs
            &&& r.vars == n.vars
        }),
{
    assert(declared(c, d).globals.drop_last() =~= c.globals);
}

/// In a sound state every cursor that was met was given a declaration of the
/// sort that its kind calls for, in a place that is there and that no other
/// cursor was given, a `struct` told from a `union`.
pub proof fn law_sound_names(c: CtxView, k: CXCursor, l: CXCursor)
    requires
        c.ok(),
        c.name.contains_key(k),
    ensures
        k.kind == CURSOR_STRUCT_DECL || k.kind == CURSOR_UNION_DECL ==> {
            &&& c.name[k] matches GlobalView::GCompDecl(i)
            &&& i < c.comps.len()
            &&& c.comps[i as int].cstruct <==> k.kind == CURSOR_STRUCT_DECL
        },
        k.kind == CURSOR_ENUM_DECL ==> {
            &&& c.name[k] matches GlobalView::GEnumDecl(i)
            &&& i < c.enums.len()
        },
        k.kind == CURSOR_TYPEDEF_DECL ==> {
            &&& c.name[k] matches GlobalView::GType(i)
            &&& i < c.typedefs.len()
        },
        k.kind == CURSOR_VAR_DECL ==> {
            &&& c.name[k] matches GlobalView::GVar(i)
            &&& i < c.vars.len()
        },
        k.kind == CURSOR_FUNCTION_DECL ==> {
            &&& c.name[k] matches GlobalView::GFunc(i)
            &&& i < c.vars.len()
        },
        k.kind != CURSOR_STRUCT_DECL && k.kind != CURSOR_UNION_DECL && k.kind != CURSOR_ENUM_DECL
            && k.kind != CURSOR_TYPEDEF_DECL && k.kind != CURSOR_VAR_DECL && k.kind
            != CURSOR_FUNCTION_DECL ==> c.name[k] == GlobalView::GOther,
        c.name.contains_key(l) && k != l && c.name[k] == c.name[l] ==> c.name[k]
            == GlobalView::GOther,
        c.name.contains_key(l) && c.name[k] is GVar && c.name[l] is GFunc ==> c.name[k]->GVar_0
            != c.name[l]->GFunc_0,
{
}

/// In a sound state every member and enumerator belongs to the place that it
/// stands at, every type refers to places that are there, and everything that is
/// to be written, or is being visited, has a place that is there.
pub proof fn law_sound_tables(c: CtxView, i: int, j: int)
    requires
        c.ok(),
    ensures
        0 <= i < c.comps.len() && 0 <= j < c.comps[i].fields.len() ==> c.comps[i].fields[j].comp
            == i && c.has_type(c.comps[i].fields[j].ty),
        0 <= i < c.enums.len() && 0 <= j < c.enums[i].items.len() ==> c.enums[i].items[j].host
            == i,
        0 <= i < c.typedefs.len() ==> c.has_type(c.typedefs[i].ty),
        0 <= i < c.vars.len() ==> c.has_type(c.vars[i].ty),
        0 <= i < c.globals.len() ==> c.has(c.globals[i]),
        c.has(c.cur_glob),
{
}

/// A declaration is there if its place is one of the table for its sort; a type
/// refers to places that are there if each of its parts does.
pub proof fn law_what_is_there(
    c: CtxView,
    i: nat,
    t: TypeView,
    args: Seq<(Seq<char>, TypeView)>,
    variadic: bool,
)
    ensures
        c.has(GlobalView::GType(i)) <==> i < c.typedefs.len(),
        c.has(GlobalView::GComp(i)) <==> i < c.comps.len(),
        c.has(GlobalView::GCompDecl(i)) <==> i < c.comps.len(),
        c.has(GlobalView::GEnum(i)) <==> i < c.enums.len(),
        c.has(GlobalView::GEnumDecl(i)) <==> i < c.enums.len(),
        c.has(GlobalView::GVar(i)) <==> i < c.vars.len(),
        c.has(GlobalView::GFunc(i)) <==> i < c.vars.len(),
        c.has(GlobalView::GOther),
        c.has_type(TypeView::TComp(i)) <==> i < c.comps.len(),
        c.has_type(TypeView::TEnum(i)) <==> i < c.enums.len(),
        c.has_type(TypeView::TNamed(i)) <==> i < c.typedefs.len(),
        c.has_type(TypeView::TPtr(Box::new(t))) <==> c.has_type(t),
        c.has_type(TypeView::TArray(Box::new(t), i)) <==> c.has_type(t),
        c.has_type(TypeView::TFunc(Box::new(t), args, variadic)) <==> c.has_type(t) && forall|
            j: int,
        |
            0 <= j < args.len() ==> c.has_type((#[trigger] args[j]).1),
        t is TVoid || t is TInt || t is TFloat ==> c.has_type(t),
{
    reveal_with_fuel(type_ok, 2);
    let f = TypeView::TFunc(Box::new(t), args, variadic);
    if c.has_type(f) {
        assert forall|j: int| 0 <= j < args.len() implies c.has_type((#[trigger] args[j]).1) by {
            assert(type_ok(args[j].1, c.comps.len(), c.enums.len(), c.typedefs.len()));
        }
    }
    if c.has_type(t) && forall|j: int| 0 <= j < args.len() ==> c.has_type((#[trigger] args[j]).1) {
        assert forall|j: int| 0 <= j < args.len() implies type_ok(
            (#[trigger] args[j]).1,
            c.comps.len(),
            c.enums.len(),
            c.typedefs.len(),
        ) by {
            assert(c.has_type(args[j].1));
        }
    }
}

/// The state of a run is sound if what it stands for is.
pub proof fn law_sound_state(ctx: BindGenCtx)
    ensures
        ctx.wf() ==> ctx@.ok(),
        ctx.name.wf() && ctx@.ok() ==> ctx.wf(),
{
}

/// The kinds, linkages and severities are told apart, and are those of libclang.
pub proof fn law_numbers_of_libclang()
    ensures
        CURSOR_STRUCT_DECL == 2,
        CURSOR_UNION_DECL == 3,
        CURSOR_ENUM_DECL == 5,
        CURSOR_FIELD_DECL == 6,
        CURSOR_ENUM_CONSTANT_DECL == 7,
        CURSOR_FUNCTION_DECL == 8,
        CURSOR_VAR_DECL == 9,
        CURSOR_TYPEDEF_DECL == 20,
        CURSOR_INVALID_FILE == 70,
        CURSOR_NO_DECL_FOUND == 71,
        LINKAGE_UNIQUE_EXTERNAL == 3,
        LINKAGE_EXTERNAL == 4,
        DIAGNOSTIC_ERROR == 3,
{
}

} // verus!
