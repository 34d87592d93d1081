//! What a visit to a cursor adds, by what stands at the cursor.

use vstd::prelude::*;

use crate::clang::{
    CXChild, CXChildVisit, CXCursor, CXDecl, CXNode, CXParam, CXType, CURSOR_ENUM_CONSTANT_DECL,
    CURSOR_ENUM_DECL, CURSOR_FIELD_DECL, CURSOR_FUNCTION_DECL, CURSOR_INVALID_FILE,
    CURSOR_NO_DECL_FOUND, CURSOR_STRUCT_DECL, CURSOR_TYPEDEF_DECL, CURSOR_UNION_DECL,
    CURSOR_VAR_DECL, LINKAGE_EXTERNAL, LINKAGE_UNIQUE_EXTERNAL,
};
use crate::context::{
    declared, is_comp, lemma_named, named, names_kept, option_view, place, CtxView,
};
use crate::convert::{
    lemma_named_all, lemma_named_all_append, lemma_shape_stable, named_all, refs, shape,
};
use crate::laws::{
    fields_of, is_var_kind, items_of, law_enumerators_in_order, law_members_in_order,
    lemma_fields_added, lemma_named_all_fresh, lemma_named_then, lemma_params_refs_kinds,
    lemma_refs_kinds, names_no_vars,
};
use crate::text::occurs;
use crate::types::{EnumItemView, FieldView, GlobalView, TypeView};
use crate::visit::{
    field_added, fields_added, forwarded, item_added, items_added, matched, opened, params_refs,
    visit_answer, visited,
};

verus! {

/// What stands in no file is never asked for; what stands in one is if there are
/// no patterns, and else exactly if the name of the file contains one of them.
pub proof fn law_files_asked_for(pats: Seq<Seq<char>>, name: Seq<char>)
    ensures
        !matched(pats, None),
        pats.len() == 0 ==> matched(pats, Some(name)),
        pats.len() > 0 ==> (matched(pats, Some(name)) <==> exists|i: int|
            0 <= i < pats.len() && occurs(name, #[trigger] pats[i])),
{
}

/// The visit goes on below a cursor exactly if it is asked for and is neither an
/// `enum`, a function, a variable, a `typedef` nor a member.
pub proof fn law_where_visits_go(pats: Seq<Seq<char>>, node: CXNode)
    ensures
        visit_answer(pats, node) == CXChildVisit::Recurse <==> {
            &&& matched(pats, option_view(node.file))
            &&& node.decl.cursor.kind != CURSOR_ENUM_DECL
            &&& node.decl.cursor.kind != CURSOR_FUNCTION_DECL
            &&& node.decl.cursor.kind != CURSOR_VAR_DECL
            &&& node.decl.cursor.kind != CURSOR_TYPEDEF_DECL
            &&& node.decl.cursor.kind != CURSOR_FIELD_DECL
        },
{
}

/// A visit adds nothing for what is not asked for; a function or variable of no
/// external linkage; a function, variable or `typedef` that was met before; a
/// `struct`, `union` or `enum` that is defined elsewhere; and any other kind of
/// cursor.
pub proof fn law_nothing_added(c: CtxView, node: CXNode)
    requires
        ({
            let d = node.decl;
            let kind = d.cursor.kind;
            ||| !matched(c.match_pat, option_view(node.file))
            ||| (kind == CURSOR_FUNCTION_DECL || kind == CURSOR_VAR_DECL) && node.linkage
                != LINKAGE_EXTERNAL && node.linkage != LINKAGE_UNIQUE_EXTERNAL
            ||| (kind == CURSOR_FUNCTION_DECL || kind == CURSOR_VAR_DECL || kind
                == CURSOR_TYPEDEF_DECL) && c.name.contains_key(d.cursor)
            ||| (kind == CURSOR_STRUCT_DECL || kind == CURSOR_UNION_DECL || kind
                == CURSOR_ENUM_DECL) && d.cursor != d.definition && d.definition.kind
                != CURSOR_NO_DECL_FOUND && d.definition.kind != CURSOR_INVALID_FILE
            ||| kind != CURSOR_STRUCT_DECL && kind != CURSOR_UNION_DECL && kind
                != CURSOR_ENUM_DECL && kind != CURSOR_FUNCTION_DECL && kind != CURSOR_VAR_DECL
                && kind != CURSOR_TYPEDEF_DECL
        }),
    ensures
        visited(c, node) == c,
{
}

/// A `struct`, `union` or `enum` that is asked for and defined nowhere is put
/// down by its name.
pub proof fn law_undefined_declared(c: CtxView, node: CXNode)
    requires
        matched(c.match_pat, option_view(node.file)),
        node.decl.cursor.kind == CURSOR_STRUCT_DECL || node.decl.cursor.kind == CURSOR_UNION_DECL
            || node.decl.cursor.kind == CURSOR_ENUM_DECL,
        node.decl.cursor != node.decl.definition,
        node.decl.definition.kind == CURSOR_NO_DECL_FOUND || node.decl.definition.kind
            == CURSOR_INVALID_FILE,
    ensures
        visited(c, node) == declared(c, node.decl),
{
}

/// A declaration that is no definition is put down by its name exactly if it is
/// defined nowhere; and so is the declaration of a `struct`, `union` or `enum`
/// type. Nothing is put down for a definition, and for any other type.
pub proof fn law_put_down_if_undefined(c: CtxView, d: CXDecl, ty: CXType)
    ensures
        ({
            let missing = d.definition.kind == CURSOR_NO_DECL_FOUND || d.definition.kind
                == CURSOR_INVALID_FILE;
            &&& forwarded(c, d) == if d.cursor != d.definition && missing {
                declared(c, d)
            } else {
                c
            }
            &&& opened(c, CXType::Record(d)) == if missing {
                declared(c, d)
            } else {
                c
            }
            &&& opened(c, CXType::Enum(d)) == opened(c, CXType::Record(d))
            &&& ty !is Record && ty !is Enum ==> opened(c, ty) == c
        }),
{
}

/// A member is added behind those that the `struct` or `union` being visited
/// has, with its name and its type as the type becomes, once what it names is
/// named; nothing else changes, and what is no member adds nothing.
pub proof fn law_member_added(c: CtxView, child: CXChild, i: nat)
    requires
        c.ok(),
        c.cur_glob == GlobalView::GComp(i) || c.cur_glob == GlobalView::GCompDecl(i),
    ensures
        child.kind != CURSOR_FIELD_DECL ==> field_added(c, child) == c,
        child.kind == CURSOR_FIELD_DECL ==> {
            let n = named_all(c, refs(child.ty));
            let r = field_added(c, child);
            &&& r.comps.len() == n.comps.len()
            &&& i < c.comps.len()
            &&& forall|j: int|
                0 <= j < n.comps.len() && j != i ==> #[trigger] r.comps[j] == n.comps[j]
            &&& r.comps[i as int].cstruct == c.comps[i as int].cstruct
            &&& r.comps[i as int].name == c.comps[i as int].name
            &&& r.comps[i as int].fields.len() == c.comps[i as int].fields.len() + 1
            &&& r.comps[i as int].fields.drop_last() == c.comps[i as int].fields
            &&& r.comps[i as int].fields.last().name == child.spelling@
            &&& r.comps[i as int].fields.last().ty == shape(r.name, child.ty)
            &&& r.comps[i as int].fields.last().comp == i
            &&& r.name == n.name
            &&& r.enums == n.enums
            &&& r.typedefs == n.typedefs
            &&& r.vars == n.vars
            &&& r.match_pat == c.match_pat
            &&& r.link == c.link
            &&& r.out == c.out
            &&& r.globals == c.globals
            &&& r.cur_glob == c.cur_glob
        },
{
    let n = named_all(c, refs(child.ty));
    let r = field_added(c, child);
    lemma_named_all(c, refs(child.ty));
    assert(c.has(c.cur_glob));
    if child.kind == CURSOR_FIELD_DECL {
        assert(n.comps[i as int] == c.comps[i as int]);
        assert(r.comps[i as int].fields.drop_last() =~= c.comps[i as int].fields);
    }
}

/// An enumerator is added behind those that the `enum` being visited has, with
/// its name and its value; nothing else changes, and what is no enumerator adds
/// nothing.
pub proof fn law_enumerator_added(c: CtxView, child: CXChild, i: nat)
    requires
        c.ok(),
        c.cur_glob == GlobalView::GEnum(i) || c.cur_glob == GlobalView::GEnumDecl(i),
    ensures
        child.kind != CURSOR_ENUM_CONSTANT_DECL ==> item_added(c, child) == c,
        child.kind == CURSOR_ENUM_CONSTANT_DECL ==> {
            let r = item_added(c, child);
            &&& r.enums.len() == c.enums.len()
            &&& i < c.enums.len()
            &&& forall|j: int|
                0 <= j < c.enums.len() && j != i ==> #[trigger] r.enums[j] == c.enums[j]
            &&& r.enums[i as int].name == c.enums[i as int].name
            &&& r.enums[i as int].kind == c.enums[i as int].kind
            &&& r.enums[i as int].items.len() == c.enums[i as int].items.len() + 1
            &&& r.enums[i as int].items.drop_last() == c.enums[i as int].items
            &&& r.enums[i as int].items.last().name == child.spelling@
            &&& r.enums[i as int].items.last().val == (child.value as isize) as int
            &&& isize::MIN <= child.value <= isize::MAX ==> r.enums[i as int].items.last().val
                == child.value
            &&& r.enums[i as int].items.last().host == i
            &&& r.name == c.name
            &&& r.comps == c.comps
            &&& r.typedefs == c.typedefs
            &&& r.vars == c.vars
            &&& r.match_pat == c.match_pat
            &&& r.link == c.link
            &&& r.out == c.out
            &&& r.globals == c.globals
            &&& r.cur_glob == c.cur_glob
        },
{
    let r = item_added(c, child);
    assert(c.has(c.cur_glob));
    if child.kind == CURSOR_ENUM_CONSTANT_DECL {
        assert(r.enums[i as int].items.drop_last() =~= c.enums[i as int].items);
    }
}

/// The declarations that the members among the cursors below a `struct` or
/// `union` name, in order.
pub open spec fn member_refs(children: Seq<CXChild>) -> Seq<CXDecl>
    decreases children.len(),
{
    if children.len() == 0 {
        Seq::empty()
    } else if children.last().kind == CURSOR_FIELD_DECL {
        member_refs(children.drop_last()) + refs(children.last().ty)
    } else {
        member_refs(children.drop_last())
    }
}

/// The members below a `struct` or `union` are listed in order: each with its
/// name, its type as the type becomes and the place that it belongs to; what is
/// no member is passed over. They name what the type of each of them names.
pub proof fn law_members_listed(
    names: Map<CXCursor, GlobalView>,
    comp: nat,
    children: Seq<CXChild>,
    child: CXChild,
)
    ensures
        ({
            let before = fields_of(names, comp, children);
            let after = fields_of(names, comp, children.push(child));
            &&& fields_of(names, comp, Seq::empty()).len() == 0
            &&& member_refs(Seq::empty()).len() == 0
            &&& child.kind == CURSOR_FIELD_DECL ==> {
                &&& after.len() == before.len() + 1
                &&& after.drop_last() == before
                &&& after.last().name == child.spelling@
                &&& after.last().ty == shape(names, child.ty)
                &&& after.last().comp == comp
                &&& member_refs(children.push(child)) == member_refs(children) + refs(child.ty)
            }
            &&& child.kind != CURSOR_FIELD_DECL ==> {
                &&& after == before
                &&& member_refs(children.push(child)) == member_refs(children)
            }
        }),
{
    reveal(Seq::filter);
    assert(children.push(child).drop_last() =~= children);
    let none = Seq::<CXChild>::empty();
    assert(fields_of(names, comp, none) =~= Seq::<FieldView>::empty());
    let before = fields_of(names, comp, children);
    let after = fields_of(names, comp, children.push(child));
    if child.kind == CURSOR_FIELD_DECL {
        assert(after.drop_last() =~= before);
    }
}

/// The enumerators below an `enum` are listed in order: each with its name, its
/// value and the place that it belongs to; what is no enumerator is passed over.
pub proof fn law_enumerators_listed(host: nat, children: Seq<CXChild>, child: CXChild)
    ensures
        ({
            let before = items_of(host, children);
            let after = items_of(host, children.push(child));
            &&& items_of(host, Seq::empty()).len() == 0
            &&& child.kind == CURSOR_ENUM_CONSTANT_DECL ==> {
                &&& after.len() == before.len() + 1
                &&& after.drop_last() == before
                &&& after.last().name == child.spelling@
                &&& after.last().val == (child.value as isize) as int
                &&& isize::MIN <= child.value <= isize::MAX ==> after.last().val == child.value
                &&& after.last().host == host
            }
            &&& child.kind != CURSOR_ENUM_CONSTANT_DECL ==> after == before
        }),
{
    reveal(Seq::filter);
    assert(children.push(child).drop_last() =~= children);
    let none = Seq::<CXChild>::empty();
    assert(items_of(host, none) =~= Seq::<EnumItemView>::empty());
    let before = items_of(host, children);
    let after = items_of(host, children.push(child));
    if child.kind == CURSOR_ENUM_CONSTANT_DECL {
        assert(after.drop_last() =~= before);
    }
}

/// Whether two states differ at most in what is to be written, in what is being
/// visited, and in the members at the place `p`.
pub open spec fn alike_but_members(x: CtxView, y: CtxView, p: nat) -> bool {
    &&& x.match_pat == y.match_pat
    &&& x.link == y.link
    &&& x.out == y.out
    &&& x.name == y.name
    &&& x.enums == y.enums
    &&& x.typedefs == y.typedefs
    &&& x.vars == y.vars
    &&& x.comps.len() == y.comps.len()
    &&& forall|i: int|
        #![trigger x.comps[i]]
        #![trigger y.comps[i]]
        0 <= i < x.comps.len() && i != p ==> x.comps[i] == y.comps[i]
    &&& p < x.comps.len()
    &&& x.comps[p as int].cstruct == y.comps[p as int].cstruct
    &&& x.comps[p as int].name == y.comps[p as int].name
}

proof fn lemma_named_all_alike(x: CtxView, y: CtxView, p: nat, ds: Seq<CXDecl>)
    requires
        alike_but_members(x, y, p),
    ensures
        alike_but_members(named_all(x, ds), named_all(y, ds), p),
    decreases ds.len(),
{
    if ds.len() > 0 {
        lemma_named_all_alike(x, y, p, ds.drop_last());
    }
}

proof fn lemma_fields_alike(x: CtxView, y: CtxView, children: Seq<CXChild>)
    requires
        x.ok(),
        is_comp(x.cur_glob),
        alike_but_members(x, y, place(x.cur_glob)),
    ensures
        alike_but_members(
            fields_added(x, children),
            named_all(y, member_refs(children)),
            place(x.cur_glob),
        ),
    decreases children.len(),
{
    if children.len() > 0 {
        let p = place(x.cur_glob);
        let front = children.drop_last();
        let child = children.last();
        let m = fields_added(x, front);
        let k = named_all(y, member_refs(front));
        lemma_fields_alike(x, y, front);
        lemma_fields_added(x, front);
        if child.kind == CURSOR_FIELD_DECL {
            lemma_named_all_append(y, member_refs(front), refs(child.ty));
            lemma_named_all_alike(m, k, p, refs(child.ty));
        }
    }
}

/// The definition of a `struct` or `union` that is asked for is put down with
/// its members, whatever was met before: behind those it had, one for each
/// member below it, in order, with its name and its type as the type becomes.
/// What it is and what its members refer to is named; nothing else changes.
pub proof fn law_comp_definition(c: CtxView, node: CXNode)
    requires
        c.ok(),
        matched(c.match_pat, option_view(node.file)),
        node.decl.cursor.kind == CURSOR_STRUCT_DECL || node.decl.cursor.kind == CURSOR_UNION_DECL,
        node.decl.cursor == node.decl.definition,
    ensures
        ({
            let d = node.decl;
            let n = named_all(named(c, d), member_refs(node.children@));
            let r = visited(c, node);
            &&& r.name.contains_key(d.cursor)
            &&& r.name[d.cursor] matches GlobalView::GCompDecl(p)
            &&& alike_but_members(r, n, p)
            &&& r.globals.len() == c.globals.len() + 1
            &&& r.globals.drop_last() == c.globals
            &&& r.globals.last() == GlobalView::GComp(p)
            &&& r.cur_glob == GlobalView::GComp(p)
            &&& r.comps[p as int].cstruct <==> d.cursor.kind == CURSOR_STRUCT_DECL
            &&& c.name.contains_key(d.cursor) ==> {
                &&& r.comps[p as int].name == c.comps[p as int].name
                &&& r.comps[p as int].fields == c.comps[p as int].fields + fields_of(
                    r.name,
                    p,
                    node.children@,
                )
            }
            &&& !c.name.contains_key(d.cursor) ==> {
                &&& r.comps[p as int].name == d.spelling@
                &&& r.comps[p as int].fields == fields_of(r.name, p, node.children@)
            }
        }),
{
    let d = node.decl;
    let r = visited(c, node);
    law_members_in_order(c, d, node.children@);
    lemma_named(c, d);
    let n = named(c, d);
    assert(n.name.contains_key(d.cursor));
    let p = place(n.name[d.cursor]);
    let g = GlobalView::GComp(p);
    let m = CtxView { cur_glob: g, globals: n.globals.push(g), ..n };
    assert(m.ok()) by {
        assert(m.sorts_agree());
        assert(m.tables_closed());
        assert(m.globals_there());
    }
    assert(n.has(n.name[d.cursor]));
    lemma_fields_alike(m, n, node.children@);
    lemma_fields_added(m, node.children@);
    assert(r == fields_added(m, node.children@));
    assert(r.globals.drop_last() =~= c.globals);
    assert(r.name[d.cursor] == n.name[d.cursor]);
    lemma_named_all(n, member_refs(node.children@));
    assert(named_all(n, member_refs(node.children@)).comps[p as int] == n.comps[p as int]);
    assert(n.comps[p as int].cstruct == (d.cursor.kind == CURSOR_STRUCT_DECL));
}

/// The definition of an `enum` that is asked for is put down with its
/// enumerators, whatever was met before: behind those it had, one for each
/// enumerator below it, in order, with its name and its value. It is named;
/// nothing else changes.
pub proof fn law_enum_definition(c: CtxView, node: CXNode)
    requires
        c.ok(),
        matched(c.match_pat, option_view(node.file)),
        node.decl.cursor.kind == CURSOR_ENUM_DECL,
        node.decl.cursor == node.decl.definition,
    ensures
        ({
            let d = node.decl;
            let n = named(c, d);
            let r = visited(c, node);
            &&& r.name.contains_key(d.cursor)
            &&& r.name[d.cursor] matches GlobalView::GEnumDecl(p)
            &&& p < r.enums.len()
            &&& r.globals.len() == c.globals.len() + 1
            &&& r.globals.drop_last() == c.globals
            &&& r.globals.last() == GlobalView::GEnum(p)
            &&& r.cur_glob == GlobalView::GEnum(p)
            &&& r.name == n.name
            &&& r.comps == c.comps
            &&& r.typedefs == c.typedefs
            &&& r.vars == c.vars
            &&& r.match_pat == c.match_pat
            &&& r.link == c.link
            &&& r.out == c.out
            &&& r.enums.len() == n.enums.len()
            &&& forall|i: int|
                0 <= i < n.enums.len() && i != p ==> #[trigger] r.enums[i] == n.enums[i]
            &&& r.enums[p as int].kind == n.enums[p as int].kind
            &&& r.enums[p as int].name == n.enums[p as int].name
            &&& c.name.contains_key(d.cursor) ==> r.enums[p as int].items
                == c.enums[p as int].items + items_of(p, node.children@)
            &&& !c.name.contains_key(d.cursor) ==> r.enums[p as int].name == d.spelling@
                && r.enums[p as int].items == items_of(p, node.children@)
        }),
{
    let d = node.decl;
    let r = visited(c, node);
    law_enumerators_in_order(c, d, node.children@);
    lemma_named(c, d);
    let n = named(c, d);
    assert(n.name.contains_key(d.cursor));
    let p = place(n.name[d.cursor]);
    let g = GlobalView::GEnum(p);
    let m = CtxView { cur_glob: g, globals: n.globals.push(g), ..n };
    assert(n.has(n.name[d.cursor]));
    lemma_items_alone(m, node.children@);
    assert(r.globals.drop_last() =~= c.globals);
}

proof fn lemma_items_alone(c: CtxView, children: Seq<CXChild>)
    requires
        place(c.cur_glob) < c.enums.len(),
    ensures
        ({
            let p = place(c.cur_glob) as int;
            let r = items_added(c, children);
            &&& r == (CtxView { enums: r.enums, ..c })
            &&& r.enums.len() == c.enums.len()
            &&& forall|i: int|
                0 <= i < c.enums.len() && i != p ==> #[trigger] r.enums[i] == c.enums[i]
            &&& r.enums[p].kind == c.enums[p].kind
            &&& r.enums[p].name == c.enums[p].name
        }),
    decreases children.len(),
{
    if children.len() > 0 {
        lemma_items_alone(c, children.drop_last());
    }
}

/// Parameters name what the type of each of them names, in order.
pub proof fn law_params_names(ps: Seq<CXParam>, p: CXParam)
    ensures
        params_refs(Seq::empty()).len() == 0,
        params_refs(ps.push(p)) == params_refs(ps) + refs(p.ty),
{
    assert(ps.push(p).drop_last() =~= ps);
}

proof fn lemma_no_vars_added(c: CtxView, ds: Seq<CXDecl>)
    requires
        forall|i: int| 0 <= i < ds.len() ==> !is_var_kind((#[trigger] ds[i]).cursor.kind),
    ensures
        named_all(c, ds).vars == c.vars,
    decreases ds.len(),
{
    if ds.len() > 0 {
        let front = ds.drop_last();
        assert forall|i: int| 0 <= i < front.len() implies !is_var_kind(
            (#[trigger] front[i]).cursor.kind,
        ) by {
            assert(front[i] == ds[i]);
        }
        lemma_no_vars_added(c, front);
        assert(!is_var_kind(ds[ds.len() - 1].cursor.kind));
    }
}

/// A function that is asked for, of external linkage and not met before is put
/// down with its name and its type: the result as its type becomes, an argument
/// for each parameter, in order, with its name and its type as that becomes, and
/// variadic exactly if it is. What the parameters and then the result refer to
/// is named first; nothing else changes.
pub proof fn law_function_bound(c: CtxView, node: CXNode)
    requires
        c.ok(),
        matched(c.match_pat, option_view(node.file)),
        node.decl.cursor.kind == CURSOR_FUNCTION_DECL,
        node.linkage == LINKAGE_EXTERNAL || node.linkage == LINKAGE_UNIQUE_EXTERNAL,
        !c.name.contains_key(node.decl.cursor),
    ensures
        ({
            let d = node.decl;
            let n = named_all(c, params_refs(node.args@) + refs(node.result));
            let r = visited(c, node);
            &&& r.name == n.name.insert(d.cursor, GlobalView::GFunc(c.vars.len()))
            &&& r.globals.len() == c.globals.len() + 1
            &&& r.globals.drop_last() == c.globals
            &&& r.globals.last() == GlobalView::GFunc(c.vars.len())
            &&& r.vars.len() == c.vars.len() + 1
            &&& r.vars.drop_last() == c.vars
            &&& r.vars.last().name == d.spelling@
            &&& r.vars.last().ty matches TypeView::TFunc(result, args, variadic)
            &&& *result == shape(r.name, node.result)
            &&& args.len() == node.args@.len()
            &&& forall|i: int|
                0 <= i < node.args@.len() ==> (#[trigger] args[i]).0 == node.args@[i].spelling@
                    && args[i].1 == shape(r.name, node.args@[i].ty)
            &&& variadic <==> node.variadic
            &&& r.comps == n.comps
            &&& r.enums == n.enums
            &&& r.typedefs == n.typedefs
            &&& r.match_pat == c.match_pat
            &&& r.link == c.link
            &&& r.out == c.out
            &&& r.cur_glob == c.cur_glob
        }),
{
    let d = node.decl;
    let ds = params_refs(node.args@) + refs(node.result);
    let n = named_all(c, ds);
    let r = visited(c, node);
    lemma_params_refs_kinds(node.args@);
    lemma_refs_kinds(node.result);
    lemma_named_all_fresh(c, ds);
    lemma_no_vars_added(c, ds);
    lemma_named_all(c, ds);
    assert(names_no_vars(c, n));
    assert(!n.name.contains_key(d.cursor));
    assert(r.vars.drop_last() =~= c.vars);
    assert(r.globals.drop_last() =~= c.globals);
}

/// A variable that is asked for, of external linkage and not met before is put
/// down with its name and what its type becomes. What its type refers to is
/// named first; nothing else changes.
pub proof fn law_variable_bound(c: CtxView, node: CXNode)
    requires
        c.ok(),
        matched(c.match_pat, option_view(node.file)),
        node.decl.cursor.kind == CURSOR_VAR_DECL,
        node.linkage == LINKAGE_EXTERNAL || node.linkage == LINKAGE_UNIQUE_EXTERNAL,
        !c.name.contains_key(node.decl.cursor),
    ensures
        ({
            let d = node.decl;
            let n = named_all(c, refs(node.ty));
            let r = visited(c, node);
            &&& r.name == n.name.insert(d.cursor, GlobalView::GVar(c.vars.len()))
            &&& r.globals.len() == c.globals.len() + 1
            &&& r.globals.drop_last() == c.globals
            &&& r.globals.last() == GlobalView::GVar(c.vars.len())
            &&& r.vars.len() == c.vars.len() + 1
            &&& r.vars.drop_last() == c.vars
            &&& r.vars.last().name == d.spelling@
            &&& r.vars.last().ty == shape(r.name, node.ty)
            &&& r.comps == n.comps
            &&& r.enums == n.enums
            &&& r.typedefs == n.typedefs
            &&& r.match_pat == c.match_pat
            &&& r.link == c.link
            &&& r.out == c.out
            &&& r.cur_glob == c.cur_glob
        }),
{
    let d = node.decl;
    let n = named_all(c, refs(node.ty));
    let r = visited(c, node);
    lemma_refs_kinds(node.ty);
    lemma_named_all_fresh(c, refs(node.ty));
    lemma_no_vars_added(c, refs(node.ty));
    lemma_named_all(c, refs(node.ty));
    assert(names_no_vars(c, n));
    assert(!n.name.contains_key(d.cursor));
    assert(r.vars.drop_last() =~= c.vars);
    assert(r.globals.drop_last() =~= c.globals);
}

proof fn lemma_not_among(c: CtxView, ds: Seq<CXDecl>, k: CXCursor)
    requires
        !c.name.contains_key(k),
        forall|i: int| 0 <= i < ds.len() ==> (#[trigger] ds[i]).cursor != k,
    ensures
        !named_all(c, ds).name.contains_key(k),
    decreases ds.len(),
{
    if ds.len() > 0 {
        let front = ds.drop_last();
        assert forall|i: int| 0 <= i < front.len() implies (#[trigger] front[i]).cursor != k by {
            assert(front[i] == ds[i]);
        }
        lemma_not_among(c, front, k);
        assert(ds[ds.len() - 1].cursor != k);
    }
}

/// A `typedef` that is asked for and not met before is put down with what the
/// type becomes that it gives a name to: the type as it stands, or its canonical
/// form if libclang does not take it apart. The entry has the declared name,
/// unless that type refers to the very `typedef`. After it a `struct`, `union`
/// or `enum` that the type refers to directly and that is defined nowhere is put
/// down by its name. What the type refers to is named first; nothing else
/// changes.
pub proof fn law_typedef_bound(c: CtxView, node: CXNode, ty: CXType)
    requires
        c.ok(),
        matched(c.match_pat, option_view(node.file)),
        node.decl.cursor.kind == CURSOR_TYPEDEF_DECL,
        !c.name.contains_key(node.decl.cursor),
        node.underlying is Unexposed ==> ty == node.canonical,
        node.underlying !is Unexposed ==> ty == node.underlying,
    ensures
        ({
            let d = node.decl;
            let n = named(named_all(c, refs(ty)), d);
            let r = visited(c, node);
            let q = match ty {
                CXType::Record(x) | CXType::Enum(x) => if x.definition.kind == CURSOR_NO_DECL_FOUND
                    || x.definition.kind == CURSOR_INVALID_FILE {
                    named(n, x)
                } else {
                    n
                },
                _ => n,
            };
            &&& r.name.contains_key(d.cursor)
            &&& r.name[d.cursor] matches GlobalView::GType(i)
            &&& c.typedefs.len() <= i < r.typedefs.len()
            &&& r.typedefs[i as int].ty == shape(r.name, ty)
            &&& (forall|j: int| 0 <= j < refs(ty).len() ==> (#[trigger] refs(ty)[j]).cursor
                != d.cursor) ==> r.typedefs[i as int].name == d.spelling@
            &&& r.typedefs[i as int].name == n.typedefs[i as int].name
            &&& r.typedefs.len() == q.typedefs.len()
            &&& forall|j: int|
                0 <= j < q.typedefs.len() && j != i ==> #[trigger] r.typedefs[j] == q.typedefs[j]
            &&& r.name == q.name
            &&& r.comps == q.comps
            &&& r.enums == q.enums
            &&& r.vars == q.vars
            &&& r.match_pat == c.match_pat
            &&& r.link == c.link
            &&& r.out == c.out
            &&& r.cur_glob == c.cur_glob
            &&& r.globals == match ty {
                CXType::Record(x) | CXType::Enum(x) => if x.definition.kind == CURSOR_NO_DECL_FOUND
                    || x.definition.kind == CURSOR_INVALID_FILE {
                    c.globals.push(GlobalView::GType(i)).push(r.name[x.cursor])
                } else {
                    c.globals.push(GlobalView::GType(i))
                },
                _ => c.globals.push(GlobalView::GType(i)),
            }
        }),
{
    let d = node.decl;
    let m = named_all(c, refs(ty));
    let n = named(m, d);
    let r = visited(c, node);
    lemma_named_all(c, refs(ty));
    lemma_named_all_fresh(c, refs(ty));
    lemma_named(m, d);
    lemma_named_then(c, refs(ty), d);
    assert(n.name.contains_key(d.cursor));
    let i = place(n.name[d.cursor]);
    if m.name.contains_key(d.cursor) {
        assert(i >= c.typedefs.len());
    }
    if forall|j: int| 0 <= j < refs(ty).len() ==> (#[trigger] refs(ty)[j]).cursor != d.cursor {
        lemma_not_among(c, refs(ty), d.cursor);
    }
    match ty {
        CXType::Record(x) | CXType::Enum(x) => {
            lemma_named(n, x);
            assert(names_kept(n.name, named(n, x).name));
            lemma_shape_stable(n.name, named(n, x).name, ty);
        },
        _ => {},
    }
}

} // verus!
