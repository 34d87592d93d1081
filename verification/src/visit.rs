//! Visiting a translation unit.

use vstd::prelude::*;

use crate::clang::{
    CXChild, CXChildVisit, CXCursor, CXDecl, CXNode, CXParam, CXType, CURSOR_ENUM_CONSTANT_DECL,
    CURSOR_ENUM_DECL, CURSOR_FIELD_DECL, CURSOR_FUNCTION_DECL, CURSOR_INVALID_FILE,
    CURSOR_NO_DECL_FOUND, CURSOR_STRUCT_DECL, CURSOR_TYPEDEF_DECL, CURSOR_UNION_DECL,
    CURSOR_VAR_DECL, LINKAGE_EXTERNAL, LINKAGE_UNIQUE_EXTERNAL,
};
use crate::context::{
    decl_name, global_compinfo, global_enuminfo, global_typeinfo, global_varinfo, opaque_decl,
    BindGenCtx,
};
use crate::context::{
    declared, is_comp, is_comp_kind, is_enum, lemma_named, named, names_kept, option_view, place,
    type_ok, CtxView,
};
use crate::convert::conv_ty;
use crate::convert::{
    all_named, lemma_extends_trans, lemma_named_all, lemma_named_all_append, lemma_shape_stable,
    lemma_shape_there, named_all, refs, shape,
};
use crate::text::contains;
use crate::text::occurs;
use crate::types::{EnumItem, FieldInfo, Global, Type};
use crate::types::{
    args_view, CompView, EnumItemView, EnumView, FieldView, GlobalView, TypeInfoView,
    TypeView, VarView,
};

verus! {

/// Whether what stands in the file is asked for: in any file where there are no
/// patterns, else in one whose name contains a pattern. What stands in no file
/// never is.
pub open spec fn matched(match_pat: Seq<Seq<char>>, file: Option<Seq<char>>) -> bool {
    match file {
        Some(name) => match_pat.len() == 0 || exists|i: int|
            0 <= i < match_pat.len() && occurs(name, #[trigger] match_pat[i]),
        None => false,
    }
}

/// Whether what stands at the cursor is asked for.
pub fn match_pattern(ctx: &BindGenCtx, node: &CXNode) -> (r: bool)
    ensures
        r == matched(ctx@.match_pat, option_view(node.file)),
{
    let name = match &node.file {
        Some(name) => name,
        None => return false,
    };
    if ctx.match_pat.len() == 0 {
        return true;
    }
    let mut i: usize = 0;
    while i < ctx.match_pat.len()
        invariant
            i <= ctx.match_pat@.len(),
            option_view(node.file) == Some(name@),
            forall|j: int| 0 <= j < i ==> !occurs(name@, #[trigger] ctx@.match_pat[j]),
        decreases ctx.match_pat@.len() - i,
    {
        assert(ctx@.match_pat[i as int] == ctx.match_pat@[i as int]@);
        if contains(name, &ctx.match_pat[i]) {
            return true;
        }
        i = i + 1;
    }
    false
}

/// Whether a cursor says that there is no definition.
pub open spec fn is_missing(definition: CXCursor) -> bool {
    definition.kind == CURSOR_NO_DECL_FOUND || definition.kind == CURSOR_INVALID_FILE
}

/// The state after a declaration was met that may or may not be the definition:
/// put down by its name if there is no definition anywhere.
pub open spec fn forwarded(c: CtxView, d: CXDecl) -> CtxView {
    if d.cursor != d.definition && is_missing(d.definition) {
        declared(c, d)
    } else {
        c
    }
}

/// Tells a definition from a forward declaration, and puts the declaration down
/// by its name if there is no definition anywhere.
pub fn fwd_decl(ctx: &mut BindGenCtx, d: &CXDecl) -> (is_definition: bool)
    requires
        old(ctx).wf(),
    ensures
        final(ctx).wf(),
        is_definition == (d.cursor == d.definition),
        final(ctx)@ == forwarded(old(ctx)@, *d),
{
    if d.cursor == d.definition {
        true
    } else {
        if d.definition.kind == CURSOR_NO_DECL_FOUND || d.definition.kind == CURSOR_INVALID_FILE {
            opaque_decl(ctx, d);
        }
        false
    }
}

/// The state after a type was met: its declaration is put down by its name if
/// there is no definition anywhere.
pub open spec fn opened(c: CtxView, ty: CXType) -> CtxView {
    match ty {
        CXType::Record(d) | CXType::Enum(d) => if is_missing(d.definition) {
            declared(c, d)
        } else {
            c
        },
        _ => c,
    }
}

/// Puts the declaration of a type down by its name if it is defined nowhere.
pub fn opaque_ty(ctx: &mut BindGenCtx, ty: &CXType)
    requires
        old(ctx).wf(),
    ensures
        final(ctx).wf(),
        final(ctx)@ == opened(old(ctx)@, *ty),
{
    match ty {
        CXType::Record(decl) | CXType::Enum(decl) => {
            if decl.definition.kind == CURSOR_NO_DECL_FOUND || decl.definition.kind
                == CURSOR_INVALID_FILE {
                opaque_decl(ctx, decl);
            }
        },
        _ => {},
    }
}

/// The state after a cursor below a `struct` or `union` was visited: a member
/// is added to the one that is being visited.
pub open spec fn field_added(c: CtxView, child: CXChild) -> CtxView {
    if child.kind == CURSOR_FIELD_DECL {
        let n = named_all(c, refs(child.ty));
        let i = place(c.cur_glob);
        let comp = n.comps[i as int];
        let field = FieldView {
            name: child.spelling@,
            ty: shape(n.name, child.ty),
            comp: i,
        };
        CtxView {
            comps: n.comps.update(i as int, CompView { fields: comp.fields.push(field), ..comp }),
            ..n
        }
    } else {
        c
    }
}

/// The state after the cursors below a `struct` or `union` were visited.
pub open spec fn fields_added(c: CtxView, children: Seq<CXChild>) -> CtxView
    decreases children.len(),
{
    if children.len() == 0 {
        c
    } else {
        field_added(fields_added(c, children.drop_last()), children.last())
    }
}

/// The state after a cursor below an `enum` was visited: an enumerator is added
/// to the one that is being visited.
pub open spec fn item_added(c: CtxView, child: CXChild) -> CtxView {
    if child.kind == CURSOR_ENUM_CONSTANT_DECL {
        let i = place(c.cur_glob);
        let info = c.enums[i as int];
        let item = EnumItemView { name: child.spelling@, val: (child.value as isize) as int, host: i };
        CtxView {
            enums: c.enums.update(i as int, EnumView { items: info.items.push(item), ..info }),
            ..c
        }
    } else {
        c
    }
}

/// The state after the cursors below an `enum` were visited.
pub open spec fn items_added(c: CtxView, children: Seq<CXChild>) -> CtxView
    decreases children.len(),
{
    if children.len() == 0 {
        c
    } else {
        item_added(items_added(c, children.drop_last()), children.last())
    }
}

/// Adding a member keeps the state sound.
pub proof fn lemma_field_added(c: CtxView, child: CXChild)
    requires
        c.ok(),
        is_comp(c.cur_glob),
    ensures
        field_added(c, child).ok(),
        field_added(c, child).cur_glob == c.cur_glob,
{
    if child.kind == CURSOR_FIELD_DECL {
        let n = named_all(c, refs(child.ty));
        let r = field_added(c, child);
        let p = place(c.cur_glob) as int;
        lemma_named_all(c, refs(child.ty));
        lemma_shape_there(n, child.ty);
        assert(n.has(n.cur_glob));
        assert(r.tables_closed()) by {
            assert forall|i: int, j: int|
                #![trigger r.comps[i].fields[j]]
                0 <= i < r.comps.len() && 0 <= j < r.comps[i].fields.len() implies {
                &&& r.comps[i].fields[j].comp == i
                &&& r.has_type(r.comps[i].fields[j].ty)
            } by {
                if i != p || j < n.comps[i].fields.len() {
                    assert(r.comps[i].fields[j] == n.comps[i].fields[j]);
                }
            }
            assert forall|i: int, j: int|
                #![trigger r.enums[i].items[j]]
                0 <= i < r.enums.len() && 0 <= j < r.enums[i].items.len() implies r.enums[i].items[j].host
                == i by {
                assert(n.enums[i].items[j].host == i);
            }
            assert forall|i: int| 0 <= i < r.typedefs.len() implies r.has_type(
                (#[trigger] r.typedefs[i]).ty,
            ) by {
                assert(n.has_type(n.typedefs[i].ty));
            }
            assert forall|i: int| 0 <= i < r.vars.len() implies r.has_type(
                (#[trigger] r.vars[i]).ty,
            ) by {
                assert(n.has_type(n.vars[i].ty));
            }
        }
        assert(r.sorts_agree()) by {
            assert forall|k: CXCursor| #[trigger] r.name.contains_key(k) implies n.name.contains_key(
                k,
            ) by {}
        }
    }
}

/// Adding an enumerator keeps the state sound.
pub proof fn lemma_item_added(c: CtxView, child: CXChild)
    requires
        c.ok(),
        is_enum(c.cur_glob),
    ensures
        item_added(c, child).ok(),
        item_added(c, child).cur_glob == c.cur_glob,
{
    if child.kind == CURSOR_ENUM_CONSTANT_DECL {
        let r = item_added(c, child);
        let p = place(c.cur_glob) as int;
        assert(c.has(c.cur_glob));
        assert(r.tables_closed()) by {
            assert forall|i: int, j: int|
                #![trigger r.comps[i].fields[j]]
                0 <= i < r.comps.len() && 0 <= j < r.comps[i].fields.len() implies {
                &&& r.comps[i].fields[j].comp == i
                &&& r.has_type(r.comps[i].fields[j].ty)
            } by {
                assert(c.has_type(c.comps[i].fields[j].ty));
            }
            assert forall|i: int, j: int|
                #![trigger r.enums[i].items[j]]
                0 <= i < r.enums.len() && 0 <= j < r.enums[i].items.len() implies r.enums[i].items[j].host
                == i by {
                if i != p || j < c.enums[i].items.len() {
                    assert(r.enums[i].items[j] == c.enums[i].items[j]);
                }
            }
            assert forall|i: int| 0 <= i < r.typedefs.len() implies r.has_type(
                (#[trigger] r.typedefs[i]).ty,
            ) by {
                assert(c.has_type(c.typedefs[i].ty));
            }
            assert forall|i: int| 0 <= i < r.vars.len() implies r.has_type(
                (#[trigger] r.vars[i]).ty,
            ) by {
                assert(c.has_type(c.vars[i].ty));
            }
        }
        assert(r.sorts_agree());
    }
}

/// Adds a member to the `struct` or `union` that is being visited.
fn add_field(ctx: &mut BindGenCtx, child: &CXChild)
    requires
        old(ctx).wf(),
        is_comp(old(ctx)@.cur_glob),
        child.kind == CURSOR_FIELD_DECL,
    ensures
        final(ctx).wf(),
        final(ctx)@ == field_added(old(ctx)@, *child),
{
    proof {
        lemma_field_added(ctx@, *child);
        lemma_named_all(ctx@, refs(child.ty));
    }
    let ci = global_compinfo(ctx.cur_glob);
    let ty = conv_ty(ctx, &child.ty);
    let name = child.spelling.clone();
    let ghost mid = ctx@;
    assert(mid.has(mid.cur_glob));
    let field = FieldInfo { name, ty, comp: ci };
    let ghost fv = field@;
    ctx.comps[ci].fields.push(field);
    assert(ctx@.comps[ci as int].fields =~= mid.comps[ci as int].fields.push(fv));
    assert(ctx@.comps =~= field_added(old(ctx)@, *child).comps);
}

/// Visits a cursor below a `struct`.
pub fn visit_struct(ctx: &mut BindGenCtx, cursor: &CXChild) -> (r: CXChildVisit)
    requires
        old(ctx).wf(),
        cursor.kind == CURSOR_FIELD_DECL ==> is_comp(old(ctx)@.cur_glob),
    ensures
        final(ctx).wf(),
        final(ctx)@ == field_added(old(ctx)@, *cursor),
        r == CXChildVisit::Continue,
{
    if cursor.kind == CURSOR_FIELD_DECL {
        add_field(ctx, cursor);
    }
    CXChildVisit::Continue
}

/// Visits a cursor below a `union`.
pub fn visit_union(ctx: &mut BindGenCtx, cursor: &CXChild) -> (r: CXChildVisit)
    requires
        old(ctx).wf(),
        cursor.kind == CURSOR_FIELD_DECL ==> is_comp(old(ctx)@.cur_glob),
    ensures
        final(ctx).wf(),
        final(ctx)@ == field_added(old(ctx)@, *cursor),
        r == CXChildVisit::Continue,
{
    if cursor.kind == CURSOR_FIELD_DECL {
        add_field(ctx, cursor);
    }
    CXChildVisit::Continue
}

/// Visits a cursor below an `enum`.
pub fn visit_enum(ctx: &mut BindGenCtx, cursor: &CXChild) -> (r: CXChildVisit)
    requires
        old(ctx).wf(),
        cursor.kind == CURSOR_ENUM_CONSTANT_DECL ==> is_enum(old(ctx)@.cur_glob),
    ensures
        final(ctx).wf(),
        final(ctx)@ == item_added(old(ctx)@, *cursor),
        r == CXChildVisit::Continue,
{
    if cursor.kind == CURSOR_ENUM_CONSTANT_DECL {
        proof {
            lemma_item_added(ctx@, *cursor);
            assert(ctx@.has(ctx@.cur_glob));
        }
        let ei = global_enuminfo(ctx.cur_glob);
        let name = cursor.spelling.clone();
        let val: isize = cursor.value as isize;
        let item = EnumItem { name, val, host: ei };
        let ghost iv = item@;
        ctx.enums[ei].items.push(item);
        assert(ctx@.enums[ei as int].items =~= old(ctx)@.enums[ei as int].items.push(iv));
        assert(ctx@.enums =~= item_added(old(ctx)@, *cursor).enums);
    }
    CXChildVisit::Continue
}

/// Visits the cursors directly below a `struct`, or below a `union`.
fn visit_fields(ctx: &mut BindGenCtx, children: &Vec<CXChild>, cstruct: bool)
    requires
        old(ctx).wf(),
        is_comp(old(ctx)@.cur_glob),
    ensures
        final(ctx).wf(),
        final(ctx)@ == fields_added(old(ctx)@, children@),
{
    let ghost start = ctx@;
    let mut i: usize = 0;
    while i < children.len()
        invariant
            i <= children@.len(),
            ctx.wf(),
            is_comp(ctx@.cur_glob),
            ctx@ == fields_added(start, children@.take(i as int)),
        decreases children@.len() - i,
    {
        proof {
            lemma_field_added(ctx@, children@[i as int]);
            assert(children@.take(i + 1).drop_last() =~= children@.take(i as int));
        }
        if cstruct {
            visit_struct(ctx, &children[i]);
        } else {
            visit_union(ctx, &children[i]);
        }
        i = i + 1;
    }
    assert(children@.take(i as int) =~= children@);
}

/// Visits the cursors directly below an `enum`.
fn visit_items(ctx: &mut BindGenCtx, children: &Vec<CXChild>)
    requires
        old(ctx).wf(),
        is_enum(old(ctx)@.cur_glob),
    ensures
        final(ctx).wf(),
        final(ctx)@ == items_added(old(ctx)@, children@),
{
    let ghost start = ctx@;
    let mut i: usize = 0;
    while i < children.len()
        invariant
            i <= children@.len(),
            ctx.wf(),
            is_enum(ctx@.cur_glob),
            ctx@ == items_added(start, children@.take(i as int)),
        decreases children@.len() - i,
    {
        proof {
            lemma_item_added(ctx@, children@[i as int]);
            assert(children@.take(i + 1).drop_last() =~= children@.take(i as int));
        }
        visit_enum(ctx, &children[i]);
        i = i + 1;
    }
    assert(children@.take(i as int) =~= children@);
}

/// The state after the definition of a `struct` or `union` was met: it is put
/// down with its members.
pub open spec fn comp_defined(c: CtxView, d: CXDecl, children: Seq<CXChild>) -> CtxView {
    let n = named(c, d);
    let g = GlobalView::GComp(place(n.name[d.cursor]));
    fields_added(CtxView { cur_glob: g, globals: n.globals.push(g), ..n }, children)
}

/// The state after the definition of an `enum` was met: it is put down with its
/// enumerators.
pub open spec fn enum_defined(c: CtxView, d: CXDecl, children: Seq<CXChild>) -> CtxView {
    let n = named(c, d);
    let g = GlobalView::GEnum(place(n.name[d.cursor]));
    items_added(CtxView { cur_glob: g, globals: n.globals.push(g), ..n }, children)
}

/// Puts a `struct` or `union` down with its members.
fn define_comp(ctx: &mut BindGenCtx, d: &CXDecl, children: &Vec<CXChild>, cstruct: bool)
    requires
        old(ctx).wf(),
        is_comp_kind(d.cursor.kind),
    ensures
        final(ctx).wf(),
        final(ctx)@ == comp_defined(old(ctx)@, *d, children@),
{
    let decl = decl_name(ctx, d);
    let ghost mid = ctx@;
    let ci = global_compinfo(decl);
    ctx.cur_glob = Global::GComp(ci);
    ctx.globals.push(ctx.cur_glob);
    assert(ctx@.globals =~= mid.globals.push(GlobalView::GComp(ci as nat)));
    visit_fields(ctx, children, cstruct);
}

/// Puts an `enum` down with its enumerators.
fn define_enum(ctx: &mut BindGenCtx, d: &CXDecl, children: &Vec<CXChild>)
    requires
        old(ctx).wf(),
        d.cursor.kind == CURSOR_ENUM_DECL,
    ensures
        final(ctx).wf(),
        final(ctx)@ == enum_defined(old(ctx)@, *d, children@),
{
    let decl = decl_name(ctx, d);
    let ghost mid = ctx@;
    let ei = global_enuminfo(decl);
    ctx.cur_glob = Global::GEnum(ei);
    ctx.globals.push(ctx.cur_glob);
    assert(ctx@.globals =~= mid.globals.push(GlobalView::GEnum(ei as nat)));
    visit_items(ctx, children);
}

/// The declarations that are named when the types of parameters are converted,
/// in order.
pub open spec fn params_refs(params: Seq<CXParam>) -> Seq<CXDecl>
    decreases params.len(),
{
    if params.len() == 0 {
        Seq::empty()
    } else {
        params_refs(params.drop_last()) + refs(params.last().ty)
    }
}

/// What parameters become, given the names of the declarations.
pub open spec fn params_shape(names: Map<CXCursor, GlobalView>, params: Seq<CXParam>) -> Seq<
    (Seq<char>, TypeView),
> {
    params.map_values(|p: CXParam| (p.spelling@, shape(names, p.ty)))
}

proof fn lemma_params_refs(params: Seq<CXParam>, i: int)
    requires
        0 <= i < params.len(),
    ensures
        forall|d: CXDecl| #[trigger]
            refs(params[i].ty).contains(d) ==> params_refs(params).contains(d),
    decreases params.len(),
{
    let front = params.drop_last();
    let a = params_refs(front);
    let b = refs(params.last().ty);
    assert forall|d: CXDecl| #[trigger] refs(params[i].ty).contains(d) implies params_refs(
        params,
    ).contains(d) by {
        if i < front.len() {
            lemma_params_refs(front, i);
            assert(a.contains(d));
            let j = choose|j: int| 0 <= j < a.len() && a[j] == d;
            assert((a + b)[j] == d);
        } else {
            let j = choose|j: int| 0 <= j < b.len() && b[j] == d;
            assert((a + b)[a.len() + j] == d);
        }
    }
}

proof fn lemma_params_named(names: Map<CXCursor, GlobalView>, params: Seq<CXParam>, i: int)
    requires
        0 <= i < params.len(),
        all_named(names, params_refs(params)),
    ensures
        all_named(names, refs(params[i].ty)),
{
    lemma_params_refs(params, i);
    let ds = refs(params[i].ty);
    let all = params_refs(params);
    assert forall|j: int| 0 <= j < ds.len() implies names.contains_key(
        (#[trigger] ds[j]).cursor,
    ) by {
        assert(ds.contains(ds[j]));
        let k = choose|k: int| 0 <= k < all.len() && all[k] == ds[j];
        assert(all[k].cursor == ds[j].cursor);
    }
}

/// What parameters become does not change as further declarations are named.
pub proof fn lemma_params_stable(
    names: Map<CXCursor, GlobalView>,
    more: Map<CXCursor, GlobalView>,
    params: Seq<CXParam>,
)
    requires
        names_kept(names, more),
        all_named(names, params_refs(params)),
    ensures
        params_shape(names, params) == params_shape(more, params),
{
    assert forall|i: int| 0 <= i < params.len() implies #[trigger] params_shape(names, params)[i]
        == params_shape(more, params)[i] by {
        lemma_params_named(names, params, i);
        lemma_shape_stable(names, more, params[i].ty);
    }
    assert(params_shape(names, params) =~= params_shape(more, params));
}

proof fn lemma_args_view(args: Seq<(String, Type)>)
    ensures
        args_view(args) == args.map_values(|a: (String, Type)| (a.0@, a.1@)),
    decreases args.len(),
{
    if args.len() > 0 {
        lemma_args_view(args.drop_last());
    }
    assert(args_view(args) =~= args.map_values(|a: (String, Type)| (a.0@, a.1@)));
}

/// Converts the parameters of a function.
fn conv_params(ctx: &mut BindGenCtx, params: &Vec<CXParam>) -> (r: Vec<(String, Type)>)
    requires
        old(ctx).wf(),
    ensures
        final(ctx).wf(),
        final(ctx)@ == named_all(old(ctx)@, params_refs(params@)),
        args_view(r@) == params_shape(final(ctx)@.name, params@),
{
    let ghost start = ctx@;
    let mut r: Vec<(String, Type)> = Vec::new();
    let mut i: usize = 0;
    while i < params.len()
        invariant
            i <= params@.len(),
            start.ok(),
            ctx.wf(),
            ctx@ == named_all(start, params_refs(params@.take(i as int))),
            args_view(r@) == params_shape(ctx@.name, params@.take(i as int)),
        decreases params@.len() - i,
    {
        let ghost mid = ctx@;
        let ghost before = r@;
        let ghost done = params@.take(i as int);
        let name = params[i].spelling.clone();
        let ty = conv_ty(ctx, &params[i].ty);
        r.push((name, ty));
        proof {
            let p = params@[i as int];
            let next = params@.take(i + 1);
            assert(next.drop_last() =~= done);
            assert(r@.drop_last() =~= before);
            lemma_named_all(start, params_refs(done));
            lemma_named_all(mid, refs(p.ty));
            lemma_named_all_append(start, params_refs(done), refs(p.ty));
            lemma_params_stable(mid.name, ctx@.name, done);
            assert(params_shape(ctx@.name, next) =~= params_shape(ctx@.name, done).push(
                (p.spelling@, shape(ctx@.name, p.ty)),
            ));
        }
        i = i + 1;
    }
    assert(params@.take(i as int) =~= params@);
    r
}

/// The state after a variable or function was given its type and put down.
pub open spec fn var_typed(c: CtxView, g: GlobalView, ty: TypeView) -> CtxView {
    let i = place(g) as int;
    CtxView {
        vars: c.vars.update(i, VarView { ty, ..c.vars[i] }),
        globals: c.globals.push(g),
        ..c
    }
}

/// The state after a `typedef` was given its type and put down.
pub open spec fn typedef_typed(c: CtxView, g: GlobalView, ty: TypeView) -> CtxView {
    let i = place(g) as int;
    CtxView {
        typedefs: c.typedefs.update(i, TypeInfoView { ty, ..c.typedefs[i] }),
        globals: c.globals.push(g),
        ..c
    }
}

/// Giving a variable, function or `typedef` its type keeps the state sound.
pub proof fn lemma_typed(c: CtxView, g: GlobalView, ty: TypeView)
    requires
        c.ok(),
        c.has(g),
        c.has_type(ty),
    ensures
        g is GVar || g is GFunc ==> var_typed(c, g, ty).ok(),
        g is GType ==> typedef_typed(c, g, ty).ok(),
{
    if g is GVar || g is GFunc || g is GType {
        let r = if g is GType {
            typedef_typed(c, g, ty)
        } else {
            var_typed(c, g, ty)
        };
        assert(r.tables_closed()) by {
            assert forall|i: int, j: int|
                #![trigger r.comps[i].fields[j]]
                0 <= i < r.comps.len() && 0 <= j < r.comps[i].fields.len() implies {
                &&& r.comps[i].fields[j].comp == i
                &&& r.has_type(r.comps[i].fields[j].ty)
            } by {
                assert(c.has_type(c.comps[i].fields[j].ty));
            }
            assert forall|i: int, j: int|
                #![trigger r.enums[i].items[j]]
                0 <= i < r.enums.len() && 0 <= j < r.enums[i].items.len() implies r.enums[i].items[j].host
                == i by {
                assert(c.enums[i].items[j].host == i);
            }
            assert forall|i: int| 0 <= i < r.typedefs.len() implies r.has_type(
                (#[trigger] r.typedefs[i]).ty,
            ) by {
                assert(c.has_type(c.typedefs[i].ty));
            }
            assert forall|i: int| 0 <= i < r.vars.len() implies r.has_type(
                (#[trigger] r.vars[i]).ty,
            ) by {
                assert(c.has_type(c.vars[i].ty));
            }
        }
        assert(r.sorts_agree());
    }
}

/// What a function becomes, given the names of the declarations.
pub open spec fn function_shape(names: Map<CXCursor, GlobalView>, node: CXNode) -> TypeView {
    TypeView::TFunc(
        Box::new(shape(names, node.result)),
        params_shape(names, node.args@),
        node.variadic,
    )
}

/// The state after a function was met for the first time.
pub open spec fn function_added(c: CtxView, node: CXNode) -> CtxView {
    let n = named(named_all(c, params_refs(node.args@) + refs(node.result)), node.decl);
    var_typed(n, n.name[node.decl.cursor], function_shape(n.name, node))
}

/// The state after a variable was met for the first time.
pub open spec fn var_added(c: CtxView, node: CXNode) -> CtxView {
    let n = named(named_all(c, refs(node.ty)), node.decl);
    var_typed(n, n.name[node.decl.cursor], shape(n.name, node.ty))
}

/// The type that a `typedef` is written with: in its canonical form if libclang
/// does not take it apart.
pub open spec fn typedef_type(node: CXNode) -> CXType {
    if node.underlying is Unexposed {
        node.canonical
    } else {
        node.underlying
    }
}

/// The state after a `typedef` was met for the first time.
pub open spec fn typedef_added(c: CtxView, node: CXNode) -> CtxView {
    let ty = typedef_type(node);
    let n = named(named_all(c, refs(ty)), node.decl);
    opened(typedef_typed(n, n.name[node.decl.cursor], shape(n.name, ty)), ty)
}

/// What a function becomes refers only to declarations that are there.
pub proof fn lemma_function_there(c: CtxView, node: CXNode)
    requires
        c.ok(),
        all_named(c.name, params_refs(node.args@)),
        all_named(c.name, refs(node.result)),
    ensures
        c.has_type(function_shape(c.name, node)),
{
    lemma_shape_there(c, node.result);
    let args = params_shape(c.name, node.args@);
    assert forall|i: int| 0 <= i < args.len() implies type_ok(
        (#[trigger] args[i]).1,
        c.comps.len(),
        c.enums.len(),
        c.typedefs.len(),
    ) by {
        lemma_params_named(c.name, node.args@, i);
        lemma_shape_there(c, node.args@[i].ty);
    }
}

/// What has a name keeps one as further declarations are named.
pub proof fn lemma_all_named_more(
    names: Map<CXCursor, GlobalView>,
    more: Map<CXCursor, GlobalView>,
    ds: Seq<CXDecl>,
)
    requires
        names_kept(names, more),
        all_named(names, ds),
    ensures
        all_named(more, ds),
{
    assert forall|i: int| 0 <= i < ds.len() implies more.contains_key(
        (#[trigger] ds[i]).cursor,
    ) by {
        assert(names.contains_key(ds[i].cursor));
    }
}

/// Puts a function down with its type.
fn add_function(ctx: &mut BindGenCtx, node: &CXNode)
    requires
        old(ctx).wf(),
        node.decl.cursor.kind == CURSOR_FUNCTION_DECL,
    ensures
        final(ctx).wf(),
        final(ctx)@ == function_added(old(ctx)@, *node),
{
    let ghost c0 = ctx@;
    let args_lst = conv_params(ctx, &node.args);
    let ghost c1 = ctx@;
    let ret_ty = conv_ty(ctx, &node.result);
    let ghost c2 = ctx@;
    let func = decl_name(ctx, &node.decl);
    let ghost n = ctx@;
    let i = global_varinfo(func);
    let ty = Type::TFunc(Box::new(ret_ty), args_lst, node.variadic);
    let ghost tv = ty@;
    proof {
        lemma_named_all(c0, params_refs(node.args@));
        lemma_named_all(c1, refs(node.result));
        lemma_named_all_append(c0, params_refs(node.args@), refs(node.result));
        lemma_named(c2, node.decl);
        lemma_extends_trans(c1, c2, n);
        lemma_params_stable(c1.name, n.name, node.args@);
        lemma_params_stable(c1.name, c2.name, node.args@);
        lemma_shape_stable(c2.name, n.name, node.result);
        lemma_all_named_more(c1.name, n.name, params_refs(node.args@));
        lemma_all_named_more(c2.name, n.name, refs(node.result));
        lemma_function_there(n, *node);
        assert(tv == function_shape(n.name, *node));
        lemma_typed(n, func@, tv);
    }
    ctx.vars[i].ty = ty;
    ctx.globals.push(func);
    assert(ctx@.vars =~= var_typed(n, func@, tv).vars);
    assert(ctx@.globals =~= n.globals.push(func@));
}

/// Puts a variable down with its type.
fn add_var(ctx: &mut BindGenCtx, node: &CXNode)
    requires
        old(ctx).wf(),
        node.decl.cursor.kind == CURSOR_VAR_DECL,
    ensures
        final(ctx).wf(),
        final(ctx)@ == var_added(old(ctx)@, *node),
{
    let ghost c0 = ctx@;
    let ty = conv_ty(ctx, &node.ty);
    let ghost tv = ty@;
    let ghost c1 = ctx@;
    let var = decl_name(ctx, &node.decl);
    let ghost n = ctx@;
    let i = global_varinfo(var);
    proof {
        lemma_named_all(c0, refs(node.ty));
        lemma_named(c1, node.decl);
        lemma_shape_stable(c1.name, n.name, node.ty);
        lemma_all_named_more(c1.name, n.name, refs(node.ty));
        lemma_shape_there(n, node.ty);
        lemma_typed(n, var@, tv);
    }
    ctx.vars[i].ty = ty;
    ctx.globals.push(var);
    assert(ctx@.vars =~= var_typed(n, var@, tv).vars);
    assert(ctx@.globals =~= n.globals.push(var@));
}

/// Puts a `typedef` down with its type, and after it the declaration that its
/// type refers to if that is defined nowhere.
fn add_typedef(ctx: &mut BindGenCtx, node: &CXNode)
    requires
        old(ctx).wf(),
        node.decl.cursor.kind == CURSOR_TYPEDEF_DECL,
    ensures
        final(ctx).wf(),
        final(ctx)@ == typedef_added(old(ctx)@, *node),
{
    let under_ty = match &node.underlying {
        CXType::Unexposed(_) => &node.canonical,
        _ => &node.underlying,
    };
    let ghost c0 = ctx@;
    let ty = conv_ty(ctx, under_ty);
    let ghost tv = ty@;
    let ghost c1 = ctx@;
    let typedef = decl_name(ctx, &node.decl);
    let ghost n = ctx@;
    let i = global_typeinfo(typedef);
    proof {
        lemma_named_all(c0, refs(*under_ty));
        lemma_named(c1, node.decl);
        lemma_shape_stable(c1.name, n.name, *under_ty);
        lemma_all_named_more(c1.name, n.name, refs(*under_ty));
        lemma_shape_there(n, *under_ty);
        lemma_typed(n, typedef@, tv);
    }
    ctx.typedefs[i].ty = ty;
    ctx.globals.push(typedef);
    assert(ctx@.typedefs =~= typedef_typed(n, typedef@, tv).typedefs);
    assert(ctx@.globals =~= n.globals.push(typedef@));
    opaque_ty(ctx, under_ty);
}

/// Whether something of this linkage can be linked with.
pub open spec fn is_exported(linkage: i32) -> bool {
    linkage == LINKAGE_EXTERNAL || linkage == LINKAGE_UNIQUE_EXTERNAL
}

/// The state after a cursor of the translation unit was visited.
pub open spec fn visited(c: CtxView, node: CXNode) -> CtxView {
    let d = node.decl;
    let kind = d.cursor.kind;
    if !matched(c.match_pat, option_view(node.file)) {
        c
    } else if is_comp_kind(kind) {
        if d.cursor == d.definition {
            comp_defined(c, d, node.children@)
        } else {
            forwarded(c, d)
        }
    } else if kind == CURSOR_ENUM_DECL {
        if d.cursor == d.definition {
            enum_defined(c, d, node.children@)
        } else {
            forwarded(c, d)
        }
    } else if kind == CURSOR_FUNCTION_DECL {
        if is_exported(node.linkage) && !c.name.contains_key(d.cursor) {
            function_added(c, node)
        } else {
            c
        }
    } else if kind == CURSOR_VAR_DECL {
        if is_exported(node.linkage) && !c.name.contains_key(d.cursor) {
            var_added(c, node)
        } else {
            c
        }
    } else if kind == CURSOR_TYPEDEF_DECL {
        if !c.name.contains_key(d.cursor) {
            typedef_added(c, node)
        } else {
            c
        }
    } else {
        c
    }
}

/// How the visit goes on after a cursor: below it if it is asked for and is
/// neither an `enum`, a function, a variable, a `typedef` nor a member.
pub open spec fn visit_answer(match_pat: Seq<Seq<char>>, node: CXNode) -> CXChildVisit {
    let kind = node.decl.cursor.kind;
    if !matched(match_pat, option_view(node.file)) || kind == CURSOR_ENUM_DECL || kind
        == CURSOR_FUNCTION_DECL || kind == CURSOR_VAR_DECL || kind == CURSOR_TYPEDEF_DECL || kind
        == CURSOR_FIELD_DECL {
        CXChildVisit::Continue
    } else {
        CXChildVisit::Recurse
    }
}

/// Visits a cursor of the translation unit.
pub fn visit_top(ctx: &mut BindGenCtx, cursor: &CXNode) -> (r: CXChildVisit)
    requires
        old(ctx).wf(),
    ensures
        final(ctx).wf(),
        final(ctx)@ == visited(old(ctx)@, *cursor),
        r == visit_answer(old(ctx)@.match_pat, *cursor),
{
    if !match_pattern(ctx, cursor) {
        return CXChildVisit::Continue;
    }
    let kind = cursor.decl.cursor.kind;
    if kind == CURSOR_STRUCT_DECL {
        if fwd_decl(ctx, &cursor.decl) {
            define_comp(ctx, &cursor.decl, &cursor.children, true);
        }
        return CXChildVisit::Recurse;
    } else if kind == CURSOR_UNION_DECL {
        if fwd_decl(ctx, &cursor.decl) {
            define_comp(ctx, &cursor.decl, &cursor.children, false);
        }
        return CXChildVisit::Recurse;
    } else if kind == CURSOR_ENUM_DECL {
        if fwd_decl(ctx, &cursor.decl) {
            define_enum(ctx, &cursor.decl, &cursor.children);
        }
        return CXChildVisit::Continue;
    } else if kind == CURSOR_FUNCTION_DECL {
        let linkage = cursor.linkage;
        if linkage != LINKAGE_EXTERNAL && linkage != LINKAGE_UNIQUE_EXTERNAL {
            return CXChildVisit::Continue;
        }
        if ctx.name.contains_key(&cursor.decl.cursor) {
            return CXChildVisit::Continue;
        }
        add_function(ctx, cursor);
        return CXChildVisit::Continue;
    } else if kind == CURSOR_VAR_DECL {
        let linkage = cursor.linkage;
        if linkage != LINKAGE_EXTERNAL && linkage != LINKAGE_UNIQUE_EXTERNAL {
            return CXChildVisit::Continue;
        }
        if ctx.name.contains_key(&cursor.decl.cursor) {
            return CXChildVisit::Continue;
        }
        add_var(ctx, cursor);
        return CXChildVisit::Continue;
    } else if kind == CURSOR_TYPEDEF_DECL {
        if ctx.name.contains_key(&cursor.decl.cursor) {
            return CXChildVisit::Continue;
        }
        add_typedef(ctx, cursor);
        return CXChildVisit::Continue;
    } else if kind == CURSOR_FIELD_DECL {
        return CXChildVisit::Continue;
    }
    CXChildVisit::Recurse
}

} // verus!
