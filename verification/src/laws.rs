//! What holds of the library as a whole.

pub mod conversion;
pub mod state;
pub mod visits;

use vstd::prelude::*;

use crate::clang::{
    byte_of, word_bytes, word_len, CXChild, CXChildVisit, CXCursor, CXDecl, CXNode, CXParam,
    CXType, CURSOR_ENUM_CONSTANT_DECL, CURSOR_ENUM_DECL, CURSOR_FIELD_DECL,
    CURSOR_FUNCTION_DECL, CURSOR_TYPEDEF_DECL, CURSOR_VAR_DECL,
};
use crate::context::{
    declared, extends, initial, is_comp, is_comp_kind, is_enum, is_var, lemma_named, named,
    names_kept, option_view, place, CtxView,
};
use crate::convert::{
    all_named, args_refs, lemma_all_named_append, lemma_extends_trans, lemma_named_all,
    lemma_shape_stable, lemma_shape_there, named_all, ptr_refs, refs, shape,
};
use crate::text::occurs;
use crate::types::{EnumItemView, FieldView, GlobalView};
use crate::visit::{
    comp_defined, enum_defined, field_added, fields_added, forwarded, function_added,
    function_shape, is_exported, is_missing, item_added, items_added, lemma_all_named_more,
    lemma_field_added, lemma_function_there, lemma_item_added, lemma_typed, matched, opened,
    params_refs, typedef_added, typedef_type, typedef_typed, var_added, visit_answer, visited,
};

verus! {

proof fn lemma_word_of_bytes(v: usize, w: usize)
    requires
        forall|i: int| 0 <= i < word_len() ==> #[trigger] byte_of(v, i) == byte_of(w, i),
    ensures
        v == w,
{
    assert(byte_of(v, 0) == byte_of(w, 0));
    assert(byte_of(v, 1) == byte_of(w, 1));
    assert(byte_of(v, 2) == byte_of(w, 2));
    assert(byte_of(v, 3) == byte_of(w, 3));
    if usize::BITS == 32 {
        assert(v == w) by (bit_vector)
            requires
                usize::BITS == 32,
                (v >> 0usize) as u8 == (w >> 0usize) as u8,
                (v >> 8usize) as u8 == (w >> 8usize) as u8,
                (v >> 16usize) as u8 == (w >> 16usize) as u8,
                (v >> 24usize) as u8 == (w >> 24usize) as u8,
        ;
    } else {
        assert(byte_of(v, 4) == byte_of(w, 4));
        assert(byte_of(v, 5) == byte_of(w, 5));
        assert(byte_of(v, 6) == byte_of(w, 6));
        assert(byte_of(v, 7) == byte_of(w, 7));
        assert(v == w) by (bit_vector)
            requires
                (v >> 0usize) as u8 == (w >> 0usize) as u8,
                (v >> 8usize) as u8 == (w >> 8usize) as u8,
                (v >> 16usize) as u8 == (w >> 16usize) as u8,
                (v >> 24usize) as u8 == (w >> 24usize) as u8,
                (v >> 32usize) as u8 == (w >> 32usize) as u8,
                (v >> 40usize) as u8 == (w >> 40usize) as u8,
                (v >> 48usize) as u8 == (w >> 48usize) as u8,
                (v >> 56usize) as u8 == (w >> 56usize) as u8,
        ;
    }
}

proof fn lemma_word_bytes_identify(v: usize, w: usize, lsb0: bool)
    requires
        word_bytes(v, lsb0) == word_bytes(w, lsb0),
    ensures
        v == w,
{
    assert forall|i: int| 0 <= i < word_len() implies #[trigger] byte_of(v, i) == byte_of(
        w,
        i,
    ) by {
        let j = if lsb0 {
            i
        } else {
            word_len() - 1 - i
        };
        assert(word_bytes(v, lsb0)[j] == word_bytes(w, lsb0)[j]);
        assert(word_bytes(v, lsb0)[j] == byte_of(v, i));
        assert(word_bytes(w, lsb0)[j] == byte_of(w, i));
    }
    lemma_word_of_bytes(v, w);
}

/// Cursors have the same bytes exactly if they are equal: the bytes by which a
/// cursor can be hashed tell it from every other cursor.
pub proof fn law_bytes_identify(a: CXCursor, b: CXCursor, lsb0: bool)
    ensures
        a.bytes(lsb0) == b.bytes(lsb0) <==> a == b,
{
    if a.bytes(lsb0) == b.bytes(lsb0) {
        let v = a.words();
        let w = b.words();
        let n = word_len() as int;
        assert(n == 4 || n == 8);
        assert forall|k: int| 0 <= k < 5 implies #[trigger] v[k] == w[k] by {
            let start = if n == 4 {
                4 * k
            } else {
                8 * k
            };
            assert forall|j: int| 0 <= j < n implies #[trigger] word_bytes(v[k], lsb0)[j]
                == word_bytes(w[k], lsb0)[j] by {
                assert(a.bytes(lsb0)[start + j] == word_bytes(v[k], lsb0)[j]);
                assert(b.bytes(lsb0)[start + j] == word_bytes(w[k], lsb0)[j]);
            }
            assert(word_bytes(v[k], lsb0) =~= word_bytes(w[k], lsb0));
            lemma_word_bytes_identify(v[k], w[k], lsb0);
        }
        let k = a.kind;
        let l = b.kind;
        assert(v[0] == w[0]);
        assert(k == l) by (bit_vector)
            requires
                k as usize == l as usize,
        ;
        let x = a.xdata;
        let y = b.xdata;
        assert(v[1] == w[1]);
        assert(x == y) by (bit_vector)
            requires
                x as usize == y as usize,
        ;
        assert(v[2] == w[2] && v[3] == w[3] && v[4] == w[4]);
        assert(a.data =~= b.data);
    }
}

/// Whether nothing of `c` is lost or altered in `r`, but for the types of
/// variables, functions and `typedef`s: what was asked for is the same, every
/// cursor keeps the declaration that it was given, every declaration keeps its
/// place, its name and its members, and what was to be written still is, in the
/// same order.
pub open spec fn keeps(c: CtxView, r: CtxView) -> bool {
    &&& r.match_pat == c.match_pat
    &&& r.link == c.link
    &&& r.out == c.out
    &&& names_kept(c.name, r.name)
    &&& c.globals.is_prefix_of(r.globals)
    &&& c.comps.len() <= r.comps.len()
    &&& forall|i: int|
        #![trigger c.comps[i]]
        #![trigger r.comps[i]]
        0 <= i < c.comps.len() ==> {
            &&& r.comps[i].cstruct == c.comps[i].cstruct
            &&& r.comps[i].name == c.comps[i].name
            &&& c.comps[i].fields.is_prefix_of(r.comps[i].fields)
        }
    &&& c.enums.len() <= r.enums.len()
    &&& forall|i: int|
        #![trigger c.enums[i]]
        #![trigger r.enums[i]]
        0 <= i < c.enums.len() ==> {
            &&& r.enums[i].name == c.enums[i].name
            &&& r.enums[i].kind == c.enums[i].kind
            &&& c.enums[i].items.is_prefix_of(r.enums[i].items)
        }
    &&& c.typedefs.len() <= r.typedefs.len()
    &&& forall|i: int|
        #![trigger c.typedefs[i]]
        #![trigger r.typedefs[i]]
        0 <= i < c.typedefs.len() ==> r.typedefs[i].name == c.typedefs[i].name
    &&& c.vars.len() <= r.vars.len()
    &&& forall|i: int|
        #![trigger c.vars[i]]
        #![trigger r.vars[i]]
        0 <= i < c.vars.len() ==> r.vars[i].name == c.vars[i].name
}

proof fn lemma_prefix_trans<A>(a: Seq<A>, b: Seq<A>, c: Seq<A>)
    requires
        a.is_prefix_of(b),
        b.is_prefix_of(c),
    ensures
        a.is_prefix_of(c),
{
    assert(a =~= c.take(a.len() as int));
}

proof fn lemma_keeps_trans(c: CtxView, d: CtxView, e: CtxView)
    requires
        keeps(c, d),
        keeps(d, e),
    ensures
        keeps(c, e),
{
    lemma_prefix_trans(c.globals, d.globals, e.globals);
    assert forall|i: int|
        #![trigger c.comps[i]]
        #![trigger e.comps[i]]
        0 <= i < c.comps.len() implies {
        &&& e.comps[i].cstruct == c.comps[i].cstruct
        &&& e.comps[i].name == c.comps[i].name
        &&& c.comps[i].fields.is_prefix_of(e.comps[i].fields)
    } by {
        assert(d.comps[i].name == c.comps[i].name);
        lemma_prefix_trans(c.comps[i].fields, d.comps[i].fields, e.comps[i].fields);
    }
    assert forall|i: int|
        #![trigger c.enums[i]]
        #![trigger e.enums[i]]
        0 <= i < c.enums.len() implies {
        &&& e.enums[i].name == c.enums[i].name
        &&& e.enums[i].kind == c.enums[i].kind
        &&& c.enums[i].items.is_prefix_of(e.enums[i].items)
    } by {
        assert(d.enums[i].name == c.enums[i].name);
        lemma_prefix_trans(c.enums[i].items, d.enums[i].items, e.enums[i].items);
    }
    assert forall|i: int|
        #![trigger c.typedefs[i]]
        #![trigger e.typedefs[i]]
        0 <= i < c.typedefs.len() implies e.typedefs[i].name == c.typedefs[i].name by {
        assert(d.typedefs[i].name == c.typedefs[i].name);
    }
    assert forall|i: int|
        #![trigger c.vars[i]]
        #![trigger e.vars[i]]
        0 <= i < c.vars.len() implies e.vars[i].name == c.vars[i].name by {
        assert(d.vars[i].name == c.vars[i].name);
    }
}

proof fn lemma_extends_keeps(c: CtxView, n: CtxView)
    requires
        extends(c, n),
    ensures
        keeps(c, n),
{
}

proof fn lemma_declared(c: CtxView, d: CXDecl)
    requires
        c.ok(),
    ensures
        declared(c, d).ok(),
        keeps(c, declared(c, d)),
{
    lemma_named(c, d);
    lemma_extends_keeps(c, named(c, d));
    let n = named(c, d);
    let r = declared(c, d);
    assert(n.name.contains_key(d.cursor));
    assert(n.has(n.name[d.cursor]));
    assert(r.sorts_agree());
    assert(r.tables_closed());
    assert(r.globals_there());
}

proof fn lemma_fields_added(c: CtxView, children: Seq<CXChild>)
    requires
        c.ok(),
        is_comp(c.cur_glob),
    ensures
        fields_added(c, children).ok(),
        fields_added(c, children).cur_glob == c.cur_glob,
        keeps(c, fields_added(c, children)),
        fields_added(c, children).globals == c.globals,
    decreases children.len(),
{
    if children.len() > 0 {
        let front = children.drop_last();
        let child = children.last();
        lemma_fields_added(c, front);
        let m = fields_added(c, front);
        lemma_field_added(m, child);
        let n = named_all(m, refs(child.ty));
        lemma_named_all(m, refs(child.ty));
        lemma_extends_keeps(m, n);
        let r = field_added(m, child);
        if child.kind == CURSOR_FIELD_DECL {
            assert(keeps(n, r));
            lemma_keeps_trans(m, n, r);
        }
        lemma_keeps_trans(c, m, r);
    }
}

proof fn lemma_items_added(c: CtxView, children: Seq<CXChild>)
    requires
        c.ok(),
        is_enum(c.cur_glob),
    ensures
        items_added(c, children).ok(),
        items_added(c, children).cur_glob == c.cur_glob,
        keeps(c, items_added(c, children)),
        items_added(c, children).globals == c.globals,
    decreases children.len(),
{
    if children.len() > 0 {
        let m = items_added(c, children.drop_last());
        lemma_items_added(c, children.drop_last());
        lemma_item_added(m, children.last());
        lemma_keeps_trans(c, m, item_added(m, children.last()));
    }
}

proof fn lemma_forwarded(c: CtxView, d: CXDecl)
    requires
        c.ok(),
    ensures
        forwarded(c, d).ok(),
        keeps(c, forwarded(c, d)),
{
    lemma_declared(c, d);
}

proof fn lemma_opened(c: CtxView, ty: CXType)
    requires
        c.ok(),
    ensures
        opened(c, ty).ok(),
        keeps(c, opened(c, ty)),
{
    match ty {
        CXType::Record(d) | CXType::Enum(d) => lemma_declared(c, d),
        _ => {},
    }
}

proof fn lemma_comp_defined(c: CtxView, d: CXDecl, children: Seq<CXChild>)
    requires
        c.ok(),
        is_comp_kind(d.cursor.kind),
    ensures
        comp_defined(c, d, children).ok(),
        keeps(c, comp_defined(c, d, children)),
{
    let n = named(c, d);
    lemma_named(c, d);
    lemma_extends_keeps(c, n);
    assert(n.name.contains_key(d.cursor));
    let g = GlobalView::GComp(place(n.name[d.cursor]));
    let m = CtxView { cur_glob: g, globals: n.globals.push(g), ..n };
    assert(m.ok()) by {
        assert(m.sorts_agree());
        assert(m.tables_closed());
        assert(m.globals_there());
    }
    assert(keeps(n, m));
    lemma_fields_added(m, children);
    lemma_keeps_trans(c, n, m);
    lemma_keeps_trans(c, m, fields_added(m, children));
}

proof fn lemma_enum_defined(c: CtxView, d: CXDecl, children: Seq<CXChild>)
    requires
        c.ok(),
        d.cursor.kind == CURSOR_ENUM_DECL,
    ensures
        enum_defined(c, d, children).ok(),
        keeps(c, enum_defined(c, d, children)),
{
    let n = named(c, d);
    lemma_named(c, d);
    lemma_extends_keeps(c, n);
    assert(n.name.contains_key(d.cursor));
    let g = GlobalView::GEnum(place(n.name[d.cursor]));
    let m = CtxView { cur_glob: g, globals: n.globals.push(g), ..n };
    assert(m.ok()) by {
        assert(m.sorts_agree());
        assert(m.tables_closed());
        assert(m.globals_there());
    }
    assert(keeps(n, m));
    lemma_items_added(m, children);
    lemma_keeps_trans(c, n, m);
    lemma_keeps_trans(c, m, items_added(m, children));
}

/// Naming the declarations of a list and then one more.
proof fn lemma_named_then(c: CtxView, ds: Seq<CXDecl>, d: CXDecl)
    requires
        c.ok(),
    ensures
        ({
            let n = named(named_all(c, ds), d);
            &&& n.ok()
            &&& extends(c, n)
            &&& keeps(c, n)
            &&& all_named(n.name, ds)
            &&& n.name.contains_key(d.cursor)
            &&& n.has(n.name[d.cursor])
        }),
{
    let m = named_all(c, ds);
    let n = named(m, d);
    lemma_named_all(c, ds);
    lemma_named(m, d);
    lemma_extends_trans(c, m, n);
    lemma_extends_keeps(c, n);
    lemma_all_named_more(m.name, n.name, ds);
}

proof fn lemma_function_added(c: CtxView, node: CXNode)
    requires
        c.ok(),
        node.decl.cursor.kind == CURSOR_FUNCTION_DECL,
    ensures
        function_added(c, node).ok(),
        keeps(c, function_added(c, node)),
        function_added(c, node).name.contains_key(node.decl.cursor),
        function_added(c, node).globals == c.globals.push(
            function_added(c, node).name[node.decl.cursor],
        ),
{
    let ds = params_refs(node.args@) + refs(node.result);
    let n = named(named_all(c, ds), node.decl);
    lemma_named_then(c, ds, node.decl);
    lemma_all_named_append(n.name, params_refs(node.args@), refs(node.result));
    lemma_function_there(n, node);
    let g = n.name[node.decl.cursor];
    assert(g is GFunc);
    lemma_typed(n, g, function_shape(n.name, node));
    assert(keeps(n, function_added(c, node)));
    lemma_keeps_trans(c, n, function_added(c, node));
}

proof fn lemma_var_added(c: CtxView, node: CXNode)
    requires
        c.ok(),
        node.decl.cursor.kind == CURSOR_VAR_DECL,
    ensures
        var_added(c, node).ok(),
        keeps(c, var_added(c, node)),
        var_added(c, node).name.contains_key(node.decl.cursor),
        var_added(c, node).globals == c.globals.push(
            var_added(c, node).name[node.decl.cursor],
        ),
{
    let n = named(named_all(c, refs(node.ty)), node.decl);
    lemma_named_then(c, refs(node.ty), node.decl);
    lemma_shape_there(n, node.ty);
    let g = n.name[node.decl.cursor];
    assert(g is GVar);
    lemma_typed(n, g, shape(n.name, node.ty));
    assert(keeps(n, var_added(c, node)));
    lemma_keeps_trans(c, n, var_added(c, node));
}

proof fn lemma_typedef_added(c: CtxView, node: CXNode)
    requires
        c.ok(),
        node.decl.cursor.kind == CURSOR_TYPEDEF_DECL,
    ensures
        typedef_added(c, node).ok(),
        keeps(c, typedef_added(c, node)),
        typedef_added(c, node).name.contains_key(node.decl.cursor),
{
    let ty = typedef_type(node);
    let n = named(named_all(c, refs(ty)), node.decl);
    lemma_named_then(c, refs(ty), node.decl);
    lemma_shape_there(n, ty);
    let g = n.name[node.decl.cursor];
    assert(g is GType);
    lemma_typed(n, g, shape(n.name, ty));
    let m = typedef_typed(n, g, shape(n.name, ty));
    assert(keeps(n, m));
    lemma_opened(m, ty);
    lemma_keeps_trans(c, n, m);
    lemma_keeps_trans(c, m, opened(m, ty));
    assert(m.name.contains_key(node.decl.cursor));
}

/// Visiting a cursor keeps the state sound, and neither loses nor alters what
/// the visits before it have collected.
pub proof fn law_visit_keeps(c: CtxView, node: CXNode)
    requires
        c.ok(),
    ensures
        visited(c, node).ok(),
        keeps(c, visited(c, node)),
{
    let d = node.decl;
    let kind = d.cursor.kind;
    lemma_forwarded(c, d);
    if is_comp_kind(kind) {
        lemma_comp_defined(c, d, node.children@);
    } else if kind == CURSOR_ENUM_DECL {
        lemma_enum_defined(c, d, node.children@);
    } else if kind == CURSOR_FUNCTION_DECL {
        lemma_function_added(c, node);
    } else if kind == CURSOR_VAR_DECL {
        lemma_var_added(c, node);
    } else if kind == CURSOR_TYPEDEF_DECL {
        lemma_typedef_added(c, node);
    }
}

/// What stands in a file that is not asked for, or in none, leaves the state as
/// it is, and nothing below it is visited.
pub proof fn law_unmatched_ignored(c: CtxView, node: CXNode)
    requires
        !matched(c.match_pat, option_view(node.file)),
    ensures
        visited(c, node) == c,
        visit_answer(c.match_pat, node) == CXChildVisit::Continue,
{
}

/// Visiting a function, variable or `typedef` a second time changes nothing.
pub proof fn law_second_visit(c: CtxView, node: CXNode)
    requires
        c.ok(),
        node.decl.cursor.kind == CURSOR_FUNCTION_DECL || node.decl.cursor.kind == CURSOR_VAR_DECL
            || node.decl.cursor.kind == CURSOR_TYPEDEF_DECL,
    ensures
        visited(visited(c, node), node) == visited(c, node),
{
    law_visit_keeps(c, node);
    if node.decl.cursor.kind == CURSOR_FUNCTION_DECL {
        lemma_function_added(c, node);
    } else if node.decl.cursor.kind == CURSOR_VAR_DECL {
        lemma_var_added(c, node);
    } else {
        lemma_typedef_added(c, node);
    }
}

proof fn lemma_already_named(c: CtxView, ds: Seq<CXDecl>)
    requires
        all_named(c.name, ds),
    ensures
        named_all(c, ds) == c,
    decreases ds.len(),
{
    if ds.len() > 0 {
        let front = ds.drop_last();
        assert forall|i: int| 0 <= i < front.len() implies c.name.contains_key(
            (#[trigger] front[i]).cursor,
        ) by {
            assert(front[i] == ds[i]);
        }
        lemma_already_named(c, front);
        assert(c.name.contains_key(ds[ds.len() - 1].cursor));
    }
}

/// A type is converted alike throughout a run: converting it again, however
/// much has been collected meanwhile, gives the same type and changes nothing.
pub proof fn law_conversion_repeats(c: CtxView, ty: CXType, later: CtxView)
    requires
        c.ok(),
        keeps(named_all(c, refs(ty)), later),
    ensures
        named_all(later, refs(ty)) == later,
        shape(later.name, ty) == shape(named_all(c, refs(ty)).name, ty),
{
    let n = named_all(c, refs(ty));
    lemma_named_all(c, refs(ty));
    lemma_all_named_more(n.name, later.name, refs(ty));
    lemma_already_named(later, refs(ty));
    lemma_shape_stable(n.name, later.name, ty);
}

/// The state after cursors of the translation unit were visited one after the
/// other.
pub open spec fn visited_all(c: CtxView, nodes: Seq<CXNode>) -> CtxView
    decreases nodes.len(),
{
    if nodes.len() == 0 {
        c
    } else {
        visited(visited_all(c, nodes.drop_last()), nodes.last())
    }
}

/// Whatever is visited, the state stays sound from the start of a run to its
/// end, and nothing that was collected is lost or altered on the way: each
/// cursor has one declaration of the sort that its kind calls for, no two share
/// one, each member belongs to what holds it, and every type and everything that
/// is to be written refers to declarations that are there.
pub proof fn law_run_sound(
    match_pat: Seq<Seq<char>>,
    link: Option<Seq<char>>,
    out: Option<Seq<char>>,
    nodes: Seq<CXNode>,
    k: int,
)
    requires
        0 <= k <= nodes.len(),
    ensures
        visited_all(initial(match_pat, link, out), nodes).ok(),
        keeps(
            visited_all(initial(match_pat, link, out), nodes.take(k)),
            visited_all(initial(match_pat, link, out), nodes),
        ),
    decreases nodes.len(),
{
    let c = initial(match_pat, link, out);
    if k == nodes.len() {
        assert(nodes.take(k) =~= nodes);
    }
    if nodes.len() > 0 {
        let front = nodes.drop_last();
        let m = visited_all(c, front);
        if k < nodes.len() {
            law_run_sound(match_pat, link, out, front, k);
            assert(front.take(k) =~= nodes.take(k));
            law_visit_keeps(m, nodes.last());
            lemma_keeps_trans(visited_all(c, nodes.take(k)), m, visited_all(c, nodes));
        } else {
            law_run_sound(match_pat, link, out, front, front.len() as int);
            law_visit_keeps(m, nodes.last());
        }
    }
}

/// What stands in files that are not asked for has no part in what is
/// collected: a run gives what it gives on the cursors that are asked for.
pub proof fn law_only_asked_for(c: CtxView, nodes: Seq<CXNode>)
    requires
        c.ok(),
    ensures
        visited_all(c, nodes) == visited_all(
            c,
            nodes.filter(|node: CXNode| matched(c.match_pat, option_view(node.file))),
        ),
        visited_all(c, nodes).ok(),
        visited_all(c, nodes).match_pat == c.match_pat,
    decreases nodes.len(),
{
    let asked = |node: CXNode| matched(c.match_pat, option_view(node.file));
    reveal(Seq::filter);
    if nodes.len() > 0 {
        let front = nodes.drop_last();
        law_only_asked_for(c, front);
        let m = visited_all(c, front);
        law_visit_keeps(m, nodes.last());
        if asked(nodes.last()) {
            assert(nodes.filter(asked).drop_last() =~= front.filter(asked));
        } else {
            law_unmatched_ignored(m, nodes.last());
        }
    }
}


/// Whether a declaration is one that is written once: a variable, a function or
/// a `typedef`.
pub open spec fn is_written_once(g: GlobalView) -> bool {
    is_var(g) || g is GType
}

/// Whether a cursor is of the kind of a function or variable.
pub open spec fn is_var_kind(kind: i32) -> bool {
    kind == CURSOR_FUNCTION_DECL || kind == CURSOR_VAR_DECL
}

/// Whether the declaration of a `struct`, `union` or `enum` type is not that of
/// a function, variable or `typedef`.
pub open spec fn is_proper_type(ty: CXType) -> bool {
    match ty {
        CXType::Record(d) | CXType::Enum(d) => !is_var_kind(d.cursor.kind) && d.cursor.kind
            != CURSOR_TYPEDEF_DECL,
        _ => true,
    }
}

/// Whether the type that a `typedef` gives a name to is proper.
pub open spec fn is_proper(node: CXNode) -> bool {
    is_proper_type(typedef_type(node))
}

/// Whether no variable, function or `typedef` stands twice in what is to be
/// written.
pub open spec fn none_twice(globals: Seq<GlobalView>) -> bool {
    forall|i: int, j: int|
        0 <= i < j < globals.len() && is_written_once(#[trigger] globals[i]) ==> globals[i]
            != #[trigger] globals[j]
}

/// Whether every function and variable that was given a name is to be written.
pub open spec fn all_written(c: CtxView) -> bool {
    forall|k: CXCursor| #[trigger]
        c.name.contains_key(k) && is_var_kind(k.kind) ==> c.globals.contains(c.name[k])
}

/// Whether the cursors named in `r` and not in `c` were given places that were
/// free in `c`.
spec fn names_fresh(c: CtxView, r: CtxView) -> bool {
    forall|k: CXCursor| #[trigger]
        r.name.contains_key(k) && !c.name.contains_key(k) ==> {
            &&& is_var(r.name[k]) ==> place(r.name[k]) >= c.vars.len()
            &&& r.name[k] is GType ==> place(r.name[k]) >= c.typedefs.len()
        }
}

/// Whether the cursors named in `r` and not in `c` are no functions and no
/// variables.
spec fn names_no_vars(c: CtxView, r: CtxView) -> bool {
    forall|k: CXCursor| #[trigger]
        r.name.contains_key(k) && !c.name.contains_key(k) ==> !is_var_kind(k.kind)
}

proof fn lemma_refs_kinds(ty: CXType)
    ensures
        forall|i: int|
            0 <= i < refs(ty).len() ==> !is_var_kind((#[trigger] refs(ty)[i]).cursor.kind),
        forall|i: int|
            0 <= i < ptr_refs(ty).len() ==> !is_var_kind(
                (#[trigger] ptr_refs(ty)[i]).cursor.kind,
            ),
    decreases ty, 0int,
{
    reveal_with_fuel(refs, 2);
    reveal_with_fuel(ptr_refs, 2);
    match ty {
        CXType::Pointer(p) => lemma_refs_kinds(*p),
        CXType::ConstantArray(e, _) => lemma_refs_kinds(*e),
        CXType::Typedef(_, u) => lemma_refs_kinds(*u),
        CXType::Unexposed(s) | CXType::FunctionProto(s) | CXType::FunctionNoProto(s) => {
            lemma_args_refs_kinds(s.args@);
            lemma_refs_kinds(*s.result);
        },
        _ => {},
    }
}

proof fn lemma_args_refs_kinds(args: Seq<CXType>)
    ensures
        forall|i: int|
            0 <= i < args_refs(args).len() ==> !is_var_kind(
                (#[trigger] args_refs(args)[i]).cursor.kind,
            ),
    decreases args, 0int,
{
    if args.len() > 0 {
        lemma_args_refs_kinds(args.drop_last());
        lemma_refs_kinds(args.last());
    }
}

proof fn lemma_params_refs_kinds(params: Seq<CXParam>)
    ensures
        forall|i: int|
            0 <= i < params_refs(params).len() ==> !is_var_kind(
                (#[trigger] params_refs(params)[i]).cursor.kind,
            ),
    decreases params.len(),
{
    if params.len() > 0 {
        lemma_params_refs_kinds(params.drop_last());
        lemma_refs_kinds(params.last().ty);
    }
}

proof fn lemma_named_all_fresh(c: CtxView, ds: Seq<CXDecl>)
    requires
        c.ok(),
    ensures
        names_fresh(c, named_all(c, ds)),
        (forall|i: int| 0 <= i < ds.len() ==> !is_var_kind((#[trigger] ds[i]).cursor.kind))
            ==> names_no_vars(c, named_all(c, ds)),
    decreases ds.len(),
{
    if ds.len() > 0 {
        let front = ds.drop_last();
        let m = named_all(c, front);
        lemma_named_all_fresh(c, front);
        lemma_named_all(c, front);
        lemma_named(m, ds.last());
        assert(forall|i: int| 0 <= i < front.len() ==> #[trigger] front[i] == ds[i]);
        assert(ds.last() == ds[ds.len() - 1]);
    }
}

proof fn lemma_fields_no_vars(c: CtxView, children: Seq<CXChild>)
    requires
        c.ok(),
        is_comp(c.cur_glob),
    ensures
        names_no_vars(c, fields_added(c, children)),
    decreases children.len(),
{
    if children.len() > 0 {
        let m = fields_added(c, children.drop_last());
        lemma_fields_no_vars(c, children.drop_last());
        lemma_fields_added(c, children.drop_last());
        lemma_refs_kinds(children.last().ty);
        lemma_named_all_fresh(m, refs(children.last().ty));
    }
}

proof fn lemma_items_names(c: CtxView, children: Seq<CXChild>)
    ensures
        items_added(c, children).name == c.name,
    decreases children.len(),
{
    if children.len() > 0 {
        lemma_items_names(c, children.drop_last());
    }
}

/// What is put down once and is not there yet can be put down.
proof fn lemma_push_once(globals: Seq<GlobalView>, g: GlobalView)
    requires
        none_twice(globals),
        is_written_once(g) ==> !globals.contains(g),
    ensures
        none_twice(globals.push(g)),
{
    let r = globals.push(g);
    assert forall|i: int, j: int|
        0 <= i < j < r.len() && is_written_once(#[trigger] r[i]) implies r[i]
        != #[trigger] r[j] by {
        assert(r[i] == globals[i]);
        if j < globals.len() {
            assert(r[j] == globals[j]);
        } else if r[i] == r[j] {
            assert(globals.contains(g));
        }
    }
}

/// Further names, none of functions or variables, and a longer list of what is
/// to be written.
proof fn lemma_still_written(c: CtxView, r: CtxView)
    requires
        all_written(c),
        keeps(c, r),
        names_no_vars(c, r),
    ensures
        all_written(r),
{
    assert forall|k: CXCursor| #[trigger]
        r.name.contains_key(k) && is_var_kind(k.kind) implies r.globals.contains(r.name[k]) by {
        assert(c.name.contains_key(k));
        let i = choose|i: int| 0 <= i < c.globals.len() && c.globals[i] == c.name[k];
        assert(r.globals[i] == r.name[k]);
    }
}

proof fn lemma_declared_step(c: CtxView, d: CXDecl)
    requires
        c.ok(),
        none_twice(c.globals),
        all_written(c),
        !is_var_kind(d.cursor.kind),
        d.cursor.kind != CURSOR_TYPEDEF_DECL,
    ensures
        none_twice(declared(c, d).globals),
        all_written(declared(c, d)),
{
    lemma_declared(c, d);
    lemma_named(c, d);
    let n = named(c, d);
    assert(n.name.contains_key(d.cursor));
    lemma_push_once(c.globals, n.name[d.cursor]);
    assert(names_no_vars(c, declared(c, d)));
    lemma_still_written(c, declared(c, d));
}

/// A new function, variable or `typedef` is not yet to be written.
proof fn lemma_not_yet(c: CtxView, ds: Seq<CXDecl>, d: CXDecl)
    requires
        c.ok(),
        !c.name.contains_key(d.cursor),
    ensures
        ({
            let n = named(named_all(c, ds), d);
            is_written_once(n.name[d.cursor]) ==> !c.globals.contains(n.name[d.cursor])
        }),
{
    let m = named_all(c, ds);
    let n = named(m, d);
    lemma_named_all_fresh(c, ds);
    lemma_named_all(c, ds);
    lemma_named(m, d);
    let g = n.name[d.cursor];
    if is_written_once(g) && c.globals.contains(g) {
        let i = choose|i: int| 0 <= i < c.globals.len() && c.globals[i] == g;
        assert(c.has(c.globals[i]));
        if m.name.contains_key(d.cursor) {
            assert(m.name[d.cursor] == g);
        }
        assert(false);
    }
}

/// After a new function or variable was put down.
proof fn lemma_var_step(c: CtxView, ds: Seq<CXDecl>, d: CXDecl, r: CtxView)
    requires
        c.ok(),
        none_twice(c.globals),
        all_written(c),
        !c.name.contains_key(d.cursor),
        forall|i: int| 0 <= i < ds.len() ==> !is_var_kind((#[trigger] ds[i]).cursor.kind),
        keeps(c, r),
        r.name == named(named_all(c, ds), d).name,
        r.globals == c.globals.push(r.name[d.cursor]),
    ensures
        none_twice(r.globals),
        all_written(r),
{
    let m = named_all(c, ds);
    lemma_not_yet(c, ds, d);
    lemma_push_once(c.globals, r.name[d.cursor]);
    lemma_named_all_fresh(c, ds);
    assert forall|k: CXCursor| #[trigger]
        r.name.contains_key(k) && is_var_kind(k.kind) implies r.globals.contains(r.name[k]) by {
        if c.name.contains_key(k) {
            let i = choose|i: int| 0 <= i < c.globals.len() && c.globals[i] == c.name[k];
            assert(r.globals[i] == r.name[k]);
        } else if k == d.cursor {
            assert(r.globals[c.globals.len() as int] == r.name[k]);
        } else {
            assert(m.name.contains_key(k));
        }
    }
}

proof fn lemma_visit_step(c: CtxView, node: CXNode)
    requires
        c.ok(),
        none_twice(c.globals),
        all_written(c),
        is_proper(node),
    ensures
        none_twice(visited(c, node).globals),
        all_written(visited(c, node)),
{
    let d = node.decl;
    let kind = d.cursor.kind;
    let r = visited(c, node);
    law_visit_keeps(c, node);
    lemma_named(c, d);
    let n = named(c, d);
    if !matched(c.match_pat, option_view(node.file)) {
    } else if is_comp_kind(kind) || kind == CURSOR_ENUM_DECL {
        if d.cursor == d.definition {
            let g = if is_comp_kind(kind) {
                GlobalView::GComp(place(n.name[d.cursor]))
            } else {
                GlobalView::GEnum(place(n.name[d.cursor]))
            };
            let m = CtxView { cur_glob: g, globals: n.globals.push(g), ..n };
            assert(n.name.contains_key(d.cursor));
            assert(m.ok()) by {
                assert(m.sorts_agree());
                assert(m.tables_closed());
                assert(m.globals_there());
            }
            lemma_push_once(c.globals, g);
            if is_comp_kind(kind) {
                lemma_fields_added(m, node.children@);
                lemma_fields_no_vars(m, node.children@);
            } else {
                lemma_items_added(m, node.children@);
                lemma_items_names(m, node.children@);
            }
            assert(names_no_vars(c, r));
            lemma_still_written(c, r);
        } else {
            lemma_declared_step(c, d);
        }
    } else if kind == CURSOR_FUNCTION_DECL {
        if r != c {
            let ds = params_refs(node.args@) + refs(node.result);
            lemma_params_refs_kinds(node.args@);
            lemma_refs_kinds(node.result);
            lemma_function_added(c, node);
            lemma_var_step(c, ds, d, r);
        }
    } else if kind == CURSOR_VAR_DECL {
        if r != c {
            lemma_refs_kinds(node.ty);
            lemma_var_added(c, node);
            lemma_var_step(c, refs(node.ty), d, r);
        }
    } else if kind == CURSOR_TYPEDEF_DECL {
        if r != c {
            let ty = typedef_type(node);
            lemma_refs_kinds(ty);
            let t = named(named_all(c, refs(ty)), d);
            lemma_named_then(c, refs(ty), d);
            lemma_named_all_fresh(c, refs(ty));
            lemma_not_yet(c, refs(ty), d);
            lemma_shape_there(t, ty);
            let g = t.name[d.cursor];
            lemma_typed(t, g, shape(t.name, ty));
            let m = typedef_typed(t, g, shape(t.name, ty));
            assert(keeps(t, m));
            lemma_keeps_trans(c, t, m);
            lemma_push_once(c.globals, g);
            assert(names_no_vars(c, m));
            lemma_still_written(c, m);
            match ty {
                CXType::Record(x) | CXType::Enum(x) => lemma_declared_step(m, x),
                _ => {},
            }
        }
    }
}

proof fn lemma_run(
    match_pat: Seq<Seq<char>>,
    link: Option<Seq<char>>,
    out: Option<Seq<char>>,
    nodes: Seq<CXNode>,
)
    requires
        forall|i: int| 0 <= i < nodes.len() ==> is_proper(#[trigger] nodes[i]),
    ensures
        visited_all(initial(match_pat, link, out), nodes).ok(),
        none_twice(visited_all(initial(match_pat, link, out), nodes).globals),
        all_written(visited_all(initial(match_pat, link, out), nodes)),
    decreases nodes.len(),
{
    if nodes.len() > 0 {
        let front = nodes.drop_last();
        assert forall|i: int| 0 <= i < front.len() implies is_proper(#[trigger] front[i]) by {
            assert(front[i] == nodes[i]);
        }
        lemma_run(match_pat, link, out, front);
        let m = visited_all(initial(match_pat, link, out), front);
        assert(is_proper(nodes[nodes.len() - 1]));
        law_visit_keeps(m, nodes.last());
        lemma_visit_step(m, nodes.last());
    }
}

/// No variable, function or `typedef` is written twice, however often it is
/// declared.
pub proof fn law_none_written_twice(
    match_pat: Seq<Seq<char>>,
    link: Option<Seq<char>>,
    out: Option<Seq<char>>,
    nodes: Seq<CXNode>,
)
    requires
        forall|i: int| 0 <= i < nodes.len() ==> is_proper(#[trigger] nodes[i]),
    ensures
        none_twice(visited_all(initial(match_pat, link, out), nodes).globals),
{
    lemma_run(match_pat, link, out, nodes);
}

/// Every function and variable that is visited, asked for and of external
/// linkage is written, in exactly one place.
pub proof fn law_exported_written(
    match_pat: Seq<Seq<char>>,
    link: Option<Seq<char>>,
    out: Option<Seq<char>>,
    nodes: Seq<CXNode>,
    k: int,
)
    requires
        forall|i: int| 0 <= i < nodes.len() ==> is_proper(#[trigger] nodes[i]),
        0 <= k < nodes.len(),
        is_var_kind(nodes[k].decl.cursor.kind),
        is_exported(nodes[k].linkage),
        matched(match_pat, option_view(nodes[k].file)),
    ensures
        ({
            let r = visited_all(initial(match_pat, link, out), nodes);
            let g = r.name[nodes[k].decl.cursor];
            &&& r.name.contains_key(nodes[k].decl.cursor)
            &&& exists|i: int| 0 <= i < r.globals.len() && #[trigger] r.globals[i] == g
            &&& forall|i: int, j: int|
                0 <= i < r.globals.len() && 0 <= j < r.globals.len() && #[trigger] r.globals[i] == g
                    && #[trigger] r.globals[j] == g ==> i == j
        }),
{
    let c = initial(match_pat, link, out);
    let r = visited_all(c, nodes);
    let node = nodes[k];
    let key = node.decl.cursor;
    lemma_run(match_pat, link, out, nodes);
    law_run_sound(match_pat, link, out, nodes, k + 1);
    let upto = nodes.take(k + 1);
    assert(upto.drop_last() =~= nodes.take(k));
    law_run_sound(match_pat, link, out, nodes.take(k), 0);
    law_run_sound(match_pat, link, out, upto, 0);
    let before = visited_all(c, nodes.take(k));
    assert(nodes.take(k).take(0) =~= Seq::empty());
    assert(before.match_pat == match_pat);
    if key.kind == CURSOR_FUNCTION_DECL {
        lemma_function_added(before, node);
    } else {
        lemma_var_added(before, node);
    }
    assert(visited(before, node).name.contains_key(key));
    assert(visited_all(c, upto) == visited(before, node));
    assert(r.name.contains_key(key));
    assert(r.globals.contains(r.name[key]));
}

/// Whether a cursor below a `struct` or `union` is a member.
pub open spec fn is_field() -> spec_fn(CXChild) -> bool {
    |child: CXChild| child.kind == CURSOR_FIELD_DECL
}

/// Whether a cursor below an `enum` is an enumerator.
pub open spec fn is_item() -> spec_fn(CXChild) -> bool {
    |child: CXChild| child.kind == CURSOR_ENUM_CONSTANT_DECL
}

/// The members among the cursors below the `struct` or `union` at the place
/// `comp`, in order, given the names of the declarations.
pub open spec fn fields_of(
    names: Map<CXCursor, GlobalView>,
    comp: nat,
    children: Seq<CXChild>,
) -> Seq<FieldView> {
    children.filter(is_field()).map_values(
        |child: CXChild|
            FieldView { name: child.spelling@, ty: shape(names, child.ty), comp },
    )
}

/// The enumerators among the cursors below the `enum` at the place `host`, in
/// order.
pub open spec fn items_of(host: nat, children: Seq<CXChild>) -> Seq<EnumItemView> {
    children.filter(is_item()).map_values(
        |child: CXChild|
            EnumItemView { name: child.spelling@, val: (child.value as isize) as int, host },
    )
}

proof fn lemma_fields_in_order(c: CtxView, children: Seq<CXChild>)
    requires
        c.ok(),
        is_comp(c.cur_glob),
    ensures
        ({
            let p = place(c.cur_glob);
            let r = fields_added(c, children);
            &&& p < c.comps.len()
            &&& r.comps[p as int].fields == c.comps[p as int].fields + fields_of(
                r.name,
                p,
                children,
            )
            &&& forall|i: int|
                0 <= i < c.comps.len() && i != p ==> #[trigger] r.comps[i] == c.comps[i]
            &&& forall|j: int|
                0 <= j < children.filter(is_field()).len() ==> all_named(
                    r.name,
                    refs((#[trigger] children.filter(is_field())[j]).ty),
                )
        }),
    decreases children.len(),
{
    let p = place(c.cur_glob);
    let r = fields_added(c, children);
    reveal(Seq::filter);
    assert(c.has(c.cur_glob));
    if children.len() == 0 {
        assert(fields_of(r.name, p, children) =~= Seq::empty());
        assert(c.comps[p as int].fields + fields_of(r.name, p, children)
            =~= c.comps[p as int].fields);
    } else {
        let front = children.drop_last();
        let child = children.last();
        let m = fields_added(c, front);
        lemma_fields_added(c, front);
        lemma_fields_in_order(c, front);
        let inner = front.filter(is_field());
        if is_field()(child) {
            let n = named_all(m, refs(child.ty));
            lemma_named_all(m, refs(child.ty));
            let all = children.filter(is_field());
            assert(all =~= inner.push(child));
            assert forall|j: int| 0 <= j < all.len() implies all_named(
                r.name,
                refs((#[trigger] all[j]).ty),
            ) by {
                if j < inner.len() {
                    assert(all[j] == inner[j]);
                    lemma_all_named_more(m.name, n.name, refs(all[j].ty));
                }
            }
            assert forall|j: int| 0 <= j < inner.len() implies #[trigger] fields_of(
                m.name,
                p,
                front,
            )[j] == fields_of(r.name, p, front)[j] by {
                assert(all_named(m.name, refs(inner[j].ty)));
                lemma_shape_stable(m.name, n.name, inner[j].ty);
            }
            assert(fields_of(m.name, p, front) =~= fields_of(r.name, p, front));
            let field = FieldView {
                name: child.spelling@,
                ty: shape(r.name, child.ty),
                comp: p,
            };
            assert(fields_of(r.name, p, children) =~= fields_of(r.name, p, front).push(field));
            assert(n.comps[p as int] == m.comps[p as int]);
            assert(r.comps[p as int].fields == m.comps[p as int].fields.push(field));
            assert(r.comps[p as int].fields =~= c.comps[p as int].fields + fields_of(
                r.name,
                p,
                children,
            ));
            assert forall|i: int| 0 <= i < c.comps.len() && i != p implies #[trigger] r.comps[i]
                == c.comps[i] by {
                assert(m.comps[i] == c.comps[i]);
                assert(n.comps[i] == m.comps[i]);
            }
        } else {
            assert(children.filter(is_field()) =~= inner);
        }
    }
}

proof fn lemma_items_in_order(c: CtxView, children: Seq<CXChild>)
    requires
        c.ok(),
        is_enum(c.cur_glob),
    ensures
        ({
            let p = place(c.cur_glob);
            let r = items_added(c, children);
            &&& p < c.enums.len()
            &&& r.enums.len() == c.enums.len()
            &&& r.enums[p as int].items == c.enums[p as int].items + items_of(p, children)
            &&& forall|i: int|
                0 <= i < c.enums.len() && i != p ==> #[trigger] r.enums[i] == c.enums[i]
        }),
    decreases children.len(),
{
    let p = place(c.cur_glob);
    let r = items_added(c, children);
    reveal(Seq::filter);
    assert(c.has(c.cur_glob));
    if children.len() == 0 {
        assert(items_of(p, children) =~= Seq::empty());
        assert(c.enums[p as int].items + items_of(p, children) =~= c.enums[p as int].items);
    } else {
        let front = children.drop_last();
        let child = children.last();
        let m = items_added(c, front);
        lemma_items_added(c, front);
        lemma_items_in_order(c, front);
        if is_item()(child) {
            assert(children.filter(is_item()) =~= front.filter(is_item()).push(child));
            let item = EnumItemView { name: child.spelling@, val: (child.value as isize) as int, host: p };
            assert(items_of(p, children) =~= items_of(p, front).push(item));
            assert(r.enums[p as int].items =~= c.enums[p as int].items + items_of(p, children));
            assert forall|i: int| 0 <= i < c.enums.len() && i != p implies #[trigger] r.enums[i]
                == c.enums[i] by {
                assert(m.enums[i] == c.enums[i]);
            }
        } else {
            assert(children.filter(is_item()) =~= front.filter(is_item()));
        }
    }
}

/// The definition of a `struct` or `union` is written with the members that
/// stand below it, in their order, each with its name and its type; no other
/// `struct` or `union` gains a member by it.
pub proof fn law_members_in_order(c: CtxView, d: CXDecl, children: Seq<CXChild>)
    requires
        c.ok(),
        is_comp_kind(d.cursor.kind),
    ensures
        ({
            let r = comp_defined(c, d, children);
            let p = place(r.name[d.cursor]);
            &&& r.name.contains_key(d.cursor)
            &&& r.globals == c.globals.push(GlobalView::GComp(p))
            &&& c.name.contains_key(d.cursor) ==> r.comps[p as int].fields
                == c.comps[p as int].fields + fields_of(r.name, p, children)
            &&& !c.name.contains_key(d.cursor) ==> r.comps[p as int].fields == fields_of(
                r.name,
                p,
                children,
            )
            &&& forall|i: int|
                0 <= i < c.comps.len() && i != p ==> #[trigger] r.comps[i] == c.comps[i]
        }),
{
    let n = named(c, d);
    lemma_named(c, d);
    assert(n.name.contains_key(d.cursor));
    let g = GlobalView::GComp(place(n.name[d.cursor]));
    let m = CtxView { cur_glob: g, globals: n.globals.push(g), ..n };
    assert(m.ok()) by {
        assert(m.sorts_agree());
        assert(m.tables_closed());
        assert(m.globals_there());
    }
    lemma_fields_added(m, children);
    lemma_fields_in_order(m, children);
    let r = fields_added(m, children);
    assert(r.name.contains_key(d.cursor) && r.name[d.cursor] == n.name[d.cursor]);
    let p = place(g);
    if !c.name.contains_key(d.cursor) {
        assert(m.comps[p as int].fields =~= Seq::empty());
        assert(r.comps[p as int].fields =~= fields_of(r.name, p, children));
    }
    assert forall|i: int| 0 <= i < c.comps.len() && i != p implies #[trigger] r.comps[i]
        == c.comps[i] by {
        assert(m.comps[i] == c.comps[i]);
    }
}

/// The definition of an `enum` is written with the enumerators that stand below
/// it, in their order, each with its name and its value; no other `enum` gains
/// an enumerator by it.
pub proof fn law_enumerators_in_order(c: CtxView, d: CXDecl, children: Seq<CXChild>)
    requires
        c.ok(),
        d.cursor.kind == CURSOR_ENUM_DECL,
    ensures
        ({
            let r = enum_defined(c, d, children);
            let p = place(r.name[d.cursor]);
            &&& r.name.contains_key(d.cursor)
            &&& r.globals == c.globals.push(GlobalView::GEnum(p))
            &&& c.name.contains_key(d.cursor) ==> r.enums[p as int].items
                == c.enums[p as int].items + items_of(p, children)
            &&& !c.name.contains_key(d.cursor) ==> r.enums[p as int].items == items_of(
                p,
                children,
            )
            &&& forall|i: int|
                0 <= i < c.enums.len() && i != p ==> #[trigger] r.enums[i] == c.enums[i]
        }),
{
    let n = named(c, d);
    lemma_named(c, d);
    assert(n.name.contains_key(d.cursor));
    let g = GlobalView::GEnum(place(n.name[d.cursor]));
    let m = CtxView { cur_glob: g, globals: n.globals.push(g), ..n };
    assert(m.ok()) by {
        assert(m.sorts_agree());
        assert(m.tables_closed());
        assert(m.globals_there());
    }
    lemma_items_added(m, children);
    lemma_items_in_order(m, children);
    lemma_items_names(m, children);
    let r = items_added(m, children);
    let p = place(g);
    if !c.name.contains_key(d.cursor) {
        assert(m.enums[p as int].items =~= Seq::empty());
        assert(r.enums[p as int].items =~= items_of(p, children));
    }
    assert forall|i: int| 0 <= i < c.enums.len() && i != p implies #[trigger] r.enums[i]
        == c.enums[i] by {
        assert(m.enums[i] == c.enums[i]);
    }
}

/// Every `struct`, `union` and `enum` that is visited and asked for is written:
/// with its members where the cursor is the definition, by its name where there
/// is no definition anywhere.
pub proof fn law_definitions_written(
    match_pat: Seq<Seq<char>>,
    link: Option<Seq<char>>,
    out: Option<Seq<char>>,
    nodes: Seq<CXNode>,
    k: int,
)
    requires
        0 <= k < nodes.len(),
        is_comp_kind(nodes[k].decl.cursor.kind) || nodes[k].decl.cursor.kind == CURSOR_ENUM_DECL,
        matched(match_pat, option_view(nodes[k].file)),
        nodes[k].decl.cursor == nodes[k].decl.definition || is_missing(nodes[k].decl.definition),
    ensures
        ({
            let r = visited_all(initial(match_pat, link, out), nodes);
            let d = nodes[k].decl;
            let g = r.name[d.cursor];
            &&& r.name.contains_key(d.cursor)
            &&& d.cursor != d.definition ==> r.globals.contains(g)
            &&& d.cursor == d.definition && is_comp_kind(d.cursor.kind) ==> r.globals.contains(
                GlobalView::GComp(place(g)),
            )
            &&& d.cursor == d.definition && d.cursor.kind == CURSOR_ENUM_DECL
                ==> r.globals.contains(GlobalView::GEnum(place(g)))
        }),
{
    let c = initial(match_pat, link, out);
    let r = visited_all(c, nodes);
    let node = nodes[k];
    let d = node.decl;
    let upto = nodes.take(k + 1);
    assert(upto.drop_last() =~= nodes.take(k));
    law_run_sound(match_pat, link, out, nodes, k + 1);
    law_run_sound(match_pat, link, out, nodes.take(k), 0);
    assert(nodes.take(k).take(0) =~= Seq::empty());
    let before = visited_all(c, nodes.take(k));
    let after = visited(before, node);
    assert(visited_all(c, upto) == after);
    let last = before.globals.len() as int;
    if d.cursor == d.definition {
        if is_comp_kind(d.cursor.kind) {
            law_members_in_order(before, d, node.children@);
        } else {
            law_enumerators_in_order(before, d, node.children@);
        }
    } else {
        lemma_named(before, d);
        assert(after.name.contains_key(d.cursor));
    }
    assert(after.name.contains_key(d.cursor));
    assert(r.globals[last] == after.globals[last]);
}

/// A `typedef` that is visited and asked for, and that no type has referred to
/// before, is written.
pub proof fn law_typedef_written(
    match_pat: Seq<Seq<char>>,
    link: Option<Seq<char>>,
    out: Option<Seq<char>>,
    nodes: Seq<CXNode>,
    k: int,
)
    requires
        0 <= k < nodes.len(),
        nodes[k].decl.cursor.kind == CURSOR_TYPEDEF_DECL,
        matched(match_pat, option_view(nodes[k].file)),
        !visited_all(initial(match_pat, link, out), nodes.take(k)).name.contains_key(
            nodes[k].decl.cursor,
        ),
    ensures
        ({
            let r = visited_all(initial(match_pat, link, out), nodes);
            &&& r.name.contains_key(nodes[k].decl.cursor)
            &&& r.globals.contains(r.name[nodes[k].decl.cursor])
        }),
{
    let c = initial(match_pat, link, out);
    let r = visited_all(c, nodes);
    let node = nodes[k];
    let d = node.decl;
    let upto = nodes.take(k + 1);
    assert(upto.drop_last() =~= nodes.take(k));
    law_run_sound(match_pat, link, out, nodes, k + 1);
    law_run_sound(match_pat, link, out, nodes.take(k), 0);
    assert(nodes.take(k).take(0) =~= Seq::empty());
    let before = visited_all(c, nodes.take(k));
    let after = visited(before, node);
    assert(visited_all(c, upto) == after);
    let ty = typedef_type(node);
    let t = named(named_all(before, refs(ty)), d);
    lemma_named_then(before, refs(ty), d);
    lemma_shape_there(t, ty);
    let g = t.name[d.cursor];
    assert(g is GType);
    let m = typedef_typed(t, g, shape(t.name, ty));
    lemma_typed(t, g, shape(t.name, ty));
    lemma_opened(m, ty);
    let last = before.globals.len() as int;
    assert(m.globals[last] == g);
    assert(m.name.contains_key(d.cursor));
    assert(after.globals[last] == g);
    assert(after.name.contains_key(d.cursor));
    assert(r.globals[last] == g);
}

/// Where there are several patterns, a file that matches any of them is asked
/// for.
pub proof fn law_any_pattern(a: Seq<Seq<char>>, b: Seq<Seq<char>>, file: Option<Seq<char>>)
    requires
        a.len() > 0,
        b.len() > 0,
    ensures
        matched(a + b, file) <==> matched(a, file) || matched(b, file),
{
    if file is Some {
        let name = file->0;
        if matched(a + b, file) {
            let i = choose|i: int|
                0 <= i < (a + b).len() && occurs(name, #[trigger] (a + b)[i]);
            if i < a.len() {
                assert(occurs(name, a[i]));
            } else {
                assert(occurs(name, b[i - a.len()]));
            }
        }
        if matched(a, file) {
            let i = choose|i: int| 0 <= i < a.len() && occurs(name, #[trigger] a[i]);
            assert(occurs(name, (a + b)[i]));
        }
        if matched(b, file) {
            let i = choose|i: int| 0 <= i < b.len() && occurs(name, #[trigger] b[i]);
            assert(occurs(name, (a + b)[a.len() + i]));
        }
    }
}

} // verus!
