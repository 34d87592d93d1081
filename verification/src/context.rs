//! The state of one run: what was asked for, which declarations have been met,
//! and what is to be written.

use vstd::prelude::*;

use crate::clang::{
    CXCursor, CXDecl, CXType, CURSOR_ENUM_DECL, CURSOR_FUNCTION_DECL, CURSOR_STRUCT_DECL,
    CURSOR_TYPEDEF_DECL, CURSOR_UNION_DECL, CURSOR_VAR_DECL,
};
use crate::names::DeclMap;
use crate::types::{
    CompInfo, CompView, EnumInfo, EnumView, Global, GlobalView, IKind, Type, TypeInfo,
    TypeInfoView, TypeView, VarInfo, VarView,
};

verus! {

/// The state of one run.
#[derive(Debug)]
pub struct BindGenCtx {
    /// The patterns of which a file name has to contain one.
    pub match_pat: Vec<String>,
    /// The library to link with.
    pub link: Option<String>,
    /// The file to write to; standard output if there is none.
    pub out: Option<String>,
    /// The declarations that cursors were given.
    pub name: DeclMap,
    pub comps: Vec<CompInfo>,
    pub enums: Vec<EnumInfo>,
    pub typedefs: Vec<TypeInfo>,
    pub vars: Vec<VarInfo>,
    /// What is to be written, in order.
    pub globals: Vec<Global>,
    /// The declaration whose members are being visited.
    pub cur_glob: Global,
}

/// What a [`BindGenCtx`] stands for.
#[verifier::ext_equal]
pub struct CtxView {
    pub match_pat: Seq<Seq<char>>,
    pub link: Option<Seq<char>>,
    pub out: Option<Seq<char>>,
    pub name: Map<CXCursor, GlobalView>,
    pub comps: Seq<CompView>,
    pub enums: Seq<EnumView>,
    pub typedefs: Seq<TypeInfoView>,
    pub vars: Seq<VarView>,
    pub globals: Seq<GlobalView>,
    pub cur_glob: GlobalView,
}

/// The view of a string that may be missing.
pub open spec fn option_view(s: Option<String>) -> Option<Seq<char>> {
    match s {
        Some(s) => Some(s@),
        None => None,
    }
}

/// The view of a list of strings.
pub open spec fn strings_view(s: Seq<String>) -> Seq<Seq<char>> {
    s.map_values(|x: String| x@)
}

impl View for BindGenCtx {
    type V = CtxView;

    open spec fn view(&self) -> CtxView {
        CtxView {
            match_pat: strings_view(self.match_pat@),
            link: option_view(self.link),
            out: option_view(self.out),
            name: self.name@,
            comps: self.comps@.map_values(|x: CompInfo| x@),
            enums: self.enums@.map_values(|x: EnumInfo| x@),
            typedefs: self.typedefs@.map_values(|x: TypeInfo| x@),
            vars: self.vars@.map_values(|x: VarInfo| x@),
            globals: self.globals@.map_values(|x: Global| x@),
            cur_glob: self.cur_glob@,
        }
    }
}

/// Whether every declaration that the type refers to has a place in a table,
/// given how many places each table has.
pub open spec fn type_ok(t: TypeView, comps: nat, enums: nat, typedefs: nat) -> bool
    decreases t,
{
    match t {
        TypeView::TPtr(p) => type_ok(*p, comps, enums, typedefs),
        TypeView::TArray(e, _) => type_ok(*e, comps, enums, typedefs),
        TypeView::TFunc(r, args, _) => {
            &&& type_ok(*r, comps, enums, typedefs)
            &&& forall|i: int|
                0 <= i < args.len() ==> type_ok((#[trigger] args[i]).1, comps, enums, typedefs)
        },
        TypeView::TNamed(i) => i < typedefs,
        TypeView::TComp(i) => i < comps,
        TypeView::TEnum(i) => i < enums,
        _ => true,
    }
}

/// Whether a cursor is of a kind that declares a `struct` or `union`.
pub open spec fn is_comp_kind(kind: i32) -> bool {
    kind == CURSOR_STRUCT_DECL || kind == CURSOR_UNION_DECL
}

/// Whether a declaration is a `struct` or `union`, with or without its fields.
pub open spec fn is_comp(g: GlobalView) -> bool {
    g is GComp || g is GCompDecl
}

/// Whether a declaration is an `enum`, with or without its items.
pub open spec fn is_enum(g: GlobalView) -> bool {
    g is GEnum || g is GEnumDecl
}

/// Whether a declaration is a variable or function.
pub open spec fn is_var(g: GlobalView) -> bool {
    g is GVar || g is GFunc
}

/// The place of a declaration in the table for its sort.
pub open spec fn place(g: GlobalView) -> nat {
    match g {
        GlobalView::GType(i) => i,
        GlobalView::GComp(i) => i,
        GlobalView::GCompDecl(i) => i,
        GlobalView::GEnum(i) => i,
        GlobalView::GEnumDecl(i) => i,
        GlobalView::GVar(i) => i,
        GlobalView::GFunc(i) => i,
        GlobalView::GOther => 0,
    }
}

/// Whether two declarations are kept in the same table.
pub open spec fn same_table(g: GlobalView, h: GlobalView) -> bool {
    ||| is_comp(g) && is_comp(h)
    ||| is_enum(g) && is_enum(h)
    ||| is_var(g) && is_var(h)
    ||| g is GType && h is GType
}

impl CtxView {
    /// Whether every declaration that the type refers to is in its table.
    pub open spec fn has_type(self, t: TypeView) -> bool {
        type_ok(t, self.comps.len(), self.enums.len(), self.typedefs.len())
    }

    /// Whether the declaration is in its table.
    pub open spec fn has(self, g: GlobalView) -> bool {
        match g {
            GlobalView::GType(i) => i < self.typedefs.len(),
            GlobalView::GComp(i) => i < self.comps.len(),
            GlobalView::GCompDecl(i) => i < self.comps.len(),
            GlobalView::GEnum(i) => i < self.enums.len(),
            GlobalView::GEnumDecl(i) => i < self.enums.len(),
            GlobalView::GVar(i) => i < self.vars.len(),
            GlobalView::GFunc(i) => i < self.vars.len(),
            GlobalView::GOther => true,
        }
    }

    /// The declaration that a cursor of the given kind, not met before, gets.
    pub open spec fn fresh(self, kind: i32) -> GlobalView {
        if is_comp_kind(kind) {
            GlobalView::GCompDecl(self.comps.len())
        } else if kind == CURSOR_ENUM_DECL {
            GlobalView::GEnumDecl(self.enums.len())
        } else if kind == CURSOR_TYPEDEF_DECL {
            GlobalView::GType(self.typedefs.len())
        } else if kind == CURSOR_VAR_DECL {
            GlobalView::GVar(self.vars.len())
        } else if kind == CURSOR_FUNCTION_DECL {
            GlobalView::GFunc(self.vars.len())
        } else {
            GlobalView::GOther
        }
    }

    /// A cursor's declaration is of the sort that the cursor's kind calls for.
    pub open spec fn sorts_agree(self) -> bool {
        forall|k: CXCursor| #[trigger]
            self.name.contains_key(k) ==> {
                let g = self.name[k];
                &&& self.has(g)
                &&& is_comp_kind(k.kind) <==> g is GCompDecl
                &&& k.kind == CURSOR_ENUM_DECL <==> g is GEnumDecl
                &&& k.kind == CURSOR_TYPEDEF_DECL <==> g is GType
                &&& k.kind == CURSOR_VAR_DECL <==> g is GVar
                &&& k.kind == CURSOR_FUNCTION_DECL <==> g is GFunc
                &&& g !is GComp
                &&& g !is GEnum
                &&& g is GCompDecl ==> self.comps[place(g) as int].cstruct == (k.kind
                    == CURSOR_STRUCT_DECL)
            }
    }

    /// No two cursors share a place in a table.
    pub open spec fn places_differ(self) -> bool {
        forall|k: CXCursor, l: CXCursor| #[trigger]
            self.name.contains_key(k) && #[trigger] self.name.contains_key(l) && k != l
                && same_table(self.name[k], self.name[l]) ==> place(self.name[k]) != place(
                self.name[l],
            )
    }

    /// Every field and item belongs to the declaration that holds it, and every
    /// type refers to declarations that are there.
    pub open spec fn tables_closed(self) -> bool {
        &&& forall|i: int, j: int|
            #![trigger self.comps[i].fields[j]]
            0 <= i < self.comps.len() && 0 <= j < self.comps[i].fields.len() ==> {
                &&& self.comps[i].fields[j].comp == i
                &&& self.has_type(self.comps[i].fields[j].ty)
            }
        &&& forall|i: int, j: int|
            #![trigger self.enums[i].items[j]]
            0 <= i < self.enums.len() && 0 <= j < self.enums[i].items.len()
                ==> self.enums[i].items[j].host == i
        &&& forall|i: int|
            0 <= i < self.typedefs.len() ==> self.has_type((#[trigger] self.typedefs[i]).ty)
        &&& forall|i: int| 0 <= i < self.vars.len() ==> self.has_type((#[trigger] self.vars[i]).ty)
    }

    /// Everything that is to be written is in its table.
    pub open spec fn globals_there(self) -> bool {
        &&& forall|i: int| 0 <= i < self.globals.len() ==> self.has(#[trigger] self.globals[i])
        &&& self.has(self.cur_glob)
    }

    /// What holds of the state throughout a run.
    pub open spec fn ok(self) -> bool {
        &&& self.sorts_agree()
        &&& self.places_differ()
        &&& self.tables_closed()
        &&& self.globals_there()
    }
}

/// The integer type that an `enum` is written with.
pub open spec fn enum_kind(int_type: CXType) -> IKind {
    if int_type is Int {
        IKind::IInt
    } else {
        IKind::IUInt
    }
}

/// The state after the declaration `d` has been given a name: unchanged if its
/// cursor has one, else with a new entry in the table for its sort, which holds
/// its name and nothing else yet.
pub open spec fn named(c: CtxView, d: CXDecl) -> CtxView {
    let kind = d.cursor.kind;
    if c.name.contains_key(d.cursor) {
        c
    } else {
        let n = CtxView { name: c.name.insert(d.cursor, c.fresh(kind)), ..c };
        if is_comp_kind(kind) {
            let info = CompView {
                cstruct: kind == CURSOR_STRUCT_DECL,
                name: d.spelling@,
                fields: Seq::empty(),
            };
            CtxView { comps: c.comps.push(info), ..n }
        } else if kind == CURSOR_ENUM_DECL {
            let info = EnumView {
                name: d.spelling@,
                kind: enum_kind(*d.int_type),
                items: Seq::empty(),
            };
            CtxView { enums: c.enums.push(info), ..n }
        } else if kind == CURSOR_TYPEDEF_DECL {
            let info = TypeInfoView { name: d.spelling@, ty: TypeView::TVoid };
            CtxView { typedefs: c.typedefs.push(info), ..n }
        } else if kind == CURSOR_VAR_DECL || kind == CURSOR_FUNCTION_DECL {
            let info = VarView { name: d.spelling@, ty: TypeView::TVoid };
            CtxView { vars: c.vars.push(info), ..n }
        } else {
            n
        }
    }
}

/// A type that refers to places in tables still does when the tables grow.
pub proof fn lemma_type_ok_grows(
    t: TypeView,
    comps: nat,
    enums: nat,
    typedefs: nat,
    comps2: nat,
    enums2: nat,
    typedefs2: nat,
)
    requires
        type_ok(t, comps, enums, typedefs),
        comps <= comps2,
        enums <= enums2,
        typedefs <= typedefs2,
    ensures
        type_ok(t, comps2, enums2, typedefs2),
    decreases t,
{
    match t {
        TypeView::TPtr(p) => {
            lemma_type_ok_grows(*p, comps, enums, typedefs, comps2, enums2, typedefs2);
        },
        TypeView::TArray(e, _) => {
            lemma_type_ok_grows(*e, comps, enums, typedefs, comps2, enums2, typedefs2);
        },
        TypeView::TFunc(r, args, _) => {
            lemma_type_ok_grows(*r, comps, enums, typedefs, comps2, enums2, typedefs2);
            assert forall|i: int| 0 <= i < args.len() implies type_ok(
                (#[trigger] args[i]).1,
                comps2,
                enums2,
                typedefs2,
            ) by {
                lemma_type_ok_grows(args[i].1, comps, enums, typedefs, comps2, enums2, typedefs2);
            }
        },
        _ => {},
    }
}

/// Whether every cursor keeps the declaration that it was given.
pub open spec fn names_kept(
    names: Map<CXCursor, GlobalView>,
    more: Map<CXCursor, GlobalView>,
) -> bool {
    forall|k: CXCursor| #[trigger]
        names.contains_key(k) ==> more.contains_key(k) && more[k] == names[k]
}

/// Whether `d` is `c` with further cursors named and nothing else changed.
pub open spec fn extends(c: CtxView, d: CtxView) -> bool {
    &&& d.match_pat == c.match_pat
    &&& d.link == c.link
    &&& d.out == c.out
    &&& d.globals == c.globals
    &&& d.cur_glob == c.cur_glob
    &&& names_kept(c.name, d.name)
    &&& c.comps.is_prefix_of(d.comps)
    &&& c.enums.is_prefix_of(d.enums)
    &&& c.typedefs.is_prefix_of(d.typedefs)
    &&& c.vars.is_prefix_of(d.vars)
}

/// Naming a declaration keeps the state sound, and changes nothing that was
/// there.
pub proof fn lemma_named(c: CtxView, d: CXDecl)
    requires
        c.ok(),
    ensures
        named(c, d).ok(),
        named(c, d).name.contains_key(d.cursor),
        extends(c, named(c, d)),
{
    let n = named(c, d);
    if !c.name.contains_key(d.cursor) {
        assert forall|t: TypeView| #[trigger] c.has_type(t) implies n.has_type(t) by {
            lemma_type_ok_grows(
                t,
                c.comps.len(),
                c.enums.len(),
                c.typedefs.len(),
                n.comps.len(),
                n.enums.len(),
                n.typedefs.len(),
            );
        }
        assert(n.tables_closed()) by {
            assert forall|i: int, j: int|
                #![trigger n.comps[i].fields[j]]
                0 <= i < n.comps.len() && 0 <= j < n.comps[i].fields.len() implies {
                &&& n.comps[i].fields[j].comp == i
                &&& n.has_type(n.comps[i].fields[j].ty)
            } by {
                assert(n.comps[i] == c.comps[i]);
                assert(c.has_type(c.comps[i].fields[j].ty));
            }
            assert forall|i: int, j: int|
                #![trigger n.enums[i].items[j]]
                0 <= i < n.enums.len() && 0 <= j < n.enums[i].items.len() implies n.enums[i].items[j].host
                == i by {
                assert(n.enums[i] == c.enums[i]);
                assert(c.enums[i].items[j].host == i);
            }
            assert forall|i: int| 0 <= i < n.typedefs.len() implies n.has_type(
                (#[trigger] n.typedefs[i]).ty,
            ) by {
                if i < c.typedefs.len() {
                    assert(c.has_type(c.typedefs[i].ty));
                }
            }
            assert forall|i: int| 0 <= i < n.vars.len() implies n.has_type(
                (#[trigger] n.vars[i]).ty,
            ) by {
                if i < c.vars.len() {
                    assert(c.has_type(c.vars[i].ty));
                }
            }
        }
        assert(n.sorts_agree()) by {
            assert forall|k: CXCursor| #[trigger] n.name.contains_key(k) && k
                != d.cursor implies c.name.contains_key(k) by {}
        }
        assert(n.places_differ()) by {
            assert forall|k: CXCursor| #[trigger] n.name.contains_key(k) && k
                != d.cursor implies c.name.contains_key(k) by {}
        }
        assert(n.globals_there());
    }
}

impl BindGenCtx {
    /// What holds of the state throughout a run.
    pub open spec fn wf(&self) -> bool {
        &&& self.name.wf()
        &&& self@.ok()
    }

    /// The state at the start of a run, with nothing met yet.
    pub fn new(match_pat: Vec<String>, link: Option<String>, out: Option<String>) -> (r: BindGenCtx)
        ensures
            r.wf(),
            r@ == initial(strings_view(match_pat@), option_view(link), option_view(out)),
    {
        let r = BindGenCtx {
            match_pat,
            link,
            out,
            name: DeclMap::new(),
            comps: Vec::new(),
            enums: Vec::new(),
            typedefs: Vec::new(),
            vars: Vec::new(),
            globals: Vec::new(),
            cur_glob: Global::GOther,
        };
        assert(r@ =~= initial(strings_view(match_pat@), option_view(link), option_view(out)));
        r
    }

    /// Adds a `struct` or `union` without fields, and gives its place.
    fn mk_compinfo(&mut self, name: String, cstruct: bool) -> (i: usize)
        ensures
            i == old(self)@.comps.len(),
            final(self).name == old(self).name,
            final(self)@ == (CtxView {
                comps: old(self)@.comps.push(
                    CompView { cstruct, name: name@, fields: Seq::empty() },
                ),
                ..old(self)@
            }),
    {
        let i = self.comps.len();
        let info = CompInfo { cstruct, name, fields: Vec::new() };
        assert(info@.fields =~= Seq::empty());
        self.comps.push(info);
        assert(self@.comps =~= old(self)@.comps.push(info@));
        i
    }

    /// Adds an `enum` without items, and gives its place.
    fn mk_enuminfo(&mut self, name: String, kind: IKind) -> (i: usize)
        ensures
            i == old(self)@.enums.len(),
            final(self).name == old(self).name,
            final(self)@ == (CtxView {
                enums: old(self)@.enums.push(EnumView { name: name@, kind, items: Seq::empty() }),
                ..old(self)@
            }),
    {
        let i = self.enums.len();
        let info = EnumInfo { name, kind, items: Vec::new() };
        assert(info@.items =~= Seq::empty());
        self.enums.push(info);
        assert(self@.enums =~= old(self)@.enums.push(info@));
        i
    }

    /// Adds a `typedef`, and gives its place.
    fn mk_typeinfo(&mut self, name: String, ty: Type) -> (i: usize)
        ensures
            i == old(self)@.typedefs.len(),
            final(self).name == old(self).name,
            final(self)@ == (CtxView {
                typedefs: old(self)@.typedefs.push(TypeInfoView { name: name@, ty: ty@ }),
                ..old(self)@
            }),
    {
        let i = self.typedefs.len();
        let info = TypeInfo { name, ty };
        self.typedefs.push(info);
        assert(self@.typedefs =~= old(self)@.typedefs.push(info@));
        i
    }

    /// Adds a variable or function, and gives its place.
    fn mk_varinfo(&mut self, name: String, ty: Type) -> (i: usize)
        ensures
            i == old(self)@.vars.len(),
            final(self).name == old(self).name,
            final(self)@ == (CtxView {
                vars: old(self)@.vars.push(VarView { name: name@, ty: ty@ }),
                ..old(self)@
            }),
    {
        let i = self.vars.len();
        let info = VarInfo { name, ty };
        self.vars.push(info);
        assert(self@.vars =~= old(self)@.vars.push(info@));
        i
    }
}

/// The state at the start of a run.
pub open spec fn initial(
    match_pat: Seq<Seq<char>>,
    link: Option<Seq<char>>,
    out: Option<Seq<char>>,
) -> CtxView {
    CtxView {
        match_pat,
        link,
        out,
        name: Map::empty(),
        comps: Seq::empty(),
        enums: Seq::empty(),
        typedefs: Seq::empty(),
        vars: Seq::empty(),
        globals: Seq::empty(),
        cur_glob: GlobalView::GOther,
    }
}

/// Gives the declaration a name, unless its cursor has one, and hands out what
/// the cursor was given.
pub fn decl_name(ctx: &mut BindGenCtx, d: &CXDecl) -> (g: Global)
    requires
        old(ctx).wf(),
    ensures
        final(ctx).wf(),
        final(ctx)@ == named(old(ctx)@, *d),
        final(ctx)@.name.contains_key(d.cursor),
        g@ == final(ctx)@.name[d.cursor],
{
    proof {
        lemma_named(ctx@, *d);
    }
    match ctx.name.find(&d.cursor) {
        Some(g) => g,
        None => {
            let spelling = d.spelling.clone();
            let kind = d.cursor.kind;
            let g = if kind == CURSOR_STRUCT_DECL {
                Global::GCompDecl(ctx.mk_compinfo(spelling, true))
            } else if kind == CURSOR_UNION_DECL {
                Global::GCompDecl(ctx.mk_compinfo(spelling, false))
            } else if kind == CURSOR_ENUM_DECL {
                let int_kind = match &*d.int_type {
                    CXType::Int => IKind::IInt,
                    _ => IKind::IUInt,
                };
                Global::GEnumDecl(ctx.mk_enuminfo(spelling, int_kind))
            } else if kind == CURSOR_TYPEDEF_DECL {
                Global::GType(ctx.mk_typeinfo(spelling, Type::TVoid))
            } else if kind == CURSOR_VAR_DECL {
                Global::GVar(ctx.mk_varinfo(spelling, Type::TVoid))
            } else if kind == CURSOR_FUNCTION_DECL {
                Global::GFunc(ctx.mk_varinfo(spelling, Type::TVoid))
            } else {
                Global::GOther
            };
            ctx.name.insert(d.cursor, g);
            g
        },
    }
}

/// The state after the declaration, given a name, was put down to be written.
pub open spec fn declared(c: CtxView, d: CXDecl) -> CtxView {
    let n = named(c, d);
    CtxView { globals: n.globals.push(n.name[d.cursor]), ..n }
}

/// Puts the declaration down to be written, by its name alone.
pub fn opaque_decl(ctx: &mut BindGenCtx, d: &CXDecl)
    requires
        old(ctx).wf(),
    ensures
        final(ctx).wf(),
        final(ctx)@ == declared(old(ctx)@, *d),
{
    let name = decl_name(ctx, d);
    let ghost mid = ctx@;
    ctx.globals.push(name);
    assert(ctx@.globals =~= mid.globals.push(name@));
}

/// The place of the `struct` or `union`.
pub fn global_compinfo(g: Global) -> (i: usize)
    requires
        is_comp(g@),
    ensures
        i == place(g@),
{
    match g {
        Global::GComp(i) => i,
        Global::GCompDecl(i) => i,
        _ => 0,
    }
}

/// The place of the `enum`.
pub fn global_enuminfo(g: Global) -> (i: usize)
    requires
        is_enum(g@),
    ensures
        i == place(g@),
{
    match g {
        Global::GEnum(i) => i,
        Global::GEnumDecl(i) => i,
        _ => 0,
    }
}

/// The place of the `typedef`.
pub fn global_typeinfo(g: Global) -> (i: usize)
    requires
        g@ is GType,
    ensures
        i == place(g@),
{
    match g {
        Global::GType(i) => i,
        _ => 0,
    }
}

/// The place of the variable or function.
pub fn global_varinfo(g: Global) -> (i: usize)
    requires
        is_var(g@),
    ensures
        i == place(g@),
{
    match g {
        Global::GVar(i) => i,
        Global::GFunc(i) => i,
        _ => 0,
    }
}

} // verus!
