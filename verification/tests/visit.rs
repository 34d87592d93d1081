use bindgen::clang::{CXChild, CXChildVisit, CXCursor, CXDecl, CXNode, CXParam, CXType};
use bindgen::context::BindGenCtx;
use bindgen::types::{EnumItem, FieldInfo, Global, IKind, Type};
use bindgen::visit::{
    fwd_decl, match_pattern, opaque_ty, visit_enum, visit_struct, visit_top, visit_union,
};

const STRUCT: i32 = 2;
const UNION: i32 = 3;
const ENUM: i32 = 5;
const FIELD: i32 = 6;
const ENUM_CONSTANT: i32 = 7;
const FUNCTION: i32 = 8;
const VAR: i32 = 9;
const TYPEDEF: i32 = 20;
const NAMESPACE: i32 = 22;
const INVALID_FILE: i32 = 70;
const NO_DECL: i32 = 71;

const INTERNAL: i32 = 2;
const UNIQUE_EXTERNAL: i32 = 3;
const EXTERNAL: i32 = 4;

fn ctx(pats: &[&str]) -> BindGenCtx {
    BindGenCtx::new(pats.iter().map(|p| p.to_string()).collect(), None, None)
}

fn cursor(kind: i32, id: usize) -> CXCursor {
    CXCursor { kind, xdata: 0, data: [id, 0, 0] }
}

fn decl(kind: i32, id: usize, spelling: &str) -> CXDecl {
    CXDecl {
        cursor: cursor(kind, id),
        spelling: spelling.to_string(),
        definition: cursor(kind, id),
        int_type: Box::new(CXType::Int),
    }
}

fn forward(kind: i32, id: usize, spelling: &str, definition: CXCursor) -> CXDecl {
    CXDecl { definition, ..decl(kind, id, spelling) }
}

fn node(decl: CXDecl) -> CXNode {
    CXNode {
        decl,
        file: Some("/usr/include/zlib.h".to_string()),
        linkage: EXTERNAL,
        ty: CXType::Invalid,
        result: CXType::Invalid,
        args: Vec::new(),
        variadic: false,
        underlying: CXType::Invalid,
        canonical: CXType::Invalid,
        children: Vec::new(),
    }
}

fn field(spelling: &str, ty: CXType) -> CXChild {
    CXChild { kind: FIELD, spelling: spelling.to_string(), ty, value: -1 }
}

fn constant(spelling: &str, value: i64) -> CXChild {
    CXChild { kind: ENUM_CONSTANT, spelling: spelling.to_string(), ty: CXType::Int, value }
}

fn pointer(ty: CXType) -> CXType {
    CXType::Pointer(Box::new(ty))
}

fn t_int() -> Type {
    Type::TInt(IKind::IInt)
}

#[test]
fn a_struct_with_its_fields() {
    let mut c = ctx(&[]);
    let mut n = node(decl(STRUCT, 1, "list"));
    n.children = vec![
        field("value", CXType::Int),
        constant("not a member", 7),
        field("next", pointer(CXType::Record(decl(STRUCT, 1, "list")))),
    ];
    assert_eq!(visit_top(&mut c, &n), CXChildVisit::Recurse);
    assert_eq!(c.globals, vec![Global::GComp(0)]);
    assert_eq!(c.cur_glob, Global::GComp(0));
    assert_eq!(c.comps.len(), 1);
    assert!(c.comps[0].cstruct);
    assert_eq!(c.comps[0].name, "list");
    assert_eq!(
        c.comps[0].fields,
        vec![
            FieldInfo { name: "value".to_string(), ty: t_int(), comp: 0 },
            FieldInfo {
                name: "next".to_string(),
                ty: Type::TPtr(Box::new(Type::TComp(0))),
                comp: 0
            },
        ]
    );
}

#[test]
fn a_union_with_its_fields() {
    let mut c = ctx(&[]);
    let mut n = node(decl(UNION, 1, "u"));
    n.children = vec![field("a", CXType::Int), field("b", CXType::Record(decl(STRUCT, 2, "s")))];
    assert_eq!(visit_top(&mut c, &n), CXChildVisit::Recurse);
    assert_eq!(c.globals, vec![Global::GComp(0)]);
    assert!(!c.comps[0].cstruct);
    assert_eq!(c.comps[0].fields[1].ty, Type::TComp(1));
    assert_eq!(c.comps[0].fields[1].comp, 0);
    assert!(c.comps[1].fields.is_empty());
}

#[test]
fn an_enum_with_its_items() {
    let mut c = ctx(&[]);
    let mut n = node(decl(ENUM, 1, "e"));
    n.children = vec![constant("A", 0), field("not an item", CXType::Int), constant("B", -5)];
    assert_eq!(visit_top(&mut c, &n), CXChildVisit::Continue);
    assert_eq!(c.globals, vec![Global::GEnum(0)]);
    assert_eq!(c.enums[0].kind, IKind::IInt);
    assert_eq!(
        c.enums[0].items,
        vec![
            EnumItem { name: "A".to_string(), val: 0, host: 0 },
            EnumItem { name: "B".to_string(), val: -5, host: 0 },
        ]
    );
}

#[test]
fn a_forward_declaration_of_what_is_defined_elsewhere() {
    for kind in [STRUCT, UNION, ENUM] {
        let mut c = ctx(&[]);
        let mut n = node(forward(kind, 1, "s", cursor(kind, 2)));
        n.children = vec![field("x", CXType::Int)];
        visit_top(&mut c, &n);
        assert!(c.globals.is_empty());
        assert!(c.comps.is_empty() && c.enums.is_empty());
    }
}

#[test]
fn a_forward_declaration_of_what_is_defined_nowhere() {
    for missing in [NO_DECL, INVALID_FILE] {
        let mut c = ctx(&[]);
        let s = node(forward(STRUCT, 1, "s", cursor(missing, 0)));
        let e = node(forward(ENUM, 2, "e", cursor(missing, 0)));
        assert_eq!(visit_top(&mut c, &s), CXChildVisit::Recurse);
        assert_eq!(visit_top(&mut c, &e), CXChildVisit::Continue);
        assert_eq!(c.globals, vec![Global::GCompDecl(0), Global::GEnumDecl(0)]);
        assert_eq!(c.comps[0].name, "s");
    }
}

#[test]
fn fwd_decl_tells_definitions() {
    let mut c = ctx(&[]);
    assert!(fwd_decl(&mut c, &decl(STRUCT, 1, "s")));
    assert!(!fwd_decl(&mut c, &forward(STRUCT, 1, "s", cursor(STRUCT, 2))));
    assert!(c.globals.is_empty());
    assert!(!fwd_decl(&mut c, &forward(STRUCT, 1, "s", cursor(NO_DECL, 0))));
    assert_eq!(c.globals, vec![Global::GCompDecl(0)]);
}

#[test]
fn a_function_with_its_parameters() {
    let mut c = ctx(&[]);
    let mut n = node(decl(FUNCTION, 1, "printf"));
    n.result = CXType::Int;
    n.args = vec![
        CXParam { spelling: "stream".to_string(), ty: pointer(CXType::Record(decl(STRUCT, 2, "FILE"))) },
        CXParam { spelling: String::new(), ty: CXType::Int },
    ];
    n.variadic = true;
    assert_eq!(visit_top(&mut c, &n), CXChildVisit::Continue);
    assert_eq!(c.globals, vec![Global::GFunc(0)]);
    assert_eq!(c.vars[0].name, "printf");
    assert_eq!(
        c.vars[0].ty,
        Type::TFunc(
            Box::new(t_int()),
            vec![
                ("stream".to_string(), Type::TPtr(Box::new(Type::TComp(0)))),
                (String::new(), t_int()),
            ],
            true
        )
    );
}

#[test]
fn a_variable() {
    let mut c = ctx(&[]);
    let mut n = node(decl(VAR, 1, "environ"));
    n.ty = pointer(pointer(CXType::CharS));
    n.linkage = UNIQUE_EXTERNAL;
    assert_eq!(visit_top(&mut c, &n), CXChildVisit::Continue);
    assert_eq!(c.globals, vec![Global::GVar(0)]);
    assert_eq!(
        c.vars[0].ty,
        Type::TPtr(Box::new(Type::TPtr(Box::new(Type::TInt(IKind::ISChar)))))
    );
}

#[test]
fn what_cannot_be_linked_with_is_left_out() {
    for kind in [FUNCTION, VAR] {
        for linkage in [0, 1, INTERNAL] {
            let mut c = ctx(&[]);
            let mut n = node(decl(kind, 1, "hidden"));
            n.linkage = linkage;
            n.ty = CXType::Record(decl(STRUCT, 2, "s"));
            assert_eq!(visit_top(&mut c, &n), CXChildVisit::Continue);
            assert!(c.globals.is_empty() && c.vars.is_empty() && c.comps.is_empty());
        }
    }
}

#[test]
fn a_second_declaration_changes_nothing() {
    let mut c = ctx(&[]);
    let mut f = node(decl(FUNCTION, 1, "f"));
    f.result = CXType::Int;
    let mut v = node(decl(VAR, 2, "v"));
    v.ty = CXType::Int;
    let mut t = node(decl(TYPEDEF, 3, "t"));
    t.underlying = CXType::Int;
    for n in [&f, &v, &t, &f, &v, &t] {
        visit_top(&mut c, n);
    }
    assert_eq!(c.globals, vec![Global::GFunc(0), Global::GVar(1), Global::GType(0)]);
    f.result = CXType::Void;
    visit_top(&mut c, &f);
    assert_eq!(c.vars[0].ty, Type::TFunc(Box::new(t_int()), vec![], false));
}

#[test]
fn a_typedef_with_its_type() {
    let mut c = ctx(&[]);
    let mut n = node(decl(TYPEDEF, 1, "num"));
    n.underlying = CXType::Long;
    n.canonical = CXType::Short;
    assert_eq!(visit_top(&mut c, &n), CXChildVisit::Continue);
    assert_eq!(c.globals, vec![Global::GType(0)]);
    assert_eq!(c.typedefs[0].name, "num");
    assert_eq!(c.typedefs[0].ty, Type::TInt(IKind::ILong));
}

#[test]
fn a_typedef_of_an_unexposed_type_goes_by_the_canonical_one() {
    let mut c = ctx(&[]);
    let mut n = node(decl(TYPEDEF, 1, "num"));
    n.underlying = CXType::Unexposed(bindgen::clang::CXSignature {
        result: Box::new(CXType::Invalid),
        args: Vec::new(),
        variadic: false,
        decl: decl(STRUCT, 5, "other"),
    });
    n.canonical = CXType::Short;
    visit_top(&mut c, &n);
    assert_eq!(c.typedefs[0].ty, Type::TInt(IKind::IShort));
    assert!(c.comps.is_empty());
}

#[test]
fn a_typedef_of_what_is_defined_nowhere() {
    let mut c = ctx(&[]);
    let mut n = node(decl(TYPEDEF, 1, "FILE"));
    n.underlying = CXType::Record(forward(STRUCT, 2, "_IO_FILE", cursor(NO_DECL, 0)));
    visit_top(&mut c, &n);
    assert_eq!(c.globals, vec![Global::GType(0), Global::GCompDecl(0)]);
    assert_eq!(c.typedefs[0].ty, Type::TComp(0));
}

#[test]
fn a_typedef_that_was_referred_to_before_is_not_written() {
    let mut c = ctx(&[]);
    let mut v = node(decl(VAR, 1, "v"));
    v.ty = CXType::Typedef(decl(TYPEDEF, 2, "t"), Box::new(CXType::Int));
    visit_top(&mut c, &v);
    let mut t = node(decl(TYPEDEF, 2, "t"));
    t.underlying = CXType::Int;
    visit_top(&mut c, &t);
    assert_eq!(c.globals, vec![Global::GVar(0)]);
    assert_eq!(c.typedefs[0].ty, Type::TVoid);
}

#[test]
fn opaque_ty_goes_by_the_definition() {
    let mut c = ctx(&[]);
    opaque_ty(&mut c, &CXType::Record(decl(STRUCT, 1, "s")));
    opaque_ty(&mut c, &CXType::Int);
    assert!(c.globals.is_empty());
    opaque_ty(&mut c, &CXType::Enum(forward(ENUM, 2, "e", cursor(INVALID_FILE, 0))));
    assert_eq!(c.globals, vec![Global::GEnumDecl(0)]);
}

#[test]
fn members_are_visited_one_by_one() {
    let mut c = ctx(&[]);
    visit_top(&mut c, &node(decl(STRUCT, 1, "s")));
    assert_eq!(visit_struct(&mut c, &field("a", CXType::Int)), CXChildVisit::Continue);
    assert_eq!(visit_union(&mut c, &field("b", CXType::Int)), CXChildVisit::Continue);
    assert_eq!(visit_struct(&mut c, &constant("c", 0)), CXChildVisit::Continue);
    assert_eq!(c.comps[0].fields.len(), 2);
    visit_top(&mut c, &node(decl(ENUM, 2, "e")));
    assert_eq!(visit_enum(&mut c, &constant("A", 3)), CXChildVisit::Continue);
    assert_eq!(visit_enum(&mut c, &field("x", CXType::Int)), CXChildVisit::Continue);
    assert_eq!(c.enums[0].items, vec![EnumItem { name: "A".to_string(), val: 3, host: 0 }]);
    assert_eq!(c.comps[0].fields.len(), 2);
}

#[test]
fn other_cursors_are_passed_through() {
    let mut c = ctx(&[]);
    assert_eq!(visit_top(&mut c, &node(decl(NAMESPACE, 1, "n"))), CXChildVisit::Recurse);
    assert_eq!(visit_top(&mut c, &node(decl(FIELD, 2, "f"))), CXChildVisit::Continue);
    assert!(c.globals.is_empty());
    assert!(!c.name.contains_key(&cursor(NAMESPACE, 1)));
}

#[test]
fn files_are_asked_for_by_any_pattern() {
    let n = node(decl(STRUCT, 1, "s"));
    assert!(match_pattern(&ctx(&[]), &n));
    assert!(match_pattern(&ctx(&["zlib"]), &n));
    assert!(match_pattern(&ctx(&["stdio", "include/z"]), &n));
    assert!(!match_pattern(&ctx(&["stdio", "zconf"]), &n));
    assert!(match_pattern(&ctx(&[""]), &n));
}

#[test]
fn what_stands_in_no_file_is_not_asked_for() {
    let mut n = node(decl(STRUCT, 1, "s"));
    n.file = None;
    assert!(!match_pattern(&ctx(&[]), &n));
    assert!(!match_pattern(&ctx(&[""]), &n));
}

#[test]
fn what_is_not_asked_for_is_skipped() {
    let mut c = ctx(&["stdio"]);
    for kind in [STRUCT, UNION, ENUM, FUNCTION, VAR, TYPEDEF, NAMESPACE] {
        assert_eq!(visit_top(&mut c, &node(decl(kind, 1, "x"))), CXChildVisit::Continue);
        assert!(!c.name.contains_key(&cursor(kind, 1)));
    }
    assert!(c.globals.is_empty());
}

#[test]
fn what_was_collected_is_kept() {
    let mut c = ctx(&[]);
    let opaque = node(forward(STRUCT, 1, "s", cursor(NO_DECL, 0)));
    visit_top(&mut c, &opaque);
    let mut s = node(decl(STRUCT, 1, "renamed"));
    s.children = vec![field("a", CXType::Int)];
    visit_top(&mut c, &s);
    assert_eq!(c.globals, vec![Global::GCompDecl(0), Global::GComp(0)]);
    assert_eq!(c.comps.len(), 1);
    assert_eq!(c.comps[0].name, "s");
    assert_eq!(c.comps[0].fields.len(), 1);
    assert_eq!(c.name.find(&cursor(STRUCT, 1)), Some(Global::GCompDecl(0)));
}
