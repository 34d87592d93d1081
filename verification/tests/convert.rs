use bindgen::clang::{CXCursor, CXDecl, CXSignature, CXType};
use bindgen::context::{decl_name, opaque_decl, BindGenCtx};
use bindgen::convert::{conv_decl_ty, conv_ptr_ty, conv_ty};
use bindgen::types::{FKind, Global, IKind, Type};

const STRUCT: i32 = 2;
const UNION: i32 = 3;
const ENUM: i32 = 5;
const FUNCTION: i32 = 8;
const VAR: i32 = 9;
const TYPEDEF: i32 = 20;
const NO_DECL: i32 = 71;

fn ctx() -> BindGenCtx {
    BindGenCtx::new(Vec::new(), None, None)
}

fn cursor(kind: i32, id: usize) -> CXCursor {
    CXCursor { kind, xdata: 0, data: [id, 0, 0] }
}

fn decl(kind: i32, id: usize, spelling: &str) -> CXDecl {
    CXDecl {
        cursor: cursor(kind, id),
        spelling: spelling.to_string(),
        definition: cursor(kind, id),
        int_type: Box::new(CXType::Invalid),
    }
}

fn no_decl() -> CXDecl {
    decl(NO_DECL, 0, "")
}

fn pointer(ty: CXType) -> CXType {
    CXType::Pointer(Box::new(ty))
}

fn signature(result: CXType, args: Vec<CXType>, variadic: bool) -> CXSignature {
    CXSignature { result: Box::new(result), args, variadic, decl: no_decl() }
}

fn ptr(ty: Type) -> Type {
    Type::TPtr(Box::new(ty))
}

fn arg(ty: Type) -> (String, Type) {
    (String::new(), ty)
}

#[test]
fn simple_types() {
    let expected = [
        (CXType::Bool, Type::TInt(IKind::IBool)),
        (CXType::SChar, Type::TInt(IKind::ISChar)),
        (CXType::CharS, Type::TInt(IKind::ISChar)),
        (CXType::UChar, Type::TInt(IKind::IUChar)),
        (CXType::CharU, Type::TInt(IKind::IUChar)),
        (CXType::UShort, Type::TInt(IKind::IUShort)),
        (CXType::UInt, Type::TInt(IKind::IUInt)),
        (CXType::ULong, Type::TInt(IKind::IULong)),
        (CXType::ULongLong, Type::TInt(IKind::IULongLong)),
        (CXType::Short, Type::TInt(IKind::IShort)),
        (CXType::Int, Type::TInt(IKind::IInt)),
        (CXType::Long, Type::TInt(IKind::ILong)),
        (CXType::LongLong, Type::TInt(IKind::ILongLong)),
        (CXType::Float, Type::TFloat(FKind::FFloat)),
        (CXType::Double, Type::TFloat(FKind::FDouble)),
        (CXType::LongDouble, Type::TFloat(FKind::FDouble)),
        (CXType::Void, Type::TVoid),
        (CXType::Invalid, Type::TVoid),
        (CXType::Other, Type::TVoid),
    ];
    let mut c = ctx();
    for (ty, converted) in expected {
        assert_eq!(conv_ty(&mut c, &ty), converted);
    }
    assert!(c.comps.is_empty() && c.typedefs.is_empty() && c.enums.is_empty());
}

#[test]
fn arrays_keep_their_length() {
    let mut c = ctx();
    let ty = CXType::ConstantArray(
        Box::new(CXType::ConstantArray(Box::new(CXType::Int), 3)),
        2,
    );
    assert_eq!(
        conv_ty(&mut c, &ty),
        Type::TArray(Box::new(Type::TArray(Box::new(Type::TInt(IKind::IInt)), 3)), 2)
    );
}

#[test]
fn pointers() {
    let mut c = ctx();
    assert_eq!(conv_ty(&mut c, &pointer(CXType::Void)), ptr(Type::TVoid));
    assert_eq!(
        conv_ty(&mut c, &pointer(pointer(CXType::CharS))),
        ptr(ptr(Type::TInt(IKind::ISChar)))
    );
    assert_eq!(conv_ptr_ty(&mut c, &CXType::Int), ptr(Type::TInt(IKind::IInt)));
}

#[test]
fn a_pointer_to_a_function_is_the_function() {
    let mut c = ctx();
    let sig = signature(CXType::Int, vec![CXType::CharS, pointer(CXType::Void)], true);
    assert_eq!(
        conv_ty(&mut c, &pointer(CXType::FunctionProto(sig))),
        Type::TFunc(
            Box::new(Type::TInt(IKind::IInt)),
            vec![arg(Type::TInt(IKind::ISChar)), arg(ptr(Type::TVoid))],
            true
        )
    );
    let sig = signature(CXType::Void, vec![], false);
    assert_eq!(
        conv_ty(&mut c, &pointer(CXType::FunctionNoProto(sig))),
        Type::TFunc(Box::new(Type::TVoid), vec![], false)
    );
    let sig = signature(CXType::Void, vec![CXType::Int], false);
    assert_eq!(
        conv_ty(&mut c, &pointer(CXType::Unexposed(sig))),
        Type::TFunc(Box::new(Type::TVoid), vec![arg(Type::TInt(IKind::IInt))], false)
    );
}

#[test]
fn a_function_behind_no_pointer_is_void() {
    let mut c = ctx();
    let sig = signature(CXType::Int, vec![], false);
    assert_eq!(conv_ty(&mut c, &CXType::FunctionProto(sig)), Type::TVoid);
}

#[test]
fn a_pointer_to_a_typedef_of_a_function() {
    let mut c = ctx();
    let sig = signature(CXType::Int, vec![], false);
    let ty = CXType::Typedef(decl(TYPEDEF, 1, "cb"), Box::new(CXType::FunctionProto(sig)));
    assert_eq!(
        conv_ty(&mut c, &pointer(ty)),
        ptr(Type::TFunc(Box::new(Type::TInt(IKind::IInt)), vec![], false))
    );
    assert!(c.typedefs.is_empty());
}

#[test]
fn a_pointer_to_another_typedef() {
    let mut c = ctx();
    let ty = CXType::Typedef(decl(TYPEDEF, 1, "num"), Box::new(CXType::Int));
    assert_eq!(conv_ty(&mut c, &pointer(ty)), ptr(Type::TNamed(0)));
    assert_eq!(c.typedefs[0].name, "num");
    assert_eq!(c.typedefs[0].ty, Type::TVoid);
}

#[test]
fn unexposed_types_go_by_their_declaration() {
    let mut c = ctx();
    let mut sig = signature(CXType::Invalid, vec![], false);
    sig.decl = decl(STRUCT, 1, "s");
    assert_eq!(conv_ty(&mut c, &CXType::Unexposed(sig)), Type::TComp(0));
    let mut sig = signature(CXType::Invalid, vec![], false);
    sig.decl = decl(STRUCT, 1, "s");
    assert_eq!(conv_ty(&mut c, &pointer(CXType::Unexposed(sig))), ptr(Type::TComp(0)));
    let sig = signature(CXType::Invalid, vec![], false);
    assert_eq!(conv_ty(&mut c, &pointer(CXType::Unexposed(sig))), ptr(Type::TVoid));
    let sig = signature(CXType::Invalid, vec![], false);
    assert_eq!(conv_ty(&mut c, &CXType::Unexposed(sig)), Type::TVoid);
}

#[test]
fn declarations_are_named_once() {
    let mut c = ctx();
    assert_eq!(conv_ty(&mut c, &CXType::Record(decl(STRUCT, 1, "s"))), Type::TComp(0));
    assert_eq!(conv_ty(&mut c, &CXType::Record(decl(UNION, 2, "u"))), Type::TComp(1));
    assert_eq!(conv_ty(&mut c, &CXType::Record(decl(STRUCT, 1, "s"))), Type::TComp(0));
    assert_eq!(conv_ty(&mut c, &CXType::Enum(decl(ENUM, 3, "e"))), Type::TEnum(0));
    assert_eq!(conv_decl_ty(&mut c, &decl(TYPEDEF, 4, "t")), Type::TNamed(0));
    assert_eq!(conv_decl_ty(&mut c, &no_decl()), Type::TVoid);
    assert_eq!(c.comps.len(), 2);
    assert_eq!((c.comps[0].cstruct, c.comps[0].name.as_str()), (true, "s"));
    assert_eq!((c.comps[1].cstruct, c.comps[1].name.as_str()), (false, "u"));
    assert_eq!(c.enums[0].name, "e");
    assert!(c.globals.is_empty());
}

#[test]
fn arguments_are_named_before_the_result() {
    let mut c = ctx();
    let sig = signature(
        CXType::Record(decl(STRUCT, 1, "result")),
        vec![CXType::Record(decl(STRUCT, 2, "first")), CXType::Record(decl(STRUCT, 3, "second"))],
        false,
    );
    assert_eq!(
        conv_ty(&mut c, &pointer(CXType::FunctionProto(sig))),
        Type::TFunc(
            Box::new(Type::TComp(2)),
            vec![arg(Type::TComp(0)), arg(Type::TComp(1))],
            false
        )
    );
    assert_eq!(c.comps[2].name, "result");
}

#[test]
fn names_go_by_kind() {
    let mut c = ctx();
    assert_eq!(decl_name(&mut c, &decl(STRUCT, 1, "s")), Global::GCompDecl(0));
    assert_eq!(decl_name(&mut c, &decl(UNION, 2, "u")), Global::GCompDecl(1));
    assert_eq!(decl_name(&mut c, &decl(ENUM, 3, "e")), Global::GEnumDecl(0));
    assert_eq!(decl_name(&mut c, &decl(TYPEDEF, 4, "t")), Global::GType(0));
    assert_eq!(decl_name(&mut c, &decl(VAR, 5, "v")), Global::GVar(0));
    assert_eq!(decl_name(&mut c, &decl(FUNCTION, 6, "f")), Global::GFunc(1));
    assert_eq!(decl_name(&mut c, &decl(FUNCTION, 6, "f")), Global::GFunc(1));
    assert_eq!(decl_name(&mut c, &decl(300, 7, "x")), Global::GOther);
    assert_eq!((c.vars[0].name.as_str(), &c.vars[0].ty), ("v", &Type::TVoid));
    assert_eq!(c.vars[1].name, "f");
}

#[test]
fn an_enum_is_signed_only_over_int() {
    let mut c = ctx();
    for (id, int_type, kind) in [
        (1, CXType::Int, IKind::IInt),
        (2, CXType::UInt, IKind::IUInt),
        (3, CXType::Long, IKind::IUInt),
    ] {
        let mut d = decl(ENUM, id, "e");
        d.int_type = Box::new(int_type);
        assert_eq!(decl_name(&mut c, &d), Global::GEnumDecl(id - 1));
        assert_eq!(c.enums[id - 1].kind, kind);
    }
}

#[test]
fn an_opaque_declaration_is_put_down() {
    let mut c = ctx();
    opaque_decl(&mut c, &decl(STRUCT, 1, "s"));
    opaque_decl(&mut c, &decl(STRUCT, 1, "s"));
    assert_eq!(c.globals, vec![Global::GCompDecl(0), Global::GCompDecl(0)]);
}

#[test]
fn converting_again_gives_the_same_and_changes_nothing() {
    let mut c = ctx();
    let ty = || pointer(pointer(CXType::Record(decl(STRUCT, 1, "s"))));
    let first = conv_ty(&mut c, &ty());
    conv_ty(&mut c, &CXType::Record(decl(STRUCT, 2, "t")));
    assert_eq!(conv_ty(&mut c, &ty()), first);
    assert_eq!(c.comps.len(), 2);
}
