//! What libclang says of cursors and types, as plain values.

use vstd::prelude::*;
use vstd::std_specs::cmp::PartialEqSpecImpl;

verus! {

/// A `struct` declaration (`CXCursor_StructDecl`).
pub const CURSOR_STRUCT_DECL: i32 = 2;

/// A `union` declaration (`CXCursor_UnionDecl`).
pub const CURSOR_UNION_DECL: i32 = 3;

/// An `enum` declaration (`CXCursor_EnumDecl`).
pub const CURSOR_ENUM_DECL: i32 = 5;

/// A member of a `struct` or `union` (`CXCursor_FieldDecl`).
pub const CURSOR_FIELD_DECL: i32 = 6;

/// An enumerator (`CXCursor_EnumConstantDecl`).
pub const CURSOR_ENUM_CONSTANT_DECL: i32 = 7;

/// A function (`CXCursor_FunctionDecl`).
pub const CURSOR_FUNCTION_DECL: i32 = 8;

/// A variable (`CXCursor_VarDecl`).
pub const CURSOR_VAR_DECL: i32 = 9;

/// A `typedef` (`CXCursor_TypedefDecl`).
pub const CURSOR_TYPEDEF_DECL: i32 = 20;

/// The answer to a question that has no answer (`CXCursor_InvalidFile`).
pub const CURSOR_INVALID_FILE: i32 = 70;

/// The declaration of something that has none (`CXCursor_NoDeclFound`).
pub const CURSOR_NO_DECL_FOUND: i32 = 71;

/// Linkage within a C++ anonymous namespace (`CXLinkage_UniqueExternal`).
pub const LINKAGE_UNIQUE_EXTERNAL: i32 = 3;

/// True external linkage (`CXLinkage_External`).
pub const LINKAGE_EXTERNAL: i32 = 4;

/// The least severity that spoils a translation unit (`CXDiagnostic_Error`).
pub const DIAGNOSTIC_ERROR: i32 = 3;

/// A cursor: the name that libclang has for a node of the syntax tree.
///
/// Two nodes are the same exactly when all five numbers agree. The three
/// addresses are kept as numbers and never followed.
#[derive(Clone, Copy, Debug, Eq)]
pub struct CXCursor {
    pub kind: i32,
    pub xdata: i32,
    pub data: [usize; 3],
}

impl PartialEqSpecImpl for CXCursor {
    open spec fn obeys_eq_spec() -> bool {
        true
    }

    open spec fn eq_spec(&self, other: &CXCursor) -> bool {
        *self == *other
    }
}

impl PartialEq for CXCursor {
    fn eq(&self, other: &CXCursor) -> (r: bool) {
        let r = self.kind == other.kind && self.xdata == other.xdata && self.data[0]
            == other.data[0] && self.data[1] == other.data[1] && self.data[2] == other.data[2];
        proof {
            if r {
                assert(self.data =~= other.data);
            }
        }
        r
    }

    fn ne(&self, other: &CXCursor) -> (r: bool) {
        !self.eq(other)
    }
}

/// How many bytes a machine word has.
pub open spec fn word_len() -> nat {
    (usize::BITS / 8) as nat
}

/// The byte of `w` that counts `256` to the power of `i`.
pub open spec fn byte_of(w: usize, i: int) -> u8 {
    (w >> ((8 * i) as usize)) as u8
}

/// The bytes of the machine word `w`, the least significant first or last.
pub open spec fn word_bytes(w: usize, lsb0: bool) -> Seq<u8> {
    Seq::new(word_len(), |i: int| byte_of(w, if lsb0 { i } else { word_len() - 1 - i }))
}

impl CXCursor {
    /// The five numbers of a cursor, each as a machine word; the sign of the first
    /// two is extended.
    pub open spec fn words(self) -> Seq<usize> {
        seq![
            self.kind as usize,
            self.xdata as usize,
            self.data@[0],
            self.data@[1],
            self.data@[2],
        ]
    }

    /// The bytes by which a cursor can be hashed.
    pub open spec fn bytes(self, lsb0: bool) -> Seq<u8> {
        let w = self.words();
        word_bytes(w[0], lsb0) + word_bytes(w[1], lsb0) + word_bytes(w[2], lsb0) + word_bytes(
            w[3],
            lsb0,
        ) + word_bytes(w[4], lsb0)
    }

    /// Lays out the five numbers of the cursor, one after the other, as the
    /// bytes by which it can be hashed: the kind, `xdata`, and the three
    /// addresses, each as a machine word, the least significant byte of each
    /// first if `lsb0` is set and last if it is not.
    pub fn iter_bytes(&self, lsb0: bool) -> (r: Vec<u8>)
        ensures
            r@ == self.bytes(lsb0),
    {
        let mut out: Vec<u8> = Vec::new();
        push_word(&mut out, self.kind as usize, lsb0);
        push_word(&mut out, self.xdata as usize, lsb0);
        push_word(&mut out, self.data[0], lsb0);
        push_word(&mut out, self.data[1], lsb0);
        push_word(&mut out, self.data[2], lsb0);
        out
    }
}

/// Appends the bytes of the machine word `w`.
fn push_word(out: &mut Vec<u8>, w: usize, lsb0: bool)
    ensures
        final(out)@ == old(out)@ + word_bytes(w, lsb0),
{
    let ghost start = out@;
    let len: usize = (usize::BITS / 8) as usize;
    let mut i: usize = 0;
    while i < len
        invariant
            i <= len,
            len == word_len(),
            out@ == start + word_bytes(w, lsb0).take(i as int),
        decreases len - i,
    {
        let place: usize = if lsb0 {
            i
        } else {
            len - 1 - i
        };
        let b: u8 = (w >> (8 * place)) as u8;
        assert(b == word_bytes(w, lsb0)[i as int]);
        assert(word_bytes(w, lsb0).take(i + 1) =~= word_bytes(w, lsb0).take(i as int).push(b));
        out.push(b);
        i = i + 1;
    }
    assert(word_bytes(w, lsb0).take(len as int) =~= word_bytes(w, lsb0));
}

/// What is read of a declaration when a type refers to it.
pub struct CXDecl {
    pub cursor: CXCursor,
    /// The declared name; empty for one that has none.
    pub spelling: String,
    /// The cursor of the definition, or one of the kind
    /// [`CURSOR_NO_DECL_FOUND`] or [`CURSOR_INVALID_FILE`] where there is none.
    pub definition: CXCursor,
    /// The integer type behind an `enum`; [`CXType::Invalid`] for what is none.
    pub int_type: Box<CXType>,
}

/// What is read of a type that may be a function type.
pub struct CXSignature {
    /// [`CXType::Invalid`] where the type is not that of a function.
    pub result: Box<CXType>,
    pub args: Vec<CXType>,
    pub variadic: bool,
    pub decl: CXDecl,
}

/// A type, with the parts of it that decide what it becomes.
pub enum CXType {
    Invalid,
    Void,
    Bool,
    CharU,
    UChar,
    UShort,
    UInt,
    ULong,
    ULongLong,
    CharS,
    SChar,
    Short,
    Int,
    Long,
    LongLong,
    Float,
    Double,
    LongDouble,
    /// The type pointed to.
    Pointer(Box<CXType>),
    Record(CXDecl),
    Enum(CXDecl),
    /// The declaration, and the type that it gives a name to.
    Typedef(CXDecl, Box<CXType>),
    FunctionNoProto(CXSignature),
    FunctionProto(CXSignature),
    /// A type that libclang does not take apart.
    Unexposed(CXSignature),
    /// The type of an element, and how many there are.
    ConstantArray(Box<CXType>, i64),
    /// Any other kind.
    Other,
}

/// A parameter of a function.
pub struct CXParam {
    pub spelling: String,
    pub ty: CXType,
}

/// What is read of a cursor directly below a `struct`, `union` or `enum`.
pub struct CXChild {
    pub kind: i32,
    pub spelling: String,
    pub ty: CXType,
    /// The value of an enumerator, as wide as libclang gives it.
    pub value: i64,
}

/// What is read of a cursor when the translation unit is visited.
pub struct CXNode {
    pub decl: CXDecl,
    /// The name of the file that the cursor stands in, if it stands in one.
    pub file: Option<String>,
    pub linkage: i32,
    /// The type of the cursor.
    pub ty: CXType,
    /// The result type of a function.
    pub result: CXType,
    /// The parameters of a function.
    pub args: Vec<CXParam>,
    /// Whether a function takes further arguments.
    pub variadic: bool,
    /// The type that a `typedef` gives a name to.
    pub underlying: CXType,
    /// The canonical form of the type that a `typedef` gives a name to.
    pub canonical: CXType,
    /// The cursors directly below, in the order in which they are visited.
    pub children: Vec<CXChild>,
}

/// How a visit goes on.
#[derive(Clone, Copy, Debug, PartialEq, Eq, Structural)]
pub enum CXChildVisit {
    /// With the next sibling (`CXChildVisit_Continue`).
    Continue,
    /// With what is below the cursor (`CXChildVisit_Recurse`).
    Recurse,
}

} // verus!
