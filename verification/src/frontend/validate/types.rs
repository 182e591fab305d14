use vstd::prelude::*;

use crate::backend::IrType;
use crate::text::copy_str;

verus! {

/// A type of the language.
#[derive(Debug, PartialEq, Eq, Hash)]
pub enum Type {
    /// Pointer to a memory location: `&T` or `&mut T`.
    Reference { ty: Box<Type>, mutable: bool },
    /// 8-bit unsigned integer
    u8,
    /// 16-bit unsigned integer
    u16,
    /// 32-bit unsigned integer
    u32,
    /// 64-bit unsigned integer
    u64,
    /// 128-bit unsigned integer
    u128,
    /// 8-bit signed integer
    i8,
    /// 16-bit signed integer
    i16,
    /// 32-bit signed integer
    i32,
    /// 64-bit signed integer
    i64,
    /// 128-bit signed integer
    i128,
    /// Architectural word size (unsigned)
    usize,
    /// Architectural word size (signed)
    isize,
    /// IEEE 754 32 bit float (shown as `f` followed by `32`)
    F32,
    /// IEEE 754 64 bit float (shown as `f` followed by `64`)
    F64,
    /// 8 bit boolean value
    bool,
    /// `()` type
    Unit,
    /// (A, B, C, ...)
    Tuple(Vec<Type>),
    /// Name of a struct, enum, alias, etc.
    User(String),
    /// Unspecified and uninferred type
    Unknown,
}

/// The value of a [`Type`]: names held as `Seq<char>`.
pub enum TypeV {
    Reference { ty: Box<TypeV>, mutable: bool },
    u8,
    u16,
    u32,
    u64,
    u128,
    i8,
    i16,
    i32,
    i64,
    i128,
    usize,
    isize,
    F32,
    F64,
    bool,
    Unit,
    Tuple(Seq<TypeV>),
    User(Seq<char>),
    Unknown,
}

impl View for Type {
    type V = TypeV;

    open spec fn view(&self) -> TypeV
        decreases self,
    {
        match self {
            Type::Reference { ty, mutable } => TypeV::Reference { ty: Box::new((**ty).view()), mutable: *mutable },
            Type::u8 => TypeV::u8,
            Type::u16 => TypeV::u16,
            Type::u32 => TypeV::u32,
            Type::u64 => TypeV::u64,
            Type::u128 => TypeV::u128,
            Type::i8 => TypeV::i8,
            Type::i16 => TypeV::i16,
            Type::i32 => TypeV::i32,
            Type::i64 => TypeV::i64,
            Type::i128 => TypeV::i128,
            Type::usize => TypeV::usize,
            Type::isize => TypeV::isize,
            Type::F32 => TypeV::F32,
            Type::F64 => TypeV::F64,
            Type::bool => TypeV::bool,
            Type::Unit => TypeV::Unit,
            Type::Tuple(ts) => TypeV::Tuple(
                Seq::new(ts@.len(), |i: int| if 0 <= i < ts@.len() { ts@[i].view() } else { TypeV::Unknown }),
            ),
            Type::User(s) => TypeV::User(s@),
            Type::Unknown => TypeV::Unknown,
        }
    }
}

/// The type that the name `s` resolves to: a built-in type, or a user type of
/// that name.
pub open spec fn resolve_builtin(s: Seq<char>) -> TypeV {
    if s == "u8"@ {
        TypeV::u8
    } else if s == "u16"@ {
        TypeV::u16
    } else if s == "u32"@ {
        TypeV::u32
    } else if s == "u64"@ {
        TypeV::u64
    } else if s == "u128"@ {
        TypeV::u128
    } else if s == "i8"@ {
        TypeV::i8
    } else if s == "i16"@ {
        TypeV::i16
    } else if s == "i32"@ {
        TypeV::i32
    } else if s == "i64"@ {
        TypeV::i64
    } else if s == "i128"@ {
        TypeV::i128
    } else if s == "usize"@ {
        TypeV::usize
    } else if s == "isize"@ {
        TypeV::isize
    } else if s == "f"@ + "32"@ {
        TypeV::F32
    } else if s == "f"@ + "64"@ {
        TypeV::F64
    } else if s == "bool"@ {
        TypeV::bool
    } else {
        TypeV::User(s)
    }
}

/// The built-in scalar types: those that a name stands for.
pub open spec fn is_builtin_scalar(t: TypeV) -> bool {
    match t {
        TypeV::u8 | TypeV::u16 | TypeV::u32 | TypeV::u64 | TypeV::u128 | TypeV::i8 | TypeV::i16
        | TypeV::i32 | TypeV::i64 | TypeV::i128 | TypeV::usize | TypeV::isize | TypeV::F32
        | TypeV::F64 | TypeV::bool => true,
        _ => false,
    }
}

/// The names of the built-in scalar types.
pub open spec fn is_builtin_name(s: Seq<char>) -> bool {
    s == "u8"@ || s == "u16"@ || s == "u32"@ || s == "u64"@ || s == "u128"@ || s == "i8"@ || s == "i16"@ || s == "i32"@ || s == "i64"@ || s == "i128"@ || s == "usize"@ || s == "isize"@ || s == "bool"@ || s == "f"@ + "32"@
        || s == "f"@ + "64"@
}

/// Resolving a name undoes showing a built-in scalar type, and every other
/// name stands for a user type of that name.
pub proof fn law_resolve_undoes_display(t: TypeV, s: Seq<char>)
    ensures
        is_builtin_scalar(t) ==> is_builtin_name(type_display(t)) && resolve_builtin(type_display(t)) == t,
        !is_builtin_name(s) ==> resolve_builtin(s) == TypeV::User(s),
{
    reveal_strlit("u8");
    reveal_strlit("u16");
    reveal_strlit("u32");
    reveal_strlit("u64");
    reveal_strlit("u128");
    reveal_strlit("i8");
    reveal_strlit("i16");
    reveal_strlit("i32");
    reveal_strlit("i64");
    reveal_strlit("i128");
    reveal_strlit("usize");
    reveal_strlit("isize");
    reveal_strlit("bool");
    reveal_strlit("f");
    reveal_strlit("32");
    reveal_strlit("64");
    assert("u8"@ =~= seq!['u', '8']);
    assert("u16"@ =~= seq!['u', '1', '6']);
    assert("u32"@ =~= seq!['u', '3', '2']);
    assert("u64"@ =~= seq!['u', '6', '4']);
    assert("u128"@ =~= seq!['u', '1', '2', '8']);
    assert("i8"@ =~= seq!['i', '8']);
    assert("i16"@ =~= seq!['i', '1', '6']);
    assert("i32"@ =~= seq!['i', '3', '2']);
    assert("i64"@ =~= seq!['i', '6', '4']);
    assert("i128"@ =~= seq!['i', '1', '2', '8']);
    assert("usize"@ =~= seq!['u', 's', 'i', 'z', 'e']);
    assert("isize"@ =~= seq!['i', 's', 'i', 'z', 'e']);
    assert("bool"@ =~= seq!['b', 'o', 'o', 'l']);
    assert(("f"@ + "32"@) =~= seq!['f', '3', '2']);
    assert(("f"@ + "64"@) =~= seq!['f', '6', '4']);
    match t {
        TypeV::u8 => {},
        TypeV::u16 => assert("u16"@[1] != "u8"@[1]),
        TypeV::u32 => assert("u32"@[1] != "u16"@[1]),
        TypeV::u64 => assert("u64"@[1] != "u32"@[1]),
        TypeV::u128 => {},
        TypeV::i8 => assert("i8"@[0] != "u8"@[0]),
        TypeV::i16 => assert("i16"@[0] != "u16"@[0]),
        TypeV::i32 => assert("i32"@[0] != "u32"@[0] && "i32"@[1] != "i16"@[1]),
        TypeV::i64 => assert("i64"@[0] != "u64"@[0] && "i64"@[1] != "i32"@[1]),
        TypeV::i128 => assert("i128"@[0] != "u128"@[0]),
        _ => {},
    }
}

/// What `Display` shows of a type.
pub open spec fn type_display(t: TypeV) -> Seq<char>
    decreases t,
{
    match t {
        TypeV::Reference { ty, mutable } => "&"@ + (if mutable { "mut "@ } else { ""@ }) + type_display(*ty),
        TypeV::u8 => "u8"@,
        TypeV::u16 => "u16"@,
        TypeV::u32 => "u32"@,
        TypeV::u64 => "u64"@,
        TypeV::u128 => "u128"@,
        TypeV::i8 => "i8"@,
        TypeV::i16 => "i16"@,
        TypeV::i32 => "i32"@,
        TypeV::i64 => "i64"@,
        TypeV::i128 => "i128"@,
        TypeV::usize => "usize"@,
        TypeV::isize => "isize"@,
        TypeV::F32 => "f"@ + "32"@,
        TypeV::F64 => "f"@ + "64"@,
        TypeV::bool => "bool"@,
        TypeV::Unit => "()"@,
        TypeV::Tuple(ts) => {
            let open = "("@ + tuple_items(ts);
            open.take(if open.len() >= 2 { open.len() - 2 } else { 0 }) + ")"@
        },
        TypeV::User(s) => s,
        TypeV::Unknown => "!Unknown!"@,
    }
}

/// Each type of `ts` shown and followed by `, `.
pub open spec fn tuple_items(ts: Seq<TypeV>) -> Seq<char>
    decreases ts,
{
    if ts.len() == 0 {
        Seq::empty()
    } else {
        tuple_items(ts.drop_last()) + type_display(ts.last()) + ", "@
    }
}

pub open spec fn is_signed_integer(t: TypeV) -> bool {
    t is i8 || t is i16 || t is i32 || t is i64 || t is i128 || t is isize
}

pub open spec fn is_integer(t: TypeV) -> bool {
    t is u8 || t is u16 || t is u32 || t is u64 || t is u128 || t is usize || is_signed_integer(t)
}

pub open spec fn is_float(t: TypeV) -> bool {
    t is F32 || t is F64
}

pub open spec fn is_numeric(t: TypeV) -> bool {
    is_integer(t) || is_float(t)
}

/// The machine type of a value of type `t`, where `pointer` is the machine
/// type of addresses.
pub open spec fn ir_type(t: TypeV, pointer: IrType) -> IrType {
    match t {
        TypeV::usize | TypeV::isize | TypeV::Reference { .. } => pointer,
        TypeV::u8 => IrType::I8,
        TypeV::u16 => IrType::I16,
        TypeV::u32 => IrType::I32,
        TypeV::u64 => IrType::I64,
        TypeV::u128 => IrType::I128,
        TypeV::i8 => IrType::I8,
        TypeV::i16 => IrType::I16,
        TypeV::i32 => IrType::I32,
        TypeV::i64 => IrType::I64,
        TypeV::i128 => IrType::I128,
        TypeV::F32 => IrType::F32,
        TypeV::F64 => IrType::F64,
        TypeV::bool => IrType::B8,
        _ => IrType::Invalid,
    }
}

/// Whether `a` and `b` hold the same characters.
pub fn str_eq(a: &str, b: &str) -> (r: bool)
    ensures
        r == (a@ == b@),
{
    let n = a.unicode_len();
    if n != b.unicode_len() {
        return false;
    }
    let mut i: usize = 0;
    while i < n
        invariant
            n == a@.len(),
            n == b@.len(),
            i <= n,
            forall|j: int| 0 <= j < i ==> a@[j] == b@[j],
        decreases n - i,
    {
        if a.get_char(i) != b.get_char(i) {
            return false;
        }
        i += 1;
    }
    assert(a@ =~= b@);
    true
}

/// Whether `a` holds the characters of `b1` followed by those of `b2`.
fn str_eq_parts(a: &str, b1: &str, b2: &str) -> (r: bool)
    ensures
        r == (a@ == b1@ + b2@),
{
    let mut b = copy_str(b1);
    b.append(b2);
    str_eq(a, b.as_str())
}

impl Type {
    /// Resolves a type name obtained from the lexer/parser to a type.
    pub fn resolve_builtin(type_str: &str) -> (r: Type)
        ensures
            r@ == resolve_builtin(type_str@),
    {
        if str_eq(type_str, "u8") {
            return Type::u8;
        }
        if str_eq(type_str, "u16") {
            return Type::u16;
        }
        if str_eq(type_str, "u32") {
            return Type::u32;
        }
        if str_eq(type_str, "u64") {
            return Type::u64;
        }
        if str_eq(type_str, "u128") {
            return Type::u128;
        }
        if str_eq(type_str, "i8") {
            return Type::i8;
        }
        if str_eq(type_str, "i16") {
            return Type::i16;
        }
        if str_eq(type_str, "i32") {
            return Type::i32;
        }
        if str_eq(type_str, "i64") {
            return Type::i64;
        }
        if str_eq(type_str, "i128") {
            return Type::i128;
        }
        if str_eq(type_str, "usize") {
            return Type::usize;
        }
        if str_eq(type_str, "isize") {
            return Type::isize;
        }
        if str_eq_parts(type_str, "f", "32") {
            return Type::F32;
        }
        if str_eq_parts(type_str, "f", "64") {
            return Type::F64;
        }
        if str_eq(type_str, "bool") {
            return Type::bool;
        }
        Type::User(copy_str(type_str))
    }

    /// A copy of the type.
    #[verifier::loop_isolation(false)]
    pub fn duplicate(&self) -> (r: Type)
        ensures
            r@ == self@,
        decreases self,
    {
        match self {
            Type::Reference { ty, mutable } => {
                let inner = (**ty).duplicate();
                let r = Type::Reference { ty: Box::new(inner), mutable: *mutable };
                assert(self@ == TypeV::Reference { ty: Box::new((**ty)@), mutable: *mutable });
                assert(r@ == TypeV::Reference { ty: Box::new(inner@), mutable: *mutable });
                assert(r@ == self@);
                r
            },
            Type::u8 => Type::u8,
            Type::u16 => Type::u16,
            Type::u32 => Type::u32,
            Type::u64 => Type::u64,
            Type::u128 => Type::u128,
            Type::i8 => Type::i8,
            Type::i16 => Type::i16,
            Type::i32 => Type::i32,
            Type::i64 => Type::i64,
            Type::i128 => Type::i128,
            Type::usize => Type::usize,
            Type::isize => Type::isize,
            Type::F32 => Type::F32,
            Type::F64 => Type::F64,
            Type::bool => Type::bool,
            Type::Unit => Type::Unit,
            Type::Tuple(ts) => {
                let mut r: Vec<Type> = Vec::new();
                let mut i: usize = 0;
                while i < ts.len()
                    invariant
                        i <= ts@.len(),
                        r@.len() == i,
                        forall|j: int| 0 <= j < i ==> #[trigger] r@[j]@ == ts@[j]@,
                    decreases ts@.len() - i,
                {
                    proof {
                        assert(decreases_to!(*ts => ts[i as int]));
                    }
                    r.push(ts[i].duplicate());
                    i += 1;
                }
                let ghost rv = r@;
                let out = Type::Tuple(r);
                assert(out@->Tuple_0.len() == self@->Tuple_0.len());
                assert forall|k: int| 0 <= k < ts@.len() implies out@->Tuple_0[k] == self@->Tuple_0[k] by {
                    assert(rv[k]@ == ts@[k]@);
                }
                assert(out@->Tuple_0 =~= self@->Tuple_0);
                out
            },
            Type::User(s) => Type::User(s.clone()),
            Type::Unknown => Type::Unknown,
        }
    }

    /// Whether two types are the same type.
    #[verifier::loop_isolation(false)]
    pub fn same_as(&self, other: &Type) -> (r: bool)
        ensures
            r == (self@ == other@),
        decreases self,
    {
        match (self, other) {
            (Type::Reference { ty: a, mutable: ma }, Type::Reference { ty: b, mutable: mb }) => {
                *ma == *mb && (**a).same_as(&**b)
            },
            (Type::u8, Type::u8) => true,
            (Type::u16, Type::u16) => true,
            (Type::u32, Type::u32) => true,
            (Type::u64, Type::u64) => true,
            (Type::u128, Type::u128) => true,
            (Type::i8, Type::i8) => true,
            (Type::i16, Type::i16) => true,
            (Type::i32, Type::i32) => true,
            (Type::i64, Type::i64) => true,
            (Type::i128, Type::i128) => true,
            (Type::usize, Type::usize) => true,
            (Type::isize, Type::isize) => true,
            (Type::F32, Type::F32) => true,
            (Type::F64, Type::F64) => true,
            (Type::bool, Type::bool) => true,
            (Type::Unit, Type::Unit) => true,
            (Type::Tuple(a), Type::Tuple(b)) => {
                let ghost va = self@->Tuple_0;
                let ghost vb = other@->Tuple_0;
                if a.len() != b.len() {
                    assert(va.len() != vb.len());
                    return false;
                }
                let mut i: usize = 0;
                while i < a.len()
                    invariant
                        a@.len() == b@.len(),
                        i <= a@.len(),
                        forall|j: int| 0 <= j < i ==> a@[j]@ == b@[j]@,
                    decreases a@.len() - i,
                {
                    proof {
                        assert(decreases_to!(*a => a[i as int]));
                    }
                    if !a[i].same_as(&b[i]) {
                        assert(va[i as int] != vb[i as int]);
                        return false;
                    }
                    i += 1;
                }
                assert(va =~= vb);
                true
            },
            (Type::User(a), Type::User(b)) => *a == *b,
            (Type::Unknown, Type::Unknown) => true,
            _ => false,
        }
    }

    pub fn is_unknown(&self) -> (r: bool)
        ensures
            r == (self@ is Unknown),
    {
        if let Type::Unknown = self { true } else { false }
    }

    pub fn is_unit(&self) -> (r: bool)
        ensures
            r == (self@ is Unit),
    {
        if let Type::Unit = self { true } else { false }
    }

    /// Whether the type is built in (no explicit stack allocation is needed
    /// for it).
    pub fn is_builtin(&self) -> (r: bool)
        ensures
            r == !(self@ is User || self@ is Tuple),
    {
        match self {
            Type::User(_) | Type::Tuple(_) => false,
            _ => true,
        }
    }

    pub fn is_signed_integer(&self) -> (r: bool)
        ensures
            r == is_signed_integer(self@),
    {
        match self {
            Type::i8 | Type::i16 | Type::i32 | Type::i64 | Type::i128 | Type::isize => true,
            _ => false,
        }
    }

    pub fn is_integer(&self) -> (r: bool)
        ensures
            r == is_integer(self@),
    {
        match self {
            Type::u8 | Type::u16 | Type::u32 | Type::u64 | Type::u128 | Type::i8 | Type::i16
            | Type::i32 | Type::i64 | Type::i128 | Type::usize | Type::isize => true,
            _ => false,
        }
    }

    pub fn is_float(&self) -> (r: bool)
        ensures
            r == is_float(self@),
    {
        match self {
            Type::F32 | Type::F64 => true,
            _ => false,
        }
    }

    pub fn is_numeric(&self) -> (r: bool)
        ensures
            r == is_numeric(self@),
    {
        match self {
            Type::u8 | Type::u16 | Type::u32 | Type::u64 | Type::u128 | Type::i8 | Type::i16
            | Type::i32 | Type::i64 | Type::i128 | Type::usize | Type::isize | Type::F32
            | Type::F64 => true,
            _ => false,
        }
    }

    pub fn is_reference(&self) -> (r: bool)
        ensures
            r == (self@ is Reference),
    {
        if let Type::Reference { .. } = self { true } else { false }
    }

    /// Whether the type is `&mut T` (assigning through it needs no mutable
    /// variable).
    pub fn is_mutable_reference(&self) -> (r: bool)
        ensures
            r == (self@ matches TypeV::Reference { mutable: true, .. }),
    {
        if let Type::Reference { mutable: true, .. } = self { true } else { false }
    }

    /// The machine type of a value of this type; `pointer_type` is the
    /// machine type of addresses.
    pub fn ir_type(&self, pointer_type: IrType) -> (r: IrType)
        ensures
            r == ir_type(self@, pointer_type),
    {
        match self {
            Type::usize | Type::isize | Type::Reference { .. } => pointer_type,
            Type::u8 => IrType::I8,
            Type::u16 => IrType::I16,
            Type::u32 => IrType::I32,
            Type::u64 => IrType::I64,
            Type::u128 => IrType::I128,
            Type::i8 => IrType::I8,
            Type::i16 => IrType::I16,
            Type::i32 => IrType::I32,
            Type::i64 => IrType::I64,
            Type::i128 => IrType::I128,
            Type::F32 => IrType::F32,
            Type::F64 => IrType::F64,
            Type::bool => IrType::B8,
            _ => IrType::Invalid,
        }
    }

    /// What `Display` shows of the type.
    #[verifier::loop_isolation(false)]
    pub fn to_display_string(&self) -> (r: String)
        ensures
            r@ == type_display(self@),
        decreases self,
    {
        match self {
            Type::Reference { ty, mutable } => {
                let mut r = copy_str("&");
                if *mutable {
                    r.append("mut ");
                } else {
                    r.append("");
                }
                let inner = (**ty).to_display_string();
                r.append(inner.as_str());
                r
            },
            Type::u8 => copy_str("u8"),
            Type::u16 => copy_str("u16"),
            Type::u32 => copy_str("u32"),
            Type::u64 => copy_str("u64"),
            Type::u128 => copy_str("u128"),
            Type::i8 => copy_str("i8"),
            Type::i16 => copy_str("i16"),
            Type::i32 => copy_str("i32"),
            Type::i64 => copy_str("i64"),
            Type::i128 => copy_str("i128"),
            Type::usize => copy_str("usize"),
            Type::isize => copy_str("isize"),
            Type::F32 => {
                let mut r = copy_str("f");
                r.append("32");
                r
            },
            Type::F64 => {
                let mut r = copy_str("f");
                r.append("64");
                r
            },
            Type::bool => copy_str("bool"),
            Type::Unit => copy_str("()"),
            Type::Tuple(ts) => {
                let ghost vs = self@->Tuple_0;
                let mut r = copy_str("(");
                let mut i: usize = 0;
                while i < ts.len()
                    invariant
                        i <= ts@.len(),
                        vs == self@->Tuple_0,
                        vs.len() == ts@.len(),
                        forall|j: int| 0 <= j < ts@.len() ==> vs[j] == #[trigger] ts@[j]@,
                        r@ == "("@ + tuple_items(vs.take(i as int)),
                    decreases ts@.len() - i,
                {
                    proof {
                        assert(decreases_to!(*ts => ts[i as int]));
                    }
                    let shown = ts[i].to_display_string();
                    r.append(shown.as_str());
                    r.append(", ");
                    i += 1;
                    assert(vs.take(i as int).drop_last() =~= vs.take(i - 1));
                }
                assert(vs.take(i as int) =~= vs);
                let n = r.as_str().unicode_len();
                let keep = if n >= 2 { n - 2 } else { 0 };
                let mut out = copy_str(r.as_str().substring_char(0, keep));
                out.append(")");
                out
            },
            Type::User(s) => s.clone(),
            Type::Unknown => copy_str("!Unknown!"),
        }
    }
}

impl Clone for Type {
    fn clone(&self) -> (r: Type)
        ensures
            r@ == self@,
    {
        self.duplicate()
    }
}

} // verus!
