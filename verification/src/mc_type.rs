//! Value types and dimensional types of measurement and calibration objects.
//!
//! A value type is one of the closed set `Bool`, the unsigned and signed
//! integers of 8 to 64 bits, the two IEEE floats, a binary blob or a
//! reference to a typedef. A dimensional type adds optional x and y
//! dimensions, making a scalar, a 1-D array or a 2-D matrix.

use vstd::prelude::*;

use crate::ident::str_eq;
use crate::ident::McIdentifier;
use crate::ident::McText;

verus! {

/// Basic value type of a measurement or calibration object.
#[derive(Debug, PartialEq)]
pub enum McValueType {
    Unknown,
    Bool,
    Ubyte,
    Uword,
    Ulong,
    Ulonglong,
    Sbyte,
    Sword,
    Slong,
    Slonglong,
    Float32Ieee,
    Float64Ieee,
    /// Binary block; the text is the IDL describing its layout.
    Blob(McText),
    /// Reference by name to a type definition in the typedef list.
    TypeDef(McIdentifier),
}

impl Clone for McValueType {
    fn clone(&self) -> (r: Self)
        ensures
            r == *self,
    {
        match self {
            McValueType::Unknown => McValueType::Unknown,
            McValueType::Bool => McValueType::Bool,
            McValueType::Ubyte => McValueType::Ubyte,
            McValueType::Uword => McValueType::Uword,
            McValueType::Ulong => McValueType::Ulong,
            McValueType::Ulonglong => McValueType::Ulonglong,
            McValueType::Sbyte => McValueType::Sbyte,
            McValueType::Sword => McValueType::Sword,
            McValueType::Slong => McValueType::Slong,
            McValueType::Slonglong => McValueType::Slonglong,
            McValueType::Float32Ieee => McValueType::Float32Ieee,
            McValueType::Float64Ieee => McValueType::Float64Ieee,
            McValueType::Blob(t) => McValueType::Blob(t.clone()),
            McValueType::TypeDef(n) => McValueType::TypeDef(n.clone()),
        }
    }
}

impl Clone for McDimType {
    fn clone(&self) -> (r: Self)
        ensures
            r == *self,
    {
        McDimType { value_type: self.value_type.clone(), x_dim: self.x_dim, y_dim: self.y_dim }
    }
}

impl McValueType {
    /// A typedef reference by name.
    pub fn new_typedef(name: &str) -> (r: Self)
        ensures
            r is TypeDef && r->TypeDef_0@ == name@,
    {
        McValueType::TypeDef(McIdentifier::new(name))
    }

    /// A blob with its IDL text.
    pub fn new_blob(text: &str) -> (r: Self)
        ensures
            r is Blob && r->Blob_0@ == text@,
    {
        McValueType::Blob(McText::new(text))
    }

    /// True for the scalar types whose memory size is known.
    pub open spec fn is_scalar_type(&self) -> bool {
        !(self is Unknown || self is Blob || self is TypeDef)
    }

    /// Memory size in bytes of a scalar value type.
    pub open spec fn spec_size(&self) -> int {
        match self {
            McValueType::Ubyte | McValueType::Sbyte | McValueType::Bool => 1,
            McValueType::Uword | McValueType::Sword => 2,
            McValueType::Ulong | McValueType::Slong | McValueType::Float32Ieee => 4,
            _ => 8,
        }
    }

    /// Memory size in bytes.
    ///
    /// Blob and typedef references have no intrinsic size, and the size of
    /// an unknown type is undefined, so those are excluded by contract.
    pub fn get_size(&self) -> (r: usize)
        requires
            self.is_scalar_type(),
        ensures
            r == self.spec_size(),
    {
        match self {
            McValueType::Ubyte | McValueType::Sbyte | McValueType::Bool => 1,
            McValueType::Uword | McValueType::Sword => 2,
            McValueType::Ulong | McValueType::Slong | McValueType::Float32Ieee => 4,
            _ => 8,
        }
    }

    /// True exactly for the `Unknown` variant.
    pub fn is_unknown(&self) -> (r: bool)
        ensures
            r == (*self is Unknown),
    {
        matches!(self, McValueType::Unknown)
    }

    /// The value type of a Rust scalar type name; `Unknown` otherwise.
    fn from_rust_basic_type(s: &str) -> (r: McValueType)
        ensures
            r == spec_basic_of(s@),
    {
        if str_eq(s, "bool") {
            McValueType::Bool
        } else if str_eq(s, "u8") {
            McValueType::Ubyte
        } else if str_eq(s, "i8") {
            McValueType::Sbyte
        } else if str_eq(s, "u16") {
            McValueType::Uword
        } else if str_eq(s, "i16") {
            McValueType::Sword
        } else if str_eq(s, "u32") {
            McValueType::Ulong
        } else if str_eq(s, "i32") {
            McValueType::Slong
        } else if str_eq(s, "u64") || str_eq(s, "usize") {
            McValueType::Ulonglong
        } else if str_eq(s, "i64") || str_eq(s, "isize") {
            McValueType::Slonglong
        } else if str_eq(s, "f32") {
            McValueType::Float32Ieee
        } else if str_eq(s, "f64") {
            McValueType::Float64Ieee
        } else {
            McValueType::Unknown
        }
    }

    /// The value type of a Rust type name: a scalar type name maps
    /// directly, an array or matrix type name maps to its base type, and
    /// any other name becomes a typedef reference to that name.
    pub fn from_rust_type(s: &str) -> (r: McValueType)
        ensures
            !(spec_basic_of(s@) is Unknown) ==> r == spec_basic_of(s@),
            spec_basic_of(s@) is Unknown ==> {
                let base = spec_array_base(s@);
                if spec_basic_of(base) is Unknown {
                    r is TypeDef && r->TypeDef_0@ == base
                } else {
                    r == spec_basic_of(base)
                }
            },
    {
        let t = McValueType::from_rust_basic_type(s);
        if !t.is_unknown() {
            return t;
        }
        let n = s.unicode_len();
        // strip leading brackets
        let mut a: usize = 0;
        while a < n && s.get_char(a) == '['
            invariant
                a <= n,
                n == s@.len(),
                scan_while(s@, 0, n as int, '[') == scan_while(s@, a as int, n as int, '['),
            decreases n - a,
        {
            a += 1;
        }
        proof {
            assert(scan_while(s@, 0, n as int, '[') == a);
        }
        // strip trailing brackets
        let mut b: usize = n;
        while b > a && s.get_char(b - 1) == ']'
            invariant
                a <= b <= n,
                n == s@.len(),
                scan_back_while(s@, a as int, n as int, ']') == scan_back_while(
                    s@,
                    a as int,
                    b as int,
                    ']',
                ),
            decreases b,
        {
            b -= 1;
        }
        proof {
            assert(scan_back_while(s@, a as int, n as int, ']') == b);
        }
        // the part before the first separator
        let mut semi: usize = a;
        while semi < b && s.get_char(semi) != ';'
            invariant
                a <= semi <= b <= n,
                n == s@.len(),
                scan_until(s@, a as int, b as int, ';') == scan_until(
                    s@,
                    semi as int,
                    b as int,
                    ';',
                ),
            decreases b - semi,
        {
            semi += 1;
        }
        proof {
            assert(scan_until(s@, a as int, b as int, ';') == semi);
        }
        // trim spaces
        let mut c: usize = a;
        while c < semi && s.get_char(c) == ' '
            invariant
                a <= c <= semi <= n,
                n == s@.len(),
                scan_while(s@, a as int, semi as int, ' ') == scan_while(
                    s@,
                    c as int,
                    semi as int,
                    ' ',
                ),
            decreases semi - c,
        {
            c += 1;
        }
        proof {
            assert(scan_while(s@, a as int, semi as int, ' ') == c);
        }
        let mut d: usize = semi;
        while d > c && s.get_char(d - 1) == ' '
            invariant
                c <= d <= semi <= n,
                n == s@.len(),
                scan_back_while(s@, c as int, semi as int, ' ') == scan_back_while(
                    s@,
                    c as int,
                    d as int,
                    ' ',
                ),
            decreases d,
        {
            d -= 1;
        }
        proof {
            assert(scan_back_while(s@, c as int, semi as int, ' ') == d);
        }
        // strip inner brackets
        let mut c2: usize = c;
        while c2 < d && s.get_char(c2) == '['
            invariant
                c <= c2 <= d <= n,
                n == s@.len(),
                scan_while(s@, c as int, d as int, '[') == scan_while(s@, c2 as int, d as int, '['),
            decreases d - c2,
        {
            c2 += 1;
        }
        proof {
            assert(scan_while(s@, c as int, d as int, '[') == c2);
        }
        let mut d2: usize = d;
        while d2 > c2 && s.get_char(d2 - 1) == ']'
            invariant
                c2 <= d2 <= d <= n,
                n == s@.len(),
                scan_back_while(s@, c2 as int, d as int, ']') == scan_back_while(
                    s@,
                    c2 as int,
                    d2 as int,
                    ']',
                ),
            decreases d2,
        {
            d2 -= 1;
        }
        proof {
            assert(scan_back_while(s@, c2 as int, d as int, ']') == d2);
            assert(s@.subrange(c2 as int, d2 as int) == spec_array_base(s@));
        }
        let base = s.substring_char(c2, d2);
        let t2 = McValueType::from_rust_basic_type(base);
        if t2.is_unknown() {
            McValueType::new_typedef(base)
        } else {
            t2
        }
    }
}

/// The value type a Rust scalar type name maps to; `Unknown` for
/// anything that is not a scalar type name.
pub open spec fn spec_basic_of(s: Seq<char>) -> McValueType {
    if s == "bool"@ {
        McValueType::Bool
    } else if s == "u8"@ {
        McValueType::Ubyte
    } else if s == "i8"@ {
        McValueType::Sbyte
    } else if s == "u16"@ {
        McValueType::Uword
    } else if s == "i16"@ {
        McValueType::Sword
    } else if s == "u32"@ {
        McValueType::Ulong
    } else if s == "i32"@ {
        McValueType::Slong
    } else if s == "u64"@ || s == "usize"@ {
        McValueType::Ulonglong
    } else if s == "i64"@ || s == "isize"@ {
        McValueType::Slonglong
    } else if s == "f32"@ {
        McValueType::Float32Ieee
    } else if s == "f64"@ {
        McValueType::Float64Ieee
    } else {
        McValueType::Unknown
    }
}

/// First position at or after `from` (below `to`) whose character is not
/// `c`; `to` when all are `c`.
pub open spec fn scan_while(s: Seq<char>, from: int, to: int, c: char) -> int
    decreases to - from,
{
    if from < to && from < s.len() && s[from] == c {
        scan_while(s, from + 1, to, c)
    } else {
        from
    }
}

/// Position after the last trailing run of `c` within `lo .. hi`: the
/// smallest cut point so that everything from it up to `hi` is `c`.
pub open spec fn scan_back_while(s: Seq<char>, lo: int, hi: int, c: char) -> int
    decreases hi - lo,
{
    if hi > lo && 0 <= hi - 1 < s.len() && s[hi - 1] == c {
        scan_back_while(s, lo, hi - 1, c)
    } else {
        hi
    }
}

/// First position of `c` at or after `from` (below `to`); `to` when `c`
/// does not occur.
pub open spec fn scan_until(s: Seq<char>, from: int, to: int, c: char) -> int
    decreases to - from,
{
    if from < to && from < s.len() && s[from] != c {
        scan_until(s, from + 1, to, c)
    } else {
        from
    }
}

/// Base type name inside a Rust array type name: leading `[` and
/// trailing `]` stripped, the part before the first `;` taken, spaces
/// trimmed and inner brackets stripped.
pub open spec fn spec_array_base(s: Seq<char>) -> Seq<char> {
    let a0 = scan_while(s, 0, s.len() as int, '[');
    let b0 = scan_back_while(s, a0, s.len() as int, ']');
    let semi = scan_until(s, a0, b0, ';');
    let c0 = scan_while(s, a0, semi, ' ');
    let d0 = scan_back_while(s, c0, semi, ' ');
    let c1 = scan_while(s, c0, d0, '[');
    let d1 = scan_back_while(s, c1, d0, ']');
    s.subrange(c1, d1)
}

} // verus!

verus! {

/// Dimensional type: a value type with optional x and y dimensions.
///
/// `x_dim`/`y_dim` of `None` stand for a dimension of 1; a stored dimension
/// is always at least 2, which `new` normalizes.
#[derive(Debug, PartialEq)]
pub struct McDimType {
    pub value_type: McValueType,
    pub x_dim: Option<u16>,
    pub y_dim: Option<u16>,
}

impl McDimType {
    /// Build a dimensional type; dimensions of 0 or 1 are dropped.
    pub fn new(value_type: McValueType, x_dim: u16, y_dim: u16) -> (r: Self)
        ensures
            r.value_type == value_type,
            r.x_dim == (if x_dim <= 1 { Option::<u16>::None } else { Option::Some(x_dim) }),
            r.y_dim == (if y_dim <= 1 { Option::<u16>::None } else { Option::Some(y_dim) }),
    {
        McDimType {
            value_type,
            x_dim: if x_dim <= 1 { None } else { Some(x_dim) },
            y_dim: if y_dim <= 1 { None } else { Some(y_dim) },
        }
    }

    /// Effective x dimension (1 when absent).
    pub open spec fn spec_x(&self) -> int {
        match self.x_dim {
            Option::Some(x) => x as int,
            Option::None => 1,
        }
    }

    /// Effective y dimension (1 when absent).
    pub open spec fn spec_y(&self) -> int {
        match self.y_dim {
            Option::Some(y) => y as int,
            Option::None => 1,
        }
    }

    /// Neither a blob nor a typedef reference.
    pub fn is_basic_type(&self) -> (r: bool)
        ensures
            r == !(self.value_type is Blob || self.value_type is TypeDef),
    {
        !matches!(self.value_type, McValueType::Blob(_) | McValueType::TypeDef(_))
    }

    /// The value type is a blob.
    pub fn is_blob(&self) -> (r: bool)
        ensures
            r == (self.value_type is Blob),
    {
        matches!(self.value_type, McValueType::Blob(_))
    }

    /// The value type is a typedef reference.
    pub fn is_typedef(&self) -> (r: bool)
        ensures
            r == (self.value_type is TypeDef),
    {
        matches!(self.value_type, McValueType::TypeDef(_))
    }

    /// A scalar: both dimensions at 1.
    pub fn is_scalar(&self) -> (r: bool)
        ensures
            r == (self.spec_x() <= 1 && self.spec_y() <= 1),
    {
        let x: u16 = match self.x_dim {
            Some(x) => x,
            None => 1,
        };
        let y: u16 = match self.y_dim {
            Some(y) => y,
            None => 1,
        };
        x <= 1 && y <= 1
    }

    /// A 1-D array: x dimension above 1, y dimension at 1.
    pub fn is_array(&self) -> (r: bool)
        ensures
            r == (self.spec_x() > 1 && self.spec_y() <= 1),
    {
        let x: u16 = match self.x_dim {
            Some(x) => x,
            None => 1,
        };
        let y: u16 = match self.y_dim {
            Some(y) => y,
            None => 1,
        };
        x > 1 && y <= 1
    }

    /// A 2-D matrix: both dimensions above 1.
    pub fn is_matrix(&self) -> (r: bool)
        ensures
            r == (self.spec_x() > 1 && self.spec_y() > 1),
    {
        let x: u16 = match self.x_dim {
            Some(x) => x,
            None => 1,
        };
        let y: u16 = match self.y_dim {
            Some(y) => y,
            None => 1,
        };
        x > 1 && y > 1
    }

    /// The two dimensions, absent dimensions reported as 1.
    pub fn get_dim(&self) -> (r: [u16; 2])
        ensures
            r[0] == self.spec_x(),
            r[1] == self.spec_y(),
    {
        let x: u16 = match self.x_dim {
            Some(x) => x,
            None => 1,
        };
        let y: u16 = match self.y_dim {
            Some(y) => y,
            None => 1,
        };
        [x, y]
    }

    /// Total byte size: value size times both dimensions.
    pub open spec fn spec_byte_size(&self) -> int {
        self.value_type.spec_size() * self.spec_x() * self.spec_y()
    }

    /// Memory size in bytes of the whole object.
    pub fn get_size(&self) -> (r: usize)
        requires
            self.value_type.is_scalar_type(),
            self.spec_byte_size() <= usize::MAX,
        ensures
            r == self.spec_byte_size(),
    {
        let v: usize = self.value_type.get_size();
        let d = self.get_dim();
        let x: usize = d[0] as usize;
        let y: usize = d[1] as usize;
        proof {
            assert(v * x * y == self.spec_byte_size()) by (nonlinear_arith)
                requires
                    v == self.value_type.spec_size(),
                    x == self.spec_x(),
                    y == self.spec_y(),
            ;
            assert(v * x >= 0 && v * x * y >= v * x * 0) by (nonlinear_arith)
                requires
                    v >= 0 && x >= 0 && y >= 0,
            ;
        }
        v * x * y
    }
}

} // verus!

verus! {

/// Maps a Rust scalar type to its `McValueType`, for use at registration
/// sites that know the static type of a variable.
pub trait McValueTypeTrait {
    /// The value type this Rust type registers as.
    spec fn spec_type(&self) -> McValueType;

    /// Value type of this variable.
    fn get_type(&self) -> (r: McValueType)
        ensures
            r == self.spec_type(),
    ;
}

impl McValueTypeTrait for bool {
    open spec fn spec_type(&self) -> McValueType {
        McValueType::Bool
    }

    fn get_type(&self) -> McValueType {
        McValueType::Bool
    }
}

impl McValueTypeTrait for i8 {
    open spec fn spec_type(&self) -> McValueType {
        McValueType::Sbyte
    }

    fn get_type(&self) -> McValueType {
        McValueType::Sbyte
    }
}

impl McValueTypeTrait for i16 {
    open spec fn spec_type(&self) -> McValueType {
        McValueType::Sword
    }

    fn get_type(&self) -> McValueType {
        McValueType::Sword
    }
}

impl McValueTypeTrait for i32 {
    open spec fn spec_type(&self) -> McValueType {
        McValueType::Slong
    }

    fn get_type(&self) -> McValueType {
        McValueType::Slong
    }
}

impl McValueTypeTrait for i64 {
    open spec fn spec_type(&self) -> McValueType {
        McValueType::Slonglong
    }

    fn get_type(&self) -> McValueType {
        McValueType::Slonglong
    }
}

impl McValueTypeTrait for isize {
    open spec fn spec_type(&self) -> McValueType {
        McValueType::Slonglong
    }

    fn get_type(&self) -> McValueType {
        McValueType::Slonglong
    }
}

impl McValueTypeTrait for u8 {
    open spec fn spec_type(&self) -> McValueType {
        McValueType::Ubyte
    }

    fn get_type(&self) -> McValueType {
        McValueType::Ubyte
    }
}

impl McValueTypeTrait for u16 {
    open spec fn spec_type(&self) -> McValueType {
        McValueType::Uword
    }

    fn get_type(&self) -> McValueType {
        McValueType::Uword
    }
}

impl McValueTypeTrait for u32 {
    open spec fn spec_type(&self) -> McValueType {
        McValueType::Ulong
    }

    fn get_type(&self) -> McValueType {
        McValueType::Ulong
    }
}

impl McValueTypeTrait for u64 {
    open spec fn spec_type(&self) -> McValueType {
        McValueType::Ulonglong
    }

    fn get_type(&self) -> McValueType {
        McValueType::Ulonglong
    }
}

impl McValueTypeTrait for usize {
    open spec fn spec_type(&self) -> McValueType {
        McValueType::Ulonglong
    }

    fn get_type(&self) -> McValueType {
        McValueType::Ulonglong
    }
}

} // verus!
