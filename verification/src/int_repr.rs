//! The declared integer representation of an enum: its textual name and the
//! engine domain it selects.

use vstd::prelude::*;

use crate::domain::IntegerDomain;
use vstd::string::StrSliceExecFns;

verus! {

/// One of the supported integer representations.
#[derive(Copy, Clone, Debug, PartialEq, Eq, Structural)]
pub enum IntRepr {
    U8,
    U16,
    U32,
    U64,
    U128,
    Usize,
    I8,
    I16,
    I32,
    I64,
    I128,
    Isize,
}

/// Character-for-character equality of two string slices.
fn str_eq(a: &str, b: &str) -> (r: bool)
    ensures
        r == (a@ == b@),
{
    let la = a.unicode_len();
    let lb = b.unicode_len();
    if la != lb {
        return false;
    }
    let mut i: usize = 0;
    while i < la
        invariant
            0 <= i <= la,
            la as nat == a@.len(),
            la as nat == b@.len(),
            forall|j: int| 0 <= j < i ==> a@[j] == b@[j],
        decreases la - i,
    {
        if a.get_char(i) != b.get_char(i) {
            return false;
        }
        i = i + 1;
    }
    proof {
        assert(a@ =~= b@);
    }
    true
}

impl IntRepr {
    /// The representation's textual name.
    pub open spec fn spec_name(&self) -> Seq<char> {
        match self {
            IntRepr::U8 => "u8"@,
            IntRepr::U16 => "u16"@,
            IntRepr::U32 => "u32"@,
            IntRepr::U64 => "u64"@,
            IntRepr::U128 => "u128"@,
            IntRepr::Usize => "usize"@,
            IntRepr::I8 => "i8"@,
            IntRepr::I16 => "i16"@,
            IntRepr::I32 => "i32"@,
            IntRepr::I64 => "i64"@,
            IntRepr::I128 => "i128"@,
            IntRepr::Isize => "isize"@,
        }
    }

    /// Which representation a name denotes, if any.
    pub open spec fn spec_from_str(s: Seq<char>) -> Result<IntRepr, ()> {
        if s == "u8"@ {
            Ok(IntRepr::U8)
        } else if s == "u16"@ {
            Ok(IntRepr::U16)
        } else if s == "u32"@ {
            Ok(IntRepr::U32)
        } else if s == "u64"@ {
            Ok(IntRepr::U64)
        } else if s == "u128"@ {
            Ok(IntRepr::U128)
        } else if s == "usize"@ {
            Ok(IntRepr::Usize)
        } else if s == "i8"@ {
            Ok(IntRepr::I8)
        } else if s == "i16"@ {
            Ok(IntRepr::I16)
        } else if s == "i32"@ {
            Ok(IntRepr::I32)
        } else if s == "i64"@ {
            Ok(IntRepr::I64)
        } else if s == "i128"@ {
            Ok(IntRepr::I128)
        } else if s == "isize"@ {
            Ok(IntRepr::Isize)
        } else {
            Err(())
        }
    }

    /// Parses the textual name of a representation: exactly the names of
    /// [`IntRepr::spec_name`] are accepted.
    pub fn from_str(s: &str) -> (r: Result<IntRepr, ()>)
        ensures
            r == Self::spec_from_str(s@),
    {
        if str_eq(s, "u8") {
            Ok(IntRepr::U8)
        } else if str_eq(s, "u16") {
            Ok(IntRepr::U16)
        } else if str_eq(s, "u32") {
            Ok(IntRepr::U32)
        } else if str_eq(s, "u64") {
            Ok(IntRepr::U64)
        } else if str_eq(s, "u128") {
            Ok(IntRepr::U128)
        } else if str_eq(s, "usize") {
            Ok(IntRepr::Usize)
        } else if str_eq(s, "i8") {
            Ok(IntRepr::I8)
        } else if str_eq(s, "i16") {
            Ok(IntRepr::I16)
        } else if str_eq(s, "i32") {
            Ok(IntRepr::I32)
        } else if str_eq(s, "i64") {
            Ok(IntRepr::I64)
        } else if str_eq(s, "i128") {
            Ok(IntRepr::I128)
        } else if str_eq(s, "isize") {
            Ok(IntRepr::Isize)
        } else {
            Err(())
        }
    }

    /// The representation's name, for diagnostics.
    pub fn as_str(&self) -> (r: &'static str)
        ensures
            r@ == self.spec_name(),
    {
        match self {
            IntRepr::U8 => "u8",
            IntRepr::U16 => "u16",
            IntRepr::U32 => "u32",
            IntRepr::U64 => "u64",
            IntRepr::U128 => "u128",
            IntRepr::Usize => "usize",
            IntRepr::I8 => "i8",
            IntRepr::I16 => "i16",
            IntRepr::I32 => "i32",
            IntRepr::I64 => "i64",
            IntRepr::I128 => "i128",
            IntRepr::Isize => "isize",
        }
    }

    /// The engine domain this representation selects; `pointer_bits` is the
    /// target's pointer width and resolves `usize` and `isize`.
    pub open spec fn spec_domain(&self, pointer_bits: u32) -> IntegerDomain {
        match self {
            IntRepr::U8 => IntegerDomain { bits: 8, signed: false },
            IntRepr::U16 => IntegerDomain { bits: 16, signed: false },
            IntRepr::U32 => IntegerDomain { bits: 32, signed: false },
            IntRepr::U64 => IntegerDomain { bits: 64, signed: false },
            IntRepr::U128 => IntegerDomain { bits: 128, signed: false },
            IntRepr::Usize => IntegerDomain { bits: pointer_bits, signed: false },
            IntRepr::I8 => IntegerDomain { bits: 8, signed: true },
            IntRepr::I16 => IntegerDomain { bits: 16, signed: true },
            IntRepr::I32 => IntegerDomain { bits: 32, signed: true },
            IntRepr::I64 => IntegerDomain { bits: 64, signed: true },
            IntRepr::I128 => IntegerDomain { bits: 128, signed: true },
            IntRepr::Isize => IntegerDomain { bits: pointer_bits, signed: true },
        }
    }

    /// Builds the engine domain of this representation, rejecting a
    /// `pointer_bits` that is not a supported width.
    pub fn to_domain(&self, pointer_bits: u32) -> (r: Option<IntegerDomain>)
        ensures
            match r {
                Some(d) => d == self.spec_domain(pointer_bits) && d.wf(),
                None => !self.spec_domain(pointer_bits).wf(),
            },
    {
        match self {
            IntRepr::U8 => IntegerDomain::new(8, false),
            IntRepr::U16 => IntegerDomain::new(16, false),
            IntRepr::U32 => IntegerDomain::new(32, false),
            IntRepr::U64 => IntegerDomain::new(64, false),
            IntRepr::U128 => IntegerDomain::new(128, false),
            IntRepr::Usize => IntegerDomain::new(pointer_bits, false),
            IntRepr::I8 => IntegerDomain::new(8, true),
            IntRepr::I16 => IntegerDomain::new(16, true),
            IntRepr::I32 => IntegerDomain::new(32, true),
            IntRepr::I64 => IntegerDomain::new(64, true),
            IntRepr::I128 => IntegerDomain::new(128, true),
            IntRepr::Isize => IntegerDomain::new(pointer_bits, true),
        }
    }
}

/// Law: parsing a representation's own name gives that representation back.
pub proof fn lemma_name_round_trip(r: IntRepr)
    ensures
        IntRepr::spec_from_str(r.spec_name()) == Ok::<IntRepr, ()>(r),
{
    reveal_strlit("u8");
    reveal_strlit("u16");
    reveal_strlit("u32");
    reveal_strlit("u64");
    reveal_strlit("u128");
    reveal_strlit("usize");
    reveal_strlit("i8");
    reveal_strlit("i16");
    reveal_strlit("i32");
    reveal_strlit("i64");
    reveal_strlit("i128");
    reveal_strlit("isize");
    assert("u8"@ =~= seq!['u', '8']);
    assert("u16"@ =~= seq!['u', '1', '6']);
    assert("u32"@ =~= seq!['u', '3', '2']);
    assert("u64"@ =~= seq!['u', '6', '4']);
    assert("u128"@ =~= seq!['u', '1', '2', '8']);
    assert("usize"@ =~= seq!['u', 's', 'i', 'z', 'e']);
    assert("i8"@ =~= seq!['i', '8']);
    assert("i16"@ =~= seq!['i', '1', '6']);
    assert("i32"@ =~= seq!['i', '3', '2']);
    assert("i64"@ =~= seq!['i', '6', '4']);
    assert("i128"@ =~= seq!['i', '1', '2', '8']);
    assert("isize"@ =~= seq!['i', 's', 'i', 'z', 'e']);
}

} // verus!
