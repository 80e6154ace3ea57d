//! Amounts of memory, their units, and their textual form.
use vstd::prelude::*;

use crate::text::{
    chars_of, decimal, digit_value, has_suffix, lemma_decimal_value, lemma_parse_decimal, parse_u64,
    parse_u64_spec, push_char, push_decimal, string_from_range,
};

verus! {

/// Number of bytes in a kibibyte.
pub const KIB: u64 = 1024;

/// Number of bytes in a mebibyte.
pub const MIB: u64 = 1048576;

/// Number of bytes in a gibibyte.
pub const GIB: u64 = 1073741824;

/// An amount of memory, counted in bytes.
#[derive(Clone, Copy, PartialEq, Eq, PartialOrd, Ord, Debug, Structural)]
pub struct Memory {
    bytes: u64,
}

impl View for Memory {
    type V = nat;

    closed spec fn view(&self) -> nat {
        self.bytes as nat
    }
}

/// Two amounts are equal exactly when they hold the same number of bytes.
pub proof fn lemma_memory_eq(a: Memory, b: Memory)
    ensures
        (a == b) <==> (a@ == b@),
        a@ <= u64::MAX,
{
}

impl Default for Memory {
    fn default() -> (m: Memory)
        ensures
            m@ == 0,
    {
        Memory { bytes: 0 }
    }
}

/// A binary unit of memory amounts.
#[derive(Clone, Copy, PartialEq, Eq, Debug, Structural)]
pub enum MemoryUnit {
    Byte,
    Kibi,
    Mebi,
    Gibi,
}

/// The number of bytes in one of `u`.
pub open spec fn unit_size(u: MemoryUnit) -> nat {
    match u {
        MemoryUnit::Byte => 1,
        MemoryUnit::Kibi => 1024,
        MemoryUnit::Mebi => 1048576,
        MemoryUnit::Gibi => 1073741824,
    }
}

/// The suffix that names `u` in text.
pub open spec fn unit_suffix(u: MemoryUnit) -> Seq<char> {
    match u {
        MemoryUnit::Byte => seq!['B'],
        MemoryUnit::Kibi => seq!['K', 'i', 'B'],
        MemoryUnit::Mebi => seq!['M', 'i', 'B'],
        MemoryUnit::Gibi => seq!['G', 'i', 'B'],
    }
}

impl MemoryUnit {
    /// The number of bytes in one of this unit.
    pub fn size(&self) -> (n: u64)
        ensures
            n == unit_size(*self),
    {
        match self {
            MemoryUnit::Byte => 1,
            MemoryUnit::Kibi => KIB,
            MemoryUnit::Mebi => MIB,
            MemoryUnit::Gibi => GIB,
        }
    }

    /// The suffix that names this unit in text (`B`, `KiB`, `MiB`, `GiB`).
    pub fn suffix(&self) -> (s: &'static str)
        ensures
            s@ == unit_suffix(*self),
    {
        match self {
            MemoryUnit::Byte => {
                proof {
                    reveal_strlit("B");
                }
                "B"
            },
            MemoryUnit::Kibi => {
                proof {
                    reveal_strlit("KiB");
                }
                "KiB"
            },
            MemoryUnit::Mebi => {
                proof {
                    reveal_strlit("MiB");
                }
                "MiB"
            },
            MemoryUnit::Gibi => {
                proof {
                    reveal_strlit("GiB");
                }
                "GiB"
            },
        }
    }
}

/// The largest unit of which `bytes` holds at least one; the unit in which
/// an amount is shown in its long form.
pub open spec fn display_unit_spec(bytes: nat) -> MemoryUnit {
    if bytes >= 1073741824 {
        MemoryUnit::Gibi
    } else if bytes >= 1048576 {
        MemoryUnit::Mebi
    } else if bytes >= 1024 {
        MemoryUnit::Kibi
    } else {
        MemoryUnit::Byte
    }
}

/// Why a memory amount could not be read from text.
#[derive(Debug, Clone, Copy, PartialEq, Eq, Structural)]
pub enum ParseMemoryError {
    Empty,
    InvalidUnit,
    InvalidLiteral,
}

impl ParseMemoryError {
    /// The message that describes this error.
    pub fn message(&self) -> (s: &'static str)
        ensures
            s@ == parse_error_message(*self),
    {
        match self {
            ParseMemoryError::Empty => {
                proof {
                    reveal_strlit("cannot parse memory from empty string");
                }
                "cannot parse memory from empty string"
            },
            ParseMemoryError::InvalidUnit => {
                proof {
                    reveal_strlit("invalid memory unit (use KiB, MiB, etc)");
                }
                "invalid memory unit (use KiB, MiB, etc)"
            },
            ParseMemoryError::InvalidLiteral => {
                proof {
                    reveal_strlit("invalid literal value");
                }
                "invalid literal value"
            },
        }
    }
}

/// The message of each parse error.
pub open spec fn parse_error_message(e: ParseMemoryError) -> Seq<char> {
    match e {
        ParseMemoryError::Empty => "cannot parse memory from empty string"@,
        ParseMemoryError::InvalidUnit => "invalid memory unit (use KiB, MiB, etc)"@,
        ParseMemoryError::InvalidLiteral => "invalid literal value"@,
    }
}

/// What the text of a memory amount stands for, once its unit is read.
pub enum MemoryLiteral {
    /// A whole number of bytes (`<n>B`).
    Bytes(Memory),
    /// A decimal literal in a binary unit (`<x>KiB`, `<x>MiB`, `<x>GiB`);
    /// reading the literal is a floating-point parse.
    Scaled { literal: String, unit: MemoryUnit },
}

/// The meaning of the text of a memory amount.
pub enum LiteralOutcome {
    Bytes(nat),
    Scaled(Seq<char>, MemoryUnit),
    Error(ParseMemoryError),
}

/// The outcome that an executable parse result stands for.
pub open spec fn literal_outcome(r: Result<MemoryLiteral, ParseMemoryError>) -> LiteralOutcome {
    match r {
        Ok(MemoryLiteral::Bytes(m)) => LiteralOutcome::Bytes(m@),
        Ok(MemoryLiteral::Scaled { literal, unit }) => LiteralOutcome::Scaled(literal@, unit),
        Err(e) => LiteralOutcome::Error(e),
    }
}

/// How `Memory::from_str` reads `s`: an empty text is `Empty`; a `GiB`,
/// `MiB` or `KiB` suffix leaves a literal to be read as a float; a `B`
/// suffix leaves a `u64`, and when that does not parse the error is
/// `InvalidLiteral` if the text before `B` ends in a digit from `0` to `8`,
/// `InvalidUnit` otherwise; any other text has an invalid unit.
pub open spec fn parse_literal_spec(s: Seq<char>) -> LiteralOutcome {
    if s.len() == 0 {
        LiteralOutcome::Error(ParseMemoryError::Empty)
    } else if has_suffix(s, seq!['G', 'i', 'B']) {
        LiteralOutcome::Scaled(s.subrange(0, s.len() - 3), MemoryUnit::Gibi)
    } else if has_suffix(s, seq!['M', 'i', 'B']) {
        LiteralOutcome::Scaled(s.subrange(0, s.len() - 3), MemoryUnit::Mebi)
    } else if has_suffix(s, seq!['K', 'i', 'B']) {
        LiteralOutcome::Scaled(s.subrange(0, s.len() - 3), MemoryUnit::Kibi)
    } else if s.last() == 'B' {
        let p = s.drop_last();
        match parse_u64_spec(p) {
            Some(b) => LiteralOutcome::Bytes(b as nat),
            None => if p.len() > 0 && digit_value(p.last()) is Some && p.last() != '9' {
                LiteralOutcome::Error(ParseMemoryError::InvalidLiteral)
            } else {
                LiteralOutcome::Error(ParseMemoryError::InvalidUnit)
            },
        }
    } else {
        LiteralOutcome::Error(ParseMemoryError::InvalidUnit)
    }
}

/// The short textual form of `bytes`: the decimal number followed by `B`.
pub open spec fn byte_text(bytes: nat) -> Seq<char> {
    decimal(bytes).push('B')
}

/// Whether `v` ends with `c`, `i`, `B`.
fn has_binary_suffix(v: &[char], c: char) -> (r: bool)
    ensures
        r == has_suffix(v@, seq![c, 'i', 'B']),
{
    let n = v.len();
    if n < 3 {
        return false;
    }
    let r = v[n - 3] == c && v[n - 2] == 'i' && v[n - 1] == 'B';
    assert(r == (v@.subrange(n - 3, n as int) =~= seq![c, 'i', 'B']));
    r
}

impl Memory {
    /// One byte.
    pub fn byte() -> (m: Memory)
        ensures
            m@ == 1,
    {
        Memory { bytes: 1 }
    }

    /// One kibibyte.
    pub fn kibibyte() -> (m: Memory)
        ensures
            m@ == KIB,
    {
        Memory { bytes: KIB }
    }

    /// One mebibyte.
    pub fn mebibyte() -> (m: Memory)
        ensures
            m@ == MIB,
    {
        Memory { bytes: MIB }
    }

    /// One gibibyte.
    pub fn gibibyte() -> (m: Memory)
        ensures
            m@ == GIB,
    {
        Memory { bytes: GIB }
    }

    pub fn from_bytes(bytes: u64) -> (m: Memory)
        ensures
            m@ == bytes,
    {
        Memory { bytes }
    }

    pub fn from_kibibytes(kibibytes: u64) -> (m: Memory)
        requires
            kibibytes * KIB <= u64::MAX,
        ensures
            m@ == kibibytes * KIB,
    {
        Memory { bytes: kibibytes * KIB }
    }

    pub fn from_mebibytes(mebibytes: u64) -> (m: Memory)
        requires
            mebibytes * MIB <= u64::MAX,
        ensures
            m@ == mebibytes * MIB,
    {
        Memory { bytes: mebibytes * MIB }
    }

    pub fn from_gibibytes(gibibytes: u64) -> (m: Memory)
        requires
            gibibytes * GIB <= u64::MAX,
        ensures
            m@ == gibibytes * GIB,
    {
        Memory { bytes: gibibytes * GIB }
    }

    pub fn bytes(self) -> (b: u64)
        ensures
            b == self@,
    {
        self.bytes
    }

    /// Whole kibibytes, rounded down.
    pub fn kibibytes(self) -> (k: u64)
        ensures
            k == self@ / (KIB as nat),
    {
        self.bytes / KIB
    }

    /// Whole mebibytes, rounded down.
    pub fn mebibytes(self) -> (k: u64)
        ensures
            k == self@ / (MIB as nat),
    {
        self.bytes / MIB
    }

    /// Whole gibibytes, rounded down.
    pub fn gibibytes(self) -> (k: u64)
        ensures
            k == self@ / (GIB as nat),
    {
        self.bytes / GIB
    }

    /// The sum of two amounts.
    pub fn add(self, rhs: Memory) -> (m: Memory)
        requires
            self@ + rhs@ <= u64::MAX,
        ensures
            m@ == self@ + rhs@,
    {
        Memory { bytes: self.bytes + rhs.bytes }
    }

    /// This amount taken `rhs` times.
    pub fn mul(self, rhs: u64) -> (m: Memory)
        requires
            self@ * rhs <= u64::MAX,
        ensures
            m@ == self@ * rhs,
    {
        Memory { bytes: self.bytes * rhs }
    }

    /// The unit in which the long form shows this amount: the largest of
    /// GiB, MiB, KiB of which it holds at least one, else bytes.
    pub fn display_unit(&self) -> (u: MemoryUnit)
        ensures
            u == display_unit_spec(self@),
    {
        if self.bytes >= GIB {
            MemoryUnit::Gibi
        } else if self.bytes >= MIB {
            MemoryUnit::Mebi
        } else if self.bytes >= KIB {
            MemoryUnit::Kibi
        } else {
            MemoryUnit::Byte
        }
    }

    /// The short textual form: the number of bytes in decimal followed by `B`.
    pub fn to_byte_string(&self) -> (s: String)
        ensures
            s@ == byte_text(self@),
    {
        let mut s = String::new();
        push_decimal(&mut s, self.bytes);
        push_char(&mut s, 'B');
        s
    }

    /// Reads the unit of a memory amount and, for whole bytes, its value.
    pub fn parse_literal(s: &str) -> (r: Result<MemoryLiteral, ParseMemoryError>)
        ensures
            literal_outcome(r) == parse_literal_spec(s@),
    {
        let v = chars_of(s);
        let n = v.len();
        if n == 0 {
            return Err(ParseMemoryError::Empty);
        }
        if has_binary_suffix(&v, 'G') {
            return Ok(
                MemoryLiteral::Scaled {
                    literal: string_from_range(&v, 0, n - 3),
                    unit: MemoryUnit::Gibi,
                },
            );
        }
        if has_binary_suffix(&v, 'M') {
            return Ok(
                MemoryLiteral::Scaled {
                    literal: string_from_range(&v, 0, n - 3),
                    unit: MemoryUnit::Mebi,
                },
            );
        }
        if has_binary_suffix(&v, 'K') {
            return Ok(
                MemoryLiteral::Scaled {
                    literal: string_from_range(&v, 0, n - 3),
                    unit: MemoryUnit::Kibi,
                },
            );
        }
        if v[n - 1] == 'B' {
            let p = slice_prefix(&v, n - 1);
            assert(p@ =~= s@.drop_last());
            match parse_u64(&p) {
                Some(b) => Ok(MemoryLiteral::Bytes(Memory { bytes: b })),
                None => {
                    if p.len() > 0 && (p[p.len() - 1] == '0' || p[p.len() - 1] == '1' || p[p.len()
                        - 1] == '2' || p[p.len() - 1] == '3' || p[p.len() - 1] == '4' || p[p.len()
                        - 1] == '5' || p[p.len() - 1] == '6' || p[p.len() - 1] == '7' || p[p.len()
                        - 1] == '8') {
                        Err(ParseMemoryError::InvalidLiteral)
                    } else {
                        Err(ParseMemoryError::InvalidUnit)
                    }
                },
            }
        } else {
            Err(ParseMemoryError::InvalidUnit)
        }
    }
}

/// The first `n` characters of `v`.
fn slice_prefix(v: &Vec<char>, n: usize) -> (p: Vec<char>)
    requires
        n <= v.len(),
    ensures
        p@ == v@.subrange(0, n as int),
{
    let mut p: Vec<char> = Vec::new();
    let mut i: usize = 0;
    while i < n
        invariant
            i <= n <= v.len(),
            p@ == v@.subrange(0, i as int),
        decreases n - i,
    {
        p.push(v[i]);
        i = i + 1;
    }
    p
}

/// The short textual form of an amount reads back as that same amount.
pub proof fn lemma_byte_text_roundtrip(bytes: u64)
    ensures
        parse_literal_spec(byte_text(bytes as nat)) == LiteralOutcome::Bytes(bytes as nat),
{
    let d = decimal(bytes as nat);
    let t = byte_text(bytes as nat);
    lemma_decimal_value(bytes as nat);
    lemma_parse_decimal(bytes);
    assert(t.drop_last() =~= d);
    assert(digit_value(d.last()) is Some);
    assert(t[t.len() - 2] == d.last());
    assert(!has_suffix(t, seq!['G', 'i', 'B'])) by {
        if has_suffix(t, seq!['G', 'i', 'B']) {
            assert(t.subrange(t.len() - 3, t.len() as int)[1] == 'i');
        }
    }
    assert(!has_suffix(t, seq!['M', 'i', 'B'])) by {
        if has_suffix(t, seq!['M', 'i', 'B']) {
            assert(t.subrange(t.len() - 3, t.len() as int)[1] == 'i');
        }
    }
    assert(!has_suffix(t, seq!['K', 'i', 'B'])) by {
        if has_suffix(t, seq!['K', 'i', 'B']) {
            assert(t.subrange(t.len() - 3, t.len() as int)[1] == 'i');
        }
    }
}

/// Scaling up to a unit and reading back in that unit gives the same count.
pub proof fn lemma_unit_roundtrip(n: nat)
    ensures
        (n * (KIB as nat)) / (KIB as nat) == n,
        (n * (MIB as nat)) / (MIB as nat) == n,
        (n * (GIB as nat)) / (GIB as nat) == n,
{
    assert((n * 1024) / 1024 == n) by (nonlinear_arith);
    assert((n * 1048576) / 1048576 == n) by (nonlinear_arith);
    assert((n * 1073741824) / 1073741824 == n) by (nonlinear_arith);
}

} // verus!
