//! The status-flag record and the x86 rules that update it.
use vstd::prelude::*;
use crate::text::append;

verus! {

/// Carry, zero, sign, overflow, parity, auxiliary-carry and direction flags.
#[derive(Debug, Clone, Copy, PartialEq, Eq, Structural)]
pub struct Eflags {
    pub cf: bool,
    pub zf: bool,
    pub sf: bool,
    pub of: bool,
    pub pf: bool,
    pub af: bool,
    pub df: bool,
}

/// All flags cleared.
pub open spec fn cleared_flags() -> Eflags {
    Eflags { cf: false, zf: false, sf: false, of: false, pf: false, af: false, df: false }
}

/// The high (sign) bit of a 32-bit value.
pub open spec fn sign_of(x: u32) -> bool {
    x >= 0x8000_0000
}

/// Number of set bits among the low `k` bits of `b`.
pub open spec fn ones_below(b: u8, k: nat) -> nat
    decreases k,
{
    if k == 0 {
        0
    } else {
        ones_below(b, (k - 1) as nat) + (if (b >> ((k - 1) as u8)) & 1 == 1 { 1nat } else { 0nat })
    }
}

/// The byte has an even number of set bits.
pub open spec fn even_parity(b: u8) -> bool {
    ones_below(b, 8) % 2 == 0
}

/// Unsigned carry (add) or borrow (subtract) of `a op b`.
pub open spec fn carry_of(a: u32, b: u32, is_sub: bool) -> bool {
    if is_sub { a < b } else { a + b > u32::MAX }
}

/// Signed overflow of `a op b` giving `result`.
pub open spec fn overflow_of(result: u32, a: u32, b: u32, is_sub: bool) -> bool {
    if is_sub {
        sign_of(a) != sign_of(b) && sign_of(result) != sign_of(a)
    } else {
        sign_of(a) == sign_of(b) && sign_of(result) != sign_of(a)
    }
}

/// Flags after an add or subtract of `a` and `b` that gave `result`.
pub open spec fn arithmetic_flags(f: Eflags, result: u32, a: u32, b: u32, is_sub: bool) -> Eflags {
    Eflags {
        zf: result == 0,
        sf: sign_of(result),
        pf: even_parity(result as u8),
        cf: carry_of(a, b, is_sub),
        of: overflow_of(result, a, b, is_sub),
        af: (a ^ b ^ result) & 0x10 != 0,
        df: f.df,
    }
}

/// Flags after a bitwise operation that gave `result`.
pub open spec fn logical_flags(f: Eflags, result: u32) -> Eflags {
    Eflags {
        zf: result == 0,
        sf: sign_of(result),
        pf: even_parity(result as u8),
        cf: false,
        of: false,
        af: false,
        df: f.df,
    }
}

/// Flags after an increment of `original` to `result`; carry is kept.
pub open spec fn inc_flags(f: Eflags, result: u32, original: u32) -> Eflags {
    Eflags {
        zf: result == 0,
        sf: sign_of(result),
        pf: even_parity(result as u8),
        of: original == 0x7FFF_FFFF,
        af: result & 0xF == 0,
        cf: f.cf,
        df: f.df,
    }
}

/// Flags after a decrement of `original` to `result`; carry is kept.
pub open spec fn dec_flags(f: Eflags, result: u32, original: u32) -> Eflags {
    Eflags {
        zf: result == 0,
        sf: sign_of(result),
        pf: even_parity(result as u8),
        of: original == 0x8000_0000,
        af: original & 0xF == 0,
        cf: f.cf,
        df: f.df,
    }
}

/// The architectural EFLAGS bit layout of the flags.
pub open spec fn flags_word(f: Eflags) -> u32 {
    (if f.cf { 1u32 } else { 0u32 }) | (if f.pf { 4u32 } else { 0u32 }) | (if f.af { 0x10u32 } else { 0u32 })
        | (if f.zf { 0x40u32 } else { 0u32 }) | (if f.sf { 0x80u32 } else { 0u32 })
        | (if f.df { 0x400u32 } else { 0u32 }) | (if f.of { 0x800u32 } else { 0u32 })
}

/// The names of the set flags, in the order CF ZF SF OF PF AF DF.
pub open spec fn set_flag_names(f: Eflags) -> Seq<Seq<char>> {
    (if f.cf { seq!["CF"@] } else { seq![] }) + (if f.zf { seq!["ZF"@] } else { seq![] })
        + (if f.sf { seq!["SF"@] } else { seq![] }) + (if f.of { seq!["OF"@] } else { seq![] })
        + (if f.pf { seq!["PF"@] } else { seq![] }) + (if f.af { seq!["AF"@] } else { seq![] })
        + (if f.df { seq!["DF"@] } else { seq![] })
}

/// `"[ "`, the names each followed by a space, then `"]"`; `"[ ]"` when none is set.
pub open spec fn joined_names(names: Seq<Seq<char>>) -> Seq<char>
    decreases names.len(),
{
    if names.len() == 0 {
        seq![]
    } else {
        joined_names(names.drop_last()) + names.last() + " "@
    }
}

pub fn compute_parity(byte: u8) -> (r: bool)
    ensures
        r == even_parity(byte),
{
    let mut count: u8 = 0;
    let mut i: u8 = 0;
    while i < 8
        invariant
            i <= 8,
            count as nat == ones_below(byte, i as nat),
            count <= i,
        decreases 8 - i,
    {
        if (byte >> i) & 1 == 1 {
            count += 1;
        }
        i += 1;
    }
    count % 2 == 0
}

impl Default for Eflags {
    fn default() -> (r: Self)
        ensures
            r == cleared_flags(),
    {
        Eflags { cf: false, zf: false, sf: false, of: false, pf: false, af: false, df: false }
    }
}

impl Eflags {
    pub fn new() -> (r: Self)
        ensures
            r == cleared_flags(),
    {
        Eflags { cf: false, zf: false, sf: false, of: false, pf: false, af: false, df: false }
    }

    pub fn update_arithmetic(&mut self, result: u32, operand1: u32, operand2: u32, is_sub: bool)
        ensures
            *final(self) == arithmetic_flags(*old(self), result, operand1, operand2, is_sub),
    {
        self.zf = result == 0;
        self.sf = result >= 0x8000_0000;
        self.pf = compute_parity((result & 0xff) as u8);
        proof {
            assert((result & 0xff) as u8 == result as u8) by (bit_vector);
        }
        self.cf = if is_sub { operand1 < operand2 } else { operand1 > u32::MAX - operand2 };
        let sign1 = operand1 >= 0x8000_0000;
        let sign2 = operand2 >= 0x8000_0000;
        let sign_result = result >= 0x8000_0000;
        if is_sub {
            self.of = sign1 != sign2 && sign_result != sign1;
        } else {
            self.of = sign1 == sign2 && sign_result != sign1;
        }
        self.af = (operand1 ^ operand2 ^ result) & 0x10 != 0;
    }

    pub fn update_logical(&mut self, result: u32)
        ensures
            *final(self) == logical_flags(*old(self), result),
    {
        self.zf = result == 0;
        self.sf = result >= 0x8000_0000;
        self.pf = compute_parity((result & 0xff) as u8);
        proof {
            assert((result & 0xff) as u8 == result as u8) by (bit_vector);
        }
        self.cf = false;
        self.of = false;
        self.af = false;
    }

    pub fn update_inc(&mut self, result: u32, original: u32)
        ensures
            *final(self) == inc_flags(*old(self), result, original),
    {
        self.zf = result == 0;
        self.sf = result >= 0x8000_0000;
        self.pf = compute_parity((result & 0xff) as u8);
        proof {
            assert((result & 0xff) as u8 == result as u8) by (bit_vector);
        }
        self.of = original == 0x7FFF_FFFF;
        self.af = result & 0xF == 0;
    }

    pub fn update_dec(&mut self, result: u32, original: u32)
        ensures
            *final(self) == dec_flags(*old(self), result, original),
    {
        self.zf = result == 0;
        self.sf = result >= 0x8000_0000;
        self.pf = compute_parity((result & 0xff) as u8);
        proof {
            assert((result & 0xff) as u8 == result as u8) by (bit_vector);
        }
        self.of = original == 0x8000_0000;
        self.af = original & 0xF == 0;
    }

    /// The set flags as text, e.g. `"[ CF ZF ]"`, or `"[ ]"` when none is set.
    #[verifier::rlimit(60)]
    pub fn display(&self) -> (r: String)
        ensures
            r@ == "[ "@ + joined_names(set_flag_names(*self)) + "]"@,
    {
        let mut s = "[ ".to_string();
        let ghost names: Seq<Seq<char>> = seq![];
        proof { assert(joined_names(names) =~= seq![]); assert(s@ =~= "[ "@ + joined_names(names)); }
        if self.cf { self.push_name(&mut s, "CF", Ghost(names)); proof { names = names.push("CF"@); } }
        if self.zf { self.push_name(&mut s, "ZF", Ghost(names)); proof { names = names.push("ZF"@); } }
        if self.sf { self.push_name(&mut s, "SF", Ghost(names)); proof { names = names.push("SF"@); } }
        if self.of { self.push_name(&mut s, "OF", Ghost(names)); proof { names = names.push("OF"@); } }
        if self.pf { self.push_name(&mut s, "PF", Ghost(names)); proof { names = names.push("PF"@); } }
        if self.af { self.push_name(&mut s, "AF", Ghost(names)); proof { names = names.push("AF"@); } }
        if self.df { self.push_name(&mut s, "DF", Ghost(names)); proof { names = names.push("DF"@); } }
        proof {
            assert(names =~= set_flag_names(*self));
        }
        append(&mut s, "]");
        s
    }

    fn push_name(&self, s: &mut String, name: &str, Ghost(names): Ghost<Seq<Seq<char>>>)
        requires
            old(s)@ == "[ "@ + joined_names(names),
        ensures
            final(s)@ == "[ "@ + joined_names(names.push(name@)),
    {
        append(s, name);
        append(s, " ");
        proof {
            assert(names.push(name@).drop_last() =~= names);
            assert(final(s)@ =~= "[ "@ + joined_names(names.push(name@)));
        }
    }

    /// The flags packed at their EFLAGS bit positions.
    pub fn as_u32(&self) -> (r: u32)
        ensures
            r == flags_word(*self),
    {
        (if self.cf { 1u32 } else { 0u32 }) | (if self.pf { 4u32 } else { 0u32 }) | (if self.af { 0x10u32 } else { 0u32 })
            | (if self.zf { 0x40u32 } else { 0u32 }) | (if self.sf { 0x80u32 } else { 0u32 })
            | (if self.df { 0x400u32 } else { 0u32 }) | (if self.of { 0x800u32 } else { 0u32 })
    }
}

/// Flag rules that hold for every operand: a subtraction with a zero result sets
/// ZF; a borrow sets CF; AND, OR and XOR clear CF and OF; INC and DEC keep CF, and
/// INC sets OF exactly when it leaves 0x7FFFFFFF.
pub proof fn law_flag_rules(f: Eflags, a: u32, b: u32, r: u32)
    ensures
        arithmetic_flags(f, 0, a, b, true).zf,
        a < b ==> arithmetic_flags(f, r, a, b, true).cf,
        !logical_flags(f, r).cf && !logical_flags(f, r).of,
        inc_flags(f, r, a).cf == f.cf && dec_flags(f, r, a).cf == f.cf,
        inc_flags(f, r, a).of <==> a == 0x7FFF_FFFF,
{
}

} // verus!
