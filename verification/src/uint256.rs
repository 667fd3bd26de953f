//! Unsigned 256-bit integers, held as four 64-bit limbs.
//!
//! Hashes and difficulty targets are values of this type. Its view is the
//! natural number the limbs stand for; every operation is specified over that
//! number.

use vstd::prelude::*;
use vstd::string::StringExecFns;

verus! {

/// 256^n.
pub open spec fn pow256(n: nat) -> nat
    decreases n,
{
    if n == 0 {
        1
    } else {
        256 * pow256((n - 1) as nat)
    }
}

/// The number that `bytes` spells when read most significant byte first.
pub open spec fn be_value(bytes: Seq<u8>) -> nat
    decreases bytes.len(),
{
    if bytes.len() == 0 {
        0
    } else {
        be_value(bytes.drop_last()) * 256 + bytes.last() as nat
    }
}

/// The number that `bytes` spells when read least significant byte first.
pub open spec fn le_value(bytes: Seq<u8>) -> nat
    decreases bytes.len(),
{
    if bytes.len() == 0 {
        0
    } else {
        bytes.first() as nat + 256 * le_value(bytes.drop_first())
    }
}

/// Byte `j` (0 is the least significant) of a 64-bit limb.
pub open spec fn limb_byte(limb: u64, j: int) -> u8 {
    ((limb as nat / pow256(j as nat)) % 256) as u8
}

/// The first powers of 256 written out.
proof fn lemma_pow256_values()
    ensures
        pow256(0) == 1,
        pow256(1) == 0x100,
        pow256(2) == 0x1_0000,
        pow256(3) == 0x100_0000,
        pow256(4) == 0x1_0000_0000,
        pow256(5) == 0x100_0000_0000,
        pow256(6) == 0x1_0000_0000_0000,
        pow256(7) == 0x100_0000_0000_0000,
        pow256(8) == 0x1_0000_0000_0000_0000,
{
    reveal_with_fuel(pow256, 10);
}

/// Powers of 256 multiply as their exponents add.
proof fn lemma_pow256_add(a: nat, b: nat)
    ensures
        pow256(a + b) == pow256(a) * pow256(b),
    decreases a,
{
    if a == 0 {
        assert(pow256(0) == 1);
        assert(pow256(b) == 1 * pow256(b));
    } else {
        lemma_pow256_add((a - 1) as nat, b);
        assert(pow256(a + b) == 256 * pow256((a + b - 1) as nat));
        assert(256 * (pow256((a - 1) as nat) * pow256(b)) == (256 * pow256((a - 1) as nat))
            * pow256(b)) by (nonlinear_arith);
    }
}

/// Powers of 256 are positive and grow with the exponent.
proof fn lemma_pow256_monotonic(a: nat, b: nat)
    requires
        a <= b,
    ensures
        0 < pow256(a) <= pow256(b),
    decreases b,
{
    if b == 0 {
    } else if a == b {
        lemma_pow256_monotonic(0, (b - 1) as nat);
    } else {
        lemma_pow256_monotonic(a, (b - 1) as nat);
    }
}

/// 256^31 and 256^32 written out.
proof fn lemma_pow256_top()
    ensures
        pow256(31) == 0x100_0000_0000_0000_0000_0000_0000_0000_0000_0000_0000_0000_0000_0000_0000_0000,
        pow256(32)
            == 0x1_0000_0000_0000_0000_0000_0000_0000_0000_0000_0000_0000_0000_0000_0000_0000_0000,
{
    lemma_pow256_values();
    lemma_pow256_add(8, 8);
    lemma_pow256_add(16, 8);
    lemma_pow256_add(24, 7);
    lemma_pow256_add(24, 8);
}

/// A byte string of length n spells a number below 256^n.
proof fn lemma_be_value_bound(bytes: Seq<u8>)
    ensures
        be_value(bytes) < pow256(bytes.len()),
    decreases bytes.len(),
{
    if bytes.len() > 0 {
        lemma_be_value_bound(bytes.drop_last());
    }
}

/// The eight bytes of a limb, least significant first.
pub open spec fn limb_bytes(limb: u64) -> Seq<u8> {
    Seq::new(8, |j: int| limb_byte(limb, j))
}

/// The bytes from index `j` on of a limb spell what is left of the limb
/// once its `j` low bytes are cut off.
proof fn lemma_limb_bytes_from(limb: u64, j: int)
    requires
        0 <= j <= 8,
    ensures
        le_value(limb_bytes(limb).subrange(j, 8)) == limb as nat / pow256(j as nat),
    decreases 8 - j,
{
    lemma_pow256_values();
    lemma_pow256_monotonic(0, j as nat);
    let rest = limb_bytes(limb).subrange(j, 8);
    if j == 8 {
        assert(limb as nat / pow256(8) == 0);
    } else {
        lemma_limb_bytes_from(limb, j + 1);
        assert(rest.drop_first() =~= limb_bytes(limb).subrange(j + 1, 8));
        assert(rest.first() == limb_byte(limb, j));
        let x = limb as nat / pow256(j as nat);
        vstd::arithmetic::div_mod::lemma_div_denominator(limb as int, pow256(j as nat) as int, 256);
        assert(pow256(j as nat) * 256 == pow256((j + 1) as nat)) by (nonlinear_arith)
            requires
                pow256((j + 1) as nat) == 256 * pow256(j as nat),
        ;
        vstd::arithmetic::div_mod::lemma_fundamental_div_mod(x as int, 256);
    }
}

/// Bytes put after other bytes count for 256 to the number of those before them.
proof fn lemma_le_value_concat(a: Seq<u8>, b: Seq<u8>)
    ensures
        le_value(a + b) == le_value(a) + pow256(a.len()) * le_value(b),
    decreases a.len(),
{
    if a.len() == 0 {
        assert(a + b =~= b);
        assert(pow256(0) == 1);
        assert(1 * le_value(b) == le_value(b));
    } else {
        lemma_le_value_concat(a.drop_first(), b);
        assert((a + b).drop_first() =~= a.drop_first() + b);
        assert(pow256(a.len()) == 256 * pow256((a.len() - 1) as nat));
        assert(256 * (pow256((a.len() - 1) as nat) * le_value(b)) == (256 * pow256(
            (a.len() - 1) as nat,
        )) * le_value(b)) by (nonlinear_arith);
    }
}

/// The hexadecimal digit of a number below 16, in lower case.
pub open spec fn hex_char(d: nat) -> char {
    if d < 10 {
        (48 + d) as char
    } else {
        (87 + d) as char
    }
}

/// `s` without the zeros that open it.
pub open spec fn trim_zeros(s: Seq<char>) -> Seq<char>
    decreases s.len(),
{
    if s.len() > 0 && s[0] == '0' {
        trim_zeros(s.drop_first())
    } else {
        s
    }
}

/// Where `s` opens with `first` zeros and no more, trimming it leaves what
/// follows them.
proof fn lemma_trim_zeros(s: Seq<char>, first: int)
    requires
        0 <= first <= s.len(),
        forall|j: int| 0 <= j < first ==> s[j] == '0',
        first < s.len() ==> s[first] != '0',
    ensures
        trim_zeros(s) == s.subrange(first, s.len() as int),
    decreases first,
{
    if first == 0 {
        assert(s.subrange(0, s.len() as int) =~= s);
    } else {
        lemma_trim_zeros(s.drop_first(), first - 1);
        assert(s.drop_first().subrange(first - 1, s.len() - 1) =~= s.subrange(first, s.len() as int));
    }
}

/// The text of one hexadecimal digit.
fn digit_text(d: u8) -> (r: &'static str)
    requires
        d < 16,
    ensures
        r@ == seq![hex_char(d as nat)],
{
    proof {
        reveal_strlit("0");
        reveal_strlit("1");
        reveal_strlit("2");
        reveal_strlit("3");
        reveal_strlit("4");
        reveal_strlit("5");
        reveal_strlit("6");
        reveal_strlit("7");
        reveal_strlit("8");
        reveal_strlit("9");
        reveal_strlit("a");
        reveal_strlit("b");
        reveal_strlit("c");
        reveal_strlit("d");
        reveal_strlit("e");
        reveal_strlit("f");
    }
    let r = if d == 0 {
        "0"
    } else if d == 1 {
        "1"
    } else if d == 2 {
        "2"
    } else if d == 3 {
        "3"
    } else if d == 4 {
        "4"
    } else if d == 5 {
        "5"
    } else if d == 6 {
        "6"
    } else if d == 7 {
        "7"
    } else if d == 8 {
        "8"
    } else if d == 9 {
        "9"
    } else if d == 10 {
        "a"
    } else if d == 11 {
        "b"
    } else if d == 12 {
        "c"
    } else if d == 13 {
        "d"
    } else if d == 14 {
        "e"
    } else {
        "f"
    };
    assert(r@ =~= seq![hex_char(d as nat)]);
    r
}

/// An unsigned 256-bit integer. `w0` is the least significant limb.
#[derive(Clone, Copy, Debug, PartialEq, Eq, Hash, Structural)]
pub struct U256 {
    pub w0: u64,
    pub w1: u64,
    pub w2: u64,
    pub w3: u64,
}

/// A 320-bit intermediate: room for a `U256` times a 64-bit factor.
#[derive(Clone, Copy, Debug)]
pub struct Wide {
    pub w0: u64,
    pub w1: u64,
    pub w2: u64,
    pub w3: u64,
    pub w4: u64,
}

impl View for U256 {
    type V = nat;

    open spec fn view(&self) -> nat {
        self.w0 as nat + self.w1 as nat * 0x1_0000_0000_0000_0000 + self.w2 as nat
            * 0x1_0000_0000_0000_0000_0000_0000_0000_0000 + self.w3 as nat
            * 0x1_0000_0000_0000_0000_0000_0000_0000_0000_0000_0000_0000_0000
    }
}

impl View for Wide {
    type V = nat;

    open spec fn view(&self) -> nat {
        self.w0 as nat + self.w1 as nat * 0x1_0000_0000_0000_0000 + self.w2 as nat
            * 0x1_0000_0000_0000_0000_0000_0000_0000_0000 + self.w3 as nat
            * 0x1_0000_0000_0000_0000_0000_0000_0000_0000_0000_0000_0000_0000 + self.w4 as nat
            * 0x1_0000_0000_0000_0000_0000_0000_0000_0000_0000_0000_0000_0000_0000_0000_0000_0000
    }
}

/// `(a + x * c) * d` with the product by `d` taken inside.
proof fn lemma_scale(a: nat, x: nat, c: nat, d: nat)
    ensures
        (a + x * c) * d == a * d + (x * d) * c,
{
    assert((a + x * c) * d == a * d + (x * d) * c) by (nonlinear_arith);
}

/// Splits `x * m + carry` into its low limb and the carry into the next one.
fn mul_step(x: u64, m: u64, carry: u64) -> (r: (u64, u64))
    ensures
        r.0 as nat + r.1 as nat * 0x1_0000_0000_0000_0000 == x as nat * m as nat + carry as nat,
{
    assert(x as nat * m as nat <= 0xffff_ffff_ffff_ffff * 0xffff_ffff_ffff_ffff)
        by (nonlinear_arith)
        requires
            x <= 0xffff_ffff_ffff_ffff,
            m <= 0xffff_ffff_ffff_ffff,
    ;
    let p: u128 = x as u128 * m as u128 + carry as u128;
    let low: u64 = (p % 0x1_0000_0000_0000_0000u128) as u64;
    let high: u64 = (p / 0x1_0000_0000_0000_0000u128) as u64;
    (low, high)
}

/// One step of long division: divides `rem * 2^64 + x` by `d`.
fn div_step(rem: u64, x: u64, d: u64) -> (r: (u64, u64))
    requires
        rem < d,
    ensures
        r.0 as nat * d as nat + r.1 as nat == rem as nat * 0x1_0000_0000_0000_0000 + x as nat,
        r.1 < d,
{
    let cur: u128 = rem as u128 * 0x1_0000_0000_0000_0000u128 + x as u128;
    let q: u128 = cur / (d as u128);
    let r: u128 = cur % (d as u128);
    proof {
        vstd::arithmetic::div_mod::lemma_fundamental_div_mod(cur as int, d as int);
        assert(q < 0x1_0000_0000_0000_0000) by (nonlinear_arith)
            requires
                d as int * q as int + r as int == cur as int,
                cur < d as int * 0x1_0000_0000_0000_0000,
                0 <= r,
                0 < d as int,
        ;
        assert(d as int * q as int == q as nat * d as nat) by (nonlinear_arith);
    }
    (q as u64, r as u64)
}

impl U256 {
    /// The number 0.
    pub fn zero() -> (r: U256)
        ensures
            r@ == 0,
            r == (U256 { w0: 0, w1: 0, w2: 0, w3: 0 }),
    {
        U256 { w0: 0, w1: 0, w2: 0, w3: 0 }
    }

    /// The 256-bit integer equal to `x`.
    pub fn from_u64(x: u64) -> (r: U256)
        ensures
            r@ == x,
    {
        U256 { w0: x, w1: 0, w2: 0, w3: 0 }
    }

    /// The 256-bit integer whose value is `n` modulo 2^256.
    pub open spec fn from_nat(n: nat) -> U256 {
        U256 {
            w0: (n % 0x1_0000_0000_0000_0000nat) as u64,
            w1: ((n / 0x1_0000_0000_0000_0000nat) % 0x1_0000_0000_0000_0000nat) as u64,
            w2: ((n / 0x1_0000_0000_0000_0000_0000_0000_0000_0000nat)
                % 0x1_0000_0000_0000_0000nat) as u64,
            w3: ((n / 0x1_0000_0000_0000_0000_0000_0000_0000_0000_0000_0000_0000_0000nat)
                % 0x1_0000_0000_0000_0000nat) as u64,
        }
    }

    /// A number is determined by its value.
    pub proof fn lemma_from_nat_view(self)
        ensures
            U256::from_nat(self@) == self,
    {
        let n = self@ as int;
        let b: int = 0x1_0000_0000_0000_0000int;
        let b2: int = 0x1_0000_0000_0000_0000_0000_0000_0000_0000int;
        let b3: int = 0x1_0000_0000_0000_0000_0000_0000_0000_0000_0000_0000_0000_0000int;
        let q1 = self.w1 as int + self.w2 as int * b + self.w3 as int * b2;
        let q2 = self.w2 as int + self.w3 as int * b;
        let q3 = self.w3 as int;
        vstd::arithmetic::div_mod::lemma_fundamental_div_mod_converse(n, b, q1, self.w0 as int);
        vstd::arithmetic::div_mod::lemma_fundamental_div_mod_converse(
            n,
            b2,
            q2,
            self.w0 as int + self.w1 as int * b,
        );
        vstd::arithmetic::div_mod::lemma_fundamental_div_mod_converse(
            n,
            b3,
            q3,
            self.w0 as int + self.w1 as int * b + self.w2 as int * b2,
        );
        vstd::arithmetic::div_mod::lemma_fundamental_div_mod_converse(
            q1,
            b,
            q2,
            self.w1 as int,
        );
        vstd::arithmetic::div_mod::lemma_fundamental_div_mod_converse(
            q2,
            b,
            q3,
            self.w2 as int,
        );
        vstd::arithmetic::div_mod::lemma_small_mod(self.w3 as nat, b as nat);
    }

    /// A value below 2^256 is the value of the number made from it.
    pub proof fn lemma_from_nat_value(n: nat)
        requires
            n < 0x1_0000_0000_0000_0000_0000_0000_0000_0000_0000_0000_0000_0000_0000_0000_0000_0000,
        ensures
            U256::from_nat(n)@ == n,
    {
        let b: int = 0x1_0000_0000_0000_0000int;
        let x = n as int;
        let q1 = x / b;
        let q2 = q1 / b;
        let q3 = q2 / b;
        vstd::arithmetic::div_mod::lemma_fundamental_div_mod(x, b);
        vstd::arithmetic::div_mod::lemma_fundamental_div_mod(q1, b);
        vstd::arithmetic::div_mod::lemma_fundamental_div_mod(q2, b);
        vstd::arithmetic::div_mod::lemma_div_denominator(x, b, b);
        vstd::arithmetic::div_mod::lemma_div_denominator(x, b * b, b);
        assert(b * b == 0x1_0000_0000_0000_0000_0000_0000_0000_0000int);
        assert(b * b * b == 0x1_0000_0000_0000_0000_0000_0000_0000_0000_0000_0000_0000_0000int);
        assert(q3 < b);
        vstd::arithmetic::div_mod::lemma_small_mod(q3 as nat, b as nat);
    }

    /// Limb `k` of the number, limb 0 being the least significant.
    pub open spec fn limb(&self, k: int) -> u64 {
        if k == 0 {
            self.w0
        } else if k == 1 {
            self.w1
        } else if k == 2 {
            self.w2
        } else {
            self.w3
        }
    }

    /// The 32 bytes of the number, least significant first.
    pub open spec fn le_bytes(&self) -> Seq<u8> {
        Seq::new(32, |i: int| limb_byte(self.limb(i / 8), i % 8))
    }

    /// The little-endian bytes of a number spell its value.
    pub proof fn lemma_le_bytes_value(self)
        ensures
            self.le_bytes().len() == 32,
            le_value(self.le_bytes()) == self@,
    {
        let b0 = limb_bytes(self.w0);
        let b1 = limb_bytes(self.w1);
        let b2 = limb_bytes(self.w2);
        let b3 = limb_bytes(self.w3);
        assert(self.le_bytes() =~= b0 + (b1 + (b2 + b3)));
        lemma_le_value_concat(b0, b1 + (b2 + b3));
        lemma_le_value_concat(b1, b2 + b3);
        lemma_le_value_concat(b2, b3);
        lemma_limb_bytes_from(self.w0, 0);
        lemma_limb_bytes_from(self.w1, 0);
        lemma_limb_bytes_from(self.w2, 0);
        lemma_limb_bytes_from(self.w3, 0);
        assert(b0.subrange(0, 8) =~= b0);
        assert(b1.subrange(0, 8) =~= b1);
        assert(b2.subrange(0, 8) =~= b2);
        assert(b3.subrange(0, 8) =~= b3);
        lemma_pow256_values();
        let m: nat = 0x1_0000_0000_0000_0000nat;
        let v23 = self.w2 as nat + m * self.w3 as nat;
        let v123 = self.w1 as nat + m * v23;
        assert(pow256(0) == 1);
        assert(le_value(b0) == self.w0 as nat / 1);
        assert(le_value(b1) == self.w1 as nat / 1);
        assert(le_value(b2) == self.w2 as nat / 1);
        assert(le_value(b3) == self.w3 as nat / 1);
        assert(pow256(b0.len()) == m && pow256(b1.len()) == m && pow256(b2.len()) == m);
        assert(le_value(b2 + b3) == v23);
        assert(le_value(b1 + (b2 + b3)) == v123);
        assert(le_value(self.le_bytes()) == self.w0 as nat + m * v123);
        assert(m * v123 == m * self.w1 as nat + m * (m * v23)) by (nonlinear_arith)
            requires
                v123 == self.w1 as nat + m * v23,
        ;
        assert(m * (m * v23) == (m * m) * self.w2 as nat + (m * m * m) * self.w3 as nat)
            by (nonlinear_arith)
            requires
                v23 == self.w2 as nat + m * self.w3 as nat,
        ;
        assert(m * m == 0x1_0000_0000_0000_0000_0000_0000_0000_0000nat);
        assert(m * m * m == 0x1_0000_0000_0000_0000_0000_0000_0000_0000_0000_0000_0000_0000nat);
    }

    /// The 64 hexadecimal digits of the number, most significant first.
    pub open spec fn hex_digits(&self) -> Seq<char> {
        Seq::new(
            64,
            |i: int|
                {
                    let byte = self.le_bytes()[31 - i / 2];
                    hex_char(
                        if i % 2 == 0 {
                            (byte / 16) as nat
                        } else {
                            (byte % 16) as nat
                        },
                    )
                },
        )
    }

    /// The number in hexadecimal, lower case, without leading zeros; `0` for zero.
    pub open spec fn lower_hex(&self) -> Seq<char> {
        let digits = trim_zeros(self.hex_digits());
        if digits.len() == 0 {
            seq!['0']
        } else {
            digits
        }
    }

    /// The number in hexadecimal, lower case, without leading zeros.
    pub fn to_hex(&self) -> (r: String)
        ensures
            r@ == self.lower_hex(),
    {
        let bytes = self.to_little_endian();
        let ghost digits = self.hex_digits();
        let mut out = String::new();
        let mut started = false;
        let ghost mut first: int = 0;
        let mut i: usize = 0;
        while i < 64
            invariant
                i <= 64,
                bytes@ == self.le_bytes(),
                digits == self.hex_digits(),
                !started ==> out@ == Seq::<char>::empty() && first == i,
                started ==> 0 <= first < i && digits[first] != '0' && out@ == digits.subrange(
                    first,
                    i as int,
                ),
                forall|j: int| 0 <= j < first ==> digits[j] == '0',
            decreases 64 - i,
        {
            let byte: u8 = bytes[31 - i / 2];
            let d: u8 = if i % 2 == 0 {
                byte / 16
            } else {
                byte % 16
            };
            assert(digits[i as int] == hex_char(d as nat));
            if started || d != 0 {
                proof {
                    if !started {
                        assert(digits.subrange(first, i as int) =~= Seq::<char>::empty());
                    }
                    assert(digits.subrange(first, i as int) + seq![digits[i as int]]
                        =~= digits.subrange(first, i + 1));
                }
                out.append(digit_text(d));
                started = true;
            } else {
                proof {
                    first = first + 1;
                }
            }
            i += 1;
        }
        proof {
            lemma_trim_zeros(digits, first);
        }
        if !started {
            proof {
                reveal_strlit("0");
                assert("0"@ =~= seq!['0']);
                assert(digits.subrange(first, 64) =~= Seq::<char>::empty());
            }
            out.append("0");
        }
        out
    }

    /// `self * 256 + b`, for a number that is below 256^31.
    fn push_byte(self, b: u8) -> (r: U256)
        requires
            self@ < pow256(31),
        ensures
            r@ == self@ * 256 + b as nat,
    {
        proof {
            lemma_pow256_top();
        }
        let (r0, c0) = mul_step(self.w0, 256, b as u64);
        let (r1, c1) = mul_step(self.w1, 256, c0);
        let (r2, c2) = mul_step(self.w2, 256, c1);
        let (r3, c3) = mul_step(self.w3, 256, c2);
        assert(c3 == 0);
        U256 { w0: r0, w1: r1, w2: r2, w3: r3 }
    }

    /// Reads a number of at most 32 bytes, most significant byte first.
    pub fn from_big_endian(bytes: &[u8]) -> (r: U256)
        requires
            bytes@.len() <= 32,
        ensures
            r@ == be_value(bytes@),
    {
        let mut acc = U256::zero();
        let mut i: usize = 0;
        while i < bytes.len()
            invariant
                i <= bytes@.len() <= 32,
                acc@ == be_value(bytes@.subrange(0, i as int)),
            decreases bytes@.len() - i,
        {
            proof {
                lemma_be_value_bound(bytes@.subrange(0, i as int));
                lemma_pow256_monotonic(i as nat, 31);
                assert(bytes@.subrange(0, i + 1).drop_last() =~= bytes@.subrange(0, i as int));
            }
            acc = acc.push_byte(bytes[i]);
            i += 1;
        }
        assert(bytes@.subrange(0, i as int) =~= bytes@);
        acc
    }

    /// The 32 bytes of the number, least significant first.
    pub fn to_little_endian(&self) -> (r: [u8; 32])
        ensures
            r@ == self.le_bytes(),
            le_value(r@) == self@,
    {
        proof {
            self.lemma_le_bytes_value();
        }
        let limbs: [u64; 4] = [self.w0, self.w1, self.w2, self.w3];
        let mut out: [u8; 32] = [0u8; 32];
        let mut i: usize = 0;
        while i < 32
            invariant
                i <= 32,
                limbs@ == seq![self.w0, self.w1, self.w2, self.w3],
                forall|k: int| 0 <= k < i ==> out@[k] == #[trigger] self.le_bytes()[k],
            decreases 32 - i,
        {
            let limb: u64 = limbs[i / 8];
            let j: usize = i % 8;
            let mut shifted: u64 = limb;
            let mut s: usize = 0;
            assert(pow256(0) == 1);
            while s < j
                invariant
                    s <= j < 8,
                    shifted as nat == limb as nat / pow256(s as nat),
                decreases j - s,
            {
                proof {
                    lemma_pow256_monotonic(0, s as nat);
                    vstd::arithmetic::div_mod::lemma_div_denominator(
                        limb as int,
                        pow256(s as nat) as int,
                        256,
                    );
                    assert(pow256(s as nat) * 256 == pow256((s + 1) as nat)) by (nonlinear_arith)
                        requires
                            pow256((s + 1) as nat) == 256 * pow256(s as nat),
                    ;
                }
                shifted = shifted / 256;
                s += 1;
            }
            out[i] = (shifted % 256) as u8;
            assert(self.limb(i as int / 8) == limb);
            i += 1;
        }
        assert(out@ =~= self.le_bytes());
        out
    }

    /// Whether `self <= other` as numbers.
    pub fn le(&self, other: &U256) -> (r: bool)
        ensures
            r == (self@ <= other@),
    {
        if self.w3 != other.w3 {
            self.w3 < other.w3
        } else if self.w2 != other.w2 {
            self.w2 < other.w2
        } else if self.w1 != other.w1 {
            self.w1 < other.w1
        } else {
            self.w0 <= other.w0
        }
    }

    /// Whether `self < other` as numbers.
    pub fn lt(&self, other: &U256) -> (r: bool)
        ensures
            r == (self@ < other@),
    {
        !other.le(self)
    }

    /// `self * m`, which always fits the wider type.
    pub fn mul_u64(&self, m: u64) -> (r: Wide)
        ensures
            r@ == self@ * m as nat,
    {
        let (r0, c0) = mul_step(self.w0, m, 0);
        let (r1, c1) = mul_step(self.w1, m, c0);
        let (r2, c2) = mul_step(self.w2, m, c1);
        let (r3, c3) = mul_step(self.w3, m, c2);
        let r = Wide { w0: r0, w1: r1, w2: r2, w3: r3, w4: c3 };
        assert(r@ == self@ * m as nat) by {
            let b: nat = 0x1_0000_0000_0000_0000;
            let part0 = self.w0 as nat * m as nat;
            let part1 = self.w1 as nat * m as nat;
            let part2 = self.w2 as nat * m as nat;
            let part3 = self.w3 as nat * m as nat;
            assert(self@ * m as nat == part0 + part1 * b + part2 * (b * b) + part3 * (b * b * b))
                by (nonlinear_arith)
                requires
                    self@ == self.w0 as nat + self.w1 as nat * b + self.w2 as nat * (b * b)
                        + self.w3 as nat * (b * b * b),
                    part0 == self.w0 as nat * m as nat,
                    part1 == self.w1 as nat * m as nat,
                    part2 == self.w2 as nat * m as nat,
                    part3 == self.w3 as nat * m as nat,
            ;
        }
        r
    }

    /// The wider number equal to `self`.
    pub fn widen(&self) -> (r: Wide)
        ensures
            r@ == self@,
    {
        Wide { w0: self.w0, w1: self.w1, w2: self.w2, w3: self.w3, w4: 0 }
    }
}

impl Wide {
    /// `self / d`, rounded down.
    pub fn div_u64(&self, d: u64) -> (r: Wide)
        requires
            d > 0,
        ensures
            r@ == self@ / d as nat,
    {
        let (q4, m4) = div_step(0, self.w4, d);
        let (q3, m3) = div_step(m4, self.w3, d);
        let (q2, m2) = div_step(m3, self.w2, d);
        let (q1, m1) = div_step(m2, self.w1, d);
        let (q0, m0) = div_step(m1, self.w0, d);
        let r = Wide { w0: q0, w1: q1, w2: q2, w3: q3, w4: q4 };
        proof {
            let t0 = q0 as nat * d as nat;
            let t1 = q1 as nat * d as nat;
            let t2 = q2 as nat * d as nat;
            let t3 = q3 as nat * d as nat;
            let t4 = q4 as nat * d as nat;
            let dn = d as nat;
            let s3 = q3 as nat + q4 as nat * 0x1_0000_0000_0000_0000;
            let s2 = q2 as nat + s3 * 0x1_0000_0000_0000_0000;
            let s1 = q1 as nat + s2 * 0x1_0000_0000_0000_0000;
            lemma_scale(q3 as nat, q4 as nat, 0x1_0000_0000_0000_0000, dn);
            lemma_scale(q2 as nat, s3, 0x1_0000_0000_0000_0000, dn);
            lemma_scale(q1 as nat, s2, 0x1_0000_0000_0000_0000, dn);
            lemma_scale(q0 as nat, s1, 0x1_0000_0000_0000_0000, dn);
            assert(r@ == q0 as nat + s1 * 0x1_0000_0000_0000_0000);
            assert(self@ == r@ * dn + m0 as nat);
            vstd::arithmetic::div_mod::lemma_fundamental_div_mod_converse(
                self@ as int,
                d as int,
                r@ as int,
                m0 as int,
            );
        }
        r
    }

    /// Whether `self <= other` as numbers.
    pub fn le(&self, other: &Wide) -> (r: bool)
        ensures
            r == (self@ <= other@),
    {
        if self.w4 != other.w4 {
            self.w4 < other.w4
        } else if self.w3 != other.w3 {
            self.w3 < other.w3
        } else if self.w2 != other.w2 {
            self.w2 < other.w2
        } else if self.w1 != other.w1 {
            self.w1 < other.w1
        } else {
            self.w0 <= other.w0
        }
    }

    /// The 256-bit number equal to `self`, when it is that small.
    pub fn narrow(&self) -> (r: Option<U256>)
        ensures
            match r {
                Some(x) => x@ == self@,
                None => self@
                    > 0xffff_ffff_ffff_ffff_ffff_ffff_ffff_ffff_ffff_ffff_ffff_ffff_ffff_ffff_ffff_ffff,
            },
    {
        if self.w4 == 0 {
            Some(U256 { w0: self.w0, w1: self.w1, w2: self.w2, w3: self.w3 })
        } else {
            None
        }
    }
}

} // verus!
