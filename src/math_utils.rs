use vstd::prelude::*;
use vstd::arithmetic::div_mod::{lemma_fundamental_div_mod, lemma_mod_multiples_basic};

verus! {

/// Greatest common divisor, as defined by Euclid's recurrence.
pub open spec fn gcd_spec(a: nat, b: nat) -> nat
    decreases b,
{
    if b == 0 {
        a
    } else {
        gcd_spec(b, a % b)
    }
}

/// `d` divides `n`: `n` is a whole multiple of `d`.
pub open spec fn divides(d: int, n: int) -> bool {
    exists|k: int| n == #[trigger] (d * k)
}

/// The result of Euclid's recurrence divides both arguments, and every
/// common divisor of the arguments divides it.
pub proof fn lemma_gcd_is_greatest_common_divisor(a: nat, b: nat)
    ensures
        divides(gcd_spec(a, b) as int, a as int),
        divides(gcd_spec(a, b) as int, b as int),
        forall|d: int| divides(d, a as int) && divides(d, b as int) ==> #[trigger] divides(d, gcd_spec(a, b) as int),
    decreases b,
{
    if b == 0 {
        assert(a as int == (a as int) * 1);
        assert(0int == (a as int) * 0);
    } else {
        let g = gcd_spec(a, b) as int;
        let q = (a / b) as int;
        let m = (a % b) as int;
        lemma_fundamental_div_mod(a as int, b as int);
        assert(a as int == b * q + m);
        lemma_gcd_is_greatest_common_divisor(b, a % b);
        let x = choose|x: int| b as int == #[trigger] (g * x);
        let y = choose|y: int| m == #[trigger] (g * y);
        assert(a as int == g * (x * q + y)) by (nonlinear_arith)
            requires
                a as int == b * q + m,
                b as int == g * x,
                m == g * y,
        ;
        assert forall|d: int| divides(d, a as int) && divides(d, b as int) implies #[trigger] divides(
            d,
            g,
        ) by {
            let u = choose|u: int| a as int == #[trigger] (d * u);
            let v = choose|v: int| b as int == #[trigger] (d * v);
            assert(m == d * (u - v * q)) by (nonlinear_arith)
                requires
                    a as int == b * q + m,
                    a as int == d * u,
                    b as int == d * v,
            ;
            assert(divides(d, m));
        }
    }
}

/// `n` is prime: at least 2 and without a divisor strictly between 1 and `n`.
pub open spec fn is_prime_spec(n: nat) -> bool {
    n >= 2 && forall|d: nat| 2 <= d < n ==> #[trigger] (n % d) != 0
}

/// Greatest common divisor of two integers (Euclid's algorithm).
pub fn gcd(a: u32, b: u32) -> (r: u32)
    ensures
        r == gcd_spec(a as nat, b as nat),
        divides(r as int, a as int),
        divides(r as int, b as int),
        forall|d: int| divides(d, a as int) && divides(d, b as int) ==> #[trigger] divides(d, r as int),
{
    proof {
        lemma_gcd_is_greatest_common_divisor(a as nat, b as nat);
    }
    let mut x: u32 = a;
    let mut y: u32 = b;
    while y != 0
        invariant
            gcd_spec(x as nat, y as nat) == gcd_spec(a as nat, b as nat),
        decreases y,
    {
        let t: u32 = y;
        y = x % y;
        x = t;
    }
    x
}

proof fn lemma_gcd_zero(a: nat, b: nat)
    ensures
        gcd_spec(a, b) == 0 <==> (a == 0 && b == 0),
    decreases b,
{
    if b != 0 {
        lemma_gcd_zero(b, a % b);
    }
}

/// Least common multiple, computed as `a * b / gcd(a, b)`.
pub fn lcm(a: u32, b: u32) -> (r: u32)
    requires
        a != 0 || b != 0,
        a * b <= u32::MAX,
    ensures
        r == (a * b) as nat / gcd_spec(a as nat, b as nat),
{
    let g = gcd(a, b);
    proof {
        lemma_gcd_zero(a as nat, b as nat);
    }
    (a * b) / g
}

/// An odd number has no even divisor.
proof fn lemma_odd_no_even_divisor(n: nat, d: nat)
    requires
        n % 2 == 1,
        d >= 2,
        d % 2 == 0,
    ensures
        n % d != 0,
{
    if n % d == 0 {
        lemma_fundamental_div_mod(n as int, d as int);
        lemma_fundamental_div_mod(d as int, 2);
        let k = d / 2;
        let q = n / d;
        assert(n == (k * q) * 2) by (nonlinear_arith)
            requires
                n == d * q,
                d == 2 * k,
        ;
        lemma_mod_multiples_basic((k * q) as int, 2);
    }
}

/// Once every candidate below `i` is ruled out and `i * i > n`, no divisor
/// remains at all: a divisor `d >= i` would pair with `n / d < i`.
proof fn lemma_no_divisor_above_root(n: nat, i: nat)
    requires
        n >= 2,
        i >= 2,
        i * i > n,
        forall|d: nat| 2 <= d < i ==> #[trigger] (n % d) != 0,
    ensures
        is_prime_spec(n),
{
    assert forall|d: nat| 2 <= d < n implies #[trigger] (n % d) != 0 by {
        if d >= i && n % d == 0 {
            lemma_fundamental_div_mod(n as int, d as int);
            let q = n / d;
            assert(n == q * d);
            assert(q >= 2) by (nonlinear_arith)
                requires
                    n == q * d,
                    d < n,
            ;
            assert(q < i) by (nonlinear_arith)
                requires
                    n == q * d,
                    d >= i,
                    i * i > n,
            ;
            lemma_mod_multiples_basic(d as int, q as int);
            assert(n % q == 0) by {
                assert((d * q) % q == 0);
                assert(d * q == n) by (nonlinear_arith)
                    requires
                        n == q * d,
                ;
            }
        }
    }
}

/// Primality test by trial division with odd candidates up to the square root.
pub fn is_prime(n: u32) -> (r: bool)
    ensures
        r == is_prime_spec(n as nat),
{
    if n < 2 {
        return false;
    }
    if n == 2 {
        return true;
    }
    if n % 2 == 0 {
        assert(!is_prime_spec(n as nat)) by {
            assert((n as nat) % 2 == 0);
        }
        return false;
    }
    let mut i: u32 = 3;
    while i <= n / i
        invariant
            n >= 3,
            n % 2 == 1,
            3 <= i,
            i % 2 == 1,
            i <= n,
            forall|d: nat| 2 <= d < i ==> #[trigger] ((n as nat) % d) != 0,
        decreases n - i,
    {
        if n % i == 0 {
            assert(i < n) by (nonlinear_arith)
                requires
                    i <= n / i,
                    i >= 3,
            ;
            assert((n as nat) % (i as nat) == 0);
            return false;
        }
        assert forall|d: nat| 2 <= d < i + 2 implies #[trigger] ((n as nat) % d) != 0 by {
            if d == i + 1 {
                lemma_odd_no_even_divisor(n as nat, d);
            }
        }
        assert(i + 2 <= n) by (nonlinear_arith)
            requires
                i <= n / i,
                i >= 3,
                n % 2 == 1,
        ;
        i = i + 2;
    }
    assert((i as nat) * (i as nat) > n as nat) by (nonlinear_arith)
        requires
            i > n / i,
            i >= 3,
    ;
    proof {
        lemma_no_divisor_above_root(n as nat, i as nat);
    }
    true
}

} // verus!
