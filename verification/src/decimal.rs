//! Exact fixed-point amounts.
//!
//! A `Decimal<N>` counts units of 10^-N in a signed 64-bit integer. Sums and
//! differences are exact; products round to the nearest unit, ties away from
//! zero; quotients round toward negative infinity. Products and quotients
//! that leave the 64-bit range stop at its ends.

use std::cmp::Ordering;
use vstd::arithmetic::div_mod::lemma_fundamental_div_mod_converse;
use vstd::prelude::*;
use vstd::std_specs::cmp::PartialEqSpecImpl;
use vstd::std_specs::cmp::PartialOrdSpecImpl;
use vstd::std_specs::ops::AddSpec;
use vstd::std_specs::ops::AddSpecImpl;
use vstd::std_specs::ops::DivSpecImpl;
use vstd::std_specs::ops::MulSpecImpl;
use vstd::std_specs::ops::SubSpec;
use vstd::std_specs::ops::SubSpecImpl;

verus! {

/// An amount with `N` decimal places: the field counts units of 10^-N.
#[derive(Debug, Clone, Copy, Eq, Ord)]
pub struct Decimal<const N: u8>(pub i64);

/// A ratio of two integers; rates are ratios with a positive denominator.
#[derive(Debug, Clone, Copy, PartialEq, Eq, Structural)]
pub struct Razao {
    pub numerador: i64,
    pub denominador: i64,
}

/// Whether `x` can be held in an `i64`.
pub open spec fn cabe(x: int) -> bool {
    i64::MIN <= x <= i64::MAX
}

/// `x` brought to the nearest end of the `i64` range when it lies outside.
pub open spec fn saturar(x: int) -> i64 {
    if x > i64::MAX {
        i64::MAX
    } else if x < i64::MIN {
        i64::MIN
    } else {
        x as i64
    }
}

/// 10 to the power `n`.
pub open spec fn potencia_de_dez(n: nat) -> int
    decreases n,
{
    if n == 0 {
        1
    } else {
        10 * potencia_de_dez((n - 1) as nat)
    }
}

/// The integer nearest to `num / den` for `num >= 0` and `den > 0`, the
/// upper one when two are equally near.
pub open spec fn arredondar_positivo(num: int, den: int) -> int {
    if 2 * (num % den) >= den {
        num / den + 1
    } else {
        num / den
    }
}

/// The integer nearest to `num / den` for `den > 0`; of two equally near,
/// the one farther from zero.
pub open spec fn arredondar(num: int, den: int) -> int {
    if num >= 0 {
        arredondar_positivo(num, den)
    } else {
        -arredondar_positivo(-num, den)
    }
}

/// The largest integer not above `num / den`, for `den != 0`.
pub open spec fn piso(num: int, den: int) -> int {
    if den > 0 {
        num / den
    } else {
        (-num) / (-den)
    }
}

/// What a quotient by zero is: the end of the range on the side of the
/// dividend, and zero for a zero dividend.
pub open spec fn quociente_por_zero(num: int) -> i64 {
    if num > 0 {
        i64::MAX
    } else if num < 0 {
        i64::MIN
    } else {
        0
    }
}

/// The count of units of 10^-`para` that stands for `valor` units of
/// 10^-`de`: exact when places are added, rounded when they are dropped.
pub open spec fn mudar_escala(valor: int, de: nat, para: nat) -> i64 {
    if para >= de {
        saturar(valor * potencia_de_dez((para - de) as nat))
    } else {
        saturar(arredondar(valor, potencia_de_dez((de - para) as nat)))
    }
}

/// The integer halfway between `a` and `b`, rounded toward negative infinity.
pub open spec fn ponto_medio(a: int, b: int) -> int {
    (a + b) / 2
}

/// Powers of ten are positive and grow with the exponent.
pub proof fn lema_potencia_de_dez_cresce(a: nat, b: nat)
    requires
        a <= b,
    ensures
        1 <= potencia_de_dez(a) <= potencia_de_dez(b),
    decreases b,
{
    if a < b {
        lema_potencia_de_dez_cresce(a, (b - 1) as nat);
    } else if a > 0 {
        lema_potencia_de_dez_cresce((a - 1) as nat, (b - 1) as nat);
    }
}

/// Up to 18 places, a power of ten fits an `i64`.
pub proof fn lema_potencia_de_dez_limitada(n: nat)
    requires
        n <= 18,
    ensures
        1 <= potencia_de_dez(n) <= 1_000_000_000_000_000_000,
{
    lema_potencia_de_dez_cresce(n, 18);
    assert(potencia_de_dez(18) == 1_000_000_000_000_000_000) by {
        reveal_with_fuel(potencia_de_dez, 19);
    }
}

/// Rounding to nearest never lands more than half a unit from the exact
/// quotient: `|2 * den * arredondar(num, den) - 2 * num| <= den`.
pub proof fn lema_arredondar_mais_proximo(num: int, den: int)
    requires
        den > 0,
    ensures
        -den <= 2 * den * arredondar(num, den) - 2 * num <= den,
        num >= 0 ==> arredondar(num, den) >= 0,
        num <= 0 ==> arredondar(num, den) <= 0,
{
    let n = if num >= 0 { num } else { -num };
    let q = n / den;
    let r = n % den;
    assert(n == den * q + r && 0 <= r < den) by (nonlinear_arith)
        requires
            den > 0,
            q == n / den,
            r == n % den,
    ;
    assert(q >= 0) by (nonlinear_arith)
        requires
            n >= 0,
            den > 0,
            q == n / den,
    ;
    let a = arredondar_positivo(n, den);
    assert(-den <= 2 * den * a - 2 * n <= den) by (nonlinear_arith)
        requires
            n == den * q + r,
            0 <= r < den,
            a == if 2 * r >= den { q + 1 } else { q },
    ;
    assert(2 * den * (-a) - 2 * (-n) == -(2 * den * a - 2 * n)) by (nonlinear_arith);
}

fn dez_elevado(n: u8) -> (r: i128)
    requires
        n <= 18,
    ensures
        r == potencia_de_dez(n as nat),
        1 <= r <= 1_000_000_000_000_000_000,
{
    let mut r: i128 = 1;
    let mut i: u8 = 0;
    while i < n
        invariant
            i <= n <= 18,
            r == potencia_de_dez(i as nat),
        decreases n - i,
    {
        proof {
            lema_potencia_de_dez_limitada(i as nat);
        }
        r = r * 10;
        i = i + 1;
    }
    proof {
        lema_potencia_de_dez_limitada(n as nat);
    }
    r
}

pub(crate) fn saturar_i128(x: i128) -> (r: i64)
    ensures
        r == saturar(x as int),
{
    if x > i64::MAX as i128 {
        i64::MAX
    } else if x < i64::MIN as i128 {
        i64::MIN
    } else {
        x as i64
    }
}

fn quociente_por_zero_de(num: i64) -> (r: i64)
    ensures
        r == quociente_por_zero(num as int),
{
    if num > 0 {
        i64::MAX
    } else if num < 0 {
        i64::MIN
    } else {
        0
    }
}

pub(crate) fn dividir_arredondando(num: i128, den: i128) -> (r: i128)
    requires
        0 < den,
        i128::MIN < num,
    ensures
        r == arredondar(num as int, den as int),
{
    let n: i128 = if num >= 0 { num } else { -num };
    let q: i128 = n / den;
    let resto: i128 = n % den;
    assert(0 <= q <= n && (resto > 0 ==> q < n)) by (nonlinear_arith)
        requires
            n >= 0,
            den > 0,
            q == n as int / den as int,
            resto == n as int % den as int,
    ;
    let m: i128 = if resto >= den - resto { q + 1 } else { q };
    if num >= 0 {
        m
    } else {
        -m
    }
}

fn dividir_para_baixo(num: i128, den: i128) -> (r: i128)
    requires
        den != 0,
        -0x8000_0000_0000_0000 <= den <= 0x8000_0000_0000_0000,
        -0x4000_0000_0000_0000_0000_0000_0000_0000 <= num
            <= 0x4000_0000_0000_0000_0000_0000_0000_0000,
    ensures
        r == piso(num as int, den as int),
{
    let n: i128 = if den > 0 { num } else { -num };
    let d: i128 = if den > 0 { den } else { -den };
    if n >= 0 {
        n / d
    } else {
        let m: i128 = -n;
        let q: i128 = m / d;
        let resto: i128 = m % d;
        assert(0 <= q <= m && m == d * q + resto && 0 <= resto < d) by (nonlinear_arith)
            requires
                m >= 0,
                d > 0,
                q == m as int / d as int,
                resto == m as int % d as int,
        ;
        if resto == 0 {
            proof {
                assert(n == (-q) * d + 0) by (nonlinear_arith)
                    requires
                        m == d * q + resto,
                        resto == 0,
                        m == -n,
                ;
                lemma_fundamental_div_mod_converse(n as int, d as int, -q as int, 0);
            }
            -q
        } else {
            proof {
                assert(n == (-q - 1) * d + (d - resto)) by (nonlinear_arith)
                    requires
                        m == d * q + resto,
                        m == -n,
                ;
                lemma_fundamental_div_mod_converse(
                    n as int,
                    d as int,
                    -q - 1,
                    (d - resto) as int,
                );
            }
            -q - 1
        }
    }
}

impl<const N: u8> Decimal<N> {
    /// The amount zero.
    pub fn zero() -> (r: Self)
        ensures
            r.0 == 0,
    {
        Decimal(0)
    }

    /// The same amount with `M` decimal places: exact when `M >= N` and the
    /// result fits, rounded to the nearest unit when places are dropped.
    pub fn as_decimal<const M: u8>(self) -> (r: Decimal<M>)
        requires
            N <= 18,
            M <= 18,
        ensures
            r.0 == mudar_escala(self.0 as int, N as nat, M as nat),
    {
        if M >= N {
            let fator: i128 = dez_elevado(M - N);
            let v: i128 = self.0 as i128;
            assert(-0x4000_0000_0000_0000_0000_0000_0000_0000 <= v * fator
                <= 0x4000_0000_0000_0000_0000_0000_0000_0000) by (nonlinear_arith)
                requires
                    -0x8000_0000_0000_0000 <= v <= 0x8000_0000_0000_0000,
                    1 <= fator <= 1_000_000_000_000_000_000,
            ;
            Decimal(saturar_i128(v * fator))
        } else {
            let divisor: i128 = dez_elevado(N - M);
            Decimal(saturar_i128(dividir_arredondando(self.0 as i128, divisor)))
        }
    }

    /// The sum, or `None` when it does not fit.
    pub fn checked_add(self, rhs: Self) -> (r: Option<Self>)
        ensures
            cabe(self.0 + rhs.0) ==> r == Some(Decimal::<N>((self.0 + rhs.0) as i64)),
            !cabe(self.0 + rhs.0) ==> r is None,
    {
        match self.0.checked_add(rhs.0) {
            Some(v) => Some(Decimal(v)),
            None => None,
        }
    }

    /// The difference, or `None` when it does not fit.
    pub fn checked_sub(self, rhs: Self) -> (r: Option<Self>)
        ensures
            cabe(self.0 - rhs.0) ==> r == Some(Decimal::<N>((self.0 - rhs.0) as i64)),
            !cabe(self.0 - rhs.0) ==> r is None,
    {
        match self.0.checked_sub(rhs.0) {
            Some(v) => Some(Decimal(v)),
            None => None,
        }
    }

    /// The product with an amount of `M` places, rounded to the nearest
    /// unit of 10^-N.
    pub open spec fn vezes<const M: u8>(self, rhs: Decimal<M>) -> Self {
        Decimal(saturar(arredondar(self.0 * rhs.0, potencia_de_dez(M as nat))))
    }

    /// The product with a ratio, rounded to the nearest unit.
    pub open spec fn vezes_razao(self, rhs: Razao) -> Self {
        Decimal(saturar(arredondar(self.0 * rhs.numerador, rhs.denominador as int)))
    }

    /// The quotient by an amount of `M` places, rounded toward negative
    /// infinity to a unit of 10^-N.
    pub open spec fn dividido<const M: u8>(self, rhs: Decimal<M>) -> Self {
        if rhs.0 == 0 {
            Decimal(quociente_por_zero(self.0 as int))
        } else {
            Decimal(saturar(piso(self.0 * potencia_de_dez(M as nat), rhs.0 as int)))
        }
    }

    /// The quotient by a whole number, rounded toward negative infinity.
    pub open spec fn dividido_por(self, rhs: i64) -> Self {
        if rhs == 0 {
            Decimal(quociente_por_zero(self.0 as int))
        } else {
            Decimal(saturar(piso(self.0 as int, rhs as int)))
        }
    }

    /// The sum, stopped at the ends of the range.
    pub open spec fn soma_saturada(self, rhs: Self) -> Self {
        Decimal(saturar(self.0 + rhs.0))
    }

    /// The difference, stopped at the ends of the range.
    pub open spec fn diferenca_saturada(self, rhs: Self) -> Self {
        Decimal(saturar(self.0 - rhs.0))
    }

    /// The sum, stopped at the ends of the range.
    pub fn saturating_add(self, rhs: Self) -> (r: Self)
        ensures
            r == self.soma_saturada(rhs),
    {
        Decimal(saturar_i128(self.0 as i128 + rhs.0 as i128))
    }

    /// The difference, stopped at the ends of the range.
    pub fn saturating_sub(self, rhs: Self) -> (r: Self)
        ensures
            r == self.diferenca_saturada(rhs),
    {
        Decimal(saturar_i128(self.0 as i128 - rhs.0 as i128))
    }

    /// The amount halfway between two amounts, rounded toward negative
    /// infinity. It always fits.
    pub fn ponto_medio(self, outro: Self) -> (r: Self)
        ensures
            r.0 == ponto_medio(self.0 as int, outro.0 as int),
            self.0 <= outro.0 ==> self.0 <= r.0 <= outro.0,
            outro.0 <= self.0 ==> outro.0 <= r.0 <= self.0,
    {
        let soma: i128 = self.0 as i128 + outro.0 as i128;
        let m: i128 = dividir_para_baixo(soma, 2);
        Decimal(m as i64)
    }
}

impl<const N: u8> PartialEq for Decimal<N> {
    fn eq(&self, other: &Self) -> (r: bool) {
        self.0 == other.0
    }
}

impl<const N: u8> PartialEqSpecImpl for Decimal<N> {
    open spec fn obeys_eq_spec() -> bool {
        true
    }

    open spec fn eq_spec(&self, other: &Self) -> bool {
        self.0 == other.0
    }
}

impl<const N: u8> PartialOrd for Decimal<N> {
    fn partial_cmp(&self, other: &Self) -> (r: Option<Ordering>) {
        if self.0 < other.0 {
            Some(Ordering::Less)
        } else if self.0 > other.0 {
            Some(Ordering::Greater)
        } else {
            Some(Ordering::Equal)
        }
    }
}

impl<const N: u8> PartialOrdSpecImpl for Decimal<N> {
    open spec fn obeys_partial_cmp_spec() -> bool {
        true
    }

    open spec fn partial_cmp_spec(&self, other: &Self) -> Option<Ordering> {
        if self.0 < other.0 {
            Some(Ordering::Less)
        } else if self.0 > other.0 {
            Some(Ordering::Greater)
        } else {
            Some(Ordering::Equal)
        }
    }
}

impl<const N: u8> std::ops::Add for Decimal<N> {
    type Output = Self;

    /// The exact sum; the sum must fit.
    fn add(self, rhs: Self) -> (r: Self) {
        Decimal(self.0 + rhs.0)
    }
}

impl<const N: u8> AddSpecImpl for Decimal<N> {
    open spec fn obeys_add_spec() -> bool {
        true
    }

    open spec fn add_req(self, rhs: Self) -> bool {
        cabe(self.0 + rhs.0)
    }

    open spec fn add_spec(self, rhs: Self) -> Self {
        Decimal((self.0 + rhs.0) as i64)
    }
}

impl<const N: u8> std::ops::Sub for Decimal<N> {
    type Output = Self;

    /// The exact difference; the difference must fit.
    fn sub(self, rhs: Self) -> (r: Self) {
        Decimal(self.0 - rhs.0)
    }
}

impl<const N: u8> SubSpecImpl for Decimal<N> {
    open spec fn obeys_sub_spec() -> bool {
        true
    }

    open spec fn sub_req(self, rhs: Self) -> bool {
        cabe(self.0 - rhs.0)
    }

    open spec fn sub_spec(self, rhs: Self) -> Self {
        Decimal((self.0 - rhs.0) as i64)
    }
}

impl<const N: u8> std::ops::AddAssign for Decimal<N> {
    fn add_assign(&mut self, rhs: Self)
        requires
            cabe(old(self).0 + rhs.0),
        ensures
            final(self).0 == old(self).0 + rhs.0,
    {
        self.0 = self.0 + rhs.0;
    }
}

impl<const N: u8> std::ops::SubAssign for Decimal<N> {
    fn sub_assign(&mut self, rhs: Self)
        requires
            cabe(old(self).0 - rhs.0),
        ensures
            final(self).0 == old(self).0 - rhs.0,
    {
        self.0 = self.0 - rhs.0;
    }
}

impl<const N: u8, const M: u8> std::ops::Mul<Decimal<M>> for Decimal<N> {
    type Output = Self;

    /// The product with an amount of `M` places, rounded to the nearest
    /// unit of 10^-N.
    fn mul(self, rhs: Decimal<M>) -> (r: Self) {
        let a: i128 = self.0 as i128;
        let b: i128 = rhs.0 as i128;
        assert(-0x4000_0000_0000_0000_0000_0000_0000_0000 <= a * b
            <= 0x4000_0000_0000_0000_0000_0000_0000_0000) by (nonlinear_arith)
            requires
                -0x8000_0000_0000_0000 <= a <= 0x8000_0000_0000_0000,
                -0x8000_0000_0000_0000 <= b <= 0x8000_0000_0000_0000,
        ;
        Decimal(saturar_i128(dividir_arredondando(a * b, dez_elevado(M))))
    }
}

impl<const N: u8, const M: u8> MulSpecImpl<Decimal<M>> for Decimal<N> {
    open spec fn obeys_mul_spec() -> bool {
        true
    }

    open spec fn mul_req(self, rhs: Decimal<M>) -> bool {
        M <= 18
    }

    open spec fn mul_spec(self, rhs: Decimal<M>) -> Self {
        self.vezes(rhs)
    }
}

impl<const N: u8> std::ops::Mul<Razao> for Decimal<N> {
    type Output = Self;

    /// The product with a ratio, rounded to the nearest unit.
    fn mul(self, rhs: Razao) -> (r: Self) {
        let a: i128 = self.0 as i128;
        let b: i128 = rhs.numerador as i128;
        assert(-0x4000_0000_0000_0000_0000_0000_0000_0000 <= a * b
            <= 0x4000_0000_0000_0000_0000_0000_0000_0000) by (nonlinear_arith)
            requires
                -0x8000_0000_0000_0000 <= a <= 0x8000_0000_0000_0000,
                -0x8000_0000_0000_0000 <= b <= 0x8000_0000_0000_0000,
        ;
        Decimal(saturar_i128(dividir_arredondando(a * b, rhs.denominador as i128)))
    }
}

impl<const N: u8> MulSpecImpl<Razao> for Decimal<N> {
    open spec fn obeys_mul_spec() -> bool {
        true
    }

    open spec fn mul_req(self, rhs: Razao) -> bool {
        rhs.denominador > 0
    }

    open spec fn mul_spec(self, rhs: Razao) -> Self {
        self.vezes_razao(rhs)
    }
}

impl<const N: u8, const M: u8> std::ops::Div<Decimal<M>> for Decimal<N> {
    type Output = Self;

    /// The quotient by an amount of `M` places, rounded toward negative
    /// infinity to a unit of 10^-N.
    fn div(self, rhs: Decimal<M>) -> (r: Self) {
        if rhs.0 == 0 {
            Decimal(quociente_por_zero_de(self.0))
        } else {
            let a: i128 = self.0 as i128;
            let fator: i128 = dez_elevado(M);
            assert(-0x4000_0000_0000_0000_0000_0000_0000_0000 <= a * fator
                <= 0x4000_0000_0000_0000_0000_0000_0000_0000) by (nonlinear_arith)
                requires
                    -0x8000_0000_0000_0000 <= a <= 0x8000_0000_0000_0000,
                    1 <= fator <= 1_000_000_000_000_000_000,
            ;
            Decimal(saturar_i128(dividir_para_baixo(a * fator, rhs.0 as i128)))
        }
    }
}

impl<const N: u8, const M: u8> DivSpecImpl<Decimal<M>> for Decimal<N> {
    open spec fn obeys_div_spec() -> bool {
        true
    }

    open spec fn div_req(self, rhs: Decimal<M>) -> bool {
        M <= 18
    }

    open spec fn div_spec(self, rhs: Decimal<M>) -> Self {
        self.dividido(rhs)
    }
}

impl<const N: u8> std::ops::Div<i64> for Decimal<N> {
    type Output = Self;

    /// The quotient by a whole number, rounded toward negative infinity.
    fn div(self, rhs: i64) -> (r: Self) {
        if rhs == 0 {
            Decimal(quociente_por_zero_de(self.0))
        } else {
            Decimal(saturar_i128(dividir_para_baixo(self.0 as i128, rhs as i128)))
        }
    }
}

impl<const N: u8> DivSpecImpl<i64> for Decimal<N> {
    open spec fn obeys_div_spec() -> bool {
        true
    }

    open spec fn div_req(self, rhs: i64) -> bool {
        true
    }

    open spec fn div_spec(self, rhs: i64) -> Self {
        self.dividido_por(rhs)
    }
}

/// Rounding keeps the order: a larger numerator never rounds to less.
pub proof fn lema_arredondar_cresce(a: int, b: int, den: int)
    requires
        a <= b,
        den > 0,
    ensures
        arredondar(a, den) <= arredondar(b, den),
{
    lema_arredondar_mais_proximo(a, den);
    lema_arredondar_mais_proximo(b, den);
    let ra = arredondar(a, den);
    let rb = arredondar(b, den);
    if ra > rb {
        // Then a and b would both lie half a unit from ra and from rb,
        // on the far side of each: they would be one number.
        assert(2 * den * ra >= 2 * den * rb + 2 * den) by (nonlinear_arith)
            requires
                ra >= rb + 1,
                den > 0,
        ;
        assert(a == b);
    }
}

/// A product of two non-negative factors is not negative, rounded and
/// stopped at the ends of the range as it may be.
pub proof fn lema_produto_nao_negativo(a: int, num: int, den: int)
    requires
        a >= 0,
        num >= 0,
        den > 0,
    ensures
        saturar(arredondar(a * num, den)) >= 0,
{
    assert(a * num >= 0) by (nonlinear_arith)
        requires
            a >= 0,
            num >= 0,
    ;
    lema_arredondar_mais_proximo(a * num, den);
}

/// A product by a ratio between zero and one is not negative and not above
/// the amount multiplied, for an amount that is not negative.
pub proof fn lema_produto_por_fracao(a: int, num: int, den: int)
    requires
        a >= 0,
        0 <= num <= den,
        den > 0,
        cabe(a),
    ensures
        0 <= saturar(arredondar(a * num, den)) <= a,
{
    lema_produto_nao_negativo(a, num, den);
    lema_arredondar_mais_proximo(a * num, den);
    let r = arredondar(a * num, den);
    assert(a * num <= a * den) by (nonlinear_arith)
        requires
            a >= 0,
            0 <= num <= den,
    ;
    assert(r <= a) by (nonlinear_arith)
        requires
            2 * den * r - 2 * (a * num) <= den,
            a * num <= a * den,
            den > 0,
    ;
}

impl<const N: u8> std::ops::DivAssign<i64> for Decimal<N> {
    fn div_assign(&mut self, rhs: i64)
        ensures
            *final(self) == old(self).dividido_por(rhs),
    {
        *self = *self / rhs;
    }
}

/// Adding an amount and taking it away again gives back the first amount,
/// whenever the sum fits.
pub proof fn lema_soma_e_subtracao_exatas<const N: u8>(a: Decimal<N>, b: Decimal<N>)
    requires
        AddSpec::add_req(a, b),
    ensures
        SubSpec::sub_req(AddSpec::add_spec(a, b), b),
        SubSpec::sub_spec(AddSpec::add_spec(a, b), b) == a,
{
}

} // verus!
