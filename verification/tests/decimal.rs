use tesouro_direto::decimal::Decimal;
use tesouro_direto::decimal::Razao;

#[test]
fn soma_e_subtracao_sao_exatas() {
    let a: Decimal<2> = Decimal(12345);
    let b: Decimal<2> = Decimal(-678);
    assert_eq!(((a + b) - b).0, 12345);
    let c: Decimal<6> = Decimal(i64::MAX - 10);
    let d: Decimal<6> = Decimal(10);
    assert_eq!(((c + d) - d).0, i64::MAX - 10);
}

#[test]
fn zero_e_zero() {
    assert_eq!(Decimal::<2>::zero().0, 0);
    assert_eq!(Decimal::<6>::zero(), Decimal::<6>(0));
}

#[test]
fn atribuicao_com_soma_e_subtracao() {
    let mut a: Decimal<2> = Decimal(100);
    a += Decimal(50);
    assert_eq!(a.0, 150);
    a -= Decimal(175);
    assert_eq!(a.0, -25);
    a /= 2;
    assert_eq!(a.0, -13);
    a /= 0;
    assert_eq!(a.0, i64::MIN);
}

#[test]
fn soma_verificada_acusa_estouro() {
    let a: Decimal<2> = Decimal(i64::MAX);
    assert_eq!(a.checked_add(Decimal(1)), None);
    assert_eq!(a.checked_add(Decimal(-1)), Some(Decimal(i64::MAX - 1)));
    let b: Decimal<2> = Decimal(i64::MIN);
    assert_eq!(b.checked_sub(Decimal(1)), None);
    assert_eq!(b.checked_sub(Decimal(-1)), Some(Decimal(i64::MIN + 1)));
}

#[test]
fn soma_saturada_para_nos_limites() {
    let a: Decimal<2> = Decimal(i64::MAX);
    assert_eq!(a.saturating_add(Decimal(1)).0, i64::MAX);
    assert_eq!(a.saturating_add(Decimal(-1)).0, i64::MAX - 1);
    let b: Decimal<2> = Decimal(i64::MIN);
    assert_eq!(b.saturating_sub(Decimal(1)).0, i64::MIN);
    assert_eq!(Decimal::<2>(5).saturating_sub(Decimal(7)).0, -2);
}

#[test]
fn produto_arredonda_para_o_mais_proximo() {
    let quantidade: Decimal<2> = Decimal(10000);
    let preco: Decimal<2> = Decimal(250);
    assert_eq!((quantidade * preco).0, 25000);
    // 0.05 x 0.10 = 0.005, halfway: away from zero
    assert_eq!((Decimal::<2>(5) * Decimal::<2>(10)).0, 1);
    assert_eq!((Decimal::<2>(-5) * Decimal::<2>(10)).0, -1);
    // 0.03 x 0.10 = 0.003 rounds down; 0.07 x 0.10 = 0.007 rounds up
    assert_eq!((Decimal::<2>(3) * Decimal::<2>(10)).0, 0);
    assert_eq!((Decimal::<2>(7) * Decimal::<2>(10)).0, 1);
    assert_eq!((Decimal::<2>(-7) * Decimal::<2>(10)).0, -1);
}

#[test]
fn produto_entre_escalas_diferentes() {
    // 1000.00 x 25.000000
    let saldo: Decimal<2> = Decimal(100000);
    let cupom: Decimal<6> = Decimal(25000000);
    assert_eq!((saldo * cupom).0, 2500000);
    // the result keeps the places of the left side
    let r: Decimal<6> = cupom * saldo;
    assert_eq!(r.0, 25000000000);
}

#[test]
fn produto_satura() {
    let a: Decimal<2> = Decimal(i64::MAX);
    assert_eq!((a * Decimal::<2>(200)).0, i64::MAX);
    assert_eq!((a * Decimal::<2>(-200)).0, i64::MIN);
    assert_eq!((a * Decimal::<2>(100)).0, i64::MAX);
}

#[test]
fn produto_por_razao() {
    let a: Decimal<2> = Decimal(1000000);
    assert_eq!((a * Razao { numerador: 225, denominador: 1000 }).0, 225000);
    assert_eq!((Decimal::<2>(10) * Razao { numerador: 1, denominador: 4 }).0, 3);
    assert_eq!((Decimal::<2>(-10) * Razao { numerador: 1, denominador: 4 }).0, -3);
    assert_eq!((Decimal::<2>(10) * Razao { numerador: 1, denominador: 3 }).0, 3);
    assert_eq!((Decimal::<2>(10) * Razao { numerador: -2, denominador: 3 }).0, -7);
}

#[test]
fn quociente_arredonda_para_baixo() {
    // 100.00 / 3.00 = 33.33
    assert_eq!((Decimal::<2>(10000) / Decimal::<2>(300)).0, 3333);
    // -100.00 / 3.00 = -33.34
    assert_eq!((Decimal::<2>(-10000) / Decimal::<2>(300)).0, -3334);
    assert_eq!((Decimal::<2>(10000) / Decimal::<2>(-300)).0, -3334);
    assert_eq!((Decimal::<2>(-10000) / Decimal::<2>(-300)).0, 3333);
    // by a price with six places
    assert_eq!((Decimal::<2>(10000) / Decimal::<6>(3000000)).0, 3333);
}

#[test]
fn quociente_por_zero() {
    assert_eq!((Decimal::<2>(1) / Decimal::<2>(0)).0, i64::MAX);
    assert_eq!((Decimal::<2>(-1) / Decimal::<2>(0)).0, i64::MIN);
    assert_eq!((Decimal::<2>(0) / Decimal::<2>(0)).0, 0);
    assert_eq!((Decimal::<2>(1) / 0).0, i64::MAX);
    assert_eq!((Decimal::<2>(-1) / 0).0, i64::MIN);
    assert_eq!((Decimal::<2>(0) / 0).0, 0);
}

#[test]
fn quociente_por_inteiro() {
    assert_eq!((Decimal::<2>(100000) / 3).0, 33333);
    assert_eq!((Decimal::<2>(66667) / 2).0, 33333);
    assert_eq!((Decimal::<2>(33334) / 1).0, 33334);
    assert_eq!((Decimal::<2>(-7) / 2).0, -4);
    assert_eq!((Decimal::<2>(7) / -2).0, -4);
    assert_eq!((Decimal::<2>(i64::MIN) / -1).0, i64::MAX);
}

#[test]
fn quociente_satura() {
    assert_eq!((Decimal::<2>(i64::MAX) / Decimal::<2>(1)).0, i64::MAX);
    assert_eq!((Decimal::<2>(i64::MIN) / Decimal::<2>(1)).0, i64::MIN);
}

#[test]
fn as_decimal_acrescenta_casas_sem_perda() {
    let preco: Decimal<2> = Decimal(12345);
    let r: Decimal<6> = preco.as_decimal();
    assert_eq!(r.0, 123450000);
    let mesmo: Decimal<2> = preco.as_decimal();
    assert_eq!(mesmo.0, 12345);
}

#[test]
fn as_decimal_arredonda_ao_tirar_casas() {
    let a: Decimal<6> = Decimal(1234567);
    let r: Decimal<2> = a.as_decimal();
    assert_eq!(r.0, 123);
    let b: Decimal<6> = Decimal(1235000);
    let r: Decimal<2> = b.as_decimal();
    assert_eq!(r.0, 124);
    let c: Decimal<6> = Decimal(-1235000);
    let r: Decimal<2> = c.as_decimal();
    assert_eq!(r.0, -124);
    let d: Decimal<6> = Decimal(-1234999);
    let r: Decimal<2> = d.as_decimal();
    assert_eq!(r.0, -123);
}

#[test]
fn as_decimal_satura() {
    let a: Decimal<2> = Decimal(i64::MAX / 100);
    let r: Decimal<6> = a.as_decimal();
    assert_eq!(r.0, i64::MAX);
    let b: Decimal<2> = Decimal(i64::MIN / 100);
    let r: Decimal<6> = b.as_decimal();
    assert_eq!(r.0, i64::MIN);
}

#[test]
fn ponto_medio_fica_entre_os_dois() {
    assert_eq!(Decimal::<2>(0).ponto_medio(Decimal(10)).0, 5);
    assert_eq!(Decimal::<2>(0).ponto_medio(Decimal(11)).0, 5);
    assert_eq!(Decimal::<2>(10).ponto_medio(Decimal(11)).0, 10);
    assert_eq!(Decimal::<2>(0).ponto_medio(Decimal(-11)).0, -6);
    assert_eq!(Decimal::<2>(i64::MAX).ponto_medio(Decimal(i64::MAX)).0, i64::MAX);
    assert_eq!(Decimal::<2>(i64::MIN).ponto_medio(Decimal(i64::MAX)).0, -1);
}

#[test]
fn ordem_e_igualdade_pelo_inteiro() {
    let a: Decimal<2> = Decimal(100);
    let b: Decimal<2> = Decimal(200);
    assert!(a < b);
    assert!(b > a);
    assert!(a <= a);
    assert!(a == Decimal(100));
    assert!(a != b);
    assert_eq!(a.max(b), b);
    assert_eq!(a.min(b), a);
    assert_eq!(a.partial_cmp(&b), Some(std::cmp::Ordering::Less));
    assert_eq!(b.cmp(&a), std::cmp::Ordering::Greater);
}
