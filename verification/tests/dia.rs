use chrono::Datelike;
use chrono::NaiveDate;
use tesouro_direto::dia::Dia;
use tesouro_direto::dia::Duracao;

fn dia_de(ano: i32, mes: u32, dia: u32) -> Dia {
    Dia::new(NaiveDate::from_ymd_opt(ano, mes, dia).unwrap().num_days_from_ce())
}

#[test]
fn dias_entre_dois_dias() {
    let a = dia_de(2020, 1, 1);
    let b = dia_de(2020, 3, 1);
    assert_eq!(b.dias_desde(a), 60);
    assert_eq!(a.dias_desde(b), -60);
    assert_eq!(a.dias_desde(a), 0);
    assert_eq!(Dia::new(i32::MAX).dias_desde(Dia::new(i32::MIN)), 4294967295);
}

#[test]
fn dia_mais_dias() {
    let a = dia_de(2020, 1, 1);
    assert_eq!(a.mais_dias(30), Some(dia_de(2020, 1, 31)));
    assert_eq!(a.mais_dias(-1), Some(dia_de(2019, 12, 31)));
    assert_eq!(a.mais_dias(0), Some(a));
    assert_eq!(Dia::new(i32::MAX).mais_dias(1), None);
    assert_eq!(Dia::new(i32::MIN).mais_dias(-1), None);
    assert_eq!(Dia::new(0).mais_dias(i64::MAX), None);
    assert_eq!(Dia::new(i32::MIN).mais_dias(4294967295), Some(Dia::new(i32::MAX)));
}

#[test]
fn maior_e_menor_dia() {
    let a = Dia::new(10);
    let b = Dia::new(20);
    assert_eq!(a.max(b), b);
    assert_eq!(b.max(a), b);
    assert_eq!(a.min(b), a);
    assert_eq!(b.min(a), a);
}

#[test]
fn dia_mais_meses_segue_o_calendario() {
    assert_eq!(dia_de(2022, 2, 20).mais_meses(6), Some(dia_de(2022, 8, 20)));
    assert_eq!(dia_de(2022, 7, 31).mais_meses(2), Some(dia_de(2022, 9, 30)));
    assert_eq!(dia_de(2020, 1, 31).mais_meses(1), Some(dia_de(2020, 2, 29)));
    assert_eq!(dia_de(2020, 1, 15).mais_meses(0), Some(dia_de(2020, 1, 15)));
}

#[test]
fn dia_mais_meses_fora_do_calendario() {
    assert_eq!(Dia::new(i32::MAX).mais_meses(1), None);
    assert_eq!(dia_de(2020, 1, 1).mais_meses(u32::MAX), None);
}

#[test]
fn duracao_em_texto() {
    assert_eq!(Duracao::new(30).texto(), "PT2592000S");
    assert_eq!(Duracao::new(0).texto(), "P0D");
    assert_eq!(Duracao::new(-1).texto(), "-PT86400S");
    assert_eq!(Duracao::new(i64::MAX).texto(), "");
}

#[test]
fn dia_do_calendario() {
    assert_eq!(Dia::from_ymd(1, 1, 1), Some(Dia::new(1)));
    assert_eq!(Dia::from_ymd(1970, 1, 1), Some(Dia::new(719163)));
    assert_eq!(Dia::from_ymd(2020, 2, 29), Some(dia_de(2020, 2, 29)));
    assert_eq!(Dia::from_ymd(2021, 2, 29), None);
    assert_eq!(Dia::from_ymd(2021, 13, 1), None);
    assert_eq!(Dia::from_ymd(2021, 0, 1), None);
    assert_eq!(Dia::from_ymd(2021, 1, 0), None);
    assert_eq!(Dia::from_ymd(400000, 1, 1), None);
}

#[test]
fn primeiro_dia_do_mes_escrito() {
    assert_eq!(Dia::primeiro_do_mes("201308"), Some(dia_de(2013, 8, 1)));
    assert_eq!(Dia::primeiro_do_mes("200001"), Some(dia_de(2000, 1, 1)));
    assert_eq!(Dia::primeiro_do_mes("210012"), Some(dia_de(2100, 12, 1)));
    assert_eq!(Dia::primeiro_do_mes("000101"), Some(dia_de(1, 1, 1)));
    assert_eq!(Dia::primeiro_do_mes("201313"), None);
    assert_eq!(Dia::primeiro_do_mes("201300"), None);
    assert_eq!(Dia::primeiro_do_mes("20130"), None);
    assert_eq!(Dia::primeiro_do_mes("2013080"), None);
    assert_eq!(Dia::primeiro_do_mes("2013-8"), None);
    assert_eq!(Dia::primeiro_do_mes("+20108"), None);
    assert_eq!(Dia::primeiro_do_mes("2013 8"), None);
    assert_eq!(Dia::primeiro_do_mes(""), None);
    assert_eq!(Dia::primeiro_do_mes("2013é"), None);
}
