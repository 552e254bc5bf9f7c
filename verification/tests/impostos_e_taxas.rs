use tesouro_direto::decimal::Decimal;
use tesouro_direto::decimal::Razao;
use tesouro_direto::dia::Dia;
use tesouro_direto::impostos_e_taxas::aliquota_imposto_operacao_financeira;
use tesouro_direto::impostos_e_taxas::aliquota_imposto_renda;
use tesouro_direto::impostos_e_taxas::aliquota_taxa_custodia;
use tesouro_direto::impostos_e_taxas::ImpostosETaxas;
use tesouro_direto::impostos_e_taxas::SaldoAtivo;
use tesouro_direto::quantidade_ou_valor::QuantidadeOuValor;

fn lote(dia: i32, preco: i64, quantidade: i64) -> SaldoAtivo {
    SaldoAtivo { dia: Dia::new(dia), preco_original: Decimal(preco), quantidade: Decimal(quantidade) }
}

#[test]
fn aliquota_do_imposto_sobre_operacoes() {
    assert_eq!(aliquota_imposto_operacao_financeira(0), Razao { numerador: 100, denominador: 100 });
    assert_eq!(aliquota_imposto_operacao_financeira(1), Razao { numerador: 96, denominador: 100 });
    assert_eq!(aliquota_imposto_operacao_financeira(27), Razao { numerador: 10, denominador: 100 });
    assert_eq!(aliquota_imposto_operacao_financeira(28), Razao { numerador: 60, denominador: 100 });
    assert_eq!(aliquota_imposto_operacao_financeira(29), Razao { numerador: 30, denominador: 100 });
    assert_eq!(aliquota_imposto_operacao_financeira(30), Razao { numerador: 0, denominador: 100 });
    assert_eq!(aliquota_imposto_operacao_financeira(i64::MAX).numerador, 0);
}

#[test]
fn aliquota_do_imposto_de_renda() {
    assert_eq!(aliquota_imposto_renda(0), Razao { numerador: 225, denominador: 1000 });
    assert_eq!(aliquota_imposto_renda(180), Razao { numerador: 225, denominador: 1000 });
    assert_eq!(aliquota_imposto_renda(181), Razao { numerador: 200, denominador: 1000 });
    assert_eq!(aliquota_imposto_renda(360), Razao { numerador: 200, denominador: 1000 });
    assert_eq!(aliquota_imposto_renda(361), Razao { numerador: 175, denominador: 1000 });
    assert_eq!(aliquota_imposto_renda(720), Razao { numerador: 175, denominador: 1000 });
    assert_eq!(aliquota_imposto_renda(721), Razao { numerador: 150, denominador: 1000 });
    assert_eq!(aliquota_imposto_renda(-5), Razao { numerador: 225, denominador: 1000 });
}

#[test]
fn aliquota_da_taxa_de_custodia() {
    // 0.002 a year: 365 days give 365 / 182500 = 0.002
    assert_eq!(aliquota_taxa_custodia(365), Razao { numerador: 365, denominador: 182500 });
    assert_eq!((Decimal::<2>(100000) * aliquota_taxa_custodia(365)).0, 200);
    assert_eq!(aliquota_taxa_custodia(0).numerador, 0);
}

#[test]
fn impostos_de_um_resgate_de_dez_dias() {
    // 1000.00 bonds bought at 100.00 and sold at 110.00 ten days later
    let r = ImpostosETaxas::calcular_para_resgaste(
        &[lote(0, 10000, 100000)],
        Decimal(11000),
        Dia::new(10),
    );
    assert_eq!(r.imposto_operacao_financeira.0, 660000);
    assert_eq!(r.imposto_renda.0, 76500);
    assert_eq!(r.taxa_custodia.0, 548);
    assert_eq!(r.total().0, 737048);
}

#[test]
fn impostos_de_um_resgate_de_mais_de_um_ano() {
    let r = ImpostosETaxas::calcular_para_resgaste(
        &[lote(0, 10000, 100000)],
        Decimal(11000),
        Dia::new(400),
    );
    assert_eq!(r.imposto_operacao_financeira.0, 0);
    assert_eq!(r.imposto_renda.0, 175000);
    assert_eq!(r.taxa_custodia.0, 21918);
}

#[test]
fn resgate_com_prejuizo_so_paga_custodia() {
    let r = ImpostosETaxas::calcular_para_resgaste(
        &[lote(0, 10000, 100000)],
        Decimal(9000),
        Dia::new(400),
    );
    assert_eq!(r.imposto_operacao_financeira.0, 0);
    assert_eq!(r.imposto_renda.0, 0);
    assert_eq!(r.taxa_custodia.0, 21918);
}

#[test]
fn imposto_de_renda_desconta_o_iof_acumulado() {
    // two lots: the income tax of the second falls on its gain less the tax
    // on financial operations of both
    let r = ImpostosETaxas::calcular_para_resgaste(
        &[lote(0, 10000, 50000), lote(5, 10500, 50000)],
        Decimal(11000),
        Dia::new(10),
    );
    assert_eq!(r.imposto_operacao_financeira.0, 537500);
    assert_eq!(r.imposto_renda.0, -26438);
    assert_eq!(r.taxa_custodia.0, 418);
}

#[test]
fn imposto_de_renda_pode_ficar_negativo() {
    let r = ImpostosETaxas::calcular_para_resgaste(
        &[lote(0, 10000, 10000), lote(0, 10000, 1000)],
        Decimal(11000),
        Dia::new(0),
    );
    assert_eq!(r.imposto_operacao_financeira.0, 110000);
    assert_eq!(r.imposto_renda.0, -22500);
    assert_eq!(r.taxa_custodia.0, 0);
}

#[test]
fn impostos_nao_negativos_com_lotes_antigos() {
    let r = ImpostosETaxas::calcular_para_resgaste(
        &[lote(0, 10000, 50000), lote(100, 10500, 50000), lote(300, 12000, 100)],
        Decimal(11000),
        Dia::new(400),
    );
    assert!(r.imposto_operacao_financeira.0 >= 0);
    assert!(r.imposto_renda.0 >= 0);
    assert!(r.taxa_custodia.0 >= 0);
    assert_eq!(r.imposto_operacao_financeira.0, 0);
}

#[test]
fn resgate_sem_lotes() {
    let r = ImpostosETaxas::calcular_para_resgaste(&[], Decimal(11000), Dia::new(400));
    assert_eq!(r.total().0, 0);
}

#[test]
fn imposto_de_um_cupom() {
    // 25.000000 a bond on 1000.00 bonds held 200 days and 500.00 held 100 days
    let r = ImpostosETaxas::calcular_para_cupom(
        &[lote(0, 10000, 100000), lote(100, 10000, 50000)],
        Decimal(25000000),
        Dia::new(200),
    );
    assert_eq!(r.imposto_operacao_financeira.0, 0);
    assert_eq!(r.taxa_custodia.0, 0);
    // 25000.00 x 0.20 + 12500.00 x 0.225
    assert_eq!(r.imposto_renda.0, 781250);
    assert_eq!(r.total().0, 781250);
}

#[test]
fn impostos_zero() {
    let z = ImpostosETaxas::zero();
    assert_eq!(z.imposto_operacao_financeira.0, 0);
    assert_eq!(z.imposto_renda.0, 0);
    assert_eq!(z.taxa_custodia.0, 0);
    assert_eq!(z.total().0, 0);
}

#[test]
fn total_satura() {
    let r = ImpostosETaxas {
        imposto_operacao_financeira: Decimal(i64::MAX),
        imposto_renda: Decimal(i64::MAX),
        taxa_custodia: Decimal(-5),
    };
    assert_eq!(r.total().0, i64::MAX);
    let s = ImpostosETaxas {
        imposto_operacao_financeira: Decimal(i64::MAX),
        imposto_renda: Decimal(5),
        taxa_custodia: Decimal(-5),
    };
    assert_eq!(s.total().0, i64::MAX);
    let t = ImpostosETaxas {
        imposto_operacao_financeira: Decimal(1),
        imposto_renda: Decimal(2),
        taxa_custodia: Decimal(3),
    };
    assert_eq!(t.total().0, 6);
}

#[test]
fn lote_com_outra_quantidade() {
    let l = lote(7, 10000, 500).com_quantidade(Decimal(125));
    assert_eq!(l.dia, Dia::new(7));
    assert_eq!(l.preco_original.0, 10000);
    assert_eq!(l.quantidade.0, 125);
}

#[test]
fn pedido_por_quantidade() {
    let (q, v) = QuantidadeOuValor::Quantidade(Decimal(33333)).quantidade_e_valor(Decimal::<2>(10000));
    assert_eq!(q.0, 33333);
    assert_eq!(v.0, 3333300);
}

#[test]
fn pedido_por_valor_nunca_passa_do_valor() {
    // 1000.00 at 3.00 a bond: 333.33 bonds, worth 999.99
    let (q, v) = QuantidadeOuValor::Valor(Decimal(100000)).quantidade_e_valor(Decimal::<2>(300));
    assert_eq!(q.0, 33333);
    assert_eq!(v.0, 99999);
    // at a price with six places
    let (q, v) = QuantidadeOuValor::Valor(Decimal(100000)).quantidade_e_valor(Decimal::<6>(3000000));
    assert_eq!(q.0, 33333);
    assert_eq!(v.0, 99999);
    // 10.00 at 0.07: 142.85 bonds, worth 10.00 rounded from 9.9995
    let (q, v) = QuantidadeOuValor::Valor(Decimal(1000)).quantidade_e_valor(Decimal::<2>(7));
    assert_eq!(q.0, 14285);
    assert_eq!(v.0, 1000);
}
