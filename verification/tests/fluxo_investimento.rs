use tesouro_direto::decimal::Decimal;
use tesouro_direto::dia::Dia;
use tesouro_direto::erro::Erro;
use tesouro_direto::fluxo_investimento::FluxoInvestimento;
use tesouro_direto::fluxo_investimento::TipoEvento;
use tesouro_direto::impostos_e_taxas::ImpostosETaxas;
use tesouro_direto::impostos_e_taxas::SaldoAtivo;
use tesouro_direto::quantidade_ou_valor::QuantidadeOuValor;
use tesouro_direto::tipo_titulo::TipoTitulo;
use tesouro_direto::titulo::Titulo;
use tesouro_direto::titulo::TituloBuilder;

fn titulo(tipo: TipoTitulo, precos: &[(i32, i64)], cupons: &[(i32, i64)]) -> Titulo {
    let mut b = TituloBuilder::new(tipo, Dia::new(100000));
    for &(dia, preco) in precos {
        b.adicionar_preco_compra(Dia::new(dia), Decimal(preco));
        b.adicionar_preco_venda(Dia::new(dia), Decimal(preco));
    }
    for &(dia, cupom) in cupons {
        b.adicionar_cupom(Dia::new(dia), Decimal(cupom));
    }
    b.build()
}

fn quantidade(q: i64) -> QuantidadeOuValor {
    QuantidadeOuValor::Quantidade(Decimal(q))
}

fn valor(v: i64) -> QuantidadeOuValor {
    QuantidadeOuValor::Valor(Decimal(v))
}

fn lote(dia: i32, preco: i64, quantidade: i64) -> SaldoAtivo {
    SaldoAtivo { dia: Dia::new(dia), preco_original: Decimal(preco), quantidade: Decimal(quantidade) }
}

fn soma_dos_lotes(fluxo: &FluxoInvestimento) -> i64 {
    fluxo.lotes().iter().map(|l| l.quantidade.0).sum()
}

#[test]
fn fluxo_novo_esta_vazio() {
    let t = titulo(TipoTitulo::Selic, &[(0, 10000)], &[]);
    let f = FluxoInvestimento::new(&t);
    assert_eq!(f.saldo_quantidade().0, 0);
    assert_eq!(f.ultimo_dia(), None);
    assert!(f.eventos().is_empty());
    assert!(f.lotes().is_empty());
}

#[test]
fn compra_por_valor() {
    let t = titulo(TipoTitulo::Selic, &[(0, 10000), (10, 11000)], &[]);
    let mut f = FluxoInvestimento::new(&t);
    assert_eq!(f.comprar_a_partir_de(Dia::new(0), valor(10000000)), Ok(()));
    assert_eq!(f.saldo_quantidade().0, 100000);
    assert_eq!(f.ultimo_dia(), Some(Dia::new(0)));
    assert_eq!(f.lotes(), vec![lote(0, 10000, 100000)]);
    let eventos = f.eventos();
    assert_eq!(eventos.len(), 1);
    let e = eventos[0];
    assert_eq!(e.dia, Dia::new(0));
    assert_eq!(e.tipo, TipoEvento::Compra);
    assert_eq!(e.valor_bruto.0, 10000000);
    assert_eq!(e.quantidade.0, 100000);
    assert_eq!(e.preco.0, 100000000);
    assert_eq!(e.saldo_quantidade.0, 100000);
    assert_eq!(e.impostos_e_taxas, ImpostosETaxas::zero());
    assert_eq!(e.valor_liquido.0, 10000000);
}

#[test]
fn compra_usa_o_primeiro_dia_com_preco() {
    let t = titulo(TipoTitulo::Selic, &[(0, 10000), (10, 11000)], &[]);
    let mut f = FluxoInvestimento::new(&t);
    assert_eq!(f.comprar_a_partir_de(Dia::new(3), quantidade(100)), Ok(()));
    assert_eq!(f.ultimo_dia(), Some(Dia::new(10)));
    assert_eq!(f.lotes(), vec![lote(10, 11000, 100)]);
    assert_eq!(f.eventos()[0].dia, Dia::new(10));
    assert_eq!(f.eventos()[0].valor_bruto.0, 11000);
}

#[test]
fn venda_parcial_de_um_lote() {
    let t = titulo(TipoTitulo::Selic, &[(0, 10000), (10, 11000)], &[]);
    let mut f = FluxoInvestimento::new(&t);
    f.comprar_a_partir_de(Dia::new(0), valor(10000000)).unwrap();
    assert_eq!(f.vender_a_partir_de(Dia::new(5), quantidade(40000)), Ok(()));
    assert_eq!(f.saldo_quantidade().0, 60000);
    assert_eq!(f.ultimo_dia(), Some(Dia::new(10)));
    assert_eq!(f.lotes(), vec![lote(0, 10000, 60000)]);
    let eventos = f.eventos();
    assert_eq!(eventos.len(), 2);
    let e = eventos[1];
    assert_eq!(e.dia, Dia::new(10));
    assert_eq!(e.tipo, TipoEvento::Venda);
    assert_eq!(e.valor_bruto.0, 4400000);
    assert_eq!(e.quantidade.0, 40000);
    assert_eq!(e.preco.0, 110000000);
    assert_eq!(e.saldo_quantidade.0, 60000);
    assert_eq!(e.impostos_e_taxas.imposto_operacao_financeira.0, 264000);
    assert_eq!(e.impostos_e_taxas.imposto_renda.0, 30600);
    assert_eq!(e.impostos_e_taxas.taxa_custodia.0, 219);
    assert_eq!(e.valor_liquido.0, 4400000 - 264000 - 30600 - 219);
}

#[test]
fn venda_consome_o_lote_mais_antigo_primeiro() {
    let t = titulo(TipoTitulo::Selic, &[(0, 10000), (10, 10500), (20, 11000)], &[]);
    let mut f = FluxoInvestimento::new(&t);
    f.comprar_a_partir_de(Dia::new(0), quantidade(1000)).unwrap();
    f.comprar_a_partir_de(Dia::new(10), quantidade(2000)).unwrap();
    // the newest lot comes first
    assert_eq!(f.lotes(), vec![lote(10, 10500, 2000), lote(0, 10000, 1000)]);
    f.vender_a_partir_de(Dia::new(20), quantidade(1500)).unwrap();
    // the lot of day 0 is gone whole, the lot of day 10 gave up 5.00
    assert_eq!(f.lotes(), vec![lote(10, 10500, 1500)]);
    assert_eq!(f.saldo_quantidade().0, 1500);
    let e = f.eventos()[2];
    assert_eq!(e.valor_bruto.0, 165000);
    assert_eq!(e.impostos_e_taxas.imposto_operacao_financeira.0, 4950);
    assert_eq!(e.impostos_e_taxas.imposto_renda.0, 957);
    assert_eq!(e.impostos_e_taxas.taxa_custodia.0, 14);
    assert_eq!(e.valor_liquido.0, 165000 - 4950 - 957 - 14);
}

#[test]
fn venda_de_um_lote_inteiro_nao_toca_o_mais_novo() {
    let t = titulo(TipoTitulo::Selic, &[(0, 10000), (10, 10500), (20, 11000)], &[]);
    let mut f = FluxoInvestimento::new(&t);
    f.comprar_a_partir_de(Dia::new(0), quantidade(1000)).unwrap();
    f.comprar_a_partir_de(Dia::new(10), quantidade(2000)).unwrap();
    f.vender_a_partir_de(Dia::new(20), quantidade(1000)).unwrap();
    assert_eq!(f.lotes(), vec![lote(10, 10500, 2000)]);
    f.vender_a_partir_de(Dia::new(20), quantidade(2000)).unwrap();
    assert!(f.lotes().is_empty());
    assert_eq!(f.saldo_quantidade().0, 0);
}

#[test]
fn lotes_somam_o_saldo_depois_de_cada_operacao() {
    let t = titulo(TipoTitulo::Selic, &[(0, 10000), (10, 10500), (20, 11000), (30, 9000)], &[]);
    let mut f = FluxoInvestimento::new(&t);
    assert_eq!(soma_dos_lotes(&f), f.saldo_quantidade().0);
    f.comprar_a_partir_de(Dia::new(0), valor(1234567)).unwrap();
    assert_eq!(soma_dos_lotes(&f), f.saldo_quantidade().0);
    f.comprar_a_partir_de(Dia::new(10), quantidade(777)).unwrap();
    assert_eq!(soma_dos_lotes(&f), f.saldo_quantidade().0);
    f.vender_a_partir_de(Dia::new(20), valor(1000000)).unwrap();
    assert_eq!(soma_dos_lotes(&f), f.saldo_quantidade().0);
    f.vender_a_partir_de(Dia::new(20), quantidade(0)).unwrap();
    assert_eq!(soma_dos_lotes(&f), f.saldo_quantidade().0);
    f.comprar_a_partir_de(Dia::new(30), quantidade(5)).unwrap();
    assert_eq!(soma_dos_lotes(&f), f.saldo_quantidade().0);
    let tudo = f.saldo_quantidade();
    f.vender_a_partir_de(Dia::new(30), QuantidadeOuValor::Quantidade(tudo)).unwrap();
    assert_eq!(soma_dos_lotes(&f), 0);
    assert_eq!(f.saldo_quantidade().0, 0);
}

#[test]
fn operacao_antes_do_ultimo_dia_e_recusada() {
    let t = titulo(TipoTitulo::Selic, &[(0, 10000), (10, 10500), (20, 11000)], &[]);
    let mut f = FluxoInvestimento::new(&t);
    f.comprar_a_partir_de(Dia::new(10), quantidade(1000)).unwrap();
    assert_eq!(f.comprar_a_partir_de(Dia::new(9), quantidade(1000)), Err(Erro::DiaForaDeOrdem));
    assert_eq!(f.vender_a_partir_de(Dia::new(9), quantidade(1000)), Err(Erro::DiaForaDeOrdem));
    assert_eq!(f.vender_a_partir_de(Dia::new(0), quantidade(0)), Err(Erro::DiaForaDeOrdem));
    // nothing changed
    assert_eq!(f.saldo_quantidade().0, 1000);
    assert_eq!(f.ultimo_dia(), Some(Dia::new(10)));
    assert_eq!(f.eventos().len(), 1);
    assert_eq!(f.lotes(), vec![lote(10, 10500, 1000)]);
    // the same day is not before
    assert_eq!(f.vender_a_partir_de(Dia::new(10), quantidade(1000)), Ok(()));
}

#[test]
fn sem_preco_a_partir_do_dia() {
    let t = titulo(TipoTitulo::Selic, &[(0, 10000), (10, 10500)], &[]);
    let mut f = FluxoInvestimento::new(&t);
    assert_eq!(f.comprar_a_partir_de(Dia::new(11), quantidade(1000)), Err(Erro::PrecoIndisponivel));
    assert_eq!(f.ultimo_dia(), None);
    f.comprar_a_partir_de(Dia::new(0), quantidade(1000)).unwrap();
    assert_eq!(f.vender_a_partir_de(Dia::new(11), quantidade(1000)), Err(Erro::PrecoIndisponivel));
    assert_eq!(f.ultimo_dia(), Some(Dia::new(0)));
    assert_eq!(f.eventos().len(), 1);
}

#[test]
fn venda_maior_que_o_saldo() {
    let t = titulo(
        TipoTitulo::IpcaComJurosSemestrais,
        &[(0, 10000), (10, 10500), (60, 10500)],
        &[(50, 2500000)],
    );
    let mut f = FluxoInvestimento::new(&t);
    f.comprar_a_partir_de(Dia::new(0), quantidade(100000)).unwrap();
    assert_eq!(f.vender_a_partir_de(Dia::new(60), quantidade(100001)), Err(Erro::SaldoInsuficiente));
    // the coupon through the day of the sale was paid all the same
    assert_eq!(f.ultimo_dia(), Some(Dia::new(60)));
    assert_eq!(f.eventos().len(), 2);
    assert_eq!(f.eventos()[1].tipo, TipoEvento::Cupom);
    assert_eq!(f.saldo_quantidade().0, 100000);
    assert_eq!(f.lotes(), vec![lote(0, 10000, 100000)]);
}

#[test]
fn saldo_fora_dos_limites() {
    let t = titulo(TipoTitulo::Selic, &[(0, 10000)], &[]);
    let mut f = FluxoInvestimento::new(&t);
    f.comprar_a_partir_de(Dia::new(0), quantidade(i64::MAX)).unwrap();
    assert_eq!(
        f.comprar_a_partir_de(Dia::new(0), quantidade(1)),
        Err(Erro::QuantidadeForaDosLimites)
    );
    assert_eq!(f.saldo_quantidade().0, i64::MAX);
    assert_eq!(f.eventos().len(), 1);
    assert_eq!(
        f.vender_a_partir_de(Dia::new(0), quantidade(-1)),
        Err(Erro::QuantidadeForaDosLimites)
    );
    assert_eq!(f.saldo_quantidade().0, i64::MAX);
    assert_eq!(f.eventos().len(), 1);
}

#[test]
fn venda_de_quantidade_negativa_desfaz_a_soma_dos_lotes() {
    let t = titulo(TipoTitulo::Selic, &[(0, 10000)], &[]);
    let mut f = FluxoInvestimento::new(&t);
    f.comprar_a_partir_de(Dia::new(0), quantidade(1000)).unwrap();
    assert_eq!(f.vender_a_partir_de(Dia::new(0), quantidade(-500)), Ok(()));
    assert_eq!(f.saldo_quantidade().0, 1500);
    assert_eq!(f.lotes(), vec![lote(0, 10000, 1000)]);
    // the lots now fall short of the balance
    assert_eq!(f.vender_a_partir_de(Dia::new(0), quantidade(1200)), Err(Erro::SaldoInconsistente));
    assert_eq!(f.saldo_quantidade().0, 300);
    assert!(f.lotes().is_empty());
    assert_eq!(f.eventos().len(), 2);
}

#[test]
fn cupons_entram_no_livro() {
    let t = titulo(
        TipoTitulo::IpcaComJurosSemestrais,
        &[(0, 10000), (10, 10500), (60, 10500)],
        &[(50, 2500000), (0, 1000000), (230, 2500000)],
    );
    let mut f = FluxoInvestimento::new(&t);
    f.comprar_a_partir_de(Dia::new(0), quantidade(100000)).unwrap();
    f.ganhar_cupons(Dia::new(60));
    assert_eq!(f.ultimo_dia(), Some(Dia::new(60)));
    assert_eq!(f.saldo_quantidade().0, 100000);
    assert_eq!(f.lotes(), vec![lote(0, 10000, 100000)]);
    let eventos = f.eventos();
    // the coupon of day 0 is not after the day of the purchase
    assert_eq!(eventos.len(), 2);
    let e = eventos[1];
    assert_eq!(e.dia, Dia::new(50));
    assert_eq!(e.tipo, TipoEvento::Cupom);
    assert_eq!(e.valor_bruto.0, 250000);
    assert_eq!(e.quantidade.0, 100000);
    assert_eq!(e.preco.0, 2500000);
    assert_eq!(e.saldo_quantidade.0, 100000);
    assert_eq!(e.impostos_e_taxas.imposto_operacao_financeira.0, 0);
    assert_eq!(e.impostos_e_taxas.imposto_renda.0, 56250);
    assert_eq!(e.impostos_e_taxas.taxa_custodia.0, 0);
    assert_eq!(e.valor_liquido.0, 250000 - 56250);
}

#[test]
fn cupons_ja_pagos_nao_sao_pagos_de_novo() {
    let t = titulo(
        TipoTitulo::IpcaComJurosSemestrais,
        &[(0, 10000), (10, 10500), (60, 10500)],
        &[(50, 2500000), (230, 2500000)],
    );
    let mut f = FluxoInvestimento::new(&t);
    f.comprar_a_partir_de(Dia::new(0), quantidade(100000)).unwrap();
    f.ganhar_cupons(Dia::new(60));
    assert_eq!(f.eventos().len(), 2);
    f.ganhar_cupons(Dia::new(60));
    assert_eq!(f.eventos().len(), 2);
    // an earlier day pays nothing and does not move the last day back
    f.ganhar_cupons(Dia::new(40));
    assert_eq!(f.eventos().len(), 2);
    assert_eq!(f.ultimo_dia(), Some(Dia::new(60)));
    f.ganhar_cupons(Dia::new(230));
    assert_eq!(f.eventos().len(), 3);
    assert_eq!(f.eventos()[2].dia, Dia::new(230));
    assert_eq!(f.eventos()[2].impostos_e_taxas.imposto_renda.0, 50000);
}

#[test]
fn cupons_de_um_fluxo_sem_dia() {
    let t = titulo(TipoTitulo::IpcaComJurosSemestrais, &[(0, 10000)], &[(50, 2500000)]);
    let mut f = FluxoInvestimento::new(&t);
    f.ganhar_cupons(Dia::new(60));
    assert_eq!(f.ultimo_dia(), Some(Dia::new(60)));
    assert!(f.eventos().is_empty());
}

#[test]
fn compra_paga_os_cupons_ate_o_dia() {
    let t = titulo(
        TipoTitulo::IpcaComJurosSemestrais,
        &[(0, 10000), (10, 10500), (60, 10500)],
        &[(50, 2500000)],
    );
    let mut f = FluxoInvestimento::new(&t);
    f.comprar_a_partir_de(Dia::new(0), quantidade(100000)).unwrap();
    f.comprar_a_partir_de(Dia::new(10), quantidade(50000)).unwrap();
    f.comprar_a_partir_de(Dia::new(60), quantidade(1)).unwrap();
    let eventos = f.eventos();
    assert_eq!(eventos.len(), 4);
    assert_eq!(eventos[2].tipo, TipoEvento::Cupom);
    // the coupon is paid on what was held before the purchase of day 60
    assert_eq!(eventos[2].quantidade.0, 150000);
    assert_eq!(eventos[2].valor_bruto.0, 375000);
    assert_eq!(eventos[2].impostos_e_taxas.imposto_renda.0, 84375);
    assert_eq!(eventos[3].tipo, TipoEvento::Compra);
    assert_eq!(eventos[3].saldo_quantidade.0, 150001);
}

#[test]
fn valor_do_saldo() {
    let t = titulo(TipoTitulo::Selic, &[(0, 10000), (10, 10500), (20, 11000)], &[]);
    let mut f = FluxoInvestimento::new(&t);
    f.comprar_a_partir_de(Dia::new(0), quantidade(100000)).unwrap();
    assert_eq!(f.saldo_valor(Dia::new(0)).0, 10000000);
    assert_eq!(f.saldo_valor(Dia::new(15)).0, 10500000);
    assert_eq!(f.saldo_valor(Dia::new(1000)).0, 11000000);
}

#[test]
fn copia_do_fluxo_e_independente() {
    let t = titulo(TipoTitulo::Selic, &[(0, 10000), (10, 10500), (20, 11000)], &[]);
    let mut f = FluxoInvestimento::new(&t);
    f.comprar_a_partir_de(Dia::new(0), quantidade(100000)).unwrap();
    let mut c = f.clone();
    c.vender_a_partir_de(Dia::new(10), quantidade(40000)).unwrap();
    assert_eq!(f.saldo_quantidade().0, 100000);
    assert_eq!(f.eventos().len(), 1);
    assert_eq!(f.lotes(), vec![lote(0, 10000, 100000)]);
    assert_eq!(f.ultimo_dia(), Some(Dia::new(0)));
    assert_eq!(c.saldo_quantidade().0, 60000);
    assert_eq!(c.eventos().len(), 2);
    assert_eq!(c.lotes(), vec![lote(0, 10000, 60000)]);
}

#[test]
fn mensagens_dos_erros() {
    assert_eq!(Erro::SemRendas.mensagem(), "expected at least one series");
    assert_ne!(Erro::DiaForaDeOrdem.mensagem(), Erro::PrecoIndisponivel.mensagem());
}
