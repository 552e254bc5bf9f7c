use tesouro_direto::decimal::Decimal;
use tesouro_direto::dia::Dia;
use tesouro_direto::dia::Duracao;
use tesouro_direto::erro::Erro;
use tesouro_direto::estrategias::quantidade_constante::QuantidadeConstante;
use tesouro_direto::estrategias::Estrategia;
use tesouro_direto::fluxo_investimento::FluxoInvestimento;
use tesouro_direto::inflacao::Inflacao;
use tesouro_direto::quantidade_ou_valor::QuantidadeOuValor;
use tesouro_direto::renda_semestral::RendaReal;
use tesouro_direto::tipo_titulo::TipoTitulo;
use tesouro_direto::titulo::Titulo;
use tesouro_direto::titulo::TituloBuilder;

fn titulo_de_preco_fixo(dias: &[i32], preco: i64) -> Titulo {
    let mut b = TituloBuilder::new(TipoTitulo::Selic, Dia::new(100000));
    for &dia in dias {
        b.adicionar_preco_compra(Dia::new(dia), Decimal(preco));
        b.adicionar_preco_venda(Dia::new(dia), Decimal(preco));
    }
    b.build()
}

fn inflacao(niveis: &[(i32, i64)]) -> Inflacao {
    Inflacao::new(niveis.iter().map(|&(dia, nivel)| (Dia::new(dia), Decimal(nivel))).collect())
}

/// A flow that buys 1000.00 bonds on day 0 and sells them on days 0, 200
/// and 400, for 33333.00, 33296.47 and 33260.94 net.
fn fluxo_de_tres_vendas(titulo: &Titulo) -> FluxoInvestimento<'_> {
    let mut f = FluxoInvestimento::new(titulo);
    f.comprar_a_partir_de(Dia::new(0), QuantidadeOuValor::Valor(Decimal(10000000))).unwrap();
    QuantidadeConstante::new(Duracao::new(200)).aplicar(f, Dia::new(0), Duracao::new(600)).unwrap()
}

fn valores(renda: &RendaReal) -> Vec<i64> {
    renda.semestres().iter().map(|s| s.0).collect()
}

/// A series with the given half years: each comes from one sale, of bonds
/// bought the same day at 1.00, so that the sale pays no charge.
fn renda_de(semestres: &[i64]) -> RendaReal {
    let dias: Vec<i32> = (0..semestres.len() as i32).map(|k| k * 180).collect();
    let t = titulo_de_preco_fixo(&dias, 100);
    let i = inflacao(&[(0, 10000)]);
    let mut f = FluxoInvestimento::new(&t);
    for (k, &s) in semestres.iter().enumerate() {
        f.comprar_a_partir_de(Dia::new(dias[k]), QuantidadeOuValor::Quantidade(Decimal(s))).unwrap();
        f.vender_a_partir_de(Dia::new(dias[k]), QuantidadeOuValor::Quantidade(Decimal(s))).unwrap();
    }
    let r = RendaReal::new(&i, &f, Dia::new(0), Dia::new(180 * semestres.len() as i32)).unwrap();
    assert_eq!(valores(&r), semestres.to_vec());
    r
}

#[test]
fn renda_por_semestre() {
    let t = titulo_de_preco_fixo(&[0, 200, 400], 10000);
    let f = fluxo_de_tres_vendas(&t);
    let i = inflacao(&[(-100, 10000)]);
    let r = RendaReal::new(&i, &f, Dia::new(0), Dia::new(600)).unwrap();
    assert_eq!(valores(&r), vec![3333300, 3329647, 3326094, 0]);
    assert_eq!(r.total().0, 9989041);
}

#[test]
fn renda_corrigida_pela_inflacao() {
    let t = titulo_de_preco_fixo(&[0, 200, 400], 10000);
    let f = fluxo_de_tres_vendas(&t);
    let i = inflacao(&[(-100, 10000), (200, 11000), (400, 12100)]);
    let r = RendaReal::new(&i, &f, Dia::new(0), Dia::new(600)).unwrap();
    assert_eq!(valores(&r), vec![3333300, 3026952, 2748838, 0]);
}

#[test]
fn numero_de_semestres_arredonda_para_cima() {
    let t = titulo_de_preco_fixo(&[0, 200, 400], 10000);
    let f = fluxo_de_tres_vendas(&t);
    let i = inflacao(&[(-100, 10000)]);
    assert_eq!(RendaReal::new(&i, &f, Dia::new(0), Dia::new(540)).unwrap().semestres().len(), 3);
    assert_eq!(RendaReal::new(&i, &f, Dia::new(0), Dia::new(541)).unwrap().semestres().len(), 4);
    assert_eq!(RendaReal::new(&i, &f, Dia::new(0), Dia::new(401)).unwrap().semestres().len(), 3);
}

#[test]
fn eventos_antes_do_inicio_caem_no_primeiro_semestre() {
    let t = titulo_de_preco_fixo(&[0, 200, 400], 10000);
    let f = fluxo_de_tres_vendas(&t);
    let i = inflacao(&[(-100, 10000)]);
    let r = RendaReal::new(&i, &f, Dia::new(300), Dia::new(600)).unwrap();
    // days 0 and 200 come before day 300; day 400 is 100 days in
    assert_eq!(valores(&r), vec![3333300 + 3329647 + 3326094, 0]);
}

#[test]
fn evento_depois_do_ultimo_semestre() {
    let t = titulo_de_preco_fixo(&[0, 200, 400], 10000);
    let f = fluxo_de_tres_vendas(&t);
    let i = inflacao(&[(-100, 10000)]);
    assert_eq!(
        RendaReal::new(&i, &f, Dia::new(0), Dia::new(360)).err(),
        Some(Erro::EventoForaDoPeriodo)
    );
    assert_eq!(
        RendaReal::new(&i, &f, Dia::new(0), Dia::new(0)).err(),
        Some(Erro::EventoForaDoPeriodo)
    );
    assert_eq!(
        RendaReal::new(&i, &f, Dia::new(0), Dia::new(-1000)).err(),
        Some(Erro::EventoForaDoPeriodo)
    );
}

#[test]
fn renda_sem_indice_de_inflacao() {
    let t = titulo_de_preco_fixo(&[0, 200, 400], 10000);
    let f = fluxo_de_tres_vendas(&t);
    let i = inflacao(&[(100, 10000)]);
    assert_eq!(
        RendaReal::new(&i, &f, Dia::new(0), Dia::new(600)).err(),
        Some(Erro::InflacaoIndisponivel)
    );
}

#[test]
fn compras_nao_contam_como_renda() {
    let t = titulo_de_preco_fixo(&[0, 200, 400], 10000);
    let mut f = FluxoInvestimento::new(&t);
    f.comprar_a_partir_de(Dia::new(0), QuantidadeOuValor::Valor(Decimal(10000000))).unwrap();
    let i = inflacao(&[]);
    // no sale, no coupon: the index is not even asked
    let r = RendaReal::new(&i, &f, Dia::new(0), Dia::new(360)).unwrap();
    assert_eq!(valores(&r), vec![0, 0]);
    let vazio = RendaReal::new(&i, &f, Dia::new(0), Dia::new(0)).unwrap();
    assert!(vazio.semestres().is_empty());
}

#[test]
fn media_e_variancia() {
    let r = renda_de(&[100, 300]);
    assert_eq!(valores(&r), vec![100, 300]);
    assert_eq!(r.media().0, 200);
    // 1.00 and 3.00 about 2.00: (1 + 1) / 1 = 2.00
    assert_eq!(r.variancia().0, 200);
    assert_eq!(r.tentar_variancia(), Some(Decimal(200)));
    assert_eq!(r.total().0, 400);

    let s = renda_de(&[100, 200, 400]);
    // 700 / 3 = 233.33
    assert_eq!(s.media().0, 233);
    // (1.33^2 + 0.33^2 + 1.67^2) / 2 = 2.33335
    assert_eq!(s.variancia().0, 233);

    let t = renda_de(&[0, 1000, 2000, 10]);
    // 30.10 / 4 = 7.525
    assert_eq!(t.media().0, 753);
    // (7.53^2 + 2.47^2 + 12.47^2 + 7.43^2) / 3 = 91.1692
    assert_eq!(t.variancia().0, 9117);
}

#[test]
fn media_arredonda_para_o_mais_proximo() {
    assert_eq!(renda_de(&[100, 201]).media().0, 151);
    assert_eq!(renda_de(&[100, 200]).media().0, 150);
    assert_eq!(renda_de(&[1, 1, 0]).media().0, 1);
    assert_eq!(renda_de(&[1, 0, 0]).media().0, 0);
}

#[test]
fn media_e_variancia_de_series_curtas() {
    let t = titulo_de_preco_fixo(&[0], 10000);
    let f = FluxoInvestimento::new(&t);
    let i = inflacao(&[]);
    let vazia = RendaReal::new(&i, &f, Dia::new(0), Dia::new(0)).unwrap();
    assert_eq!(vazia.media().0, 0);
    assert_eq!(vazia.variancia().0, 0);
    assert_eq!(vazia.total().0, 0);
    let uma = renda_de(&[12345]);
    assert_eq!(uma.media().0, 12345);
    assert_eq!(uma.variancia().0, 0);
}

#[test]
fn variancia_de_valores_iguais_e_zero() {
    assert_eq!(renda_de(&[500, 500, 500]).variancia().0, 0);
}

#[test]
fn media_de_varias_rendas() {
    let a = renda_de(&[100, 300]);
    let b = renda_de(&[201, 100]);
    let c = renda_de(&[0, 1]);
    let m = RendaReal::media_de_rendas(&[a.clone(), b.clone()]).unwrap();
    // rounded down
    assert_eq!(valores(&m), vec![150, 200]);
    let m = RendaReal::media_de_rendas(&[a.clone(), b, c]).unwrap();
    assert_eq!(valores(&m), vec![100, 133]);
    let m = RendaReal::media_de_rendas(&[a]).unwrap();
    assert_eq!(valores(&m), vec![100, 300]);
}

#[test]
fn media_de_nenhuma_renda() {
    assert_eq!(RendaReal::media_de_rendas(&[]).err(), Some(Erro::SemRendas));
}

#[test]
fn media_de_rendas_de_tamanhos_diferentes() {
    let a = renda_de(&[100, 300]);
    let b = renda_de(&[100, 300, 500]);
    assert_eq!(
        RendaReal::media_de_rendas(&[a.clone(), b.clone()]).err(),
        Some(Erro::TamanhosDiferentes)
    );
    assert_eq!(
        RendaReal::media_de_rendas(&[a.clone(), a.clone(), b]).err(),
        Some(Erro::TamanhosDiferentes)
    );
}
