use tesouro_direto::analise::inicios_de_analise;
use tesouro_direto::analise::testar_estrategia_para_fluxo;
use tesouro_direto::analise::testar_estrategia_para_titulo;
use tesouro_direto::analise::titulos_com_dados_suficientes;
use tesouro_direto::decimal::Decimal;
use tesouro_direto::dia::Dia;
use tesouro_direto::dia::Duracao;
use tesouro_direto::erro::Erro;
use tesouro_direto::estrategias::quantidade_constante::QuantidadeConstante;
use tesouro_direto::estrategias::valor_real_constante::ValorRealConstante;
use tesouro_direto::estrategias::Estrategia;
use tesouro_direto::inflacao::Inflacao;
use tesouro_direto::tipo_titulo::TipoTitulo;
use tesouro_direto::titulo::Titulo;
use tesouro_direto::titulo::TituloBuilder;

fn titulo(vencimento: i32, inicio: i32, fim: i32) -> Titulo {
    let mut b = TituloBuilder::new(TipoTitulo::Selic, Dia::new(vencimento));
    for dia in [inicio, fim] {
        b.adicionar_preco_compra(Dia::new(dia), Decimal(100));
        b.adicionar_preco_venda(Dia::new(dia), Decimal(100));
    }
    b.build()
}

#[test]
fn titulos_com_mais_dados_que_o_minimo() {
    let titulos = vec![
        titulo(1, 0, 100),
        titulo(2, 0, 101),
        titulo(3, 50, 150),
        titulo(4, 50, 500),
        titulo(5, 7, 7),
    ];
    let escolhidos = titulos_com_dados_suficientes(&titulos, Duracao::new(100));
    let vencimentos: Vec<i32> = escolhidos.iter().map(|t| t.vencimento.num).collect();
    // strictly more than the minimum, in the order given
    assert_eq!(vencimentos, vec![2, 4]);
    assert!(titulo(1, 0, 100).tem_dados_suficientes(Duracao::new(99)));
    assert!(!titulo(1, 0, 100).tem_dados_suficientes(Duracao::new(100)));
    assert!(titulo(1, 7, 7).tem_dados_suficientes(Duracao::new(-1)));
    assert!(titulos_com_dados_suficientes(&[], Duracao::new(0)).is_empty());
}

#[test]
fn dias_em_que_um_teste_pode_comecar() {
    let t = titulo(1, 100, 200);
    let dias = |inicios: Vec<Dia>| inicios.iter().map(|d| d.num).collect::<Vec<i32>>();
    assert_eq!(
        dias(inicios_de_analise(&t, Duracao::new(70), Duracao::new(7))),
        vec![100, 107, 114, 121, 128]
    );
    // the last test may end on the last day of the data
    assert_eq!(
        dias(inicios_de_analise(&t, Duracao::new(72), Duracao::new(7))),
        vec![100, 107, 114, 121, 128]
    );
    assert_eq!(
        dias(inicios_de_analise(&t, Duracao::new(73), Duracao::new(7))),
        vec![100, 107, 114, 121]
    );
    assert_eq!(dias(inicios_de_analise(&t, Duracao::new(100), Duracao::new(7))), vec![100]);
    assert!(inicios_de_analise(&t, Duracao::new(101), Duracao::new(7)).is_empty());
    assert_eq!(dias(inicios_de_analise(&t, Duracao::new(98), Duracao::new(1))), vec![100, 101, 102]);
    assert!(inicios_de_analise(&t, Duracao::new(i64::MAX), Duracao::new(1)).is_empty());
}

#[test]
fn inicios_nao_passam_do_ultimo_dia_possivel() {
    let t = titulo(1, i32::MAX - 10, i32::MAX);
    let inicios = inicios_de_analise(&t, Duracao::new(-1000), Duracao::new(4));
    let dias: Vec<i32> = inicios.iter().map(|d| d.num).collect();
    assert_eq!(dias, vec![i32::MAX - 10, i32::MAX - 6, i32::MAX - 2]);
}

fn titulo_de_preco_fixo(inicio: i32, fim: i32, preco: i64) -> Titulo {
    let mut b = TituloBuilder::new(TipoTitulo::Selic, Dia::new(fim + 1000));
    for dia in inicio..=fim {
        b.adicionar_preco_compra(Dia::new(dia), Decimal(preco));
        b.adicionar_preco_venda(Dia::new(dia), Decimal(preco));
    }
    b.build()
}

fn inflacao(niveis: &[(i32, i64)]) -> Inflacao {
    Inflacao::new(niveis.iter().map(|&(dia, nivel)| (Dia::new(dia), Decimal(nivel))).collect())
}

#[test]
fn teste_de_uma_estrategia_em_um_fluxo() {
    let t = titulo_de_preco_fixo(0, 400, 10000);
    let i = inflacao(&[(-100, 10000)]);
    let estrategia = QuantidadeConstante::new(Duracao::new(30));
    let r = testar_estrategia_para_fluxo(
        &estrategia,
        &i,
        &t,
        Dia::new(100),
        Decimal(10000000),
        Duracao::new(90),
        Duracao::new(30),
    )
    .unwrap()
    .unwrap();
    // a purchase on day 100, nothing sold for 30 days, then two sales
    let eventos = r.fluxo.eventos();
    assert_eq!(eventos.len(), 3);
    assert_eq!(eventos[0].dia, Dia::new(100));
    assert_eq!(eventos[1].dia, Dia::new(130));
    assert_eq!(eventos[2].dia, Dia::new(160));
    assert_eq!(eventos[1].valor_liquido.0, 5000000 - 822);
    assert_eq!(eventos[2].valor_liquido.0, 5000000 - 1644);
    assert_eq!(r.fluxo.saldo_quantidade().0, 0);
    assert_eq!(r.renda.semestres(), vec![Decimal(9997534)]);
}

#[test]
fn teste_sem_resultado_quando_a_estrategia_falha() {
    let t = titulo_de_preco_fixo(0, 140, 10000);
    let i = inflacao(&[(-100, 10000)]);
    // the second sale finds no price
    let estrategia = QuantidadeConstante::new(Duracao::new(30));
    let r = testar_estrategia_para_fluxo(
        &estrategia,
        &i,
        &t,
        Dia::new(100),
        Decimal(10000000),
        Duracao::new(90),
        Duracao::new(30),
    );
    assert!(matches!(r, Ok(None)));
    // an interval of zero cannot be applied
    let parada = QuantidadeConstante::new(Duracao::new(0));
    let r = testar_estrategia_para_fluxo(
        &parada,
        &i,
        &t,
        Dia::new(0),
        Decimal(10000000),
        Duracao::new(90),
        Duracao::new(30),
    );
    assert!(matches!(r, Ok(None)));
}

#[test]
fn teste_falha_quando_a_compra_ou_a_renda_falham() {
    let t = titulo_de_preco_fixo(0, 400, 10000);
    let i = inflacao(&[(-100, 10000)]);
    let estrategia = QuantidadeConstante::new(Duracao::new(30));
    let sem_preco = testar_estrategia_para_fluxo(
        &estrategia,
        &i,
        &t,
        Dia::new(401),
        Decimal(10000000),
        Duracao::new(90),
        Duracao::new(30),
    );
    assert_eq!(sem_preco.err(), Some(Erro::PrecoIndisponivel));
    let sem_indice = testar_estrategia_para_fluxo(
        &estrategia,
        &inflacao(&[]),
        &t,
        Dia::new(100),
        Decimal(10000000),
        Duracao::new(90),
        Duracao::new(30),
    );
    assert_eq!(sem_indice.err(), Some(Erro::InflacaoIndisponivel));
    let fora_do_calendario = testar_estrategia_para_fluxo(
        &estrategia,
        &i,
        &t,
        Dia::new(100),
        Decimal(10000000),
        Duracao::new(i64::MAX),
        Duracao::new(30),
    );
    assert_eq!(fora_do_calendario.err(), Some(Erro::DiaForaDosLimites));
}

#[test]
fn testes_de_uma_estrategia_em_um_titulo() {
    let t = titulo_de_preco_fixo(0, 400, 10000);
    let i = inflacao(&[(-100, 10000)]);
    let estrategia = QuantidadeConstante::new(Duracao::new(30));
    let r = testar_estrategia_para_titulo(
        &estrategia,
        &i,
        &t,
        Duracao::new(90),
        Duracao::new(100),
        Decimal(10000000),
        Duracao::new(30),
    )
    .unwrap()
    .unwrap();
    // tests begin on days 0, 100, 200 and 300
    assert_eq!(r.fluxos.len(), 4);
    let inicios: Vec<i32> = r.fluxos.iter().map(|f| f.eventos()[0].dia.num).collect();
    assert_eq!(inicios, vec![0, 100, 200, 300]);
    assert_eq!(r.renda_media.semestres(), vec![Decimal(9997534)]);
    assert_eq!(r.renda_media.media().0, 9997534);
}

#[test]
fn testes_por_meio_de_um_objeto() {
    let t = titulo_de_preco_fixo(0, 400, 10000);
    let i = inflacao(&[(-100, 10000)]);
    let estrategias: Vec<Box<dyn Estrategia + '_>> = vec![
        Box::new(QuantidadeConstante::new(Duracao::new(30))),
        Box::new(ValorRealConstante::new(&i, Duracao::new(30))),
    ];
    for estrategia in &estrategias {
        let r = testar_estrategia_para_titulo(
            estrategia.as_ref(),
            &i,
            &t,
            Duracao::new(90),
            Duracao::new(100),
            Decimal(10000000),
            Duracao::new(30),
        )
        .unwrap()
        .unwrap();
        assert_eq!(r.fluxos.len(), 4);
    }
}

#[test]
fn estrategia_que_nunca_serve_nao_tem_resultados() {
    let t = titulo_de_preco_fixo(0, 400, 10000);
    let i = inflacao(&[(-100, 10000)]);
    let parada = QuantidadeConstante::new(Duracao::new(0));
    let r = testar_estrategia_para_titulo(
        &parada,
        &i,
        &t,
        Duracao::new(90),
        Duracao::new(100),
        Decimal(10000000),
        Duracao::new(30),
    );
    assert!(matches!(r, Ok(None)));
    // no day on which a test can begin
    let estrategia = QuantidadeConstante::new(Duracao::new(30));
    let r = testar_estrategia_para_titulo(
        &estrategia,
        &i,
        &t,
        Duracao::new(401),
        Duracao::new(100),
        Decimal(10000000),
        Duracao::new(30),
    );
    assert!(matches!(r, Ok(None)));
}

#[test]
fn testes_em_um_titulo_param_no_primeiro_erro() {
    let t = titulo_de_preco_fixo(0, 400, 10000);
    let estrategia = QuantidadeConstante::new(Duracao::new(30));
    let r = testar_estrategia_para_titulo(
        &estrategia,
        &inflacao(&[(150, 10000)]),
        &t,
        Duracao::new(90),
        Duracao::new(100),
        Decimal(10000000),
        Duracao::new(30),
    );
    assert_eq!(r.err(), Some(Erro::InflacaoIndisponivel));
}
