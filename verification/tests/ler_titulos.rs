use tesouro_direto::decimal::Decimal;
use tesouro_direto::dia::Dia;
use tesouro_direto::ler_titulos::Titulos;
use tesouro_direto::tipo_titulo::TipoTitulo;

#[test]
fn precos_de_zero_ou_menos_ficam_de_fora() {
    let mut titulos = Titulos::new();
    let vencimento = Dia::new(5000);
    titulos.registrar_precos(TipoTitulo::Selic, vencimento, Dia::new(10), Decimal(101), Decimal(100));
    titulos.registrar_precos(TipoTitulo::Selic, vencimento, Dia::new(11), Decimal(0), Decimal(102));
    titulos.registrar_precos(TipoTitulo::Selic, vencimento, Dia::new(12), Decimal(103), Decimal(-1));
    titulos.registrar_precos(TipoTitulo::Selic, vencimento, Dia::new(13), Decimal(0), Decimal(0));
    assert!(titulos.estao_completos());
    let construidos = titulos.build();
    assert_eq!(construidos.len(), 1);
    let t = &construidos[0];
    assert_eq!(t.tipo, TipoTitulo::Selic);
    assert_eq!(t.vencimento, vencimento);
    assert_eq!(
        t.preco_compra.iter_comecando_em(Dia::new(0)),
        vec![(Dia::new(10), Decimal(101)), (Dia::new(12), Decimal(103))]
    );
    assert_eq!(
        t.preco_venda.iter_comecando_em(Dia::new(0)),
        vec![(Dia::new(10), Decimal(100)), (Dia::new(11), Decimal(102))]
    );
    assert_eq!(t.inicio_dado, Dia::new(10));
    assert_eq!(t.fim_dado, Dia::new(11));
}

#[test]
fn cada_titulo_tem_o_seu_historico() {
    let mut titulos = Titulos::new();
    titulos.registrar_precos(TipoTitulo::Selic, Dia::new(5000), Dia::new(10), Decimal(101), Decimal(100));
    titulos.registrar_precos(TipoTitulo::Ipca, Dia::new(5000), Dia::new(10), Decimal(201), Decimal(200));
    titulos.registrar_precos(TipoTitulo::Selic, Dia::new(6000), Dia::new(10), Decimal(301), Decimal(300));
    titulos.registrar_precos(TipoTitulo::Selic, Dia::new(5000), Dia::new(20), Decimal(102), Decimal(99));
    titulos.registrar_cupom(TipoTitulo::Ipca, Dia::new(5000), Dia::new(15), Decimal(7));
    titulos.registrar_vencimento(TipoTitulo::Selic, Dia::new(6000), Decimal(1000));
    titulos.registrar_vencimento(TipoTitulo::Selic, Dia::new(6000), Decimal(2000));
    let construidos = titulos.build();
    // in the order in which the bonds first appeared
    assert_eq!(construidos.len(), 3);
    assert_eq!((construidos[0].tipo, construidos[0].vencimento), (TipoTitulo::Selic, Dia::new(5000)));
    assert_eq!((construidos[1].tipo, construidos[1].vencimento), (TipoTitulo::Ipca, Dia::new(5000)));
    assert_eq!((construidos[2].tipo, construidos[2].vencimento), (TipoTitulo::Selic, Dia::new(6000)));
    assert_eq!(construidos[0].preco_compra.len(), 2);
    assert_eq!(construidos[0].cupom.len(), 0);
    assert_eq!(construidos[0].preco_vencimento, None);
    assert_eq!(construidos[1].preco_compra.len(), 1);
    assert_eq!(construidos[1].cupom.primeiro(), Some((Dia::new(15), Decimal(7))));
    assert_eq!(construidos[2].preco_venda.primeiro(), Some((Dia::new(10), Decimal(300))));
    // the later redemption price replaces the earlier
    assert_eq!(construidos[2].preco_vencimento, Some(Decimal(2000)));
}

#[test]
fn titulo_so_com_cupom_nao_esta_completo() {
    let mut titulos = Titulos::new();
    assert!(titulos.estao_completos());
    titulos.registrar_precos(TipoTitulo::Selic, Dia::new(5000), Dia::new(10), Decimal(101), Decimal(100));
    assert!(titulos.estao_completos());
    titulos.registrar_cupom(TipoTitulo::IpcaComJurosSemestrais, Dia::new(5000), Dia::new(15), Decimal(7));
    assert!(!titulos.estao_completos());
    titulos.registrar_precos(
        TipoTitulo::IpcaComJurosSemestrais,
        Dia::new(5000),
        Dia::new(10),
        Decimal(101),
        Decimal(0),
    );
    assert!(!titulos.estao_completos());
    titulos.registrar_precos(
        TipoTitulo::IpcaComJurosSemestrais,
        Dia::new(5000),
        Dia::new(10),
        Decimal(0),
        Decimal(100),
    );
    assert!(titulos.estao_completos());
}

#[test]
fn nenhum_titulo() {
    assert!(Titulos::new().build().is_empty());
}
