//! Testing strategies on the history of a bond: the bonds with enough
//! history, the days on which a test over a period can begin, and the
//! tests themselves.

use crate::decimal::Decimal;
use crate::dia::dia_deslocado;
use crate::dia::Dia;
use crate::dia::Duracao;
use crate::erro::Erro;
use crate::estrategias::Estrategia;
use crate::fluxo_investimento::EstadoFluxo;
use crate::fluxo_investimento::FluxoInvestimento;
use crate::inflacao::Inflacao;
use crate::quantidade_ou_valor::QuantidadeOuValor;
use crate::renda_semestral::media_das_series;
use crate::renda_semestral::renda_dos_eventos;
use crate::renda_semestral::series_das_rendas;
use crate::renda_semestral::RendaReal;
use crate::titulo::Titulo;
use vstd::prelude::*;

verus! {

/// Whether the data of the bond spans more than `tempo_minimo`.
pub open spec fn dados_suficientes(titulo: Titulo, tempo_minimo: Duracao) -> bool {
    titulo.fim_dado.num - titulo.inicio_dado.num > tempo_minimo.dias
}

/// The last day on which a test of `periodo_total` on the bond can begin
/// and still end within its data; it may lie before the first.
pub open spec fn ultimo_inicio(titulo: Titulo, periodo_total: Duracao) -> int {
    let limite = titulo.fim_dado.num - periodo_total.dias;
    if limite > i32::MAX {
        i32::MAX as int
    } else {
        limite
    }
}

/// The number of days on which a test can begin: the first day of the
/// data and every `passo_inicio` after it, up to the last on which the
/// test still ends within the data.
pub open spec fn numero_de_inicios(
    titulo: Titulo,
    periodo_total: Duracao,
    passo_inicio: Duracao,
) -> int {
    let ultimo = ultimo_inicio(titulo, periodo_total);
    if titulo.inicio_dado.num > ultimo {
        0
    } else {
        (ultimo - titulo.inicio_dado.num) / (passo_inicio.dias as int) + 1
    }
}

impl Titulo {
    /// Whether the data of the bond spans more than `tempo_minimo`.
    pub fn tem_dados_suficientes(&self, tempo_minimo: Duracao) -> (r: bool)
        ensures
            r == dados_suficientes(*self, tempo_minimo),
    {
        self.fim_dado.dias_desde(self.inicio_dado) > tempo_minimo.dias
    }
}

/// The bonds whose data spans more than `tempo_minimo`, in the order given.
pub fn titulos_com_dados_suficientes<'a>(titulos: &'a [Titulo], tempo_minimo: Duracao) -> (r: Vec<
    &'a Titulo,
>)
    ensures
        r@.map_values(|t: &Titulo| *t) == titulos@.filter(
            |t: Titulo| dados_suficientes(t, tempo_minimo),
        ),
{
    let ghost suficiente = |t: Titulo| dados_suficientes(t, tempo_minimo);
    let mut escolhidos: Vec<&'a Titulo> = Vec::new();
    let n = titulos.len();
    let mut i: usize = 0;
    proof {
        assert(titulos@.take(0) =~= Seq::<Titulo>::empty());
        assert(escolhidos@.map_values(|t: &Titulo| *t) =~= Seq::<Titulo>::empty());
        reveal_with_fuel(Seq::filter, 1);
    }
    while i < n
        invariant
            0 <= i <= n,
            n == titulos@.len(),
            suficiente == |t: Titulo| dados_suficientes(t, tempo_minimo),
            escolhidos@.map_values(|t: &Titulo| *t) == titulos@.take(i as int).filter(suficiente),
        decreases n - i,
    {
        let titulo = &titulos[i];
        let ghost antes = escolhidos@;
        proof {
            assert(titulos@.take(i as int + 1).drop_last() =~= titulos@.take(i as int));
            assert(titulos@.take(i as int + 1).last() == *titulo);
            reveal_with_fuel(Seq::filter, 1);
        }
        if titulo.tem_dados_suficientes(tempo_minimo) {
            escolhidos.push(titulo);
            proof {
                assert(escolhidos@.map_values(|t: &Titulo| *t) =~= antes.map_values(
                    |t: &Titulo| *t,
                ).push(*titulo));
            }
        }
        i = i + 1;
    }
    proof {
        assert(titulos@.take(n as int) =~= titulos@);
    }
    escolhidos
}

/// The days on which a test of `periodo_total` on the bond can begin: the
/// first day of its data and every `passo_inicio` after it, as long as the
/// test still ends within the data. The step must be positive.
pub fn inicios_de_analise(titulo: &Titulo, periodo_total: Duracao, passo_inicio: Duracao) -> (r:
    Vec<Dia>)
    requires
        passo_inicio.dias > 0,
    ensures
        r@.len() == numero_de_inicios(*titulo, periodo_total, passo_inicio),
        forall|k: int|
            0 <= k < r@.len() ==> (#[trigger] r@[k]).num == titulo.inicio_dado.num + k
                * passo_inicio.dias,
{
    let mut inicios: Vec<Dia> = Vec::new();
    let limite: i128 = titulo.fim_dado.num as i128 - periodo_total.dias as i128;
    let ultimo: i128 = if limite > i32::MAX as i128 { i32::MAX as i128 } else { limite };
    let primeiro: i128 = titulo.inicio_dado.num as i128;
    let passo: i128 = passo_inicio.dias as i128;
    let mut dia: i128 = primeiro;
    let ghost total = numero_de_inicios(*titulo, periodo_total, passo_inicio);
    proof {
        if primeiro <= ultimo {
            let espaco = ultimo - primeiro;
            let p = passo as int;
            assert(0 <= espaco / p && (espaco / p) * p <= espaco < (espaco / p + 1) * p)
                by (nonlinear_arith)
                requires
                    p > 0,
                    espaco >= 0,
            ;
        }
    }
    assert(0 * passo == 0);
    while dia <= ultimo
        invariant
            passo == passo_inicio.dias,
            passo > 0,
            primeiro == titulo.inicio_dado.num,
            ultimo == ultimo_inicio(*titulo, periodo_total),
            total == numero_de_inicios(*titulo, periodo_total, passo_inicio),
            dia == primeiro + inicios@.len() * passo,
            inicios@.len() <= total,
            dia <= ultimo ==> inicios@.len() < total,
            dia > ultimo ==> inicios@.len() == total,
            primeiro <= ultimo ==> (total - 1) * passo <= ultimo - primeiro < total * passo,
            forall|k: int|
                0 <= k < inicios@.len() ==> (#[trigger] inicios@[k]).num == primeiro + k * passo,
        decreases total - inicios@.len(),
    {
        let ghost quantos = inicios@.len() as int;
        inicios.push(Dia::new(dia as i32));
        proof {
            assert((quantos + 1) * passo == quantos * passo + passo) by (nonlinear_arith);
            if dia + passo <= ultimo {
                assert(quantos + 1 < total) by (nonlinear_arith)
                    requires
                        primeiro + (quantos + 1) * passo <= ultimo,
                        ultimo - primeiro < total * passo,
                        passo > 0,
                ;
            } else {
                assert(quantos + 1 >= total) by (nonlinear_arith)
                    requires
                        primeiro + (quantos + 1) * passo > ultimo,
                        (total - 1) * passo <= ultimo - primeiro,
                        passo > 0,
                ;
            }
        }
        dia = dia + passo;
    }
    inicios
}

/// The outcome of a strategy on one flow: the flow after the sales, and
/// its real income.
#[derive(Debug)]
pub struct ResultadoDeEstrategia<'a> {
    pub fluxo: FluxoInvestimento<'a>,
    pub renda: RendaReal,
}

/// The outcomes of a strategy on a bond: the flows of the tests in which
/// it succeeded, and the average of their real incomes.
#[derive(Debug)]
pub struct ResultadosDeEstrategia<'a> {
    pub fluxos: Vec<FluxoInvestimento<'a>>,
    pub renda_media: RendaReal,
}

/// The test of a strategy on a purchase of `valor_inicio` on `dia_inicio`:
/// after the purchase nothing is sold for `carencia`, then the strategy
/// sells until `periodo` after the purchase, and the net income of those
/// sales is brought to money of their first day.
///
/// The outcome is the state of the flow after the sales with its real
/// income, or nothing where the strategy cannot be applied or a sale
/// fails. The test itself fails where the purchase fails, a day leaves the
/// range of days, or the income does not fit its half years.
pub open spec fn teste_em_fluxo<E: Estrategia + ?Sized>(
    estrategia: &E,
    indices: Seq<(Dia, Decimal<2>)>,
    titulo: Titulo,
    dia_inicio: Dia,
    valor_inicio: Decimal<2>,
    periodo: Duracao,
    carencia: Duracao,
) -> Result<Option<(EstadoFluxo, Seq<Decimal<2>>)>, Erro> {
    match EstadoFluxo::vazio().comprar(titulo, dia_inicio, QuantidadeOuValor::Valor(valor_inicio)) {
        (Err(erro), _) => Err(erro),
        (Ok(_), comprado) => match (
            dia_deslocado(dia_inicio, carencia.dias as int),
            dia_deslocado(dia_inicio, periodo.dias as int),
        ) {
            (Some(inicio), Some(fim)) => {
                let vendas = Duracao { dias: (periodo.dias - carencia.dias) as i64 };
                if !estrategia.aplicavel(comprado, titulo, inicio, vendas) {
                    Ok(None)
                } else {
                    match estrategia.resultado(comprado, titulo, inicio, vendas) {
                        Err(_) => Ok(None),
                        Ok(depois) => match renda_dos_eventos(
                            indices,
                            depois.eventos,
                            inicio,
                            fim,
                        ) {
                            Ok(renda) => Ok(Some((depois, renda))),
                            Err(erro) => Err(erro),
                        },
                    }
                }
            },
            _ => Err(Erro::DiaForaDosLimites),
        },
    }
}

/// The tests of a strategy on the first `quantos` days on which a test on
/// the bond can begin: the flows and the real incomes of the tests in
/// which the strategy succeeded, in the order of the days. The first test
/// that fails ends them.
pub open spec fn testes_no_titulo<E: Estrategia + ?Sized>(
    estrategia: &E,
    indices: Seq<(Dia, Decimal<2>)>,
    titulo: Titulo,
    periodo_total: Duracao,
    passo_inicio: Duracao,
    valor_inicio: Decimal<2>,
    carencia: Duracao,
    quantos: int,
) -> Result<(Seq<EstadoFluxo>, Seq<Seq<Decimal<2>>>), Erro>
    decreases quantos,
{
    if quantos <= 0 {
        Ok((Seq::empty(), Seq::empty()))
    } else {
        match testes_no_titulo(
            estrategia,
            indices,
            titulo,
            periodo_total,
            passo_inicio,
            valor_inicio,
            carencia,
            quantos - 1,
        ) {
            Err(erro) => Err(erro),
            Ok((fluxos, rendas)) => {
                let dia = Dia {
                    num: (titulo.inicio_dado.num + (quantos - 1) * passo_inicio.dias) as i32,
                };
                match teste_em_fluxo(
                    estrategia,
                    indices,
                    titulo,
                    dia,
                    valor_inicio,
                    periodo_total,
                    carencia,
                ) {
                    Err(erro) => Err(erro),
                    Ok(None) => Ok((fluxos, rendas)),
                    Ok(Some((fluxo, renda))) => Ok((fluxos.push(fluxo), rendas.push(renda))),
                }
            },
        }
    }
}

/// The states of the flows.
pub open spec fn estados_dos_fluxos(fluxos: Seq<FluxoInvestimento>) -> Seq<EstadoFluxo> {
    Seq::new(fluxos.len(), |i: int| fluxos[i]@)
}

/// Tests a strategy on a purchase of `valor_inicio` of the bond on
/// `dia_inicio`: nothing is sold for `carencia`, then the strategy sells
/// until `periodo` after the purchase. Hands back the flow after the sales
/// with its real income, or `None` where the strategy cannot be applied or
/// a sale of it fails.
pub fn testar_estrategia_para_fluxo<'a, E: Estrategia + ?Sized>(
    estrategia: &E,
    inflacao: &Inflacao,
    titulo: &'a Titulo,
    dia_inicio: Dia,
    valor_inicio: Decimal<2>,
    periodo: Duracao,
    carencia: Duracao,
) -> (r: Result<Option<ResultadoDeEstrategia<'a>>, Erro>)
    ensures
        match teste_em_fluxo(
            estrategia,
            inflacao.indices(),
            *titulo,
            dia_inicio,
            valor_inicio,
            periodo,
            carencia,
        ) {
            Ok(Some((estado, renda))) => r matches Ok(Some(resultado)) && resultado.fluxo@ == estado
                && resultado.fluxo.titulo() == *titulo && resultado.fluxo@.bem_formado()
                && resultado.renda@ == renda,
            Ok(None) => r matches Ok(None),
            Err(erro) => r matches Err(e) && e == erro,
        },
{
    let mut fluxo = FluxoInvestimento::new(titulo);
    match fluxo.comprar_a_partir_de(dia_inicio, QuantidadeOuValor::Valor(valor_inicio)) {
        Ok(_) => {},
        Err(erro) => {
            return Err(erro);
        },
    }
    let inicio = match dia_inicio.mais_dias(carencia.dias) {
        Some(dia) => dia,
        None => {
            return Err(Erro::DiaForaDosLimites);
        },
    };
    let fim = match dia_inicio.mais_dias(periodo.dias) {
        Some(dia) => dia,
        None => {
            return Err(Erro::DiaForaDosLimites);
        },
    };
    // Both days are in range, so the two spans are too close to overflow.
    let vendas = Duracao::new(periodo.dias - carencia.dias);
    if !estrategia.pode_aplicar(&fluxo, inicio, vendas) {
        return Ok(None);
    }
    let depois = match estrategia.aplicar(fluxo, inicio, vendas) {
        Ok(depois) => depois,
        Err(_) => {
            return Ok(None);
        },
    };
    match RendaReal::new(inflacao, &depois, inicio, fim) {
        Ok(renda) => Ok(Some(ResultadoDeEstrategia { fluxo: depois, renda })),
        Err(erro) => Err(erro),
    }
}

/// Tests a strategy on the bond, once for each day on which a test of
/// `periodo_total` can begin: the first day of the data and every
/// `passo_inicio` after it. Hands back the flows of the tests in which the
/// strategy succeeded and the average of their real incomes, or `None`
/// where it succeeded in none. The step must be positive.
pub fn testar_estrategia_para_titulo<'a, E: Estrategia + ?Sized>(
    estrategia: &E,
    inflacao: &Inflacao,
    titulo: &'a Titulo,
    periodo_total: Duracao,
    passo_inicio: Duracao,
    valor_inicio: Decimal<2>,
    carencia: Duracao,
) -> (r: Result<Option<ResultadosDeEstrategia<'a>>, Erro>)
    requires
        passo_inicio.dias > 0,
    ensures
        match testes_no_titulo(
            estrategia,
            inflacao.indices(),
            *titulo,
            periodo_total,
            passo_inicio,
            valor_inicio,
            carencia,
            numero_de_inicios(*titulo, periodo_total, passo_inicio),
        ) {
            Err(erro) => r matches Err(e) && e == erro,
            Ok((fluxos, rendas)) => if rendas.len() == 0 {
                r matches Ok(None)
            } else {
                match media_das_series(rendas) {
                    Err(erro) => r matches Err(e) && e == erro,
                    Ok(media) => r matches Ok(Some(resultados)) && estados_dos_fluxos(
                        resultados.fluxos@,
                    ) == fluxos && resultados.renda_media@ == media,
                }
            },
        },
{
    let inicios = inicios_de_analise(titulo, periodo_total, passo_inicio);
    let n = inicios.len();
    let mut fluxos: Vec<FluxoInvestimento<'a>> = Vec::new();
    let mut rendas: Vec<RendaReal> = Vec::new();
    let mut i: usize = 0;
    proof {
        assert(estados_dos_fluxos(fluxos@) =~= Seq::<EstadoFluxo>::empty());
        assert(series_das_rendas(rendas@) =~= Seq::<Seq<Decimal<2>>>::empty());
    }
    while i < n
        invariant
            0 <= i <= n,
            n == inicios@.len(),
            n == numero_de_inicios(*titulo, periodo_total, passo_inicio),
            forall|k: int|
                0 <= k < inicios@.len() ==> (#[trigger] inicios@[k]).num == titulo.inicio_dado.num
                    + k * passo_inicio.dias,
            testes_no_titulo(
                estrategia,
                inflacao.indices(),
                *titulo,
                periodo_total,
                passo_inicio,
                valor_inicio,
                carencia,
                i as int,
            ) == Ok::<(Seq<EstadoFluxo>, Seq<Seq<Decimal<2>>>), Erro>(
                (estados_dos_fluxos(fluxos@), series_das_rendas(rendas@)),
            ),
        decreases n - i,
    {
        let dia = inicios[i];
        proof {
            assert(dia == Dia {
                num: (titulo.inicio_dado.num + ((i + 1) - 1) * passo_inicio.dias) as i32,
            });
        }
        let ghost fluxos_antes = fluxos@;
        let ghost rendas_antes = rendas@;
        match testar_estrategia_para_fluxo(
            estrategia,
            inflacao,
            titulo,
            dia,
            valor_inicio,
            periodo_total,
            carencia,
        ) {
            Err(erro) => {
                proof {
                    lema_testes_erro_persiste(
                        estrategia,
                        inflacao.indices(),
                        *titulo,
                        periodo_total,
                        passo_inicio,
                        valor_inicio,
                        carencia,
                        i as int + 1,
                        n as int,
                    );
                }
                return Err(erro);
            },
            Ok(None) => {},
            Ok(Some(resultado)) => {
                fluxos.push(resultado.fluxo);
                rendas.push(resultado.renda);
                proof {
                    assert(estados_dos_fluxos(fluxos@) =~= estados_dos_fluxos(fluxos_antes).push(
                        fluxos@.last()@,
                    ));
                    assert(series_das_rendas(rendas@) =~= series_das_rendas(rendas_antes).push(
                        rendas@.last()@,
                    ));
                }
            },
        }
        i = i + 1;
    }
    if rendas.len() == 0 {
        return Ok(None);
    }
    match RendaReal::media_de_rendas(rendas.as_slice()) {
        Ok(renda_media) => Ok(Some(ResultadosDeEstrategia { fluxos, renda_media })),
        Err(erro) => Err(erro),
    }
}

/// Once a test has failed, the tests stay failed however many days follow.
pub proof fn lema_testes_erro_persiste<E: Estrategia + ?Sized>(
    estrategia: &E,
    indices: Seq<(Dia, Decimal<2>)>,
    titulo: Titulo,
    periodo_total: Duracao,
    passo_inicio: Duracao,
    valor_inicio: Decimal<2>,
    carencia: Duracao,
    quantos: int,
    total: int,
)
    requires
        0 <= quantos <= total,
        testes_no_titulo(
            estrategia,
            indices,
            titulo,
            periodo_total,
            passo_inicio,
            valor_inicio,
            carencia,
            quantos,
        ) is Err,
    ensures
        testes_no_titulo(
            estrategia,
            indices,
            titulo,
            periodo_total,
            passo_inicio,
            valor_inicio,
            carencia,
            total,
        ) == testes_no_titulo(
            estrategia,
            indices,
            titulo,
            periodo_total,
            passo_inicio,
            valor_inicio,
            carencia,
            quantos,
        ),
    decreases total - quantos,
{
    if quantos < total {
        lema_testes_erro_persiste(
            estrategia,
            indices,
            titulo,
            periodo_total,
            passo_inicio,
            valor_inicio,
            carencia,
            quantos,
            total - 1,
        );
    }
}

} // verus!
