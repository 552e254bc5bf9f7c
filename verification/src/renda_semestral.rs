//! The real income of a flow, half year by half year.

use crate::decimal::arredondar;
use crate::decimal::dividir_arredondando;
use crate::decimal::saturar;
use crate::decimal::saturar_i128;
use crate::decimal::Decimal;
use crate::dia::Dia;
use crate::erro::Erro;
use crate::fluxo_investimento::EventoInvestimento;
use crate::fluxo_investimento::FluxoInvestimento;
use crate::fluxo_investimento::TipoEvento;
use crate::inflacao::corrigido;
use crate::inflacao::Inflacao;
use vstd::prelude::*;

verus! {

/// The days of a half year.
pub const DIAS_DO_SEMESTRE: i64 = 180;

/// The net income of a flow in money of one day, in spans of 180 days.
#[derive(Debug, Clone)]
pub struct RendaReal {
    semestres: Vec<Decimal<2>>,
}

/// The number of half years, whole or begun, from `inicio` to `fim`.
pub open spec fn numero_de_semestres(inicio: Dia, fim: Dia) -> int {
    let dias = fim.num - inicio.num;
    if dias <= 0 {
        0
    } else {
        (dias + 179) / 180
    }
}

/// The half year in which `dia` falls, counted from `inicio`; a day before
/// `inicio` falls in the first.
pub open spec fn semestre_do_dia(dia: Dia, inicio: Dia) -> int {
    let dias = dia.num - inicio.num;
    if dias <= 0 {
        0
    } else {
        dias / 180
    }
}

/// The half years once the given events are counted, in their order: the
/// net amount of each sale and coupon, corrected to `inicio`, joins the
/// half year of its day; purchases count for nothing. The first event that
/// falls after the last half year, or that cannot be corrected, ends the
/// count.
pub open spec fn acumular_rendas(
    semestres: Seq<Decimal<2>>,
    indices: Seq<(Dia, Decimal<2>)>,
    eventos: Seq<EventoInvestimento>,
    inicio: Dia,
) -> Result<Seq<Decimal<2>>, Erro>
    decreases eventos.len(),
{
    if eventos.len() == 0 {
        Ok(semestres)
    } else {
        match acumular_rendas(semestres, indices, eventos.drop_last(), inicio) {
            Err(erro) => Err(erro),
            Ok(anteriores) => {
                let evento = eventos.last();
                let semestre = semestre_do_dia(evento.dia, inicio);
                if evento.tipo is Compra {
                    Ok(anteriores)
                } else if semestre >= anteriores.len() {
                    Err(Erro::EventoForaDoPeriodo)
                } else {
                    match corrigido(indices, evento.valor_liquido, evento.dia, inicio) {
                        None => Err(Erro::InflacaoIndisponivel),
                        Some(renda) => Ok(
                            anteriores.update(semestre, anteriores[semestre].soma_saturada(renda)),
                        ),
                    }
                }
            },
        }
    }
}

/// The real income that the events give from `inicio` to `fim`.
pub open spec fn renda_dos_eventos(
    indices: Seq<(Dia, Decimal<2>)>,
    eventos: Seq<EventoInvestimento>,
    inicio: Dia,
    fim: Dia,
) -> Result<Seq<Decimal<2>>, Erro> {
    acumular_rendas(
        Seq::new(numero_de_semestres(inicio, fim) as nat, |i: int| Decimal::<2>(0)),
        indices,
        eventos,
        inicio,
    )
}

/// The half year numbered `semestre` of each of the first `quantas`
/// series, added up in their order.
pub open spec fn soma_do_semestre(series: Seq<Seq<Decimal<2>>>, quantas: int, semestre: int) -> Decimal<
    2,
>
    decreases quantas,
{
    if quantas <= 0 {
        Decimal::<2>(0)
    } else {
        soma_do_semestre(series, quantas - 1, semestre).soma_saturada(
            series[quantas - 1][semestre],
        )
    }
}

/// Whether the series are all as long as the first.
pub open spec fn mesmo_tamanho(series: Seq<Seq<Decimal<2>>>) -> bool {
    forall|j: int| 0 <= j < series.len() ==> (#[trigger] series[j]).len() == series[0].len()
}

/// The average of the series, half year by half year: the amounts of each
/// half year added up and divided by the number of series, rounded down.
/// There is none of no series, nor of series that differ in length.
pub open spec fn media_das_series(series: Seq<Seq<Decimal<2>>>) -> Result<Seq<Decimal<2>>, Erro> {
    if series.len() == 0 {
        Err(Erro::SemRendas)
    } else if !mesmo_tamanho(series) {
        Err(Erro::TamanhosDiferentes)
    } else {
        Ok(
            Seq::new(
                series[0].len(),
                |i: int|
                    soma_do_semestre(series, series.len() as int, i).dividido_por(
                        series.len() as i64,
                    ),
            ),
        )
    }
}

/// The half years of each series.
pub open spec fn series_das_rendas(rendas: Seq<RendaReal>) -> Seq<Seq<Decimal<2>>> {
    Seq::new(rendas.len(), |j: int| rendas[j]@)
}

/// The amounts of the first `quantos` half years, added up exactly.
pub open spec fn soma_exata(semestres: Seq<Decimal<2>>, quantos: int) -> int
    decreases quantos,
{
    if quantos <= 0 {
        0
    } else {
        soma_exata(semestres, quantos - 1) + semestres[quantos - 1].0
    }
}

/// The average of the amounts: their sum over their number, rounded to
/// the nearest unit; zero for no amount.
pub open spec fn media_dos_semestres(semestres: Seq<Decimal<2>>) -> i64 {
    if semestres.len() == 0 {
        0
    } else {
        saturar(arredondar(soma_exata(semestres, semestres.len() as int), semestres.len() as int))
    }
}

/// The squares of the distances of the first `quantos` amounts from
/// `media`, added up.
pub open spec fn soma_dos_desvios(semestres: Seq<Decimal<2>>, media: int, quantos: int) -> int
    decreases quantos,
{
    if quantos <= 0 {
        0
    } else {
        soma_dos_desvios(semestres, media, quantos - 1) + (semestres[quantos - 1].0 - media) * (
        semestres[quantos - 1].0 - media)
    }
}

/// The sample variance of the amounts about their average: the sum of the
/// squared distances from the average over one less than their number, in
/// squared units of money, to the nearest hundredth. It is zero for fewer
/// than two amounts.
pub open spec fn variancia_dos_semestres(semestres: Seq<Decimal<2>>) -> i64 {
    if semestres.len() < 2 {
        0
    } else {
        saturar(
            arredondar(
                soma_dos_desvios(
                    semestres,
                    media_dos_semestres(semestres) as int,
                    semestres.len() as int,
                ),
                100 * (semestres.len() - 1),
            ),
        )
    }
}

/// The largest sum of squares that the variance is computed for: 2^126.
pub open spec fn limite_dos_desvios() -> int {
    0x4000_0000_0000_0000_0000_0000_0000_0000
}

/// The squares add up to more as more amounts are counted.
pub proof fn lema_desvios_crescem(semestres: Seq<Decimal<2>>, media: int, a: int, b: int)
    requires
        a <= b,
    ensures
        0 <= soma_dos_desvios(semestres, media, a) <= soma_dos_desvios(semestres, media, b),
    decreases b,
{
    if b > 0 {
        let d = semestres[b - 1].0 - media;
        assert(d * d >= 0) by (nonlinear_arith);
        if a < b {
            lema_desvios_crescem(semestres, media, a, b - 1);
        } else {
            lema_desvios_crescem(semestres, media, a - 1, b - 1);
        }
    }
}

impl View for RendaReal {
    type V = Seq<Decimal<2>>;

    closed spec fn view(&self) -> Seq<Decimal<2>> {
        self.semestres@
    }
}

impl RendaReal {
    /// The real income of the flow from `inicio` to `fim`, in money of
    /// `inicio`: one amount for each span of 180 days, whole or begun. It
    /// fails where a sale or a coupon falls after the last span, or the
    /// index cannot correct it.
    pub fn new(inflacao: &Inflacao, fluxo: &FluxoInvestimento, inicio: Dia, fim: Dia) -> (r:
        Result<Self, Erro>)
        ensures
            match renda_dos_eventos(inflacao.indices(), fluxo@.eventos, inicio, fim) {
                Ok(semestres) => r matches Ok(renda) && renda@ == semestres,
                Err(erro) => r matches Err(e) && e == erro,
            },
            r matches Ok(renda) ==> renda@.len() == numero_de_semestres(inicio, fim),
    {
        let dias = fim.dias_desde(inicio);
        let num_semestres: usize = if dias <= 0 {
            0
        } else {
            ((dias + 179) / DIAS_DO_SEMESTRE) as usize
        };
        let mut semestres: Vec<Decimal<2>> = Vec::new();
        let mut k: usize = 0;
        while k < num_semestres
            invariant
                0 <= k <= num_semestres,
                semestres@ == Seq::new(k as nat, |i: int| Decimal::<2>(0)),
            decreases num_semestres - k,
        {
            semestres.push(Decimal::zero());
            proof {
                assert(semestres@ =~= Seq::new((k + 1) as nat, |i: int| Decimal::<2>(0)));
            }
            k = k + 1;
        }
        let ghost zeros = semestres@;
        let eventos = fluxo.eventos();
        let n = eventos.len();
        let mut i: usize = 0;
        proof {
            assert(eventos@.take(0) =~= Seq::<EventoInvestimento>::empty());
        }
        while i < n
            invariant
                0 <= i <= n,
                n == eventos@.len(),
                eventos@ == fluxo@.eventos,
                zeros.len() == num_semestres,
                semestres@.len() == num_semestres,
                acumular_rendas(zeros, inflacao.indices(), eventos@.take(i as int), inicio) == Ok::<
                    Seq<Decimal<2>>,
                    Erro,
                >(semestres@),
                zeros == Seq::new(numero_de_semestres(inicio, fim) as nat, |i: int| Decimal::<2>(0)),
            decreases n - i,
        {
            let evento = eventos[i];
            proof {
                assert(eventos@.take(i as int + 1).drop_last() =~= eventos@.take(i as int));
                assert(eventos@.take(i as int + 1).last() == evento);
            }
            match evento.tipo {
                TipoEvento::Compra => {},
                TipoEvento::Venda | TipoEvento::Cupom => {
                    let dias_do_evento = evento.dia.dias_desde(inicio);
                    let semestre: i64 = if dias_do_evento <= 0 {
                        0
                    } else {
                        dias_do_evento / DIAS_DO_SEMESTRE
                    };
                    if semestre >= num_semestres as i64 {
                        proof {
                            lema_acumular_erro_persiste(
                                zeros,
                                inflacao.indices(),
                                eventos@,
                                inicio,
                                i as int + 1,
                            );
                        }
                        return Err(Erro::EventoForaDoPeriodo);
                    }
                    let renda_real = match inflacao.corrigir(
                        evento.valor_liquido,
                        evento.dia,
                        inicio,
                    ) {
                        Some(renda) => renda,
                        None => {
                            proof {
                                lema_acumular_erro_persiste(
                                    zeros,
                                    inflacao.indices(),
                                    eventos@,
                                    inicio,
                                    i as int + 1,
                                );
                            }
                            return Err(Erro::InflacaoIndisponivel);
                        },
                    };
                    let anterior = semestres[semestre as usize];
                    semestres.set(semestre as usize, anterior.saturating_add(renda_real));
                },
            }
            i = i + 1;
        }
        proof {
            assert(eventos@.take(n as int) =~= eventos@);
        }
        Ok(RendaReal { semestres })
    }

    /// The average of the series, half year by half year: the amounts of
    /// each half year added up and divided by the number of series, rounded
    /// down. The series must be of one length, and at least one.
    pub fn media_de_rendas(rendas: &[Self]) -> (r: Result<Self, Erro>)
        ensures
            match media_das_series(series_das_rendas(rendas@)) {
                Ok(semestres) => r matches Ok(media) && media@ == semestres,
                Err(erro) => r matches Err(e) && e == erro,
            },
    {
        let ghost series = series_das_rendas(rendas@);
        let quantas = rendas.len();
        if quantas == 0 {
            return Err(Erro::SemRendas);
        }
        let tamanho = rendas[0].semestres.len();
        let mut j: usize = 1;
        while j < quantas
            invariant
                1 <= j <= quantas,
                quantas == rendas@.len(),
                series == series_das_rendas(rendas@),
                tamanho == series[0].len(),
                forall|k: int| 0 <= k < j ==> (#[trigger] series[k]).len() == tamanho,
            decreases quantas - j,
        {
            if rendas[j].semestres.len() != tamanho {
                proof {
                    assert(series[j as int].len() != series[0].len());
                }
                return Err(Erro::TamanhosDiferentes);
            }
            j = j + 1;
        }
        let mut semestres: Vec<Decimal<2>> = Vec::new();
        let mut i: usize = 0;
        while i < tamanho
            invariant
                0 <= i <= tamanho,
                0 < quantas == rendas@.len(),
                series == series_das_rendas(rendas@),
                forall|k: int| 0 <= k < quantas ==> (#[trigger] series[k]).len() == tamanho,
                semestres@.len() == i,
                forall|k: int|
                    0 <= k < i ==> semestres@[k] == soma_do_semestre(
                        series,
                        quantas as int,
                        k,
                    ).dividido_por(quantas as i64),
            decreases tamanho - i,
        {
            let mut soma: Decimal<2> = Decimal::zero();
            let mut j: usize = 0;
            while j < quantas
                invariant
                    0 <= j <= quantas,
                    0 <= i < tamanho,
                    quantas == rendas@.len(),
                    series == series_das_rendas(rendas@),
                    forall|k: int| 0 <= k < quantas ==> (#[trigger] series[k]).len() == tamanho,
                    soma == soma_do_semestre(series, j as int, i as int),
                decreases quantas - j,
            {
                proof {
                    assert(series[j as int] == rendas@[j as int]@);
                }
                soma = soma.saturating_add(rendas[j].semestres[i]);
                j = j + 1;
            }
            semestres.push(soma / (quantas as i64));
            i = i + 1;
        }
        proof {
            assert(semestres@ =~= media_das_series(series)->Ok_0);
        }
        Ok(RendaReal { semestres })
    }

    /// The amounts, half year by half year.
    pub fn semestres(&self) -> (r: &[Decimal<2>])
        ensures
            r@ == self@,
    {
        self.semestres.as_slice()
    }

    /// The sum of the half years, stopped at the ends of the range.
    pub fn total(&self) -> (r: Decimal<2>)
        ensures
            r.0 == saturar(soma_exata(self@, self@.len() as int)),
    {
        Decimal(saturar_i128(self.somar()))
    }

    fn somar(&self) -> (soma: i128)
        ensures
            soma == soma_exata(self@, self@.len() as int),
            -0x8000_0000_0000_0000 * self@.len() <= soma <= 0x8000_0000_0000_0000 * self@.len(),
    {
        let n = self.semestres.len();
        let mut soma: i128 = 0;
        let mut i: usize = 0;
        while i < n
            invariant
                0 <= i <= n,
                n == self@.len(),
                self@ == self.semestres@,
                soma == soma_exata(self@, i as int),
                -0x8000_0000_0000_0000 * i <= soma <= 0x8000_0000_0000_0000 * i,
            decreases n - i,
        {
            soma = soma + self.semestres[i].0 as i128;
            i = i + 1;
        }
        soma
    }

    /// The average half year: the sum of the amounts over their number,
    /// rounded to the nearest unit; zero for a series of no half year.
    pub fn media(&self) -> (r: Decimal<2>)
        ensures
            r.0 == media_dos_semestres(self@),
    {
        let n = self.semestres.len();
        if n == 0 {
            Decimal::zero()
        } else {
            let soma = self.somar();
            Decimal(saturar_i128(dividir_arredondando(soma, n as i128)))
        }
    }
}

impl RendaReal {
    /// The sum of the squared distances of the half years from their
    /// average, or `None` where it exceeds 2^126.
    fn somar_desvios(&self) -> (r: Option<u128>)
        ensures
            match r {
                Some(soma) => soma == soma_dos_desvios(
                    self@,
                    media_dos_semestres(self@) as int,
                    self@.len() as int,
                ) && soma <= limite_dos_desvios(),
                None => soma_dos_desvios(
                    self@,
                    media_dos_semestres(self@) as int,
                    self@.len() as int,
                ) > limite_dos_desvios(),
            },
    {
        let n = self.semestres.len();
        let media: i128 = self.media().0 as i128;
        let mut soma: u128 = 0;
        let mut i: usize = 0;
        while i < n
            invariant
                0 <= i <= n,
                n == self@.len(),
                self@ == self.semestres@,
                media == media_dos_semestres(self@),
                soma == soma_dos_desvios(self@, media as int, i as int),
                soma <= limite_dos_desvios(),
            decreases n - i,
        {
            let desvio: i128 = self.semestres[i].0 as i128 - media;
            proof {
                lema_desvios_crescem(self@, media as int, i as int + 1, n as int);
                lema_desvios_crescem(self@, media as int, i as int, i as int + 1);
            }
            if desvio > 0x8000_0000_0000_0000 || desvio < -0x8000_0000_0000_0000 {
                proof {
                    assert(desvio * desvio > limite_dos_desvios()) by (nonlinear_arith)
                        requires
                            desvio > 0x8000_0000_0000_0000 || desvio < -0x8000_0000_0000_0000,
                            limite_dos_desvios() == 0x4000_0000_0000_0000_0000_0000_0000_0000,
                    ;
                }
                return None;
            }
            assert(0 <= desvio * desvio <= 0x4000_0000_0000_0000_0000_0000_0000_0000)
                by (nonlinear_arith)
                requires
                    -0x8000_0000_0000_0000 <= desvio <= 0x8000_0000_0000_0000,
            ;
            let quadrado: i128 = desvio * desvio;
            let nova: u128 = soma + quadrado as u128;
            if nova > 0x4000_0000_0000_0000_0000_0000_0000_0000 {
                return None;
            }
            soma = nova;
            i = i + 1;
        }
        Some(soma)
    }

    /// The sample variance of the half years about their average: the sum
    /// of the squared distances from the average over one less than the
    /// number of half years. It is zero for fewer than two half years. The
    /// sum of the squares must not exceed 2^126.
    pub fn variancia(&self) -> (r: Decimal<2>)
        requires
            soma_dos_desvios(self@, media_dos_semestres(self@) as int, self@.len() as int)
                <= limite_dos_desvios(),
        ensures
            r.0 == variancia_dos_semestres(self@),
    {
        match self.tentar_variancia() {
            Some(variancia) => variancia,
            None => Decimal::zero(),
        }
    }

    /// The sample variance of the half years about their average, as
    /// `variancia` gives it, or `None` where the sum of the squares exceeds
    /// 2^126.
    pub fn tentar_variancia(&self) -> (r: Option<Decimal<2>>)
        ensures
            r is Some <==> soma_dos_desvios(
                self@,
                media_dos_semestres(self@) as int,
                self@.len() as int,
            ) <= limite_dos_desvios(),
            r matches Some(variancia) ==> variancia.0 == variancia_dos_semestres(self@),
    {
        let n = self.semestres.len();
        match self.somar_desvios() {
            None => None,
            Some(soma) => {
                if n < 2 {
                    Some(Decimal::zero())
                } else {
                    let divisor: i128 = 100 * (n as i128 - 1);
                    Some(Decimal(saturar_i128(dividir_arredondando(soma as i128, divisor))))
                }
            },
        }
    }
}

/// Once the count of the events has failed, it stays failed however many
/// events follow; so a count that succeeds has succeeded at every step.
pub proof fn lema_acumular_erro_persiste(
    semestres: Seq<Decimal<2>>,
    indices: Seq<(Dia, Decimal<2>)>,
    eventos: Seq<EventoInvestimento>,
    inicio: Dia,
    quantos: int,
)
    requires
        0 <= quantos <= eventos.len(),
        acumular_rendas(semestres, indices, eventos.take(quantos), inicio) is Err,
    ensures
        acumular_rendas(semestres, indices, eventos, inicio) == acumular_rendas(
            semestres,
            indices,
            eventos.take(quantos),
            inicio,
        ),
    decreases eventos.len() - quantos,
{
    if quantos < eventos.len() {
        assert(eventos.take(quantos + 1).drop_last() =~= eventos.take(quantos));
        lema_acumular_erro_persiste(semestres, indices, eventos, inicio, quantos + 1);
    } else {
        assert(eventos.take(quantos) =~= eventos);
    }
}

} // verus!
