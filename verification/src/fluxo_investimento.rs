//! The flow of one investment: purchases, sales and coupons of one bond,
//! with the lots still held and the ledger of what happened.
//!
//! Lots are sold first in, first out. Days never go back: an operation
//! dated before the last day that the flow has seen is refused.

use crate::decimal::cabe;
use crate::decimal::mudar_escala;
use crate::decimal::Decimal;
use crate::dia::Dia;
use crate::erro::Erro;
use crate::impostos_e_taxas::imposto_de_cupom;
use crate::impostos_e_taxas::impostos_de_resgate;
use crate::impostos_e_taxas::ImpostosETaxas;
use crate::impostos_e_taxas::SaldoAtivo;
use crate::quantidade_ou_valor::QuantidadeOuValor;
use crate::serie_temporal::entradas_antes;
use crate::serie_temporal::lema_entradas_antes;
use crate::serie_temporal::primeira_a_partir;
use crate::serie_temporal::valor_em;
use crate::titulo::dia_maximo;
use crate::titulo::Titulo;
use std::collections::VecDeque;
use vstd::prelude::*;

verus! {

/// What an event records.
#[derive(Debug, Clone, Copy, PartialEq, Eq, Hash, Structural)]
pub enum TipoEvento {
    Compra,
    Venda,
    Cupom,
}

/// One entry of the ledger.
#[derive(Debug, Clone, Copy, PartialEq, Eq)]
pub struct EventoInvestimento {
    pub dia: Dia,
    pub tipo: TipoEvento,
    pub valor_bruto: Decimal<2>,
    pub quantidade: Decimal<2>,
    pub preco: Decimal<6>,
    /// The balance after the event.
    pub saldo_quantidade: Decimal<2>,
    pub impostos_e_taxas: ImpostosETaxas,
    /// The gross amount less the charges.
    pub valor_liquido: Decimal<2>,
}

/// The flow of one investment in one bond.
#[derive(Debug)]
pub struct FluxoInvestimento<'a> {
    titulo: &'a Titulo,
    ultimo_dia: Option<Dia>,
    saldo_quantidade: Decimal<2>,
    eventos: Vec<EventoInvestimento>,
    /// The lots still held, the newest first.
    saldos_ativos: VecDeque<SaldoAtivo>,
}

/// What a flow holds, apart from its bond.
pub struct EstadoFluxo {
    /// The last day that the flow has seen.
    pub ultimo_dia: Option<Dia>,
    /// The quantity held.
    pub saldo: Decimal<2>,
    /// The ledger, in the order in which things happened.
    pub eventos: Seq<EventoInvestimento>,
    /// The lots still held, the newest first.
    pub lotes: Seq<SaldoAtivo>,
}

/// What becomes of the lots when a quantity is taken from them.
pub enum Consumo {
    /// The quantity was covered: the lots that stay, and what was taken,
    /// the oldest first.
    Feito { restantes: Seq<SaldoAtivo>, resgates: Seq<SaldoAtivo> },
    /// The lots ran out first.
    Esgotado,
    /// What was still to take left the range of amounts.
    Estouro,
}

/// The quantities of the lots, added up.
pub open spec fn soma_dos_lotes(lotes: Seq<SaldoAtivo>) -> int
    decreases lotes.len(),
{
    if lotes.len() == 0 {
        0
    } else {
        soma_dos_lotes(lotes.drop_last()) + lotes.last().quantidade.0
    }
}

/// Takes `falta` from the lots, the oldest first, which is the last of
/// the sequence. A lot smaller than what is still to take goes whole; the
/// lot that covers the rest stays, with what is left of it.
pub open spec fn consumir(lotes: Seq<SaldoAtivo>, falta: int) -> Consumo
    decreases lotes.len(),
{
    if falta <= 0 {
        Consumo::Feito { restantes: lotes, resgates: Seq::empty() }
    } else if lotes.len() == 0 {
        Consumo::Esgotado
    } else {
        let lote = lotes.last();
        if lote.quantidade.0 > falta {
            Consumo::Feito {
                restantes: lotes.drop_last().push(
                    SaldoAtivo { quantidade: Decimal((lote.quantidade.0 - falta) as i64), ..lote },
                ),
                resgates: seq![SaldoAtivo { quantidade: Decimal(falta as i64), ..lote }],
            }
        } else if !cabe(falta - lote.quantidade.0) {
            Consumo::Estouro
        } else {
            match consumir(lotes.drop_last(), falta - lote.quantidade.0) {
                Consumo::Feito { restantes, resgates } => Consumo::Feito {
                    restantes,
                    resgates: seq![lote] + resgates,
                },
                outro => outro,
            }
        }
    }
}

/// The ledger entry of a coupon of `preco` a bond, paid on `dia` to a flow
/// that holds `saldo` in the given lots.
pub open spec fn evento_de_cupom(
    dia: Dia,
    preco: Decimal<6>,
    saldo: Decimal<2>,
    lotes: Seq<SaldoAtivo>,
) -> EventoInvestimento {
    let valor = saldo.vezes(preco);
    let impostos = ImpostosETaxas {
        imposto_operacao_financeira: Decimal(0),
        imposto_renda: imposto_de_cupom(lotes, preco, dia),
        taxa_custodia: Decimal(0),
    };
    EventoInvestimento {
        dia,
        tipo: TipoEvento::Cupom,
        valor_bruto: valor,
        quantidade: saldo,
        preco,
        saldo_quantidade: saldo,
        impostos_e_taxas: impostos,
        valor_liquido: valor.diferenca_saturada(impostos.soma()),
    }
}

/// The coupons of the series that fall after `apos` and on or before `ate`.
pub open spec fn cupons_entre(serie: Seq<(Dia, Decimal<6>)>, apos: Dia, ate: Dia) -> Seq<
    (Dia, Decimal<6>),
> {
    let de = entradas_antes(serie, apos.num + 1);
    let fim = entradas_antes(serie, ate.num + 1);
    if de < fim {
        serie.subrange(de, fim)
    } else {
        Seq::empty()
    }
}

/// The ledger entries of the given coupons.
pub open spec fn eventos_de_cupons(
    cupons: Seq<(Dia, Decimal<6>)>,
    saldo: Decimal<2>,
    lotes: Seq<SaldoAtivo>,
) -> Seq<EventoInvestimento> {
    Seq::new(cupons.len(), |i: int| evento_de_cupom(cupons[i].0, cupons[i].1, saldo, lotes))
}

/// The ledger entry of a purchase.
pub open spec fn evento_de_compra(
    dia: Dia,
    preco: Decimal<2>,
    quantidade: Decimal<2>,
    valor: Decimal<2>,
    saldo: Decimal<2>,
) -> EventoInvestimento {
    EventoInvestimento {
        dia,
        tipo: TipoEvento::Compra,
        valor_bruto: valor,
        quantidade,
        preco: Decimal(mudar_escala(preco.0 as int, 2, 6)),
        saldo_quantidade: saldo,
        impostos_e_taxas: ImpostosETaxas::nada(),
        valor_liquido: valor,
    }
}

/// The ledger entry of a sale of the given lots.
pub open spec fn evento_de_venda(
    dia: Dia,
    preco: Decimal<2>,
    quantidade: Decimal<2>,
    valor: Decimal<2>,
    saldo: Decimal<2>,
    resgates: Seq<SaldoAtivo>,
) -> EventoInvestimento {
    let impostos = impostos_de_resgate(resgates, preco, dia);
    EventoInvestimento {
        dia,
        tipo: TipoEvento::Venda,
        valor_bruto: valor,
        quantidade,
        preco: Decimal(mudar_escala(preco.0 as int, 2, 6)),
        saldo_quantidade: saldo,
        impostos_e_taxas: impostos,
        valor_liquido: valor.diferenca_saturada(impostos.soma()),
    }
}

impl EstadoFluxo {
    /// The state of a flow in which nothing has happened.
    pub open spec fn vazio() -> EstadoFluxo {
        EstadoFluxo {
            ultimo_dia: None,
            saldo: Decimal(0),
            eventos: Seq::empty(),
            lotes: Seq::empty(),
        }
    }

    /// Whether the lots are in the order of their purchase, the newest
    /// first, and none was bought after the last day seen. Every flow is
    /// so: a new one is, and no operation undoes it.
    pub open spec fn bem_formado(self) -> bool {
        lotes_em_ordem(self.lotes, self.ultimo_dia)
    }

    /// Whether the lots add up to the balance.
    pub open spec fn conservado(self) -> bool {
        soma_dos_lotes(self.lotes) == self.saldo.0
    }

    /// Whether an operation on `dia` would go back in time.
    pub open spec fn dia_fora_de_ordem(self, dia: Dia) -> bool {
        self.ultimo_dia matches Some(ultimo) && dia.num < ultimo.num
    }

    /// The state once the coupons through `ate`, that day included, are
    /// paid. A flow that has seen no day yet only takes note of `ate`.
    /// Otherwise each coupon after the last day seen and on or before `ate`
    /// enters the ledger, and the last day seen moves forward to `ate`,
    /// never back.
    pub open spec fn com_cupons(self, titulo: Titulo, ate: Dia) -> EstadoFluxo {
        match self.ultimo_dia {
            None => EstadoFluxo { ultimo_dia: Some(ate), ..self },
            Some(ultimo) => EstadoFluxo {
                ultimo_dia: Some(dia_maximo(ate, ultimo)),
                eventos: self.eventos + eventos_de_cupons(
                    cupons_entre(titulo.cupom@, ultimo, ate),
                    self.saldo,
                    self.lotes,
                ),
                ..self
            },
        }
    }

    /// A purchase on the first day on or after `dia_minimo` for which the
    /// bond has a purchase price: whether it succeeds, and the state after
    /// it. A refused purchase leaves the state as it was.
    #[verifier::opaque]
    pub open spec fn comprar(self, titulo: Titulo, dia_minimo: Dia, qv: QuantidadeOuValor) -> (
        Result<(), Erro>,
        EstadoFluxo,
    ) {
        if self.dia_fora_de_ordem(dia_minimo) {
            (Err(Erro::DiaForaDeOrdem), self)
        } else {
            match primeira_a_partir(titulo.preco_compra@, dia_minimo) {
                None => (Err(Erro::PrecoIndisponivel), self),
                Some((dia, preco)) => {
                    let quantidade = qv.quantidade_ao_preco(preco);
                    let valor = qv.valor_ao_preco(preco);
                    if !cabe(self.saldo.0 + quantidade.0) {
                        (Err(Erro::QuantidadeForaDosLimites), self)
                    } else {
                        let com_cupons = self.com_cupons(titulo, dia);
                        let saldo = Decimal::<2>((self.saldo.0 + quantidade.0) as i64);
                        (
                            Ok(()),
                            EstadoFluxo {
                                ultimo_dia: com_cupons.ultimo_dia,
                                saldo,
                                eventos: com_cupons.eventos.push(
                                    evento_de_compra(dia, preco, quantidade, valor, saldo),
                                ),
                                lotes: seq![
                                    SaldoAtivo { dia, preco_original: preco, quantidade },
                                ] + self.lotes,
                            },
                        )
                    }
                },
            }
        }
    }

    /// A sale on the first day on or after `dia_minimo` for which the bond
    /// has a sale price: whether it succeeds, and the state after it.
    ///
    /// A sale refused for its day or for want of a price leaves the state
    /// as it was. After that the coupons through the day of the sale are
    /// paid, and they stay paid if the sale is then refused. A sale that
    /// finds the lots short of the balance leaves the balance reduced and
    /// no lot.
    #[verifier::opaque]
    pub open spec fn vender(self, titulo: Titulo, dia_minimo: Dia, qv: QuantidadeOuValor) -> (
        Result<(), Erro>,
        EstadoFluxo,
    ) {
        if self.dia_fora_de_ordem(dia_minimo) {
            (Err(Erro::DiaForaDeOrdem), self)
        } else {
            match primeira_a_partir(titulo.preco_venda@, dia_minimo) {
                None => (Err(Erro::PrecoIndisponivel), self),
                Some((dia, preco)) => {
                    let com_cupons = self.com_cupons(titulo, dia);
                    let quantidade = qv.quantidade_ao_preco(preco);
                    let valor = qv.valor_ao_preco(preco);
                    if self.saldo.0 < quantidade.0 {
                        (Err(Erro::SaldoInsuficiente), com_cupons)
                    } else if !cabe(self.saldo.0 - quantidade.0) {
                        (Err(Erro::QuantidadeForaDosLimites), com_cupons)
                    } else {
                        let saldo = Decimal::<2>((self.saldo.0 - quantidade.0) as i64);
                        match consumir(self.lotes, quantidade.0 as int) {
                            Consumo::Estouro => (
                                Err(Erro::QuantidadeForaDosLimites),
                                com_cupons,
                            ),
                            Consumo::Esgotado => (
                                Err(Erro::SaldoInconsistente),
                                EstadoFluxo { saldo, lotes: Seq::empty(), ..com_cupons },
                            ),
                            Consumo::Feito { restantes, resgates } => (
                                Ok(()),
                                EstadoFluxo {
                                    ultimo_dia: com_cupons.ultimo_dia,
                                    saldo,
                                    eventos: com_cupons.eventos.push(
                                        evento_de_venda(
                                            dia,
                                            preco,
                                            quantidade,
                                            valor,
                                            saldo,
                                            resgates,
                                        ),
                                    ),
                                    lotes: restantes,
                                },
                            ),
                        }
                    }
                },
            }
        }
    }
}

/// Whether the lots are in the order of their purchase, the newest first,
/// and none was bought after `ultimo_dia`.
pub open spec fn lotes_em_ordem(lotes: Seq<SaldoAtivo>, ultimo_dia: Option<Dia>) -> bool {
    &&& forall|i: int, j: int|
        0 <= i < j < lotes.len() ==> lotes[i].dia.num >= lotes[j].dia.num
    &&& forall|i: int|
        0 <= i < lotes.len() ==> (ultimo_dia matches Some(ultimo) && (#[trigger] lotes[i]).dia.num
            <= ultimo.num)
}

/// Whether the request comes to a quantity that is not negative, at the
/// price of the first day on or after `dia_minimo`.
pub open spec fn pedido_nao_negativo(
    precos: Seq<(Dia, Decimal<2>)>,
    dia_minimo: Dia,
    qv: QuantidadeOuValor,
) -> bool {
    match primeira_a_partir(precos, dia_minimo) {
        Some((dia, preco)) => qv.quantidade_ao_preco(preco).0 >= 0,
        None => true,
    }
}

/// `consumir` with `antes` put before what it takes.
pub open spec fn apos_resgates(antes: Seq<SaldoAtivo>, consumo: Consumo) -> Consumo {
    match consumo {
        Consumo::Feito { restantes, resgates } => Consumo::Feito {
            restantes,
            resgates: antes + resgates,
        },
        outro => outro,
    }
}

/// Taking a quantity from the lots moves it from the lots that stay to
/// what was taken, and nothing is lost.
pub proof fn lema_consumir_conserva(lotes: Seq<SaldoAtivo>, falta: int)
    requires
        consumir(lotes, falta) is Feito,
    ensures
        soma_dos_lotes(consumir(lotes, falta)->restantes) + soma_dos_lotes(
            consumir(lotes, falta)->resgates,
        ) == soma_dos_lotes(lotes),
        falta >= 0 ==> soma_dos_lotes(consumir(lotes, falta)->resgates) == falta,
        falta <= 0 ==> consumir(lotes, falta)->resgates.len() == 0,
    decreases lotes.len(),
{
    if falta > 0 && lotes.len() > 0 {
        let lote = lotes.last();
        let resto = lotes.drop_last();
        if lote.quantidade.0 > falta {
            let reduzido = SaldoAtivo {
                quantidade: Decimal((lote.quantidade.0 - falta) as i64),
                ..lote
            };
            let tirado = SaldoAtivo { quantidade: Decimal(falta as i64), ..lote };
            assert(resto.push(reduzido).drop_last() =~= resto);
            assert(seq![tirado].drop_last() =~= Seq::<SaldoAtivo>::empty());
            assert(soma_dos_lotes(seq![tirado]) == falta) by {
                reveal_with_fuel(soma_dos_lotes, 2);
            }
        } else {
            lema_consumir_conserva(resto, falta - lote.quantidade.0);
            let interno = consumir(resto, falta - lote.quantidade.0);
            lema_soma_com_primeiro(lote, interno->resgates);
        }
    }
}

/// A lot put before others adds its quantity to theirs.
pub proof fn lema_soma_com_primeiro(lote: SaldoAtivo, lotes: Seq<SaldoAtivo>)
    ensures
        soma_dos_lotes(seq![lote] + lotes) == lote.quantidade.0 + soma_dos_lotes(lotes),
    decreases lotes.len(),
{
    let juntos = seq![lote] + lotes;
    if lotes.len() == 0 {
        assert(juntos.drop_last() =~= Seq::<SaldoAtivo>::empty());
        reveal_with_fuel(soma_dos_lotes, 2);
    } else {
        lema_soma_com_primeiro(lote, lotes.drop_last());
        assert(juntos.drop_last() =~= seq![lote] + lotes.drop_last());
        assert(juntos.last() == lotes.last());
    }
}

/// Lots that add up to at least what is asked never run out.
pub proof fn lema_consumir_nao_esgota(lotes: Seq<SaldoAtivo>, falta: int)
    requires
        soma_dos_lotes(lotes) >= falta,
    ensures
        !(consumir(lotes, falta) is Esgotado),
    decreases lotes.len(),
{
    if falta > 0 && lotes.len() > 0 {
        let lote = lotes.last();
        if lote.quantidade.0 <= falta && cabe(falta - lote.quantidade.0) {
            lema_consumir_nao_esgota(lotes.drop_last(), falta - lote.quantidade.0);
        }
    }
}

/// First in, first out. When a quantity is taken from the lots, some
/// number of the oldest lots is touched and no other: the lots that stay
/// are the newer ones, unchanged but for the oldest of them, which may have
/// given up a part; what was taken is the older lots, the oldest first,
/// each whole but for the last, which may be that part.
pub proof fn lema_consumir_fifo(lotes: Seq<SaldoAtivo>, falta: int)
    requires
        consumir(lotes, falta) is Feito,
    ensures
        ({
            let restantes = consumir(lotes, falta)->restantes;
            let resgates = consumir(lotes, falta)->resgates;
            let n = lotes.len() as int;
            &&& restantes.len() <= n
            &&& resgates.len() <= n
            &&& n <= restantes.len() + resgates.len() <= n + 1
            &&& forall|i: int| 0 <= i < restantes.len() - 1 ==> restantes[i] == lotes[i]
            &&& forall|i: int|
                0 <= i < restantes.len() ==> {
                    &&& (#[trigger] restantes[i]).dia == lotes[i].dia
                    &&& restantes[i].preco_original == lotes[i].preco_original
                    &&& restantes[i].quantidade.0 == lotes[i].quantidade.0 || 0
                        < restantes[i].quantidade.0 < lotes[i].quantidade.0
                }
            &&& forall|k: int| 0 <= k < resgates.len() - 1 ==> resgates[k] == lotes[n - 1 - k]
            &&& forall|k: int|
                0 <= k < resgates.len() ==> {
                    &&& (#[trigger] resgates[k]).dia == lotes[n - 1 - k].dia
                    &&& resgates[k].preco_original == lotes[n - 1 - k].preco_original
                    &&& resgates[k].quantidade.0 <= lotes[n - 1 - k].quantidade.0
                }
            &&& restantes.len() + resgates.len() == n + 1 ==> restantes.last().quantidade.0
                + resgates.last().quantidade.0 == lotes[restantes.len() - 1].quantidade.0
        }),
    decreases lotes.len(),
{
    if falta > 0 && lotes.len() > 0 {
        let lote = lotes.last();
        let resto = lotes.drop_last();
        if lote.quantidade.0 <= falta {
            lema_consumir_fifo(resto, falta - lote.quantidade.0);
            let interno = consumir(resto, falta - lote.quantidade.0);
            let restantes = interno->restantes;
            let resgates = seq![lote] + interno->resgates;
            let n = lotes.len() as int;
            assert forall|i: int| 0 <= i < restantes.len() implies {
                &&& (#[trigger] restantes[i]).dia == lotes[i].dia
                &&& restantes[i].preco_original == lotes[i].preco_original
                &&& restantes[i].quantidade.0 == lotes[i].quantidade.0 || 0
                    < restantes[i].quantidade.0 < lotes[i].quantidade.0
            } by {
                assert(resto[i] == lotes[i]);
            }
            assert forall|i: int| 0 <= i < restantes.len() - 1 implies restantes[i]
                == lotes[i] by {
                assert(resto[i] == lotes[i]);
            }
            assert forall|k: int| 0 <= k < resgates.len() implies {
                &&& (#[trigger] resgates[k]).dia == lotes[n - 1 - k].dia
                &&& resgates[k].preco_original == lotes[n - 1 - k].preco_original
                &&& resgates[k].quantidade.0 <= lotes[n - 1 - k].quantidade.0
            } by {
                if k > 0 {
                    assert(resgates[k] == interno->resgates[k - 1]);
                    assert(resto[n - 1 - k] == lotes[n - 1 - k]);
                }
            }
            assert forall|k: int| 0 <= k < resgates.len() - 1 implies resgates[k] == lotes[n
                - 1 - k] by {
                if k > 0 {
                    assert(resgates[k] == interno->resgates[k - 1]);
                    assert(resto[n - 1 - k] == lotes[n - 1 - k]);
                }
            }
            if restantes.len() + resgates.len() == n + 1 {
                assert(resgates.last() == interno->resgates.last());
                assert(resto[restantes.len() - 1] == lotes[restantes.len() - 1]);
            }
        }
    }
}

/// Whether `depois` is what is left of `antes` after a sale that takes the
/// oldest first: the lots that are gone are the oldest, at the end; of the
/// lots that stay, only the oldest may have given up a part, and all the
/// newer ones are as they were.
pub open spec fn vendidos_do_mais_antigo(antes: Seq<SaldoAtivo>, depois: Seq<SaldoAtivo>) -> bool {
    &&& depois.len() <= antes.len()
    &&& forall|i: int| 0 <= i < depois.len() - 1 ==> depois[i] == antes[i]
    &&& depois.len() > 0 ==> {
        let ultimo = depois.len() - 1;
        &&& depois[ultimo].dia == antes[ultimo].dia
        &&& depois[ultimo].preco_original == antes[ultimo].preco_original
        &&& depois[ultimo].quantidade.0 == antes[ultimo].quantidade.0 || 0
            < depois[ultimo].quantidade.0 < antes[ultimo].quantidade.0
    }
}

/// A purchase keeps the lots adding up to the balance.
pub proof fn lema_compra_conserva(
    estado: EstadoFluxo,
    titulo: Titulo,
    dia_minimo: Dia,
    qv: QuantidadeOuValor,
)
    requires
        estado.conservado(),
    ensures
        estado.comprar(titulo, dia_minimo, qv).1.conservado(),
{
    reveal(EstadoFluxo::comprar);
    match primeira_a_partir(titulo.preco_compra@, dia_minimo) {
        Some((dia, preco)) => {
            let quantidade = qv.quantidade_ao_preco(preco);
            lema_soma_com_primeiro(
                SaldoAtivo { dia, preco_original: preco, quantidade },
                estado.lotes,
            );
        },
        None => {},
    }
}

/// A sale of a quantity that is not negative keeps the lots adding up to
/// the balance, whether it succeeds or not; and where they add up, the
/// lots never run out under a sale.
pub proof fn lema_venda_conserva(
    estado: EstadoFluxo,
    titulo: Titulo,
    dia_minimo: Dia,
    qv: QuantidadeOuValor,
)
    requires
        estado.conservado(),
        pedido_nao_negativo(titulo.preco_venda@, dia_minimo, qv),
    ensures
        estado.vender(titulo, dia_minimo, qv).1.conservado(),
        estado.vender(titulo, dia_minimo, qv).0 != Err::<(), Erro>(Erro::SaldoInconsistente),
{
    reveal(EstadoFluxo::vender);
    match primeira_a_partir(titulo.preco_venda@, dia_minimo) {
        Some((dia, preco)) => {
            let quantidade = qv.quantidade_ao_preco(preco);
            if estado.saldo.0 >= quantidade.0 {
                lema_consumir_nao_esgota(estado.lotes, quantidade.0 as int);
                if consumir(estado.lotes, quantidade.0 as int) is Feito {
                    lema_consumir_conserva(estado.lotes, quantidade.0 as int);
                }
            }
        },
        None => {},
    }
}

/// Days never go back: a purchase or a sale dated before the last day that
/// the flow has seen is refused for its day, and changes nothing.
pub proof fn lema_dia_anterior_recusado(
    estado: EstadoFluxo,
    titulo: Titulo,
    dia_minimo: Dia,
    qv: QuantidadeOuValor,
)
    requires
        estado.ultimo_dia matches Some(ultimo) && dia_minimo.num < ultimo.num,
    ensures
        estado.comprar(titulo, dia_minimo, qv) == (
            Err::<(), Erro>(Erro::DiaForaDeOrdem),
            estado,
        ),
        estado.vender(titulo, dia_minimo, qv) == (Err::<(), Erro>(Erro::DiaForaDeOrdem), estado),
{
    reveal(EstadoFluxo::comprar);
    reveal(EstadoFluxo::vender);
}

/// First in, first out: a sale that succeeds takes from the oldest lots.
/// Lots are gone only from the old end; the oldest lot that stays may have
/// given up a part; every newer lot is as it was.
pub proof fn lema_venda_fifo(
    estado: EstadoFluxo,
    titulo: Titulo,
    dia_minimo: Dia,
    qv: QuantidadeOuValor,
)
    requires
        estado.vender(titulo, dia_minimo, qv).0 is Ok,
    ensures
        vendidos_do_mais_antigo(estado.lotes, estado.vender(titulo, dia_minimo, qv).1.lotes),
{
    reveal(EstadoFluxo::vender);
    match primeira_a_partir(titulo.preco_venda@, dia_minimo) {
        Some((dia, preco)) => {
            let quantidade = qv.quantidade_ao_preco(preco);
            lema_consumir_fifo(estado.lotes, quantidade.0 as int);
        },
        None => {},
    }
}

/// Whether `depois` may follow `antes` in the life of a flow: the ledger
/// has only grown, and the last day seen has not gone back.
pub open spec fn segue(antes: EstadoFluxo, depois: EstadoFluxo) -> bool {
    &&& antes.eventos.is_prefix_of(depois.eventos)
    &&& antes.ultimo_dia matches Some(ultimo) ==> depois.ultimo_dia matches Some(novo)
        && ultimo.num <= novo.num
}

/// The ledger only grows and days never go back: whatever a purchase, a
/// sale or the payment of coupons does to a flow, and whether it succeeds
/// or not, what was in the ledger stays there, and the last day seen is
/// no earlier than before.
pub proof fn lema_livro_so_cresce(
    estado: EstadoFluxo,
    titulo: Titulo,
    dia_minimo: Dia,
    qv: QuantidadeOuValor,
)
    ensures
        segue(estado, estado.com_cupons(titulo, dia_minimo)),
        segue(estado, estado.comprar(titulo, dia_minimo, qv).1),
        segue(estado, estado.vender(titulo, dia_minimo, qv).1),
{
    reveal(EstadoFluxo::comprar);
    reveal(EstadoFluxo::vender);
    assert forall|dia: Dia| segue(estado, #[trigger] estado.com_cupons(titulo, dia)) by {
        assert(estado.eventos.is_prefix_of(estado.com_cupons(titulo, dia).eventos));
    }
    match primeira_a_partir(titulo.preco_compra@, dia_minimo) {
        Some((dia, preco)) => {
            let com_cupons = estado.com_cupons(titulo, dia);
            assert(segue(estado, com_cupons));
            let depois = estado.comprar(titulo, dia_minimo, qv).1;
            assert(estado.eventos.is_prefix_of(depois.eventos));
        },
        None => {},
    }
    match primeira_a_partir(titulo.preco_venda@, dia_minimo) {
        Some((dia, preco)) => {
            let com_cupons = estado.com_cupons(titulo, dia);
            assert(segue(estado, com_cupons));
            let depois = estado.vender(titulo, dia_minimo, qv).1;
            assert(estado.eventos.is_prefix_of(depois.eventos));
        },
        None => {},
    }
}

/// A purchase and a sale keep the lots in the order of their purchase,
/// none bought after the last day seen.
pub proof fn lema_operacoes_mantem_ordem(
    estado: EstadoFluxo,
    titulo: Titulo,
    dia_minimo: Dia,
    qv: QuantidadeOuValor,
)
    requires
        estado.bem_formado(),
    ensures
        estado.comprar(titulo, dia_minimo, qv).1.bem_formado(),
        estado.vender(titulo, dia_minimo, qv).1.bem_formado(),
{
    reveal(EstadoFluxo::comprar);
    reveal(EstadoFluxo::vender);
    lema_entradas_antes(titulo.preco_compra@, dia_minimo.num as int);
    lema_entradas_antes(titulo.preco_venda@, dia_minimo.num as int);
    match primeira_a_partir(titulo.preco_venda@, dia_minimo) {
        Some((dia, preco)) => {
            let quantidade = qv.quantidade_ao_preco(preco);
            if consumir(estado.lotes, quantidade.0 as int) is Feito {
                lema_consumir_fifo(estado.lotes, quantidade.0 as int);
            }
        },
        None => {},
    }
}

/// What can be done to a flow.
pub enum Operacao {
    /// A purchase on the first day with a price on or after the given day.
    Compra(Dia, QuantidadeOuValor),
    /// A sale on the first day with a price on or after the given day.
    Venda(Dia, QuantidadeOuValor),
    /// The payment of the coupons through the given day.
    Cupons(Dia),
}

/// The state of a flow after the operations, in their order, whether each
/// succeeds or is refused.
pub open spec fn apos_operacoes(
    estado: EstadoFluxo,
    titulo: Titulo,
    operacoes: Seq<Operacao>,
) -> EstadoFluxo
    decreases operacoes.len(),
{
    if operacoes.len() == 0 {
        estado
    } else {
        let antes = apos_operacoes(estado, titulo, operacoes.drop_last());
        match operacoes.last() {
            Operacao::Compra(dia, qv) => antes.comprar(titulo, dia, qv).1,
            Operacao::Venda(dia, qv) => antes.vender(titulo, dia, qv).1,
            Operacao::Cupons(dia) => antes.com_cupons(titulo, dia),
        }
    }
}

/// Whether no sale among the operations asks for a negative quantity.
pub open spec fn vendas_nao_negativas(titulo: Titulo, operacoes: Seq<Operacao>) -> bool {
    forall|i: int|
        0 <= i < operacoes.len() ==> (#[trigger] operacoes[i] matches Operacao::Venda(dia, qv)
            ==> pedido_nao_negativo(titulo.preco_venda@, dia, qv))
}

/// After any sequence of purchases, sales and payments of coupons on a new
/// flow, with no sale of a negative quantity, the lots add up to the
/// balance; and they are in the order of their purchase, none bought after
/// the last day seen.
pub proof fn lema_lotes_somam_o_saldo(titulo: Titulo, operacoes: Seq<Operacao>)
    requires
        vendas_nao_negativas(titulo, operacoes),
    ensures
        apos_operacoes(EstadoFluxo::vazio(), titulo, operacoes).conservado(),
        apos_operacoes(EstadoFluxo::vazio(), titulo, operacoes).bem_formado(),
    decreases operacoes.len(),
{
    if operacoes.len() > 0 {
        let resto = operacoes.drop_last();
        assert forall|i: int| 0 <= i < resto.len() implies (#[trigger] resto[i] matches Operacao::Venda(
            dia,
            qv,
        ) ==> pedido_nao_negativo(titulo.preco_venda@, dia, qv)) by {
            assert(resto[i] == operacoes[i]);
        }
        lema_lotes_somam_o_saldo(titulo, resto);
        let antes = apos_operacoes(EstadoFluxo::vazio(), titulo, resto);
        match operacoes.last() {
            Operacao::Compra(dia, qv) => {
                lema_compra_conserva(antes, titulo, dia, qv);
                lema_operacoes_mantem_ordem(antes, titulo, dia, qv);
            },
            Operacao::Venda(dia, qv) => {
                assert(operacoes[operacoes.len() - 1] == operacoes.last());
                lema_venda_conserva(antes, titulo, dia, qv);
                lema_operacoes_mantem_ordem(antes, titulo, dia, qv);
            },
            Operacao::Cupons(dia) => {},
        }
    }
}

impl<'a> View for FluxoInvestimento<'a> {
    type V = EstadoFluxo;

    closed spec fn view(&self) -> EstadoFluxo {
        EstadoFluxo {
            ultimo_dia: self.ultimo_dia,
            saldo: self.saldo_quantidade,
            eventos: self.eventos@,
            lotes: self.saldos_ativos@,
        }
    }
}

impl<'a> Clone for FluxoInvestimento<'a> {
    /// A copy that shares nothing with the flow but the bond.
    fn clone(&self) -> (r: Self)
        ensures
            r@ == self@,
            r.titulo() == self.titulo(),
    {
        let mut eventos: Vec<EventoInvestimento> = Vec::new();
        let n = self.eventos.len();
        let mut i: usize = 0;
        while i < n
            invariant
                0 <= i <= n,
                n == self.eventos@.len(),
                eventos@ == self.eventos@.subrange(0, i as int),
            decreases n - i,
        {
            eventos.push(self.eventos[i]);
            proof {
                assert(self.eventos@.subrange(0, i as int + 1) =~= self.eventos@.subrange(
                    0,
                    i as int,
                ).push(self.eventos@[i as int]));
            }
            i = i + 1;
        }
        let mut saldos_ativos: VecDeque<SaldoAtivo> = VecDeque::new();
        let m = self.saldos_ativos.len();
        let mut j: usize = 0;
        while j < m
            invariant
                0 <= j <= m,
                m == self.saldos_ativos@.len(),
                saldos_ativos@ == self.saldos_ativos@.subrange(0, j as int),
            decreases m - j,
        {
            saldos_ativos.push_back(self.saldos_ativos[j]);
            proof {
                assert(self.saldos_ativos@.subrange(0, j as int + 1)
                    =~= self.saldos_ativos@.subrange(0, j as int).push(
                    self.saldos_ativos@[j as int],
                ));
            }
            j = j + 1;
        }
        proof {
            assert(self.eventos@.subrange(0, n as int) =~= self.eventos@);
            assert(self.saldos_ativos@.subrange(0, m as int) =~= self.saldos_ativos@);
        }
        FluxoInvestimento {
            titulo: self.titulo,
            ultimo_dia: self.ultimo_dia,
            saldo_quantidade: self.saldo_quantidade,
            eventos,
            saldos_ativos,
        }
    }
}

impl<'a> FluxoInvestimento<'a> {
    /// The bond of the flow.
    pub closed spec fn titulo(&self) -> Titulo {
        *self.titulo
    }

    /// A flow of the bond in which nothing has happened.
    pub fn new(titulo: &'a Titulo) -> (r: Self)
        ensures
            r@ == EstadoFluxo::vazio(),
            r.titulo() == *titulo,
            r@.bem_formado(),
            r@.conservado(),
    {
        FluxoInvestimento {
            titulo,
            ultimo_dia: None,
            saldo_quantidade: Decimal::zero(),
            eventos: Vec::new(),
            saldos_ativos: VecDeque::new(),
        }
    }

    /// The bond of the flow.
    pub fn get_titulo(&self) -> (r: &'a Titulo)
        ensures
            *r == self.titulo(),
    {
        self.titulo
    }

    /// The quantity held.
    pub fn saldo_quantidade(&self) -> (r: Decimal<2>)
        ensures
            r == self@.saldo,
    {
        self.saldo_quantidade
    }

    /// The last day that the flow has seen.
    pub fn ultimo_dia(&self) -> (r: Option<Dia>)
        ensures
            r == self@.ultimo_dia,
    {
        self.ultimo_dia
    }

    /// The ledger, in the order in which things happened.
    pub fn eventos(&self) -> (r: &[EventoInvestimento])
        ensures
            r@ == self@.eventos,
    {
        self.eventos.as_slice()
    }

    /// The lots still held, the newest first.
    pub fn lotes(&self) -> (r: Vec<SaldoAtivo>)
        ensures
            r@ == self@.lotes,
    {
        let mut lotes: Vec<SaldoAtivo> = Vec::new();
        let m = self.saldos_ativos.len();
        let mut j: usize = 0;
        while j < m
            invariant
                0 <= j <= m,
                m == self.saldos_ativos@.len(),
                lotes@ == self.saldos_ativos@.subrange(0, j as int),
            decreases m - j,
        {
            lotes.push(self.saldos_ativos[j]);
            proof {
                assert(self.saldos_ativos@.subrange(0, j as int + 1)
                    =~= self.saldos_ativos@.subrange(0, j as int).push(
                    self.saldos_ativos@[j as int],
                ));
            }
            j = j + 1;
        }
        proof {
            assert(self.saldos_ativos@.subrange(0, m as int) =~= self.saldos_ativos@);
        }
        lotes
    }

    /// What the position is worth on `dia`: the sale price in force that
    /// day times the quantity held. The bond must have a sale price by then.
    pub fn saldo_valor(&self, dia: Dia) -> (r: Decimal<2>)
        requires
            valor_em(self.titulo().preco_venda@, dia) is Some,
        ensures
            r == valor_em(self.titulo().preco_venda@, dia)->Some_0.vezes(self@.saldo),
    {
        match self.titulo.preco_venda.valor_atual(dia) {
            Some(preco) => preco * self.saldo_quantidade,
            None => Decimal::zero(),
        }
    }

    fn validar_dia(&self, dia: Dia) -> (r: Result<(), Erro>)
        ensures
            self@.dia_fora_de_ordem(dia) ==> r == Err::<(), Erro>(Erro::DiaForaDeOrdem),
            !self@.dia_fora_de_ordem(dia) ==> r is Ok,
    {
        match self.ultimo_dia {
            Some(ultimo) => {
                if dia.num < ultimo.num {
                    Err(Erro::DiaForaDeOrdem)
                } else {
                    Ok(())
                }
            },
            None => Ok(()),
        }
    }

    /// Pays the coupons through `ate_dia`, that day included. Days already
    /// seen pay nothing again.
    pub fn ganhar_cupons(&mut self, ate_dia: Dia)
        requires
            old(self)@.bem_formado(),
        ensures
            final(self)@ == old(self)@.com_cupons(old(self).titulo(), ate_dia),
            final(self).titulo() == old(self).titulo(),
            final(self)@.bem_formado(),
    {
        match self.ultimo_dia {
            None => {
                self.ultimo_dia = Some(ate_dia);
            },
            Some(ultimo) => {
                let de = self.titulo.cupom.posicao(ultimo.num as i64 + 1);
                let fim = self.titulo.cupom.posicao(ate_dia.num as i64 + 1);
                let ghost inicial = self@;
                let ghost serie = self.titulo.cupom@;
                if de < fim {
                    let lotes = self.lotes();
                    let mut i: usize = de;
                    proof {
                        assert(inicial.eventos + eventos_de_cupons(
                            serie.subrange(de as int, de as int),
                            inicial.saldo,
                            inicial.lotes,
                        ) =~= inicial.eventos);
                    }
                    while i < fim
                        invariant
                            de <= i <= fim <= serie.len(),
                            serie == self.titulo.cupom@,
                            self.titulo == old(self).titulo,
                            self.ultimo_dia == inicial.ultimo_dia,
                            self.saldo_quantidade == inicial.saldo,
                            self.saldos_ativos@ == inicial.lotes,
                            lotes@ == inicial.lotes,
                            self.eventos@ == inicial.eventos + eventos_de_cupons(
                                serie.subrange(de as int, i as int),
                                inicial.saldo,
                                inicial.lotes,
                            ),
                        decreases fim - i,
                    {
                        let (dia, preco) = self.titulo.cupom.get(i);
                        let valor = self.saldo_quantidade * preco;
                        let impostos_e_taxas = ImpostosETaxas::calcular_para_cupom(
                            lotes.as_slice(),
                            preco,
                            dia,
                        );
                        let evento = EventoInvestimento {
                            dia,
                            tipo: TipoEvento::Cupom,
                            valor_bruto: valor,
                            quantidade: self.saldo_quantidade,
                            preco,
                            saldo_quantidade: self.saldo_quantidade,
                            impostos_e_taxas,
                            valor_liquido: valor.saturating_sub(impostos_e_taxas.total()),
                        };
                        proof {
                            assert(evento == evento_de_cupom(
                                dia,
                                preco,
                                inicial.saldo,
                                inicial.lotes,
                            ));
                            assert(inicial.eventos + eventos_de_cupons(
                                serie.subrange(de as int, i as int + 1),
                                inicial.saldo,
                                inicial.lotes,
                            ) =~= (inicial.eventos + eventos_de_cupons(
                                serie.subrange(de as int, i as int),
                                inicial.saldo,
                                inicial.lotes,
                            )).push(evento));
                        }
                        self.eventos.push(evento);
                        i = i + 1;
                    }
                } else {
                    proof {
                        assert(inicial.eventos + eventos_de_cupons(
                            Seq::<(Dia, Decimal<6>)>::empty(),
                            inicial.saldo,
                            inicial.lotes,
                        ) =~= inicial.eventos);
                    }
                }
                self.ultimo_dia = Some(ate_dia.max(ultimo));
            },
        }
    }

    /// Buys on the first day on or after `dia_minimo` for which the bond
    /// has a purchase price, after the coupons through that day are paid.
    /// The purchase raises the balance, enters the ledger and opens a lot.
    /// A purchase dated before the last day seen is refused, and so is one
    /// that finds no price or takes the balance out of range; a refused
    /// purchase changes nothing. Lots that add up to the balance still do
    /// so afterwards.
    pub fn comprar_a_partir_de(&mut self, dia_minimo: Dia, qv: QuantidadeOuValor) -> (r: Result<
        (),
        Erro,
    >)
        requires
            old(self)@.bem_formado(),
        ensures
            (r, final(self)@) == old(self)@.comprar(old(self).titulo(), dia_minimo, qv),
            final(self).titulo() == old(self).titulo(),
            final(self)@.bem_formado(),
            old(self)@.dia_fora_de_ordem(dia_minimo) ==> r == Err::<(), Erro>(
                Erro::DiaForaDeOrdem,
            ) && final(self)@ == old(self)@,
            old(self)@.conservado() ==> final(self)@.conservado(),
    {
        reveal(EstadoFluxo::comprar);
        match self.validar_dia(dia_minimo) {
            Err(erro) => {
                return Err(erro);
            },
            Ok(_) => {},
        }
        let (dia, preco) = match self.titulo.preco_compra.primeiro_a_partir(dia_minimo) {
            Some(entrada) => entrada,
            None => {
                return Err(Erro::PrecoIndisponivel);
            },
        };
        proof {
            lema_entradas_antes(self.titulo.preco_compra@, dia_minimo.num as int);
        }
        let (quantidade, valor) = qv.quantidade_e_valor(preco);
        let saldo = match self.saldo_quantidade.checked_add(quantidade) {
            Some(saldo) => saldo,
            None => {
                return Err(Erro::QuantidadeForaDosLimites);
            },
        };
        let ghost antes = self@;
        self.ganhar_cupons(dia);
        self.saldo_quantidade = saldo;
        self.eventos.push(
            EventoInvestimento {
                dia,
                tipo: TipoEvento::Compra,
                valor_bruto: valor,
                quantidade,
                preco: preco.as_decimal(),
                saldo_quantidade: saldo,
                impostos_e_taxas: ImpostosETaxas::zero(),
                valor_liquido: valor,
            },
        );
        let lote = SaldoAtivo { dia, preco_original: preco, quantidade };
        self.saldos_ativos.push_front(lote);
        proof {
            lema_soma_com_primeiro(lote, antes.lotes);
        }
        Ok(())
    }
    /// Finds what a sale of `quantidade` takes from the lots, the oldest
    /// first, and takes nothing yet: the lots taken, how many lots are
    /// touched, and what is left of the last one where it is not taken
    /// whole.
    fn separar_resgates(&self, quantidade: Decimal<2>) -> (r: Result<
        (Vec<SaldoAtivo>, usize, Option<SaldoAtivo>),
        Erro,
    >)
        ensures
            match consumir(self@.lotes, quantidade.0 as int) {
                Consumo::Feito { restantes, resgates } => {
                    &&& r matches Ok((tirados, usados, parcial))
                    &&& tirados@ == resgates
                    &&& usados <= self@.lotes.len()
                    &&& restantes == match parcial {
                        Some(lote) => self@.lotes.take(self@.lotes.len() - usados).push(lote),
                        None => self@.lotes.take(self@.lotes.len() - usados),
                    }
                },
                Consumo::Esgotado => r matches Err(Erro::SaldoInconsistente),
                Consumo::Estouro => r matches Err(Erro::QuantidadeForaDosLimites),
            },
    {
        let ghost lotes = self.saldos_ativos@;
        let n = self.saldos_ativos.len();
        let mut resgates: Vec<SaldoAtivo> = Vec::new();
        let mut restante = quantidade;
        let mut usados: usize = 0;
        proof {
            assert(lotes.take(n as int) =~= lotes);
            match consumir(lotes, quantidade.0 as int) {
                Consumo::Feito { restantes, resgates: tirados } => {
                    assert(Seq::<SaldoAtivo>::empty() + tirados =~= tirados);
                },
                _ => {},
            }
        }
        while restante.0 > 0 && usados < n && self.saldos_ativos[n - 1 - usados].quantidade.0
            <= restante.0
            invariant
                0 <= usados <= n,
                n == lotes.len(),
                self.saldos_ativos@ == lotes,
                consumir(lotes, quantidade.0 as int) == apos_resgates(
                    resgates@,
                    consumir(lotes.take(n - usados), restante.0 as int),
                ),
            decreases n - usados,
        {
            let lote = self.saldos_ativos[n - 1 - usados];
            let ghost parte = lotes.take(n - usados);
            proof {
                assert(parte.last() == lote);
                assert(parte.drop_last() =~= lotes.take(n - usados - 1));
            }
            match restante.checked_sub(lote.quantidade) {
                None => {
                    return Err(Erro::QuantidadeForaDosLimites);
                },
                Some(novo) => {
                    proof {
                        match consumir(parte.drop_last(), novo.0 as int) {
                            Consumo::Feito { restantes, resgates: tirados } => {
                                assert(resgates@ + (seq![lote] + tirados) =~= resgates@.push(lote)
                                    + tirados);
                            },
                            _ => {},
                        }
                    }
                    resgates.push(lote);
                    usados = usados + 1;
                    restante = novo;
                },
            }
        }
        let ghost parte = lotes.take(n - usados);
        if restante.0 <= 0 {
            proof {
                assert(resgates@ + Seq::<SaldoAtivo>::empty() =~= resgates@);
            }
            Ok((resgates, usados, None))
        } else if usados == n {
            Err(Erro::SaldoInconsistente)
        } else {
            let lote = self.saldos_ativos[n - 1 - usados];
            proof {
                assert(parte.last() == lote);
                assert(parte.drop_last() =~= lotes.take(n - usados - 1));
                assert(resgates@ + seq![lote.com_quantidade_de(restante)] =~= resgates@.push(
                    lote.com_quantidade_de(restante),
                ));
            }
            let reduzido = lote.com_quantidade(Decimal(lote.quantidade.0 - restante.0));
            resgates.push(lote.com_quantidade(restante));
            Ok((resgates, usados + 1, Some(reduzido)))
        }
    }

    /// Sells on the first day on or after `dia_minimo` for which the bond
    /// has a sale price, after the coupons through that day are paid. The
    /// sale lowers the balance, takes the quantity from the lots, the
    /// oldest first, and enters the ledger with its charges.
    ///
    /// A sale dated before the last day seen is refused and changes
    /// nothing, and so is one that finds no price. A sale for more than the
    /// balance is refused after the coupons were paid. Where the lots add
    /// up to the balance and the quantity sold is not negative, they still
    /// add up afterwards, and the lots never run out.
    pub fn vender_a_partir_de(&mut self, dia_minimo: Dia, qv: QuantidadeOuValor) -> (r: Result<
        (),
        Erro,
    >)
        requires
            old(self)@.bem_formado(),
        ensures
            (r, final(self)@) == old(self)@.vender(old(self).titulo(), dia_minimo, qv),
            final(self).titulo() == old(self).titulo(),
            final(self)@.bem_formado(),
            old(self)@.dia_fora_de_ordem(dia_minimo) ==> r == Err::<(), Erro>(
                Erro::DiaForaDeOrdem,
            ) && final(self)@ == old(self)@,
            old(self)@.conservado() && pedido_nao_negativo(
                old(self).titulo().preco_venda@,
                dia_minimo,
                qv,
            ) ==> final(self)@.conservado() && r != Err::<(), Erro>(Erro::SaldoInconsistente),
    {
        reveal(EstadoFluxo::vender);
        match self.validar_dia(dia_minimo) {
            Err(erro) => {
                return Err(erro);
            },
            Ok(_) => {},
        }
        let (dia, preco) = match self.titulo.preco_venda.primeiro_a_partir(dia_minimo) {
            Some(entrada) => entrada,
            None => {
                return Err(Erro::PrecoIndisponivel);
            },
        };
        proof {
            lema_entradas_antes(self.titulo.preco_venda@, dia_minimo.num as int);
        }
        let ghost antes = self@;
        self.ganhar_cupons(dia);

        let (quantidade, valor) = qv.quantidade_e_valor(preco);
        if self.saldo_quantidade.0 < quantidade.0 {
            return Err(Erro::SaldoInsuficiente);
        }
        let saldo = match self.saldo_quantidade.checked_sub(quantidade) {
            Some(saldo) => saldo,
            None => {
                return Err(Erro::QuantidadeForaDosLimites);
            },
        };

        let n = self.saldos_ativos.len();
        let (resgates, usados, parcial) = match self.separar_resgates(quantidade) {
            Ok(separados) => separados,
            Err(Erro::SaldoInconsistente) => {
                self.saldo_quantidade = saldo;
                self.saldos_ativos.clear();
                proof {
                    if antes.conservado() {
                        lema_consumir_nao_esgota(antes.lotes, quantidade.0 as int);
                    }
                }
                return Err(Erro::SaldoInconsistente);
            },
            Err(erro) => {
                return Err(erro);
            },
        };
        proof {
            lema_consumir_fifo(antes.lotes, quantidade.0 as int);
            assert forall|k: int| 0 <= k < resgates@.len() implies resgates@[k].dia.num
                <= dia.num by {
                assert(resgates@[k].dia == antes.lotes[n - 1 - k].dia);
            }
        }

        let impostos_e_taxas = ImpostosETaxas::calcular_para_resgaste(
            resgates.as_slice(),
            preco,
            dia,
        );

        self.saldo_quantidade = saldo;
        self.saldos_ativos.truncate(n - usados);
        match parcial {
            Some(lote) => {
                self.saldos_ativos.push_back(lote);
            },
            None => {},
        }
        self.eventos.push(
            EventoInvestimento {
                dia,
                tipo: TipoEvento::Venda,
                valor_bruto: valor,
                quantidade,
                preco: preco.as_decimal(),
                saldo_quantidade: saldo,
                impostos_e_taxas,
                valor_liquido: valor.saturating_sub(impostos_e_taxas.total()),
            },
        );
        proof {
            let feito = consumir(antes.lotes, quantidade.0 as int);
            assert(self.saldos_ativos@ =~= feito->restantes);
            if antes.conservado() && quantidade.0 >= 0 {
                lema_consumir_conserva(antes.lotes, quantidade.0 as int);
            }
        }
        Ok(())
    }
}

} // verus!
