//! Taxes and fees on sales and coupons.
//!
//! Three charges follow the age of a lot in whole days: a tax on financial
//! operations, which falls from the whole gain on the day of purchase to
//! nothing after thirty days; an income tax in four brackets; and a custody
//! fee, a yearly rate taken in proportion to the days held.

use crate::decimal::lema_potencia_de_dez_limitada;
use crate::decimal::lema_produto_nao_negativo;
use crate::decimal::lema_produto_por_fracao;
use crate::decimal::potencia_de_dez;
use crate::decimal::saturar;
use crate::decimal::Decimal;
use crate::decimal::Razao;
use crate::dia::Dia;
use vstd::prelude::*;

verus! {

/// The charges on one sale or coupon.
#[derive(Debug, Clone, Copy, PartialEq, Eq)]
pub struct ImpostosETaxas {
    pub imposto_operacao_financeira: Decimal<2>,
    pub imposto_renda: Decimal<2>,
    pub taxa_custodia: Decimal<2>,
}

/// A lot: bonds bought on one day at one price and still held.
#[derive(Debug, Clone, Copy, PartialEq, Eq)]
pub struct SaldoAtivo {
    pub dia: Dia,
    pub preco_original: Decimal<2>,
    pub quantidade: Decimal<2>,
}

/// The tax on financial operations, in hundredths of the gain, for each
/// age under thirty days.
pub const ALIQUOTAS_IOF: [i64; 30] = [
    100, 96, 93, 90, 86, 83, 80, 76, 73, 70, 66, 63, 60, 56, 53, 50, 46, 43, 40, 36, 33, 30, 26,
    23, 20, 16, 13, 10, 60, 30,
];

/// The rate of the tax on financial operations for a lot held `dias` days,
/// `dias` not negative.
pub open spec fn aliquota_iof(dias: int) -> Razao {
    Razao { numerador: if dias >= 30 { 0 } else { ALIQUOTAS_IOF@[dias] }, denominador: 100 }
}

/// The rate of income tax for a lot held `dias` days.
pub open spec fn aliquota_ir(dias: int) -> Razao {
    Razao {
        numerador: if dias <= 180 {
            225
        } else if dias <= 360 {
            200
        } else if dias <= 720 {
            175
        } else {
            150
        },
        denominador: 1000,
    }
}

/// The custody fee for `dias` days: two thousandths a year, a year of 365
/// days.
pub open spec fn aliquota_custodia(dias: int) -> Razao {
    Razao { numerador: dias as i64, denominador: 182_500 }
}

/// The rate of the tax on financial operations for a lot held `dias` days.
pub fn aliquota_imposto_operacao_financeira(dias: i64) -> (r: Razao)
    requires
        dias >= 0,
    ensures
        r == aliquota_iof(dias as int),
        r.denominador == 100,
        0 <= r.numerador <= 100,
{
    if dias >= 30 {
        Razao { numerador: 0, denominador: 100 }
    } else {
        Razao { numerador: ALIQUOTAS_IOF[dias as usize], denominador: 100 }
    }
}

/// The rate of income tax for a lot held `dias` days.
pub fn aliquota_imposto_renda(dias: i64) -> (r: Razao)
    ensures
        r == aliquota_ir(dias as int),
{
    let numerador: i64 = if dias <= 180 {
        225
    } else if dias <= 360 {
        200
    } else if dias <= 720 {
        175
    } else {
        150
    };
    Razao { numerador, denominador: 1000 }
}

/// The custody fee for `dias` days, as a rate.
pub fn aliquota_taxa_custodia(dias: i64) -> (r: Razao)
    ensures
        r == aliquota_custodia(dias as int),
{
    Razao { numerador: dias, denominador: 182_500 }
}

/// The gain realised on a lot sold at `preco`: its quantity times the rise
/// of the price since the purchase, a fall counting as no gain.
pub open spec fn renda_do_lote(lote: SaldoAtivo, preco: Decimal<2>) -> Decimal<2> {
    let variacao = preco.diferenca_saturada(lote.preco_original);
    let renda_unitaria = if variacao.0 > 0 { variacao } else { Decimal::<2>(0) };
    lote.quantidade.vezes(renda_unitaria)
}

/// The charges on a sale once one more lot is counted. The tax on financial
/// operations of the lot joins the running total; the income tax of the lot
/// falls on its gain less that running total, not less its own share alone.
pub open spec fn acrescentar_resgate(
    acumulado: ImpostosETaxas,
    lote: SaldoAtivo,
    preco: Decimal<2>,
    dia: Dia,
) -> ImpostosETaxas {
    let idade = dia.num - lote.dia.num;
    let renda = renda_do_lote(lote, preco);
    let iof = acumulado.imposto_operacao_financeira.soma_saturada(
        renda.vezes_razao(aliquota_iof(idade)),
    );
    let renda_liquida = renda.diferenca_saturada(iof);
    let custo = lote.quantidade.vezes(lote.preco_original);
    ImpostosETaxas {
        imposto_operacao_financeira: iof,
        imposto_renda: acumulado.imposto_renda.soma_saturada(
            renda_liquida.vezes_razao(aliquota_ir(idade)),
        ),
        taxa_custodia: acumulado.taxa_custodia.soma_saturada(
            custo.vezes_razao(aliquota_custodia(idade)),
        ),
    }
}

/// The charges on the sale, at `preco` on `dia`, of the given lots, counted
/// in the order of the sequence.
pub open spec fn impostos_de_resgate(
    lotes: Seq<SaldoAtivo>,
    preco: Decimal<2>,
    dia: Dia,
) -> ImpostosETaxas
    decreases lotes.len(),
{
    if lotes.len() == 0 {
        ImpostosETaxas::nada()
    } else {
        acrescentar_resgate(
            impostos_de_resgate(lotes.drop_last(), preco, dia),
            lotes.last(),
            preco,
            dia,
        )
    }
}

/// The income tax on a coupon of `cupom` a bond, paid on `dia` on the given
/// lots.
pub open spec fn imposto_de_cupom(lotes: Seq<SaldoAtivo>, cupom: Decimal<6>, dia: Dia) -> Decimal<
    2,
>
    decreases lotes.len(),
{
    if lotes.len() == 0 {
        Decimal::<2>(0)
    } else {
        let lote = lotes.last();
        let renda = lote.quantidade.vezes(cupom);
        imposto_de_cupom(lotes.drop_last(), cupom, dia).soma_saturada(
            renda.vezes_razao(aliquota_ir(dia.num - lote.dia.num)),
        )
    }
}

/// Whether every lot holds a quantity and a price that are not negative
/// and was bought on or before `dia`.
pub open spec fn lotes_validos(lotes: Seq<SaldoAtivo>, dia: Dia) -> bool {
    forall|i: int|
        0 <= i < lotes.len() ==> {
            &&& (#[trigger] lotes[i]).quantidade.0 >= 0
            &&& lotes[i].preco_original.0 >= 0
            &&& lotes[i].dia.num <= dia.num
        }
}

/// Whether the gain of each lot is at least the tax on financial operations
/// run up by that lot and those before it.
pub open spec fn rendas_cobrem_iof(lotes: Seq<SaldoAtivo>, preco: Decimal<2>, dia: Dia) -> bool {
    forall|k: int|
        0 <= k < lotes.len() ==> renda_do_lote(#[trigger] lotes[k], preco).0
            >= impostos_de_resgate(lotes.take(k + 1), preco, dia).imposto_operacao_financeira.0
}

/// On valid lots, the tax on financial operations and the custody fee of a
/// sale are not negative; neither is the income tax where each gain covers
/// the tax on financial operations run up so far.
pub proof fn lema_resgate_nao_negativo(lotes: Seq<SaldoAtivo>, preco: Decimal<2>, dia: Dia)
    requires
        lotes_validos(lotes, dia),
    ensures
        impostos_de_resgate(lotes, preco, dia).imposto_operacao_financeira.0 >= 0,
        impostos_de_resgate(lotes, preco, dia).taxa_custodia.0 >= 0,
        rendas_cobrem_iof(lotes, preco, dia) ==> impostos_de_resgate(
            lotes,
            preco,
            dia,
        ).imposto_renda.0 >= 0,
    decreases lotes.len(),
{
    if lotes.len() > 0 {
        let resto = lotes.drop_last();
        let lote = lotes.last();
        let idade = dia.num - lote.dia.num;
        assert(lotes_validos(resto, dia)) by {
            assert forall|i: int| 0 <= i < resto.len() implies {
                &&& (#[trigger] resto[i]).quantidade.0 >= 0
                &&& resto[i].preco_original.0 >= 0
                &&& resto[i].dia.num <= dia.num
            } by {
                assert(resto[i] == lotes[i]);
            }
        }
        lema_resgate_nao_negativo(resto, preco, dia);
        lema_potencia_de_dez_limitada(2);
        let variacao = preco.diferenca_saturada(lote.preco_original);
        let renda_unitaria = if variacao.0 > 0 { variacao } else { Decimal::<2>(0) };
        let renda = renda_do_lote(lote, preco);
        lema_produto_nao_negativo(
            lote.quantidade.0 as int,
            renda_unitaria.0 as int,
            potencia_de_dez(2),
        );
        lema_produto_nao_negativo(renda.0 as int, aliquota_iof(idade).numerador as int, 100);
        let custo = lote.quantidade.vezes(lote.preco_original);
        lema_produto_nao_negativo(
            lote.quantidade.0 as int,
            lote.preco_original.0 as int,
            potencia_de_dez(2),
        );
        lema_produto_nao_negativo(custo.0 as int, idade as int, 182_500);
        if rendas_cobrem_iof(lotes, preco, dia) {
            assert(rendas_cobrem_iof(resto, preco, dia)) by {
                assert forall|k: int| 0 <= k < resto.len() implies renda_do_lote(
                    #[trigger] resto[k],
                    preco,
                ).0 >= impostos_de_resgate(
                    resto.take(k + 1),
                    preco,
                    dia,
                ).imposto_operacao_financeira.0 by {
                    assert(resto[k] == lotes[k]);
                    assert(resto.take(k + 1) =~= lotes.take(k + 1));
                }
            }
            assert(lotes.take(lotes.len() as int) =~= lotes);
            let total = impostos_de_resgate(lotes, preco, dia);
            assert(renda_do_lote(lotes[lotes.len() - 1], preco).0
                >= total.imposto_operacao_financeira.0);
            let renda_liquida = renda.diferenca_saturada(total.imposto_operacao_financeira);
            lema_produto_nao_negativo(
                renda_liquida.0 as int,
                aliquota_ir(idade).numerador as int,
                1000,
            );
        }
    }
}

/// Whether every lot was bought thirty days or more before `dia`.
pub open spec fn lotes_de_trinta_dias(lotes: Seq<SaldoAtivo>, dia: Dia) -> bool {
    forall|i: int| 0 <= i < lotes.len() ==> dia.num - (#[trigger] lotes[i]).dia.num >= 30
}

/// Valid lots held thirty days or more pay no tax on financial operations,
/// so each gain covers it, and no charge of their sale is negative.
pub proof fn lema_lotes_de_trinta_dias(lotes: Seq<SaldoAtivo>, preco: Decimal<2>, dia: Dia)
    requires
        lotes_validos(lotes, dia),
        lotes_de_trinta_dias(lotes, dia),
    ensures
        impostos_de_resgate(lotes, preco, dia).imposto_operacao_financeira.0 == 0,
        rendas_cobrem_iof(lotes, preco, dia),
        impostos_de_resgate(lotes, preco, dia).imposto_renda.0 >= 0,
        impostos_de_resgate(lotes, preco, dia).taxa_custodia.0 >= 0,
    decreases lotes.len(),
{
    if lotes.len() > 0 {
        let resto = lotes.drop_last();
        let lote = lotes.last();
        assert(lotes_validos(resto, dia) && lotes_de_trinta_dias(resto, dia)) by {
            assert forall|i: int| 0 <= i < resto.len() implies {
                &&& (#[trigger] resto[i]).quantidade.0 >= 0
                &&& resto[i].preco_original.0 >= 0
                &&& resto[i].dia.num <= dia.num
                &&& dia.num - resto[i].dia.num >= 30
            } by {
                assert(resto[i] == lotes[i]);
            }
        }
        lema_lotes_de_trinta_dias(resto, preco, dia);
        let renda = renda_do_lote(lote, preco);
        assert(renda.vezes_razao(aliquota_iof(dia.num - lote.dia.num)).0 == 0) by {
            assert(renda.0 * 0 == 0);
        }
        let variacao = preco.diferenca_saturada(lote.preco_original);
        let renda_unitaria = if variacao.0 > 0 { variacao } else { Decimal::<2>(0) };
        lema_potencia_de_dez_limitada(2);
        lema_produto_nao_negativo(
            lote.quantidade.0 as int,
            renda_unitaria.0 as int,
            potencia_de_dez(2),
        );
        assert forall|k: int| 0 <= k < lotes.len() implies renda_do_lote(
            #[trigger] lotes[k],
            preco,
        ).0 >= impostos_de_resgate(lotes.take(k + 1), preco, dia).imposto_operacao_financeira.0 by {
            if k < resto.len() {
                assert(resto[k] == lotes[k]);
                assert(resto.take(k + 1) =~= lotes.take(k + 1));
            } else {
                assert(lotes.take(k + 1) =~= lotes);
            }
        }
    }
    lema_resgate_nao_negativo(lotes, preco, dia);
}

/// The gain of a single valid lot covers its tax on financial operations,
/// which is a part of the gain; so no charge of its sale is negative.
pub proof fn lema_lote_unico(lote: SaldoAtivo, preco: Decimal<2>, dia: Dia)
    requires
        lotes_validos(seq![lote], dia),
    ensures
        rendas_cobrem_iof(seq![lote], preco, dia),
        impostos_de_resgate(seq![lote], preco, dia).imposto_operacao_financeira.0 >= 0,
        impostos_de_resgate(seq![lote], preco, dia).imposto_renda.0 >= 0,
        impostos_de_resgate(seq![lote], preco, dia).taxa_custodia.0 >= 0,
{
    let lotes = seq![lote];
    assert(lotes[0] == lote);
    let idade = dia.num - lote.dia.num;
    let renda = renda_do_lote(lote, preco);
    let variacao = preco.diferenca_saturada(lote.preco_original);
    let renda_unitaria = if variacao.0 > 0 { variacao } else { Decimal::<2>(0) };
    lema_potencia_de_dez_limitada(2);
    lema_produto_nao_negativo(
        lote.quantidade.0 as int,
        renda_unitaria.0 as int,
        potencia_de_dez(2),
    );
    lema_produto_por_fracao(renda.0 as int, aliquota_iof(idade).numerador as int, 100);
    assert(lotes.drop_last() =~= Seq::<SaldoAtivo>::empty());
    assert(impostos_de_resgate(lotes, preco, dia) == acrescentar_resgate(
        ImpostosETaxas::nada(),
        lote,
        preco,
        dia,
    )) by {
        reveal_with_fuel(impostos_de_resgate, 2);
    }
    assert forall|k: int| 0 <= k < lotes.len() implies renda_do_lote(
        #[trigger] lotes[k],
        preco,
    ).0 >= impostos_de_resgate(lotes.take(k + 1), preco, dia).imposto_operacao_financeira.0 by {
        assert(lotes.take(1) =~= lotes);
    }
    lema_resgate_nao_negativo(lotes, preco, dia);
}

/// On lots of non-negative quantity, the income tax on a non-negative
/// coupon is not negative.
pub proof fn lema_cupom_nao_negativo(lotes: Seq<SaldoAtivo>, cupom: Decimal<6>, dia: Dia)
    requires
        cupom.0 >= 0,
        forall|i: int| 0 <= i < lotes.len() ==> (#[trigger] lotes[i]).quantidade.0 >= 0,
    ensures
        imposto_de_cupom(lotes, cupom, dia).0 >= 0,
    decreases lotes.len(),
{
    if lotes.len() > 0 {
        let resto = lotes.drop_last();
        let lote = lotes.last();
        assert forall|i: int| 0 <= i < resto.len() implies (#[trigger] resto[i]).quantidade.0
            >= 0 by {
            assert(resto[i] == lotes[i]);
        }
        lema_cupom_nao_negativo(resto, cupom, dia);
        lema_potencia_de_dez_limitada(6);
        lema_produto_nao_negativo(
            lote.quantidade.0 as int,
            cupom.0 as int,
            potencia_de_dez(6),
        );
        let renda = lote.quantidade.vezes(cupom);
        lema_produto_nao_negativo(
            renda.0 as int,
            aliquota_ir(dia.num - lote.dia.num).numerador as int,
            1000,
        );
    }
}

impl ImpostosETaxas {
    /// No charge at all.
    pub open spec fn nada() -> Self {
        ImpostosETaxas {
            imposto_operacao_financeira: Decimal(0),
            imposto_renda: Decimal(0),
            taxa_custodia: Decimal(0),
        }
    }

    /// The three charges together.
    pub open spec fn soma(self) -> Decimal<2> {
        Decimal(
            saturar(
                self.imposto_operacao_financeira.0 + self.imposto_renda.0 + self.taxa_custodia.0,
            ),
        )
    }

    /// No charge at all, as on a purchase.
    pub fn zero() -> (r: Self)
        ensures
            r == Self::nada(),
    {
        ImpostosETaxas {
            imposto_operacao_financeira: Decimal::zero(),
            imposto_renda: Decimal::zero(),
            taxa_custodia: Decimal::zero(),
        }
    }

    /// The charges on the sale of the given lots at `preco_atual` on
    /// `dia_atual`. No lot may have been bought after that day.
    pub fn calcular_para_resgaste(
        resgates: &[SaldoAtivo],
        preco_atual: Decimal<2>,
        dia_atual: Dia,
    ) -> (r: Self)
        requires
            forall|i: int| 0 <= i < resgates@.len() ==> resgates@[i].dia.num <= dia_atual.num,
        ensures
            r == impostos_de_resgate(resgates@, preco_atual, dia_atual),
            lotes_validos(resgates@, dia_atual) ==> r.imposto_operacao_financeira.0 >= 0
                && r.taxa_custodia.0 >= 0,
            lotes_validos(resgates@, dia_atual) && rendas_cobrem_iof(
                resgates@,
                preco_atual,
                dia_atual,
            ) ==> r.imposto_renda.0 >= 0,
    {
        let mut acumulado = ImpostosETaxas::zero();
        let n = resgates.len();
        let mut i: usize = 0;
        proof {
            assert(resgates@.take(0) =~= Seq::<SaldoAtivo>::empty());
        }
        while i < n
            invariant
                0 <= i <= n,
                n == resgates@.len(),
                forall|k: int| 0 <= k < resgates@.len() ==> resgates@[k].dia.num <= dia_atual.num,
                acumulado == impostos_de_resgate(resgates@.take(i as int), preco_atual, dia_atual),
            decreases n - i,
        {
            let resgate = resgates[i];
            let variacao = preco_atual.saturating_sub(resgate.preco_original);
            let renda_unitaria = if variacao.0 > 0 { variacao } else { Decimal::zero() };
            let renda = resgate.quantidade * renda_unitaria;
            let idade = dia_atual.dias_desde(resgate.dia);

            let desconto = renda * aliquota_imposto_operacao_financeira(idade);
            let iof = acumulado.imposto_operacao_financeira.saturating_add(desconto);
            let renda_liquida = renda.saturating_sub(iof);
            let custo = resgate.quantidade * resgate.preco_original;
            proof {
                assert(resgates@.take(i as int + 1).drop_last() =~= resgates@.take(i as int));
                assert(resgates@.take(i as int + 1).last() == resgates@[i as int]);
            }
            acumulado = ImpostosETaxas {
                imposto_operacao_financeira: iof,
                imposto_renda: acumulado.imposto_renda.saturating_add(
                    renda_liquida * aliquota_imposto_renda(idade),
                ),
                taxa_custodia: acumulado.taxa_custodia.saturating_add(
                    custo * aliquota_taxa_custodia(idade),
                ),
            };
            i = i + 1;
        }
        proof {
            assert(resgates@.take(n as int) =~= resgates@);
            if lotes_validos(resgates@, dia_atual) {
                lema_resgate_nao_negativo(resgates@, preco_atual, dia_atual);
            }
        }
        acumulado
    }

    /// The charges on a coupon of `preco_cupom` a bond, paid on `dia_atual`
    /// on the given lots: income tax alone.
    pub fn calcular_para_cupom(saldos: &[SaldoAtivo], preco_cupom: Decimal<6>, dia_atual: Dia) -> (r:
        Self)
        ensures
            r.imposto_operacao_financeira.0 == 0,
            r.taxa_custodia.0 == 0,
            r.imposto_renda == imposto_de_cupom(saldos@, preco_cupom, dia_atual),
            preco_cupom.0 >= 0 && (forall|i: int|
                0 <= i < saldos@.len() ==> (#[trigger] saldos@[i]).quantidade.0 >= 0)
                ==> r.imposto_renda.0 >= 0,
    {
        let mut imposto_renda: Decimal<2> = Decimal::zero();
        let n = saldos.len();
        let mut i: usize = 0;
        proof {
            assert(saldos@.take(0) =~= Seq::<SaldoAtivo>::empty());
        }
        while i < n
            invariant
                0 <= i <= n,
                n == saldos@.len(),
                imposto_renda == imposto_de_cupom(saldos@.take(i as int), preco_cupom, dia_atual),
            decreases n - i,
        {
            let saldo = saldos[i];
            let renda = saldo.quantidade * preco_cupom;
            let idade = dia_atual.dias_desde(saldo.dia);
            proof {
                assert(saldos@.take(i as int + 1).drop_last() =~= saldos@.take(i as int));
                assert(saldos@.take(i as int + 1).last() == saldos@[i as int]);
            }
            imposto_renda = imposto_renda.saturating_add(renda * aliquota_imposto_renda(idade));
            i = i + 1;
        }
        proof {
            assert(saldos@.take(n as int) =~= saldos@);
            if preco_cupom.0 >= 0 && (forall|i: int|
                0 <= i < saldos@.len() ==> (#[trigger] saldos@[i]).quantidade.0 >= 0) {
                lema_cupom_nao_negativo(saldos@, preco_cupom, dia_atual);
            }
        }
        ImpostosETaxas {
            imposto_operacao_financeira: Decimal::zero(),
            imposto_renda,
            taxa_custodia: Decimal::zero(),
        }
    }

    /// The three charges together, stopped at the ends of the range.
    pub fn total(self) -> (r: Decimal<2>)
        ensures
            r == self.soma(),
    {
        let soma: i128 = self.imposto_operacao_financeira.0 as i128 + self.imposto_renda.0 as i128
            + self.taxa_custodia.0 as i128;
        if soma > i64::MAX as i128 {
            Decimal(i64::MAX)
        } else if soma < i64::MIN as i128 {
            Decimal(i64::MIN)
        } else {
            Decimal(soma as i64)
        }
    }
}

impl SaldoAtivo {
    /// The same lot with another quantity.
    pub open spec fn com_quantidade_de(self, quantidade: Decimal<2>) -> Self {
        SaldoAtivo { quantidade, ..self }
    }

    /// The same lot with another quantity.
    pub fn com_quantidade(self, quantidade: Decimal<2>) -> (r: Self)
        ensures
            r == self.com_quantidade_de(quantidade),
    {
        SaldoAtivo { dia: self.dia, preco_original: self.preco_original, quantidade }
    }
}

} // verus!
