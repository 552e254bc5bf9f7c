//! Buying once and selling the same share of what is left every month.

use crate::decimal::Decimal;
use crate::dia::dia_apos_meses;
use crate::dia::Dia;
use crate::erro::Erro;
use crate::fluxo_investimento::EstadoFluxo;
use crate::fluxo_investimento::FluxoInvestimento;
use crate::quantidade_ou_valor::QuantidadeOuValor;
use crate::titulo::Titulo;
use vstd::prelude::*;

verus! {

/// The monthly sales from the one numbered `indice` on, of `meses` in all:
/// each on the first day with a price on or after the same day of the
/// month, so many months after `dia_inicio`, each of the balance over the
/// number of sales still to make. The first sale that fails ends them.
pub open spec fn vender_mensalmente(
    estado: EstadoFluxo,
    titulo: Titulo,
    dia_inicio: Dia,
    meses: int,
    indice: int,
) -> Result<EstadoFluxo, Erro>
    decreases meses - indice,
{
    if indice >= meses {
        Ok(estado)
    } else {
        match dia_apos_meses(dia_inicio.num as int, indice) {
            None => Err(Erro::DiaForaDosLimites),
            Some(num) => {
                let dia = Dia { num: num as i32 };
                let quantidade = estado.saldo.dividido_por((meses - indice) as i64);
                match estado.vender(titulo, dia, QuantidadeOuValor::Quantidade(quantidade)) {
                    (Ok(_), depois) => vender_mensalmente(
                        depois,
                        titulo,
                        dia_inicio,
                        meses,
                        indice + 1,
                    ),
                    (Err(erro), _) => Err(erro),
                }
            },
        }
    }
}

/// A purchase of `valor_inicio` on `dia_inicio` and then the monthly
/// sales: the state after them, or why one of them cannot be made.
pub open spec fn compra_e_vendas_mensais(
    titulo: Titulo,
    dia_inicio: Dia,
    valor_inicio: Decimal<2>,
    meses: int,
) -> Result<EstadoFluxo, Erro> {
    match EstadoFluxo::vazio().comprar(titulo, dia_inicio, QuantidadeOuValor::Valor(valor_inicio)) {
        (Ok(_), comprado) => vender_mensalmente(comprado, titulo, dia_inicio, meses, 0),
        (Err(erro), _) => Err(erro),
    }
}

/// Once the last monthly sale is made, nothing is left.
pub proof fn lema_vender_mensalmente_esgota(
    estado: EstadoFluxo,
    titulo: Titulo,
    dia_inicio: Dia,
    meses: int,
    indice: int,
)
    requires
        0 <= indice < meses <= u32::MAX,
        vender_mensalmente(estado, titulo, dia_inicio, meses, indice) is Ok,
    ensures
        vender_mensalmente(estado, titulo, dia_inicio, meses, indice)->Ok_0.saldo.0 == 0,
    decreases meses - indice,
{
    let num = dia_apos_meses(dia_inicio.num as int, indice)->Some_0;
    let dia = Dia { num: num as i32 };
    let quantidade = estado.saldo.dividido_por((meses - indice) as i64);
    let depois = estado.vender(titulo, dia, QuantidadeOuValor::Quantidade(quantidade)).1;
    if indice + 1 < meses {
        lema_vender_mensalmente_esgota(depois, titulo, dia_inicio, meses, indice + 1);
    } else {
        assert(estado.saldo.0 as int / 1 == estado.saldo.0);
        assert(quantidade == estado.saldo);
        reveal(EstadoFluxo::vender);
    }
}

/// Buys `valor_inicio` of the bond on `dia_inicio` and sells the position
/// down in `num_meses` monthly sales, each of what is held over the number
/// of sales still to make. Where there is at least one sale and all
/// succeed, the balance ends at zero.
pub fn venda_continua<'a>(
    titulo: &'a Titulo,
    dia_inicio: Dia,
    valor_inicio: Decimal<2>,
    num_meses: u32,
) -> (r: Result<FluxoInvestimento<'a>, Erro>)
    ensures
        match compra_e_vendas_mensais(*titulo, dia_inicio, valor_inicio, num_meses as int) {
            Ok(estado) => r matches Ok(fluxo) && fluxo@ == estado && fluxo.titulo() == *titulo
                && fluxo@.bem_formado(),
            Err(erro) => r matches Err(e) && e == erro,
        },
        r is Ok && num_meses >= 1 ==> r->Ok_0@.saldo.0 == 0,
{
    let mut fluxo = FluxoInvestimento::new(titulo);
    match fluxo.comprar_a_partir_de(dia_inicio, QuantidadeOuValor::Valor(valor_inicio)) {
        Ok(_) => {},
        Err(erro) => {
            return Err(erro);
        },
    }
    let ghost comprado = fluxo@;
    let mut num_mes: u32 = 0;
    while num_mes < num_meses
        invariant
            0 <= num_mes <= num_meses,
            EstadoFluxo::vazio().comprar(
                *titulo,
                dia_inicio,
                QuantidadeOuValor::Valor(valor_inicio),
            ).0 is Ok,
            EstadoFluxo::vazio().comprar(
                *titulo,
                dia_inicio,
                QuantidadeOuValor::Valor(valor_inicio),
            ).1 == comprado,
            fluxo.titulo() == *titulo,
            fluxo@.bem_formado(),
            vender_mensalmente(comprado, *titulo, dia_inicio, num_meses as int, 0)
                == vender_mensalmente(
                fluxo@,
                *titulo,
                dia_inicio,
                num_meses as int,
                num_mes as int,
            ),
        decreases num_meses - num_mes,
    {
        let meses_restantes: i64 = (num_meses - num_mes) as i64;
        let quantidade_venda = fluxo.saldo_quantidade() / meses_restantes;
        let dia = match dia_inicio.mais_meses(num_mes) {
            Some(dia) => dia,
            None => {
                return Err(Erro::DiaForaDosLimites);
            },
        };
        match fluxo.vender_a_partir_de(dia, QuantidadeOuValor::Quantidade(quantidade_venda)) {
            Ok(_) => {},
            Err(erro) => {
                return Err(erro);
            },
        }
        num_mes = num_mes + 1;
    }
    proof {
        if num_meses >= 1 {
            lema_vender_mensalmente_esgota(comprado, *titulo, dia_inicio, num_meses as int, 0);
        }
    }
    Ok(fluxo)
}

} // verus!
