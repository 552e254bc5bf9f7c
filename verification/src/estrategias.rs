//! Strategies that sell a position down over a period.

use crate::dia::Dia;
use crate::dia::Duracao;
use crate::erro::Erro;
use crate::fluxo_investimento::EstadoFluxo;
use crate::fluxo_investimento::FluxoInvestimento;
use crate::titulo::Titulo;
use vstd::prelude::*;



verus! {

/// The size of a number.
pub open spec fn modulo(x: int) -> int {
    if x >= 0 {
        x
    } else {
        -x
    }
}

/// The number of sales that fit in the period: the period over the
/// interval between sales, what is left over dropped. It is negative or
/// zero where the two point in opposite ways.
pub open spec fn numero_de_vendas(periodo: Duracao, frequencia: Duracao) -> int {
    let quociente = modulo(periodo.dias as int) / modulo(frequencia.dias as int);
    if (periodo.dias < 0) != (frequencia.dias < 0) {
        -quociente
    } else {
        quociente
    }
}

/// Whether the number of sales can be told: the interval is not zero, and
/// the quotient fits.
pub open spec fn vendas_contaveis(periodo: Duracao, frequencia: Duracao) -> bool {
    frequencia.dias != 0 && !(periodo.dias == i64::MIN && frequencia.dias == -1)
}

/// The number of sales that fit in the period.
pub fn contar_vendas(periodo: Duracao, frequencia: Duracao) -> (r: i64)
    requires
        vendas_contaveis(periodo, frequencia),
    ensures
        r == numero_de_vendas(periodo, frequencia),
{
    let p: i128 = if periodo.dias >= 0 { periodo.dias as i128 } else { -(periodo.dias as i128) };
    let f: i128 = if frequencia.dias >= 0 {
        frequencia.dias as i128
    } else {
        -(frequencia.dias as i128)
    };
    let quociente: i128 = p / f;
    assert(0 <= quociente <= p && (f >= 2 ==> 2 * quociente <= p)) by (nonlinear_arith)
        requires
            p >= 0,
            f >= 1,
            quociente == p as int / f as int,
    ;
    if (periodo.dias < 0) != (frequencia.dias < 0) {
        (-quociente) as i64
    } else {
        quociente as i64
    }
}

/// Whether the number of sales can be told.
pub fn vendas_sao_contaveis(periodo: Duracao, frequencia: Duracao) -> (r: bool)
    ensures
        r == vendas_contaveis(periodo, frequencia),
{
    frequencia.dias != 0 && !(periodo.dias == i64::MIN && frequencia.dias == -1)
}

/// A way of selling a position down, from a first day on and over a period.
pub trait Estrategia {
    /// Whether the strategy can be applied to a flow in that state.
    spec fn aplicavel(
        &self,
        estado: EstadoFluxo,
        titulo: Titulo,
        dia_inicio: Dia,
        periodo: Duracao,
    ) -> bool;

    /// What applying the strategy gives: the state of the flow after the
    /// sales, or why a sale that it needs cannot be made.
    spec fn resultado(
        &self,
        estado: EstadoFluxo,
        titulo: Titulo,
        dia_inicio: Dia,
        periodo: Duracao,
    ) -> Result<EstadoFluxo, Erro>;

    /// The name of the strategy, with its interval.
    fn nome(&self) -> String;

    /// Whether the strategy can be applied to the flow.
    fn pode_aplicar<'a>(&self, fluxo: &FluxoInvestimento<'a>, dia_inicio: Dia, periodo: Duracao) -> (r:
        bool)
        ensures
            r == self.aplicavel(fluxo@, fluxo.titulo(), dia_inicio, periodo),
    ;

    /// Applies the strategy to the flow and hands back the flow after the
    /// sales.
    fn aplicar<'a>(&self, fluxo: FluxoInvestimento<'a>, dia_inicio: Dia, periodo: Duracao) -> (r:
        Result<FluxoInvestimento<'a>, Erro>)
        requires
            fluxo@.bem_formado(),
            self.aplicavel(fluxo@, fluxo.titulo(), dia_inicio, periodo),
        ensures
            match self.resultado(fluxo@, fluxo.titulo(), dia_inicio, periodo) {
                Ok(estado) => r matches Ok(depois) && depois@ == estado && depois.titulo()
                    == fluxo.titulo() && depois@.bem_formado(),
                Err(erro) => r matches Err(e) && e == erro,
            },
    ;
}

} // verus!

pub mod quantidade_constante;
pub mod valor_real_constante;
pub mod venda_continua;
