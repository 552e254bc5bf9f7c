//! Requests stated as a quantity of bonds or as an amount of money.

use crate::decimal::arredondar;
use crate::decimal::lema_arredondar_mais_proximo;
use crate::decimal::lema_potencia_de_dez_limitada;
use crate::decimal::potencia_de_dez;
use crate::decimal::Decimal;
use vstd::prelude::*;

verus! {

/// What a purchase or a sale asks for: so many bonds, or bonds worth at
/// most so much.
#[derive(Debug, Clone, Copy, PartialEq, Eq)]
pub enum QuantidadeOuValor {
    Quantidade(Decimal<2>),
    Valor(Decimal<2>),
}

impl QuantidadeOuValor {
    /// The quantity that the request comes to at the given price: the
    /// quantity asked for, or the amount divided by the price and rounded
    /// down.
    pub open spec fn quantidade_ao_preco<const N: u8>(self, preco: Decimal<N>) -> Decimal<2> {
        match self {
            QuantidadeOuValor::Quantidade(quantidade) => quantidade,
            QuantidadeOuValor::Valor(valor) => valor.dividido(preco),
        }
    }

    /// The gross amount of the request at the given price: its quantity
    /// times the price.
    pub open spec fn valor_ao_preco<const N: u8>(self, preco: Decimal<N>) -> Decimal<2> {
        self.quantidade_ao_preco(preco).vezes(preco)
    }

    /// The quantity and the gross amount that the request comes to at the
    /// given price. A request by amount never comes to more than the amount
    /// asked for.
    pub fn quantidade_e_valor<const N: u8>(self, preco: Decimal<N>) -> (r: (Decimal<2>, Decimal<2>))
        requires
            N <= 18,
        ensures
            r.0 == self.quantidade_ao_preco(preco),
            r.1 == self.valor_ao_preco(preco),
            self matches QuantidadeOuValor::Valor(valor) ==> (preco.0 > 0 && valor.0 >= 0 ==> 0
                <= r.0.0 && 0 <= r.1.0 <= valor.0),
    {
        match self {
            QuantidadeOuValor::Quantidade(quantidade) => (quantidade, quantidade * preco),
            QuantidadeOuValor::Valor(valor) => {
                let quantidade = valor / preco;
                proof {
                    if preco.0 > 0 && valor.0 >= 0 {
                        lema_valor_nao_excede(valor, preco);
                    }
                }
                (quantidade, quantidade * preco)
            },
        }
    }
}

/// Bonds bought or sold for an amount are worth no more than that amount:
/// the quantity is rounded down, so at a positive price the gross amount of
/// a request for a non-negative amount lies between zero and that amount.
pub proof fn lema_valor_nao_excede<const N: u8>(valor: Decimal<2>, preco: Decimal<N>)
    requires
        N <= 18,
        preco.0 > 0,
        valor.0 >= 0,
    ensures
        QuantidadeOuValor::Valor(valor).quantidade_ao_preco(preco).0 >= 0,
        0 <= QuantidadeOuValor::Valor(valor).valor_ao_preco(preco).0 <= valor.0,
{
    let escala = potencia_de_dez(N as nat);
    lema_potencia_de_dez_limitada(N as nat);
    let p = preco.0 as int;
    let v = valor.0 as int;
    let exato = (v * escala) / p;
    let q = QuantidadeOuValor::Valor(valor).quantidade_ao_preco(preco).0 as int;
    assert(0 <= v * escala) by (nonlinear_arith)
        requires
            v >= 0,
            escala >= 1,
    ;
    assert(0 <= exato && exato * p <= v * escala) by (nonlinear_arith)
        requires
            0 <= v * escala,
            p > 0,
            exato == (v * escala) / p,
    ;
    assert(0 <= q <= exato);
    assert(0 <= q * p <= v * escala) by (nonlinear_arith)
        requires
            0 <= q <= exato,
            p > 0,
            exato * p <= v * escala,
    ;
    lema_arredondar_mais_proximo(q * p, escala);
    let bruto = arredondar(q * p, escala);
    assert(bruto <= v) by (nonlinear_arith)
        requires
            2 * escala * bruto - 2 * (q * p) <= escala,
            q * p <= v * escala,
            escala >= 1,
    ;
}

} // verus!
