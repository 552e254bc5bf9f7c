//! Correction of amounts for inflation, by a price index.

use crate::decimal::arredondar;
use crate::decimal::lema_arredondar_cresce;
use crate::decimal::saturar;
use crate::decimal::Decimal;
use crate::decimal::Razao;
use crate::dia::Dia;
use crate::serie_temporal::lema_entradas_antes;
use crate::serie_temporal::lema_entradas_antes_cresce;
use crate::serie_temporal::ordenacao_de;
use crate::serie_temporal::valor_em;
use crate::serie_temporal::SerieTemporal;
use vstd::prelude::*;

verus! {

/// A price index: its level from each day on which a new level begins.
#[derive(Debug, Clone)]
pub struct Inflacao {
    valores: SerieTemporal<Decimal<2>>,
}

/// `valor`, an amount of day `de`, in money of day `para`: the amount times
/// the level of the index on `para` over its level on `de`, rounded to the
/// nearest unit. There is none where the index has no level on one of the
/// days, or its level on `de` is not positive.
pub open spec fn corrigido(
    indices: Seq<(Dia, Decimal<2>)>,
    valor: Decimal<2>,
    de: Dia,
    para: Dia,
) -> Option<Decimal<2>> {
    match (valor_em(indices, de), valor_em(indices, para)) {
        (Some(base), Some(alvo)) => if base.0 > 0 {
            Some(Decimal(saturar(arredondar(valor.0 * alvo.0, base.0 as int))))
        } else {
            None
        },
        _ => None,
    }
}

/// Whether the level of the index never falls from one entry to the next.
pub open spec fn niveis_nao_caem(indices: Seq<(Dia, Decimal<2>)>) -> bool {
    forall|i: int, j: int| 0 <= i < j < indices.len() ==> indices[i].1.0 <= indices[j].1.0
}

/// Under an index that never falls, an amount that is not negative is
/// worth no less in money of a later day: where it can be corrected to a
/// day, it can be corrected to any later day, and to no less.
pub proof fn lema_correcao_cresce_com_o_tempo(
    indices: Seq<(Dia, Decimal<2>)>,
    valor: Decimal<2>,
    de: Dia,
    antes: Dia,
    depois: Dia,
)
    requires
        niveis_nao_caem(indices),
        valor.0 >= 0,
        antes.num <= depois.num,
        corrigido(indices, valor, de, antes) is Some,
    ensures
        corrigido(indices, valor, de, depois) is Some,
        corrigido(indices, valor, de, antes)->Some_0.0 <= corrigido(
            indices,
            valor,
            de,
            depois,
        )->Some_0.0,
{
    lema_entradas_antes(indices, antes.num + 1);
    lema_entradas_antes(indices, depois.num + 1);
    lema_entradas_antes_cresce(indices, antes.num + 1, depois.num + 1);
    let base = valor_em(indices, de)->Some_0;
    let nivel_antes = valor_em(indices, antes)->Some_0;
    let nivel_depois = valor_em(indices, depois)->Some_0;
    assert(nivel_antes.0 <= nivel_depois.0);
    assert(valor.0 * nivel_antes.0 <= valor.0 * nivel_depois.0) by (nonlinear_arith)
        requires
            valor.0 >= 0,
            nivel_antes.0 <= nivel_depois.0,
    ;
    lema_arredondar_cresce(valor.0 * nivel_antes.0, valor.0 * nivel_depois.0, base.0 as int);
}

impl Inflacao {
    /// The levels of the index, in ascending order of day.
    pub closed spec fn indices(&self) -> Seq<(Dia, Decimal<2>)> {
        self.valores@
    }

    /// The index with the given levels, each in force from its day on.
    pub fn new(valores: Vec<(Dia, Decimal<2>)>) -> (r: Self)
        ensures
            ordenacao_de(r.indices(), valores@),
    {
        Inflacao { valores: SerieTemporal::new(valores) }
    }

    /// The levels of the index, in ascending order of day.
    pub fn valores(&self) -> (r: Vec<(Dia, Decimal<2>)>)
        ensures
            r@ == self.indices(),
    {
        let mut valores: Vec<(Dia, Decimal<2>)> = Vec::new();
        let n = self.valores.len();
        let mut i: usize = 0;
        while i < n
            invariant
                0 <= i <= n,
                n == self.valores@.len(),
                valores@ == self.valores@.subrange(0, i as int),
            decreases n - i,
        {
            valores.push(self.valores.get(i));
            proof {
                assert(self.valores@.subrange(0, i as int + 1) =~= self.valores@.subrange(
                    0,
                    i as int,
                ).push(self.valores@[i as int]));
            }
            i = i + 1;
        }
        proof {
            assert(self.valores@.subrange(0, n as int) =~= self.valores@);
        }
        valores
    }

    /// `valor`, an amount of day `de`, in money of day `para`.
    pub fn corrigir(&self, valor: Decimal<2>, de: Dia, para: Dia) -> (r: Option<Decimal<2>>)
        ensures
            r == corrigido(self.indices(), valor, de, para),
    {
        let base = match self.valores.valor_atual(de) {
            Some(base) => base,
            None => {
                return None;
            },
        };
        let alvo = match self.valores.valor_atual(para) {
            Some(alvo) => alvo,
            None => {
                return None;
            },
        };
        if base.0 > 0 {
            Some(valor * Razao { numerador: alvo.0, denominador: base.0 })
        } else {
            None
        }
    }
}

} // verus!
