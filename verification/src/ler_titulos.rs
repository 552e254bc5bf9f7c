//! Gathering the history of many bonds from rows that come in any order.
//!
//! Each row names its bond by kind and maturity. A price of zero or less
//! means that the bond could not be traded that day, and is left out.

use crate::decimal::Decimal;
use crate::dia::Dia;
use crate::tipo_titulo::TipoTitulo;
use crate::titulo::Titulo;
use crate::titulo::TituloBuilder;
use vstd::prelude::*;

verus! {

/// The builders of the bonds seen so far, in the order in which the bonds
/// first appeared.
#[derive(Debug)]
pub struct Titulos {
    construtores: Vec<TituloBuilder>,
}

/// The place of the first builder for the bond of that kind and maturity;
/// the length of the sequence where there is none.
pub open spec fn indice_do_titulo(
    construtores: Seq<TituloBuilder>,
    tipo: TipoTitulo,
    vencimento: Dia,
) -> int
    decreases construtores.len(),
{
    if construtores.len() == 0 || construtores[0].e_do_titulo(tipo, vencimento) {
        0
    } else {
        1 + indice_do_titulo(construtores.drop_first(), tipo, vencimento)
    }
}

/// Whether `depois` holds the builders of `antes`, with an empty builder
/// for the bond added at the end where `antes` has none, and all of them
/// as they were but for the one of the bond.
pub open spec fn so_muda_o_titulo(
    antes: Seq<TituloBuilder>,
    depois: Seq<TituloBuilder>,
    tipo: TipoTitulo,
    vencimento: Dia,
) -> bool {
    let i = indice_do_titulo(antes, tipo, vencimento);
    &&& 0 <= i <= antes.len()
    &&& depois.len() == if i < antes.len() { antes.len() } else { antes.len() + 1 }
    &&& depois[i].e_do_titulo(tipo, vencimento)
    &&& forall|j: int| 0 <= j < antes.len() && j != i ==> depois[j] == antes[j]
}

/// The sale prices that the builder of the bond held before a row was
/// taken: those of its builder, or none where it had no builder yet.
pub open spec fn precos_venda_antes(
    antes: Seq<TituloBuilder>,
    tipo: TipoTitulo,
    vencimento: Dia,
) -> Seq<(Dia, Decimal<2>)> {
    let i = indice_do_titulo(antes, tipo, vencimento);
    if i < antes.len() {
        antes[i].precos_venda()
    } else {
        Seq::empty()
    }
}

/// The purchase prices that the builder of the bond held before a row was
/// taken.
pub open spec fn precos_compra_antes(
    antes: Seq<TituloBuilder>,
    tipo: TipoTitulo,
    vencimento: Dia,
) -> Seq<(Dia, Decimal<2>)> {
    let i = indice_do_titulo(antes, tipo, vencimento);
    if i < antes.len() {
        antes[i].precos_compra()
    } else {
        Seq::empty()
    }
}

/// The coupons that the builder of the bond held before a row was taken.
pub open spec fn cupons_antes(antes: Seq<TituloBuilder>, tipo: TipoTitulo, vencimento: Dia) -> Seq<
    (Dia, Decimal<6>),
> {
    let i = indice_do_titulo(antes, tipo, vencimento);
    if i < antes.len() {
        antes[i].cupons()
    } else {
        Seq::empty()
    }
}

/// The redemption price that the builder of the bond held before a row was
/// taken.
pub open spec fn preco_vencimento_antes(
    antes: Seq<TituloBuilder>,
    tipo: TipoTitulo,
    vencimento: Dia,
) -> Option<Decimal<6>> {
    let i = indice_do_titulo(antes, tipo, vencimento);
    if i < antes.len() {
        antes[i].preco_vencimento()
    } else {
        None
    }
}

/// A place before which no builder is for the bond, and which holds one
/// or is the end, is `indice_do_titulo`.
pub proof fn lema_indice_do_titulo(
    construtores: Seq<TituloBuilder>,
    tipo: TipoTitulo,
    vencimento: Dia,
    i: int,
)
    requires
        0 <= i <= construtores.len(),
        forall|j: int| 0 <= j < i ==> !(#[trigger] construtores[j]).e_do_titulo(tipo, vencimento),
        i < construtores.len() ==> construtores[i].e_do_titulo(tipo, vencimento),
    ensures
        indice_do_titulo(construtores, tipo, vencimento) == i,
    decreases i,
{
    if i > 0 {
        let resto = construtores.drop_first();
        assert(!construtores[0].e_do_titulo(tipo, vencimento));
        assert forall|j: int| 0 <= j < i - 1 implies !(#[trigger] resto[j]).e_do_titulo(
            tipo,
            vencimento,
        ) by {
            assert(resto[j] == construtores[j + 1]);
        }
        if i < construtores.len() {
            assert(resto[i - 1] == construtores[i]);
        }
        lema_indice_do_titulo(resto, tipo, vencimento, i - 1);
    }
}

impl View for Titulos {
    type V = Seq<TituloBuilder>;

    closed spec fn view(&self) -> Seq<TituloBuilder> {
        self.construtores@
    }
}

impl Titulos {
    /// No bond yet.
    pub fn new() -> (r: Self)
        ensures
            r@.len() == 0,
    {
        Titulos { construtores: Vec::new() }
    }

    /// The place of the builder of the bond, which is added, empty, at the
    /// end where there is none yet.
    fn posicao(&mut self, tipo: TipoTitulo, vencimento: Dia) -> (i: usize)
        ensures
            i == indice_do_titulo(old(self)@, tipo, vencimento),
            so_muda_o_titulo(old(self)@, final(self)@, tipo, vencimento),
            i < old(self)@.len() ==> final(self)@ == old(self)@,
            i == old(self)@.len() ==> final(self)@[i as int].novo_para(tipo, vencimento),
    {
        let n = self.construtores.len();
        let mut i: usize = 0;
        while i < n
            invariant
                0 <= i <= n,
                n == self.construtores@.len(),
                self.construtores@ == old(self).construtores@,
                forall|j: int|
                    0 <= j < i ==> !(#[trigger] self.construtores@[j]).e_do_titulo(
                        tipo,
                        vencimento,
                    ),
            decreases n - i,
        {
            if self.construtores[i].e_de(tipo, vencimento) {
                proof {
                    lema_indice_do_titulo(self.construtores@, tipo, vencimento, i as int);
                }
                return i;
            }
            i = i + 1;
        }
        proof {
            lema_indice_do_titulo(self.construtores@, tipo, vencimento, n as int);
        }
        self.construtores.push(TituloBuilder::new(tipo, vencimento));
        n
    }

    /// Takes the prices of one day of a bond: each price above zero joins
    /// the history of the bond, a price of zero or less is left out.
    pub fn registrar_precos(
        &mut self,
        tipo: TipoTitulo,
        vencimento: Dia,
        dia: Dia,
        preco_compra: Decimal<2>,
        preco_venda: Decimal<2>,
    )
        ensures
            so_muda_o_titulo(old(self)@, final(self)@, tipo, vencimento),
            ({
                let i = indice_do_titulo(old(self)@, tipo, vencimento);
                let titulo = final(self)@[i];
                &&& titulo.precos_compra() == if preco_compra.0 > 0 {
                    precos_compra_antes(old(self)@, tipo, vencimento).push((dia, preco_compra))
                } else {
                    precos_compra_antes(old(self)@, tipo, vencimento)
                }
                &&& titulo.precos_venda() == if preco_venda.0 > 0 {
                    precos_venda_antes(old(self)@, tipo, vencimento).push((dia, preco_venda))
                } else {
                    precos_venda_antes(old(self)@, tipo, vencimento)
                }
                &&& titulo.cupons() == cupons_antes(old(self)@, tipo, vencimento)
                &&& titulo.preco_vencimento() == preco_vencimento_antes(
                    old(self)@,
                    tipo,
                    vencimento,
                )
            }),
    {
        let i = self.posicao(tipo, vencimento);
        proof {
            assert(precos_compra_antes(old(self)@, tipo, vencimento)
                =~= self@[i as int].precos_compra());
            assert(precos_venda_antes(old(self)@, tipo, vencimento)
                =~= self@[i as int].precos_venda());
            assert(cupons_antes(old(self)@, tipo, vencimento) =~= self@[i as int].cupons());
        }
        if preco_compra.0 > 0 {
            self.construtores[i].adicionar_preco_compra(dia, preco_compra);
        }
        if preco_venda.0 > 0 {
            self.construtores[i].adicionar_preco_venda(dia, preco_venda);
        }
    }

    /// Takes one coupon of a bond.
    pub fn registrar_cupom(
        &mut self,
        tipo: TipoTitulo,
        vencimento: Dia,
        dia: Dia,
        cupom: Decimal<6>,
    )
        ensures
            so_muda_o_titulo(old(self)@, final(self)@, tipo, vencimento),
            ({
                let i = indice_do_titulo(old(self)@, tipo, vencimento);
                let titulo = final(self)@[i];
                &&& titulo.cupons() == cupons_antes(old(self)@, tipo, vencimento).push(
                    (dia, cupom),
                )
                &&& titulo.precos_compra() == precos_compra_antes(old(self)@, tipo, vencimento)
                &&& titulo.precos_venda() == precos_venda_antes(old(self)@, tipo, vencimento)
                &&& titulo.preco_vencimento() == preco_vencimento_antes(
                    old(self)@,
                    tipo,
                    vencimento,
                )
            }),
    {
        let i = self.posicao(tipo, vencimento);
        proof {
            assert(precos_compra_antes(old(self)@, tipo, vencimento)
                =~= self@[i as int].precos_compra());
            assert(precos_venda_antes(old(self)@, tipo, vencimento)
                =~= self@[i as int].precos_venda());
            assert(cupons_antes(old(self)@, tipo, vencimento) =~= self@[i as int].cupons());
        }
        self.construtores[i].adicionar_cupom(dia, cupom);
    }

    /// Takes the redemption price of a bond; a later one replaces it.
    pub fn registrar_vencimento(
        &mut self,
        tipo: TipoTitulo,
        vencimento: Dia,
        preco_vencimento: Decimal<6>,
    )
        ensures
            so_muda_o_titulo(old(self)@, final(self)@, tipo, vencimento),
            ({
                let i = indice_do_titulo(old(self)@, tipo, vencimento);
                let titulo = final(self)@[i];
                &&& titulo.preco_vencimento() == Some(preco_vencimento)
                &&& titulo.cupons() == cupons_antes(old(self)@, tipo, vencimento)
                &&& titulo.precos_compra() == precos_compra_antes(old(self)@, tipo, vencimento)
                &&& titulo.precos_venda() == precos_venda_antes(old(self)@, tipo, vencimento)
            }),
    {
        let i = self.posicao(tipo, vencimento);
        proof {
            assert(precos_compra_antes(old(self)@, tipo, vencimento)
                =~= self@[i as int].precos_compra());
            assert(precos_venda_antes(old(self)@, tipo, vencimento)
                =~= self@[i as int].precos_venda());
            assert(cupons_antes(old(self)@, tipo, vencimento) =~= self@[i as int].cupons());
        }
        self.construtores[i].set_preco_vencimento(preco_vencimento);
    }

    /// Whether every bond has an entry in each series that it needs, so
    /// that all can be built.
    pub fn estao_completos(&self) -> (r: bool)
        ensures
            r == forall|i: int| 0 <= i < self@.len() ==> (#[trigger] self@[i]).completo(),
    {
        let n = self.construtores.len();
        let mut i: usize = 0;
        while i < n
            invariant
                0 <= i <= n,
                n == self@.len(),
                self@ == self.construtores@,
                forall|j: int| 0 <= j < i ==> (#[trigger] self@[j]).completo(),
            decreases n - i,
        {
            if !self.construtores[i].esta_completo() {
                return false;
            }
            i = i + 1;
        }
        true
    }

    /// The bonds, in the order in which they first appeared. Every bond
    /// must have an entry in each series that it needs.
    pub fn build(self) -> (r: Vec<Titulo>)
        requires
            forall|i: int| 0 <= i < self@.len() ==> (#[trigger] self@[i]).completo(),
        ensures
            r@.len() == self@.len(),
            forall|i: int| 0 <= i < self@.len() ==> (#[trigger] self@[i]).constroi(r@[i]),
    {
        let ghost dados = self@;
        let mut construtores = self.construtores;
        let mut titulos: Vec<Titulo> = Vec::new();
        // The builders are taken from the end, so the bonds come out last first.
        while construtores.len() > 0
            invariant
                construtores@.len() + titulos@.len() == dados.len(),
                construtores@ == dados.take(construtores@.len() as int),
                forall|i: int| 0 <= i < dados.len() ==> (#[trigger] dados[i]).completo(),
                forall|k: int|
                    0 <= k < titulos@.len() ==> (#[trigger] dados[dados.len() - 1 - k]).constroi(
                        titulos@[k],
                    ),
            decreases construtores@.len(),
        {
            let ghost antes = construtores@;
            match construtores.pop() {
                Some(construtor) => {
                    proof {
                        assert(construtor == dados[antes.len() - 1]);
                        assert(construtores@ =~= dados.take(construtores@.len() as int));
                    }
                    titulos.push(construtor.build());
                },
                None => {},
            }
        }
        let ghost invertidos = titulos@;
        let mut em_ordem: Vec<Titulo> = Vec::new();
        while titulos.len() > 0
            invariant
                titulos@.len() + em_ordem@.len() == dados.len(),
                invertidos.len() == dados.len(),
                titulos@ == invertidos.take(titulos@.len() as int),
                forall|k: int| 0 <= k < em_ordem@.len() ==> em_ordem@[k] == invertidos[dados.len()
                    - 1 - k],
            decreases titulos@.len(),
        {
            let ghost antes = titulos@;
            match titulos.pop() {
                Some(titulo) => {
                    proof {
                        assert(titulo == invertidos[antes.len() - 1]);
                        assert(titulos@ =~= invertidos.take(titulos@.len() as int));
                    }
                    em_ordem.push(titulo);
                },
                None => {},
            }
        }
        proof {
            assert forall|k: int| 0 <= k < dados.len() implies (#[trigger] dados[k]).constroi(
                em_ordem@[k],
            ) by {
                let inverso = dados.len() - 1 - k;
                assert(em_ordem@[k] == invertidos[inverso]);
                assert(dados[dados.len() - 1 - inverso] == dados[k]);
            }
        }
        em_ordem
    }
}

} // verus!
