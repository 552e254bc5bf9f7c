//! Bonds and their price history.

use crate::decimal::Decimal;
use crate::dia::Dia;
use crate::serie_temporal::ordenacao_de;
use crate::serie_temporal::SerieTemporal;
use crate::tipo_titulo::TipoTitulo;
use vstd::prelude::*;

verus! {

/// A bond, known by its kind and its maturity, with the history of its
/// purchase price, sale price and coupon.
#[derive(Debug, Clone)]
pub struct Titulo {
    pub tipo: TipoTitulo,
    pub vencimento: Dia,
    /// The first day for which there is data.
    pub inicio_dado: Dia,
    /// The day on which the data ends.
    pub fim_dado: Dia,
    pub preco_venda: SerieTemporal<Decimal<2>>,
    pub preco_compra: SerieTemporal<Decimal<2>>,
    pub cupom: SerieTemporal<Decimal<6>>,
    pub preco_vencimento: Option<Decimal<6>>,
}

/// Collects the history of a bond, in any order, before the bond is built.
#[derive(Debug, Clone)]
pub struct TituloBuilder {
    tipo: TipoTitulo,
    vencimento: Dia,
    preco_venda: Vec<(Dia, Decimal<2>)>,
    preco_compra: Vec<(Dia, Decimal<2>)>,
    cupom: Vec<(Dia, Decimal<6>)>,
    preco_vencimento: Option<Decimal<6>>,
}

/// The later of two days.
pub open spec fn dia_maximo(a: Dia, b: Dia) -> Dia {
    if a.num >= b.num {
        a
    } else {
        b
    }
}

/// The earlier of two days.
pub open spec fn dia_minimo(a: Dia, b: Dia) -> Dia {
    if a.num <= b.num {
        a
    } else {
        b
    }
}

impl Titulo {
    /// The first day on which every series that the bond needs has begun:
    /// both prices, and the coupon where the kind pays one.
    pub open spec fn inicio_dos_dados(self) -> Dia {
        let precos = dia_maximo(self.preco_venda@[0].0, self.preco_compra@[0].0);
        if self.tipo.paga_juros_semestrais() {
            dia_maximo(precos, self.cupom@[0].0)
        } else {
            precos
        }
    }

    /// The last day that every series that the bond needs still reaches.
    pub open spec fn fim_dos_dados(self) -> Dia {
        let precos = dia_minimo(self.preco_venda@.last().0, self.preco_compra@.last().0);
        if self.tipo.paga_juros_semestrais() {
            dia_minimo(precos, self.cupom@.last().0)
        } else {
            precos
        }
    }
}

impl TituloBuilder {
    pub closed spec fn tipo(self) -> TipoTitulo {
        self.tipo
    }

    pub closed spec fn vencimento(self) -> Dia {
        self.vencimento
    }

    /// The sale prices collected so far, in the order in which they came.
    pub closed spec fn precos_venda(self) -> Seq<(Dia, Decimal<2>)> {
        self.preco_venda@
    }

    /// The purchase prices collected so far, in the order in which they came.
    pub closed spec fn precos_compra(self) -> Seq<(Dia, Decimal<2>)> {
        self.preco_compra@
    }

    /// The coupons collected so far, in the order in which they came.
    pub closed spec fn cupons(self) -> Seq<(Dia, Decimal<6>)> {
        self.cupom@
    }

    pub closed spec fn preco_vencimento(self) -> Option<Decimal<6>> {
        self.preco_vencimento
    }

    /// Whether `titulo` is the bond that the builder gives: its kind,
    /// maturity and redemption price, each series in ascending order of
    /// day, and the span of days that the series it needs have in common.
    pub open spec fn constroi(self, titulo: Titulo) -> bool {
        &&& titulo.tipo == self.tipo()
        &&& titulo.vencimento == self.vencimento()
        &&& titulo.preco_vencimento == self.preco_vencimento()
        &&& ordenacao_de(titulo.preco_venda@, self.precos_venda())
        &&& ordenacao_de(titulo.preco_compra@, self.precos_compra())
        &&& ordenacao_de(titulo.cupom@, self.cupons())
        &&& titulo.inicio_dado == titulo.inicio_dos_dados()
        &&& titulo.fim_dado == titulo.fim_dos_dados()
    }

    /// Whether every series that the bond needs has an entry.
    pub open spec fn completo(self) -> bool {
        &&& self.precos_venda().len() > 0
        &&& self.precos_compra().len() > 0
        &&& self.tipo().paga_juros_semestrais() ==> self.cupons().len() > 0
    }

    /// Whether the builder is for the bond of that kind and maturity.
    pub open spec fn e_do_titulo(self, tipo: TipoTitulo, vencimento: Dia) -> bool {
        self.tipo() == tipo && self.vencimento() == vencimento
    }

    /// Whether the builder is for that bond and has no history yet.
    pub open spec fn novo_para(self, tipo: TipoTitulo, vencimento: Dia) -> bool {
        &&& self.e_do_titulo(tipo, vencimento)
        &&& self.precos_venda().len() == 0
        &&& self.precos_compra().len() == 0
        &&& self.cupons().len() == 0
        &&& self.preco_vencimento() is None
    }

    /// A builder with no history yet.
    pub fn new(tipo: TipoTitulo, vencimento: Dia) -> (r: Self)
        ensures
            r.novo_para(tipo, vencimento),
    {
        TituloBuilder {
            tipo,
            vencimento,
            preco_venda: Vec::new(),
            preco_compra: Vec::new(),
            cupom: Vec::new(),
            preco_vencimento: None,
        }
    }

    pub fn adicionar_preco_venda(&mut self, dia: Dia, valor: Decimal<2>)
        ensures
            final(self).precos_venda() == old(self).precos_venda().push((dia, valor)),
            final(self).tipo() == old(self).tipo(),
            final(self).vencimento() == old(self).vencimento(),
            final(self).precos_compra() == old(self).precos_compra(),
            final(self).cupons() == old(self).cupons(),
            final(self).preco_vencimento() == old(self).preco_vencimento(),
    {
        self.preco_venda.push((dia, valor));
    }

    pub fn adicionar_preco_compra(&mut self, dia: Dia, valor: Decimal<2>)
        ensures
            final(self).precos_compra() == old(self).precos_compra().push((dia, valor)),
            final(self).tipo() == old(self).tipo(),
            final(self).vencimento() == old(self).vencimento(),
            final(self).precos_venda() == old(self).precos_venda(),
            final(self).cupons() == old(self).cupons(),
            final(self).preco_vencimento() == old(self).preco_vencimento(),
    {
        self.preco_compra.push((dia, valor));
    }

    pub fn adicionar_cupom(&mut self, dia: Dia, valor: Decimal<6>)
        ensures
            final(self).cupons() == old(self).cupons().push((dia, valor)),
            final(self).tipo() == old(self).tipo(),
            final(self).vencimento() == old(self).vencimento(),
            final(self).precos_venda() == old(self).precos_venda(),
            final(self).precos_compra() == old(self).precos_compra(),
            final(self).preco_vencimento() == old(self).preco_vencimento(),
    {
        self.cupom.push((dia, valor));
    }

    pub fn set_preco_vencimento(&mut self, valor: Decimal<6>)
        ensures
            final(self).preco_vencimento() == Some(valor),
            final(self).tipo() == old(self).tipo(),
            final(self).vencimento() == old(self).vencimento(),
            final(self).precos_venda() == old(self).precos_venda(),
            final(self).precos_compra() == old(self).precos_compra(),
            final(self).cupons() == old(self).cupons(),
    {
        self.preco_vencimento = Some(valor);
    }

    /// Whether the builder is for the bond of that kind and maturity.
    pub fn e_de(&self, tipo: TipoTitulo, vencimento: Dia) -> (r: bool)
        ensures
            r == self.e_do_titulo(tipo, vencimento),
    {
        self.tipo == tipo && self.vencimento.num == vencimento.num
    }

    /// Whether every series that the bond needs has an entry, so that the
    /// bond can be built.
    pub fn esta_completo(&self) -> (r: bool)
        ensures
            r == self.completo(),
    {
        self.preco_venda.len() > 0 && self.preco_compra.len() > 0 && (
        !self.tipo.tem_juros_semestrais() || self.cupom.len() > 0)
    }

    /// The bond: each series in ascending order of day, and the span of
    /// days that all the series it needs have in common.
    pub fn build(self) -> (r: Titulo)
        requires
            self.completo(),
        ensures
            self.constroi(r),
    {
        let tipo = self.tipo;
        let preco_venda = SerieTemporal::new(self.preco_venda);
        let preco_compra = SerieTemporal::new(self.preco_compra);
        let cupom = SerieTemporal::new(self.cupom);

        let mut inicio_dado = preco_venda.get(0).0.max(preco_compra.get(0).0);
        let mut fim_dado = preco_venda.get(preco_venda.len() - 1).0.min(
            preco_compra.get(preco_compra.len() - 1).0,
        );

        if tipo.tem_juros_semestrais() {
            inicio_dado = inicio_dado.max(cupom.get(0).0);
            fim_dado = fim_dado.min(cupom.get(cupom.len() - 1).0);
        }

        Titulo {
            tipo,
            vencimento: self.vencimento,
            inicio_dado,
            fim_dado,
            preco_venda,
            preco_compra,
            cupom,
            preco_vencimento: self.preco_vencimento,
        }
    }
}

} // verus!
