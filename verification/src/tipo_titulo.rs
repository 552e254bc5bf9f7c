//! The kinds of bond.

use vstd::prelude::*;

verus! {

/// The kind of a bond: what it is indexed to and whether it pays coupons.
#[derive(Debug, Clone, Copy, PartialEq, Eq, Hash, Structural)]
pub enum TipoTitulo {
    Educa,
    IgpmComJurosSemestrais,
    Ipca,
    IpcaComJurosSemestrais,
    Prefixado,
    PrefixadoComJurosSemestrais,
    RendaAposentadoriaExtra,
    Selic,
}

impl TipoTitulo {
    /// Whether bonds of this kind pay a coupon every half year.
    pub open spec fn paga_juros_semestrais(self) -> bool {
        self is IpcaComJurosSemestrais || self is PrefixadoComJurosSemestrais
            || self is IgpmComJurosSemestrais
    }

    /// Whether bonds of this kind pay a coupon every half year.
    pub fn tem_juros_semestrais(self) -> (r: bool)
        ensures
            r == self.paga_juros_semestrais(),
    {
        match self {
            TipoTitulo::IpcaComJurosSemestrais
            | TipoTitulo::PrefixadoComJurosSemestrais
            | TipoTitulo::IgpmComJurosSemestrais => true,
            TipoTitulo::Educa
            | TipoTitulo::Ipca
            | TipoTitulo::Prefixado
            | TipoTitulo::RendaAposentadoriaExtra
            | TipoTitulo::Selic => false,
        }
    }

    /// The name of the kind, as it is shown.
    pub open spec fn nome_do_tipo(self) -> Seq<char> {
        match self {
            TipoTitulo::Educa => "Educa+"@,
            TipoTitulo::IgpmComJurosSemestrais => "IGPM+ com Juros Semestrais"@,
            TipoTitulo::Ipca => "IPCA+"@,
            TipoTitulo::IpcaComJurosSemestrais => "IPCA+ com Juros Semestrais"@,
            TipoTitulo::Prefixado => "Prefixado"@,
            TipoTitulo::PrefixadoComJurosSemestrais => "Prefixado com Juros Semestrais"@,
            TipoTitulo::RendaAposentadoriaExtra => "Renda+ Aposentadoria Extra"@,
            TipoTitulo::Selic => "Selic"@,
        }
    }

    /// The name of the kind, as it is shown.
    pub fn nome(self) -> (r: &'static str)
        ensures
            r@ == self.nome_do_tipo(),
    {
        match self {
            TipoTitulo::Educa => "Educa+",
            TipoTitulo::IgpmComJurosSemestrais => "IGPM+ com Juros Semestrais",
            TipoTitulo::Ipca => "IPCA+",
            TipoTitulo::IpcaComJurosSemestrais => "IPCA+ com Juros Semestrais",
            TipoTitulo::Prefixado => "Prefixado",
            TipoTitulo::PrefixadoComJurosSemestrais => "Prefixado com Juros Semestrais",
            TipoTitulo::RendaAposentadoriaExtra => "Renda+ Aposentadoria Extra",
            TipoTitulo::Selic => "Selic",
        }
    }
}

} // verus!
