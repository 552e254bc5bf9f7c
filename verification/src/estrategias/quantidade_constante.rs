//! Selling the same share of what is left at each step.

use crate::dia::dia_deslocado;
use crate::dia::duracao_em_texto;
use crate::dia::Dia;
use crate::dia::Duracao;
use crate::erro::Erro;
use crate::estrategias::contar_vendas;
use crate::estrategias::modulo;
use crate::estrategias::numero_de_vendas;
use crate::estrategias::vendas_contaveis;
use crate::estrategias::vendas_sao_contaveis;
use crate::estrategias::Estrategia;
use crate::fluxo_investimento::EstadoFluxo;
use crate::fluxo_investimento::FluxoInvestimento;
use crate::quantidade_ou_valor::QuantidadeOuValor;
use crate::titulo::Titulo;
use vstd::prelude::*;
use vstd::string::StringExecFns;

verus! {

/// Sells, at each interval, what is held divided by the number of sales
/// still to make, so that the last sale sells all that is left.
#[derive(Debug, Clone)]
pub struct QuantidadeConstante {
    frequencia_venda: Duracao,
}

/// The sales from the one numbered `indice` on, of `vendas` in all: each
/// on the day `frequencia` days after the one before, each of the balance
/// over the number of sales still to make. The first sale that fails ends
/// them.
pub open spec fn vender_partes(
    estado: EstadoFluxo,
    titulo: Titulo,
    dia_inicio: Dia,
    frequencia: int,
    vendas: int,
    indice: int,
) -> Result<EstadoFluxo, Erro>
    decreases vendas - indice,
{
    if indice >= vendas {
        Ok(estado)
    } else {
        match dia_deslocado(dia_inicio, frequencia * indice) {
            None => Err(Erro::DiaForaDosLimites),
            Some(dia) => {
                let quantidade = estado.saldo.dividido_por((vendas - indice) as i64);
                match estado.vender(titulo, dia, QuantidadeOuValor::Quantidade(quantidade)) {
                    (Ok(_), depois) => vender_partes(
                        depois,
                        titulo,
                        dia_inicio,
                        frequencia,
                        vendas,
                        indice + 1,
                    ),
                    (Err(erro), _) => Err(erro),
                }
            },
        }
    }
}

/// Once the last sale is made, nothing is left: where at least one sale is
/// still to make and all succeed, the balance ends at zero.
pub proof fn lema_vender_partes_esgota(
    estado: EstadoFluxo,
    titulo: Titulo,
    dia_inicio: Dia,
    frequencia: int,
    vendas: int,
    indice: int,
)
    requires
        0 <= indice < vendas <= i64::MAX,
        vender_partes(estado, titulo, dia_inicio, frequencia, vendas, indice) is Ok,
    ensures
        vender_partes(estado, titulo, dia_inicio, frequencia, vendas, indice)->Ok_0.saldo.0 == 0,
    decreases vendas - indice,
{
    let dia = dia_deslocado(dia_inicio, frequencia * indice)->Some_0;
    let quantidade = estado.saldo.dividido_por((vendas - indice) as i64);
    let depois = estado.vender(titulo, dia, QuantidadeOuValor::Quantidade(quantidade)).1;
    if indice + 1 < vendas {
        lema_vender_partes_esgota(depois, titulo, dia_inicio, frequencia, vendas, indice + 1);
    } else {
        assert(estado.saldo.0 as int / 1 == estado.saldo.0);
        assert(quantidade == estado.saldo);
        reveal(EstadoFluxo::vender);
    }
}

impl QuantidadeConstante {
    /// The interval between sales.
    pub closed spec fn frequencia(&self) -> Duracao {
        self.frequencia_venda
    }

    /// The strategy that sells every `frequencia_venda`.
    pub fn new(frequencia_venda: Duracao) -> (r: Self)
        ensures
            r.frequencia() == frequencia_venda,
    {
        QuantidadeConstante { frequencia_venda }
    }
}

impl Estrategia for QuantidadeConstante {
    open spec fn aplicavel(
        &self,
        estado: EstadoFluxo,
        titulo: Titulo,
        dia_inicio: Dia,
        periodo: Duracao,
    ) -> bool {
        vendas_contaveis(periodo, self.frequencia())
    }

    open spec fn resultado(
        &self,
        estado: EstadoFluxo,
        titulo: Titulo,
        dia_inicio: Dia,
        periodo: Duracao,
    ) -> Result<EstadoFluxo, Erro> {
        vender_partes(
            estado,
            titulo,
            dia_inicio,
            self.frequencia().dias as int,
            numero_de_vendas(periodo, self.frequencia()),
            0,
        )
    }

    fn nome(&self) -> (r: String)
        ensures
            r@ == "quantidade-constante("@ + duracao_em_texto(self.frequencia().dias as int)
                + ")"@,
    {
        let mut nome = String::from_str("quantidade-constante(");
        let frequencia = self.frequencia_venda.texto();
        nome.append(frequencia.as_str());
        nome.append(")");
        nome
    }

    fn pode_aplicar<'a>(&self, fluxo: &FluxoInvestimento<'a>, dia_inicio: Dia, periodo: Duracao) -> (r:
        bool) {
        vendas_sao_contaveis(periodo, self.frequencia_venda)
    }

    /// Makes the sales, one every interval. Where at least one sale fits
    /// in the period and all succeed, the balance ends at zero.
    fn aplicar<'a>(&self, fluxo: FluxoInvestimento<'a>, dia_inicio: Dia, periodo: Duracao) -> (r:
        Result<FluxoInvestimento<'a>, Erro>)
        ensures
            r is Ok && numero_de_vendas(periodo, self.frequencia()) >= 1 ==> r->Ok_0@.saldo.0
                == 0,
    {
        let ghost inicial = fluxo@;
        let ghost titulo = fluxo.titulo();
        let mut atual = fluxo;
        let frequencia = self.frequencia_venda.dias;
        let num_vendas = contar_vendas(periodo, self.frequencia_venda);
        let mut indice: i64 = 0;
        while indice < num_vendas
            invariant
                0 <= indice,
                num_vendas > 0 ==> indice <= num_vendas,
                num_vendas == numero_de_vendas(periodo, self.frequencia()),
                frequencia == self.frequencia().dias,
                vendas_contaveis(periodo, self.frequencia()),
                inicial == fluxo@,
                titulo == fluxo.titulo(),
                atual.titulo() == titulo,
                atual@.bem_formado(),
                vender_partes(
                    inicial,
                    titulo,
                    dia_inicio,
                    frequencia as int,
                    num_vendas as int,
                    0,
                ) == vender_partes(
                    atual@,
                    titulo,
                    dia_inicio,
                    frequencia as int,
                    num_vendas as int,
                    indice as int,
                ),
            decreases num_vendas - indice,
        {
            let vendas_restantes = num_vendas - indice;
            let quantidade_venda = atual.saldo_quantidade() / vendas_restantes;
            proof {
                lema_deslocamento_cabe(periodo, self.frequencia_venda, indice as int);
            }
            let dia = match dia_inicio.mais_dias(frequencia * indice) {
                Some(dia) => dia,
                None => {
                    return Err(Erro::DiaForaDosLimites);
                },
            };
            match atual.vender_a_partir_de(dia, QuantidadeOuValor::Quantidade(quantidade_venda)) {
                Ok(_) => {},
                Err(erro) => {
                    return Err(erro);
                },
            }
            indice = indice + 1;
        }
        proof {
            if num_vendas >= 1 {
                lema_vender_partes_esgota(
                    inicial,
                    titulo,
                    dia_inicio,
                    frequencia as int,
                    num_vendas as int,
                    0,
                );
            }
        }
        Ok(atual)
    }
}

/// The days between the first sale and a later one fit an `i64`: a sale
/// that is one of those counted lies within the period.
pub proof fn lema_deslocamento_cabe(periodo: Duracao, frequencia: Duracao, indice: int)
    requires
        frequencia.dias != 0,
        0 <= indice < numero_de_vendas(periodo, frequencia),
    ensures
        i64::MIN <= frequencia.dias * indice <= i64::MAX,
{
    let p = modulo(periodo.dias as int);
    let f = modulo(frequencia.dias as int);
    assert(p / f >= 0) by (nonlinear_arith)
        requires
            p >= 0,
            f > 0,
    ;
    assert(0 <= f * indice <= p) by (nonlinear_arith)
        requires
            0 <= indice < p / f,
            f > 0,
            p >= 0,
    ;
    if frequencia.dias >= 0 {
        assert(frequencia.dias * indice == f * indice);
    } else {
        assert(frequencia.dias * indice == -(f * indice)) by (nonlinear_arith)
            requires
                f == -frequencia.dias,
        ;
    }
}

} // verus!
