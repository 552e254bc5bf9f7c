//! Selling the same real amount at each step: the largest one that the
//! position can pay through the whole period.

use crate::decimal::cabe;
use crate::decimal::ponto_medio;
use crate::decimal::Decimal;
use crate::dia::dia_deslocado;
use crate::dia::duracao_em_texto;
use crate::dia::Dia;
use crate::dia::Duracao;
use crate::erro::Erro;
use crate::estrategias::contar_vendas;
use crate::estrategias::modulo;
use crate::estrategias::numero_de_vendas;
use crate::estrategias::quantidade_constante::lema_deslocamento_cabe;
use crate::estrategias::vendas_contaveis;
use crate::estrategias::vendas_sao_contaveis;
use crate::estrategias::Estrategia;
use crate::fluxo_investimento::EstadoFluxo;
use crate::fluxo_investimento::FluxoInvestimento;
use crate::inflacao::corrigido;
use crate::inflacao::Inflacao;
use crate::quantidade_ou_valor::QuantidadeOuValor;
use crate::serie_temporal::valor_em;
use crate::titulo::Titulo;
use vstd::prelude::*;
use vstd::string::StringExecFns;

verus! {

/// Sells, at each interval, the same amount in money of the first day,
/// corrected for inflation to the day of the sale.
#[derive(Debug, Clone)]
pub struct ValorRealConstante<'a> {
    inflacao: &'a Inflacao,
    frequencia_venda: Duracao,
}

/// What a run of sales goes by: the bond, the price index, the first day,
/// the days between sales and the number of sales.
pub struct Plano {
    pub titulo: Titulo,
    pub indices: Seq<(Dia, Decimal<2>)>,
    pub dia_inicio: Dia,
    pub frequencia: int,
    pub vendas: int,
}

/// The sales of `venda_real`, in money of the first day, from the one
/// numbered `indice` on: the state after them, or none where a sale cannot
/// be made, for want of a day, of a level of the index, of a price or of
/// balance.
pub open spec fn tentativa(
    estado: EstadoFluxo,
    plano: Plano,
    indice: int,
    venda_real: Decimal<2>,
) -> Option<EstadoFluxo>
    decreases plano.vendas - indice,
{
    if indice >= plano.vendas {
        Some(estado)
    } else {
        match dia_deslocado(plano.dia_inicio, plano.frequencia * indice) {
            None => None,
            Some(dia) => match corrigido(plano.indices, venda_real, plano.dia_inicio, dia) {
                None => None,
                Some(venda) => match estado.vender(
                    plano.titulo,
                    dia,
                    QuantidadeOuValor::Valor(venda),
                ) {
                    (Ok(_), depois) => tentativa(depois, plano, indice + 1, venda_real),
                    (Err(_), _) => None,
                },
            },
        }
    }
}

/// The search between an amount that can be paid and one that cannot. The
/// amount halfway is tried: if it can be paid it becomes the lower end and
/// its outcome the best so far, else it becomes the upper end. The search
/// ends when no amount lies between the ends, with the best outcome.
pub open spec fn bissecao(
    estado: EstadoFluxo,
    plano: Plano,
    minimo: int,
    maximo: int,
    melhor: EstadoFluxo,
) -> EstadoFluxo
    decreases modulo(maximo - minimo),
{
    let meio = ponto_medio(minimo, maximo);
    if meio == minimo || meio == maximo {
        melhor
    } else {
        match tentativa(estado, plano, 0, Decimal(meio as i64)) {
            None => bissecao(estado, plano, minimo, meio, melhor),
            Some(depois) => bissecao(estado, plano, meio, maximo, depois),
        }
    }
}

/// The number of amounts that the search tries between the two ends.
pub open spec fn passos_da_bissecao(
    estado: EstadoFluxo,
    plano: Plano,
    minimo: int,
    maximo: int,
) -> nat
    decreases modulo(maximo - minimo),
{
    let meio = ponto_medio(minimo, maximo);
    if meio == minimo || meio == maximo {
        0
    } else {
        match tentativa(estado, plano, 0, Decimal(meio as i64)) {
            None => 1 + passos_da_bissecao(estado, plano, minimo, meio),
            Some(_) => 1 + passos_da_bissecao(estado, plano, meio, maximo),
        }
    }
}

/// 2 to the power `n`.
pub open spec fn dois_elevado(n: nat) -> nat
    decreases n,
{
    if n == 0 {
        1
    } else {
        2 * dois_elevado((n - 1) as nat)
    }
}

/// The search halves the range at each step, so it tries no more amounts
/// than the range can be halved: 2 to the number of steps is less than
/// twice the distance between the ends.
pub proof fn lema_passos_da_bissecao(estado: EstadoFluxo, plano: Plano, minimo: int, maximo: int)
    requires
        minimo != maximo,
    ensures
        dois_elevado(passos_da_bissecao(estado, plano, minimo, maximo)) < 2 * modulo(
            maximo - minimo,
        ),
    decreases modulo(maximo - minimo),
{
    let tamanho = modulo(maximo - minimo);
    let meio = ponto_medio(minimo, maximo);
    if meio != minimo && meio != maximo {
        let (novo_minimo, novo_maximo) = match tentativa(
            estado,
            plano,
            0,
            Decimal(meio as i64),
        ) {
            None => (minimo, meio),
            Some(_) => (meio, maximo),
        };
        lema_passos_da_bissecao(estado, plano, novo_minimo, novo_maximo);
        let novo_tamanho = modulo(novo_maximo - novo_minimo);
        let passos = passos_da_bissecao(estado, plano, novo_minimo, novo_maximo);
        assert(2 * novo_tamanho <= tamanho + 1);
        // Twice the new distance is the old one or one more; where it is one
        // more the old distance is odd, and no power of 2 but 1 is odd.
        if passos > 0 {
            assert(dois_elevado(passos) == 2 * dois_elevado((passos - 1) as nat));
        }
        assert(dois_elevado(passos) <= tamanho - 1);
    }
}

/// Whether the state is what the sales of some amount give, while an amount
/// next to it cannot be paid.
pub open spec fn maior_venda_viavel(estado: EstadoFluxo, plano: Plano, depois: EstadoFluxo) -> bool {
    exists|baixo: int, alto: int|
        {
            &&& cabe(baixo)
            &&& cabe(alto)
            &&& #[trigger] tentativa(estado, plano, 0, Decimal(baixo as i64)) == Some(depois)
            &&& #[trigger] tentativa(estado, plano, 0, Decimal(alto as i64)) is None
            &&& ponto_medio(baixo, alto) == baixo || ponto_medio(baixo, alto) == alto
        }
}

/// The search never loses its footing: from a lower end that can be paid
/// and an upper end that cannot, it ends with the outcome of an amount
/// that can be paid, next to one that cannot.
pub proof fn lema_bissecao_viavel(
    estado: EstadoFluxo,
    plano: Plano,
    minimo: int,
    maximo: int,
    melhor: EstadoFluxo,
)
    requires
        cabe(minimo),
        cabe(maximo),
        tentativa(estado, plano, 0, Decimal(minimo as i64)) == Some(melhor),
        tentativa(estado, plano, 0, Decimal(maximo as i64)) is None,
    ensures
        maior_venda_viavel(estado, plano, bissecao(estado, plano, minimo, maximo, melhor)),
    decreases modulo(maximo - minimo),
{
    let meio = ponto_medio(minimo, maximo);
    if meio == minimo || meio == maximo {
        assert(tentativa(estado, plano, 0, Decimal(minimo as i64)) == Some(melhor));
        assert(tentativa(estado, plano, 0, Decimal(maximo as i64)) is None);
    } else {
        match tentativa(estado, plano, 0, Decimal(meio as i64)) {
            None => {
                lema_bissecao_viavel(estado, plano, minimo, meio, melhor);
            },
            Some(depois) => {
                lema_bissecao_viavel(estado, plano, meio, maximo, depois);
            },
        }
    }
}

impl<'a> ValorRealConstante<'a> {
    /// The interval between sales.
    pub closed spec fn frequencia(&self) -> Duracao {
        self.frequencia_venda
    }

    /// The price index that corrects the sales.
    pub closed spec fn inflacao(&self) -> Inflacao {
        *self.inflacao
    }

    /// The plan of the sales of a period.
    pub open spec fn plano(&self, titulo: Titulo, dia_inicio: Dia, periodo: Duracao) -> Plano {
        Plano {
            titulo,
            indices: self.inflacao().indices(),
            dia_inicio,
            frequencia: self.frequencia().dias as int,
            vendas: numero_de_vendas(periodo, self.frequencia()),
        }
    }

    /// The strategy that sells every `frequencia_venda`, correcting by
    /// `inflacao`.
    pub fn new(inflacao: &'a Inflacao, frequencia_venda: Duracao) -> (r: Self)
        ensures
            r.frequencia() == frequencia_venda,
            r.inflacao() == *inflacao,
    {
        ValorRealConstante { inflacao, frequencia_venda }
    }

    /// Tries to sell `venda_real`, in money of the first day, at every
    /// interval, on a copy of the flow. Hands back the copy after the
    /// sales, or `None` where one of them cannot be made.
    pub fn tentar_venda<'b>(
        &self,
        fluxo: &FluxoInvestimento<'b>,
        dia_inicio: Dia,
        periodo: Duracao,
        venda_real: Decimal<2>,
    ) -> (r: Option<FluxoInvestimento<'b>>)
        requires
            fluxo@.bem_formado(),
            vendas_contaveis(periodo, self.frequencia()),
        ensures
            match tentativa(
                fluxo@,
                self.plano(fluxo.titulo(), dia_inicio, periodo),
                0,
                venda_real,
            ) {
                Some(estado) => r matches Some(depois) && depois@ == estado && depois.titulo()
                    == fluxo.titulo() && depois@.bem_formado(),
                None => r is None,
            },
    {
        let ghost plano = self.plano(fluxo.titulo(), dia_inicio, periodo);
        let mut atual = fluxo.clone();
        let frequencia = self.frequencia_venda.dias;
        let num_vendas = contar_vendas(periodo, self.frequencia_venda);
        let mut indice: i64 = 0;
        while indice < num_vendas
            invariant
                0 <= indice,
                num_vendas > 0 ==> indice <= num_vendas,
                num_vendas == numero_de_vendas(periodo, self.frequencia()),
                frequencia == self.frequencia().dias,
                vendas_contaveis(periodo, self.frequencia()),
                plano == self.plano(fluxo.titulo(), dia_inicio, periodo),
                atual.titulo() == fluxo.titulo(),
                atual@.bem_formado(),
                tentativa(fluxo@, plano, 0, venda_real) == tentativa(
                    atual@,
                    plano,
                    indice as int,
                    venda_real,
                ),
            decreases num_vendas - indice,
        {
            proof {
                lema_deslocamento_cabe(periodo, self.frequencia_venda, indice as int);
            }
            let dia_venda = match dia_inicio.mais_dias(frequencia * indice) {
                Some(dia) => dia,
                None => {
                    return None;
                },
            };
            let venda = match self.inflacao.corrigir(venda_real, dia_inicio, dia_venda) {
                Some(venda) => venda,
                None => {
                    return None;
                },
            };
            match atual.vender_a_partir_de(dia_venda, QuantidadeOuValor::Valor(venda)) {
                Ok(_) => {},
                Err(_) => {
                    return None;
                },
            }
            indice = indice + 1;
        }
        Some(atual)
    }
}

impl<'a> Estrategia for ValorRealConstante<'a> {
    /// The interval is not zero, and the bond has a sale price by the first
    /// day, so that the position can be valued.
    open spec fn aplicavel(
        &self,
        estado: EstadoFluxo,
        titulo: Titulo,
        dia_inicio: Dia,
        periodo: Duracao,
    ) -> bool {
        &&& vendas_contaveis(periodo, self.frequencia())
        &&& valor_em(titulo.preco_venda@, dia_inicio) is Some
    }

    /// The outcome of the search between nothing and the worth of the whole
    /// position on the first day. There is no search where nothing can be
    /// sold at every step, or the whole worth can.
    open spec fn resultado(
        &self,
        estado: EstadoFluxo,
        titulo: Titulo,
        dia_inicio: Dia,
        periodo: Duracao,
    ) -> Result<EstadoFluxo, Erro> {
        let plano = self.plano(titulo, dia_inicio, periodo);
        let maximo = valor_em(titulo.preco_venda@, dia_inicio)->Some_0.vezes(estado.saldo);
        match tentativa(estado, plano, 0, Decimal(0)) {
            None => Err(Erro::LimitesInviaveis),
            Some(primeiro) => if tentativa(estado, plano, 0, maximo) is Some {
                Err(Erro::LimitesInviaveis)
            } else {
                Ok(bissecao(estado, plano, 0, maximo.0 as int, primeiro))
            },
        }
    }

    fn nome(&self) -> (r: String)
        ensures
            r@ == "valor-real-constante("@ + duracao_em_texto(self.frequencia().dias as int)
                + ")"@,
    {
        let mut nome = String::from_str("valor-real-constante(");
        let frequencia = self.frequencia_venda.texto();
        nome.append(frequencia.as_str());
        nome.append(")");
        nome
    }

    fn pode_aplicar<'b>(&self, fluxo: &FluxoInvestimento<'b>, dia_inicio: Dia, periodo: Duracao) -> (r:
        bool) {
        vendas_sao_contaveis(periodo, self.frequencia_venda)
            && fluxo.get_titulo().preco_venda.valor_atual(dia_inicio).is_some()
    }

    /// Searches for the largest real amount that can be sold at every
    /// interval and hands back the flow after the sales of the amount
    /// found. Throughout the search the lower end can be paid and the upper
    /// end cannot, so the amount found can be paid at every step, and an
    /// amount next to it cannot.
    fn aplicar<'b>(&self, fluxo: FluxoInvestimento<'b>, dia_inicio: Dia, periodo: Duracao) -> (r:
        Result<FluxoInvestimento<'b>, Erro>)
        ensures
            r matches Ok(depois) ==> maior_venda_viavel(
                fluxo@,
                self.plano(fluxo.titulo(), dia_inicio, periodo),
                depois@,
            ),
    {
        let ghost plano = self.plano(fluxo.titulo(), dia_inicio, periodo);
        let mut minimo: Decimal<2> = Decimal::zero();
        let mut maximo = fluxo.saldo_valor(dia_inicio);
        let ghost teto = maximo;

        let mut melhor_fluxo = match self.tentar_venda(&fluxo, dia_inicio, periodo, minimo) {
            Some(depois) => depois,
            None => {
                return Err(Erro::LimitesInviaveis);
            },
        };
        let ghost primeiro = melhor_fluxo@;
        if self.tentar_venda(&fluxo, dia_inicio, periodo, maximo).is_some() {
            return Err(Erro::LimitesInviaveis);
        }
        let mut meio = minimo.ponto_medio(maximo);
        while meio.0 != minimo.0 && meio.0 != maximo.0
            invariant
                fluxo@.bem_formado(),
                vendas_contaveis(periodo, self.frequencia()),
                plano == self.plano(fluxo.titulo(), dia_inicio, periodo),
                meio.0 == ponto_medio(minimo.0 as int, maximo.0 as int),
                melhor_fluxo.titulo() == fluxo.titulo(),
                melhor_fluxo@.bem_formado(),
                tentativa(fluxo@, plano, 0, minimo) == Some(melhor_fluxo@),
                tentativa(fluxo@, plano, 0, maximo) is None,
                bissecao(fluxo@, plano, 0, teto.0 as int, primeiro) == bissecao(
                    fluxo@,
                    plano,
                    minimo.0 as int,
                    maximo.0 as int,
                    melhor_fluxo@,
                ),
            decreases modulo(maximo.0 - minimo.0),
        {
            match self.tentar_venda(&fluxo, dia_inicio, periodo, meio) {
                None => {
                    maximo = meio;
                },
                Some(depois) => {
                    minimo = meio;
                    melhor_fluxo = depois;
                },
            }
            meio = minimo.ponto_medio(maximo);
        }
        proof {
            lema_bissecao_viavel(
                fluxo@,
                plano,
                minimo.0 as int,
                maximo.0 as int,
                melhor_fluxo@,
            );
        }
        Ok(melhor_fluxo)
    }
}

} // verus!
