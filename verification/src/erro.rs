//! The ways in which an operation can fail.

use vstd::prelude::*;

verus! {

/// Why an operation was refused.
#[derive(Debug, Clone, Copy, PartialEq, Eq, Hash, Structural)]
pub enum Erro {
    /// The operation is dated before the last day that the flow has seen.
    DiaForaDeOrdem,
    /// The bond has no price on or after the day asked for.
    PrecoIndisponivel,
    /// The sale asks for more than the flow holds.
    SaldoInsuficiente,
    /// The lots ran out before the sale was covered: they did not add up
    /// to the balance.
    SaldoInconsistente,
    /// A quantity left the range that an amount can hold.
    QuantidadeForaDosLimites,
    /// A day left the range of day numbers.
    DiaForaDosLimites,
    /// The search for the largest payout has no valid range: nothing can be
    /// sold at all, or the whole position can be sold at every step.
    LimitesInviaveis,
    /// An event of the ledger falls after the last half year of the series.
    EventoForaDoPeriodo,
    /// The price index has no level for a day, or none above zero for the
    /// day to correct from.
    InflacaoIndisponivel,
    /// An average was asked of no series at all.
    SemRendas,
    /// The series to average differ in length.
    TamanhosDiferentes,
}

impl Erro {
    /// A sentence that says what went wrong.
    pub open spec fn texto(self) -> Seq<char> {
        match self {
            Erro::DiaForaDeOrdem => "the operation is dated before the last day processed"@,
            Erro::PrecoIndisponivel => "the bond has no price on or after that day"@,
            Erro::SaldoInsuficiente => "the sale asks for more than the balance"@,
            Erro::SaldoInconsistente => "the lots ran out before the sale was covered"@,
            Erro::QuantidadeForaDosLimites => "a quantity left the range of amounts"@,
            Erro::DiaForaDosLimites => "a day left the range of days"@,
            Erro::LimitesInviaveis => "the search for the largest payout has no valid range"@,
            Erro::EventoForaDoPeriodo => "an event falls after the last half year"@,
            Erro::InflacaoIndisponivel => "the price index has no level for a day"@,
            Erro::SemRendas => "expected at least one series"@,
            Erro::TamanhosDiferentes => "the series differ in length"@,
        }
    }

    /// A sentence that says what went wrong.
    pub fn mensagem(self) -> (r: &'static str)
        ensures
            r@ == self.texto(),
    {
        match self {
            Erro::DiaForaDeOrdem => "the operation is dated before the last day processed",
            Erro::PrecoIndisponivel => "the bond has no price on or after that day",
            Erro::SaldoInsuficiente => "the sale asks for more than the balance",
            Erro::SaldoInconsistente => "the lots ran out before the sale was covered",
            Erro::QuantidadeForaDosLimites => "a quantity left the range of amounts",
            Erro::DiaForaDosLimites => "a day left the range of days",
            Erro::LimitesInviaveis => "the search for the largest payout has no valid range",
            Erro::EventoForaDoPeriodo => "an event falls after the last half year",
            Erro::InflacaoIndisponivel => "the price index has no level for a day",
            Erro::SemRendas => "expected at least one series",
            Erro::TamanhosDiferentes => "the series differ in length",
        }
    }
}

} // verus!
