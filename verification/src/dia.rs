//! Days and spans of days.
//!
//! A `Dia` is a day of the proleptic Gregorian calendar, held as its number
//! counted from 1 January of year 1, which is day 1. A `Duracao` is a span
//! in whole days.

use crate::decimal::lema_potencia_de_dez_cresce;
use crate::decimal::potencia_de_dez;
use crate::texto::e_digito;
use crate::texto::so_digitos;
use crate::texto::valor_dos_digitos;
use vstd::prelude::*;
use vstd::string::StringSliceAdditionalSpecFns;

verus! {

/// A calendar day, by its day number.
#[derive(Debug, Clone, Copy, PartialEq, Eq, PartialOrd, Ord, Hash, Structural)]
pub struct Dia {
    pub num: i32,
}

/// A span of time in whole days; negative spans point backwards.
#[derive(Debug, Clone, Copy, PartialEq, Eq, PartialOrd, Ord, Hash, Structural)]
pub struct Duracao {
    pub dias: i64,
}

impl Dia {
    /// The day with the given day number.
    pub fn new(num: i32) -> (r: Self)
        ensures
            r.num == num,
    {
        Dia { num }
    }

    /// The number of days from `anterior` to `self`; negative when `self`
    /// comes first.
    pub fn dias_desde(self, anterior: Dia) -> (r: i64)
        ensures
            r == self.num - anterior.num,
    {
        self.num as i64 - anterior.num as i64
    }

    /// The later of two days.
    pub fn max(self, outro: Dia) -> (r: Dia)
        ensures
            r.num == if self.num >= outro.num { self.num } else { outro.num },
    {
        if self.num >= outro.num {
            self
        } else {
            outro
        }
    }

    /// The earlier of two days.
    pub fn min(self, outro: Dia) -> (r: Dia)
        ensures
            r.num == if self.num <= outro.num { self.num } else { outro.num },
    {
        if self.num <= outro.num {
            self
        } else {
            outro
        }
    }

    /// The day `dias` days after `self`, or `None` when its number leaves
    /// the range of day numbers.
    pub fn mais_dias(self, dias: i64) -> (r: Option<Dia>)
        ensures
            r == dia_deslocado(self, dias as int),
    {
        let n: i128 = self.num as i128 + dias as i128;
        if n < i32::MIN as i128 || n > i32::MAX as i128 {
            None
        } else {
            Some(Dia { num: n as i32 })
        }
    }
}

/// The day `dias` days after `dia`, where its number is in range.
pub open spec fn dia_deslocado(dia: Dia, dias: int) -> Option<Dia> {
    if i32::MIN <= dia.num + dias <= i32::MAX {
        Some(Dia { num: (dia.num + dias) as i32 })
    } else {
        None
    }
}

/// The day number of the day that lies `meses` calendar months after the
/// day numbered `dia`, on the same day of the month or on the last one
/// where the month is shorter; none where a day is out of the calendar's
/// range.
pub uninterp spec fn dia_apos_meses(dia: int, meses: int) -> Option<int>;

/// The day number of the given day of the given month of the given year;
/// none where the calendar has no such day.
pub uninterp spec fn dia_do_calendario(ano: int, mes: int, dia: int) -> Option<int>;

/// A span of `dias` days written as an ISO 8601 duration; the empty text
/// where the span is out of range.
pub uninterp spec fn duracao_em_texto(dias: int) -> Seq<char>;

/// `NaiveDate::checked_add_months` of chrono, on day numbers: the result
/// is the one that chrono gives for these arguments, and `None` where
/// chrono finds a day out of its range.
#[verifier::external_body]
fn somar_meses(dia: Dia, meses: u32) -> (r: Option<Dia>)
    ensures
        (match r {
            Some(depois) => Some(depois.num as int),
            None => None,
        }) == dia_apos_meses(dia.num as int, meses as int),
{
    let data = chrono::NaiveDate::from_num_days_from_ce_opt(dia.num)?;
    let depois = data.checked_add_months(chrono::Months::new(meses))?;
    Some(Dia { num: chrono::Datelike::num_days_from_ce(&depois) })
}

/// `NaiveDate::from_ymd_opt` of chrono, with the day given back as its
/// number: the result is the one that chrono gives for these arguments,
/// and `None` where chrono finds no such day.
#[verifier::external_body]
fn dia_de_ymd(ano: i32, mes: u32, dia: u32) -> (r: Option<Dia>)
    ensures
        (match r {
            Some(data) => Some(data.num as int),
            None => None,
        }) == dia_do_calendario(ano as int, mes as int, dia as int),
{
    let data = chrono::NaiveDate::from_ymd_opt(ano, mes, dia)?;
    Some(Dia { num: chrono::Datelike::num_days_from_ce(&data) })
}

/// The `Display` text of chrono's `TimeDelta` of so many days, built by
/// `TimeDelta::try_days`; the empty text where chrono has no such span.
#[verifier::external_body]
fn texto_da_duracao(duracao: Duracao) -> (r: String)
    ensures
        r@ == duracao_em_texto(duracao.dias as int),
{
    match chrono::TimeDelta::try_days(duracao.dias) {
        Some(delta) => delta.to_string(),
        None => String::new(),
    }
}

/// The number of the first day of the month that six digits name, four of
/// the year and two of the month; none where the bytes are not six digits
/// or name no month.
pub open spec fn primeiro_dia_do_mes_escrito(bytes: Seq<u8>) -> Option<int> {
    if bytes.len() == 6 && so_digitos(bytes) {
        dia_do_calendario(
            valor_dos_digitos(bytes.subrange(0, 4)) as int,
            valor_dos_digitos(bytes.subrange(4, 6)) as int,
            1,
        )
    } else {
        None
    }
}

/// The number that the bytes from `de` to `ate` write in decimal digits,
/// or `None` where one of them is no digit.
fn ler_numero(bytes: &[u8], de: usize, ate: usize) -> (r: Option<u32>)
    requires
        de <= ate <= bytes@.len(),
        ate - de <= 9,
    ensures
        r is Some <==> so_digitos(bytes@.subrange(de as int, ate as int)),
        r matches Some(numero) ==> numero == valor_dos_digitos(
            bytes@.subrange(de as int, ate as int),
        ) && numero < potencia_de_dez((ate - de) as nat),
{
    let mut numero: u32 = 0;
    let mut i: usize = de;
    proof {
        assert(bytes@.subrange(de as int, de as int) =~= Seq::<u8>::empty());
    }
    while i < ate
        invariant
            de <= i <= ate <= bytes@.len(),
            ate - de <= 9,
            so_digitos(bytes@.subrange(de as int, i as int)),
            numero == valor_dos_digitos(bytes@.subrange(de as int, i as int)),
            numero < potencia_de_dez((i - de) as nat),
        decreases ate - i,
    {
        let byte = bytes[i];
        proof {
            let ate_aqui = bytes@.subrange(de as int, i as int + 1);
            assert(ate_aqui.drop_last() =~= bytes@.subrange(de as int, i as int));
            assert(ate_aqui.last() == byte);
            assert(bytes@.subrange(de as int, ate as int)[i - de] == byte);
            lema_potencia_de_dez_cresce((i - de + 1) as nat, 9);
            assert(potencia_de_dez(9) == 1_000_000_000) by {
                reveal_with_fuel(potencia_de_dez, 10);
            }
            assert(potencia_de_dez((i - de + 1) as nat) == 10 * potencia_de_dez((i - de) as nat));
            assert forall|k: int| 0 <= k < ate_aqui.len() && e_digito(byte) implies e_digito(
                #[trigger] ate_aqui[k],
            ) by {
                if k < i - de {
                    assert(ate_aqui[k] == bytes@.subrange(de as int, i as int)[k]);
                }
            }
        }
        if byte < 48 || byte > 57 {
            return None;
        }
        numero = numero * 10 + (byte - 48) as u32;
        i = i + 1;
    }
    Some(numero)
}

impl Dia {
    /// The given day of the given month of the given year, or `None`
    /// where the calendar has no such day.
    pub fn from_ymd(ano: i32, mes: u32, dia: u32) -> (r: Option<Dia>)
        ensures
            (match r {
                Some(data) => Some(data.num as int),
                None => None,
            }) == dia_do_calendario(ano as int, mes as int, dia as int),
    {
        dia_de_ymd(ano, mes, dia)
    }

    /// The first day of the month that the text names by six digits, four
    /// of the year and two of the month, as in `201308`; `None` for any
    /// other text and for a month that the calendar does not have.
    pub fn primeiro_do_mes(texto: &str) -> (r: Option<Dia>)
        ensures
            (match r {
                Some(data) => Some(data.num as int),
                None => None,
            }) == primeiro_dia_do_mes_escrito(texto.spec_bytes()),
    {
        let bytes = texto.as_bytes();
        if bytes.len() != 6 {
            return None;
        }
        proof {
            assert(so_digitos(bytes@) <==> so_digitos(bytes@.subrange(0, 4)) && so_digitos(
                bytes@.subrange(4, 6),
            )) by {
                if so_digitos(bytes@) {
                    assert forall|k: int| 0 <= k < 4 implies e_digito(
                        #[trigger] bytes@.subrange(0, 4)[k],
                    ) by {
                        assert(bytes@.subrange(0, 4)[k] == bytes@[k]);
                    }
                    assert forall|k: int| 0 <= k < 2 implies e_digito(
                        #[trigger] bytes@.subrange(4, 6)[k],
                    ) by {
                        assert(bytes@.subrange(4, 6)[k] == bytes@[k + 4]);
                    }
                }
                if so_digitos(bytes@.subrange(0, 4)) && so_digitos(bytes@.subrange(4, 6)) {
                    assert forall|k: int| 0 <= k < 6 implies e_digito(#[trigger] bytes@[k]) by {
                        if k < 4 {
                            assert(bytes@.subrange(0, 4)[k] == bytes@[k]);
                        } else {
                            assert(bytes@.subrange(4, 6)[k - 4] == bytes@[k]);
                        }
                    }
                }
            }
        }
        let ano = match ler_numero(bytes, 0, 4) {
            Some(ano) => ano,
            None => {
                return None;
            },
        };
        let mes = match ler_numero(bytes, 4, 6) {
            Some(mes) => mes,
            None => {
                return None;
            },
        };
        proof {
            reveal_with_fuel(potencia_de_dez, 5);
        }
        dia_de_ymd(ano as i32, mes, 1)
    }

    /// The day `meses` calendar months after `self`, or `None` when a day
    /// is out of the calendar's range.
    pub fn mais_meses(self, meses: u32) -> (r: Option<Dia>)
        ensures
            (match r {
                Some(depois) => Some(depois.num as int),
                None => None,
            }) == dia_apos_meses(self.num as int, meses as int),
    {
        somar_meses(self, meses)
    }
}

impl Duracao {
    /// A span of `dias` whole days.
    pub fn new(dias: i64) -> (r: Self)
        ensures
            r.dias == dias,
    {
        Duracao { dias }
    }

    /// The span as text.
    pub fn texto(self) -> (r: String)
        ensures
            r@ == duracao_em_texto(self.dias as int),
    {
        texto_da_duracao(self)
    }
}

} // verus!
