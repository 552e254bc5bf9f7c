//! Withdrawal strategies for government bonds, replayed over their price
//! history.
//!
//! A bond has a history of purchase prices, sale prices and coupons. A flow
//! buys the bond and sells it again, lot by lot, first in, first out, and
//! keeps a ledger of every purchase, sale and coupon with its taxes and
//! fees. A strategy sells a position down over a period; the real income
//! that it yields, half year by half year, tells strategies apart.
//!
//! Amounts are exact: they count hundredths, or millionths, in whole
//! numbers, and every rounding is stated.

pub mod analise;
pub mod decimal;
pub mod dia;
pub mod erro;
pub mod estrategias;
pub mod fluxo_investimento;
pub mod impostos_e_taxas;
pub mod inflacao;
pub mod ler_titulos;
pub mod quantidade_ou_valor;
pub mod renda_semestral;
pub mod serie_temporal;
pub mod texto;
pub mod tipo_titulo;
pub mod titulo;
