//! Amounts as text: reading an amount written with a decimal comma, and
//! writing one with all its decimal places.

use crate::decimal::cabe;
use crate::decimal::Decimal;
use vstd::prelude::*;
use vstd::string::StringExecFns;
use vstd::string::StringSliceAdditionalSpecFns;

verus! {

/// Whether the byte is a decimal digit in ASCII.
pub open spec fn e_digito(byte: u8) -> bool {
    48 <= byte <= 57
}

/// Whether the byte parts the whole of an amount from its fraction: a comma
/// or a point.
pub open spec fn e_separador(byte: u8) -> bool {
    byte == 44 || byte == 46
}

/// Whether every byte is a decimal digit.
pub open spec fn so_digitos(bytes: Seq<u8>) -> bool {
    forall|i: int| 0 <= i < bytes.len() ==> e_digito(#[trigger] bytes[i])
}

/// The number that the digits write; zero for no digit.
pub open spec fn valor_dos_digitos(digitos: Seq<u8>) -> nat
    decreases digitos.len(),
{
    if digitos.len() == 0 {
        0
    } else {
        10 * valor_dos_digitos(digitos.drop_last()) + (digitos.last() - 48) as nat
    }
}

/// The number of digits at the head of the bytes.
pub open spec fn digitos_iniciais(bytes: Seq<u8>) -> int
    decreases bytes.len(),
{
    if bytes.len() > 0 && e_digito(bytes[0]) {
        1 + digitos_iniciais(bytes.drop_first())
    } else {
        0
    }
}

/// `valor` with `zeros` zeros written after it.
pub open spec fn com_zeros(valor: nat, zeros: nat) -> nat
    decreases zeros,
{
    if zeros == 0 {
        valor
    } else {
        com_zeros(10 * valor, (zeros - 1) as nat)
    }
}

/// The count of units of 10^-`casas` that the whole digits and the
/// fraction digits write. Places that the fraction lacks count as zeros.
/// Places beyond `casas` are dropped, and the last place kept goes up by
/// one where the first digit dropped is 5 or more.
pub open spec fn unidades_escritas(inteiro: Seq<u8>, fracao: Seq<u8>, casas: nat) -> nat {
    if fracao.len() <= casas {
        com_zeros(valor_dos_digitos(inteiro + fracao), (casas - fracao.len()) as nat)
    } else {
        let mantido = valor_dos_digitos(inteiro + fracao.take(casas as int));
        if fracao[casas as int] >= 53 {
            mantido + 1
        } else {
            mantido
        }
    }
}

/// The amount that the bytes write, in units of 10^-`casas`: an optional
/// sign, one digit or more, and then, optionally, a comma or a point and
/// one digit or more. There is none where the bytes are not of that form or
/// the amount does not fit.
pub open spec fn decimal_escrito(bytes: Seq<u8>, casas: nat) -> Option<i64> {
    let com_sinal = bytes.len() > 0 && (bytes[0] == 45 || bytes[0] == 43);
    let negativo = bytes.len() > 0 && bytes[0] == 45;
    let corpo = if com_sinal { bytes.drop_first() } else { bytes };
    let k = digitos_iniciais(corpo);
    let inteiro = corpo.take(k);
    if k == 0 {
        None
    } else if k == corpo.len() {
        decimal_com_sinal(negativo, unidades_escritas(inteiro, Seq::empty(), casas))
    } else if !e_separador(corpo[k]) {
        None
    } else {
        let fracao = corpo.skip(k + 1);
        if fracao.len() == 0 || !so_digitos(fracao) {
            None
        } else {
            decimal_com_sinal(negativo, unidades_escritas(inteiro, fracao, casas))
        }
    }
}

/// The amount of that size and sign, where it fits.
pub open spec fn decimal_com_sinal(negativo: bool, unidades: nat) -> Option<i64> {
    let valor = if negativo { -(unidades as int) } else { unidades as int };
    if cabe(valor) {
        Some(valor as i64)
    } else {
        None
    }
}

/// The largest size that is followed exactly while digits are read: 2^64.
/// A size beyond it fits no amount, whatever follows.
spec fn teto() -> nat {
    0x1_0000_0000_0000_0000
}

/// A number read so far: its value where that is within the ceiling, or
/// the knowledge that it is beyond.
struct Lido {
    valor: u128,
    alem: bool,
}

impl Lido {
    /// Whether a value that is followed is within the ceiling.
    spec fn valido(self) -> bool {
        !self.alem ==> self.valor <= teto()
    }

    /// Whether `self` stands for `exato`.
    spec fn representa(self, exato: nat) -> bool {
        &&& self.valido()
        &&& if self.alem {
            exato > teto()
        } else {
            self.valor == exato
        }
    }

    /// The number with one more digit written after it.
    fn com_digito(self, digito: u8) -> (r: Lido)
        requires
            self.valido(),
            digito <= 9,
        ensures
            r.valido(),
            forall|exato: nat| self.representa(exato) ==> r.representa(10 * exato + digito as nat),
    {
        if self.alem {
            self
        } else {
            let valor: u128 = self.valor * 10 + digito as u128;
            if valor > 0x1_0000_0000_0000_0000 {
                Lido { valor: 0, alem: true }
            } else {
                Lido { valor, alem: false }
            }
        }
    }

    /// The number plus one.
    fn mais_um(self) -> (r: Lido)
        requires
            self.valido(),
        ensures
            r.valido(),
            forall|exato: nat| self.representa(exato) ==> r.representa(exato + 1),
    {
        if self.alem {
            self
        } else if self.valor >= 0x1_0000_0000_0000_0000 {
            Lido { valor: 0, alem: true }
        } else {
            Lido { valor: self.valor + 1, alem: false }
        }
    }

    /// The number with `zeros` zeros written after it.
    fn com_zeros(self, zeros: usize, Ghost(exato): Ghost<nat>) -> (r: Lido)
        requires
            self.representa(exato),
        ensures
            r.representa(com_zeros(exato, zeros as nat)),
    {
        let mut lido = self;
        let mut faltam: usize = zeros;
        let ghost atual = exato;
        while faltam > 0
            invariant
                lido.representa(atual),
                com_zeros(atual, faltam as nat) == com_zeros(exato, zeros as nat),
            decreases faltam,
        {
            lido = lido.com_digito(0);
            proof {
                atual = 10 * atual;
            }
            faltam = faltam - 1;
        }
        lido
    }

    /// The amount of that size and sign, where it fits.
    fn com_sinal(self, negativo: bool, Ghost(exato): Ghost<nat>) -> (r: Option<i64>)
        requires
            self.representa(exato),
        ensures
            r == decimal_com_sinal(negativo, exato),
    {
        if self.alem {
            None
        } else if negativo {
            if self.valor > 0x8000_0000_0000_0000 {
                None
            } else {
                Some((-(self.valor as i128)) as i64)
            }
        } else {
            if self.valor > 0x7fff_ffff_ffff_ffff {
                None
            } else {
                Some(self.valor as i64)
            }
        }
    }
}

/// The digits of `bytes` from `de` to `ate`, written after the number read
/// so far. The bytes there must be digits.
fn ler_digitos(lido: Lido, bytes: &[u8], de: usize, ate: usize, Ghost(antes): Ghost<Seq<u8>>) -> (r:
    Lido)
    requires
        de <= ate <= bytes@.len(),
        so_digitos(bytes@.subrange(de as int, ate as int)),
        lido.representa(valor_dos_digitos(antes)),
    ensures
        r.representa(valor_dos_digitos(antes + bytes@.subrange(de as int, ate as int))),
{
    let mut lido = lido;
    let mut i: usize = de;
    proof {
        assert(antes + bytes@.subrange(de as int, de as int) =~= antes);
    }
    while i < ate
        invariant
            de <= i <= ate <= bytes@.len(),
            so_digitos(bytes@.subrange(de as int, ate as int)),
            lido.representa(valor_dos_digitos(antes + bytes@.subrange(de as int, i as int))),
        decreases ate - i,
    {
        let byte = bytes[i];
        proof {
            assert(bytes@.subrange(de as int, ate as int)[i - de] == byte);
            let ate_aqui = antes + bytes@.subrange(de as int, i as int + 1);
            assert(ate_aqui.drop_last() =~= antes + bytes@.subrange(de as int, i as int));
            assert(ate_aqui.last() == byte);
        }
        lido = lido.com_digito(byte - 48);
        i = i + 1;
    }
    lido
}

/// How many bytes from `de` on are digits.
fn contar_digitos(bytes: &[u8], de: usize) -> (r: usize)
    requires
        de <= bytes@.len(),
    ensures
        r == digitos_iniciais(bytes@.skip(de as int)),
        de + r <= bytes@.len(),
        so_digitos(bytes@.subrange(de as int, de + r)),
{
    let n = bytes.len();
    let mut i: usize = de;
    while i < n && bytes[i] >= 48 && bytes[i] <= 57
        invariant
            de <= i <= n,
            n == bytes@.len(),
            so_digitos(bytes@.subrange(de as int, i as int)),
        decreases n - i,
    {
        i = i + 1;
        proof {
            assert forall|k: int| 0 <= k < i - de implies e_digito(
                #[trigger] bytes@.subrange(de as int, i as int)[k],
            ) by {
                if k < i - de - 1 {
                    assert(bytes@.subrange(de as int, i as int - 1)[k] == bytes@.subrange(
                        de as int,
                        i as int,
                    )[k]);
                }
            }
        }
    }
    proof {
        lema_digitos_iniciais(bytes@.skip(de as int), i - de);
    }
    i - de
}

/// A place before which all bytes are digits, and which holds none or is
/// the end, is `digitos_iniciais`.
proof fn lema_digitos_iniciais(bytes: Seq<u8>, k: int)
    requires
        0 <= k <= bytes.len(),
        forall|i: int| 0 <= i < k ==> e_digito(#[trigger] bytes[i]),
        k < bytes.len() ==> !e_digito(bytes[k]),
    ensures
        digitos_iniciais(bytes) == k,
    decreases k,
{
    if k > 0 {
        let resto = bytes.drop_first();
        assert(e_digito(bytes[0]));
        assert forall|i: int| 0 <= i < k - 1 implies e_digito(#[trigger] resto[i]) by {
            assert(resto[i] == bytes[i + 1]);
        }
        if k < bytes.len() {
            assert(resto[k - 1] == bytes[k]);
        }
        lema_digitos_iniciais(resto, k - 1);
    }
}

/// Whether all the bytes from `de` on are digits.
fn sao_digitos(bytes: &[u8], de: usize) -> (r: bool)
    requires
        de <= bytes@.len(),
    ensures
        r == so_digitos(bytes@.skip(de as int)),
{
    let n = bytes.len();
    let mut i: usize = de;
    while i < n
        invariant
            de <= i <= n,
            n == bytes@.len(),
            forall|k: int| de <= k < i ==> e_digito(#[trigger] bytes@[k]),
        decreases n - i,
    {
        if bytes[i] < 48 || bytes[i] > 57 {
            proof {
                assert(bytes@.skip(de as int)[i - de] == bytes@[i as int]);
            }
            return false;
        }
        i = i + 1;
    }
    proof {
        assert forall|k: int| 0 <= k < bytes@.skip(de as int).len() implies e_digito(
            #[trigger] bytes@.skip(de as int)[k],
        ) by {
            assert(bytes@.skip(de as int)[k] == bytes@[de + k]);
        }
    }
    true
}

/// The units that the whole digits, from `inicio` to `fim_do_inteiro`, and
/// the fraction digits, from `inicio_da_fracao` to the end, write.
fn ler_unidades(
    bytes: &[u8],
    inicio: usize,
    fim_do_inteiro: usize,
    inicio_da_fracao: usize,
    casas: usize,
) -> (r: Lido)
    requires
        inicio <= fim_do_inteiro <= inicio_da_fracao <= bytes@.len(),
        so_digitos(bytes@.subrange(inicio as int, fim_do_inteiro as int)),
        so_digitos(bytes@.skip(inicio_da_fracao as int)),
    ensures
        r.representa(
            unidades_escritas(
                bytes@.subrange(inicio as int, fim_do_inteiro as int),
                bytes@.skip(inicio_da_fracao as int),
                casas as nat,
            ),
        ),
{
    let n = bytes.len();
    let ghost inteiro = bytes@.subrange(inicio as int, fim_do_inteiro as int);
    let ghost fracao = bytes@.skip(inicio_da_fracao as int);
    let zero = Lido { valor: 0, alem: false };
    let lido = ler_digitos(zero, bytes, inicio, fim_do_inteiro, Ghost(Seq::empty()));
    proof {
        assert(Seq::<u8>::empty() + inteiro =~= inteiro);
    }
    let tamanho = n - inicio_da_fracao;
    if tamanho <= casas {
        proof {
            assert(bytes@.subrange(inicio_da_fracao as int, n as int) =~= fracao);
        }
        let com_fracao = ler_digitos(lido, bytes, inicio_da_fracao, n, Ghost(inteiro));
        com_fracao.com_zeros(casas - tamanho, Ghost(valor_dos_digitos(inteiro + fracao)))
    } else {
        proof {
            assert(bytes@.subrange(inicio_da_fracao as int, inicio_da_fracao + casas)
                =~= fracao.take(casas as int));
            assert forall|i: int| 0 <= i < casas implies e_digito(
                #[trigger] fracao.take(casas as int)[i],
            ) by {
                assert(fracao.take(casas as int)[i] == fracao[i]);
            }
            assert(fracao[casas as int] == bytes@[inicio_da_fracao + casas]);
        }
        let mantido = ler_digitos(
            lido,
            bytes,
            inicio_da_fracao,
            inicio_da_fracao + casas,
            Ghost(inteiro),
        );
        if bytes[inicio_da_fracao + casas] >= 53 {
            mantido.mais_um()
        } else {
            mantido
        }
    }
}

impl<const N: u8> Decimal<N> {
    /// The amount that the text writes: an optional sign, one digit or
    /// more, and then, optionally, a comma or a point and one digit or
    /// more. Places that the text lacks count as zeros; places beyond `N`
    /// are rounded away, to the nearest unit. `None` for any other text
    /// and for an amount that does not fit.
    pub fn ler(texto: &str) -> (r: Option<Self>)
        ensures
            (match r {
                Some(decimal) => Some(decimal.0),
                None => None,
            }) == decimal_escrito(texto.spec_bytes(), N as nat),
    {
        let bytes = texto.as_bytes();
        let n = bytes.len();
        let com_sinal = n > 0 && (bytes[0] == 45 || bytes[0] == 43);
        let negativo = n > 0 && bytes[0] == 45;
        let inicio: usize = if com_sinal { 1 } else { 0 };
        let ghost corpo = bytes@.skip(inicio as int);
        proof {
            if com_sinal {
                assert(bytes@.drop_first() =~= corpo);
            } else {
                assert(bytes@ =~= corpo);
            }
        }
        let k = contar_digitos(bytes, inicio);
        if k == 0 {
            return None;
        }
        let fim_do_inteiro = inicio + k;
        let ghost inteiro = corpo.take(k as int);
        proof {
            assert(bytes@.subrange(inicio as int, fim_do_inteiro as int) =~= inteiro);
        }
        let inicio_da_fracao = if fim_do_inteiro == n {
            proof {
                assert(bytes@.skip(n as int) =~= Seq::<u8>::empty());
            }
            n
        } else {
            proof {
                assert(corpo[k as int] == bytes@[fim_do_inteiro as int]);
                assert(bytes@.skip(fim_do_inteiro + 1) =~= corpo.skip(k + 1));
            }
            if bytes[fim_do_inteiro] != 44 && bytes[fim_do_inteiro] != 46 {
                return None;
            }
            if fim_do_inteiro + 1 == n || !sao_digitos(bytes, fim_do_inteiro + 1) {
                return None;
            }
            fim_do_inteiro + 1
        };
        let ghost fracao = bytes@.skip(inicio_da_fracao as int);
        let unidades = ler_unidades(bytes, inicio, fim_do_inteiro, inicio_da_fracao, N as usize);
        match unidades.com_sinal(negativo, Ghost(unidades_escritas(inteiro, fracao, N as nat))) {
            Some(valor) => Some(Decimal(valor)),
            None => None,
        }
    }
}

/// The character of a decimal digit.
pub open spec fn digito_escrito(digito: int) -> char {
    if digito == 0 {
        '0'
    } else if digito == 1 {
        '1'
    } else if digito == 2 {
        '2'
    } else if digito == 3 {
        '3'
    } else if digito == 4 {
        '4'
    } else if digito == 5 {
        '5'
    } else if digito == 6 {
        '6'
    } else if digito == 7 {
        '7'
    } else if digito == 8 {
        '8'
    } else {
        '9'
    }
}

/// The number in decimal digits, with no zero before it; one zero for zero.
pub open spec fn numero_em_texto(numero: nat) -> Seq<char>
    decreases numero,
{
    if numero < 10 {
        seq![digito_escrito(numero as int)]
    } else {
        numero_em_texto(numero / 10).push(digito_escrito((numero % 10) as int))
    }
}

/// The last `casas` digits of the number, with zeros where it has fewer.
pub open spec fn casas_em_texto(numero: nat, casas: nat) -> Seq<char>
    decreases casas,
{
    if casas == 0 {
        Seq::empty()
    } else {
        casas_em_texto(numero / 10, (casas - 1) as nat).push(
            digito_escrito((numero % 10) as int),
        )
    }
}

/// The number without its last `casas` digits.
pub open spec fn sem_casas(numero: nat, casas: nat) -> nat
    decreases casas,
{
    if casas == 0 {
        numero
    } else {
        sem_casas(numero / 10, (casas - 1) as nat)
    }
}

/// An amount of `valor` units of 10^-`casas` as text: a minus sign where it
/// is negative, its whole part, and, where it has decimal places, a point
/// and all of them.
pub open spec fn decimal_em_texto(valor: int, casas: nat) -> Seq<char> {
    let tamanho = (if valor < 0 { -valor } else { valor }) as nat;
    let sinal = if valor < 0 { seq!['-'] } else { Seq::empty() };
    let inteiro = numero_em_texto(sem_casas(tamanho, casas));
    if casas == 0 {
        sinal + inteiro
    } else {
        sinal + inteiro + seq!['.'] + casas_em_texto(tamanho, casas)
    }
}

/// The digits in the order in which they are written: the last taken
/// first.
spec fn em_ordem_de_escrita(digitos: Seq<u8>) -> Seq<char> {
    Seq::new(digitos.len(), |i: int| digito_escrito(digitos[digitos.len() - 1 - i] as int))
}

/// The text of one digit.
fn texto_do_digito(digito: u8) -> (r: &'static str)
    requires
        digito <= 9,
    ensures
        r@ == seq![digito_escrito(digito as int)],
{
    proof {
        reveal_strlit("0");
        reveal_strlit("1");
        reveal_strlit("2");
        reveal_strlit("3");
        reveal_strlit("4");
        reveal_strlit("5");
        reveal_strlit("6");
        reveal_strlit("7");
        reveal_strlit("8");
        reveal_strlit("9");
    }
    let texto = if digito == 0 {
        "0"
    } else if digito == 1 {
        "1"
    } else if digito == 2 {
        "2"
    } else if digito == 3 {
        "3"
    } else if digito == 4 {
        "4"
    } else if digito == 5 {
        "5"
    } else if digito == 6 {
        "6"
    } else if digito == 7 {
        "7"
    } else if digito == 8 {
        "8"
    } else {
        "9"
    };
    assert(texto@ =~= seq![digito_escrito(digito as int)]);
    texto
}

/// Writes the digits after the text, the last taken first.
fn escrever_digitos(texto: &mut String, digitos: &Vec<u8>)
    requires
        forall|i: int| 0 <= i < digitos@.len() ==> digitos@[i] <= 9,
    ensures
        final(texto)@ == old(texto)@ + em_ordem_de_escrita(digitos@),
{
    let n = digitos.len();
    let mut i: usize = 0;
    let ghost inicial = texto@;
    proof {
        assert(inicial + em_ordem_de_escrita(digitos@).take(0) =~= inicial);
    }
    while i < n
        invariant
            0 <= i <= n,
            n == digitos@.len(),
            forall|k: int| 0 <= k < digitos@.len() ==> digitos@[k] <= 9,
            texto@ == inicial + em_ordem_de_escrita(digitos@).take(i as int),
        decreases n - i,
    {
        let digito = digitos[n - 1 - i];
        texto.append(texto_do_digito(digito));
        proof {
            assert(inicial + em_ordem_de_escrita(digitos@).take(i as int + 1) =~= inicial
                + em_ordem_de_escrita(digitos@).take(i as int) + seq![
                digito_escrito(digito as int),
            ]);
        }
        i = i + 1;
    }
    proof {
        assert(em_ordem_de_escrita(digitos@).take(n as int) =~= em_ordem_de_escrita(digitos@));
    }
}

/// Takes the last `casas` digits of the number, the last first, and
/// hands back the number without them.
fn tirar_casas(numero: u64, casas: u8) -> (r: (u64, Vec<u8>))
    ensures
        r.0 == sem_casas(numero as nat, casas as nat),
        em_ordem_de_escrita(r.1@) == casas_em_texto(numero as nat, casas as nat),
        forall|i: int| 0 <= i < r.1@.len() ==> r.1@[i] <= 9,
{
    let mut resto = numero;
    let mut digitos: Vec<u8> = Vec::new();
    let mut faltam: u8 = casas;
    proof {
        assert(casas_em_texto(numero as nat, casas as nat) + em_ordem_de_escrita(digitos@)
            =~= casas_em_texto(numero as nat, casas as nat));
    }
    while faltam > 0
        invariant
            sem_casas(resto as nat, faltam as nat) == sem_casas(numero as nat, casas as nat),
            casas_em_texto(resto as nat, faltam as nat) + em_ordem_de_escrita(digitos@)
                == casas_em_texto(numero as nat, casas as nat),
            forall|i: int| 0 <= i < digitos@.len() ==> digitos@[i] <= 9,
        decreases faltam,
    {
        let digito = (resto % 10) as u8;
        let ghost antes = digitos@;
        digitos.push(digito);
        proof {
            assert(seq![digito_escrito(digito as int)] + em_ordem_de_escrita(antes)
                =~= em_ordem_de_escrita(digitos@));
            assert(casas_em_texto((resto / 10) as nat, (faltam - 1) as nat).push(
                digito_escrito(digito as int),
            ) + em_ordem_de_escrita(antes) =~= casas_em_texto(
                (resto / 10) as nat,
                (faltam - 1) as nat,
            ) + em_ordem_de_escrita(digitos@));
        }
        resto = resto / 10;
        faltam = faltam - 1;
    }
    proof {
        assert(Seq::<char>::empty() + em_ordem_de_escrita(digitos@) =~= em_ordem_de_escrita(
            digitos@,
        ));
    }
    (resto, digitos)
}

/// Takes all the digits of the number, the last first.
fn tirar_digitos(numero: u64) -> (r: Vec<u8>)
    ensures
        em_ordem_de_escrita(r@) == numero_em_texto(numero as nat),
        forall|i: int| 0 <= i < r@.len() ==> r@[i] <= 9,
{
    let mut resto = numero;
    let mut digitos: Vec<u8> = Vec::new();
    proof {
        assert(numero_em_texto(numero as nat) + em_ordem_de_escrita(digitos@) =~= numero_em_texto(
            numero as nat,
        ));
    }
    while resto >= 10
        invariant
            numero_em_texto(resto as nat) + em_ordem_de_escrita(digitos@) == numero_em_texto(
                numero as nat,
            ),
            forall|i: int| 0 <= i < digitos@.len() ==> digitos@[i] <= 9,
        decreases resto,
    {
        let digito = (resto % 10) as u8;
        let ghost antes = digitos@;
        digitos.push(digito);
        proof {
            assert(seq![digito_escrito(digito as int)] + em_ordem_de_escrita(antes)
                =~= em_ordem_de_escrita(digitos@));
            assert(numero_em_texto((resto / 10) as nat).push(digito_escrito(digito as int))
                + em_ordem_de_escrita(antes) =~= numero_em_texto((resto / 10) as nat)
                + em_ordem_de_escrita(digitos@));
        }
        resto = resto / 10;
    }
    let ghost antes = digitos@;
    digitos.push(resto as u8);
    proof {
        assert(seq![digito_escrito(resto as int)] + em_ordem_de_escrita(antes)
            =~= em_ordem_de_escrita(digitos@));
    }
    digitos
}

impl<const N: u8> Decimal<N> {
    /// The amount as text, with exactly `N` decimal places: a minus sign
    /// where it is negative, its whole part, and, where `N` is not zero, a
    /// point and the `N` places.
    pub fn texto(self) -> (r: String)
        ensures
            r@ == decimal_em_texto(self.0 as int, N as nat),
    {
        let tamanho: u64 = if self.0 < 0 {
            (-(self.0 as i128)) as u64
        } else {
            self.0 as u64
        };
        let (inteiro, casas) = tirar_casas(tamanho, N);
        let digitos = tirar_digitos(inteiro);
        let mut texto = String::new();
        if self.0 < 0 {
            proof {
                reveal_strlit("-");
            }
            texto.append("-");
            assert(texto@ =~= seq!['-']);
        }
        escrever_digitos(&mut texto, &digitos);
        if N > 0 {
            proof {
                reveal_strlit(".");
            }
            let ghost antes = texto@;
            texto.append(".");
            assert(texto@ =~= antes + seq!['.']);
            escrever_digitos(&mut texto, &casas);
        }
        texto
    }
}

} // verus!
