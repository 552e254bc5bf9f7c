//! Dated series: values in ascending order of their day, with lookups by
//! day.

use crate::dia::Dia;
use vstd::prelude::*;

verus! {

/// A series of dated values, kept in ascending order of day.
#[derive(Debug)]
pub struct SerieTemporal<T> {
    valores: Vec<(Dia, T)>,
}

/// Whether the days of `s` never decrease.
pub open spec fn ordenada<T>(s: Seq<(Dia, T)>) -> bool {
    forall|i: int, j: int| 0 <= i < j < s.len() ==> s[i].0.num <= s[j].0.num
}

/// The entries of `s` dated `dia`, in the order in which `s` holds them.
pub open spec fn entradas_do_dia<T>(s: Seq<(Dia, T)>, dia: Dia) -> Seq<(Dia, T)> {
    s.filter(|e: (Dia, T)| e.0 == dia)
}

/// Whether `r` holds the entries of `dados` in ascending order of day, those
/// of one day in the order in which `dados` holds them.
pub open spec fn ordenacao_de<T>(r: Seq<(Dia, T)>, dados: Seq<(Dia, T)>) -> bool {
    &&& ordenada(r)
    &&& r.len() == dados.len()
    &&& forall|d: Dia| entradas_do_dia(r, d) == entradas_do_dia(dados, d)
}

/// The number of entries at the head of `s` that are dated before day
/// number `dia`. In an ordered series these are all the entries dated
/// before it.
pub open spec fn entradas_antes<T>(s: Seq<(Dia, T)>, dia: int) -> int
    decreases s.len(),
{
    if s.len() > 0 && s[0].0.num < dia {
        1 + entradas_antes(s.drop_first(), dia)
    } else {
        0
    }
}

/// The value in force on `dia`: that of the last entry dated on or before it.
pub open spec fn valor_em<T>(s: Seq<(Dia, T)>, dia: Dia) -> Option<T> {
    let k = entradas_antes(s, dia.num + 1);
    if k == 0 {
        None
    } else {
        Some(s[k - 1].1)
    }
}

/// The first entry dated on or after `dia`.
pub open spec fn primeira_a_partir<T>(s: Seq<(Dia, T)>, dia: Dia) -> Option<(Dia, T)> {
    let k = entradas_antes(s, dia.num as int);
    if k < s.len() {
        Some(s[k])
    } else {
        None
    }
}

/// `entradas_antes` is the place where the days reach `dia`: the entries
/// before it are dated earlier, the entry at it is not, and in an ordered
/// series no later entry is either.
pub proof fn lema_entradas_antes<T>(s: Seq<(Dia, T)>, dia: int)
    ensures
        0 <= entradas_antes(s, dia) <= s.len(),
        forall|i: int| 0 <= i < entradas_antes(s, dia) ==> (#[trigger] s[i]).0.num < dia,
        entradas_antes(s, dia) < s.len() ==> s[entradas_antes(s, dia)].0.num >= dia,
        ordenada(s) ==> forall|i: int|
            entradas_antes(s, dia) <= i < s.len() ==> (#[trigger] s[i]).0.num >= dia,
    decreases s.len(),
{
    if s.len() > 0 && s[0].0.num < dia {
        let t = s.drop_first();
        lema_entradas_antes(t, dia);
        let k = entradas_antes(t, dia);
        assert forall|i: int| 0 <= i < k + 1 implies (#[trigger] s[i]).0.num < dia by {
            if i > 0 {
                assert(s[i] == t[i - 1]);
            }
        }
        if k < t.len() {
            assert(s[k + 1] == t[k]);
        }
    }
    if ordenada(s) {
        let k = entradas_antes(s, dia);
        assert forall|i: int| k <= i < s.len() implies (#[trigger] s[i]).0.num >= dia by {
            assert(s[k].0.num >= dia);
        }
    }
}

/// A place that parts the earlier days from the rest is `entradas_antes`.
pub proof fn lema_entradas_antes_unica<T>(s: Seq<(Dia, T)>, dia: int, k: int)
    requires
        0 <= k <= s.len(),
        forall|i: int| 0 <= i < k ==> (#[trigger] s[i]).0.num < dia,
        k < s.len() ==> s[k].0.num >= dia,
    ensures
        entradas_antes(s, dia) == k,
    decreases k,
{
    if k > 0 {
        let t = s.drop_first();
        assert(s[0].0.num < dia);
        assert forall|i: int| 0 <= i < k - 1 implies (#[trigger] t[i]).0.num < dia by {
            assert(t[i] == s[i + 1]);
        }
        if k < s.len() {
            assert(t[k - 1] == s[k]);
        }
        lema_entradas_antes_unica(t, dia, k - 1);
    }
}

/// Whether no two entries share a day.
pub open spec fn dias_distintos<T>(s: Seq<(Dia, T)>) -> bool {
    forall|i: int, j: int| 0 <= i < j < s.len() ==> s[i].0 != s[j].0
}

/// Whether the days strictly rise.
pub open spec fn estritamente_ordenada<T>(s: Seq<(Dia, T)>) -> bool {
    forall|i: int, j: int| 0 <= i < j < s.len() ==> s[i].0.num < s[j].0.num
}

/// Two entries of one day make two entries of that day.
proof fn lema_duas_entradas_do_dia<T>(s: Seq<(Dia, T)>, i: int, j: int)
    requires
        0 <= i < j < s.len(),
        s[i].0 == s[j].0,
    ensures
        entradas_do_dia(s, s[i].0).len() >= 2,
    decreases s.len(),
{
    let dia = s[i].0;
    let p = |e: (Dia, T)| e.0 == dia;
    let resto = s.drop_last();
    reveal(Seq::filter);
    if j < s.len() - 1 {
        assert(resto[i] == s[i] && resto[j] == s[j]);
        lema_duas_entradas_do_dia(resto, i, j);
        resto.lemma_filter_len(p);
    } else {
        assert(resto[i] == s[i]);
        lema_uma_entrada_do_dia(resto, i);
    }
}

/// An entry of a day makes at least one entry of that day.
proof fn lema_uma_entrada_do_dia<T>(s: Seq<(Dia, T)>, i: int)
    requires
        0 <= i < s.len(),
    ensures
        entradas_do_dia(s, s[i].0).len() >= 1,
    decreases s.len(),
{
    let dia = s[i].0;
    let resto = s.drop_last();
    reveal(Seq::filter);
    if i < s.len() - 1 {
        assert(resto[i] == s[i]);
        lema_uma_entrada_do_dia(resto, i);
    }
}

/// Where no two entries share a day, no day has two entries.
proof fn lema_no_maximo_uma_entrada<T>(s: Seq<(Dia, T)>, dia: Dia)
    requires
        dias_distintos(s),
    ensures
        entradas_do_dia(s, dia).len() <= 1,
        entradas_do_dia(s, dia).len() == 1 ==> exists|i: int| 0 <= i < s.len() && s[i].0 == dia,
    decreases s.len(),
{
    reveal(Seq::filter);
    if s.len() > 0 {
        let resto = s.drop_last();
        assert forall|i: int, j: int| 0 <= i < j < resto.len() implies resto[i].0
            != resto[j].0 by {
            assert(resto[i] == s[i] && resto[j] == s[j]);
        }
        lema_no_maximo_uma_entrada(resto, dia);
        if entradas_do_dia(resto, dia).len() == 1 {
            let i = choose|i: int| 0 <= i < resto.len() && resto[i].0 == dia;
            assert(resto[i] == s[i]);
            assert(s[i].0 != s[s.len() - 1].0);
        }
        if s.last().0 == dia {
            assert(s[s.len() - 1].0 == dia);
        }
    }
}

/// A series put in order from entries of distinct days has days that
/// strictly rise: no day comes twice.
pub proof fn lema_ordenacao_sem_repeticao<T>(r: Seq<(Dia, T)>, dados: Seq<(Dia, T)>)
    requires
        ordenacao_de(r, dados),
        dias_distintos(dados),
    ensures
        estritamente_ordenada(r),
{
    assert forall|i: int, j: int| 0 <= i < j < r.len() implies r[i].0.num < r[j].0.num by {
        if r[i].0.num == r[j].0.num {
            lema_duas_entradas_do_dia(r, i, j);
            lema_no_maximo_uma_entrada(dados, r[i].0);
        }
    }
}

/// Moving the day forward never moves the place backward.
pub proof fn lema_entradas_antes_cresce<T>(s: Seq<(Dia, T)>, a: int, b: int)
    requires
        a <= b,
    ensures
        entradas_antes(s, a) <= entradas_antes(s, b),
    decreases s.len(),
{
    if s.len() > 0 && s[0].0.num < a {
        lema_entradas_antes_cresce(s.drop_first(), a, b);
    } else {
        lema_entradas_antes(s, b);
    }
}

/// No entry of a sequence without entries of a day is an entry of that day.
proof fn lema_sem_entradas_do_dia<T>(s: Seq<(Dia, T)>, dia: Dia)
    requires
        forall|k: int| 0 <= k < s.len() ==> (#[trigger] s[k]).0 != dia,
    ensures
        entradas_do_dia(s, dia) == Seq::<(Dia, T)>::empty(),
    decreases s.len(),
{
    reveal(Seq::filter);
    if s.len() > 0 {
        let resto = s.drop_last();
        assert forall|k: int| 0 <= k < resto.len() implies (#[trigger] resto[k]).0 != dia by {
            assert(resto[k] == s[k]);
        }
        lema_sem_entradas_do_dia(resto, dia);
        assert(s[s.len() - 1].0 != dia);
    }
}

/// The entries of a day, once one more entry is written after the others.
proof fn lema_entradas_com_mais_uma<T>(s: Seq<(Dia, T)>, x: (Dia, T), dia: Dia)
    ensures
        entradas_do_dia(s.push(x), dia) == if x.0 == dia {
            entradas_do_dia(s, dia).push(x)
        } else {
            entradas_do_dia(s, dia)
        },
{
    reveal(Seq::filter);
    assert(s.push(x).drop_last() =~= s);
}

/// Two ordered sequences as one: the entries of both in ascending order of
/// day, those of one day from the first sequence before those from the
/// second, each in its order.
fn intercalar<T: Copy>(a: &Vec<(Dia, T)>, b: &Vec<(Dia, T)>) -> (r: Vec<(Dia, T)>)
    requires
        ordenada(a@),
        ordenada(b@),
        a@.len() + b@.len() <= usize::MAX,
    ensures
        ordenada(r@),
        r@.len() == a@.len() + b@.len(),
        forall|d: Dia| entradas_do_dia(r@, d) == entradas_do_dia(a@, d) + entradas_do_dia(b@, d),
{
    let tamanho_a = a.len();
    let tamanho_b = b.len();
    let mut juntos: Vec<(Dia, T)> = Vec::new();
    let mut i: usize = 0;
    let mut j: usize = 0;
    proof {
        assert(a@.take(0) =~= Seq::<(Dia, T)>::empty());
        assert(b@.take(0) =~= Seq::<(Dia, T)>::empty());
        assert forall|d: Dia|
            entradas_do_dia(juntos@, d) == entradas_do_dia(a@.take(0), d) + entradas_do_dia(
                b@.take(0),
                d,
            ) by {
            lema_sem_entradas_do_dia(Seq::<(Dia, T)>::empty(), d);
        }
    }
    while i < tamanho_a || j < tamanho_b
        invariant
            0 <= i <= tamanho_a,
            0 <= j <= tamanho_b,
            tamanho_a == a@.len(),
            tamanho_b == b@.len(),
            tamanho_a + tamanho_b <= usize::MAX,
            ordenada(a@),
            ordenada(b@),
            juntos@.len() == i + j,
            ordenada(juntos@),
            forall|k: int|
                0 <= k < juntos@.len() && i < tamanho_a ==> (#[trigger] juntos@[k]).0.num
                    <= a@[i as int].0.num,
            forall|k: int|
                0 <= k < juntos@.len() && j < tamanho_b ==> (#[trigger] juntos@[k]).0.num
                    <= b@[j as int].0.num,
            forall|k: int| 0 <= k < j && i < tamanho_a ==> (#[trigger] b@[k]).0.num < a@[i as int].0.num,
            forall|d: Dia|
                entradas_do_dia(juntos@, d) == entradas_do_dia(a@.take(i as int), d)
                    + entradas_do_dia(b@.take(j as int), d),
        decreases tamanho_a - i + tamanho_b - j,
    {
        let ghost antes = juntos@;
        if i < tamanho_a && (j == tamanho_b || a[i].0.num <= b[j].0.num) {
            let x = a[i];
            juntos.push(x);
            proof {
                assert(a@.take(i as int + 1) =~= a@.take(i as int).push(x));
                assert forall|d: Dia|
                    entradas_do_dia(juntos@, d) == entradas_do_dia(a@.take(i as int + 1), d)
                        + entradas_do_dia(b@.take(j as int), d) by {
                    lema_entradas_com_mais_uma(antes, x, d);
                    lema_entradas_com_mais_uma(a@.take(i as int), x, d);
                    if x.0 == d {
                        assert forall|k: int| 0 <= k < j implies (#[trigger] b@.take(j as int)[k]).0
                            != d by {
                            assert(b@.take(j as int)[k] == b@[k]);
                        }
                        lema_sem_entradas_do_dia(b@.take(j as int), d);
                        assert(entradas_do_dia(a@.take(i as int), d) + Seq::<(Dia, T)>::empty()
                            =~= entradas_do_dia(a@.take(i as int), d));
                        assert(entradas_do_dia(a@.take(i as int), d).push(x) + Seq::<
                            (Dia, T),
                        >::empty() =~= entradas_do_dia(a@.take(i as int), d).push(x));
                    }
                }
            }
            i = i + 1;
        } else {
            let y = b[j];
            juntos.push(y);
            proof {
                assert(b@.take(j as int + 1) =~= b@.take(j as int).push(y));
                assert forall|d: Dia|
                    entradas_do_dia(juntos@, d) == entradas_do_dia(a@.take(i as int), d)
                        + entradas_do_dia(b@.take(j as int + 1), d) by {
                    lema_entradas_com_mais_uma(antes, y, d);
                    lema_entradas_com_mais_uma(b@.take(j as int), y, d);
                    if y.0 == d {
                        assert((entradas_do_dia(a@.take(i as int), d) + entradas_do_dia(
                            b@.take(j as int),
                            d,
                        )).push(y) =~= entradas_do_dia(a@.take(i as int), d) + entradas_do_dia(
                            b@.take(j as int),
                            d,
                        ).push(y));
                    }
                }
            }
            j = j + 1;
        }
    }
    proof {
        assert(a@.take(tamanho_a as int) =~= a@);
        assert(b@.take(tamanho_b as int) =~= b@);
    }
    juntos
}

/// The entries from `de` to `ate` in ascending order of day, those of one
/// day in the order in which they stand.
fn ordenar<T: Copy>(valores: &Vec<(Dia, T)>, de: usize, ate: usize) -> (r: Vec<(Dia, T)>)
    requires
        de <= ate <= valores@.len(),
    ensures
        ordenacao_de(r@, valores@.subrange(de as int, ate as int)),
    decreases ate - de,
{
    let ghost parte = valores@.subrange(de as int, ate as int);
    if ate - de <= 1 {
        let mut r: Vec<(Dia, T)> = Vec::new();
        if ate > de {
            r.push(valores[de]);
        }
        proof {
            assert(r@ =~= parte);
        }
        r
    } else {
        let meio = de + (ate - de) / 2;
        let esquerda = ordenar(valores, de, meio);
        let direita = ordenar(valores, meio, ate);
        let r = intercalar(&esquerda, &direita);
        proof {
            let primeira = valores@.subrange(de as int, meio as int);
            let segunda = valores@.subrange(meio as int, ate as int);
            assert(parte =~= primeira + segunda);
            assert forall|d: Dia| entradas_do_dia(r@, d) == entradas_do_dia(parte, d) by {
                Seq::filter_distributes_over_add(primeira, segunda, |e: (Dia, T)| e.0 == d);
            }
        }
        r
    }
}

impl<T> View for SerieTemporal<T> {
    type V = Seq<(Dia, T)>;

    closed spec fn view(&self) -> Seq<(Dia, T)> {
        self.valores@
    }
}

impl<T> SerieTemporal<T> {
    #[verifier::type_invariant]
    pub open spec fn bem_formada(self) -> bool {
        ordenada(self@)
    }
}

impl<T: Copy> Clone for SerieTemporal<T> {
    fn clone(&self) -> (r: Self)
        ensures
            r@ == self@,
    {
        proof {
            use_type_invariant(self);
        }
        let n = self.valores.len();
        let mut valores: Vec<(Dia, T)> = Vec::new();
        let mut i: usize = 0;
        while i < n
            invariant
                0 <= i <= n,
                n == self.valores@.len(),
                valores@ == self.valores@.subrange(0, i as int),
            decreases n - i,
        {
            valores.push(self.valores[i]);
            proof {
                assert(self.valores@.subrange(0, i as int + 1) =~= self.valores@.subrange(
                    0,
                    i as int,
                ).push(self.valores@[i as int]));
            }
            i = i + 1;
        }
        proof {
            assert(self.valores@.subrange(0, n as int) =~= self.valores@);
        }
        SerieTemporal { valores }
    }
}

impl<T: Copy> SerieTemporal<T> {
    /// The series of the given entries, put in ascending order of day.
    /// Entries of one day keep the order in which they were given; where no
    /// two entries share a day, no day comes twice.
    pub fn new(valores: Vec<(Dia, T)>) -> (r: Self)
        ensures
            ordenacao_de(r@, valores@),
            dias_distintos(valores@) ==> estritamente_ordenada(r@),
    {
        let ordenados = ordenar(&valores, 0, valores.len());
        proof {
            assert(valores@.subrange(0, valores@.len() as int) =~= valores@);
            if dias_distintos(valores@) {
                lema_ordenacao_sem_repeticao(ordenados@, valores@);
            }
        }
        SerieTemporal { valores: ordenados }
    }

    /// The number of entries.
    pub fn len(&self) -> (r: usize)
        ensures
            r == self@.len(),
    {
        self.valores.len()
    }

    /// The entry at place `i`, counted from the earliest.
    pub fn get(&self, i: usize) -> (r: (Dia, T))
        requires
            i < self@.len(),
        ensures
            r == self@[i as int],
    {
        self.valores[i]
    }

    /// The earliest entry.
    pub fn primeiro(&self) -> (r: Option<(Dia, T)>)
        ensures
            r == if self@.len() == 0 { None } else { Some(self@[0]) },
    {
        if self.valores.len() == 0 {
            None
        } else {
            Some(self.valores[0])
        }
    }

    /// The latest entry.
    pub fn ultimo(&self) -> (r: Option<(Dia, T)>)
        ensures
            r == if self@.len() == 0 { None } else { Some(self@[self@.len() - 1]) },
    {
        let n = self.valores.len();
        if n == 0 {
            None
        } else {
            Some(self.valores[n - 1])
        }
    }

    /// The number of entries dated before day number `dia`.
    pub fn posicao(&self, dia: i64) -> (k: usize)
        ensures
            k == entradas_antes(self@, dia as int),
            k <= self@.len(),
    {
        proof {
            use_type_invariant(self);
        }
        let mut baixo: usize = 0;
        let mut alto: usize = self.valores.len();
        while baixo < alto
            invariant
                0 <= baixo <= alto <= self@.len(),
                self@ == self.valores@,
                ordenada(self@),
                forall|i: int| 0 <= i < baixo ==> (#[trigger] self@[i]).0.num < dia,
                forall|i: int| alto <= i < self@.len() ==> (#[trigger] self@[i]).0.num >= dia,
            decreases alto - baixo,
        {
            let meio: usize = baixo + (alto - baixo) / 2;
            if (self.valores[meio].0.num as i64) < dia {
                baixo = meio + 1;
            } else {
                alto = meio;
            }
        }
        proof {
            lema_entradas_antes_unica(self@, dia as int, baixo as int);
        }
        baixo
    }

    /// The value in force on `dia`: that of the last entry dated on or
    /// before it, or `None` when the series starts later.
    pub fn valor_atual(&self, dia: Dia) -> (r: Option<T>)
        ensures
            r == valor_em(self@, dia),
    {
        let k = self.posicao(dia.num as i64 + 1);
        if k == 0 {
            None
        } else {
            Some(self.valores[k - 1].1)
        }
    }

    /// The first entry dated on or after `minimo`, or `None` when the
    /// series ends earlier.
    pub fn primeiro_a_partir(&self, minimo: Dia) -> (r: Option<(Dia, T)>)
        ensures
            r == primeira_a_partir(self@, minimo),
    {
        let k = self.posicao(minimo.num as i64);
        if k < self.valores.len() {
            Some(self.valores[k])
        } else {
            None
        }
    }

    /// The entries dated on or after `minimo`, in ascending order.
    pub fn iter_comecando_em(&self, minimo: Dia) -> (r: Vec<(Dia, T)>)
        ensures
            r@ == self@.skip(entradas_antes(self@, minimo.num as int)),
    {
        let k = self.posicao(minimo.num as i64);
        let n = self.valores.len();
        let mut r: Vec<(Dia, T)> = Vec::new();
        let mut i: usize = k;
        while i < n
            invariant
                k <= i <= n,
                n == self@.len(),
                self@ == self.valores@,
                r@ == self@.subrange(k as int, i as int),
            decreases n - i,
        {
            r.push(self.valores[i]);
            proof {
                assert(self@.subrange(k as int, i as int + 1) =~= self@.subrange(
                    k as int,
                    i as int,
                ).push(self@[i as int]));
            }
            i = i + 1;
        }
        proof {
            assert(self@.subrange(k as int, n as int) =~= self@.skip(k as int));
        }
        r
    }
}

} // verus!
