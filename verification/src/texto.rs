//! Text operations on `&str`, stated over the characters of the text.

use vstd::prelude::*;

verus! {

/// `p` occurs in `s` starting at character `i`.
pub open spec fn ocorre_em(s: Seq<char>, p: Seq<char>, i: int) -> bool {
    &&& 0 <= i
    &&& i + p.len() <= s.len()
    &&& s.subrange(i, i + p.len()) =~= p
}

/// `i` is the first character position at which `p` occurs in `s`.
pub open spec fn primeira(s: Seq<char>, p: Seq<char>, i: int) -> bool {
    ocorre_em(s, p, i) && forall|j: int| 0 <= j < i ==> !ocorre_em(s, p, j)
}

/// The first character position at which `p` occurs in `s`, where it occurs.
pub open spec fn posicao(s: Seq<char>, p: Seq<char>) -> int {
    choose|i: int| primeira(s, p, i)
}

/// `p` occurs somewhere in `s`.
pub open spec fn contem(s: Seq<char>, p: Seq<char>) -> bool {
    exists|i: int| ocorre_em(s, p, i)
}

/// `s` starts with `p`.
pub open spec fn comeca(s: Seq<char>, p: Seq<char>) -> bool {
    ocorre_em(s, p, 0)
}

/// `s` with every non-overlapping occurrence of `p`, taken from the left, removed.
pub open spec fn sem_ocorrencias(s: Seq<char>, p: Seq<char>) -> Seq<char>
    decreases s.len(),
{
    if p.len() == 0 || s.len() < p.len() {
        s
    } else if comeca(s, p) {
        sem_ocorrencias(s.skip(p.len() as int), p)
    } else {
        seq![s[0]] + sem_ocorrencias(s.drop_first(), p)
    }
}

/// `s` without the copies of `c` at its end.
pub open spec fn aparado(s: Seq<char>, c: char) -> Seq<char>
    decreases s.len(),
{
    if s.len() > 0 && s.last() == c {
        aparado(s.drop_last(), c)
    } else {
        s
    }
}

/// The pieces of `atual + s` between the separators `sep`.
pub open spec fn pedacos_de(s: Seq<char>, atual: Seq<char>, sep: char) -> Seq<Seq<char>>
    decreases s.len(),
{
    if s.len() == 0 {
        seq![atual]
    } else if s[0] == sep {
        seq![atual] + pedacos_de(s.drop_first(), Seq::empty(), sep)
    } else {
        pedacos_de(s.drop_first(), atual.push(s[0]), sep)
    }
}

/// The pieces of `s` between the separators `sep`, empty ones included.
pub open spec fn pedacos(s: Seq<char>, sep: char) -> Seq<Seq<char>> {
    pedacos_de(s, Seq::empty(), sep)
}

/// Whether `a` and `b` hold the same characters.
pub fn iguais(a: &str, b: &str) -> (r: bool)
    ensures
        r == (a@ == b@),
{
    let n = a.unicode_len();
    if n != b.unicode_len() {
        return false;
    }
    let mut i: usize = 0;
    while i < n
        invariant
            n == a@.len(),
            n == b@.len(),
            i <= n,
            forall|j: int| 0 <= j < i ==> a@[j] == b@[j],
        decreases n - i,
    {
        if a.get_char(i) != b.get_char(i) {
            return false;
        }
        i += 1;
    }
    assert(a@ =~= b@);
    true
}


/// Whether `p` occurs in `s` starting at character `i`.
pub fn ocorre_na_posicao(s: &str, p: &str, i: usize) -> (r: bool)
    ensures
        r == ocorre_em(s@, p@, i as int),
{
    let n = s.unicode_len();
    let m = p.unicode_len();
    if i > n || m > n - i {
        return false;
    }
    let mut j: usize = 0;
    while j < m
        invariant
            n == s@.len(),
            m == p@.len(),
            i + m <= n,
            j <= m,
            forall|k: int| 0 <= k < j ==> s@[i + k] == p@[k],
        decreases m - j,
    {
        if s.get_char(i + j) != p.get_char(j) {
            assert(s@.subrange(i as int, i + m)[j as int] != p@[j as int]);
            return false;
        }
        j += 1;
    }
    assert(s@.subrange(i as int, i + m) =~= p@);
    true
}

/// The first character position at which `p` occurs in `s`.
pub fn encontrar(s: &str, p: &str) -> (r: Option<usize>)
    ensures
        match r {
            Some(i) => primeira(s@, p@, i as int) && contem(s@, p@) && i == posicao(s@, p@),
            None => !contem(s@, p@),
        },
{
    let n = s.unicode_len();
    let m = p.unicode_len();
    if m > n {
        return None;
    }
    let mut i: usize = 0;
    while i <= n - m
        invariant
            n == s@.len(),
            m == p@.len(),
            m <= n,
            i <= n - m + 1,
            forall|j: int| 0 <= j < i ==> !ocorre_em(s@, p@, j),
        decreases n - m + 1 - i,
    {
        if ocorre_na_posicao(s, p, i) {
            proof {
                assert(primeira(s@, p@, i as int));
                let c = posicao(s@, p@);
                assert(primeira(s@, p@, c));
                if c < i {
                    assert(!ocorre_em(s@, p@, c));
                } else if c > i {
                    assert(!ocorre_em(s@, p@, i as int));
                }
            }
            return Some(i);
        }
        i += 1;
    }
    None
}

/// Whether `p` occurs in `s`.
pub fn contem_texto(s: &str, p: &str) -> (r: bool)
    ensures
        r == contem(s@, p@),
{
    encontrar(s, p).is_some()
}

/// Whether `s` starts with `p`.
pub fn comeca_com(s: &str, p: &str) -> (r: bool)
    ensures
        r == comeca(s@, p@),
{
    ocorre_na_posicao(s, p, 0)
}

/// The text of `a` followed by that of `b`.
pub fn juntar(a: &str, b: &str) -> (r: String)
    ensures
        r@ == a@ + b@,
{
    String::from_str(a).concat(b)
}

/// `s` with every non-overlapping occurrence of `p`, taken from the left, removed.
pub fn remover_todos(s: &str, p: &str) -> (r: String)
    requires
        p@.len() > 0,
    ensures
        r@ == sem_ocorrencias(s@, p@),
{
    let n = s.unicode_len();
    let m = p.unicode_len();
    let mut saida = String::new();
    let mut i: usize = 0;
    assert(s@.skip(0) =~= s@);
    while i < n
        invariant
            n == s@.len(),
            m == p@.len(),
            m > 0,
            i <= n,
            saida@ + sem_ocorrencias(s@.skip(i as int), p@) == sem_ocorrencias(s@, p@),
        decreases n - i,
    {
        let ghost resto = s@.skip(i as int);
        if m <= n - i && ocorre_na_posicao(s, p, i) {
            assert(resto.subrange(0, m as int) =~= s@.subrange(i as int, i + m));
            assert(resto.skip(m as int) =~= s@.skip(i + m));
            i += m;
        } else {
            let c = s.substring_char(i, i + 1);
            proof {
                if m <= resto.len() {
                    assert(resto.subrange(0, m as int) =~= s@.subrange(i as int, i + m));
                }
                assert(resto.drop_first() =~= s@.skip(i + 1));
                assert(c@ =~= seq![resto[0]]);
            }
            saida.append(c);
            assert(saida@ + sem_ocorrencias(s@.skip(i + 1), p@) =~= sem_ocorrencias(s@, p@));
            i += 1;
        }
    }
    assert(s@.skip(n as int) =~= Seq::<char>::empty());
    assert(saida@ =~= sem_ocorrencias(s@, p@));
    saida
}

/// `s` without the copies of `c` at its end.
pub fn aparar_fim(s: &str, c: char) -> (r: &str)
    ensures
        r@ == aparado(s@, c),
{
    let n = s.unicode_len();
    let mut k: usize = n;
    assert(s@.subrange(0, n as int) =~= s@);
    while k > 0 && s.get_char(k - 1) == c
        invariant
            n == s@.len(),
            k <= n,
            aparado(s@.subrange(0, k as int), c) == aparado(s@, c),
        decreases k,
    {
        assert(s@.subrange(0, k as int).drop_last() =~= s@.subrange(0, k - 1));
        k -= 1;
    }
    s.substring_char(0, k)
}

/// The pieces of `s` between the separators `sep`, empty ones included.
pub fn dividir(s: &str, sep: char) -> (r: Vec<String>)
    ensures
        r.deep_view() == pedacos(s@, sep),
{
    let n = s.unicode_len();
    let mut saida: Vec<String> = Vec::new();
    let mut inicio: usize = 0;
    let mut i: usize = 0;
    assert(s@.skip(0) =~= s@);
    assert(s@.subrange(0, 0) =~= Seq::<char>::empty());
    assert(saida.deep_view() =~= Seq::<Seq<char>>::empty());
    while i < n
        invariant
            n == s@.len(),
            inicio <= i <= n,
            saida.deep_view() + pedacos_de(s@.skip(i as int), s@.subrange(inicio as int, i as int), sep)
                == pedacos(s@, sep),
        decreases n - i,
    {
        let ghost resto = s@.skip(i as int);
        assert(resto.drop_first() =~= s@.skip(i + 1));
        if s.get_char(i) == sep {
            let peca = String::from_str(s.substring_char(inicio, i));
            let ghost antes = saida.deep_view();
            saida.push(peca);
            assert(saida.deep_view() =~= antes.push(s@.subrange(inicio as int, i as int)));
            assert(s@.subrange(i + 1, i + 1) =~= Seq::<char>::empty());
            assert(saida.deep_view() + pedacos_de(s@.skip(i + 1), s@.subrange(i + 1, i + 1), sep)
                =~= antes + pedacos_de(resto, s@.subrange(inicio as int, i as int), sep));
            inicio = i + 1;
        } else {
            assert(s@.subrange(inicio as int, i as int).push(s@[i as int]) =~= s@.subrange(inicio as int, i + 1));
        }
        i += 1;
    }
    let ultima = String::from_str(s.substring_char(inicio, n));
    let ghost antes = saida.deep_view();
    saida.push(ultima);
    assert(s@.skip(n as int) =~= Seq::<char>::empty());
    assert(saida.deep_view() =~= antes + seq![s@.subrange(inicio as int, n as int)]);
    saida
}


/// The pieces `ps` joined again, with `sep` between each two.
pub open spec fn unir(ps: Seq<Seq<char>>, sep: char) -> Seq<char>
    decreases ps.len(),
{
    if ps.len() == 0 {
        Seq::empty()
    } else if ps.len() == 1 {
        ps[0]
    } else {
        ps[0] + seq![sep] + unir(ps.drop_first(), sep)
    }
}

proof fn lema_pedacos_de(s: Seq<char>, atual: Seq<char>, sep: char)
    ensures
        pedacos_de(s, atual, sep).len() >= 1,
        unir(pedacos_de(s, atual, sep), sep) == atual + s,
    decreases s.len(),
{
    if s.len() == 0 {
        assert(atual + s =~= atual);
    } else if s[0] == sep {
        lema_pedacos_de(s.drop_first(), Seq::empty(), sep);
        let resto = pedacos_de(s.drop_first(), Seq::empty(), sep);
        assert((seq![atual] + resto).drop_first() =~= resto);
        assert(Seq::<char>::empty() + s.drop_first() =~= s.drop_first());
        assert(atual + seq![sep] + s.drop_first() =~= atual + s);
    } else {
        lema_pedacos_de(s.drop_first(), atual.push(s[0]), sep);
        assert(atual.push(s[0]) + s.drop_first() =~= atual + s);
    }
}

/// Cutting a text at its separators and joining the pieces again with the
/// separator gives the text back.
pub proof fn lema_dividir_unir(s: Seq<char>, sep: char)
    ensures
        unir(pedacos(s, sep), sep) == s,
{
    lema_pedacos_de(s, Seq::empty(), sep);
    assert(Seq::<char>::empty() + s =~= s);
}

/// Trimming the copies of `c` at the end of a text leaves a start of it
/// that does not end in `c`, and what is cut off is all `c`.
pub proof fn lema_aparado(s: Seq<char>, c: char)
    ensures
        aparado(s, c).len() <= s.len(),
        aparado(s, c) == s.subrange(0, aparado(s, c).len() as int),
        aparado(s, c).len() > 0 ==> aparado(s, c).last() != c,
        forall|i: int| aparado(s, c).len() <= i < s.len() ==> s[i] == c,
    decreases s.len(),
{
    if s.len() > 0 && s.last() == c {
        lema_aparado(s.drop_last(), c);
        let a = aparado(s.drop_last(), c);
        assert(a =~= s.subrange(0, a.len() as int));
        assert forall|i: int| a.len() <= i < s.len() implies s[i] == c by {
            if i < s.len() - 1 {
                assert(s.drop_last()[i] == s[i]);
            }
        }
    } else {
        assert(s =~= s.subrange(0, s.len() as int));
    }
}

/// Removing every occurrence of a single character leaves none of it.
pub proof fn lema_sem_caractere(s: Seq<char>, c: char)
    ensures
        !sem_ocorrencias(s, seq![c]).contains(c),
    decreases s.len(),
{
    let p = seq![c];
    if s.len() >= 1 {
        if comeca(s, p) {
            lema_sem_caractere(s.skip(1), c);
        } else {
            lema_sem_caractere(s.drop_first(), c);
            assert(s.subrange(0, 1) =~= seq![s[0]]);
            let r = sem_ocorrencias(s.drop_first(), p);
            if (seq![s[0]] + r).contains(c) {
                let j = choose|j: int| 0 <= j < (seq![s[0]] + r).len() && (seq![s[0]] + r)[j] == c;
                if j > 0 {
                    assert(r[j - 1] == c);
                }
            }
        }
    }
}

} // verus!
