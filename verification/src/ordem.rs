//! The order of texts by the code points of their characters, one after the
//! other (a proper prefix comes first). UTF-8 keeps this order byte for byte,
//! so it is the order in which Rust compares `String`s.

use vstd::prelude::*;

verus! {

/// `a` comes strictly before `b`.
pub open spec fn precede(a: Seq<char>, b: Seq<char>) -> bool
    decreases a.len(),
{
    if a.len() == 0 {
        b.len() > 0
    } else if b.len() == 0 {
        false
    } else if a[0] != b[0] {
        a[0] < b[0]
    } else {
        precede(a.drop_first(), b.drop_first())
    }
}

/// No text comes before itself, and of two texts at most one comes first.
pub proof fn lema_precede_assimetrica(a: Seq<char>, b: Seq<char>)
    ensures
        precede(a, b) ==> !precede(b, a),
        !precede(a, a),
    decreases a.len(),
{
    if a.len() > 0 && b.len() > 0 && a[0] == b[0] {
        lema_precede_assimetrica(a.drop_first(), b.drop_first());
    }
    if a.len() > 0 {
        lema_precede_assimetrica(a.drop_first(), a.drop_first());
    }
}

/// Of two different texts one comes first.
pub proof fn lema_precede_total(a: Seq<char>, b: Seq<char>)
    ensures
        a != b ==> precede(a, b) || precede(b, a),
    decreases a.len(),
{
    if a.len() > 0 && b.len() > 0 && a[0] == b[0] {
        lema_precede_total(a.drop_first(), b.drop_first());
        if a.drop_first() == b.drop_first() {
            assert(a =~= seq![a[0]] + a.drop_first());
            assert(b =~= seq![b[0]] + b.drop_first());
        }
    }
    if a.len() == 0 && b.len() == 0 {
        assert(a =~= b);
    }
}

/// The order is transitive.
pub proof fn lema_precede_transitiva(a: Seq<char>, b: Seq<char>, c: Seq<char>)
    requires
        precede(a, b),
        precede(b, c),
    ensures
        precede(a, c),
    decreases a.len(),
{
    if a.len() > 0 && b.len() > 0 && c.len() > 0 && a[0] == b[0] && b[0] == c[0] {
        lema_precede_transitiva(a.drop_first(), b.drop_first(), c.drop_first());
    }
}

/// The place of one text against another.
#[derive(Debug, Clone, Copy, PartialEq, Eq)]
pub enum Comparacao {
    Antes,
    Igual,
    Depois,
}

/// Where `a` stands against `b` in the order of texts.
pub fn comparar(a: &str, b: &str) -> (r: Comparacao)
    ensures
        r is Antes <==> precede(a@, b@),
        r is Igual <==> a@ == b@,
        r is Depois <==> precede(b@, a@),
{
    proof {
        lema_precede_assimetrica(a@, b@);
        lema_precede_total(a@, b@);
    }
    let n = a.unicode_len();
    let m = b.unicode_len();
    let mut i: usize = 0;
    assert(a@.skip(0) =~= a@);
    assert(b@.skip(0) =~= b@);
    while i < n && i < m
        invariant
            n == a@.len(),
            m == b@.len(),
            i <= n,
            i <= m,
            forall|j: int| 0 <= j < i ==> a@[j] == b@[j],
            precede(a@, b@) == precede(a@.skip(i as int), b@.skip(i as int)),
            precede(b@, a@) == precede(b@.skip(i as int), a@.skip(i as int)),
        decreases n - i,
    {
        let x = a.get_char(i);
        let y = b.get_char(i);
        if x < y {
            return Comparacao::Antes;
        }
        if y < x {
            return Comparacao::Depois;
        }
        assert(a@.skip(i as int).drop_first() =~= a@.skip(i + 1));
        assert(b@.skip(i as int).drop_first() =~= b@.skip(i + 1));
        i += 1;
    }
    if i < m {
        return Comparacao::Antes;
    }
    if i < n {
        return Comparacao::Depois;
    }
    assert(a@ =~= b@);
    Comparacao::Igual
}

/// Whether `a` comes strictly before `b`.
pub fn vem_antes(a: &str, b: &str) -> (r: bool)
    ensures
        r == precede(a@, b@),
{
    match comparar(a, b) {
        Comparacao::Antes => true,
        _ => false,
    }
}

/// The texts of `s` stand in order, equal neighbours allowed.
pub open spec fn ordenada(s: Seq<Seq<char>>) -> bool {
    forall|i: int, j: int| 0 <= i < j < s.len() ==> !precede(s[j], s[i])
}

/// The texts of `v` in order, each kept as often as it occurs.
pub fn ordenar(v: Vec<String>) -> (r: Vec<String>)
    ensures
        ordenada(r.deep_view()),
        r.deep_view().to_multiset() == v.deep_view().to_multiset(),
{
    let mut saida: Vec<String> = Vec::new();
    let mut k: usize = 0;
    let n = v.len();
    assert(v.deep_view().take(0) =~= Seq::<Seq<char>>::empty());
    assert(saida.deep_view() =~= Seq::<Seq<char>>::empty());
    while k < n
        invariant
            n == v.len(),
            k <= n,
            ordenada(saida.deep_view()),
            saida.deep_view().to_multiset() == v.deep_view().take(k as int).to_multiset(),
        decreases n - k,
    {
        let x = v[k].clone();
        let mut p: usize = 0;
        while p < saida.len() && !vem_antes(x.as_str(), saida[p].as_str())
            invariant
                p <= saida.len(),
                forall|q: int| 0 <= q < p ==> !precede(x@, #[trigger] saida.deep_view()[q]),
            decreases saida.len() - p,
        {
            p += 1;
        }
        let ghost antes = saida.deep_view();
        proof {
            assert forall|q: int| p <= q < antes.len() implies precede(x@, #[trigger] antes[q]) by {
                lema_precede_total(antes[p as int], antes[q]);
                if antes[p as int] != antes[q] {
                    lema_precede_transitiva(x@, antes[p as int], antes[q]);
                }
            }
        }
        saida.insert(p, x);
        assert(saida.deep_view() =~= antes.insert(p as int, x@));
        proof {
            let novo = saida.deep_view();
            assert forall|i: int, j: int| 0 <= i < j < novo.len() implies !precede(novo[j], novo[i]) by {
                if i < p && j == p {
                } else if i == p && j > p {
                    lema_precede_assimetrica(x@, antes[j - 1]);
                } else if i < p && j > p {
                    assert(!precede(antes[j - 1], antes[i]));
                } else if i > p {
                    assert(!precede(antes[j - 1], antes[i - 1]));
                }
            }
            assert(x@ == v.deep_view()[k as int]);
            assert(v.deep_view().take(k + 1) =~= v.deep_view().take(k as int).push(x@));
            vstd::seq_lib::to_multiset_insert(antes, p as int, x@);
            vstd::seq_lib::to_multiset_build(v.deep_view().take(k as int), x@);
            assert(v.deep_view().take(k as int).push(x@).to_multiset()
                == v.deep_view().take(k as int).to_multiset().insert(x@));
        }
        k += 1;
    }
    assert(v.deep_view().take(n as int) =~= v.deep_view());
    saida
}


/// The texts of `s` stand strictly in order, so none occurs twice.
pub open spec fn estritamente_ordenada(s: Seq<Seq<char>>) -> bool {
    forall|i: int, j: int| 0 <= i < j < s.len() ==> precede(s[i], s[j])
}

/// Texts in order, none twice, stand strictly in order.
pub proof fn lema_ordenada_sem_repeticao(s: Seq<Seq<char>>)
    requires
        ordenada(s),
        s.no_duplicates(),
    ensures
        estritamente_ordenada(s),
{
    assert forall|i: int, j: int| 0 <= i < j < s.len() implies precede(s[i], s[j]) by {
        lema_precede_total(s[i], s[j]);
    }
}

} // verus!
