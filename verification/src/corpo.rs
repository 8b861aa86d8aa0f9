//! The JSON body of a call: members kept in the order of their names, each
//! name at most once, as a JSON object map keeps them.

use vstd::prelude::*;
use crate::json::{Json, procura, apontado};
use crate::ordem::{precede, comparar, Comparacao, lema_precede_transitiva};
use crate::texto::iguais;

verus! {

/// The names of `s` stand strictly in order, so none occurs twice.
pub open spec fn ordenados(s: Seq<(String, Json)>) -> bool {
    forall|i: int, j: int| 0 <= i < j < s.len() ==> precede(s[i].0@, s[j].0@)
}

/// `s` with the member `(k, v)`: it takes the place of the member of the same
/// name, or goes in before the first member whose name comes after `k`.
pub open spec fn com_membro(s: Seq<(String, Json)>, k: String, v: Json) -> Seq<(String, Json)>
    decreases s.len(),
{
    if s.len() == 0 {
        seq![(k, v)]
    } else if s[0].0@ == k@ {
        seq![(k, v)] + s.drop_first()
    } else if precede(k@, s[0].0@) {
        seq![(k, v)] + s
    } else {
        seq![s[0]] + com_membro(s.drop_first(), k, v)
    }
}

/// The body of a call.
#[derive(Debug, PartialEq)]
pub struct Corpo {
    membros: Vec<(String, Json)>,
}

impl View for Corpo {
    type V = Seq<(String, Json)>;

    closed spec fn view(&self) -> Seq<(String, Json)> {
        self.membros@
    }
}

impl Corpo {
    #[verifier::type_invariant]
    spec fn inv(self) -> bool {
        ordenados(self.membros@)
    }

    /// An empty body.
    pub fn new() -> (r: Corpo)
        ensures
            r@ == Seq::<(String, Json)>::empty(),
            ordenados(r@),
    {
        Corpo { membros: Vec::new() }
    }

    /// The number of members.
    pub fn len(&self) -> (r: usize)
        ensures
            r == self@.len(),
    {
        self.membros.len()
    }

    /// The members, in the order of their names.
    pub fn membros(&self) -> (r: &Vec<(String, Json)>)
        ensures
            r@ == self@,
            ordenados(self@),
    {
        proof {
            use_type_invariant(self);
        }
        &self.membros
    }

    /// The value of the member `chave`.
    pub fn obter(&self, chave: &str) -> (r: Option<&Json>)
        ensures
            apontado(r) == procura(self@, chave@),
    {
        let n = self.membros.len();
        let mut i: usize = 0;
        assert(self@.skip(0) =~= self@);
        while i < n
            invariant
                n == self@.len(),
                i <= n,
                procura(self@.skip(i as int), chave@) == procura(self@, chave@),
            decreases n - i,
        {
            assert(self@.skip(i as int).drop_first() =~= self@.skip(i + 1));
            assert(self@.skip(i as int)[0] == self@[i as int]);
            if iguais(self.membros[i].0.as_str(), chave) {
                return Some(&self.membros[i].1);
            }
            i += 1;
        }
        None
    }

    /// Sets the member `chave` to `valor`, as a JSON object map's `insert` does.
    pub fn inserir(&mut self, chave: String, valor: Json)
        ensures
            final(self)@ == com_membro(old(self)@, chave, valor),
            ordenados(old(self)@),
            ordenados(final(self)@),
    {
        proof {
            use_type_invariant(&*self);
        }
        let mut m: Vec<(String, Json)> = Vec::new();
        std::mem::swap(&mut m, &mut self.membros);
        let ghost s = m@;
        let n = m.len();
        let mut i: usize = 0;
        assert(s.take(0) + s.skip(0) =~= s);
        while i < n
            invariant
                n == m@.len(),
                m@ == s,
                s == old(self)@,
                ordenados(s),
                i <= n,
                com_membro(s, chave, valor) == s.take(i as int) + com_membro(s.skip(i as int), chave, valor),
                forall|q: int| 0 <= q < i ==> precede(#[trigger] s[q].0@, chave@),
            decreases n - i,
        {
            let ghost resto = s.skip(i as int);
            assert(resto[0] == s[i as int]);
            assert(resto.drop_first() =~= s.skip(i + 1));
            match comparar(chave.as_str(), m[i].0.as_str()) {
                Comparacao::Igual => {
                    m.set(i, (chave, valor));
                    assert(m@ =~= s.take(i as int) + (seq![(chave, valor)] + resto.drop_first()));
                    proof {
                        assert forall|a: int, b: int| 0 <= a < b < m@.len() implies precede(
                            m@[a].0@,
                            m@[b].0@,
                        ) by {
                            assert(s[a].0@ == m@[a].0@ || a == i);
                            assert(s[b].0@ == m@[b].0@ || b == i);
                        }
                    }
                    self.membros = m;
                    return;
                },
                Comparacao::Antes => {
                    m.insert(i, (chave, valor));
                    assert(m@ =~= s.take(i as int) + (seq![(chave, valor)] + resto));
                    proof {
                        assert forall|a: int, b: int| 0 <= a < b < m@.len() implies precede(
                            m@[a].0@,
                            m@[b].0@,
                        ) by {
                            if a < i && b == i {
                            } else if a == i && b > i {
                                if b - 1 > i {
                                    lema_precede_transitiva(chave@, s[i as int].0@, s[b - 1].0@);
                                }
                            } else if a < i && b > i {
                                assert(precede(s[a].0@, s[b - 1].0@));
                            } else if a > i {
                                assert(precede(s[a - 1].0@, s[b - 1].0@));
                            }
                        }
                    }
                    self.membros = m;
                    return;
                },
                Comparacao::Depois => {
                    assert(s.take(i + 1) =~= s.take(i as int).push(s[i as int]));
                    assert(s.take(i as int) + com_membro(resto, chave, valor) =~= s.take(i + 1)
                        + com_membro(s.skip(i + 1), chave, valor));
                },
            }
            i += 1;
        }
        assert(s.skip(n as int) =~= Seq::<(String, Json)>::empty());
        assert(s.take(n as int) =~= s);
        m.push((chave, valor));
        proof {
            assert forall|a: int, b: int| 0 <= a < b < m@.len() implies precede(
                m@[a].0@,
                m@[b].0@,
            ) by {
                if b == n {
                } else {
                    assert(precede(s[a].0@, s[b].0@));
                }
            }
        }
        self.membros = m;
    }
}


/// Reading a member right after setting it gives the value that was set.
pub proof fn lema_le_o_que_inseriu(s: Seq<(String, Json)>, k: String, v: Json)
    ensures
        procura(com_membro(s, k, v), k@) == Some(v),
    decreases s.len(),
{
    if s.len() > 0 && s[0].0@ != k@ && !precede(k@, s[0].0@) {
        lema_le_o_que_inseriu(s.drop_first(), k, v);
        assert((seq![s[0]] + com_membro(s.drop_first(), k, v)).drop_first() =~= com_membro(
            s.drop_first(),
            k,
            v,
        ));
    }
}

/// Setting one member leaves the value of every other name as it was.
pub proof fn lema_inserir_preserva_outros(s: Seq<(String, Json)>, k: String, v: Json, outra: Seq<char>)
    requires
        outra != k@,
    ensures
        procura(com_membro(s, k, v), outra) == procura(s, outra),
    decreases s.len(),
{
    let r = com_membro(s, k, v);
    if s.len() == 0 {
        assert(r[0] == (k, v));
        assert(r.drop_first() =~= Seq::<(String, Json)>::empty());
        assert(procura(r, outra) == procura(s, outra));
    } else if s[0].0@ == k@ {
        assert(r[0] == (k, v));
        assert(r.drop_first() =~= s.drop_first());
        assert(procura(r, outra) == procura(s, outra));
    } else if precede(k@, s[0].0@) {
        assert(r[0] == (k, v));
        assert(r.drop_first() =~= s);
        assert(procura(r, outra) == procura(s, outra));
    } else {
        lema_inserir_preserva_outros(s.drop_first(), k, v, outra);
        assert(r[0] == s[0]);
        assert(r.drop_first() =~= com_membro(s.drop_first(), k, v));
        assert(procura(r, outra) == procura(s, outra));
    }
}

/// Setting a name twice leaves the body as setting it once, to the second value.
pub proof fn lema_inserir_duas_vezes(s: Seq<(String, Json)>, k1: String, v1: Json, k2: String, v2: Json)
    requires
        k1@ == k2@,
    ensures
        com_membro(com_membro(s, k1, v1), k2, v2) == com_membro(s, k2, v2),
    decreases s.len(),
{
    if s.len() == 0 {
        assert(seq![(k1, v1)].drop_first() =~= Seq::<(String, Json)>::empty());
    } else if s[0].0@ == k1@ {
        assert((seq![(k1, v1)] + s.drop_first()).drop_first() =~= s.drop_first());
    } else if precede(k1@, s[0].0@) {
        assert((seq![(k1, v1)] + s).drop_first() =~= s);
    } else {
        lema_inserir_duas_vezes(s.drop_first(), k1, v1, k2, v2);
        assert((seq![s[0]] + com_membro(s.drop_first(), k1, v1)).drop_first() =~= com_membro(
            s.drop_first(),
            k1,
            v1,
        ));
    }
}

} // verus!
