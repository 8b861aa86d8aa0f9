//! A JSON value held as plain data, and the reads that the service
//! description and the service's answers go through.

use vstd::prelude::*;
use crate::texto::{iguais, dividir, pedacos};

verus! {

/// A JSON number: an `i64`, or the decimal text of any other number.
#[derive(Debug, PartialEq)]
pub enum Numero {
    Inteiro(i64),
    Outro(String),
}

/// A JSON value. The members of an object keep the order in which they
/// were read.
#[derive(Debug, PartialEq)]
pub enum Json {
    Nulo,
    Logico(bool),
    Numero(Numero),
    Texto(String),
    Lista(Vec<Json>),
    Objeto(Vec<(String, Json)>),
}

/// The value of the first member named `chave` among `membros`.
pub open spec fn procura(membros: Seq<(String, Json)>, chave: Seq<char>) -> Option<Json>
    decreases membros.len(),
{
    if membros.len() == 0 {
        None
    } else if membros[0].0@ == chave {
        Some(membros[0].1)
    } else {
        procura(membros.drop_first(), chave)
    }
}

/// The value that an optional reference points to.
pub open spec fn apontado<'a>(o: Option<&'a Json>) -> Option<Json> {
    match o {
        Some(x) => Some(*x),
        None => None,
    }
}

impl Json {
    /// The member `chave` of an object; nothing for any other value.
    pub open spec fn membro(self, chave: Seq<char>) -> Option<Json> {
        match self {
            Json::Objeto(m) => procura(m@, chave),
            _ => None,
        }
    }

    /// The member `chave` of an object, and `Nulo` where there is none.
    pub open spec fn indice(self, chave: Seq<char>) -> Json {
        match self.membro(chave) {
            Some(v) => v,
            None => Json::Nulo,
        }
    }

    /// The characters of a text value.
    pub open spec fn texto_de(self) -> Option<Seq<char>> {
        match self {
            Json::Texto(s) => Some(s@),
            _ => None,
        }
    }

    /// The items of a list value.
    pub open spec fn lista_de(self) -> Option<Seq<Json>> {
        match self {
            Json::Lista(l) => Some(l@),
            _ => None,
        }
    }

    /// The members of an object value.
    pub open spec fn objeto_de(self) -> Option<Seq<(String, Json)>> {
        match self {
            Json::Objeto(m) => Some(m@),
            _ => None,
        }
    }

    /// The member `chave` of an object; `None` for any other value.
    pub fn membro_exec(&self, chave: &str) -> (r: Option<&Json>)
        ensures
            apontado(r) == self.membro(chave@),
    {
        match self {
            Json::Objeto(m) => {
                let n = m.len();
                let mut i: usize = 0;
                assert(m@.skip(0) =~= m@);
                while i < n
                    invariant
                        n == m@.len(),
                        i <= n,
                        procura(m@.skip(i as int), chave@) == procura(m@, chave@),
                        self.membro(chave@) == procura(m@, chave@),
                    decreases n - i,
                {
                    assert(m@.skip(i as int).drop_first() =~= m@.skip(i + 1));
                    assert(m@.skip(i as int)[0] == m@[i as int]);
                    if iguais(m[i].0.as_str(), chave) {
                        return Some(&m[i].1);
                    }
                    i += 1;
                }
                None
            },
            _ => None,
        }
    }

    /// The text of a text value.
    pub fn texto_exec(&self) -> (r: Option<&String>)
        ensures
            match r {
                Some(s) => self.texto_de() == Some(s@),
                None => self.texto_de() is None,
            },
    {
        match self {
            Json::Texto(s) => Some(s),
            _ => None,
        }
    }

    /// The items of a list value.
    pub fn lista_exec(&self) -> (r: Option<&Vec<Json>>)
        ensures
            match r {
                Some(l) => self.lista_de() == Some(l@),
                None => self.lista_de() is None,
            },
    {
        match self {
            Json::Lista(l) => Some(l),
            _ => None,
        }
    }

    /// The members of an object value.
    pub fn objeto_exec(&self) -> (r: Option<&Vec<(String, Json)>>)
        ensures
            match r {
                Some(m) => self.objeto_de() == Some(m@),
                None => self.objeto_de() is None,
            },
    {
        match self {
            Json::Objeto(m) => Some(m),
            _ => None,
        }
    }
}

/// The value reached from `j` by following the members named `nomes` in
/// turn, where a name `#` stays in place.
pub open spec fn seguir(j: Json, nomes: Seq<Seq<char>>) -> Option<Json>
    decreases nomes.len(),
{
    if nomes.len() == 0 {
        Some(j)
    } else if nomes[0] == "#"@ {
        seguir(j, nomes.drop_first())
    } else {
        match j.membro(nomes[0]) {
            Some(x) => seguir(x, nomes.drop_first()),
            None => None,
        }
    }
}

/// The value that a reference such as `#/components/schemas/X` names in
/// `json`: its pieces between `/` are followed as member names, and `#`
/// pieces are passed over.
pub fn buscar_ref<'a>(json: &'a Json, caminho: &str) -> (r: Option<&'a Json>)
    ensures
        apontado(r) == seguir(*json, pedacos(caminho@, '/')),
{
    let nomes = dividir(caminho, '/');
    let ghost todos = nomes.deep_view();
    let n = nomes.len();
    let mut atual: &Json = json;
    let mut i: usize = 0;
    assert(todos.skip(0) =~= todos);
    while i < n
        invariant
            n == nomes.len(),
            todos == nomes.deep_view(),
            todos == pedacos(caminho@, '/'),
            i <= n,
            seguir(*json, todos) == seguir(*atual, todos.skip(i as int)),
        decreases n - i,
    {
        assert(todos.skip(i as int).drop_first() =~= todos.skip(i + 1));
        assert(todos.skip(i as int)[0] == nomes[i as int]@);
        if !iguais(nomes[i].as_str(), "#") {
            match atual.membro_exec(nomes[i].as_str()) {
                Some(prox) => {
                    atual = prox;
                },
                None => {
                    assert(seguir(*atual, todos.skip(i as int)) is None);
                    return None;
                },
            }
        }
        i += 1;
    }
    assert(todos.skip(n as int) =~= Seq::<Seq<char>>::empty());
    Some(atual)
}

/// The list of records in an answer of an SAP service: `d.results`, or `d`
/// itself, in OData v2; `value` in OData v4; or the answer itself.
pub open spec fn lista_sap(v: Json) -> Option<Seq<Json>> {
    match v.membro("d"@) {
        Some(d) => match d.membro("results"@) {
            Some(r) => r.lista_de(),
            None => d.lista_de(),
        },
        None => match v.membro("value"@) {
            Some(val) => val.lista_de(),
            None => v.lista_de(),
        },
    }
}

/// The list of records in an answer of an SAP service (see `lista_sap`).
pub fn extrair_lista_sap(v: &Json) -> (r: Option<&Vec<Json>>)
    ensures
        match r {
            Some(l) => lista_sap(*v) == Some(l@),
            None => lista_sap(*v) is None,
        },
{
    if let Some(d) = v.membro_exec("d") {
        if let Some(r) = d.membro_exec("results") {
            return r.lista_exec();
        }
        return d.lista_exec();
    }
    if let Some(val) = v.membro_exec("value") {
        return val.lista_exec();
    }
    v.lista_exec()
}


/// No two of the members `m` bear the same name.
pub open spec fn nomes_distintos(m: Seq<(String, Json)>) -> bool {
    forall|i: int, j: int| 0 <= i < j < m.len() ==> m[i].0@ != m[j].0@
}

impl Json {
    /// A value as JSON text can give it: in every object, at any depth, no
    /// two members bear the same name.
    pub open spec fn valido(self) -> bool
        decreases self,
    {
        match self {
            Json::Lista(l) => forall|i: int|
                0 <= i < l@.len() ==> (#[trigger] l@[i]).valido(),
            Json::Objeto(m) => nomes_distintos(m@) && forall|i: int|
                0 <= i < m@.len() ==> (#[trigger] m@[i]).1.valido(),
            _ => true,
        }
    }
}


/// What `procura` finds is the value of a member of that name.
pub proof fn lema_procura_acha_membro(m: Seq<(String, Json)>, chave: Seq<char>)
    ensures
        match procura(m, chave) {
            Some(x) => exists|i: int| 0 <= i < m.len() && m[i].0@ == chave && m[i].1 == x,
            None => forall|i: int| 0 <= i < m.len() ==> m[i].0@ != chave,
        },
    decreases m.len(),
{
    if m.len() > 0 {
        lema_procura_acha_membro(m.drop_first(), chave);
        if m[0].0@ != chave {
            match procura(m.drop_first(), chave) {
                Some(x) => {
                    let i = choose|i: int|
                        0 <= i < m.drop_first().len() && m.drop_first()[i].0@ == chave
                            && m.drop_first()[i].1 == x;
                    assert(m[i + 1] == m.drop_first()[i]);
                },
                None => {
                    assert forall|i: int| 0 <= i < m.len() implies m[i].0@ != chave by {
                        if i > 0 {
                            assert(m[i] == m.drop_first()[i - 1]);
                        }
                    }
                },
            }
        }
    }
}

/// A member of a valid value is valid.
pub proof fn lema_membro_valido(j: Json, chave: Seq<char>)
    requires
        j.valido(),
    ensures
        match j.membro(chave) {
            Some(x) => x.valido(),
            None => true,
        },
        j.indice(chave).valido(),
{
    match j {
        Json::Objeto(m) => {
            lema_procura_acha_membro(m@, chave);
            match procura(m@, chave) {
                Some(x) => {
                    let i = choose|i: int| 0 <= i < m@.len() && m@[i].0@ == chave && m@[i].1 == x;
                    assert(m@[i].1.valido());
                },
                None => {},
            }
        },
        _ => {},
    }
}


/// The list of records depends on the members `d` and `value` of the
/// answer by name alone: two objects whose members of those names agree
/// give the same list, whatever their other members and their order.
pub proof fn lema_lista_sap_por_nome(v1: Json, v2: Json)
    requires
        v1.objeto_de() is Some,
        v2.objeto_de() is Some,
        v1.membro("d"@) == v2.membro("d"@),
        v1.membro("value"@) == v2.membro("value"@),
    ensures
        lista_sap(v1) == lista_sap(v2),
{
}

/// An answer without a member `d` whose member `value` is a list gives
/// that list (OData v4); one whose member `d` has a list `results` gives
/// that list (OData v2).
pub proof fn lema_lista_sap_odata(v: Json)
    ensures
        v.membro("d"@) is None ==> match v.membro("value"@) {
            Some(val) => match val {
                Json::Lista(l) => lista_sap(v) == Some(l@),
                _ => lista_sap(v) is None,
            },
            None => true,
        },
        match v.membro("d"@) {
            Some(d) => match d.membro("results"@) {
                Some(Json::Lista(l)) => lista_sap(v) == Some(l@),
                _ => true,
            },
            None => true,
        },
{
}

} // verus!
