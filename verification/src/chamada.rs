//! A call to a service: how it is built from the description, the
//! environment and the values typed for its fields, and how the review
//! screen changes it.

use vstd::prelude::*;
use vstd::utf8::encode_utf8;
use crate::autenticacao::{Ambiente, cabecalho_auth, credenciais, montar_auth, tamanho_base64};
use crate::corpo::{Corpo, com_membro};
use crate::json::Json;
use crate::swagger::{Campo, montar_url, url_da_chamada};
use crate::texto::{contem, contem_texto, iguais};
use crate::valor::{inferir_valor, tipar_valor, valor_inferido, valor_tipado};

verus! {

/// A call, as it is reviewed, run and saved as a variant.
#[derive(Debug, PartialEq)]
pub struct HistoricoChamada {
    pub nome_variante: String,
    pub url_final: String,
    pub metodo: String,
    pub auth_header: String,
    pub params_query: Vec<(String, String)>,
    pub payload_body: Corpo,
}

/// The value that goes into the query for a field left empty: `50` for
/// `$top`, nothing for the others.
pub open spec fn valor_de_consulta(nome: Seq<char>, valor: Seq<char>) -> Seq<char> {
    if valor.len() == 0 && contem(nome, "$top"@) {
        "50"@
    } else {
        valor
    }
}

/// The query that the first `n` fields give with their typed values: each
/// field not of the body, in turn, where its value is not empty or its name
/// holds `$top`.
pub open spec fn consulta_ate(campos: Seq<Campo>, valores: Seq<String>, n: nat) -> Seq<
    (Seq<char>, Seq<char>),
>
    decreases n,
{
    if n == 0 {
        Seq::empty()
    } else {
        let antes = consulta_ate(campos, valores, (n - 1) as nat);
        let c = campos[n - 1];
        let v = valores[n - 1]@;
        if c.categoria@ == "BODY"@ {
            antes
        } else if v.len() > 0 || contem(c.nome@, "$top"@) {
            antes.push((c.nome@, valor_de_consulta(c.nome@, v)))
        } else {
            antes
        }
    }
}

/// The body that the first `n` fields give with their typed values: each
/// field of the body, in turn, set to its typed value where that is not null.
pub open spec fn corpo_ate(campos: Seq<Campo>, valores: Seq<String>, n: nat) -> Seq<(String, Json)>
    decreases n,
{
    if n == 0 {
        Seq::empty()
    } else {
        let antes = corpo_ate(campos, valores, (n - 1) as nat);
        let c = campos[n - 1];
        if c.categoria@ == "BODY"@ {
            let t = valor_tipado(valores[n - 1], c.tipo@);
            if t is Nulo {
                antes
            } else {
                com_membro(antes, c.nome, t)
            }
        } else {
            antes
        }
    }
}

/// The query and the body that the fields give with the values typed for
/// them (see `consulta_ate` and `corpo_ate`).
pub fn montar_parametros(campos: &Vec<Campo>, valores: &Vec<String>) -> (r: (Vec<(String, String)>, Corpo))
    requires
        campos.len() == valores.len(),
    ensures
        r.0.deep_view() == consulta_ate(campos@, valores@, campos.len() as nat),
        r.1@ == corpo_ate(campos@, valores@, campos.len() as nat),
{
    let mut consulta: Vec<(String, String)> = Vec::new();
    let mut corpo = Corpo::new();
    let n = campos.len();
    let mut i: usize = 0;
    assert(consulta.deep_view() =~= Seq::<(Seq<char>, Seq<char>)>::empty());
    while i < n
        invariant
            n == campos.len(),
            n == valores.len(),
            i <= n,
            consulta.deep_view() == consulta_ate(campos@, valores@, i as nat),
            corpo@ == corpo_ate(campos@, valores@, i as nat),
        decreases n - i,
    {
        let c = &campos[i];
        let valor = valores[i].clone();
        if iguais(c.categoria.as_str(), "BODY") {
            let t = tipar_valor(valor, c.tipo.as_str());
            match t {
                Json::Nulo => {},
                _ => {
                    corpo.inserir(c.nome.clone(), t);
                },
            }
        } else {
            let tem_top = contem_texto(c.nome.as_str(), "$top");
            if !valor.as_str().is_empty() || tem_top {
                let v = if valor.as_str().is_empty() && tem_top {
                    String::from_str("50")
                } else {
                    valor
                };
                let ghost antes = consulta.deep_view();
                consulta.push((c.nome.clone(), v));
                assert(consulta.deep_view() =~= antes.push(
                    (campos@[i as int].nome@, valor_de_consulta(campos@[i as int].nome@, valores@[i as int]@)),
                ));
            }
        }
        i += 1;
    }
    (consulta, corpo)
}

/// The call that the environment, the service description, the route, the
/// operation (in upper case), its fields and their typed values give: the
/// variant `Nova`, the URL of `url_da_chamada`, the header of
/// `cabecalho_auth`, and the query and body of `montar_parametros`.
pub fn montar_nova_chamada(
    amb: &Ambiente,
    api: &Json,
    rota: &str,
    metodo: String,
    campos: &Vec<Campo>,
    valores: &Vec<String>,
) -> (r: HistoricoChamada)
    requires
        campos.len() == valores.len(),
        tamanho_base64(encode_utf8(credenciais(*amb)).len()) <= usize::MAX,
    ensures
        r.nome_variante@ == "Nova"@,
        r.url_final@ == url_da_chamada(amb.host@, *api, rota@),
        r.metodo == metodo,
        r.auth_header@ == cabecalho_auth(*amb),
        r.params_query.deep_view() == consulta_ate(campos@, valores@, campos.len() as nat),
        r.payload_body@ == corpo_ate(campos@, valores@, campos.len() as nat),
{
    let (params_query, payload_body) = montar_parametros(campos, valores);
    let url_final = montar_url(amb.host.as_str(), api, rota);
    let auth_header = montar_auth(amb);
    HistoricoChamada {
        nome_variante: String::from_str("Nova"),
        url_final,
        metodo,
        auth_header,
        params_query,
        payload_body,
    }
}


/// The query `q` without its entries named `k`, the others in their order.
pub open spec fn sem_campo(q: Seq<(Seq<char>, Seq<char>)>, k: Seq<char>) -> Seq<(Seq<char>, Seq<char>)>
    decreases q.len(),
{
    if q.len() == 0 {
        q
    } else if q.last().0 == k {
        sem_campo(q.drop_last(), k)
    } else {
        sem_campo(q.drop_last(), k).push(q.last())
    }
}

/// The query `q` with the entry `(k, v)`: any entry named `k` leaves, and
/// `(k, v)` goes at the end.
pub open spec fn com_campo(q: Seq<(Seq<char>, Seq<char>)>, k: Seq<char>, v: Seq<char>) -> Seq<
    (Seq<char>, Seq<char>),
> {
    sem_campo(q, k).push((k, v))
}

/// Sets the query entry `campo` to `valor` (see `com_campo`), as the review
/// screen does for a field that is not empty.
pub fn editar_query(req: &mut HistoricoChamada, campo: String, valor: String)
    ensures
        final(req).params_query.deep_view() == com_campo(
            old(req).params_query.deep_view(),
            campo@,
            valor@,
        ),
        final(req).nome_variante == old(req).nome_variante,
        final(req).url_final == old(req).url_final,
        final(req).metodo == old(req).metodo,
        final(req).auth_header == old(req).auth_header,
        final(req).payload_body == old(req).payload_body,
{
    let mut nova: Vec<(String, String)> = Vec::new();
    let ghost q = req.params_query.deep_view();
    let n = req.params_query.len();
    let mut i: usize = 0;
    assert(q.take(0) =~= Seq::<(Seq<char>, Seq<char>)>::empty());
    assert(nova.deep_view() =~= Seq::<(Seq<char>, Seq<char>)>::empty());
    while i < n
        invariant
            n == req.params_query.len(),
            q == req.params_query.deep_view(),
            i <= n,
            nova.deep_view() == sem_campo(q.take(i as int), campo@),
        decreases n - i,
    {
        assert(q.take(i + 1).drop_last() =~= q.take(i as int));
        assert(q.take(i + 1).last() == q[i as int]);
        if !iguais(req.params_query[i].0.as_str(), campo.as_str()) {
            let ghost antes = nova.deep_view();
            let par = (req.params_query[i].0.clone(), req.params_query[i].1.clone());
            nova.push(par);
            assert(nova.deep_view() =~= antes.push(q[i as int]));
        }
        i += 1;
    }
    assert(q.take(n as int) =~= q);
    let ghost antes = nova.deep_view();
    let ghost vista = (campo@, valor@);
    nova.push((campo, valor));
    assert(nova.deep_view() =~= antes.push(vista));
    req.params_query = nova;
}

/// No entry of the query is named `k` once the entries named `k` are taken out.
pub proof fn lema_sem_campo_sem_nome(q: Seq<(Seq<char>, Seq<char>)>, k: Seq<char>)
    ensures
        forall|i: int| 0 <= i < sem_campo(q, k).len() ==> #[trigger] sem_campo(q, k)[i].0 != k,
    decreases q.len(),
{
    if q.len() > 0 {
        lema_sem_campo_sem_nome(q.drop_last(), k);
        let antes = sem_campo(q.drop_last(), k);
        if q.last().0 != k {
            assert forall|i: int| 0 <= i < sem_campo(q, k).len() implies #[trigger] sem_campo(q, k)[i].0 != k by {
                if i < antes.len() {
                    assert(sem_campo(q, k)[i] == antes[i]);
                }
            }
        }
    }
}

/// After setting a query entry, exactly one entry bears its name: the last,
/// with the value set.
pub proof fn lema_editar_query_unico(q: Seq<(Seq<char>, Seq<char>)>, k: Seq<char>, v: Seq<char>)
    ensures
        com_campo(q, k, v).last() == (k, v),
        forall|i: int| 0 <= i < com_campo(q, k, v).len() - 1 ==> #[trigger] com_campo(q, k, v)[i].0 != k,
{
    lema_sem_campo_sem_nome(q, k);
    assert forall|i: int| 0 <= i < com_campo(q, k, v).len() - 1 implies #[trigger] com_campo(q, k, v)[i].0 != k by {
        assert(com_campo(q, k, v)[i] == sem_campo(q, k)[i]);
    }
}

/// Entries of other names stay, in their order.
pub proof fn lema_sem_campo_mantem_outros(q: Seq<(Seq<char>, Seq<char>)>, k: Seq<char>, e: (Seq<char>, Seq<char>))
    requires
        e.0 != k,
    ensures
        sem_campo(q, k).contains(e) == q.contains(e),
    decreases q.len(),
{
    if q.len() > 0 {
        lema_sem_campo_mantem_outros(q.drop_last(), k, e);
        assert(q =~= q.drop_last().push(q.last()));
        if q.contains(e) && !q.drop_last().contains(e) {
            assert(q.last() == e);
            assert(sem_campo(q, k).last() == e);
        }
        if sem_campo(q, k).contains(e) && !sem_campo(q.drop_last(), k).contains(e) {
            let j = choose|j: int| 0 <= j < sem_campo(q, k).len() && sem_campo(q, k)[j] == e;
            if j < sem_campo(q.drop_last(), k).len() {
                assert(sem_campo(q.drop_last(), k)[j] == e);
            }
            assert(q[q.len() - 1] == e);
        }
        if q.drop_last().contains(e) {
            let j = choose|j: int| 0 <= j < q.drop_last().len() && q.drop_last()[j] == e;
            assert(q[j] == e);
        }
        if sem_campo(q.drop_last(), k).contains(e) && q.last().0 != k {
            let j = choose|j: int| 0 <= j < sem_campo(q.drop_last(), k).len() && sem_campo(q.drop_last(), k)[j] == e;
            assert(sem_campo(q, k)[j] == e);
        }
    }
}

/// Taking out the entries named `k` twice is taking them out once.
proof fn lema_sem_campo_idempotente(q: Seq<(Seq<char>, Seq<char>)>, k: Seq<char>)
    ensures
        sem_campo(sem_campo(q, k), k) == sem_campo(q, k),
    decreases q.len(),
{
    if q.len() > 0 {
        lema_sem_campo_idempotente(q.drop_last(), k);
        if q.last().0 != k {
            assert(sem_campo(q, k).drop_last() =~= sem_campo(q.drop_last(), k));
        }
    }
}

/// Setting the same query entry twice leaves the query as setting it once,
/// to the second value.
pub proof fn lema_editar_query_duas_vezes(q: Seq<(Seq<char>, Seq<char>)>, k: Seq<char>, v1: Seq<char>, v2: Seq<char>)
    ensures
        com_campo(com_campo(q, k, v1), k, v2) == com_campo(q, k, v2),
{
    let s = sem_campo(q, k);
    assert(s.push((k, v1)).drop_last() =~= s);
    lema_sem_campo_idempotente(q, k);
}

/// What the review screen is asked to do.
#[derive(Debug, PartialEq)]
pub enum Acao {
    Executar,
    EditarQuery { campo: String, valor: String },
    EditarBody { campo: String, valor: String },
    Salvar { nome: String },
    Cancelar,
}

/// What follows an action of the review screen: show the screen again, save
/// the call as the variant it now names and show the screen again, run the
/// call, or give up.
#[derive(Debug, Clone, Copy, PartialEq, Eq)]
pub enum Passo {
    Continuar,
    Gravar,
    Executar,
    Cancelar,
}

/// Applies an action of the review screen: an edit whose field name is
/// empty changes nothing; an edit of the query goes as `editar_query`; an
/// edit of the body sets the member to the value whose type is guessed by
/// `valor_inferido`; saving under a name that is not empty names the
/// variant.
pub fn aplicar_acao(req: &mut HistoricoChamada, acao: Acao) -> (r: Passo)
    ensures
        match acao {
            Acao::Executar => r is Executar && *final(req) == *old(req),
            Acao::Cancelar => r is Cancelar && *final(req) == *old(req),
            Acao::EditarQuery { campo, valor } => r is Continuar && if campo@.len() == 0 {
                *final(req) == *old(req)
            } else {
                &&& final(req).params_query.deep_view() == com_campo(
                    old(req).params_query.deep_view(),
                    campo@,
                    valor@,
                )
                &&& final(req).nome_variante == old(req).nome_variante
                &&& final(req).url_final == old(req).url_final
                &&& final(req).metodo == old(req).metodo
                &&& final(req).auth_header == old(req).auth_header
                &&& final(req).payload_body == old(req).payload_body
            },
            Acao::EditarBody { campo, valor } => r is Continuar && if campo@.len() == 0 {
                *final(req) == *old(req)
            } else {
                &&& final(req).payload_body@ == com_membro(
                    old(req).payload_body@,
                    campo,
                    valor_inferido(valor),
                )
                &&& final(req).nome_variante == old(req).nome_variante
                &&& final(req).url_final == old(req).url_final
                &&& final(req).metodo == old(req).metodo
                &&& final(req).auth_header == old(req).auth_header
                &&& final(req).params_query == old(req).params_query
            },
            Acao::Salvar { nome } => if nome@.len() == 0 {
                r is Continuar && *final(req) == *old(req)
            } else {
                &&& r is Gravar
                &&& final(req).nome_variante == nome
                &&& final(req).url_final == old(req).url_final
                &&& final(req).metodo == old(req).metodo
                &&& final(req).auth_header == old(req).auth_header
                &&& final(req).params_query == old(req).params_query
                &&& final(req).payload_body == old(req).payload_body
            },
        },
{
    match acao {
        Acao::Executar => Passo::Executar,
        Acao::Cancelar => Passo::Cancelar,
        Acao::EditarQuery { campo, valor } => {
            if !campo.as_str().is_empty() {
                editar_query(req, campo, valor);
            }
            Passo::Continuar
        },
        Acao::EditarBody { campo, valor } => {
            if !campo.as_str().is_empty() {
                let v = inferir_valor(valor);
                req.payload_body.inserir(campo, v);
            }
            Passo::Continuar
        },
        Acao::Salvar { nome } => {
            if nome.as_str().is_empty() {
                Passo::Continuar
            } else {
                req.nome_variante = nome;
                Passo::Gravar
            }
        },
    }
}


/// No member of `s` holds `null`.
pub open spec fn sem_nulos(s: Seq<(String, Json)>) -> bool {
    forall|i: int| 0 <= i < s.len() ==> !(#[trigger] s[i].1 is Nulo)
}

proof fn lema_com_membro_sem_nulos(s: Seq<(String, Json)>, k: String, v: Json)
    requires
        sem_nulos(s),
        !(v is Nulo),
    ensures
        sem_nulos(com_membro(s, k, v)),
    decreases s.len(),
{
    let r = com_membro(s, k, v);
    if s.len() > 0 && s[0].0@ != k@ && !crate::ordem::precede(k@, s[0].0@) {
        lema_com_membro_sem_nulos(s.drop_first(), k, v);
        assert forall|i: int| 0 <= i < r.len() implies !(#[trigger] r[i].1 is Nulo) by {
            if i > 0 {
                assert(r[i] == com_membro(s.drop_first(), k, v)[i - 1]);
            }
        }
    } else if s.len() > 0 && s[0].0@ == k@ {
        assert forall|i: int| 0 <= i < r.len() implies !(#[trigger] r[i].1 is Nulo) by {
            if i > 0 {
                assert(r[i] == s[i]);
            }
        }
    } else if s.len() > 0 {
        assert forall|i: int| 0 <= i < r.len() implies !(#[trigger] r[i].1 is Nulo) by {
            if i > 0 {
                assert(r[i] == s[i - 1]);
            }
        }
    }
}

/// The body that the typed values give never holds `null`: an empty value
/// leaves its field out.
pub proof fn lema_corpo_sem_nulos(campos: Seq<Campo>, valores: Seq<String>, n: nat)
    ensures
        sem_nulos(corpo_ate(campos, valores, n)),
    decreases n,
{
    if n > 0 {
        lema_corpo_sem_nulos(campos, valores, (n - 1) as nat);
        let c = campos[n - 1];
        let t = valor_tipado(valores[n - 1], c.tipo@);
        if c.categoria@ == "BODY"@ && !(t is Nulo) {
            lema_com_membro_sem_nulos(corpo_ate(campos, valores, (n - 1) as nat), c.nome, t);
        }
    }
}

/// The query that the typed values give holds no empty value: a field left
/// empty is left out, but for `$top`, which gets `50`.
pub proof fn lema_consulta_sem_vazios(campos: Seq<Campo>, valores: Seq<String>, n: nat)
    ensures
        forall|i: int|
            0 <= i < consulta_ate(campos, valores, n).len() ==> #[trigger] consulta_ate(
                campos,
                valores,
                n,
            )[i].1.len() > 0,
    decreases n,
{
    reveal_strlit("50");
    if n > 0 {
        lema_consulta_sem_vazios(campos, valores, (n - 1) as nat);
        let antes = consulta_ate(campos, valores, (n - 1) as nat);
        let r = consulta_ate(campos, valores, n);
        let c = campos[n - 1];
        let v = valores[n - 1]@;
        assert(valor_de_consulta(c.nome@, v).len() > 0 || v.len() == 0 && !contem(c.nome@, "$top"@));
        assert forall|i: int| 0 <= i < r.len() implies #[trigger] r[i].1.len() > 0 by {
            if i < antes.len() {
                assert(r[i] == antes[i]);
            }
        }
    }
}


/// The field `i` gives a body member: it belongs to the body and its typed
/// value is not null.
pub open spec fn da_membro(campos: Seq<Campo>, valores: Seq<String>, i: int) -> bool {
    campos[i].categoria@ == "BODY"@ && !(valor_tipado(valores[i], campos[i].tipo@) is Nulo)
}

/// The body drops only null values: for each body field whose typed value
/// is not null, the body holds a member of its name whose value is the typed
/// value of the last such field of that name among the first `n`.
pub proof fn lema_corpo_guarda_valores(campos: Seq<Campo>, valores: Seq<String>, n: nat, i: int)
    requires
        n <= campos.len(),
        n <= valores.len(),
        0 <= i < n,
        da_membro(campos, valores, i),
        forall|j: int|
            i < j < n && #[trigger] da_membro(campos, valores, j) ==> campos[j].nome@ != campos[i].nome@,
    ensures
        crate::json::procura(corpo_ate(campos, valores, n), campos[i].nome@) == Some(
            valor_tipado(valores[i], campos[i].tipo@),
        ),
    decreases n,
{
    let c = campos[n - 1];
    let antes = corpo_ate(campos, valores, (n - 1) as nat);
    if i == n - 1 {
        crate::corpo::lema_le_o_que_inseriu(antes, c.nome, valor_tipado(valores[i], c.tipo@));
    } else {
        lema_corpo_guarda_valores(campos, valores, (n - 1) as nat, i);
        if da_membro(campos, valores, n - 1) {
            crate::corpo::lema_inserir_preserva_outros(
                antes,
                c.nome,
                valor_tipado(valores[n - 1], c.tipo@),
                campos[i].nome@,
            );
        }
    }
}

/// Every member of the body comes from a body field of its name whose typed
/// value it is.
pub proof fn lema_corpo_vem_dos_campos(campos: Seq<Campo>, valores: Seq<String>, n: nat, k: Seq<char>)
    requires
        n <= campos.len(),
        n <= valores.len(),
    ensures
        crate::json::procura(corpo_ate(campos, valores, n), k) matches Some(x) ==> exists|i: int|
            0 <= i < n && #[trigger] da_membro(campos, valores, i) && campos[i].nome@ == k && x
                == valor_tipado(valores[i], campos[i].tipo@),
    decreases n,
{
    if n > 0 {
        lema_corpo_vem_dos_campos(campos, valores, (n - 1) as nat, k);
        let c = campos[n - 1];
        let antes = corpo_ate(campos, valores, (n - 1) as nat);
        if da_membro(campos, valores, n - 1) {
            let t = valor_tipado(valores[n - 1], c.tipo@);
            if c.nome@ == k {
                crate::corpo::lema_le_o_que_inseriu(antes, c.nome, t);
                assert(da_membro(campos, valores, n - 1));
            } else {
                crate::corpo::lema_inserir_preserva_outros(antes, c.nome, t, k);
            }
        }
    } else {
        assert(corpo_ate(campos, valores, 0) =~= Seq::<(String, Json)>::empty());
    }
}


/// Each field not of the body with a value typed for it puts that value in
/// the query under its name, and a `$top` field left empty puts `50`.
pub proof fn lema_consulta_guarda_valores(campos: Seq<Campo>, valores: Seq<String>, n: nat, i: int)
    requires
        n <= campos.len(),
        n <= valores.len(),
        0 <= i < n,
        campos[i].categoria@ != "BODY"@,
    ensures
        valores[i]@.len() > 0 ==> consulta_ate(campos, valores, n).contains((campos[i].nome@, valores[i]@)),
        valores[i]@.len() == 0 && contem(campos[i].nome@, "$top"@) ==> consulta_ate(campos, valores, n).contains(
            (campos[i].nome@, "50"@),
        ),
    decreases n,
{
    let q = consulta_ate(campos, valores, n);
    let antes = consulta_ate(campos, valores, (n - 1) as nat);
    if i < n - 1 {
        lema_consulta_guarda_valores(campos, valores, (n - 1) as nat, i);
        if antes.contains((campos[i].nome@, valores[i]@)) {
            let j = choose|j: int| 0 <= j < antes.len() && antes[j] == (campos[i].nome@, valores[i]@);
            if q != antes {
                assert(q[j] == antes[j]);
            }
        }
        if antes.contains((campos[i].nome@, "50"@)) {
            let j = choose|j: int| 0 <= j < antes.len() && antes[j] == (campos[i].nome@, "50"@);
            if q != antes {
                assert(q[j] == antes[j]);
            }
        }
    } else {
        if q != antes {
            assert(q[q.len() - 1] == (campos[i].nome@, valor_de_consulta(campos[i].nome@, valores[i]@)));
        }
    }
}

} // verus!
