//! What a service description in the OpenAPI/Swagger form yields: its
//! routes, the operations of a route, the fields of an operation with their
//! types and places, and the base of its URL.

use vstd::prelude::*;
use crate::caixa::{maiusculas, minusculas, para_maiusculas, para_minusculas};
use crate::json::{Json, buscar_ref, seguir, nomes_distintos, lema_membro_valido};
use crate::ordem::{ordenada, ordenar, estritamente_ordenada, lema_ordenada_sem_repeticao};
use crate::texto::{
    aparado, aparar_fim, contem, contem_texto, encontrar, iguais, juntar, pedacos, posicao,
    remover_todos, sem_ocorrencias,
};

verus! {

/// A field of an operation: its name, its type, and where it goes
/// (`QUERY`, `PATH`, `HEADER`, `BODY`, ... in upper case).
#[derive(Debug, PartialEq)]
pub struct Campo {
    pub nome: String,
    pub tipo: String,
    pub categoria: String,
}

impl View for Campo {
    type V = (Seq<char>, Seq<char>, Seq<char>);

    open spec fn view(&self) -> (Seq<char>, Seq<char>, Seq<char>) {
        (self.nome@, self.tipo@, self.categoria@)
    }
}

/// The views of the fields `c`.
pub open spec fn vista_campos(c: Seq<Campo>) -> Seq<(Seq<char>, Seq<char>, Seq<char>)> {
    c.map_values(|x: Campo| x@)
}

/// The text held, or `padrao` where there is none.
pub open spec fn texto_ou(o: Option<Seq<char>>, padrao: Seq<char>) -> Seq<char> {
    match o {
        Some(s) => s,
        None => padrao,
    }
}

/// The field that a parameter of an operation describes: its `name`, its
/// `type` (or that of its `schema`, or `string`), and its place `in` (or
/// `query`) in upper case.
pub open spec fn campo_de_parametro(p: Json) -> (Seq<char>, Seq<char>, Seq<char>) {
    (
        texto_ou(p.indice("name"@).texto_de(), Seq::empty()),
        texto_ou(
            match p.indice("type"@).texto_de() {
                Some(t) => Some(t),
                None => p.indice("schema"@).indice("type"@).texto_de(),
            },
            "string"@,
        ),
        maiusculas(texto_ou(p.indice("in"@).texto_de(), "query"@)),
    )
}

/// The field that a property of the body's schema describes.
pub open spec fn campo_de_propriedade(m: (String, Json)) -> (Seq<char>, Seq<char>, Seq<char>) {
    (m.0@, texto_ou(m.1.indice("type"@).texto_de(), "string"@), "BODY"@)
}

/// The query options that every `get` offers.
pub open spec fn campos_padrao(metodo: Seq<char>) -> Seq<(Seq<char>, Seq<char>, Seq<char>)> {
    if metodo == "get"@ {
        seq![
            ("$filter"@, "string"@, "QUERY"@),
            ("$top"@, "integer"@, "QUERY"@),
            ("$select"@, "string"@, "QUERY"@),
        ]
    } else {
        Seq::empty()
    }
}

/// The operation `metodo` of the route `rota`.
pub open spec fn operacao(json: Json, rota: Seq<char>, metodo: Seq<char>) -> Option<Json> {
    json.indice("paths"@).indice(rota).membro(metodo)
}

/// The fields that the parameters of an operation describe.
pub open spec fn campos_de_parametros(op: Json) -> Seq<(Seq<char>, Seq<char>, Seq<char>)> {
    match op.indice("parameters"@).lista_de() {
        Some(ps) => ps.map_values(|p: Json| campo_de_parametro(p)),
        None => Seq::empty(),
    }
}

/// The schema of the JSON body of an operation.
pub open spec fn esquema_do_corpo(op: Json) -> Option<Json> {
    match op.membro("requestBody"@) {
        Some(rb) => match rb.membro("content"@) {
            Some(c) => match c.membro("application/json"@) {
                Some(j) => j.membro("schema"@),
                None => None,
            },
            None => None,
        },
        None => None,
    }
}

/// The schema that a body schema stands for: the one its `$ref` names, where
/// it has one that names something, else itself.
pub open spec fn alvo_do_esquema(json: Json, esquema: Json) -> Json {
    match esquema.membro("$ref"@) {
        Some(r) => match r.texto_de() {
            Some(c) => match seguir(json, pedacos(c, '/')) {
                Some(t) => t,
                None => esquema,
            },
            None => esquema,
        },
        None => esquema,
    }
}

/// The fields that the properties of the body's schema describe.
pub open spec fn campos_do_corpo(json: Json, op: Json) -> Seq<(Seq<char>, Seq<char>, Seq<char>)> {
    match esquema_do_corpo(op) {
        Some(e) => match alvo_do_esquema(json, e).membro("properties"@) {
            Some(p) => match p.objeto_de() {
                Some(ps) => ps.map_values(|m: (String, Json)| campo_de_propriedade(m)),
                None => Seq::empty(),
            },
            None => Seq::empty(),
        },
        None => Seq::empty(),
    }
}

/// The fields of the operation `metodo` (in lower case) of the route `rota`:
/// the query options of a `get`, then the parameters, then the properties of
/// the body.
pub open spec fn campos_da_operacao(json: Json, rota: Seq<char>, metodo: Seq<char>) -> Seq<
    (Seq<char>, Seq<char>, Seq<char>),
> {
    campos_padrao(metodo) + match operacao(json, rota, metodo) {
        Some(op) => campos_de_parametros(op) + campos_do_corpo(json, op),
        None => Seq::empty(),
    }
}

fn novo_campo(nome: &str, tipo: &str, categoria: &str) -> (r: Campo)
    ensures
        r@ == (nome@, tipo@, categoria@),
{
    Campo { nome: String::from_str(nome), tipo: String::from_str(tipo), categoria: String::from_str(categoria) }
}

/// The text of the member `chave` of `j`, where it is a text.
fn texto_do_membro<'a>(j: &'a Json, chave: &str) -> (r: Option<&'a String>)
    ensures
        match r {
            Some(s) => j.indice(chave@).texto_de() == Some(s@),
            None => j.indice(chave@).texto_de() is None,
        },
{
    match j.membro_exec(chave) {
        Some(x) => x.texto_exec(),
        None => None,
    }
}

fn texto_ou_padrao(o: Option<&String>, padrao: &str) -> (r: String)
    ensures
        r@ == match o {
            Some(s) => s@,
            None => padrao@,
        },
{
    match o {
        Some(s) => s.clone(),
        None => String::from_str(padrao),
    }
}

/// The field that a parameter of an operation describes.
pub fn campo_de_parametro_exec(p: &Json) -> (r: Campo)
    ensures
        r@ == campo_de_parametro(*p),
{
    let nome = texto_ou_padrao(texto_do_membro(p, "name"), "");
    let tipo_direto = texto_do_membro(p, "type");
    let tipo = match tipo_direto {
        Some(t) => t.clone(),
        None => {
            let esquema_tipo = match p.membro_exec("schema") {
                Some(e) => {
                    assert(p.indice("schema"@) == *e);
                    texto_do_membro(e, "type")
                },
                None => {
                    assert(p.indice("schema"@) == Json::Nulo);
                    assert(Json::Nulo.indice("type"@) == Json::Nulo);
                    None
                },
            };
            texto_ou_padrao(esquema_tipo, "string")
        },
    };
    let lugar = texto_ou_padrao(texto_do_membro(p, "in"), "query");
    let categoria = para_maiusculas(lugar.as_str());
    proof {
        reveal_strlit("");
    }
    Campo { nome, tipo, categoria }
}

/// The schema of the JSON body of an operation.
fn esquema_do_corpo_exec(op: &Json) -> (r: Option<&Json>)
    ensures
        crate::json::apontado(r) == esquema_do_corpo(*op),
{
    match op.membro_exec("requestBody") {
        Some(rb) => match rb.membro_exec("content") {
            Some(c) => match c.membro_exec("application/json") {
                Some(j) => j.membro_exec("schema"),
                None => None,
            },
            None => None,
        },
        None => None,
    }
}

/// The fields of the operation `metodo` of the route `rota` (see
/// `campos_da_operacao`); `metodo` is taken in lower case.
pub fn mapear_com_tipos(json: &Json, rota: &str, metodo: &str) -> (r: Vec<Campo>)
    ensures
        vista_campos(r@) == campos_da_operacao(*json, rota@, minusculas(metodo@)),
{
    let m = para_minusculas(metodo);
    campos_do_metodo(json, rota, m.as_str())
}

/// The fields of the operation `m`, already in lower case, of the route
/// `rota` (see `campos_da_operacao`).
pub fn campos_do_metodo(json: &Json, rota: &str, m: &str) -> (r: Vec<Campo>)
    ensures
        vista_campos(r@) == campos_da_operacao(*json, rota@, m@),
{
    let mut c: Vec<Campo> = Vec::new();
    if iguais(m, "get") {
        c.push(novo_campo("$filter", "string", "QUERY"));
        c.push(novo_campo("$top", "integer", "QUERY"));
        c.push(novo_campo("$select", "string", "QUERY"));
    }
    assert(vista_campos(c@) =~= campos_padrao(m@));
    let op = match json.membro_exec("paths") {
        Some(ps) => match ps.membro_exec(rota) {
            Some(r) => r.membro_exec(m),
            None => None,
        },
        None => None,
    };
    let op = match op {
        Some(o) => o,
        None => {
            assert(operacao(*json, rota@, m@) is None);
            assert(vista_campos(c@) =~= campos_da_operacao(*json, rota@, m@));
            return c;
        },
    };
    assert(operacao(*json, rota@, m@) == Some(*op));
    let ghost padrao = vista_campos(c@);
    let parametros = match op.membro_exec("parameters") {
        Some(x) => x.lista_exec(),
        None => None,
    };
    if let Some(ps) = parametros {
        let n = ps.len();
        let mut i: usize = 0;
        while i < n
            invariant
                n == ps@.len(),
                i <= n,
                vista_campos(c@) == padrao + ps@.take(i as int).map_values(
                    |p: Json| campo_de_parametro(p),
                ),
            decreases n - i,
        {
            let campo = campo_de_parametro_exec(&ps[i]);
            let ghost antes = c@;
            let ghost vista = campo@;
            c.push(campo);
            assert(vista_campos(c@) =~= vista_campos(antes).push(vista));
            assert(ps@.take(i + 1).map_values(|p: Json| campo_de_parametro(p)) =~= ps@.take(
                i as int,
            ).map_values(|p: Json| campo_de_parametro(p)).push(campo_de_parametro(ps@[i as int])));
            assert(vista_campos(c@) =~= padrao + ps@.take(i + 1).map_values(
                |p: Json| campo_de_parametro(p),
            ));
            i += 1;
        }
        assert(ps@.take(n as int) =~= ps@);
    }
    assert(vista_campos(c@) =~= padrao + campos_de_parametros(*op));
    let ghost com_parametros = vista_campos(c@);
    if let Some(esquema) = esquema_do_corpo_exec(op) {
        let mut alvo = esquema;
        let referencia = match esquema.membro_exec("$ref") {
            Some(r) => r.texto_exec(),
            None => None,
        };
        if let Some(caminho) = referencia {
            match buscar_ref(json, caminho.as_str()) {
                Some(t) => {
                    alvo = t;
                },
                None => {},
            }
        }
        assert(*alvo == alvo_do_esquema(*json, *esquema));
        let propriedades = match alvo.membro_exec("properties") {
            Some(p) => p.objeto_exec(),
            None => None,
        };
        if let Some(ps) = propriedades {
            let n = ps.len();
            let mut i: usize = 0;
            while i < n
                invariant
                    n == ps@.len(),
                    i <= n,
                    vista_campos(c@) == com_parametros + ps@.take(i as int).map_values(
                        |m: (String, Json)| campo_de_propriedade(m),
                    ),
                decreases n - i,
            {
                let tipo = texto_ou_padrao(texto_do_membro(&ps[i].1, "type"), "string");
                let campo = Campo { nome: ps[i].0.clone(), tipo, categoria: String::from_str("BODY") };
                let ghost antes = c@;
                let ghost vista = campo@;
                c.push(campo);
                assert(vista_campos(c@) =~= vista_campos(antes).push(vista));
                assert(ps@.take(i + 1).map_values(|m: (String, Json)| campo_de_propriedade(m))
                    =~= ps@.take(i as int).map_values(
                    |m: (String, Json)| campo_de_propriedade(m),
                ).push(campo_de_propriedade(ps@[i as int])));
                assert(vista_campos(c@) =~= com_parametros + ps@.take(i + 1).map_values(
                    |m: (String, Json)| campo_de_propriedade(m),
                ));
                i += 1;
            }
            assert(ps@.take(n as int) =~= ps@);
        }
    }
    assert(vista_campos(c@) =~= campos_da_operacao(*json, rota@, m@));
    c
}


/// The names of the members `m`, in their order.
pub open spec fn nomes_dos_membros(m: Seq<(String, Json)>) -> Seq<Seq<char>> {
    m.map_values(|e: (String, Json)| e.0@)
}

fn nomes_exec(m: &Vec<(String, Json)>) -> (r: Vec<String>)
    ensures
        r.deep_view() == nomes_dos_membros(m@),
{
    let mut r: Vec<String> = Vec::new();
    let n = m.len();
    let mut i: usize = 0;
    while i < n
        invariant
            n == m@.len(),
            i <= n,
            r.deep_view() == nomes_dos_membros(m@.take(i as int)),
        decreases n - i,
    {
        let ghost antes = r.deep_view();
        r.push(m[i].0.clone());
        assert(r.deep_view() =~= antes.push(m@[i as int].0@));
        assert(nomes_dos_membros(m@.take(i + 1)) =~= nomes_dos_membros(m@.take(i as int)).push(
            m@[i as int].0@,
        ));
        i += 1;
    }
    assert(m@.take(n as int) =~= m@);
    r
}

proof fn lema_nomes_sem_repeticao(m: Seq<(String, Json)>)
    requires
        nomes_distintos(m),
    ensures
        nomes_dos_membros(m).no_duplicates(),
{
    let n = nomes_dos_membros(m);
    assert forall|i: int, j: int| 0 <= i < n.len() && 0 <= j < n.len() && i != j implies n[i] != n[j] by {
        if i < j {
            assert(m[i].0@ != m[j].0@);
        } else {
            assert(m[j].0@ != m[i].0@);
        }
    }
}

/// The routes of a service description (the names of its `paths`), in order;
/// `None` where `paths` is no object.
pub fn rotas_disponiveis(api: &Json) -> (r: Option<Vec<String>>)
    ensures
        match r {
            Some(v) => match api.indice("paths"@).objeto_de() {
                Some(m) => ordenada(v.deep_view()) && v.deep_view().to_multiset()
                    == nomes_dos_membros(m).to_multiset(),
                None => false,
            },
            None => api.indice("paths"@).objeto_de() is None,
        },
        api.valido() ==> match r {
            Some(v) => estritamente_ordenada(v.deep_view()),
            None => true,
        },
{
    let paths = match api.membro_exec("paths") {
        Some(p) => p.objeto_exec(),
        None => None,
    };
    match paths {
        Some(m) => {
            let nomes = nomes_exec(m);
            let ghost origem = nomes.deep_view();
            let r = ordenar(nomes);
            proof {
                if api.valido() {
                    lema_membro_valido(*api, "paths"@);
                    lema_nomes_sem_repeticao(m@);
                    origem.lemma_multiset_has_no_duplicates();
                    r.deep_view().lemma_multiset_has_no_duplicates_conv();
                    lema_ordenada_sem_repeticao(r.deep_view());
                }
            }
            Some(r)
        },
        None => None,
    }
}

/// The operations of the route `rota` (the names of its members, in their
/// order); `None` where the route is no object.
pub fn metodos_da_rota(api: &Json, rota: &str) -> (r: Option<Vec<String>>)
    requires
        api.indice("paths"@).membro(rota@) is Some,
    ensures
        match r {
            Some(v) => match api.indice("paths"@).indice(rota@).objeto_de() {
                Some(m) => v.deep_view() == nomes_dos_membros(m),
                None => false,
            },
            None => api.indice("paths"@).indice(rota@).objeto_de() is None,
        },
        api.valido() ==> match r {
            Some(v) => v.deep_view().no_duplicates(),
            None => true,
        },
{
    proof {
        if api.valido() {
            lema_membro_valido(*api, "paths"@);
            lema_membro_valido(api.indice("paths"@), rota@);
            match api.indice("paths"@).indice(rota@).objeto_de() {
                Some(m) => lema_nomes_sem_repeticao(m),
                None => {},
            }
        }
    }
    let rota_json = match api.membro_exec("paths") {
        Some(p) => p.membro_exec(rota),
        None => None,
    };
    match rota_json {
        Some(x) => match x.objeto_exec() {
            Some(m) => Some(nomes_exec(m)),
            None => None,
        },
        None => None,
    }
}

/// The URL of the first server of a service description, or nothing.
pub open spec fn caminho_do_servidor(api: Json) -> Seq<char> {
    match api.indice("servers"@).lista_de() {
        Some(l) => if l.len() > 0 {
            texto_ou(l[0].indice("url"@).texto_de(), Seq::empty())
        } else {
            Seq::empty()
        },
        None => Seq::empty(),
    }
}

/// The path that a server URL gives: from its `/sap` on where it is a full
/// URL (nothing where it has no `/sap`), else itself; then without the
/// `{host}` and `{port}` placeholders.
pub open spec fn caminho_limpo(bruto: Seq<char>) -> Seq<char> {
    let base = if contem(bruto, "://"@) {
        if contem(bruto, "/sap"@) {
            bruto.skip(posicao(bruto, "/sap"@))
        } else {
            Seq::empty()
        }
    } else {
        bruto
    };
    sem_ocorrencias(sem_ocorrencias(base, "{host}"@), "{port}"@)
}

/// The URL of a call: the host and the server's path, each without its
/// trailing slashes, then the route.
pub open spec fn url_da_chamada(host: Seq<char>, api: Json, rota: Seq<char>) -> Seq<char> {
    aparado(host, '/') + aparado(caminho_limpo(caminho_do_servidor(api)), '/') + rota
}

fn caminho_do_servidor_exec(api: &Json) -> (r: String)
    ensures
        r@ == caminho_do_servidor(*api),
{
    proof {
        reveal_strlit("");
    }
    let lista = match api.membro_exec("servers") {
        Some(s) => s.lista_exec(),
        None => None,
    };
    match lista {
        Some(l) => if l.len() > 0 {
            texto_ou_padrao(texto_do_membro(&l[0], "url"), "")
        } else {
            String::new()
        },
        None => String::new(),
    }
}

/// The path that a server URL gives (see `caminho_limpo`).
pub fn limpar_caminho(bruto: &str) -> (r: String)
    ensures
        r@ == caminho_limpo(bruto@),
{
    proof {
        reveal_strlit("{host}");
        reveal_strlit("{port}");
        reveal_strlit("");
    }
    let n = bruto.unicode_len();
    let base: &str = if contem_texto(bruto, "://") {
        match encontrar(bruto, "/sap") {
            Some(i) => bruto.substring_char(i, n),
            None => "",
        }
    } else {
        bruto
    };
    assert(base@ == if contem(bruto@, "://"@) {
        if contem(bruto@, "/sap"@) {
            bruto@.skip(posicao(bruto@, "/sap"@))
        } else {
            Seq::empty()
        }
    } else {
        bruto@
    });
    let sem_host = remover_todos(base, "{host}");
    remover_todos(sem_host.as_str(), "{port}")
}

/// The URL of a call (see `url_da_chamada`).
pub fn montar_url(host: &str, api: &Json, rota: &str) -> (r: String)
    ensures
        r@ == url_da_chamada(host@, *api, rota@),
{
    let base = aparar_fim(host, '/');
    let caminho = limpar_caminho(caminho_do_servidor_exec(api).as_str());
    let caminho = aparar_fim(caminho.as_str(), '/');
    let r = juntar(juntar(base, caminho).as_str(), rota);
    r
}


/// The operation chosen among those of a route, in upper case, and its
/// fields (see `campos_da_operacao`, which takes it in lower case again).
pub fn preparar_campos(json: &Json, rota: &str, metodo_escolhido: &str) -> (r: (String, Vec<Campo>))
    ensures
        r.0@ == maiusculas(metodo_escolhido@),
        vista_campos(r.1@) == campos_da_operacao(*json, rota@, minusculas(maiusculas(metodo_escolhido@))),
{
    let metodo = para_maiusculas(metodo_escolhido);
    let campos = mapear_com_tipos(json, rota, metodo.as_str());
    (metodo, campos)
}


/// Only a request body with `application/json` content gives body fields:
/// where the operation has no request body, or one without such content,
/// its fields are the query options of a `get` and its parameters alone,
/// as they would be with the request body taken away.
pub proof fn lema_so_corpo_json(json: Json, rota: Seq<char>, metodo: Seq<char>, op: Json)
    requires
        operacao(json, rota, metodo) == Some(op),
        match op.membro("requestBody"@) {
            Some(rb) => match rb.membro("content"@) {
                Some(c) => c.membro("application/json"@) is None,
                None => true,
            },
            None => true,
        },
    ensures
        esquema_do_corpo(op) is None,
        campos_do_corpo(json, op) == Seq::<(Seq<char>, Seq<char>, Seq<char>)>::empty(),
        campos_da_operacao(json, rota, metodo) == campos_padrao(metodo) + campos_de_parametros(op),
{
    assert(campos_de_parametros(op) + campos_do_corpo(json, op) =~= campos_de_parametros(op));
}


/// Where the operation's `application/json` schema has no `$ref`, the
/// fields of the operation end with one body field for each member of that
/// schema's own `properties`, in their order, named after the member and of
/// its `type` (or `string`).
pub proof fn lema_esquema_em_linha(
    json: Json,
    rota: Seq<char>,
    metodo: Seq<char>,
    op: Json,
    rb: Json,
    conteudo: Json,
    tipo_json: Json,
    esquema: Json,
    props: Json,
    ps: Seq<(String, Json)>,
)
    requires
        json.indice("paths"@).indice(rota).membro(metodo) == Some(op),
        op.membro("requestBody"@) == Some(rb),
        rb.membro("content"@) == Some(conteudo),
        conteudo.membro("application/json"@) == Some(tipo_json),
        tipo_json.membro("schema"@) == Some(esquema),
        esquema.membro("$ref"@) is None,
        esquema.membro("properties"@) == Some(props),
        props.objeto_de() == Some(ps),
    ensures
        ({
            let r = campos_da_operacao(json, rota, metodo);
            &&& r.len() >= ps.len()
            &&& forall|k: int|
                0 <= k < ps.len() ==> #[trigger] r[r.len() - ps.len() + k] == (
                    ps[k].0@,
                    match ps[k].1.indice("type"@).texto_de() {
                        Some(t) => t,
                        None => "string"@,
                    },
                    "BODY"@,
                )
        }),
{
    let r = campos_da_operacao(json, rota, metodo);
    let corpo = ps.map_values(|m: (String, Json)| campo_de_propriedade(m));
    assert(campos_do_corpo(json, op) == corpo);
    let antes = campos_padrao(metodo) + campos_de_parametros(op);
    assert(r =~= antes + corpo);
    assert forall|k: int| 0 <= k < ps.len() implies #[trigger] r[r.len() - ps.len() + k] == (
        ps[k].0@,
        match ps[k].1.indice("type"@).texto_de() {
            Some(t) => t,
            None => "string"@,
        },
        "BODY"@,
    ) by {
        assert(r[r.len() - ps.len() + k] == corpo[k]);
    }
}


/// The fields of a `get` begin with the query options `$filter`, `$top`
/// and `$select`, and those of any operation go on with one field for each
/// of its parameters, in order: named after its `name` (or nothing), of its
/// `type` or that of its `schema` (or `string`), and placed by its `in` (or
/// `query`) in upper case.
pub proof fn lema_campos_de_parametros(json: Json, rota: Seq<char>, metodo: Seq<char>, op: Json, ps: Seq<Json>)
    requires
        json.indice("paths"@).indice(rota).membro(metodo) == Some(op),
    ensures
        ({
            let r = campos_da_operacao(json, rota, metodo);
            let inicio: int = if metodo == "get"@ { 3 } else { 0 };
            &&& metodo == "get"@ ==> r.len() >= 3 && r[0] == ("$filter"@, "string"@, "QUERY"@) && r[1] == (
                "$top"@,
                "integer"@,
                "QUERY"@,
            ) && r[2] == ("$select"@, "string"@, "QUERY"@)
            &&& op.indice("parameters"@).lista_de() == Some(ps) ==> r.len() >= inicio + ps.len() && forall|k: int|
                0 <= k < ps.len() ==> #[trigger] r[inicio + k] == (
                    match ps[k].indice("name"@).texto_de() {
                        Some(t) => t,
                        None => Seq::empty(),
                    },
                    match ps[k].indice("type"@).texto_de() {
                        Some(t) => t,
                        None => match ps[k].indice("schema"@).indice("type"@).texto_de() {
                            Some(t) => t,
                            None => "string"@,
                        },
                    },
                    maiusculas(
                        match ps[k].indice("in"@).texto_de() {
                            Some(t) => t,
                            None => "query"@,
                        },
                    ),
                )
        }),
{
    let r = campos_da_operacao(json, rota, metodo);
    let padrao = campos_padrao(metodo);
    assert(r =~= padrao + (campos_de_parametros(op) + campos_do_corpo(json, op)));
    if op.indice("parameters"@).lista_de() == Some(ps) {
        let cp = campos_de_parametros(op);
        assert forall|k: int| 0 <= k < ps.len() implies #[trigger] r[padrao.len() + k] == campo_de_parametro(ps[k]) by {
            assert(r[padrao.len() + k] == cp[k]);
        }
    }
}

/// Where the operation's `application/json` schema has a `$ref` that names
/// a schema, the fields end with one body field for each member of the
/// `properties` of the schema named.
pub proof fn lema_esquema_por_ref(
    json: Json,
    rota: Seq<char>,
    metodo: Seq<char>,
    op: Json,
    rb: Json,
    conteudo: Json,
    tipo_json: Json,
    esquema: Json,
    caminho: Seq<char>,
    alvo: Json,
    ps: Seq<(String, Json)>,
)
    requires
        json.indice("paths"@).indice(rota).membro(metodo) == Some(op),
        op.membro("requestBody"@) == Some(rb),
        rb.membro("content"@) == Some(conteudo),
        conteudo.membro("application/json"@) == Some(tipo_json),
        tipo_json.membro("schema"@) == Some(esquema),
        esquema.membro("$ref"@).is_some() && esquema.membro("$ref"@).unwrap().texto_de() == Some(caminho),
        seguir(json, pedacos(caminho, '/')) == Some(alvo),
        alvo.membro("properties"@).is_some() && alvo.membro("properties"@).unwrap().objeto_de() == Some(ps),
    ensures
        ({
            let r = campos_da_operacao(json, rota, metodo);
            &&& r.len() >= ps.len()
            &&& forall|k: int|
                0 <= k < ps.len() ==> #[trigger] r[r.len() - ps.len() + k] == (
                    ps[k].0@,
                    match ps[k].1.indice("type"@).texto_de() {
                        Some(t) => t,
                        None => "string"@,
                    },
                    "BODY"@,
                )
        }),
{
    let r = campos_da_operacao(json, rota, metodo);
    let corpo = ps.map_values(|m: (String, Json)| campo_de_propriedade(m));
    assert(alvo_do_esquema(json, esquema) == alvo);
    assert(campos_do_corpo(json, op) == corpo);
    assert(r =~= (campos_padrao(metodo) + campos_de_parametros(op)) + corpo);
    assert forall|k: int| 0 <= k < ps.len() implies #[trigger] r[r.len() - ps.len() + k] == (
        ps[k].0@,
        match ps[k].1.indice("type"@).texto_de() {
            Some(t) => t,
            None => "string"@,
        },
        "BODY"@,
    ) by {
        assert(r[r.len() - ps.len() + k] == corpo[k]);
    }
}

} // verus!
