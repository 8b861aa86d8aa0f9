//! The decisions between the steps of a session: how a call is sent, what
//! the screen of the answer does next, and where the file browser goes.

use vstd::prelude::*;
use crate::texto::iguais;

verus! {

/// The HTTP verb of a call.
#[derive(Debug, Clone, Copy, PartialEq, Eq)]
pub enum Verbo {
    Get,
    Post,
    Put,
    Patch,
    Delete,
}

/// The verb that the method of a call names; any method but `POST`, `PUT`,
/// `PATCH` and `DELETE` is sent as `GET`.
pub open spec fn verbo_de(metodo: Seq<char>) -> Verbo {
    if metodo == "POST"@ {
        Verbo::Post
    } else if metodo == "PUT"@ {
        Verbo::Put
    } else if metodo == "PATCH"@ {
        Verbo::Patch
    } else if metodo == "DELETE"@ {
        Verbo::Delete
    } else {
        Verbo::Get
    }
}

/// The verb that the method of a call names (see `verbo_de`).
pub fn verbo_http(metodo: &str) -> (r: Verbo)
    ensures
        r == verbo_de(metodo@),
{
    if iguais(metodo, "POST") {
        Verbo::Post
    } else if iguais(metodo, "PUT") {
        Verbo::Put
    } else if iguais(metodo, "PATCH") {
        Verbo::Patch
    } else if iguais(metodo, "DELETE") {
        Verbo::Delete
    } else {
        Verbo::Get
    }
}

/// Whether a call of this verb carries the JSON body.
pub fn leva_corpo(v: &Verbo) -> (r: bool)
    ensures
        r == (v is Post || v is Put || v is Patch),
{
    match v {
        Verbo::Post | Verbo::Put | Verbo::Patch => true,
        _ => false,
    }
}

/// Whether a call of this method is not a `GET`: its body is shown on the
/// review screen and a CSRF token is fetched before it is sent.
pub fn nao_eh_get(metodo: &str) -> (r: bool)
    ensures
        r == (metodo@ != "GET"@),
{
    !iguais(metodo, "GET")
}

/// What the screen of the answer is asked to do.
#[derive(Debug, PartialEq)]
pub enum AcaoResposta {
    VerTabela,
    VerJson,
    Salvar { nome: String },
    Sair,
}

/// What follows on the screen of the answer.
#[derive(Debug, PartialEq)]
pub enum PassoResposta {
    MostrarTabela,
    MostrarJson,
    GravarESair { nome: String },
    Sair,
}

/// What follows an action on the screen of the answer: saving under a name
/// that is not empty saves the call, and saving ends the screen either way.
pub fn decidir_resposta(acao: AcaoResposta) -> (r: PassoResposta)
    ensures
        match acao {
            AcaoResposta::VerTabela => r is MostrarTabela,
            AcaoResposta::VerJson => r is MostrarJson,
            AcaoResposta::Salvar { nome } => if nome@.len() == 0 {
                r is Sair
            } else {
                r == PassoResposta::GravarESair { nome }
            },
            AcaoResposta::Sair => r is Sair,
        },
{
    match acao {
        AcaoResposta::VerTabela => PassoResposta::MostrarTabela,
        AcaoResposta::VerJson => PassoResposta::MostrarJson,
        AcaoResposta::Salvar { nome } => if nome.as_str().is_empty() {
            PassoResposta::Sair
        } else {
            PassoResposta::GravarESair { nome }
        },
        AcaoResposta::Sair => PassoResposta::Sair,
    }
}

/// Where the file browser goes.
#[derive(Debug, PartialEq)]
pub enum Navegacao {
    Voltar,
    Entrar { nome: String },
}

/// The entry of the file browser that goes up one directory.
pub open spec fn entrada_voltar() -> Seq<char> {
    ".. (Voltar)"@
}

/// Where the file browser goes for the entry chosen: up for `.. (Voltar)`,
/// else into (or onto) the entry of that name.
pub fn escolha_de_arquivo(escolha: String) -> (r: Navegacao)
    ensures
        if escolha@ == entrada_voltar() {
            r is Voltar
        } else {
            r == Navegacao::Entrar { nome: escolha }
        },
{
    if iguais(escolha.as_str(), ".. (Voltar)") {
        Navegacao::Voltar
    } else {
        Navegacao::Entrar { nome: escolha }
    }
}

} // verus!
