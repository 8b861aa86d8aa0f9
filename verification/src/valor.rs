//! The JSON value that a text typed by the user becomes.

use vstd::prelude::*;
use crate::caixa::{minusculas, para_minusculas};
use crate::json::{Json, Numero};
use crate::numero::{i64_escrito, ler_i64};
use crate::texto::iguais;

verus! {

/// The texts that stand for "yes" once in lower case.
pub open spec fn eh_sim(s: Seq<char>) -> bool {
    s == "true"@ || s == "x"@ || s == "s"@ || s == "1"@
}

/// The types of the service description that hold numbers.
pub open spec fn eh_tipo_numerico(tipo: Seq<char>) -> bool {
    tipo == "integer"@ || tipo == "number"@ || tipo == "int32"@ || tipo == "int64"@
}

/// What a text typed for a field of the type `tipo` becomes: nothing for an
/// empty text; for `boolean` whether it reads "yes"; for a numeric type the
/// `i64` that it writes, or the text itself; for any other type the text.
pub open spec fn valor_tipado(valor: String, tipo: Seq<char>) -> Json {
    if valor@.len() == 0 {
        Json::Nulo
    } else if tipo == "boolean"@ {
        Json::Logico(eh_sim(minusculas(valor@)))
    } else if eh_tipo_numerico(tipo) {
        match i64_escrito(valor@) {
            Some(n) => Json::Numero(Numero::Inteiro(n)),
            None => Json::Texto(valor),
        }
    } else {
        Json::Texto(valor)
    }
}

/// Whether a text already in lower case reads "yes" (see `eh_sim`).
pub fn le_sim(minusculo: &str) -> (r: bool)
    ensures
        r == eh_sim(minusculo@),
{
    iguais(minusculo, "true") || iguais(minusculo, "x") || iguais(minusculo, "s") || iguais(minusculo, "1")
}

/// What a text typed for a field of the type `tipo` becomes (see `valor_tipado`).
pub fn tipar_valor(valor: String, tipo: &str) -> (r: Json)
    ensures
        r == valor_tipado(valor, tipo@),
{
    if valor.as_str().is_empty() {
        return Json::Nulo;
    }
    if iguais(tipo, "boolean") {
        let v = para_minusculas(valor.as_str());
        return Json::Logico(le_sim(v.as_str()));
    }
    if iguais(tipo, "integer") || iguais(tipo, "number") || iguais(tipo, "int32") || iguais(tipo, "int64") {
        match ler_i64(valor.as_str()) {
            Some(n) => Json::Numero(Numero::Inteiro(n)),
            None => Json::Texto(valor),
        }
    } else {
        Json::Texto(valor)
    }
}

/// What a text typed on the review screen becomes, its type guessed: `true`
/// or `false` in any case, else the `i64` that it writes, else the text.
pub open spec fn valor_inferido(v: String) -> Json {
    valor_inferido_com(minusculas(v@), v)
}

/// What a text typed on the review screen becomes, given its lower case form.
pub open spec fn valor_inferido_com(minusculo: Seq<char>, v: String) -> Json {
    if minusculo == "true"@ {
        Json::Logico(true)
    } else if minusculo == "false"@ {
        Json::Logico(false)
    } else {
        match i64_escrito(v@) {
            Some(n) => Json::Numero(Numero::Inteiro(n)),
            None => Json::Texto(v),
        }
    }
}

/// What a text typed on the review screen becomes (see `valor_inferido`).
pub fn inferir_valor(v: String) -> (r: Json)
    ensures
        r == valor_inferido(v),
{
    let baixo = para_minusculas(v.as_str());
    inferir_de_minusculas(baixo.as_str(), v)
}

/// What a text typed on the review screen becomes, given its lower case
/// form (see `valor_inferido_com`).
pub fn inferir_de_minusculas(minusculo: &str, v: String) -> (r: Json)
    ensures
        r == valor_inferido_com(minusculo@, v),
{
    if iguais(minusculo, "true") {
        Json::Logico(true)
    } else if iguais(minusculo, "false") {
        Json::Logico(false)
    } else {
        match ler_i64(v.as_str()) {
            Some(n) => Json::Numero(Numero::Inteiro(n)),
            None => Json::Texto(v),
        }
    }
}


/// A non-empty text typed for a field of type `integer`, `number`, `int32`
/// or `int64` that writes an `i64` becomes that JSON number.
pub proof fn lema_tipo_numerico(valor: String, tipo: Seq<char>, n: i64)
    requires
        tipo == "integer"@ || tipo == "number"@ || tipo == "int32"@ || tipo == "int64"@,
        i64_escrito(valor@) == Some(n),
    ensures
        valor_tipado(valor, tipo) == Json::Numero(Numero::Inteiro(n)),
{
    reveal_strlit("integer");
    reveal_strlit("number");
    reveal_strlit("int32");
    reveal_strlit("int64");
    reveal_strlit("boolean");
    assert(valor@.len() > 0);
    assert(tipo.len() > 0 && tipo[0] != 'b');
    assert("boolean"@[0] == 'b');
    assert(tipo != "boolean"@);
}

/// A guessed value is a JSON boolean only for the text `true` or `false`
/// once in lower case; any other text that writes an `i64` becomes that
/// number, and any other text stays text.
pub proof fn lema_palpite(minusculo: Seq<char>, v: String)
    ensures
        valor_inferido_com(minusculo, v) matches Json::Logico(b) ==> (b && minusculo == "true"@) || (!b
            && minusculo == "false"@),
        minusculo != "true"@ && minusculo != "false"@ ==> match i64_escrito(v@) {
            Some(n) => valor_inferido_com(minusculo, v) == Json::Numero(Numero::Inteiro(n)),
            None => valor_inferido_com(minusculo, v) == Json::Texto(v),
        },
{
}


/// A non-empty text typed for a `boolean` field becomes `true` exactly where
/// it reads `true`, `x`, `s` or `1` once in lower case, and `false` otherwise.
pub proof fn lema_tipo_booleano(valor: String)
    requires
        valor@.len() > 0,
    ensures
        valor_tipado(valor, "boolean"@) == Json::Logico(
            minusculas(valor@) == "true"@ || minusculas(valor@) == "x"@ || minusculas(valor@) == "s"@
                || minusculas(valor@) == "1"@,
        ),
{
}

/// A typed value is null exactly for an empty text, and a non-empty text
/// typed for a field of any type but `boolean`, `integer`, `number`,
/// `int32` and `int64` stays that text.
pub proof fn lema_tipo_texto(valor: String, tipo: Seq<char>)
    ensures
        (valor_tipado(valor, tipo) is Nulo) == (valor@.len() == 0),
        valor@.len() > 0 && tipo != "boolean"@ && tipo != "integer"@ && tipo != "number"@ && tipo
            != "int32"@ && tipo != "int64"@ ==> valor_tipado(valor, tipo) == Json::Texto(valor),
{
}

} // verus!
