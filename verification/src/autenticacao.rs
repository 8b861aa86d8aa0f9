//! The connection settings of an environment and the authorization header
//! that they give.

use base64::Engine;
use vstd::prelude::*;
use vstd::utf8::encode_utf8;
use crate::caixa::{minusculas, para_minusculas};
use crate::texto::{iguais, juntar};

verus! {

/// The connection settings of an environment (its `ambiente.json`).
#[derive(Debug, PartialEq)]
pub struct Ambiente {
    pub host: String,
    pub base_path: Option<String>,
    pub auth_type: String,
    pub username: Option<String>,
    pub password: Option<String>,
    pub token: Option<String>,
}

/// The text held, or nothing.
pub open spec fn ou_vazio(o: Option<String>) -> Seq<char> {
    match o {
        Some(s) => s@,
        None => Seq::empty(),
    }
}

/// The character of the standard base64 alphabet (`A`–`Z`, `a`–`z`,
/// `0`–`9`, `+`, `/`) for the six-bit value `v`.
pub open spec fn letra_base64(v: int) -> char {
    if v < 26 {
        (65 + v) as char
    } else if v < 52 {
        (97 + v - 26) as char
    } else if v < 62 {
        (48 + v - 52) as char
    } else if v == 62 {
        '+'
    } else {
        '/'
    }
}

/// The standard base64 text of `b`, padded with `=`: each group of three
/// bytes gives four characters of six bits each, and a last group of one or
/// two bytes gives two or three characters followed by `=`s up to four.
pub open spec fn base64_padrao(b: Seq<u8>) -> Seq<char>
    decreases b.len(),
{
    if b.len() == 0 {
        Seq::empty()
    } else if b.len() == 1 {
        let x = b[0] as int;
        seq![letra_base64(x / 4), letra_base64((x % 4) * 16), '=', '=']
    } else if b.len() == 2 {
        let x = b[0] as int;
        let y = b[1] as int;
        seq![letra_base64(x / 4), letra_base64((x % 4) * 16 + y / 16), letra_base64((y % 16) * 4), '=']
    } else {
        let x = b[0] as int;
        let y = b[1] as int;
        let z = b[2] as int;
        seq![
            letra_base64(x / 4),
            letra_base64((x % 4) * 16 + y / 16),
            letra_base64((y % 16) * 4 + z / 64),
            letra_base64(z % 64),
        ] + base64_padrao(b.skip(3))
    }
}

/// The length of the padded base64 text of `n` bytes.
pub open spec fn tamanho_base64(n: nat) -> nat {
    4 * ((n + 2) / 3)
}

/// Calls `base64::engine::general_purpose::STANDARD.encode`. Its contract
/// claims that the result is the standard padded base64 text of the bytes
/// (`base64_padrao`): the `STANDARD` engine uses the standard alphabet with
/// padding. The crate panics where the length of that text, as its
/// `encoded_len` computes it, does not fit in a `usize`, which `requires`
/// leaves out.
#[verifier::external_body]
fn codificar_base64(bytes: &[u8]) -> (r: String)
    requires
        tamanho_base64(bytes@.len()) <= usize::MAX,
    ensures
        r@ == base64_padrao(bytes@),
{
    base64::engine::general_purpose::STANDARD.encode(bytes)
}

/// The base64 text of `n` bytes has four characters for each started group
/// of three bytes.
pub proof fn lema_tamanho_base64(b: Seq<u8>)
    ensures
        base64_padrao(b).len() == tamanho_base64(b.len()),
    decreases b.len(),
{
    if b.len() > 2 {
        lema_tamanho_base64(b.skip(3));
    }
}

/// The `user:password` text of an environment, a missing part left empty.
pub open spec fn credenciais(amb: Ambiente) -> Seq<char> {
    ou_vazio(amb.username) + ":"@ + ou_vazio(amb.password)
}

/// The value of a basic authorization header for the encoded credentials.
pub open spec fn com_basic(codificado: Seq<char>) -> Seq<char> {
    "Basic "@ + codificado
}

/// The value of a bearer authorization header for a token.
pub open spec fn com_bearer(token: Seq<char>) -> Seq<char> {
    "Bearer "@ + token
}

/// The authorization header of an environment: basic with its credentials
/// in base64 where its `auth_type` is `basic` in any case, else bearer with
/// its token.
pub open spec fn cabecalho_auth(amb: Ambiente) -> Seq<char> {
    cabecalho_com_tipo(minusculas(amb.auth_type@), amb)
}

/// The authorization header of an environment, given its `auth_type` in
/// lower case.
pub open spec fn cabecalho_com_tipo(tipo: Seq<char>, amb: Ambiente) -> Seq<char> {
    if tipo == "basic"@ {
        com_basic(base64_padrao(encode_utf8(credenciais(amb))))
    } else {
        com_bearer(ou_vazio(amb.token))
    }
}

fn texto_ou_vazio(o: &Option<String>) -> (r: String)
    ensures
        r@ == ou_vazio(*o),
{
    match o {
        Some(s) => s.clone(),
        None => String::new(),
    }
}

/// The `user:password` text of an environment.
pub fn montar_credenciais(amb: &Ambiente) -> (r: String)
    ensures
        r@ == credenciais(*amb),
{
    let usuario = texto_ou_vazio(&amb.username);
    let senha = texto_ou_vazio(&amb.password);
    let r = juntar(juntar(usuario.as_str(), ":").as_str(), senha.as_str());
    r
}

/// The value of a basic authorization header for already encoded credentials.
pub fn cabecalho_basic(codificado: &str) -> (r: String)
    ensures
        r@ == com_basic(codificado@),
{
    juntar("Basic ", codificado)
}

/// The value of a bearer authorization header for a token.
pub fn cabecalho_bearer(token: &str) -> (r: String)
    ensures
        r@ == com_bearer(token@),
{
    juntar("Bearer ", token)
}

/// The authorization header of an environment (see `cabecalho_auth`).
pub fn montar_auth(amb: &Ambiente) -> (r: String)
    requires
        tamanho_base64(encode_utf8(credenciais(*amb)).len()) <= usize::MAX,
    ensures
        r@ == cabecalho_auth(*amb),
{
    let tipo = para_minusculas(amb.auth_type.as_str());
    cabecalho_para_tipo(tipo.as_str(), amb)
}

/// The authorization header of an environment, given its `auth_type` in
/// lower case (see `cabecalho_com_tipo`).
pub fn cabecalho_para_tipo(tipo: &str, amb: &Ambiente) -> (r: String)
    requires
        tamanho_base64(encode_utf8(credenciais(*amb)).len()) <= usize::MAX,
    ensures
        r@ == cabecalho_com_tipo(tipo@, *amb),
{
    if iguais(tipo, "basic") {
        let creds = montar_credenciais(amb);
        let codificado = codificar_base64(creds.as_str().as_bytes());
        cabecalho_basic(codificado.as_str())
    } else {
        let token = texto_ou_vazio(&amb.token);
        cabecalho_bearer(token.as_str())
    }
}


/// Whether the base64 text of the credentials of an environment has a
/// length that fits in a `usize`, as encoding them demands.
pub fn credenciais_cabem(amb: &Ambiente) -> (r: bool)
    ensures
        r == (tamanho_base64(encode_utf8(credenciais(*amb)).len()) <= usize::MAX),
{
    let creds = montar_credenciais(amb);
    let n = creds.as_str().as_bytes().len();
    let grupos = n / 3 + if n % 3 > 0 { 1 } else { 0 };
    assert(grupos == (n + 2) / 3);
    grupos <= usize::MAX / 4
}

} // verus!
