//! The grid in which a list of records is shown: at most eight columns, from
//! the first record, at most twenty-five rows, and cells of at most thirty
//! bytes.

use vstd::prelude::*;
use vstd::utf8::{decode_utf8, encode_utf8, is_char_boundary};
use crate::json::{Json, apontado};
use crate::swagger::nomes_dos_membros;
use crate::texto::{comeca, comeca_com, juntar, remover_todos, sem_ocorrencias};

verus! {

/// The first `limite` of `nomes` that do not start with `__`.
pub open spec fn colunas_visiveis(nomes: Seq<Seq<char>>, limite: nat) -> Seq<Seq<char>>
    decreases nomes.len(),
{
    if nomes.len() == 0 || limite == 0 {
        Seq::empty()
    } else if comeca(nomes[0], "__"@) {
        colunas_visiveis(nomes.drop_first(), limite)
    } else {
        seq![nomes[0]] + colunas_visiveis(nomes.drop_first(), (limite - 1) as nat)
    }
}

/// The columns of the grid: the first eight member names of the first
/// record that do not start with `__`; none where the first record is no
/// object or there is none.
pub open spec fn colunas_de(lista: Seq<Json>) -> Option<Seq<Seq<char>>> {
    if lista.len() > 0 {
        match lista[0].objeto_de() {
            Some(m) => Some(colunas_visiveis(nomes_dos_membros(m), 8)),
            None => None,
        }
    } else {
        None
    }
}

/// The columns of the grid (see `colunas_de`).
pub fn colunas_da_tabela(lista: &Vec<Json>) -> (r: Option<Vec<String>>)
    ensures
        match r {
            Some(c) => colunas_de(lista@) == Some(c.deep_view()),
            None => colunas_de(lista@) is None,
        },
{
    proof {
        reveal_strlit("__");
    }
    if lista.len() == 0 {
        return None;
    }
    let membros = match lista[0].objeto_exec() {
        Some(m) => m,
        None => {
            return None;
        },
    };
    let ghost nomes = nomes_dos_membros(membros@);
    let mut r: Vec<String> = Vec::new();
    let n = membros.len();
    let mut i: usize = 0;
    assert(nomes.skip(0) =~= nomes);
    assert(r.deep_view() =~= Seq::<Seq<char>>::empty());
    while i < n && r.len() < 8
        invariant
            n == membros@.len(),
            nomes == nomes_dos_membros(membros@),
            i <= n,
            r.len() <= 8,
            r.deep_view() + colunas_visiveis(nomes.skip(i as int), (8 - r.len()) as nat)
                == colunas_visiveis(nomes, 8),
        decreases n - i,
    {
        let ghost resto = nomes.skip(i as int);
        assert(resto[0] == membros@[i as int].0@);
        assert(resto.drop_first() =~= nomes.skip(i + 1));
        if !comeca_com(membros[i].0.as_str(), "__") {
            let ghost antes = r.deep_view();
            r.push(membros[i].0.clone());
            assert(r.deep_view() =~= antes.push(resto[0]));
            assert(r.deep_view() + colunas_visiveis(nomes.skip(i + 1), (8 - r.len()) as nat) =~= antes
                + colunas_visiveis(resto, (8 - antes.len()) as nat));
        }
        i += 1;
    }
    if i == n {
        assert(nomes.skip(i as int) =~= Seq::<Seq<char>>::empty());
    }
    assert(r.deep_view() =~= colunas_visiveis(nomes, 8));
    Some(r)
}

/// The number of rows of the grid for a list of `n` records.
pub open spec fn quantas_linhas(n: nat) -> nat {
    if n < 25 {
        n
    } else {
        25
    }
}

/// The cells of the grid: for each of the first twenty-five records, its
/// member of the name of each column, where it has one.
pub fn linhas_da_tabela<'a>(lista: &'a Vec<Json>, colunas: &Vec<String>) -> (r: Vec<Vec<Option<&'a Json>>>)
    ensures
        r.len() == quantas_linhas(lista.len() as nat),
        forall|i: int| 0 <= i < r.len() ==> #[trigger] r[i].len() == colunas.len(),
        forall|i: int, j: int|
            0 <= i < r.len() && 0 <= j < colunas.len() ==> apontado(#[trigger] r[i][j])
                == lista[i].membro(colunas[j]@),
{
    let total: usize = if lista.len() < 25 { lista.len() } else { 25 };
    let mut r: Vec<Vec<Option<&'a Json>>> = Vec::new();
    let mut i: usize = 0;
    while i < total
        invariant
            total == quantas_linhas(lista.len() as nat),
            total <= lista.len(),
            i <= total,
            r.len() == i,
            forall|a: int| 0 <= a < r.len() ==> #[trigger] r[a].len() == colunas.len(),
            forall|a: int, b: int|
                0 <= a < r.len() && 0 <= b < colunas.len() ==> apontado(#[trigger] r[a][b])
                    == lista[a].membro(colunas[b]@),
        decreases total - i,
    {
        let item = &lista[i];
        let mut linha: Vec<Option<&'a Json>> = Vec::new();
        let mut j: usize = 0;
        while j < colunas.len()
            invariant
                j <= colunas.len(),
                linha.len() == j,
                i < lista.len(),
                *item == lista[i as int],
                forall|b: int| 0 <= b < j ==> apontado(#[trigger] linha[b]) == lista[i as int].membro(colunas[b]@),
            decreases colunas.len() - j,
        {
            linha.push(item.membro_exec(colunas[j].as_str()));
            j += 1;
        }
        r.push(linha);
        i += 1;
    }
    r
}

/// The text of a cell: the JSON text of its value without its `"` marks,
/// or nothing for a member that is missing.
pub open spec fn texto_da_celula(json: Option<Seq<char>>) -> Seq<char> {
    match json {
        Some(t) => sem_ocorrencias(t, "\""@),
        None => Seq::empty(),
    }
}

/// The text of a cell for the JSON text of its value, where the record has
/// the member (see `texto_da_celula`).
pub fn texto_celula(json: Option<&str>) -> (r: String)
    ensures
        r@ == texto_da_celula(
            match json {
                Some(t) => Some(t@),
                None => None,
            },
        ),
{
    proof {
        reveal_strlit("\"");
    }
    match json {
        Some(t) => remover_todos(t, "\""),
        None => String::new(),
    }
}

/// A text can be shortened as the grid shortens it: it has at most thirty
/// bytes, or its 28th byte starts a character.
pub open spec fn encurtavel(v: Seq<char>) -> bool {
    encode_utf8(v).len() > 30 ==> is_char_boundary(encode_utf8(v), 27)
}

/// The text shown in a cell: a text of more than thirty bytes is cut to
/// its first twenty-seven bytes, followed by `...`.
pub open spec fn celula_curta(v: Seq<char>) -> Seq<char> {
    if encode_utf8(v).len() > 30 {
        decode_utf8(encode_utf8(v).subrange(0, 27)) + "..."@
    } else {
        v
    }
}

/// Whether a text can be shortened as the grid shortens it (see `encurtavel`).
pub fn pode_encurtar(v: &str) -> (r: bool)
    ensures
        r == encurtavel(v@),
{
    v.as_bytes().len() <= 30 || v.is_char_boundary(27)
}

/// The text shown in a cell (see `celula_curta`).
pub fn encurtar_celula(v: String) -> (r: String)
    requires
        encurtavel(v@),
    ensures
        r@ == celula_curta(v@),
{
    if v.as_str().as_bytes().len() > 30 {
        let (inicio, _) = v.as_str().split_at(27);
        proof {
            vstd::utf8::encode_utf8_decode_utf8(inicio@);
        }
        juntar(inicio, "...")
    } else {
        v
    }
}


/// The grid has at most `limite` columns, each a name of the record that
/// does not start with `__`.
pub proof fn lema_colunas_visiveis(nomes: Seq<Seq<char>>, limite: nat)
    ensures
        colunas_visiveis(nomes, limite).len() <= limite,
        forall|i: int|
            0 <= i < colunas_visiveis(nomes, limite).len() ==> !comeca(
                #[trigger] colunas_visiveis(nomes, limite)[i],
                "__"@,
            ) && nomes.contains(colunas_visiveis(nomes, limite)[i]),
    decreases nomes.len(),
{
    if nomes.len() > 0 && limite > 0 {
        let resto = nomes.drop_first();
        if comeca(nomes[0], "__"@) {
            lema_colunas_visiveis(resto, limite);
            assert forall|i: int| 0 <= i < colunas_visiveis(nomes, limite).len() implies nomes.contains(
                colunas_visiveis(nomes, limite)[i],
            ) by {
                let j = choose|j: int| 0 <= j < resto.len() && resto[j] == colunas_visiveis(nomes, limite)[i];
                assert(nomes[j + 1] == resto[j]);
            }
        } else {
            lema_colunas_visiveis(resto, (limite - 1) as nat);
            let r = colunas_visiveis(nomes, limite);
            let cauda = colunas_visiveis(resto, (limite - 1) as nat);
            assert forall|i: int| 0 <= i < r.len() implies !comeca(#[trigger] r[i], "__"@) && nomes.contains(
                r[i],
            ) by {
                if i == 0 {
                    assert(nomes[0] == r[0]);
                } else {
                    assert(r[i] == cauda[i - 1]);
                    let j = choose|j: int| 0 <= j < resto.len() && resto[j] == cauda[i - 1];
                    assert(nomes[j + 1] == resto[j]);
                }
            }
        }
    }
}


proof fn lema_utf8_concatena(a: Seq<char>, b: Seq<char>)
    ensures
        encode_utf8(a + b) == encode_utf8(a) + encode_utf8(b),
    decreases a.len(),
{
    if a.len() == 0 {
        assert(a + b =~= b);
        assert(encode_utf8(a) + encode_utf8(b) =~= encode_utf8(b));
    } else {
        assert((a + b).drop_first() =~= a.drop_first() + b);
        lema_utf8_concatena(a.drop_first(), b);
        assert(encode_utf8(a + b) =~= encode_utf8(a) + encode_utf8(b));
    }
}

/// The text shown in a cell holds at most thirty bytes.
pub proof fn lema_celula_cabe(v: Seq<char>)
    requires
        encurtavel(v),
    ensures
        encode_utf8(celula_curta(v)).len() <= 30,
{
    reveal_strlit("...");
    let b = encode_utf8(v);
    if b.len() > 30 {
        vstd::utf8::encode_utf8_valid_utf8(v);
        vstd::utf8::valid_utf8_split(b, 27);
        vstd::utf8::decode_utf8_encode_utf8(b.subrange(0, 27));
        lema_utf8_concatena(decode_utf8(b.subrange(0, 27)), "..."@);
        assert(encode_utf8("..."@).len() == 3) by {
            reveal_with_fuel(encode_utf8, 4);
        }
    }
}

} // verus!
