use se37like::numero::ler_i64;
use se37like::ordem::{comparar, ordenar, vem_antes, Comparacao};
use se37like::texto::{
    aparar_fim, comeca_com, contem_texto, dividir, encontrar, iguais, juntar, ocorre_na_posicao,
    remover_todos,
};

#[test]
fn ler_i64_aceita_digitos_com_sinal() {
    assert_eq!(ler_i64("123"), Some(123));
    assert_eq!(ler_i64("+5"), Some(5));
    assert_eq!(ler_i64("-42"), Some(-42));
    assert_eq!(ler_i64("007"), Some(7));
    assert_eq!(ler_i64("-0"), Some(0));
}

#[test]
fn ler_i64_nos_limites() {
    assert_eq!(ler_i64("9223372036854775807"), Some(i64::MAX));
    assert_eq!(ler_i64("-9223372036854775808"), Some(i64::MIN));
    assert_eq!(ler_i64("9223372036854775808"), None);
    assert_eq!(ler_i64("-9223372036854775809"), None);
    assert_eq!(ler_i64("000000000000000000000000000001"), Some(1));
    assert_eq!(ler_i64("99999999999999999999999999999999"), None);
}

#[test]
fn ler_i64_recusa_o_que_nao_e_numero() {
    assert_eq!(ler_i64(""), None);
    assert_eq!(ler_i64("-"), None);
    assert_eq!(ler_i64("+"), None);
    assert_eq!(ler_i64(" 1"), None);
    assert_eq!(ler_i64("1 "), None);
    assert_eq!(ler_i64("1a"), None);
    assert_eq!(ler_i64("4.2"), None);
    assert_eq!(ler_i64("--1"), None);
}

#[test]
fn ler_i64_concorda_com_std() {
    for t in ["0", "12", "-12", "+0012", "x", "", "-", "123456789012", "1_000"] {
        assert_eq!(ler_i64(t), t.parse::<i64>().ok(), "{}", t);
    }
}

#[test]
fn iguais_compara_caracteres() {
    assert!(iguais("abc", "abc"));
    assert!(!iguais("abc", "abd"));
    assert!(!iguais("abc", "ab"));
    assert!(iguais("", ""));
    assert!(iguais("ção", "ção"));
}

#[test]
fn encontrar_da_a_primeira_posicao() {
    assert_eq!(encontrar("https://h/sap/x/sap", "/sap"), Some(9));
    assert_eq!(encontrar("abc", "d"), None);
    assert_eq!(encontrar("abc", ""), Some(0));
    assert_eq!(encontrar("ab", "abc"), None);
    assert!(ocorre_na_posicao("abcabc", "ca", 2));
    assert!(!ocorre_na_posicao("abcabc", "ca", 3));
    assert!(!ocorre_na_posicao("abc", "c", 9));
}

#[test]
fn contem_e_comeca() {
    assert!(contem_texto("top$top", "$top"));
    assert!(!contem_texto("$to", "$top"));
    assert!(comeca_com("__metadata", "__"));
    assert!(!comeca_com("_a", "__"));
}

#[test]
fn remover_todos_tira_ocorrencias_da_esquerda() {
    assert_eq!(remover_todos("{host}/sap{port}/x", "{host}"), "/sap{port}/x");
    assert_eq!(remover_todos("\"abc\"", "\""), "abc");
    assert_eq!(remover_todos("aaa", "aa"), "a");
    assert_eq!(remover_todos("aabb", "ab"), "ab");
    assert_eq!(remover_todos("", "x"), "");
    for (s, p) in [("x{a}y{a}", "{a}"), ("\"\"\"", "\""), ("abab", "ba")] {
        assert_eq!(remover_todos(s, p), s.replace(p, ""));
    }
}

#[test]
fn aparar_fim_tira_as_barras_finais() {
    assert_eq!(aparar_fim("https://h.com//", '/'), "https://h.com");
    assert_eq!(aparar_fim("///", '/'), "");
    assert_eq!(aparar_fim("a/b", '/'), "a/b");
    assert_eq!(aparar_fim("", '/'), "");
}

#[test]
fn dividir_como_split() {
    assert_eq!(dividir("#/components/schemas/X", '/'), vec!["#", "components", "schemas", "X"]);
    assert_eq!(dividir("", '/'), vec![""]);
    assert_eq!(dividir("a/", '/'), vec!["a", ""]);
    assert_eq!(dividir("/a", '/'), vec!["", "a"]);
    for s in ["a//b", "x", "//", "#/a/b/"] {
        let esperado: Vec<String> = s.split('/').map(|p| p.to_string()).collect();
        assert_eq!(dividir(s, '/'), esperado);
    }
}

#[test]
fn dividir_e_unir_devolve_o_texto() {
    for s in ["#/components/schemas/X", "", "a//b/", "/"] {
        assert_eq!(dividir(s, '/').join("/"), s);
    }
}

#[test]
fn juntar_concatena() {
    assert_eq!(juntar("Basic ", "dTpw"), "Basic dTpw");
    assert_eq!(juntar("", ""), "");
}

#[test]
fn comparar_segue_a_ordem_de_string() {
    assert_eq!(comparar("a", "b"), Comparacao::Antes);
    assert_eq!(comparar("b", "a"), Comparacao::Depois);
    assert_eq!(comparar("ab", "ab"), Comparacao::Igual);
    assert_eq!(comparar("a", "ab"), Comparacao::Antes);
    assert_eq!(comparar("Z", "a"), Comparacao::Antes);
    assert!(vem_antes("", "a"));
    assert!(!vem_antes("a", "a"));
    for (a, b) in [("é", "z"), ("a", "B"), ("abc", "abd"), ("日本", "日")] {
        assert_eq!(vem_antes(a, b), a < b, "{} {}", a, b);
    }
}

#[test]
fn ordenar_como_sort() {
    let v: Vec<String> = ["/b", "/a", "/ab", "/A", "/a"].iter().map(|s| s.to_string()).collect();
    let mut esperado = v.clone();
    esperado.sort();
    assert_eq!(ordenar(v), esperado);
    assert_eq!(ordenar(Vec::new()), Vec::<String>::new());
}
