use se37like::autenticacao::{
    cabecalho_basic, cabecalho_bearer, cabecalho_para_tipo, credenciais_cabem, montar_auth, montar_credenciais, Ambiente,
};
use se37like::chamada::{aplicar_acao, editar_query, montar_nova_chamada, montar_parametros, Acao, HistoricoChamada, Passo};
use se37like::corpo::Corpo;
use se37like::fluxo::{
    decidir_resposta, escolha_de_arquivo, leva_corpo, nao_eh_get, verbo_http, AcaoResposta, Navegacao,
    PassoResposta, Verbo,
};
use se37like::json::{Json, Numero};
use se37like::swagger::Campo;
use se37like::tabela::{colunas_da_tabela, encurtar_celula, linhas_da_tabela, pode_encurtar, texto_celula};

fn t(s: &str) -> Json {
    Json::Texto(s.to_string())
}

fn obj(m: Vec<(&str, Json)>) -> Json {
    Json::Objeto(m.into_iter().map(|(k, v)| (k.to_string(), v)).collect())
}

fn campo(n: &str, ti: &str, c: &str) -> Campo {
    Campo { nome: n.to_string(), tipo: ti.to_string(), categoria: c.to_string() }
}

fn ambiente(tipo: &str, user: Option<&str>, pass: Option<&str>, token: Option<&str>) -> Ambiente {
    Ambiente {
        host: "https://s4.exemplo.com/".to_string(),
        base_path: None,
        auth_type: tipo.to_string(),
        username: user.map(|s| s.to_string()),
        password: pass.map(|s| s.to_string()),
        token: token.map(|s| s.to_string()),
    }
}

fn nomes(c: &Corpo) -> Vec<String> {
    c.membros().iter().map(|(k, _)| k.clone()).collect()
}

fn chamada_vazia() -> HistoricoChamada {
    HistoricoChamada {
        nome_variante: "Nova".to_string(),
        url_final: "u".to_string(),
        metodo: "POST".to_string(),
        auth_header: "a".to_string(),
        params_query: vec![("$top".to_string(), "50".to_string()), ("$filter".to_string(), "x".to_string())],
        payload_body: Corpo::new(),
    }
}

#[test]
fn corpo_mantem_ordem_e_nomes_unicos() {
    let mut c = Corpo::new();
    c.inserir("b".to_string(), t("1"));
    c.inserir("a".to_string(), t("2"));
    c.inserir("c".to_string(), t("3"));
    c.inserir("a".to_string(), t("4"));
    assert_eq!(nomes(&c), vec!["a", "b", "c"]);
    assert_eq!(c.len(), 3);
    assert_eq!(c.obter("a"), Some(&t("4")));
    assert_eq!(c.obter("b"), Some(&t("1")));
    assert_eq!(c.obter("z"), None);
}

#[test]
fn corpo_inserir_duas_vezes() {
    let mut uma = Corpo::new();
    uma.inserir("k".to_string(), t("v2"));
    let mut duas = Corpo::new();
    duas.inserir("k".to_string(), t("v1"));
    duas.inserir("k".to_string(), t("v2"));
    assert_eq!(uma, duas);
}

#[test]
fn credenciais_e_auth_basic() {
    let amb = ambiente("basic", Some("u"), Some("p"), None);
    assert_eq!(montar_credenciais(&amb), "u:p");
    assert_eq!(montar_auth(&amb), "Basic dTpw");
    let amb = ambiente("BASIC", Some("SEU_USER"), None, None);
    assert_eq!(montar_auth(&amb), "Basic U0VVX1VTRVI6");
    let amb = ambiente("Basic", None, None, Some("t"));
    assert_eq!(montar_auth(&amb), "Basic Og==");
}

#[test]
fn auth_bearer() {
    assert_eq!(montar_auth(&ambiente("bearer", Some("u"), Some("p"), Some("abc"))), "Bearer abc");
    assert_eq!(montar_auth(&ambiente("oauth", None, None, None)), "Bearer ");
    assert_eq!(cabecalho_bearer("x"), "Bearer x");
    assert_eq!(cabecalho_basic("y"), "Basic y");
}

#[test]
fn parametros_da_chamada() {
    let campos = vec![
        campo("$filter", "string", "QUERY"),
        campo("$top", "integer", "QUERY"),
        campo("$select", "string", "QUERY"),
        campo("Id", "integer", "PATH"),
        campo("Nome", "string", "BODY"),
        campo("Ativo", "boolean", "BODY"),
        campo("Idade", "integer", "BODY"),
        campo("Vazio", "string", "BODY"),
    ];
    let valores: Vec<String> =
        ["", "", "Nome", "7", "Ana", "x", "30", ""].iter().map(|s| s.to_string()).collect();
    let (q, c) = montar_parametros(&campos, &valores);
    assert_eq!(
        q,
        vec![
            ("$top".to_string(), "50".to_string()),
            ("$select".to_string(), "Nome".to_string()),
            ("Id".to_string(), "7".to_string()),
        ]
    );
    assert_eq!(nomes(&c), vec!["Ativo", "Idade", "Nome"]);
    assert_eq!(c.obter("Ativo"), Some(&Json::Logico(true)));
    assert_eq!(c.obter("Idade"), Some(&Json::Numero(Numero::Inteiro(30))));
    assert_eq!(c.obter("Nome"), Some(&t("Ana")));
    assert_eq!(c.obter("Vazio"), None);
}

#[test]
fn top_com_valor_fica_com_o_valor() {
    let campos = vec![campo("$top", "integer", "QUERY")];
    let (q, _) = montar_parametros(&campos, &vec!["10".to_string()]);
    assert_eq!(q, vec![("$top".to_string(), "10".to_string())]);
}

#[test]
fn nova_chamada_completa() {
    let api = obj(vec![("servers", Json::Lista(vec![obj(vec![("url", t("/sap/opu/odata/sap/API/"))])]))]);
    let amb = ambiente("basic", Some("u"), Some("p"), None);
    let campos = vec![campo("$top", "integer", "QUERY"), campo("A", "string", "BODY")];
    let valores = vec![String::new(), "v".to_string()];
    let ch = montar_nova_chamada(&amb, &api, "/X", "POST".to_string(), &campos, &valores);
    assert_eq!(ch.nome_variante, "Nova");
    assert_eq!(ch.url_final, "https://s4.exemplo.com/sap/opu/odata/sap/API/X");
    assert_eq!(ch.metodo, "POST");
    assert_eq!(ch.auth_header, "Basic dTpw");
    assert_eq!(ch.params_query, vec![("$top".to_string(), "50".to_string())]);
    assert_eq!(ch.payload_body.obter("A"), Some(&t("v")));
}

#[test]
fn editar_query_substitui_e_vai_para_o_fim() {
    let mut ch = chamada_vazia();
    editar_query(&mut ch, "$top".to_string(), "5".to_string());
    assert_eq!(
        ch.params_query,
        vec![("$filter".to_string(), "x".to_string()), ("$top".to_string(), "5".to_string())]
    );
    editar_query(&mut ch, "$top".to_string(), "6".to_string());
    assert_eq!(
        ch.params_query,
        vec![("$filter".to_string(), "x".to_string()), ("$top".to_string(), "6".to_string())]
    );
    editar_query(&mut ch, "novo".to_string(), String::new());
    assert_eq!(ch.params_query.last(), Some(&("novo".to_string(), String::new())));
    assert_eq!(ch.params_query.len(), 3);
}

#[test]
fn acoes_da_revisao() {
    let mut ch = chamada_vazia();
    assert_eq!(aplicar_acao(&mut ch, Acao::Executar), Passo::Executar);
    assert_eq!(ch, chamada_vazia());
    assert_eq!(aplicar_acao(&mut ch, Acao::Cancelar), Passo::Cancelar);
    assert_eq!(
        aplicar_acao(&mut ch, Acao::EditarQuery { campo: String::new(), valor: "1".to_string() }),
        Passo::Continuar
    );
    assert_eq!(ch, chamada_vazia());
    assert_eq!(
        aplicar_acao(&mut ch, Acao::EditarBody { campo: "Qtd".to_string(), valor: "3".to_string() }),
        Passo::Continuar
    );
    assert_eq!(ch.payload_body.obter("Qtd"), Some(&Json::Numero(Numero::Inteiro(3))));
    aplicar_acao(&mut ch, Acao::EditarBody { campo: "Ok".to_string(), valor: "TRUE".to_string() });
    assert_eq!(ch.payload_body.obter("Ok"), Some(&Json::Logico(true)));
    aplicar_acao(&mut ch, Acao::EditarBody { campo: String::new(), valor: "x".to_string() });
    assert_eq!(ch.payload_body.len(), 2);
    assert_eq!(aplicar_acao(&mut ch, Acao::Salvar { nome: String::new() }), Passo::Continuar);
    assert_eq!(ch.nome_variante, "Nova");
    assert_eq!(aplicar_acao(&mut ch, Acao::Salvar { nome: "teste1".to_string() }), Passo::Gravar);
    assert_eq!(ch.nome_variante, "teste1");
}

#[test]
fn verbos_e_corpo() {
    assert_eq!(verbo_http("POST"), Verbo::Post);
    assert_eq!(verbo_http("PUT"), Verbo::Put);
    assert_eq!(verbo_http("PATCH"), Verbo::Patch);
    assert_eq!(verbo_http("DELETE"), Verbo::Delete);
    assert_eq!(verbo_http("GET"), Verbo::Get);
    assert_eq!(verbo_http("post"), Verbo::Get);
    assert_eq!(verbo_http("HEAD"), Verbo::Get);
    assert!(leva_corpo(&Verbo::Post) && leva_corpo(&Verbo::Put) && leva_corpo(&Verbo::Patch));
    assert!(!leva_corpo(&Verbo::Get) && !leva_corpo(&Verbo::Delete));
    assert!(!nao_eh_get("GET"));
    assert!(nao_eh_get("get"));
    assert!(nao_eh_get("DELETE"));
}

#[test]
fn tela_da_resposta() {
    assert_eq!(decidir_resposta(AcaoResposta::VerTabela), PassoResposta::MostrarTabela);
    assert_eq!(decidir_resposta(AcaoResposta::VerJson), PassoResposta::MostrarJson);
    assert_eq!(decidir_resposta(AcaoResposta::Sair), PassoResposta::Sair);
    assert_eq!(decidir_resposta(AcaoResposta::Salvar { nome: String::new() }), PassoResposta::Sair);
    assert_eq!(
        decidir_resposta(AcaoResposta::Salvar { nome: "v".to_string() }),
        PassoResposta::GravarESair { nome: "v".to_string() }
    );
}

#[test]
fn navegacao_de_arquivos() {
    assert_eq!(escolha_de_arquivo(".. (Voltar)".to_string()), Navegacao::Voltar);
    assert_eq!(escolha_de_arquivo("a.json".to_string()), Navegacao::Entrar { nome: "a.json".to_string() });
}

#[test]
fn colunas_sem_metadados_e_no_maximo_oito() {
    let mut membros = vec![("__metadata", obj(vec![]))];
    let nomes_col = ["A", "B", "__x", "C", "D", "E", "F", "G", "H", "I"];
    for n in nomes_col.iter() {
        membros.push((n, t("1")));
    }
    let lista = vec![obj(membros)];
    assert_eq!(
        colunas_da_tabela(&lista),
        Some(["A", "B", "C", "D", "E", "F", "G", "H"].iter().map(|s| s.to_string()).collect())
    );
    assert_eq!(colunas_da_tabela(&vec![]), None);
    assert_eq!(colunas_da_tabela(&vec![t("x"), obj(vec![])]), None);
    assert_eq!(colunas_da_tabela(&vec![obj(vec![])]), Some(vec![]));
}

#[test]
fn linhas_no_maximo_vinte_e_cinco() {
    let lista: Vec<Json> = (0..30).map(|i| obj(vec![("A", t(&i.to_string()))])).collect();
    let colunas = vec!["A".to_string(), "B".to_string()];
    let linhas = linhas_da_tabela(&lista, &colunas);
    assert_eq!(linhas.len(), 25);
    assert_eq!(linhas[3][0], Some(&t("3")));
    assert_eq!(linhas[3][1], None);
    let nulos: Vec<Json> = vec![Json::Nulo, Json::Nulo];
    let poucas = linhas_da_tabela(&nulos, &colunas);
    assert_eq!(poucas.len(), 2);
    assert_eq!(poucas[0], vec![None, None]);
}

#[test]
fn texto_das_celulas() {
    assert_eq!(texto_celula(Some("\"Ana\"")), "Ana");
    assert_eq!(texto_celula(Some("12")), "12");
    assert_eq!(texto_celula(None), "");
    let longo = "a".repeat(35);
    assert!(pode_encurtar(&longo));
    assert_eq!(encurtar_celula(longo), format!("{}...", "a".repeat(27)));
    assert_eq!(encurtar_celula("a".repeat(30)), "a".repeat(30));
    assert_eq!(encurtar_celula("é".repeat(15)), "é".repeat(15));
    assert!(!pode_encurtar(&"é".repeat(20)));
    let misto = format!("a{}", "é".repeat(20));
    assert!(pode_encurtar(&misto));
    let curto = encurtar_celula(misto);
    assert_eq!(curto, format!("a{}...", "é".repeat(13)));
    assert!(curto.len() <= 30);
}

#[test]
fn cabecalho_pelo_tipo_em_minusculas() {
    let amb = ambiente("BASIC", Some("u"), Some("p"), Some("tk"));
    assert_eq!(cabecalho_para_tipo("basic", &amb), "Basic dTpw");
    assert_eq!(cabecalho_para_tipo("BASIC", &amb), "Bearer tk");
    assert!(credenciais_cabem(&amb));
}

#[test]
fn base64_padrao_nos_tres_restos() {
    assert_eq!(montar_auth(&ambiente("basic", Some("ab"), Some("c"), None)), "Basic YWI6Yw==");
    assert_eq!(montar_auth(&ambiente("basic", Some("ab"), Some("cd"), None)), "Basic YWI6Y2Q=");
    assert_eq!(montar_auth(&ambiente("basic", Some("ab"), Some("cde"), None)), "Basic YWI6Y2Rl");
    assert_eq!(montar_auth(&ambiente("basic", Some("ção"), Some("+/?"), None)), "Basic w6fDo286Ky8/");
}
