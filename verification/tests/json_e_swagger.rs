use se37like::json::{buscar_ref, extrair_lista_sap, Json, Numero};
use se37like::swagger::{
    campos_do_metodo, limpar_caminho, mapear_com_tipos, metodos_da_rota, montar_url, preparar_campos,
    rotas_disponiveis, Campo,
};
use se37like::valor::{inferir_de_minusculas, inferir_valor, le_sim, tipar_valor};

fn t(s: &str) -> Json {
    Json::Texto(s.to_string())
}

fn obj(m: Vec<(&str, Json)>) -> Json {
    Json::Objeto(m.into_iter().map(|(k, v)| (k.to_string(), v)).collect())
}

fn campo(n: &str, ti: &str, c: &str) -> Campo {
    Campo { nome: n.to_string(), tipo: ti.to_string(), categoria: c.to_string() }
}

fn descricao() -> Json {
    obj(vec![
        (
            "components",
            obj(vec![(
                "schemas",
                obj(vec![(
                    "Parceiro",
                    obj(vec![(
                        "properties",
                        obj(vec![
                            ("Nome", obj(vec![("type", t("string"))])),
                            ("Ativo", obj(vec![("type", t("boolean"))])),
                            ("Idade", obj(vec![])),
                        ]),
                    )]),
                )]),
            )]),
        ),
        (
            "paths",
            obj(vec![
                (
                    "/Parceiros",
                    obj(vec![
                        (
                            "get",
                            obj(vec![(
                                "parameters",
                                Json::Lista(vec![
                                    obj(vec![("name", t("$orderby")), ("in", t("query"))]),
                                    obj(vec![
                                        ("name", t("Id")),
                                        ("in", t("path")),
                                        ("schema", obj(vec![("type", t("integer"))])),
                                    ]),
                                    obj(vec![("type", t("boolean"))]),
                                ]),
                            )]),
                        ),
                        (
                            "post",
                            obj(vec![(
                                "requestBody",
                                obj(vec![(
                                    "content",
                                    obj(vec![(
                                        "application/json",
                                        obj(vec![(
                                            "schema",
                                            obj(vec![("$ref", t("#/components/schemas/Parceiro"))]),
                                        )]),
                                    )]),
                                )]),
                            )]),
                        ),
                    ]),
                ),
                ("/Alfa", obj(vec![])),
                ("/Texto", t("x")),
            ]),
        ),
        ("servers", Json::Lista(vec![obj(vec![("url", t("https://{host}:{port}/sap/opu/odata/sap/API_BP/"))])])),
    ])
}

#[test]
fn membro_e_leituras() {
    let d = descricao();
    assert!(d.membro_exec("paths").is_some());
    assert!(d.membro_exec("nada").is_none());
    assert!(t("x").membro_exec("x").is_none());
    assert_eq!(t("x").texto_exec(), Some(&"x".to_string()));
    assert!(Json::Nulo.lista_exec().is_none());
    assert_eq!(Json::Lista(vec![Json::Nulo]).lista_exec(), Some(&vec![Json::Nulo]));
    assert!(obj(vec![]).objeto_exec().is_some());
}

#[test]
fn buscar_ref_segue_o_caminho() {
    let d = descricao();
    let alvo = buscar_ref(&d, "#/components/schemas/Parceiro").unwrap();
    assert!(alvo.membro_exec("properties").is_some());
    assert!(buscar_ref(&d, "#/components/schemas/Outro").is_none());
    assert_eq!(buscar_ref(&d, "#"), Some(&d));
    assert!(buscar_ref(&d, "").is_none());
    assert!(buscar_ref(&d, "#/components/").is_none());
}

#[test]
fn extrair_lista_sap_nos_formatos_odata() {
    let itens = vec![obj(vec![("A", t("1"))])];
    let v2 = obj(vec![("d", obj(vec![("results", Json::Lista(vec![obj(vec![("A", t("1"))])]))]))]);
    assert_eq!(extrair_lista_sap(&v2), Some(&itens));
    let v2_sem_results = obj(vec![("d", Json::Lista(vec![obj(vec![("A", t("1"))])]))]);
    assert_eq!(extrair_lista_sap(&v2_sem_results), Some(&itens));
    let v4 = obj(vec![("value", Json::Lista(vec![obj(vec![("A", t("1"))])]))]);
    assert_eq!(extrair_lista_sap(&v4), Some(&itens));
    let lista = Json::Lista(vec![obj(vec![("A", t("1"))])]);
    assert_eq!(extrair_lista_sap(&lista), Some(&itens));
    assert!(extrair_lista_sap(&obj(vec![("x", t("1"))])).is_none());
    // `d` present but neither list nor with `results` list: no list
    assert!(extrair_lista_sap(&obj(vec![("d", obj(vec![("x", t("1"))]))])).is_none());
    assert!(extrair_lista_sap(&obj(vec![("d", obj(vec![("results", t("1"))]))])).is_none());
    // `d` wins over `value`
    assert!(extrair_lista_sap(&obj(vec![("d", t("1")), ("value", Json::Lista(vec![]))])).is_none());
}

#[test]
fn mapear_get_com_parametros() {
    let d = descricao();
    let c = mapear_com_tipos(&d, "/Parceiros", "GET");
    assert_eq!(
        c,
        vec![
            campo("$filter", "string", "QUERY"),
            campo("$top", "integer", "QUERY"),
            campo("$select", "string", "QUERY"),
            campo("$orderby", "string", "QUERY"),
            campo("Id", "integer", "PATH"),
            campo("", "boolean", "QUERY"),
        ]
    );
}

#[test]
fn mapear_post_com_ref() {
    let d = descricao();
    let c = mapear_com_tipos(&d, "/Parceiros", "POST");
    assert_eq!(
        c,
        vec![campo("Nome", "string", "BODY"), campo("Ativo", "boolean", "BODY"), campo("Idade", "string", "BODY")]
    );
}

#[test]
fn mapear_operacao_que_falta() {
    let d = descricao();
    assert_eq!(mapear_com_tipos(&d, "/Parceiros", "delete"), vec![]);
    assert_eq!(mapear_com_tipos(&d, "/Nada", "get").len(), 3);
    assert_eq!(mapear_com_tipos(&Json::Nulo, "/x", "put"), vec![]);
}

#[test]
fn preparar_campos_poe_em_maiusculas() {
    let d = descricao();
    let (m, c) = preparar_campos(&d, "/Parceiros", "post");
    assert_eq!(m, "POST");
    assert_eq!(c.len(), 3);
    let (m, c) = preparar_campos(&d, "/Parceiros", "get");
    assert_eq!(m, "GET");
    assert_eq!(c.len(), 6);
}

#[test]
fn rotas_em_ordem() {
    let d = descricao();
    assert_eq!(
        rotas_disponiveis(&d),
        Some(vec!["/Alfa".to_string(), "/Parceiros".to_string(), "/Texto".to_string()])
    );
    assert_eq!(rotas_disponiveis(&Json::Nulo), None);
    assert_eq!(rotas_disponiveis(&obj(vec![("paths", t("x"))])), None);
}

#[test]
fn metodos_de_uma_rota() {
    let d = descricao();
    assert_eq!(metodos_da_rota(&d, "/Parceiros"), Some(vec!["get".to_string(), "post".to_string()]));
    assert_eq!(metodos_da_rota(&d, "/Alfa"), Some(vec![]));
    assert_eq!(metodos_da_rota(&d, "/Texto"), None);
}

#[test]
fn limpar_caminho_de_url_completa() {
    assert_eq!(limpar_caminho("https://{host}:{port}/sap/opu/odata/sap/API_BP/"), "/sap/opu/odata/sap/API_BP/");
    assert_eq!(limpar_caminho("https://h.com/api/v1"), "");
    assert_eq!(limpar_caminho("/sap/{host}x{port}"), "/sap/x");
    assert_eq!(limpar_caminho(""), "");
}

#[test]
fn montar_url_junta_host_caminho_e_rota() {
    let d = descricao();
    assert_eq!(montar_url("https://meu-s4.com/", &d, "/Parceiros"), "https://meu-s4.com/sap/opu/odata/sap/API_BP/Parceiros");
    assert_eq!(montar_url("https://meu-s4.com", &Json::Nulo, "/X"), "https://meu-s4.com/X");
    let sem_servidores = obj(vec![("servers", Json::Lista(vec![]))]);
    assert_eq!(montar_url("h//", &sem_servidores, "/X"), "h/X");
}

#[test]
fn tipar_valor_por_tipo() {
    assert_eq!(tipar_valor(String::new(), "boolean"), Json::Nulo);
    assert_eq!(tipar_valor(String::new(), "string"), Json::Nulo);
    assert_eq!(tipar_valor("TRUE".to_string(), "boolean"), Json::Logico(true));
    assert_eq!(tipar_valor("X".to_string(), "boolean"), Json::Logico(true));
    assert_eq!(tipar_valor("s".to_string(), "boolean"), Json::Logico(true));
    assert_eq!(tipar_valor("1".to_string(), "boolean"), Json::Logico(true));
    assert_eq!(tipar_valor("nao".to_string(), "boolean"), Json::Logico(false));
    assert_eq!(tipar_valor("42".to_string(), "integer"), Json::Numero(Numero::Inteiro(42)));
    assert_eq!(tipar_valor("-7".to_string(), "int64"), Json::Numero(Numero::Inteiro(-7)));
    assert_eq!(tipar_valor("4.2".to_string(), "number"), t("4.2"));
    assert_eq!(tipar_valor("12".to_string(), "int32"), Json::Numero(Numero::Inteiro(12)));
    assert_eq!(tipar_valor("12".to_string(), "string"), t("12"));
    assert_eq!(tipar_valor("abc".to_string(), "Integer"), t("abc"));
}

#[test]
fn inferir_valor_adivinha_o_tipo() {
    assert_eq!(inferir_valor("True".to_string()), Json::Logico(true));
    assert_eq!(inferir_valor("FALSE".to_string()), Json::Logico(false));
    assert_eq!(inferir_valor("12".to_string()), Json::Numero(Numero::Inteiro(12)));
    assert_eq!(inferir_valor("x".to_string()), t("x"));
    assert_eq!(inferir_valor(String::new()), t(""));
}

#[test]
fn depois_das_minusculas() {
    assert!(le_sim("x") && le_sim("true") && le_sim("s") && le_sim("1"));
    assert!(!le_sim("TRUE") && !le_sim("sim") && !le_sim(""));
    assert_eq!(inferir_de_minusculas("true", "qualquer".to_string()), Json::Logico(true));
    assert_eq!(inferir_de_minusculas("TRUE", "TRUE".to_string()), t("TRUE"));
    assert_eq!(inferir_de_minusculas("5", "5".to_string()), Json::Numero(Numero::Inteiro(5)));
    let d = descricao();
    assert_eq!(campos_do_metodo(&d, "/Parceiros", "GET"), vec![]);
    assert_eq!(campos_do_metodo(&d, "/Parceiros", "get").len(), 6);
}

#[test]
fn so_corpo_json_da_campos() {
    let com_xml = obj(vec![(
        "paths",
        obj(vec![(
            "/X",
            obj(vec![(
                "post",
                obj(vec![
                    ("parameters", Json::Lista(vec![obj(vec![("name", t("Id")), ("in", t("path"))])])),
                    (
                        "requestBody",
                        obj(vec![(
                            "content",
                            obj(vec![(
                                "application/xml",
                                obj(vec![("schema", obj(vec![("properties", obj(vec![("A", obj(vec![]))]))]))]),
                            )]),
                        )]),
                    ),
                ]),
            )]),
        )]),
    )]);
    let sem_corpo = obj(vec![(
        "paths",
        obj(vec![(
            "/X",
            obj(vec![(
                "post",
                obj(vec![("parameters", Json::Lista(vec![obj(vec![("name", t("Id")), ("in", t("path"))])]))]),
            )]),
        )]),
    )]);
    assert_eq!(mapear_com_tipos(&com_xml, "/X", "POST"), mapear_com_tipos(&sem_corpo, "/X", "POST"));
    assert_eq!(mapear_com_tipos(&com_xml, "/X", "POST"), vec![campo("Id", "string", "PATH")]);
}

#[test]
fn rotas_sem_repeticao() {
    let d = descricao();
    let rotas = rotas_disponiveis(&d).unwrap();
    for i in 1..rotas.len() {
        assert!(rotas[i - 1] < rotas[i]);
    }
    let metodos = metodos_da_rota(&d, "/Parceiros").unwrap();
    assert_eq!(metodos.len(), 2);
    assert_ne!(metodos[0], metodos[1]);
}
