//! Verified core of a terminal tester for SAP OData/REST services: it reads an
//! OpenAPI description, lists the fields of an operation with their types,
//! types the values typed by the user, builds the URL, the authorization
//! header, the query and the JSON body of the call, applies the edits of the
//! review screen and picks the list of records out of the service's answer.
//! Prompts, files and the network stay in the program around this crate.

pub mod autenticacao;
pub mod caixa;
pub mod chamada;
pub mod corpo;
pub mod fluxo;
pub mod json;
pub mod numero;
pub mod ordem;
pub mod swagger;
pub mod tabela;
pub mod texto;
pub mod valor;
