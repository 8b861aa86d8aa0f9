# se37like

A terminal tester for SAP OData/REST services, in the manner of transaction
SE37: pick an environment file and an OpenAPI description, choose a route and
an operation, type the values of its fields, review the call, run it, and see
the records of the answer in an ALV-like grid. Calls can be saved as variants
and run again.

- `src/` is the verified library (Verus): JSON reads over a plain JSON model
  (`json`), the fields of an operation and the URL (`swagger`), the typing of
  the values (`valor`, `numero`), the body as an ordered map (`corpo`), the
  authorization header (`autenticacao`), the call and its review
  (`chamada`), the decisions between steps (`fluxo`), the grid (`tabela`),
  and the text operations and the order of texts they rest on (`texto`,
  `ordem`, `caixa`).
- `app/` is the program around it: prompts (inquire), files, JSON reading
  and writing (serde_json), HTTP (reqwest), colours and the grid's drawing.
- `tests/` runs the library on concrete values.
