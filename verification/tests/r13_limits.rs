use codenoesis_contracts::json::Json;
use codenoesis_contracts::s4_r13::{
    enforce_portable_size, ensure_nesting, R13ContractError, MAX_R13_JSON_NESTING,
    MAX_R13_PORTABLE_GRAPH_BYTES,
};

#[test]
fn pt_fr_exp_005_portable_size_has_exact_maximum_and_plus_one() {
    let maximum =
        usize::try_from(MAX_R13_PORTABLE_GRAPH_BYTES).expect("R13 portable limit fits usize");
    assert_eq!(enforce_portable_size(maximum), Ok(()));
    assert_eq!(
        enforce_portable_size(maximum + 1),
        Err(R13ContractError::LimitExceeded {
            limit: "portable_graph_bytes",
            maximum: MAX_R13_PORTABLE_GRAPH_BYTES,
            observed: MAX_R13_PORTABLE_GRAPH_BYTES + 1,
        })
    );
}

#[test]
fn pt_fr_exp_005_json_nesting_has_exact_maximum_and_plus_one() {
    let mut maximum = Json::Null;
    for _ in 0..MAX_R13_JSON_NESTING {
        maximum = Json::Array(vec![maximum]);
    }
    assert_eq!(ensure_nesting(&maximum, 0), Ok(()));

    let plus_one = Json::Array(vec![maximum]);
    assert_eq!(
        ensure_nesting(&plus_one, 0),
        Err(R13ContractError::LimitExceeded {
            limit: "json_nesting",
            maximum: MAX_R13_JSON_NESTING,
            observed: MAX_R13_JSON_NESTING + 1,
        })
    );
}
