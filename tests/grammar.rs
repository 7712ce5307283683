use abi_toolkit::error::AbiError;
use abi_toolkit::param_type::{parse_param, parse_param_type, parse_params, AbiParam, Param, ParamType};

fn abi_param(name: &str, kind: &str, components: Option<Vec<AbiParam>>) -> AbiParam {
    AbiParam { name: name.to_string(), param_type: kind.to_string(), components }
}

#[test]
fn parses_uint128() {
    assert_eq!(parse_param_type("uint128"), Ok(ParamType::Uint(128)));
}

#[test]
fn parses_int8_array() {
    assert_eq!(parse_param_type("int8[]"), Ok(ParamType::Array(Box::new(ParamType::Int(8)))));
}

#[test]
fn parses_fixed_array_of_arrays() {
    assert_eq!(
        parse_param_type("uint8[][3]"),
        Ok(ParamType::FixedArray(Box::new(ParamType::Array(Box::new(ParamType::Uint(8)))), 3))
    );
}

#[test]
fn parses_map_with_address_key() {
    assert_eq!(
        parse_param_type("map(address,uint32)"),
        Ok(ParamType::Mapping(Box::new(ParamType::Address), Box::new(ParamType::Uint(32))))
    );
}

#[test]
fn refuses_map_with_cell_key() {
    assert_eq!(parse_param_type("map(cell,uint32)"), Err(AbiError::ExpectedParamType));
}

#[test]
fn parses_nested_map_value() {
    assert_eq!(
        parse_param_type("map(uint8,map(int16,bool))"),
        Ok(ParamType::Mapping(
            Box::new(ParamType::Uint(8)),
            Box::new(ParamType::Mapping(Box::new(ParamType::Int(16)), Box::new(ParamType::Bool)))
        ))
    );
}

#[test]
fn reads_var_integers_as_integers() {
    assert_eq!(parse_param_type("varint16"), Ok(ParamType::Int(16)));
    assert_eq!(parse_param_type("varuint32"), Ok(ParamType::Uint(32)));
}

#[test]
fn parses_plain_keywords() {
    assert_eq!(parse_param_type("bool"), Ok(ParamType::Bool));
    assert_eq!(parse_param_type("cell"), Ok(ParamType::Cell));
    assert_eq!(parse_param_type("address"), Ok(ParamType::Address));
    assert_eq!(parse_param_type("token"), Ok(ParamType::Token));
    assert_eq!(parse_param_type("gram"), Ok(ParamType::Token));
    assert_eq!(parse_param_type("bytes"), Ok(ParamType::Bytes));
    assert_eq!(parse_param_type("time"), Ok(ParamType::Time));
    assert_eq!(parse_param_type("expire"), Ok(ParamType::Expire));
    assert_eq!(parse_param_type("pubkey"), Ok(ParamType::PublicKey));
    assert_eq!(parse_param_type("string"), Ok(ParamType::String));
    assert_eq!(parse_param_type("tuple"), Ok(ParamType::Tuple(Vec::new())));
    assert_eq!(parse_param_type("fixedbytes32"), Ok(ParamType::FixedBytes(32)));
}

#[test]
fn parses_optional_and_ref() {
    assert_eq!(
        parse_param_type("optional(uint64)"),
        Ok(ParamType::Optional(Box::new(ParamType::Uint(64))))
    );
    assert_eq!(
        parse_param_type("ref(cell[])"),
        Ok(ParamType::Ref(Box::new(ParamType::Array(Box::new(ParamType::Cell)))))
    );
}

#[test]
fn refuses_malformed_descriptors() {
    for bad in ["", "uint", "intx", "uint8]", "uint8[x]", "uint8[0]", "[]", "map(uint8)", "float", "optional(", "int99999999999999999999999"] {
        assert_eq!(parse_param_type(bad), Err(AbiError::ExpectedParamType), "{}", bad);
    }
}

#[test]
fn attaches_tuple_components() {
    let p = abi_param(
        "pair",
        "tuple[]",
        Some(vec![abi_param("a", "uint8", None), abi_param("b", "address", None)]),
    );
    let expected = Param {
        name: "pair".to_string(),
        kind: ParamType::Array(Box::new(ParamType::Tuple(vec![
            Param { name: "a".to_string(), kind: ParamType::Uint(8) },
            Param { name: "b".to_string(), kind: ParamType::Address },
        ]))),
    };
    assert_eq!(parse_param(&p), Ok(expected));
}

#[test]
fn refuses_components_on_a_scalar() {
    let p = abi_param("x", "uint8", Some(vec![abi_param("a", "uint8", None)]));
    assert_eq!(parse_param(&p), Err(AbiError::InvalidComponents));
}

#[test]
fn refuses_tuple_without_components() {
    assert_eq!(parse_param(&abi_param("t", "tuple", None)), Err(AbiError::InvalidComponents));
}

#[test]
fn reports_a_bad_component() {
    let p = abi_param("t", "tuple", Some(vec![abi_param("a", "uint", None)]));
    assert_eq!(parse_param(&p), Err(AbiError::ExpectedParamType));
}

#[test]
fn parses_a_parameter_list() {
    let list = vec![abi_param("value", "uint128", None), abi_param("flag", "bool", None)];
    let parsed = parse_params(&list).unwrap();
    assert_eq!(parsed.len(), 2);
    assert_eq!(parsed[0], Param { name: "value".to_string(), kind: ParamType::Uint(128) });
    assert_eq!(parsed[1], Param { name: "flag".to_string(), kind: ParamType::Bool });
    let bad = vec![abi_param("value", "uint128", None), abi_param("x", "nope", None)];
    assert_eq!(parse_params(&bad), Err(AbiError::ExpectedParamType));
}
