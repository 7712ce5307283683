use abi_toolkit::contract::{parse_method_name, read_function_id, Contract, Event, Function, MethodName};
use abi_toolkit::error::{AbiError, HandleError};

fn function(name: &str, input_id: u32) -> Function {
    Function {
        name: name.to_string(),
        input_id,
        output_id: input_id | 0x8000_0000,
        header: Vec::new(),
        inputs: Vec::new(),
        outputs: Vec::new(),
    }
}

fn event(name: &str, id: u32) -> Event {
    Event { name: name.to_string(), id, inputs: Vec::new() }
}

fn token_contract() -> Contract {
    Contract::new(
        2,
        vec![function("transfer", 0x1111_1111), function("burn", 0x2222_2222), function("mint", 0x3333_3333)],
        vec![event("Transferred", 0x0a0a_0a0a), event("Burned", 0x0b0b_0b0b), event("Minted", 0x0c0c_0c0c)],
        Vec::new(),
    )
    .unwrap()
}

#[test]
fn guess_resolves_to_burn() {
    let c = token_contract();
    let names = vec!["transfer".to_string(), "burn".to_string()];
    let i = c.guess_in_range(&names, 0x2222_2222).unwrap();
    assert_eq!(c.functions[i].name, "burn");
}

#[test]
fn guess_without_match_is_none() {
    let c = token_contract();
    let names = vec!["transfer".to_string(), "burn".to_string()];
    assert_eq!(c.guess_in_range(&names, 0x3333_3333), None);
    assert_eq!(c.guess_in_range(&names, 0xdead_beef), None);
}

#[test]
fn guess_skips_undeclared_candidates() {
    let c = token_contract();
    let names = vec!["approve".to_string(), "mint".to_string()];
    assert_eq!(c.guess_in_range(&names, 0x3333_3333), Some(2));
}

#[test]
fn known_name_lookup() {
    let c = token_contract();
    assert_eq!(c.function("burn"), Some(1));
    assert_eq!(c.function("approve"), None);
}

#[test]
fn match_function_by_either_mode() {
    let c = token_contract();
    assert_eq!(c.match_function(&MethodName::Known("mint".to_string()), None), Some(2));
    let guess = MethodName::GuessInRange(vec!["transfer".to_string()]);
    assert_eq!(c.match_function(&guess, Some(0x1111_1111)), Some(0));
    assert_eq!(c.match_function(&guess, None), None);
}

#[test]
fn duplicate_names_are_refused() {
    let c = Contract::new(2, vec![function("a", 1), function("a", 2)], Vec::new(), Vec::new());
    assert!(c.is_none());
    let e = Contract::new(2, Vec::new(), vec![event("E", 1), event("E", 2)], Vec::new());
    assert!(e.is_none());
}

#[test]
fn event_lookup_by_id() {
    let c = token_contract();
    assert_eq!(c.event_by_id(0x0b0b_0b0b), Some(1));
    assert_eq!(c.event_by_id(0x0d0d_0d0d), None);
}

#[test]
fn reads_the_id_prefix() {
    assert_eq!(read_function_id(&[0x22, 0x22, 0x22, 0x22, 0x01]), Some(0x2222_2222));
    assert_eq!(read_function_id(&[0x01, 0x02, 0x03, 0x04]), Some(0x0102_0304));
    assert_eq!(read_function_id(&[0x01, 0x02, 0x03]), None);
}

#[test]
fn method_name_from_json() {
    assert_eq!(parse_method_name("\"transfer\""), Ok(MethodName::Known("transfer".to_string())));
    assert_eq!(
        parse_method_name("[\"transfer\",\"burn\"]"),
        Ok(MethodName::GuessInRange(vec!["transfer".to_string(), "burn".to_string()]))
    );
    assert_eq!(parse_method_name("42"), Err(AbiError::ExpectedStringOrArray));
    assert_eq!(parse_method_name("transfer"), Err(AbiError::ExpectedStringOrArray));
}

#[test]
fn errors_become_messages() {
    let r: Result<u8, AbiError> = Err(AbiError::ExpectedParamType);
    assert_eq!(r.handle_error(), Err("Expected param type".to_string()));
    let ok: Result<u8, AbiError> = Ok(7);
    assert_eq!(ok.handle_error(), Ok(7));
}

#[test]
fn output_guess_uses_output_ids() {
    let c = token_contract();
    let names = vec!["transfer".to_string(), "burn".to_string()];
    assert_eq!(c.guess_output_in_range(&names, 0xa222_2222), Some(1));
    assert_eq!(c.guess_output_in_range(&names, 0x2222_2222), None);
    let guess = MethodName::GuessInRange(names);
    assert_eq!(c.match_output(&guess, Some(0x9111_1111)), Some(0));
    assert_eq!(c.match_output(&guess, None), None);
    assert_eq!(c.match_output(&MethodName::Known("burn".to_string()), None), Some(1));
}

#[test]
fn event_matching_by_name_or_guess() {
    let c = token_contract();
    assert_eq!(c.event("Minted"), Some(2));
    assert_eq!(c.event("Approved"), None);
    let guess = MethodName::GuessInRange(vec!["Transferred".to_string(), "Minted".to_string()]);
    assert_eq!(c.match_event(&guess, Some(0x0c0c_0c0c)), Some(2));
    assert_eq!(c.match_event(&guess, Some(0x0b0b_0b0b)), None);
    assert_eq!(c.guess_event_in_range(&vec!["Burned".to_string()], 0x0b0b_0b0b), Some(1));
    assert_eq!(c.match_event(&MethodName::Known("Burned".to_string()), None), Some(1));
}
