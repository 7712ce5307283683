use abi_toolkit::contract::{Contract, Event, Function, MethodName};
use abi_toolkit::error::HandleError;
use abi_toolkit::transaction::{
    keep_decoded, plan_transaction_decode, select_return_bodies, InMessage, OutMessage, Transaction,
    TransactionError,
};

fn function(name: &str, input_id: u32) -> Function {
    Function {
        name: name.to_string(),
        input_id,
        output_id: input_id | 0x8000_0000,
        header: Vec::new(),
        inputs: Vec::new(),
        outputs: Vec::new(),
    }
}

fn contract() -> Contract {
    Contract::new(
        2,
        vec![function("transfer", 0x1111_1111), function("burn", 0x2222_2222)],
        vec![
            Event { name: "A".to_string(), id: 1, inputs: Vec::new() },
            Event { name: "B".to_string(), id: 2, inputs: Vec::new() },
            Event { name: "C".to_string(), id: 3, inputs: Vec::new() },
        ],
        Vec::new(),
    )
    .unwrap()
}

fn out(dst: Option<&str>, body: Option<&str>) -> OutMessage {
    OutMessage { dst: dst.map(|s| s.to_string()), body: body.map(|s| s.to_string()) }
}

#[test]
fn absent_inbound_body_gives_none() {
    let tx = Transaction {
        in_msg: InMessage { src: Some("0:01".to_string()), body: None },
        out_msgs: vec![out(None, None)],
    };
    let m = MethodName::Known("transfer".to_string());
    assert_eq!(plan_transaction_decode(&tx, &contract(), &m, None), Ok(None));
}

#[test]
fn output_without_destination_or_body_is_malformed() {
    let tx = Transaction {
        in_msg: InMessage { src: None, body: Some("te6body".to_string()) },
        out_msgs: vec![out(None, Some("te6ret")), out(None, None)],
    };
    let m = MethodName::Known("transfer".to_string());
    let r = plan_transaction_decode(&tx, &contract(), &m, None);
    assert_eq!(r, Err(TransactionError::MalformedTransaction));
    assert_eq!(r.handle_error(), Err("Expected message body".to_string()));
}

#[test]
fn unmatched_call_gives_none() {
    let tx = Transaction {
        in_msg: InMessage { src: None, body: Some("te6body".to_string()) },
        out_msgs: Vec::new(),
    };
    let guess = MethodName::GuessInRange(vec!["transfer".to_string(), "burn".to_string()]);
    assert_eq!(plan_transaction_decode(&tx, &contract(), &guess, Some(0x9999_9999)), Ok(None));
    let known = MethodName::Known("approve".to_string());
    assert_eq!(plan_transaction_decode(&tx, &contract(), &known, None), Ok(None));
}

#[test]
fn plan_selects_destinationless_outputs() {
    let tx = Transaction {
        in_msg: InMessage { src: Some("0:02".to_string()), body: Some("te6in".to_string()) },
        out_msgs: vec![out(Some("0:03"), None), out(None, Some("te6a")), out(Some("0:04"), Some("x")), out(None, Some("te6b"))],
    };
    let guess = MethodName::GuessInRange(vec!["transfer".to_string(), "burn".to_string()]);
    let plan = plan_transaction_decode(&tx, &contract(), &guess, Some(0x2222_2222)).unwrap().unwrap();
    assert_eq!(plan.function, 1);
    assert!(plan.internal);
    assert_eq!(plan.input_body, "te6in");
    assert_eq!(plan.output_bodies, vec!["te6a".to_string(), "te6b".to_string()]);
}

#[test]
fn external_inbound_message_is_not_internal() {
    let tx = Transaction { in_msg: InMessage { src: None, body: None }, out_msgs: Vec::new() };
    assert!(!tx.is_internal());
}

#[test]
fn return_bodies_keep_order() {
    let msgs = vec![out(None, Some("1")), out(Some("0:1"), None), out(None, Some("2"))];
    assert_eq!(select_return_bodies(&msgs), Ok(vec!["1".to_string(), "2".to_string()]));
    assert_eq!(select_return_bodies(&Vec::new()), Ok(Vec::new()));
}

#[test]
fn event_scan_tries_only_the_matching_event() {
    let c = contract();
    let attempted = c.event_by_id(2);
    assert_eq!(attempted, Some(1));
    // its decoding failed: the output contributes nothing
    let decoded: Vec<Option<String>> = vec![None];
    assert_eq!(keep_decoded(decoded), Vec::<String>::new());
}

#[test]
fn event_scan_keeps_successes_in_order() {
    let attempts = vec![Some("A".to_string()), None, Some("C".to_string()), None];
    assert_eq!(keep_decoded(attempts), vec!["A".to_string(), "C".to_string()]);
}
