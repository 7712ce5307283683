use vstd::prelude::*;

use crate::contract::{has_match, is_match, Contract, MethodName};

verus! {

/// The inbound message of a transaction: its source address, if any, and
/// its body as a base64 tree of cells, if any.
#[derive(Debug, PartialEq, Eq)]
pub struct InMessage {
    pub src: Option<String>,
    pub body: Option<String>,
}

/// An outbound message: its destination address, if any, and its body.
#[derive(Debug, PartialEq, Eq)]
pub struct OutMessage {
    pub dst: Option<String>,
    pub body: Option<String>,
}

#[derive(Debug, PartialEq, Eq)]
pub struct Transaction {
    pub in_msg: InMessage,
    pub out_msgs: Vec<OutMessage>,
}

#[derive(Debug, Clone, Copy, PartialEq, Eq, Structural)]
pub enum TransactionError {
    /// An outbound message without a destination carries no body, though
    /// such a message is expected to carry a return value.
    MalformedTransaction,
}

/// What decoding a transaction's call works on: the function it calls, the
/// direction of the inbound message, its body, and the bodies that carry
/// the return value, in transaction order.
#[derive(Debug, PartialEq, Eq)]
pub struct DecodePlan {
    pub function: usize,
    pub internal: bool,
    pub input_body: String,
    pub output_bodies: Vec<String>,
}

/// The bodies of the outbound messages without a destination, in order;
/// `None` where one of those lacks a body.
pub open spec fn return_bodies(msgs: Seq<OutMessage>) -> Option<Seq<Seq<char>>>
    decreases msgs.len(),
{
    if msgs.len() == 0 {
        Some(Seq::empty())
    } else {
        match return_bodies(msgs.drop_last()) {
            None => None,
            Some(p) => {
                let m = msgs.last();
                if m.dst is Some {
                    Some(p)
                } else {
                    match m.body {
                        Some(b) => Some(p.push(b@)),
                        None => None,
                    }
                }
            },
        }
    }
}

proof fn lemma_return_bodies_none_sticks(msgs: Seq<OutMessage>, k: int)
    requires
        0 <= k <= msgs.len(),
        return_bodies(msgs.subrange(0, k)) is None,
    ensures
        return_bodies(msgs) is None,
    decreases msgs.len() - k,
{
    if k < msgs.len() {
        assert(msgs.subrange(0, k + 1).drop_last() =~= msgs.subrange(0, k));
        lemma_return_bodies_none_sticks(msgs, k + 1);
    } else {
        assert(msgs.subrange(0, k) =~= msgs);
    }
}

/// An outbound message with neither a destination nor a body, anywhere in
/// the transaction, leaves no return value to read: the transaction is
/// malformed.
pub proof fn missing_return_body_is_malformed(msgs: Seq<OutMessage>, i: int)
    requires
        0 <= i < msgs.len(),
        msgs[i].dst is None,
        msgs[i].body is None,
    ensures
        return_bodies(msgs) is None,
{
    let pre = msgs.subrange(0, i + 1);
    assert(pre.last() == msgs[i]);
    lemma_return_bodies_none_sticks(msgs, i + 1);
}

/// Selects the return-value carriers among outbound messages: those
/// without a destination. One of them without a body makes the
/// transaction malformed.
pub fn select_return_bodies(msgs: &Vec<OutMessage>) -> (r: Result<Vec<String>, TransactionError>)
    ensures
        match r {
            Ok(v) => return_bodies(msgs@) == Some(v@.map_values(|s: String| s@)),
            Err(e) => return_bodies(msgs@) is None && e == TransactionError::MalformedTransaction,
        },
{
    let mut out: Vec<String> = Vec::new();
    let mut i: usize = 0;
    while i < msgs.len()
        invariant
            i <= msgs@.len(),
            return_bodies(msgs@.subrange(0, i as int)) == Some(out@.map_values(|s: String| s@)),
        decreases msgs.len() - i,
    {
        let ghost pre = out@;
        assert(msgs@.subrange(0, i + 1).drop_last() =~= msgs@.subrange(0, i as int));
        let m = &msgs[i];
        if m.dst.is_none() {
            match &m.body {
                Some(b) => {
                    out.push(b.clone());
                    assert(out@.map_values(|s: String| s@) =~= pre.map_values(|s: String| s@).push(
                        b@,
                    ));
                },
                None => {
                    proof {
                        lemma_return_bodies_none_sticks(msgs@, i + 1);
                    }
                    return Err(TransactionError::MalformedTransaction);
                },
            }
        }
        i += 1;
    }
    assert(msgs@.subrange(0, msgs@.len() as int) =~= msgs@);
    Ok(out)
}

impl Transaction {
    /// An inbound message with a source address is internal; one without
    /// is external.
    pub fn is_internal(&self) -> (r: bool)
        ensures
            r == self.in_msg.src is Some,
    {
        self.in_msg.src.is_some()
    }
}

/// Plans the decoding of the call that a transaction made.
///
/// An inbound message without a body, or a call that matches no function,
/// gives `Ok(None)`. Otherwise the outbound messages without a destination
/// carry the return value, and one of them without a body is an error.
/// `input_id` is the function id read from the inbound body, `None` where
/// none could be read.
pub fn plan_transaction_decode(
    tx: &Transaction,
    contract: &Contract,
    method: &MethodName,
    input_id: Option<u32>,
) -> (r: Result<Option<DecodePlan>, TransactionError>)
    requires
        contract.wf(),
    ensures
        tx.in_msg.body is None ==> r == Ok::<Option<DecodePlan>, TransactionError>(None),
        tx.in_msg.body is Some ==> match r {
            Ok(None) => !has_match(contract.functions@, *method, input_id),
            Ok(Some(p)) => {
                &&& p.function < contract.functions@.len()
                &&& p.internal == tx.in_msg.src is Some
                &&& p.input_body@ == tx.in_msg.body->Some_0@
                &&& return_bodies(tx.out_msgs@) == Some(p.output_bodies@.map_values(|s: String| s@))
                &&& is_match(contract.functions@, *method, input_id, p.function as int)
            },
            Err(e) => e == TransactionError::MalformedTransaction && return_bodies(tx.out_msgs@) is None
                && has_match(contract.functions@, *method, input_id),
        },
{
    let internal = tx.is_internal();
    let body = match &tx.in_msg.body {
        Some(b) => b,
        None => return Ok(None),
    };
    let function = match contract.match_function(method, input_id) {
        Some(i) => i,
        None => return Ok(None),
    };
    assert(has_match(contract.functions@, *method, input_id));
    let output_bodies = select_return_bodies(&tx.out_msgs)?;
    let input_body = body.clone();
    assert(input_body@ == body@);
    Ok(Some(DecodePlan { function, internal, input_body, output_bodies }))
}

/// The events that a transaction emitted, in order: of each attempt, the
/// decoded event where its decoding succeeded. A body whose id matched no
/// event, or whose decoding failed, contributes nothing.
pub fn keep_decoded<T>(attempts: Vec<Option<T>>) -> (r: Vec<T>)
    ensures
        r@ == attempts@.filter(|a: Option<T>| a is Some).map_values(|a: Option<T>| a->Some_0),
{
    let ghost whole = attempts@;
    let mut out: Vec<T> = Vec::new();
    let mut rest = attempts;
    let ghost n = whole.len();
    let ghost mut i: int = 0;
    while rest.len() > 0
        invariant
            0 <= i <= n,
            n == whole.len(),
            rest@.len() + i == n,
            rest@ == whole.subrange(i, n as int),
            out@ == whole.subrange(0, i).filter(|a: Option<T>| a is Some).map_values(
                |a: Option<T>| a->Some_0,
            ),
        decreases rest.len(),
    {
        assert(rest@[0] == whole[i]);
        let a = rest.remove(0);
        assert(rest@ =~= whole.subrange(i + 1, n as int));
        assert(whole.subrange(0, i + 1).drop_last() =~= whole.subrange(0, i));
        assert(whole.subrange(0, i + 1).last() == a);
        reveal(Seq::filter);
        if let Some(t) = a {
            out.push(t);
        }
        proof {
            i = i + 1;
        }
        assert(out@ =~= whole.subrange(0, i).filter(|a: Option<T>| a is Some).map_values(
            |a: Option<T>| a->Some_0,
        ));
    }
    assert(whole.subrange(0, n as int) =~= whole);
    out
}

} // verus!
