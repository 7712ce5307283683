use vstd::prelude::*;

use crate::error::AbiError;
use crate::param_type::Param;

verus! {

/// A declared function: its name, the ids that prefix its call and its
/// answer, and its parameter lists.
#[derive(Debug)]
pub struct Function {
    pub name: String,
    pub input_id: u32,
    pub output_id: u32,
    pub header: Vec<Param>,
    pub inputs: Vec<Param>,
    pub outputs: Vec<Param>,
}

/// A declared event: its name, the id that prefixes its body and its
/// parameters.
#[derive(Debug)]
pub struct Event {
    pub name: String,
    pub id: u32,
    pub inputs: Vec<Param>,
}

/// A loaded contract interface. Function names are unique, and so are
/// event names.
#[derive(Debug)]
pub struct Contract {
    pub abi_version: u8,
    pub functions: Vec<Function>,
    pub events: Vec<Event>,
    pub data: Vec<Param>,
}

/// How the caller names the function that a message calls.
#[derive(Debug, PartialEq, Eq)]
pub enum MethodName {
    /// The function of this name.
    Known(String),
    /// The first of these names, in order, whose function id matches.
    GuessInRange(Vec<String>),
}

pub open spec fn unique_function_names(fs: Seq<Function>) -> bool {
    forall|i: int, j: int|
        0 <= i < fs.len() && 0 <= j < fs.len() && i != j ==> #[trigger] fs[i].name@ != #[trigger] fs[j].name@
}

pub open spec fn unique_event_names(es: Seq<Event>) -> bool {
    forall|i: int, j: int|
        0 <= i < es.len() && 0 <= j < es.len() && i != j ==> #[trigger] es[i].name@ != #[trigger] es[j].name@
}

/// Whether candidate `k` of `names` is function `i` of `fs` and its input
/// id is `id`.
pub open spec fn guess_hit(fs: Seq<Function>, names: Seq<String>, id: u32, k: int, i: int) -> bool {
    &&& 0 <= k < names.len()
    &&& 0 <= i < fs.len()
    &&& fs[i].name@ == names[k]@
    &&& fs[i].input_id == id
}

/// Whether a message names a function of `fs`: by its name, or by a
/// candidate whose input id is `input_id`.
pub open spec fn has_match(fs: Seq<Function>, method: MethodName, input_id: Option<u32>) -> bool {
    match method {
        MethodName::Known(name) => exists|j: int| 0 <= j < fs.len() && #[trigger] fs[j].name@ == name@,
        MethodName::GuessInRange(names) => input_id is Some && exists|k: int, i: int|
            #[trigger] guess_hit(fs, names@, input_id->Some_0, k, i),
    }
}

/// Whether function `i` of `fs` is the one that a message names: by its
/// name, or as the first candidate in list order whose input id matches.
pub open spec fn is_match(fs: Seq<Function>, method: MethodName, input_id: Option<u32>, i: int) -> bool {
    match method {
        MethodName::Known(name) => 0 <= i < fs.len() && fs[i].name@ == name@,
        MethodName::GuessInRange(names) => input_id is Some && exists|k: int|
            guess_hit(fs, names@, input_id->Some_0, k, i) && forall|k2: int, i2: int|
                0 <= k2 < k ==> !#[trigger] guess_hit(fs, names@, input_id->Some_0, k2, i2),
    }
}

/// Index of the function named `name` in `fs`, as `Contract::function` finds it.
fn find_function(fs: &Vec<Function>, name: &str) -> (r: Option<usize>)
    ensures
        match r {
            Some(i) => i < fs@.len() && fs@[i as int].name@ == name@ && forall|j: int|
                0 <= j < i ==> #[trigger] fs@[j].name@ != name@,
            None => forall|j: int| 0 <= j < fs@.len() ==> #[trigger] fs@[j].name@ != name@,
        },
{
    let mut i: usize = 0;
    while i < fs.len()
        invariant
            i <= fs@.len(),
            forall|j: int| 0 <= j < i ==> #[trigger] fs@[j].name@ != name@,
        decreases fs.len() - i,
    {
        if str_eq(fs[i].name.as_str(), name) {
            return Some(i);
        }
        i += 1;
    }
    None
}

/// Whether two strings hold the same characters.
pub fn str_eq(a: &str, b: &str) -> (r: bool)
    ensures
        r == (a@ == b@),
{
    let n = a.unicode_len();
    if n != b.unicode_len() {
        return false;
    }
    let mut i: usize = 0;
    while i < n
        invariant
            n == a@.len() == b@.len(),
            i <= n,
            forall|k: int| 0 <= k < i ==> a@[k] == b@[k],
        decreases n - i,
    {
        if a.get_char(i) != b.get_char(i) {
            return false;
        }
        i += 1;
    }
    assert(a@ =~= b@);
    true
}

impl Contract {
    pub open spec fn wf(&self) -> bool {
        unique_function_names(self.functions@) && unique_event_names(self.events@)
    }

    /// A contract of these functions, events and persistent-data
    /// parameters; `None` where two functions or two events share a name.
    pub fn new(abi_version: u8, functions: Vec<Function>, events: Vec<Event>, data: Vec<Param>) -> (r:
        Option<Contract>)
        ensures
            match r {
                Some(c) => c.wf() && c.abi_version == abi_version && c.functions@ == functions@
                    && c.events@ == events@ && c.data@ == data@,
                None => !(unique_function_names(functions@) && unique_event_names(events@)),
            },
    {
        let mut i: usize = 0;
        while i < functions.len()
            invariant
                i <= functions@.len(),
                forall|a: int, b: int|
                    0 <= a < i && 0 <= b < functions@.len() && a != b ==> #[trigger] functions@[a].name@
                        != #[trigger] functions@[b].name@,
            decreases functions.len() - i,
        {
            let mut j: usize = 0;
            while j < functions.len()
                invariant
                    i < functions@.len(),
                    j <= functions@.len(),
                    forall|a: int, b: int|
                        0 <= a < i && 0 <= b < functions@.len() && a != b ==> #[trigger] functions@[a].name@
                            != #[trigger] functions@[b].name@,
                    forall|b: int|
                        0 <= b < j && b != i ==> functions@[i as int].name@ != #[trigger] functions@[b].name@,
                decreases functions.len() - j,
            {
                if i != j && str_eq(functions[i].name.as_str(), functions[j].name.as_str()) {
                    return None;
                }
                j += 1;
            }
            i += 1;
        }
        let mut i: usize = 0;
        while i < events.len()
            invariant
                unique_function_names(functions@),
                i <= events@.len(),
                forall|a: int, b: int|
                    0 <= a < i && 0 <= b < events@.len() && a != b ==> #[trigger] events@[a].name@
                        != #[trigger] events@[b].name@,
            decreases events.len() - i,
        {
            let mut j: usize = 0;
            while j < events.len()
                invariant
                    unique_function_names(functions@),
                    i < events@.len(),
                    j <= events@.len(),
                    forall|a: int, b: int|
                        0 <= a < i && 0 <= b < events@.len() && a != b ==> #[trigger] events@[a].name@
                            != #[trigger] events@[b].name@,
                    forall|b: int|
                        0 <= b < j && b != i ==> events@[i as int].name@ != #[trigger] events@[b].name@,
                decreases events.len() - j,
            {
                if i != j && str_eq(events[i].name.as_str(), events[j].name.as_str()) {
                    return None;
                }
                j += 1;
            }
            i += 1;
        }
        Some(Contract { abi_version, functions, events, data })
    }

    /// Known-name lookup: the index of the function called `name`, or
    /// `None` where the contract declares no such function.
    pub fn function(&self, name: &str) -> (r: Option<usize>)
        ensures
            match r {
                Some(i) => i < self.functions@.len() && self.functions@[i as int].name@ == name@,
                None => forall|j: int|
                    0 <= j < self.functions@.len() ==> #[trigger] self.functions@[j].name@ != name@,
            },
    {
        find_function(&self.functions, name)
    }

    /// The first declared event whose id is `id`: the only event whose
    /// decoding a body with that id prefix is tried with.
    pub fn event_by_id(&self, id: u32) -> (r: Option<usize>)
        ensures
            match r {
                Some(i) => i < self.events@.len() && self.events@[i as int].id == id && forall|j: int|
                    0 <= j < i ==> #[trigger] self.events@[j].id != id,
                None => forall|j: int| 0 <= j < self.events@.len() ==> #[trigger] self.events@[j].id != id,
            },
    {
        let mut i: usize = 0;
        while i < self.events.len()
            invariant
                i <= self.events@.len(),
                forall|j: int| 0 <= j < i ==> #[trigger] self.events@[j].id != id,
            decreases self.events.len() - i,
        {
            if self.events[i].id == id {
                return Some(i);
            }
            i += 1;
        }
        None
    }

    /// Guess-in-range matching: the function of the first candidate, in
    /// list order, that the contract declares and whose input id is `id`.
    /// No match is `None`, not an error.
    pub fn guess_in_range(&self, names: &Vec<String>, id: u32) -> (r: Option<usize>)
        requires
            self.wf(),
        ensures
            match r {
                Some(i) => exists|k: int|
                    guess_hit(self.functions@, names@, id, k, i as int) && forall|k2: int, i2: int|
                        0 <= k2 < k ==> !#[trigger] guess_hit(self.functions@, names@, id, k2, i2),
                None => forall|k: int, i: int| !#[trigger] guess_hit(self.functions@, names@, id, k, i),
            },
    {
        let mut k: usize = 0;
        while k < names.len()
            invariant
                self.wf(),
                k <= names@.len(),
                forall|k2: int, i2: int|
                    0 <= k2 < k ==> !#[trigger] guess_hit(self.functions@, names@, id, k2, i2),
            decreases names.len() - k,
        {
            match self.function(names[k].as_str()) {
                Some(i) => {
                    if self.functions[i].input_id == id {
                        assert(guess_hit(self.functions@, names@, id, k as int, i as int));
                        return Some(i);
                    }
                    assert forall|i2: int| !guess_hit(self.functions@, names@, id, k as int, i2) by {
                        if guess_hit(self.functions@, names@, id, k as int, i2) && i2 != i {
                            assert(self.functions@[i2].name@ == self.functions@[i as int].name@);
                        }
                    }
                },
                None => {},
            }
            k += 1;
        }
        None
    }

    /// The function that a message calls, by either mode. `input_id` is the
    /// id read from the message body, `None` where none could be read.
    pub fn match_function(&self, method: &MethodName, input_id: Option<u32>) -> (r: Option<usize>)
        requires
            self.wf(),
        ensures
            match r {
                Some(i) => i < self.functions@.len() && is_match(self.functions@, *method, input_id, i as int),
                None => !has_match(self.functions@, *method, input_id),
            },
    {
        match method {
            MethodName::Known(name) => self.function(name.as_str()),
            MethodName::GuessInRange(names) => match input_id {
                Some(id) => self.guess_in_range(names, id),
                None => None,
            },
        }
    }
}

} // verus!

verus! {

/// The big-endian number in the first four bytes of `b`.
pub open spec fn be_u32(b: Seq<u8>) -> int {
    (b[0] as u32) * 0x1000000 + (b[1] as u32) * 0x10000 + (b[2] as u32) * 0x100 + (b[3] as u32)
}

/// The function or event id at the front of a cell's data: its first 32
/// bits, big-endian. `None` where the data is shorter than that.
pub fn read_function_id(data: &[u8]) -> (r: Option<u32>)
    ensures
        data@.len() >= 4 ==> r is Some && r->Some_0 as int == be_u32(data@),
        data@.len() < 4 ==> r is None,
{
    if data.len() < 4 {
        return None;
    }
    let id = (data[0] as u32) * 0x1000000 + (data[1] as u32) * 0x10000 + (data[2] as u32) * 0x100
        + (data[3] as u32);
    Some(id)
}

} // verus!

verus! {

/// The string that a JSON text holds, where it is a JSON string.
pub uninterp spec fn json_string(s: Seq<char>) -> Option<Seq<char>>;

/// The strings that a JSON text holds, where it is an array of strings.
pub uninterp spec fn json_string_list(s: Seq<char>) -> Option<Seq<Seq<char>>>;

/// Relies on `serde_json::from_str::<String>`: the result depends on the
/// text alone.
#[verifier::external_body]
fn parse_json_string(s: &str) -> (r: Option<String>)
    ensures
        r is Some <==> json_string(s@) is Some,
        r is Some ==> r->Some_0@ == json_string(s@)->Some_0,
{
    serde_json::from_str::<String>(s).ok()
}

/// Relies on `serde_json::from_str::<Vec<String>>`: the result depends on
/// the text alone.
#[verifier::external_body]
fn parse_json_string_list(s: &str) -> (r: Option<Vec<String>>)
    ensures
        r is Some <==> json_string_list(s@) is Some,
        r is Some ==> r->Some_0@.map_values(|x: String| x@) == json_string_list(s@)->Some_0,
{
    serde_json::from_str::<Vec<String>>(s).ok()
}

/// The method name that a caller's argument gives: a string names one
/// function, an array of strings lists the candidates to guess among, and
/// anything else is refused. `as_string` and `as_list` are the argument
/// read as either.
pub fn method_name_from(as_string: Option<String>, as_list: Option<Vec<String>>) -> (r: Result<
    MethodName,
    AbiError,
>)
    ensures
        match as_string {
            Some(n) => r == Ok::<MethodName, AbiError>(MethodName::Known(n)),
            None => match as_list {
                Some(l) => r == Ok::<MethodName, AbiError>(MethodName::GuessInRange(l)),
                None => r == Err::<MethodName, AbiError>(AbiError::ExpectedStringOrArray),
            },
        },
{
    match as_string {
        Some(n) => Ok(MethodName::Known(n)),
        None => match as_list {
            Some(l) => Ok(MethodName::GuessInRange(l)),
            None => Err(AbiError::ExpectedStringOrArray),
        },
    }
}

/// Reads a method name from JSON text: a JSON string or an array of
/// strings.
pub fn parse_method_name(value: &str) -> (r: Result<MethodName, AbiError>)
    ensures
        match json_string(value@) {
            Some(n) => r matches Ok(MethodName::Known(k)) && k@ == n,
            None => match json_string_list(value@) {
                Some(l) => r matches Ok(MethodName::GuessInRange(v)) && v@.map_values(
                    |x: String| x@,
                ) == l,
                None => r == Err::<MethodName, AbiError>(AbiError::ExpectedStringOrArray),
            },
        },
{
    let as_string = parse_json_string(value);
    if as_string.is_some() {
        return method_name_from(as_string, None);
    }
    let as_list = parse_json_string_list(value);
    method_name_from(None, as_list)
}

} // verus!

verus! {

/// Whether candidate `k` of `names` is function `i` of `fs` and its output
/// id is `id`.
pub open spec fn answer_hit(fs: Seq<Function>, names: Seq<String>, id: u32, k: int, i: int) -> bool {
    &&& 0 <= k < names.len()
    &&& 0 <= i < fs.len()
    &&& fs[i].name@ == names[k]@
    &&& fs[i].output_id == id
}

/// Whether candidate `k` of `names` is event `i` of `es` and its id is `id`.
pub open spec fn event_hit(es: Seq<Event>, names: Seq<String>, id: u32, k: int, i: int) -> bool {
    &&& 0 <= k < names.len()
    &&& 0 <= i < es.len()
    &&& es[i].name@ == names[k]@
    &&& es[i].id == id
}

impl Contract {
    /// Guess-in-range matching of an answer: the function of the first
    /// candidate, in list order, that the contract declares and whose
    /// output id is `id`.
    pub fn guess_output_in_range(&self, names: &Vec<String>, id: u32) -> (r: Option<usize>)
        requires
            self.wf(),
        ensures
            match r {
                Some(i) => exists|k: int|
                    answer_hit(self.functions@, names@, id, k, i as int) && forall|k2: int, i2: int|
                        0 <= k2 < k ==> !#[trigger] answer_hit(self.functions@, names@, id, k2, i2),
                None => forall|k: int, i: int| !#[trigger] answer_hit(self.functions@, names@, id, k, i),
            },
    {
        let mut k: usize = 0;
        while k < names.len()
            invariant
                self.wf(),
                k <= names@.len(),
                forall|k2: int, i2: int|
                    0 <= k2 < k ==> !#[trigger] answer_hit(self.functions@, names@, id, k2, i2),
            decreases names.len() - k,
        {
            match self.function(names[k].as_str()) {
                Some(i) => {
                    if self.functions[i].output_id == id {
                        assert(answer_hit(self.functions@, names@, id, k as int, i as int));
                        return Some(i);
                    }
                    assert forall|i2: int| !answer_hit(self.functions@, names@, id, k as int, i2) by {
                        if answer_hit(self.functions@, names@, id, k as int, i2) && i2 != i {
                            assert(self.functions@[i2].name@ == self.functions@[i as int].name@);
                        }
                    }
                },
                None => {},
            }
            k += 1;
        }
        None
    }

    /// The function whose answer a message carries, by either mode.
    /// `output_id` is the id read from the message body, `None` where none
    /// could be read.
    pub fn match_output(&self, method: &MethodName, output_id: Option<u32>) -> (r: Option<usize>)
        requires
            self.wf(),
        ensures
            match method {
                MethodName::Known(name) => match r {
                    Some(i) => i < self.functions@.len() && self.functions@[i as int].name@ == name@,
                    None => forall|j: int|
                        0 <= j < self.functions@.len() ==> #[trigger] self.functions@[j].name@ != name@,
                },
                MethodName::GuessInRange(names) => match output_id {
                    None => r is None,
                    Some(id) => match r {
                        Some(i) => exists|k: int|
                            answer_hit(self.functions@, names@, id, k, i as int) && forall|k2: int, i2: int|
                                0 <= k2 < k ==> !#[trigger] answer_hit(self.functions@, names@, id, k2, i2),
                        None => forall|k: int, i: int|
                            !#[trigger] answer_hit(self.functions@, names@, id, k, i),
                    },
                },
            },
    {
        match method {
            MethodName::Known(name) => self.function(name.as_str()),
            MethodName::GuessInRange(names) => match output_id {
                Some(id) => self.guess_output_in_range(names, id),
                None => None,
            },
        }
    }

    /// The index of the event called `name`, or `None` where the contract
    /// declares no such event.
    pub fn event(&self, name: &str) -> (r: Option<usize>)
        ensures
            match r {
                Some(i) => i < self.events@.len() && self.events@[i as int].name@ == name@,
                None => forall|j: int| 0 <= j < self.events@.len() ==> #[trigger] self.events@[j].name@ != name@,
            },
    {
        let mut i: usize = 0;
        while i < self.events.len()
            invariant
                i <= self.events@.len(),
                forall|j: int| 0 <= j < i ==> #[trigger] self.events@[j].name@ != name@,
            decreases self.events.len() - i,
        {
            if str_eq(self.events[i].name.as_str(), name) {
                return Some(i);
            }
            i += 1;
        }
        None
    }

    /// The event that a message body carries: the one named, or the first
    /// candidate in list order whose id is `id`.
    pub fn match_event(&self, method: &MethodName, id: Option<u32>) -> (r: Option<usize>)
        requires
            self.wf(),
        ensures
            match method {
                MethodName::Known(name) => match r {
                    Some(i) => i < self.events@.len() && self.events@[i as int].name@ == name@,
                    None => forall|j: int|
                        0 <= j < self.events@.len() ==> #[trigger] self.events@[j].name@ != name@,
                },
                MethodName::GuessInRange(names) => match id {
                    None => r is None,
                    Some(id) => match r {
                        Some(i) => exists|k: int|
                            event_hit(self.events@, names@, id, k, i as int) && forall|k2: int, i2: int|
                                0 <= k2 < k ==> !#[trigger] event_hit(self.events@, names@, id, k2, i2),
                        None => forall|k: int, i: int| !#[trigger] event_hit(self.events@, names@, id, k, i),
                    },
                },
            },
    {
        match method {
            MethodName::Known(name) => self.event(name.as_str()),
            MethodName::GuessInRange(names) => match id {
                Some(id) => self.guess_event_in_range(names, id),
                None => None,
            },
        }
    }

    /// Guess-in-range matching of an event: the event of the first
    /// candidate, in list order, that the contract declares and whose id is
    /// `id`.
    pub fn guess_event_in_range(&self, names: &Vec<String>, id: u32) -> (r: Option<usize>)
        requires
            self.wf(),
        ensures
            match r {
                Some(i) => exists|k: int|
                    event_hit(self.events@, names@, id, k, i as int) && forall|k2: int, i2: int|
                        0 <= k2 < k ==> !#[trigger] event_hit(self.events@, names@, id, k2, i2),
                None => forall|k: int, i: int| !#[trigger] event_hit(self.events@, names@, id, k, i),
            },
    {
        let mut k: usize = 0;
        while k < names.len()
            invariant
                self.wf(),
                k <= names@.len(),
                forall|k2: int, i2: int|
                    0 <= k2 < k ==> !#[trigger] event_hit(self.events@, names@, id, k2, i2),
            decreases names.len() - k,
        {
            match self.event(names[k].as_str()) {
                Some(i) => {
                    if self.events[i].id == id {
                        assert(event_hit(self.events@, names@, id, k as int, i as int));
                        return Some(i);
                    }
                    assert forall|i2: int| !event_hit(self.events@, names@, id, k as int, i2) by {
                        if event_hit(self.events@, names@, id, k as int, i2) && i2 != i {
                            assert(self.events@[i2].name@ == self.events@[i as int].name@);
                        }
                    }
                },
                None => {},
            }
            k += 1;
        }
        None
    }
}

} // verus!
