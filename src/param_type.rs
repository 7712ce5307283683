use vstd::prelude::*;

use crate::error::AbiError;

verus! {

/// The type of one ABI parameter.
#[derive(Debug, PartialEq, Eq)]
pub enum ParamType {
    Bool,
    Int(usize),
    Uint(usize),
    Array(Box<ParamType>),
    FixedArray(Box<ParamType>, usize),
    Mapping(Box<ParamType>, Box<ParamType>),
    Tuple(Vec<Param>),
    Cell,
    Address,
    Token,
    Bytes,
    FixedBytes(usize),
    Time,
    Expire,
    PublicKey,
    String,
    Optional(Box<ParamType>),
    Ref(Box<ParamType>),
}

/// A named parameter of a function, an event or the persistent data.
#[derive(Debug, PartialEq, Eq)]
pub struct Param {
    pub name: String,
    pub kind: ParamType,
}

/// The shape of a parameter type: the type with tuple components left out.
/// It is what a type descriptor alone determines.
pub enum Shape {
    Bool,
    Int(usize),
    Uint(usize),
    Array(Box<Shape>),
    FixedArray(Box<Shape>, usize),
    Mapping(Box<Shape>, Box<Shape>),
    Tuple,
    Cell,
    Address,
    Token,
    Bytes,
    FixedBytes(usize),
    Time,
    Expire,
    PublicKey,
    String,
    Optional(Box<Shape>),
    Ref(Box<Shape>),
}

/// The shape of a parameter type.
pub open spec fn shape_of(t: ParamType) -> Shape
    decreases t,
{
    match t {
        ParamType::Bool => Shape::Bool,
        ParamType::Int(n) => Shape::Int(n),
        ParamType::Uint(n) => Shape::Uint(n),
        ParamType::Array(b) => Shape::Array(Box::new(shape_of(*b))),
        ParamType::FixedArray(b, n) => Shape::FixedArray(Box::new(shape_of(*b)), n),
        ParamType::Mapping(k, v) => Shape::Mapping(Box::new(shape_of(*k)), Box::new(shape_of(*v))),
        ParamType::Tuple(_) => Shape::Tuple,
        ParamType::Cell => Shape::Cell,
        ParamType::Address => Shape::Address,
        ParamType::Token => Shape::Token,
        ParamType::Bytes => Shape::Bytes,
        ParamType::FixedBytes(n) => Shape::FixedBytes(n),
        ParamType::Time => Shape::Time,
        ParamType::Expire => Shape::Expire,
        ParamType::PublicKey => Shape::PublicKey,
        ParamType::String => Shape::String,
        ParamType::Optional(b) => Shape::Optional(Box::new(shape_of(*b))),
        ParamType::Ref(b) => Shape::Ref(Box::new(shape_of(*b))),
    }
}

/// No tuple inside the type has components yet.
pub open spec fn is_bare(t: ParamType) -> bool
    decreases t,
{
    match t {
        ParamType::Array(b) => is_bare(*b),
        ParamType::FixedArray(b, _) => is_bare(*b),
        ParamType::Mapping(k, v) => is_bare(*k) && is_bare(*v),
        ParamType::Tuple(c) => c@.len() == 0,
        ParamType::Optional(b) => is_bare(*b),
        ParamType::Ref(b) => is_bare(*b),
        _ => true,
    }
}

/// Whether a shape may serve as the key of a map.
pub open spec fn is_map_key(t: Shape) -> bool {
    t is Int || t is Uint || t is Address
}

pub open spec fn is_digit(c: char) -> bool {
    '0' <= c && c <= '9'
}

pub open spec fn all_digits(s: Seq<char>) -> bool {
    forall|i: int| 0 <= i < s.len() ==> is_digit(#[trigger] s[i])
}

/// The number written by a string of decimal digits.
pub open spec fn decimal_value(s: Seq<char>) -> nat
    decreases s.len(),
{
    if s.len() == 0 {
        0
    } else {
        decimal_value(s.drop_last()) * 10 + ((s.last() as u32 - '0' as u32) as nat)
    }
}

/// The numeric suffix of a keyword or the length inside brackets: a
/// non-empty run of decimal digits whose value fits a `usize`.
pub open spec fn decimal(s: Seq<char>) -> Option<usize> {
    if s.len() > 0 && all_digits(s) && decimal_value(s) <= usize::MAX {
        Some(decimal_value(s) as usize)
    } else {
        None
    }
}

/// Index of the last `[` at or before `i`, or -1.
pub open spec fn open_bracket(s: Seq<char>, i: int) -> int
    decreases i + 1,
{
    if i < 0 {
        -1
    } else if s[i] == '[' {
        i
    } else {
        open_bracket(s, i - 1)
    }
}

/// Index of the first `,` at or after `i`, or -1.
pub open spec fn first_comma(s: Seq<char>, i: int) -> int
    decreases s.len() - i,
{
    if i < 0 || i >= s.len() {
        -1
    } else if s[i] == ',' {
        i
    } else {
        first_comma(s, i + 1)
    }
}

pub open spec fn has_prefix(s: Seq<char>, p: Seq<char>) -> bool {
    s.len() >= p.len() && s.subrange(0, p.len() as int) == p
}

/// `p(` ... `)` around a non-empty or empty argument.
pub open spec fn is_call(s: Seq<char>, p: Seq<char>) -> bool {
    s.len() > p.len() && has_prefix(s, p) && s.last() == ')'
}

pub open spec fn call_arg(s: Seq<char>, p: Seq<char>) -> Seq<char> {
    s.subrange(p.len() as int, s.len() - 1)
}

pub open spec fn map_opt(o: Option<usize>, f: spec_fn(usize) -> Shape) -> Option<Shape> {
    match o {
        Some(n) => Some(f(n)),
        None => None,
    }
}

pub open spec fn wrap(o: Option<Shape>, f: spec_fn(Box<Shape>) -> Shape) -> Option<
    Shape,
> {
    match o {
        Some(t) => Some(f(Box::new(t))),
        None => None,
    }
}

/// The shape that a descriptor ending in a bracket group denotes: `T[]` is
/// an array of `T`, `T[N]` a fixed array of `N > 0` elements.
pub open spec fn parse_array(s: Seq<char>) -> Option<Shape>
    decreases s.len(), 1int,
{
    if s.len() == 0 {
        None
    } else {
        let j = open_bracket(s, s.len() - 2);
        if j < 0 || j > s.len() - 2 {
            None
        } else {
            let num = s.subrange(j + 1, s.len() - 1);
            let inner = parse_type(s.subrange(0, j));
            if num.len() == 0 {
                wrap(inner, |b: Box<Shape>| Shape::Array(b))
            } else {
                match (decimal(num), inner) {
                    (Some(n), Some(t)) => if n > 0 {
                        Some(Shape::FixedArray(Box::new(t), n))
                    } else {
                        None
                    },
                    _ => None,
                }
            }
        }
    }
}

/// The shape that `map(K,V)` denotes: `K` runs to the first comma and must
/// be an integer or an address.
pub open spec fn parse_map(s: Seq<char>) -> Option<Shape>
    decreases s.len(), 1int,
{
    if !is_call(s, seq!['m', 'a', 'p', '(']) {
        None
    } else {
        let args = call_arg(s, seq!['m', 'a', 'p', '(']);
        let c = first_comma(args, 0);
        if c < 0 || c >= args.len() {
            None
        } else {
            match (parse_type(args.subrange(0, c)), parse_type(args.subrange(c + 1, args.len() as int))) {
                (Some(k), Some(v)) => if is_map_key(k) {
                    Some(Shape::Mapping(Box::new(k), Box::new(v)))
                } else {
                    None
                },
                _ => None,
            }
        }
    }
}

/// The shape of a descriptor without nesting: a keyword, or a keyword with
/// a decimal width. `varint<N>` and `varuint<N>` read as `int<N>` and
/// `uint<N>`.
pub open spec fn parse_leaf(s: Seq<char>) -> Option<Shape> {
    if s == seq!['b', 'o', 'o', 'l'] {
        Some(Shape::Bool)
    } else if s == seq!['t', 'u', 'p', 'l', 'e'] {
        Some(Shape::Tuple)
    } else if has_prefix(s, seq!['i', 'n', 't']) {
        map_opt(decimal(s.subrange(3, s.len() as int)), |n: usize| Shape::Int(n))
    } else if has_prefix(s, seq!['u', 'i', 'n', 't']) {
        map_opt(decimal(s.subrange(4, s.len() as int)), |n: usize| Shape::Uint(n))
    } else if has_prefix(s, seq!['v', 'a', 'r', 'i', 'n', 't']) {
        map_opt(decimal(s.subrange(6, s.len() as int)), |n: usize| Shape::Int(n))
    } else if has_prefix(s, seq!['v', 'a', 'r', 'u', 'i', 'n', 't']) {
        map_opt(decimal(s.subrange(7, s.len() as int)), |n: usize| Shape::Uint(n))
    } else if s == seq!['c', 'e', 'l', 'l'] {
        Some(Shape::Cell)
    } else if s == seq!['a', 'd', 'd', 'r', 'e', 's', 's'] {
        Some(Shape::Address)
    } else if s == seq!['t', 'o', 'k', 'e', 'n'] || s == seq!['g', 'r', 'a', 'm'] {
        Some(Shape::Token)
    } else if s == seq!['b', 'y', 't', 'e', 's'] {
        Some(Shape::Bytes)
    } else if has_prefix(s, seq!['f', 'i', 'x', 'e', 'd', 'b', 'y', 't', 'e', 's']) {
        map_opt(decimal(s.subrange(10, s.len() as int)), |n: usize| Shape::FixedBytes(n))
    } else if s == seq!['t', 'i', 'm', 'e'] {
        Some(Shape::Time)
    } else if s == seq!['e', 'x', 'p', 'i', 'r', 'e'] {
        Some(Shape::Expire)
    } else if s == seq!['p', 'u', 'b', 'k', 'e', 'y'] {
        Some(Shape::PublicKey)
    } else if s == seq!['s', 't', 'r', 'i', 'n', 'g'] {
        Some(Shape::String)
    } else {
        None
    }
}

/// The shape that a type descriptor denotes, or `None` where the descriptor
/// is malformed.
///
/// A trailing bracket group binds loosest. `map(`, `optional(` and `ref(`
/// wrap descriptors that are parsed in turn; anything else is a leaf.
pub open spec fn parse_type(s: Seq<char>) -> Option<Shape>
    decreases s.len(), 2int,
{
    if s.len() > 0 && s.last() == ']' {
        parse_array(s)
    } else if is_call(s, seq!['m', 'a', 'p', '(']) {
        parse_map(s)
    } else if is_call(s, seq!['o', 'p', 't', 'i', 'o', 'n', 'a', 'l', '(']) {
        wrap(
            parse_type(call_arg(s, seq!['o', 'p', 't', 'i', 'o', 'n', 'a', 'l', '('])),
            |b: Box<Shape>| Shape::Optional(b),
        )
    } else if is_call(s, seq!['r', 'e', 'f', '(']) {
        wrap(parse_type(call_arg(s, seq!['r', 'e', 'f', '('])), |b: Box<Shape>| Shape::Ref(b))
    } else {
        parse_leaf(s)
    }
}

/// The characters of a string, in order.
pub fn chars_of(s: &str) -> (r: Vec<char>)
    ensures
        r@ == s@,
{
    let n = s.unicode_len();
    let mut r: Vec<char> = Vec::new();
    let mut i: usize = 0;
    while i < n
        invariant
            n == s@.len(),
            i <= n,
            r@ == s@.subrange(0, i as int),
        decreases n - i,
    {
        r.push(s.get_char(i));
        i += 1;
        assert(r@ =~= s@.subrange(0, i as int));
    }
    assert(r@ =~= s@);
    r
}

/// Whether `s[lo..hi]` is exactly the word `w`.
fn is_word(s: &Vec<char>, lo: usize, hi: usize, w: &[char]) -> (r: bool)
    requires
        lo <= hi <= s@.len(),
    ensures
        r == (s@.subrange(lo as int, hi as int) == w@),
{
    if hi - lo != w.len() {
        return false;
    }
    let mut i: usize = 0;
    while i < w.len()
        invariant
            lo <= hi <= s@.len(),
            hi - lo == w@.len(),
            i <= w@.len(),
            forall|k: int| 0 <= k < i ==> s@[lo + k] == w@[k],
        decreases w.len() - i,
    {
        if s[lo + i] != w[i] {
            assert(s@.subrange(lo as int, hi as int)[i as int] != w@[i as int]);
            return false;
        }
        i += 1;
    }
    assert(s@.subrange(lo as int, hi as int) =~= w@);
    true
}

/// Whether `s[lo..hi]` starts with the word `w`.
fn starts_with_word(s: &Vec<char>, lo: usize, hi: usize, w: &[char]) -> (r: bool)
    requires
        lo <= hi <= s@.len(),
    ensures
        r == has_prefix(s@.subrange(lo as int, hi as int), w@),
{
    if hi - lo < w.len() {
        return false;
    }
    let r = is_word(s, lo, lo + w.len(), w);
    assert(s@.subrange(lo as int, hi as int).subrange(0, w@.len() as int) =~= s@.subrange(
        lo as int,
        lo + w@.len(),
    ));
    r
}

proof fn lemma_decimal_prefix_monotone(s: Seq<char>, k: int)
    requires
        0 <= k <= s.len(),
        all_digits(s),
    ensures
        decimal_value(s.subrange(0, k)) <= decimal_value(s),
    decreases s.len() - k,
{
    if k < s.len() {
        lemma_decimal_prefix_monotone(s, k + 1);
        let p = s.subrange(0, k + 1);
        assert(p.drop_last() =~= s.subrange(0, k));
        assert(is_digit(s[k]));
    }
    assert(s.subrange(0, s.len() as int) =~= s);
}

/// The decimal number written in `s[lo..hi]`, as `decimal` states it.
fn parse_decimal(s: &Vec<char>, lo: usize, hi: usize) -> (r: Option<usize>)
    requires
        lo <= hi <= s@.len(),
    ensures
        r == decimal(s@.subrange(lo as int, hi as int)),
{
    let ghost sub = s@.subrange(lo as int, hi as int);
    if lo == hi {
        return None;
    }
    let mut acc: usize = 0;
    let mut i: usize = lo;
    while i < hi
        invariant
            lo <= i <= hi <= s@.len(),
            sub == s@.subrange(lo as int, hi as int),
            all_digits(sub.subrange(0, i - lo)),
            acc as nat == decimal_value(sub.subrange(0, i - lo)),
        decreases hi - i,
    {
        let c = s[i];
        let ghost pre = sub.subrange(0, i - lo);
        let ghost next = sub.subrange(0, i - lo + 1);
        assert(next.drop_last() =~= pre);
        if !('0' <= c && c <= '9') {
            assert(sub[i - lo] == c);
            return None;
        }
        let d = (c as u32 - '0' as u32) as usize;
        assert(d <= 9);
        if acc > (usize::MAX - d) / 10 {
            assert(decimal_value(next) > usize::MAX) by (nonlinear_arith)
                requires
                    acc > (usize::MAX - d) / 10,
                    decimal_value(next) == acc * 10 + d,
                    d <= 9,
            ;
            assert forall|k: int| 0 <= k < next.len() implies is_digit(#[trigger] next[k]) by {
                if k < i - lo {
                    assert(next[k] == pre[k]);
                }
            }
            proof {
                if all_digits(sub) {
                    lemma_decimal_prefix_monotone(sub, i - lo + 1);
                }
            }
            return None;
        }
        acc = acc * 10 + d;
        i += 1;
        assert forall|k: int| 0 <= k < next.len() implies is_digit(#[trigger] next[k]) by {
            if k < next.len() - 1 {
                assert(next[k] == pre[k]);
            }
        }
    }
    assert(sub.subrange(0, hi - lo) =~= sub);
    Some(acc)
}

/// `r` is what parsing the descriptor `s` gives: the bare type of the
/// shape that `parse_type` names, or the grammar error where it names none.
pub open spec fn parsed(s: Seq<char>, r: Result<ParamType, AbiError>) -> bool {
    match r {
        Ok(t) => parse_type(s) == Some(shape_of(t)) && is_bare(t),
        Err(e) => parse_type(s) is None && e == AbiError::ExpectedParamType,
    }
}

/// Absolute index of the `[` that opens the bracket group closed at `hi - 1`.
fn find_open_bracket(s: &Vec<char>, lo: usize, hi: usize) -> (r: Option<usize>)
    requires
        lo < hi <= s@.len(),
    ensures
        ({
            let sub = s@.subrange(lo as int, hi as int);
            let j = open_bracket(sub, sub.len() - 2);
            match r {
                Some(k) => lo <= k < hi - 1 && j == k - lo,
                None => j < 0,
            }
        }),
{
    let ghost sub = s@.subrange(lo as int, hi as int);
    let mut k: usize = hi - 1;
    while k > lo
        invariant
            lo <= k <= hi - 1,
            hi <= s@.len(),
            sub == s@.subrange(lo as int, hi as int),
            open_bracket(sub, sub.len() - 2) == open_bracket(sub, k - lo - 1),
        decreases k,
    {
        if s[k - 1] == '[' {
            assert(sub[k - lo - 1] == '[');
            return Some(k - 1);
        }
        assert(sub[k - lo - 1] != '[');
        k -= 1;
    }
    None
}

/// Absolute index of the first `,` in `s[lo..hi]`.
fn find_comma(s: &Vec<char>, lo: usize, hi: usize) -> (r: Option<usize>)
    requires
        lo <= hi <= s@.len(),
    ensures
        ({
            let sub = s@.subrange(lo as int, hi as int);
            let c = first_comma(sub, 0);
            match r {
                Some(k) => lo <= k < hi && c == k - lo,
                None => c < 0,
            }
        }),
{
    let ghost sub = s@.subrange(lo as int, hi as int);
    let mut k: usize = lo;
    while k < hi
        invariant
            lo <= k <= hi <= s@.len(),
            sub == s@.subrange(lo as int, hi as int),
            first_comma(sub, 0) == first_comma(sub, k - lo),
        decreases hi - k,
    {
        if s[k] == ',' {
            assert(sub[k - lo] == ',');
            return Some(k);
        }
        assert(sub[k - lo] != ',');
        k += 1;
    }
    None
}

/// Parses the width that follows a keyword of `kw_len` characters.
fn parse_width(s: &Vec<char>, lo: usize, hi: usize, kw_len: usize) -> (r: Option<usize>)
    requires
        lo + kw_len <= hi <= s@.len(),
    ensures
        r == decimal(s@.subrange(lo as int, hi as int).subrange(kw_len as int, hi - lo)),
{
    assert(s@.subrange(lo as int, hi as int).subrange(kw_len as int, hi - lo) =~= s@.subrange(
        lo + kw_len,
        hi as int,
    ));
    parse_decimal(s, lo + kw_len, hi)
}

/// `r` is the parsed form of a descriptor whose shape is `o`.
pub open spec fn parsed_as(o: Option<Shape>, r: Result<ParamType, AbiError>) -> bool {
    match r {
        Ok(t) => o == Some(shape_of(t)) && is_bare(t),
        Err(e) => o is None && e == AbiError::ExpectedParamType,
    }
}

/// Parses `s[lo..hi]`, which ends in a bracket group.
fn parse_array_range(s: &Vec<char>, lo: usize, hi: usize) -> (r: Result<ParamType, AbiError>)
    requires
        lo < hi <= s@.len(),
    ensures
        parsed_as(parse_array(s@.subrange(lo as int, hi as int)), r),
    decreases hi - lo, 0int,
{
    let ghost sub = s@.subrange(lo as int, hi as int);
    let j = match find_open_bracket(s, lo, hi) {
        Some(j) => j,
        None => return Err(AbiError::ExpectedParamType),
    };
    assert(sub.subrange(0, j - lo) =~= s@.subrange(lo as int, j as int));
    assert(sub.subrange(j - lo + 1, sub.len() - 1) =~= s@.subrange(j + 1, hi - 1));
    if j + 1 == hi - 1 {
        let inner = parse_range(s, lo, j)?;
        return Ok(ParamType::Array(Box::new(inner)));
    }
    let n = match parse_decimal(s, j + 1, hi - 1) {
        Some(n) => n,
        None => return Err(AbiError::ExpectedParamType),
    };
    if n == 0 {
        return Err(AbiError::ExpectedParamType);
    }
    let inner = parse_range(s, lo, j)?;
    Ok(ParamType::FixedArray(Box::new(inner), n))
}

/// Parses `s[lo..hi]`, which has the form `map(...)`.
fn parse_map_range(s: &Vec<char>, lo: usize, hi: usize) -> (r: Result<ParamType, AbiError>)
    requires
        lo <= hi <= s@.len(),
        is_call(s@.subrange(lo as int, hi as int), seq!['m', 'a', 'p', '(']),
    ensures
        parsed_as(parse_map(s@.subrange(lo as int, hi as int)), r),
    decreases hi - lo, 0int,
{
    let ghost sub = s@.subrange(lo as int, hi as int);
    let a = lo + 4;
    let b = hi - 1;
    let ghost args = call_arg(sub, seq!['m', 'a', 'p', '(']);
    assert(args =~= s@.subrange(a as int, b as int));
    let c = match find_comma(s, a, b) {
        Some(c) => c,
        None => return Err(AbiError::ExpectedParamType),
    };
    assert(args.subrange(0, c - a) =~= s@.subrange(a as int, c as int));
    assert(args.subrange(c - a + 1, args.len() as int) =~= s@.subrange(c + 1, b as int));
    let key = parse_range(s, a, c)?;
    let value = parse_range(s, c + 1, b)?;
    match key {
        ParamType::Int(_) | ParamType::Uint(_) | ParamType::Address => Ok(
            ParamType::Mapping(Box::new(key), Box::new(value)),
        ),
        _ => Err(AbiError::ExpectedParamType),
    }
}

fn int_type(w: Option<usize>) -> (r: Result<ParamType, AbiError>)
    ensures
        parsed_as(map_opt(w, |n: usize| Shape::Int(n)), r),
{
    match w {
        Some(n) => Ok(ParamType::Int(n)),
        None => Err(AbiError::ExpectedParamType),
    }
}

fn uint_type(w: Option<usize>) -> (r: Result<ParamType, AbiError>)
    ensures
        parsed_as(map_opt(w, |n: usize| Shape::Uint(n)), r),
{
    match w {
        Some(n) => Ok(ParamType::Uint(n)),
        None => Err(AbiError::ExpectedParamType),
    }
}

/// Parses `s[lo..hi]` as a leaf descriptor.
fn parse_leaf_range(s: &Vec<char>, lo: usize, hi: usize) -> (r: Result<ParamType, AbiError>)
    requires
        lo <= hi <= s@.len(),
    ensures
        parsed_as(parse_leaf(s@.subrange(lo as int, hi as int)), r),
{
    let ghost sub = s@.subrange(lo as int, hi as int);
    if is_word(s, lo, hi, &['b', 'o', 'o', 'l']) {
        return Ok(ParamType::Bool);
    }
    if is_word(s, lo, hi, &['t', 'u', 'p', 'l', 'e']) {
        return Ok(ParamType::Tuple(Vec::new()));
    }
    if starts_with_word(s, lo, hi, &['i', 'n', 't']) {
        return int_type(parse_width(s, lo, hi, 3));
    }
    if starts_with_word(s, lo, hi, &['u', 'i', 'n', 't']) {
        return uint_type(parse_width(s, lo, hi, 4));
    }
    if starts_with_word(s, lo, hi, &['v', 'a', 'r', 'i', 'n', 't']) {
        return int_type(parse_width(s, lo, hi, 6));
    }
    if starts_with_word(s, lo, hi, &['v', 'a', 'r', 'u', 'i', 'n', 't']) {
        return uint_type(parse_width(s, lo, hi, 7));
    }
    if is_word(s, lo, hi, &['c', 'e', 'l', 'l']) {
        return Ok(ParamType::Cell);
    }
    if is_word(s, lo, hi, &['a', 'd', 'd', 'r', 'e', 's', 's']) {
        return Ok(ParamType::Address);
    }
    if is_word(s, lo, hi, &['t', 'o', 'k', 'e', 'n']) || is_word(s, lo, hi, &['g', 'r', 'a', 'm']) {
        return Ok(ParamType::Token);
    }
    if is_word(s, lo, hi, &['b', 'y', 't', 'e', 's']) {
        return Ok(ParamType::Bytes);
    }
    if starts_with_word(s, lo, hi, &['f', 'i', 'x', 'e', 'd', 'b', 'y', 't', 'e', 's']) {
        return match parse_width(s, lo, hi, 10) {
            Some(n) => Ok(ParamType::FixedBytes(n)),
            None => Err(AbiError::ExpectedParamType),
        };
    }
    if is_word(s, lo, hi, &['t', 'i', 'm', 'e']) {
        return Ok(ParamType::Time);
    }
    if is_word(s, lo, hi, &['e', 'x', 'p', 'i', 'r', 'e']) {
        return Ok(ParamType::Expire);
    }
    if is_word(s, lo, hi, &['p', 'u', 'b', 'k', 'e', 'y']) {
        return Ok(ParamType::PublicKey);
    }
    if is_word(s, lo, hi, &['s', 't', 'r', 'i', 'n', 'g']) {
        return Ok(ParamType::String);
    }
    Err(AbiError::ExpectedParamType)
}

/// Parses the descriptor `s[lo..hi]`.
fn parse_range(s: &Vec<char>, lo: usize, hi: usize) -> (r: Result<ParamType, AbiError>)
    requires
        lo <= hi <= s@.len(),
    ensures
        parsed(s@.subrange(lo as int, hi as int), r),
    decreases hi - lo, 1int,
{
    let ghost sub = s@.subrange(lo as int, hi as int);
    if hi > lo && s[hi - 1] == ']' {
        assert(sub.last() == ']');
        return parse_array_range(s, lo, hi);
    }
    let closes = hi > lo && s[hi - 1] == ')';
    assert(closes == (sub.len() > 0 && sub.last() == ')'));
    if closes && hi - lo > 4 && starts_with_word(s, lo, hi, &['m', 'a', 'p', '(']) {
        return parse_map_range(s, lo, hi);
    }
    if closes && hi - lo > 9 && starts_with_word(
        s,
        lo,
        hi,
        &['o', 'p', 't', 'i', 'o', 'n', 'a', 'l', '('],
    ) {
        assert(call_arg(sub, seq!['o', 'p', 't', 'i', 'o', 'n', 'a', 'l', '(']) =~= s@.subrange(
            lo + 9,
            hi - 1,
        ));
        let inner = parse_range(s, lo + 9, hi - 1)?;
        return Ok(ParamType::Optional(Box::new(inner)));
    }
    if closes && hi - lo > 4 && starts_with_word(s, lo, hi, &['r', 'e', 'f', '(']) {
        assert(call_arg(sub, seq!['r', 'e', 'f', '(']) =~= s@.subrange(lo + 4, hi - 1));
        let inner = parse_range(s, lo + 4, hi - 1)?;
        return Ok(ParamType::Ref(Box::new(inner)));
    }
    parse_leaf_range(s, lo, hi)
}

/// Parses a type descriptor such as `uint8[][3]` or `map(address,uint32)`.
/// Tuples come out without components; `parse_param` attaches them.
pub fn parse_param_type(kind: &str) -> (r: Result<ParamType, AbiError>)
    ensures
        parsed(kind@, r),
{
    let s = chars_of(kind);
    assert(s@.subrange(0, s@.len() as int) =~= s@);
    parse_range(&s, 0, s.len())
}

/// Whether a type of shape `t` takes `n` components: a tuple takes a
/// non-empty list, arrays, maps, optionals and refs pass them on to their
/// element, value or inner type, and any other type takes none.
pub open spec fn accepts_components(t: Shape, n: nat) -> bool
    decreases t,
{
    match t {
        Shape::Tuple => n > 0,
        Shape::Array(b) => accepts_components(*b, n),
        Shape::FixedArray(b, _) => accepts_components(*b, n),
        Shape::Mapping(_, v) => accepts_components(*v, n),
        Shape::Optional(b) => accepts_components(*b, n),
        Shape::Ref(b) => accepts_components(*b, n),
        _ => n == 0,
    }
}

/// `r` is `t` with the components `c` attached where `t` takes them.
pub open spec fn attached(t: ParamType, c: Seq<Param>, r: ParamType) -> bool
    decreases t,
{
    match t {
        ParamType::Tuple(_) => r is Tuple && r->Tuple_0@ == c,
        ParamType::Array(b) => r matches ParamType::Array(rb) && attached(*b, c, *rb),
        ParamType::FixedArray(b, n) => r matches ParamType::FixedArray(rb, m) && m == n
            && attached(*b, c, *rb),
        ParamType::Mapping(k, v) => r matches ParamType::Mapping(rk, rv) && rk == k && attached(
            *v,
            c,
            *rv,
        ),
        ParamType::Optional(b) => r matches ParamType::Optional(rb) && attached(*b, c, *rb),
        ParamType::Ref(b) => r matches ParamType::Ref(rb) && attached(*b, c, *rb),
        _ => r == t,
    }
}

proof fn lemma_attached_keeps_shape(t: ParamType, c: Seq<Param>, r: ParamType)
    requires
        attached(t, c, r),
    ensures
        shape_of(r) == shape_of(t),
    decreases t,
{
    match t {
        ParamType::Array(b) => lemma_attached_keeps_shape(*b, c, *r->Array_0),
        ParamType::FixedArray(b, _) => lemma_attached_keeps_shape(*b, c, *r->FixedArray_0),
        ParamType::Mapping(_, v) => lemma_attached_keeps_shape(*v, c, *r->Mapping_1),
        ParamType::Optional(b) => lemma_attached_keeps_shape(*b, c, *r->Optional_0),
        ParamType::Ref(b) => lemma_attached_keeps_shape(*b, c, *r->Ref_0),
        _ => {},
    }
}

impl ParamType {
    /// Attaches tuple components to the type: to the tuple itself, or to
    /// the element, value or inner type that carries them.
    pub fn set_components(self, components: Vec<Param>) -> (r: Result<ParamType, AbiError>)
        ensures
            match r {
                Ok(u) => accepts_components(shape_of(self), components@.len()) && attached(
                    self,
                    components@,
                    u,
                ) && shape_of(u) == shape_of(self),
                Err(e) => !accepts_components(shape_of(self), components@.len()) && e
                    == AbiError::InvalidComponents,
            },
        decreases self,
    {
        let ghost c = components@;
        let r = match self {
            ParamType::Tuple(_) => {
                if components.len() == 0 {
                    Err(AbiError::InvalidComponents)
                } else {
                    Ok(ParamType::Tuple(components))
                }
            },
            ParamType::Array(b) => {
                let inner = (*b).set_components(components)?;
                Ok(ParamType::Array(Box::new(inner)))
            },
            ParamType::FixedArray(b, n) => {
                let inner = (*b).set_components(components)?;
                Ok(ParamType::FixedArray(Box::new(inner), n))
            },
            ParamType::Mapping(k, v) => {
                let inner = (*v).set_components(components)?;
                Ok(ParamType::Mapping(k, Box::new(inner)))
            },
            ParamType::Optional(b) => {
                let inner = (*b).set_components(components)?;
                Ok(ParamType::Optional(Box::new(inner)))
            },
            ParamType::Ref(b) => {
                let inner = (*b).set_components(components)?;
                Ok(ParamType::Ref(Box::new(inner)))
            },
            other => {
                if components.len() != 0 {
                    Err(AbiError::InvalidComponents)
                } else {
                    Ok(other)
                }
            },
        };
        proof {
            if r is Ok {
                lemma_attached_keeps_shape(self, c, r->Ok_0);
            }
        }
        r
    }
}

/// A parameter as an ABI document writes it: a name, a type descriptor,
/// and the components of a tuple type.
#[derive(Debug, PartialEq, Eq)]
pub struct AbiParam {
    pub name: String,
    pub param_type: String,
    pub components: Option<Vec<AbiParam>>,
}

pub open spec fn components_of(p: AbiParam) -> Seq<AbiParam> {
    match p.components {
        Some(v) => v@,
        None => Seq::empty(),
    }
}

/// `q` agrees with `p` on the name and the shape that `p`'s descriptor gives.
pub open spec fn named_as(p: AbiParam, q: Param) -> bool {
    q.name@ == p.name@ && parse_type(p.param_type@) == Some(shape_of(q.kind))
}

/// Parses a parameter: its type descriptor, then its components, which are
/// attached to the type.
///
/// The descriptor's own error comes first, then the first failing
/// component in order, then a component list that the type does not take.
pub fn parse_param(param: &AbiParam) -> (r: Result<Param, AbiError>)
    ensures
        parse_type(param.param_type@) is None ==> r == Err::<Param, AbiError>(
            AbiError::ExpectedParamType,
        ),
        r is Ok ==> named_as(*param, r->Ok_0),
        r is Ok ==> accepts_components(
            parse_type(param.param_type@)->Some_0,
            components_of(*param).len(),
        ),
        r is Ok ==> exists|t: ParamType, cs: Seq<Param>|
            #![trigger attached(t, cs, r->Ok_0.kind)]
            is_bare(t) && cs.len() == components_of(*param).len() && (forall|i: int|
                0 <= i < cs.len() ==> named_as(#[trigger] components_of(*param)[i], cs[i]))
                && attached(t, cs, r->Ok_0.kind),
        (parse_type(param.param_type@) is Some && components_of(*param).len() == 0
            && !accepts_components(parse_type(param.param_type@)->Some_0, 0)) ==> r == Err::<
            Param,
            AbiError,
        >(AbiError::InvalidComponents),
        (parse_type(param.param_type@) is Some && components_of(*param).len() == 0
            && accepts_components(parse_type(param.param_type@)->Some_0, 0)) ==> r is Ok,
    decreases param,
{
    let kind = parse_param_type(param.param_type.as_str())?;
    let ghost t = kind;
    let mut components: Vec<Param> = Vec::new();
    match &param.components {
        Some(list) => {
            let mut i: usize = 0;
            while i < list.len()
                invariant
                    i <= list@.len(),
                    components_of(*param) == list@,
                    parse_type(param.param_type@) is Some,
                    components@.len() == i,
                    forall|k: int| 0 <= k < i ==> named_as(list@[k], #[trigger] components@[k]),
                decreases list.len() - i,
            {
                proof {
                    assert(decreases_to!(*param => list@[i as int]));
                }
                let q = parse_param(&list[i])?;
                components.push(q);
                i += 1;
            }
        },
        None => {},
    }
    let ghost cs = components@;
    let kind = kind.set_components(components)?;
    assert(attached(t, cs, kind));
    Ok(Param { name: param.name.clone(), kind })
}

/// Parses a list of parameters, stopping at the first that fails.
pub fn parse_params(params: &Vec<AbiParam>) -> (r: Result<Vec<Param>, AbiError>)
    ensures
        r is Ok ==> r->Ok_0@.len() == params@.len() && forall|i: int|
            0 <= i < params@.len() ==> named_as(params@[i], #[trigger] r->Ok_0@[i]),
        (forall|i: int| 0 <= i < params@.len() ==> parse_type(#[trigger] params@[i].param_type@) is Some
            && components_of(params@[i]).len() == 0 && accepts_components(
            parse_type(params@[i].param_type@)->Some_0,
            0,
        )) ==> r is Ok,
{
    let mut out: Vec<Param> = Vec::new();
    let mut i: usize = 0;
    while i < params.len()
        invariant
            i <= params@.len(),
            out@.len() == i,
            forall|k: int| 0 <= k < i ==> named_as(params@[k], #[trigger] out@[k]),
        decreases params.len() - i,
    {
        let q = parse_param(&params[i])?;
        out.push(q);
        i += 1;
    }
    Ok(out)
}

/// The invariants of a schema type: every map key is an integer or an
/// address, and every fixed array has at least one element.
pub open spec fn well_formed(t: Shape) -> bool
    decreases t,
{
    match t {
        Shape::Array(b) => well_formed(*b),
        Shape::FixedArray(b, n) => n > 0 && well_formed(*b),
        Shape::Mapping(k, v) => is_map_key(*k) && well_formed(*k) && well_formed(*v),
        Shape::Optional(b) => well_formed(*b),
        Shape::Ref(b) => well_formed(*b),
        _ => true,
    }
}

/// Every type that the grammar accepts keeps the schema invariants: map
/// keys are integers or addresses, and fixed arrays are not empty.
pub proof fn parsed_types_are_well_formed(s: Seq<char>)
    requires
        parse_type(s) is Some,
    ensures
        well_formed(parse_type(s)->Some_0),
    decreases s.len(), 2int,
{
    if s.len() > 0 && s.last() == ']' {
        parsed_arrays_are_well_formed(s);
    } else if is_call(s, seq!['m', 'a', 'p', '(']) {
        parsed_maps_are_well_formed(s);
    } else if is_call(s, seq!['o', 'p', 't', 'i', 'o', 'n', 'a', 'l', '(']) {
        parsed_types_are_well_formed(call_arg(s, seq!['o', 'p', 't', 'i', 'o', 'n', 'a', 'l', '(']));
    } else if is_call(s, seq!['r', 'e', 'f', '(']) {
        parsed_types_are_well_formed(call_arg(s, seq!['r', 'e', 'f', '(']));
    }
}

proof fn parsed_arrays_are_well_formed(s: Seq<char>)
    requires
        s.len() > 0,
        parse_array(s) is Some,
    ensures
        well_formed(parse_array(s)->Some_0),
    decreases s.len(), 1int,
{
    let j = open_bracket(s, s.len() - 2);
    parsed_types_are_well_formed(s.subrange(0, j));
}

proof fn parsed_maps_are_well_formed(s: Seq<char>)
    requires
        parse_map(s) is Some,
    ensures
        well_formed(parse_map(s)->Some_0),
    decreases s.len(), 1int,
{
    let args = call_arg(s, seq!['m', 'a', 'p', '(']);
    let c = first_comma(args, 0);
    parsed_types_are_well_formed(args.subrange(0, c));
    parsed_types_are_well_formed(args.subrange(c + 1, args.len() as int));
}

} // verus!
