use vstd::prelude::*;
use crate::quote::be_value;
use ethabi::ethereum_types::{Address, U256};
use ethabi::{ParamType, Token};
use std::str::FromStr;

verus! {

/// The ABI types of the arguments this contract sends to remote contracts.
#[derive(Clone, Copy, PartialEq, Eq, Structural)]
pub enum AbiKind {
    Address,
    Uint256,
    AddressArray,
    Uint256Array,
}

/// An argument of a remote call. `Word` is a 256-bit unsigned number as its 32
/// big-endian bytes.
pub enum AbiArg {
    Address([u8; 20]),
    Uint(u128),
    Word([u8; 32]),
    Addresses(Vec<[u8; 20]>),
    Uints(Vec<u128>),
}

/// What an argument stands for: addresses as their bytes, numbers as numbers.
pub enum AbiValue {
    Address(Seq<u8>),
    Uint(nat),
    Addresses(Seq<Seq<u8>>),
    Uints(Seq<nat>),
}

pub open spec fn abi_value(a: AbiArg) -> AbiValue {
    match a {
        AbiArg::Address(b) => AbiValue::Address(b@),
        AbiArg::Uint(n) => AbiValue::Uint(n as nat),
        AbiArg::Word(w) => AbiValue::Uint(be_value(w@)),
        AbiArg::Addresses(v) => AbiValue::Addresses(v@.map_values(|b: [u8; 20]| b@)),
        AbiArg::Uints(v) => AbiValue::Uints(v@.map_values(|n: u128| n as nat)),
    }
}

pub open spec fn abi_kind(a: AbiValue) -> AbiKind {
    match a {
        AbiValue::Address(_) => AbiKind::Address,
        AbiValue::Uint(_) => AbiKind::Uint256,
        AbiValue::Addresses(_) => AbiKind::AddressArray,
        AbiValue::Uints(_) => AbiKind::Uint256Array,
    }
}

pub open spec fn abi_values(args: Seq<AbiArg>) -> Seq<AbiValue> {
    args.map_values(|a: AbiArg| abi_value(a))
}

/// The four-byte selector of function `name` with parameters of `kinds`: the
/// head of the Keccak-256 digest of its canonical signature.
pub uninterp spec fn abi_selector(name: Seq<char>, kinds: Seq<AbiKind>) -> Seq<u8>;

/// The head-and-tail ABI encoding of a list of arguments.
pub uninterp spec fn abi_encoding(args: Seq<AbiValue>) -> Seq<u8>;

/// The address that a hexadecimal string spells, if it spells one.
pub uninterp spec fn evm_address(text: Seq<char>) -> Option<Seq<u8>>;

/// The calldata of a call of `name` with `args`: selector, then encoding.
pub open spec fn call_data(name: Seq<char>, args: Seq<AbiValue>) -> Seq<u8> {
    abi_selector(name, args.map_values(|a: AbiValue| abi_kind(a))) + abi_encoding(args)
}

/// Relies on ethabi::short_signature: four bytes, determined by the name and
/// the parameter types.
#[verifier::external_body]
fn selector(name: &str, kinds: &Vec<AbiKind>) -> (r: Vec<u8>)
    ensures
        r@ == abi_selector(name@, kinds@),
        r@.len() == 4,
{
    let params: Vec<ParamType> = kinds.iter().map(|k| match k {
        AbiKind::Address => ParamType::Address,
        AbiKind::Uint256 => ParamType::Uint(256),
        AbiKind::AddressArray => ParamType::Array(Box::new(ParamType::Address)),
        AbiKind::Uint256Array => ParamType::Array(Box::new(ParamType::Uint(256))),
    }).collect();
    ethabi::short_signature(name, &params).to_vec()
}

/// Relies on ethabi::encode: the encoding is determined by the tokens.
#[verifier::external_body]
fn encode(args: &Vec<AbiArg>) -> (r: Vec<u8>)
    ensures
        r@ == abi_encoding(abi_values(args@)),
{
    let tokens: Vec<Token> = args.iter().map(|a| match a {
        AbiArg::Address(b) => Token::Address(Address::from(*b)),
        AbiArg::Uint(n) => Token::Uint(U256::from(*n)),
        AbiArg::Word(w) => Token::Uint(U256::from_big_endian(w)),
        AbiArg::Addresses(v) => Token::Array(v.iter().map(|b| Token::Address(Address::from(*b))).collect()),
        AbiArg::Uints(v) => Token::Array(v.iter().map(|n| Token::Uint(U256::from(*n))).collect()),
    }).collect();
    ethabi::encode(&tokens)
}

/// Relies on `FromStr` of ethabi's Address (fixed-hash H160): the parse is
/// determined by the text.
#[verifier::external_body]
fn parse_address(text: &str) -> (r: Option<[u8; 20]>)
    ensures
        match r {
            Some(a) => evm_address(text@) == Some(a@),
            None => evm_address(text@).is_none(),
        },
{
    Address::from_str(text).ok().map(|a| a.0)
}

/// Parses a hexadecimal EVM address (an optional `0x`, then forty digits).
pub fn parse_evm_address(text: &String) -> (r: Option<[u8; 20]>)
    ensures
        match r {
            Some(a) => evm_address(text@) == Some(a@),
            None => evm_address(text@).is_none(),
        },
{
    parse_address(text.as_str())
}

/// Parses each of `texts` as an address; `None` where any one fails.
pub fn parse_evm_addresses(texts: &Vec<String>) -> (r: Option<Vec<[u8; 20]>>)
    ensures
        r.is_some() <==> forall|i: int| 0 <= i < texts@.len() ==> evm_address(#[trigger] texts@[i]@).is_some(),
        r.is_some() ==> r.unwrap()@.len() == texts@.len() && forall|i: int|
            0 <= i < texts@.len() ==> evm_address(#[trigger] texts@[i]@) == Some(r.unwrap()@[i]@),
{
    let mut out: Vec<[u8; 20]> = Vec::new();
    let mut i: usize = 0;
    while i < texts.len()
        invariant
            i <= texts@.len(),
            out@.len() == i,
            forall|j: int| 0 <= j < i ==> evm_address(#[trigger] texts@[j]@) == Some(out@[j]@),
        decreases texts@.len() - i,
    {
        match parse_evm_address(&texts[i]) {
            Some(a) => out.push(a),
            None => return None,
        }
        i = i + 1;
    }
    Some(out)
}

/// The calldata of a call of function `name` with `args`: the selector of the
/// name and the argument types, then the encoded arguments.
pub fn encode_call(name: &str, args: &Vec<AbiArg>) -> (r: Vec<u8>)
    ensures
        r@ == call_data(name@, abi_values(args@)),
{
    let mut kinds: Vec<AbiKind> = Vec::new();
    let mut i: usize = 0;
    while i < args.len()
        invariant
            i <= args@.len(),
            kinds@ == abi_values(args@).subrange(0, i as int).map_values(|a: AbiValue| abi_kind(a)),
        decreases args@.len() - i,
    {
        let k = match &args[i] {
            AbiArg::Address(_) => AbiKind::Address,
            AbiArg::Uint(_) => AbiKind::Uint256,
            AbiArg::Word(_) => AbiKind::Uint256,
            AbiArg::Addresses(_) => AbiKind::AddressArray,
            AbiArg::Uints(_) => AbiKind::Uint256Array,
        };
        kinds.push(k);
        assert(kinds@ =~= abi_values(args@).subrange(0, i + 1).map_values(|a: AbiValue| abi_kind(a)));
        i = i + 1;
    }
    assert(abi_values(args@).subrange(0, i as int) =~= abi_values(args@));
    let mut out = selector(name, &kinds);
    let mut tail = encode(args);
    out.append(&mut tail);
    out
}

} // verus!
