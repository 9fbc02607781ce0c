//! The contract-interface layer: a JSON interface description, its functions,
//! and the encoding and decoding of their calls, through alloy's dynamic ABI
//! machinery.
use crate::power::Power;
use alloy_dyn_abi::{DynSolValue, FunctionExt, JsonAbiExt};
use alloy_json_abi::{Function, JsonAbi};
use alloy_primitives::U256;
use vstd::prelude::*;

verus! {

#[verifier::external_type_specification]
#[verifier::external_body]
pub struct ExJsonAbi(alloy_json_abi::JsonAbi);

#[verifier::external_type_specification]
#[verifier::external_body]
pub struct ExFunction(alloy_json_abi::Function);

#[verifier::external_type_specification]
#[verifier::external_body]
pub struct ExDynSolValue(alloy_dyn_abi::DynSolValue);

#[verifier::external_type_specification]
#[verifier::external_body]
pub struct ExAbiError(alloy_dyn_abi::Error);

#[verifier::external_type_specification]
#[verifier::external_body]
pub struct ExJsonError(serde_json::Error);

/// A decoded ABI value, as far as this library reads it: unsigned integers,
/// addresses, dynamic byte strings and dynamic arrays; anything else is
/// `Other`.
#[derive(Debug)]
pub enum SolValue {
    Uint(Power),
    Address(Vec<u8>),
    Bytes(Vec<u8>),
    Array(Vec<SolValue>),
    Other,
}

/// A contract interface together with the JSON text it was read from.
pub struct ContractInterface {
    text: String,
    abi: JsonAbi,
}

/// The first overload of a named function of a contract interface.
pub struct ContractFunction {
    interface: String,
    name: String,
    function: Function,
}

impl ContractInterface {
    /// The JSON text the interface was read from.
    pub closed spec fn text(&self) -> Seq<char> {
        self.text@
    }
}

impl ContractFunction {
    /// The JSON text of the interface that declares the function.
    pub closed spec fn interface(&self) -> Seq<char> {
        self.interface@
    }

    /// The function's name.
    pub closed spec fn name(&self) -> Seq<char> {
        self.name@
    }
}

/// Whether `serde_json` reads the text `json` as a contract interface.
pub uninterp spec fn abi_parses(json: Seq<char>) -> bool;

/// Whether the interface with text `json` declares a function `name`.
pub uninterp spec fn abi_declares(json: Seq<char>, name: Seq<char>) -> bool;

/// The payload (selector and encoded arguments) of a call of function `name`
/// of the interface `json` with unsigned integer arguments `args`, or `None`
/// when they do not match its inputs.
pub uninterp spec fn abi_encoded(json: Seq<char>, name: Seq<char>, args: Seq<nat>) -> Option<Seq<u8>>;

/// The outputs that the bytes `data` returned by function `name` of the
/// interface `json` decode to, or `None` when they do not decode.
pub uninterp spec fn abi_decoded(json: Seq<char>, name: Seq<char>, data: Seq<u8>) -> Option<Seq<SolValue>>;

/// The integers that the arguments `args` stand for.
pub open spec fn arg_values(args: Seq<Power>) -> Seq<nat> {
    args.map_values(|p: Power| p.value())
}

/// Relies on `serde_json::from_str` reading a `JsonAbi`; whether it succeeds
/// depends on the text alone.
#[verifier::external_body]
pub(crate) fn parse_interface(json: &str) -> (r: Result<ContractInterface, serde_json::Error>)
    ensures
        r is Ok <==> abi_parses(json@),
        r matches Ok(i) ==> i.text() == json@,
{
    serde_json::from_str::<JsonAbi>(json).map(|abi| ContractInterface { text: json.to_string(), abi })
}

/// Relies on `JsonAbi::function`: the overloads of `name`, of which the first
/// is taken, if the interface declares one.
#[verifier::external_body]
pub(crate) fn lookup_function(iface: &ContractInterface, name: &str) -> (r: Option<ContractFunction>)
    ensures
        r is Some <==> abi_declares(iface.text(), name@),
        r matches Some(f) ==> f.interface() == iface.text() && f.name() == name@,
{
    iface.abi.function(name).and_then(|fs| fs.first()).map(
        |f| ContractFunction { interface: iface.text.clone(), name: name.to_string(), function: f.clone() },
    )
}

/// Relies on `JsonAbiExt::abi_encode_input` for `Function`, with each argument
/// passed as an unsigned 256-bit value (`DynSolValue::from(U256)`).
#[verifier::external_body]
pub(crate) fn encode_input(f: &ContractFunction, args: &Vec<Power>) -> (r: Result<Vec<u8>, alloy_dyn_abi::Error>)
    ensures
        r is Ok <==> abi_encoded(f.interface(), f.name(), arg_values(args@)) is Some,
        r matches Ok(d) ==> d@ == abi_encoded(f.interface(), f.name(), arg_values(args@)).unwrap(),
{
    let values: Vec<DynSolValue> = args.iter().map(|p| DynSolValue::from(U256::from_limbs(p.limbs))).collect();
    f.function.abi_encode_input(&values)
}

/// Relies on `FunctionExt::abi_decode_output`, without validation; each
/// output is converted to a `SolValue`.
#[verifier::external_body]
pub(crate) fn decode_output(f: &ContractFunction, data: &[u8]) -> (r: Result<Vec<SolValue>, alloy_dyn_abi::Error>)
    ensures
        r is Ok <==> abi_decoded(f.interface(), f.name(), data@) is Some,
        r matches Ok(v) ==> v@ == abi_decoded(f.interface(), f.name(), data@).unwrap(),
{
    f.function.abi_decode_output(data, false).map(|vs| vs.iter().map(sol_value).collect())
}

/// Converts a decoded `DynSolValue` variant by variant, moving its contents.
#[verifier::external_body]
fn sol_value(v: &DynSolValue) -> SolValue {
    match v {
        DynSolValue::Uint(u, _) => SolValue::Uint(Power { limbs: *u.as_limbs() }),
        DynSolValue::Address(a) => SolValue::Address(a.to_vec()),
        DynSolValue::Bytes(b) => SolValue::Bytes(b.clone()),
        DynSolValue::Array(items) => SolValue::Array(items.iter().map(sol_value).collect()),
        _ => SolValue::Other,
    }
}

} // verus!
