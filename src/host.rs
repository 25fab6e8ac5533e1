use vstd::prelude::*;
use vstd::string::StringSliceAdditionalSpecFns;

use crate::cache::ModuleCache;
use crate::checksum::Checksum;
use crate::error::ErrorKind;
use crate::link::LinkEvent;

verus! {

/// How a call into the host ended, as the host's status code tells it.
#[derive(Clone, Copy, Debug, PartialEq, Eq, Structural)]
pub enum HostStatus {
    Success,
    /// The host panicked.
    Panic,
    /// The host was handed a bad argument.
    BadArgument,
    /// The host ran out of gas.
    OutOfGas,
    /// The host could not serialize its answer.
    CannotSerialize,
    /// An error that belongs to the contract.
    User,
    /// A code the host should never send.
    Other,
}

/// What went wrong in a call into the host.
#[derive(Debug)]
pub enum HostError {
    ForeignPanic,
    BadArgument,
    OutOfGas,
    CannotSerialize,
    /// An error for the contract, with the host's message.
    User { message: Vec<u8> },
    /// An unexpected error, with the host's message.
    Unknown { message: Vec<u8> },
    /// The host reported success but handed no output.
    UnsetOutput,
}

pub open spec fn status_of(code: i32) -> HostStatus {
    if code == 0 {
        HostStatus::Success
    } else if code == 1 {
        HostStatus::Panic
    } else if code == 2 {
        HostStatus::BadArgument
    } else if code == 3 {
        HostStatus::OutOfGas
    } else if code == 4 {
        HostStatus::CannotSerialize
    } else if code == 5 {
        HostStatus::User
    } else {
        HostStatus::Other
    }
}

impl HostStatus {
    /// Reads a status code; unknown codes are `Other`.
    pub fn from_code(code: i32) -> (r: HostStatus)
        ensures
            r == status_of(code),
    {
        match code {
            0 => HostStatus::Success,
            1 => HostStatus::Panic,
            2 => HostStatus::BadArgument,
            3 => HostStatus::OutOfGas,
            4 => HostStatus::CannotSerialize,
            5 => HostStatus::User,
            _ => HostStatus::Other,
        }
    }
}

/// The upper-case hexadecimal digit of a number below 16, as an ASCII byte.
pub open spec fn hex_digit(n: u8) -> u8 {
    if n < 10 {
        (n + 48) as u8
    } else {
        (n + 55) as u8
    }
}

/// Bytes in upper-case hexadecimal, two digits each, high digit first.
pub open spec fn upper_hex(b: Seq<u8>) -> Seq<u8>
    decreases b.len(),
{
    if b.len() == 0 {
        Seq::empty()
    } else {
        upper_hex(b.drop_last()) + seq![hex_digit(b.last() / 16), hex_digit(b.last() % 16)]
    }
}

/// Relies on hex::encode_upper: two upper-case digits per byte, in order, all ASCII.
#[verifier::external_body]
fn encode_upper_hex(b: &[u8]) -> (r: Vec<u8>)
    ensures
        r@ == upper_hex(b@),
{
    hex::encode_upper(b).into_bytes()
}

/// An address in upper-case hexadecimal, as messages about it show it.
pub fn address_hex(address: &[u8]) -> (r: Vec<u8>)
    ensures
        r@ == upper_hex(address@),
{
    encode_upper_hex(address)
}

/// The message of a failed resolution of `address` where the host left none.
pub open spec fn resolution_default_message(address: Seq<u8>) -> Seq<u8> {
    "Failed contract call to : ".spec_bytes() + upper_hex(address)
}

/// The message of a failed resolution of `address`: the host's, or the default.
pub fn resolution_failure_message(address: &[u8], host_message: Option<Vec<u8>>) -> (r: Vec<u8>)
    ensures
        r@ == match host_message {
            Some(m) => m@,
            None => resolution_default_message(address@),
        },
{
    match host_message {
        Some(m) => m,
        None => {
            let mut out = vstd::slice::slice_to_vec("Failed contract call to : ".as_bytes());
            let mut digits = address_hex(address);
            out.append(&mut digits);
            out
        },
    }
}

/// The error of a call into the host, from its status and the message it left.
/// `default_message` stands in where the host left none.
pub fn host_error(status: HostStatus, message: Option<Vec<u8>>, default_message: Vec<u8>) -> (r: Option<HostError>)
    ensures
        status == HostStatus::Success <==> r is None,
        status == HostStatus::Panic ==> r == Some(HostError::ForeignPanic),
        status == HostStatus::BadArgument ==> r == Some(HostError::BadArgument),
        status == HostStatus::OutOfGas ==> r == Some(HostError::OutOfGas),
        status == HostStatus::CannotSerialize ==> r == Some(HostError::CannotSerialize),
        status == HostStatus::User ==> r is Some && r->Some_0 is User
            && r->Some_0->User_message@ == (if message is Some { message->Some_0@ } else { default_message@ }),
        status == HostStatus::Other ==> r is Some && r->Some_0 is Unknown
            && r->Some_0->Unknown_message@ == (if message is Some { message->Some_0@ } else { default_message@ }),
{
    match status {
        HostStatus::Success => None,
        HostStatus::Panic => Some(HostError::ForeignPanic),
        HostStatus::BadArgument => Some(HostError::BadArgument),
        HostStatus::OutOfGas => Some(HostError::OutOfGas),
        HostStatus::CannotSerialize => Some(HostError::CannotSerialize),
        HostStatus::User => Some(HostError::User { message: message.unwrap_or(default_message) }),
        HostStatus::Other => Some(HostError::Unknown { message: message.unwrap_or(default_message) }),
    }
}

/// The answer of a call into the host that hands back bytes: the error its status
/// tells, else its output, which must be there.
pub fn host_output(code: i32, output: Option<Vec<u8>>, message: Option<Vec<u8>>, default_message: Vec<u8>) -> (r: Result<Vec<u8>, HostError>)
    ensures
        status_of(code) == HostStatus::Success && output is Some ==> r is Ok && r->Ok_0@ == output->Some_0@,
        status_of(code) == HostStatus::Success && output is None ==> r is Err && r->Err_0 is UnsetOutput,
        status_of(code) == HostStatus::Panic ==> r is Err && r->Err_0 is ForeignPanic,
        status_of(code) == HostStatus::BadArgument ==> r is Err && r->Err_0 is BadArgument,
        status_of(code) == HostStatus::OutOfGas ==> r is Err && r->Err_0 is OutOfGas,
        status_of(code) == HostStatus::CannotSerialize ==> r is Err && r->Err_0 is CannotSerialize,
        status_of(code) == HostStatus::User ==> r is Err && r->Err_0 is User
            && r->Err_0->User_message@ == (if message is Some { message->Some_0@ } else { default_message@ }),
        status_of(code) == HostStatus::Other ==> r is Err && r->Err_0 is Unknown
            && r->Err_0->Unknown_message@ == (if message is Some { message->Some_0@ } else { default_message@ }),
{
    match host_error(HostStatus::from_code(code), message, default_message) {
        Some(e) => Err(e),
        None => match output {
            Some(v) => Ok(v),
            None => Err(HostError::UnsetOutput),
        },
    }
}

/// The event that the host's resolution of `address` makes for a dynamic link call:
/// resolved where the host succeeded and handed an environment and a well-formed
/// checksum, failed otherwise, with the reason. Its cost is charged either way.
pub fn resolution_event(
    code: i32,
    used_gas: u64,
    env: &Option<Vec<u8>>,
    checksum: &Option<Vec<u8>>,
    host_message: Option<Vec<u8>>,
    address: &[u8],
) -> (r: LinkEvent)
    ensures
        (status_of(code) == HostStatus::Success && env is Some && checksum is Some && checksum->Some_0@.len() == 32)
            ==> r == (LinkEvent::Resolved { cost: used_gas }),
        status_of(code) != HostStatus::Success ==> r is ResolutionFailed && r->ResolutionFailed_cost == used_gas
            && r->ResolutionFailed_message@ == match host_message {
                Some(m) => m@,
                None => resolution_default_message(address@),
            },
        status_of(code) == HostStatus::Success && env is None ==> r is ResolutionFailed
            && r->ResolutionFailed_cost == used_gas
            && r->ResolutionFailed_message@ == "invalid contract env".spec_bytes(),
        status_of(code) == HostStatus::Success && env is Some && !(checksum is Some && checksum->Some_0@.len() == 32)
            ==> r is ResolutionFailed && r->ResolutionFailed_cost == used_gas
            && r->ResolutionFailed_message@ == "invalid checksum".spec_bytes(),
{
    if HostStatus::from_code(code) != HostStatus::Success {
        return LinkEvent::ResolutionFailed { cost: used_gas, message: resolution_failure_message(address, host_message) };
    }
    if env.is_none() {
        return LinkEvent::ResolutionFailed {
            cost: used_gas,
            message: vstd::slice::slice_to_vec("invalid contract env".as_bytes()),
        };
    }
    let well_formed = match checksum {
        Some(c) => c.len() == 32,
        None => false,
    };
    if well_formed {
        LinkEvent::Resolved { cost: used_gas }
    } else {
        LinkEvent::ResolutionFailed { cost: used_gas, message: vstd::slice::slice_to_vec("invalid checksum".as_bytes()) }
    }
}

/// The compiled module of a contract that the host resolved: the host must have
/// succeeded and handed a well-formed checksum. `Ok(None)` where the module is not
/// in memory; the caller then compiles the stored bytecode.
pub fn resolved_module<M: Clone>(cache: &mut ModuleCache<M>, code: i32, checksum: &Option<Vec<u8>>) -> (r: Result<Option<M>, ErrorKind>)
    requires
        old(cache).wf(),
    ensures
        final(cache).wf(),
        forall|key: Seq<u8>| #[trigger] final(cache).stored(key) == old(cache).stored(key),
        final(cache).pinned_keys() == old(cache).pinned_keys(),
        status_of(code) != HostStatus::Success ==> r == Err::<Option<M>, ErrorKind>(ErrorKind::HostResolutionFailure)
            && *final(cache) == *old(cache),
        status_of(code) == HostStatus::Success && !(checksum is Some && checksum->Some_0@.len() == 32)
            ==> r == Err::<Option<M>, ErrorKind>(ErrorKind::ArgumentError) && *final(cache) == *old(cache),
        status_of(code) == HostStatus::Success && checksum is Some && checksum->Some_0@.len() == 32 ==> {
            &&& r is Ok
            &&& r->Ok_0 is Some <==> (old(cache).pinned_keys().contains(checksum->Some_0@)
                || old(cache).recent_keys().contains(checksum->Some_0@))
            &&& r->Ok_0 is None <==> old(cache).module_under(checksum->Some_0@) is None
            &&& r->Ok_0 is Some ==> cloned(old(cache).module_under(checksum->Some_0@)->Some_0, r->Ok_0->Some_0)
        },
{
    if HostStatus::from_code(code) != HostStatus::Success {
        return Err(ErrorKind::HostResolutionFailure);
    }
    let checksum = match checksum {
        Some(c) => Checksum::from_slice(c.as_slice())?,
        None => return Err(ErrorKind::ArgumentError),
    };
    Ok(cache.get_module(&checksum))
}

} // verus!
