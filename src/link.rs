use vstd::prelude::*;

use crate::callstack::CallStack;
use crate::error::ErrorKind;
use crate::gas::{saturated_sum, GasInfo};
use crate::permission::{callee_readonly_spec, declared_readonly, set_callee_permission, CallablePoint};

verus! {

/// Where a dynamic link call stands.
#[derive(Clone, Copy, Debug, PartialEq, Eq, Structural)]
pub enum LinkPhase {
    /// Waiting for the host to resolve the callee's address.
    Resolving,
    /// Waiting for the callee's instance.
    Instantiating,
    /// Waiting for the callee's list of callable points.
    Introspecting,
    /// Waiting for the callee's export to return.
    Invoking,
    /// The call is over.
    Done,
}

/// What the driver of a call must do next.
#[derive(Debug)]
pub enum LinkAction {
    /// Instantiate the callee with this gas budget.
    Instantiate { gas_limit: u64 },
    /// Run the callee's introspection entry point, read-only.
    Introspect,
    /// Marshal the arguments and invoke the export, with this permission and call chain.
    Invoke { readonly: bool, callstack: CallStack },
    /// Report the outcome to the caller.
    Finish,
}

/// What the driver of a call observed. `used_internally` is what the callee's
/// instance has metered so far, in all.
#[derive(Debug)]
pub enum LinkEvent {
    /// The host resolved the callee, at this cost.
    Resolved { cost: u64 },
    /// The host failed to resolve the callee, at this cost, for this reason.
    ResolutionFailed { cost: u64, message: Vec<u8> },
    Instantiated,
    InstantiationFailed,
    /// The callee declared these callable points.
    Introspected { points: Vec<CallablePoint>, used_internally: u64 },
    IntrospectionFailed { used_internally: u64 },
    /// The export returned and its results were marshaled back.
    Returned { used_internally: u64 },
    /// Marshaling or the export failed.
    Failed { kind: ErrorKind, used_internally: u64 },
}

/// How a call failed, as the top-level caller is told: the kind, the contract and
/// function called, and a message where the host gave one.
#[derive(Debug)]
pub struct CallFailure {
    pub kind: ErrorKind,
    pub address: Vec<u8>,
    pub function: Vec<u8>,
    pub message: Vec<u8>,
}

/// One cross-contract call, from the caller's side.
#[derive(Debug)]
pub struct LinkCall {
    pub caller_addr: Vec<u8>,
    pub caller_stack: CallStack,
    pub caller_readonly: bool,
    pub caller_gas_left: u64,
    pub callee_addr: Vec<u8>,
    pub function: Vec<u8>,
    pub phase: LinkPhase,
    /// What the host charged to resolve the callee.
    pub resolution_cost: u64,
    /// What the callee's instance metered, once it exists.
    pub used_internally: u64,
    pub instantiated: bool,
    pub callee_readonly: bool,
    /// The reason of a failed call; `None` while running and after success.
    pub failure: Option<ErrorKind>,
    /// What the host said about a failed resolution; empty otherwise.
    pub message: Vec<u8>,
}

impl LinkCall {
    /// An instance exists exactly from instantiation on.
    pub open spec fn wf(&self) -> bool {
        &&& (self.phase == LinkPhase::Resolving || self.phase == LinkPhase::Instantiating) ==> !self.instantiated
        &&& (self.phase == LinkPhase::Introspecting || self.phase == LinkPhase::Invoking) ==> self.instantiated
    }

    /// The gas reported to the caller: the resolution cost, plus what the
    /// callee metered once it was instantiated.
    pub open spec fn reported_cost(&self) -> int {
        if self.instantiated {
            saturated_sum(self.resolution_cost as int, self.used_internally as int)
        } else {
            self.resolution_cost as int
        }
    }

    /// A call that waits for the host to resolve the callee.
    pub fn new(
        caller_addr: Vec<u8>,
        caller_stack: CallStack,
        caller_readonly: bool,
        caller_gas_left: u64,
        callee_addr: Vec<u8>,
        function: Vec<u8>,
    ) -> (r: LinkCall)
        ensures
            r.caller_addr == caller_addr,
            r.caller_stack == caller_stack,
            r.caller_readonly == caller_readonly,
            r.caller_gas_left == caller_gas_left,
            r.callee_addr == callee_addr,
            r.function == function,
            r.message@.len() == 0,
            r.wf(),
            r.phase == LinkPhase::Resolving,
            r.resolution_cost == 0,
            r.used_internally == 0,
            !r.instantiated,
            r.failure is None,
    {
        LinkCall {
            caller_addr,
            caller_stack,
            caller_readonly,
            caller_gas_left,
            callee_addr,
            function,
            phase: LinkPhase::Resolving,
            resolution_cost: 0,
            used_internally: 0,
            instantiated: false,
            callee_readonly: true,
            failure: None,
            message: Vec::new(),
        }
    }

    /// The gas to report to the caller, on success and on failure alike.
    pub fn gas_info(&self) -> (r: GasInfo)
        ensures
            r.cost == self.reported_cost(),
            r.externally_used == 0,
    {
        if self.instantiated {
            crate::gas::fold_internal_usage(GasInfo::with_cost(self.resolution_cost), self.used_internally)
        } else {
            GasInfo::with_cost(self.resolution_cost)
        }
    }

    /// The outcome of a finished call.
    pub fn outcome(&self) -> (r: Option<Result<(), ErrorKind>>)
        ensures
            self.phase != LinkPhase::Done ==> r is None,
            self.phase == LinkPhase::Done && self.failure is None ==> r == Some(Ok::<(), ErrorKind>(())),
            self.phase == LinkPhase::Done && self.failure is Some ==> r == Some(Err::<(), ErrorKind>(self.failure->Some_0)),
    {
        if self.phase != LinkPhase::Done {
            None
        } else {
            match self.failure {
                None => Some(Ok(())),
                Some(kind) => Some(Err(kind)),
            }
        }
    }

    /// The failure of a finished call, with whom it concerns.
    pub fn failure_report(&self) -> (r: Option<CallFailure>)
        ensures
            !(self.phase == LinkPhase::Done && self.failure is Some) ==> r is None,
            self.phase == LinkPhase::Done && self.failure is Some ==> r is Some && {
                let f = r->Some_0;
                &&& f.kind == self.failure->Some_0
                &&& f.address@ == self.callee_addr@
                &&& f.function@ == self.function@
                &&& f.message@ == self.message@
            },
    {
        if self.phase != LinkPhase::Done {
            return None;
        }
        match self.failure {
            None => None,
            Some(kind) => Some(CallFailure {
                kind,
                address: crate::bytes::copy_bytes(self.callee_addr.as_slice()),
                function: crate::bytes::copy_bytes(self.function.as_slice()),
                message: crate::bytes::copy_bytes(self.message.as_slice()),
            }),
        }
    }

    fn finish(&mut self, kind: Option<ErrorKind>) -> (r: LinkAction)
        ensures
            final(self).phase == LinkPhase::Done,
            final(self).failure == kind,
            final(self).caller_addr == old(self).caller_addr,
            final(self).caller_stack == old(self).caller_stack,
            final(self).caller_readonly == old(self).caller_readonly,
            final(self).caller_gas_left == old(self).caller_gas_left,
            final(self).callee_addr == old(self).callee_addr,
            final(self).function == old(self).function,
            final(self).message == old(self).message,
            final(self).resolution_cost == old(self).resolution_cost,
            final(self).used_internally == old(self).used_internally,
            final(self).instantiated == old(self).instantiated,
            final(self).callee_readonly == old(self).callee_readonly,
            r is Finish,
    {
        self.phase = LinkPhase::Done;
        self.failure = kind;
        LinkAction::Finish
    }

    /// Takes in what the driver observed and says what it must do next.
    pub fn step(&mut self, event: LinkEvent) -> (r: LinkAction)
        requires
            old(self).wf(),
        ensures
            final(self).wf(),
            // who the call is for never changes
            final(self).caller_addr == old(self).caller_addr,
            final(self).caller_stack == old(self).caller_stack,
            final(self).caller_readonly == old(self).caller_readonly,
            final(self).caller_gas_left == old(self).caller_gas_left,
            final(self).callee_addr == old(self).callee_addr,
            final(self).function == old(self).function,
            // only a failed resolution leaves a message
            !(old(self).phase == LinkPhase::Resolving && event is ResolutionFailed) ==> final(self).message == old(self).message,
            // a finished call stays as it is
            old(self).phase == LinkPhase::Done ==> *final(self) == *old(self) && r is Finish,
            // resolution: its cost is charged whatever came back, and must fit the gas left
            old(self).phase == LinkPhase::Resolving ==> match event {
                LinkEvent::Resolved { cost } => {
                    &&& final(self).resolution_cost == cost
                    &&& !final(self).instantiated
                    &&& cost > old(self).caller_gas_left ==> final(self).phase == LinkPhase::Done
                        && final(self).failure == Some(ErrorKind::OutOfGas) && r is Finish
                    &&& cost <= old(self).caller_gas_left ==> final(self).phase == LinkPhase::Instantiating
                        && r == (LinkAction::Instantiate { gas_limit: (old(self).caller_gas_left - cost) as u64 })
                },
                LinkEvent::ResolutionFailed { cost, message } => {
                    &&& final(self).resolution_cost == cost
                    &&& final(self).message == message
                    &&& !final(self).instantiated
                    &&& final(self).phase == LinkPhase::Done
                    &&& r is Finish
                    &&& final(self).failure == Some(if cost > old(self).caller_gas_left {
                        ErrorKind::OutOfGas } else { ErrorKind::HostResolutionFailure })
                },
                _ => final(self).phase == LinkPhase::Done && final(self).failure == Some(ErrorKind::ForeignFault)
                    && final(self).resolution_cost == old(self).resolution_cost && !final(self).instantiated && r is Finish,
            },
            // instantiation
            old(self).phase == LinkPhase::Instantiating ==> final(self).resolution_cost == old(self).resolution_cost
                && match event {
                LinkEvent::Instantiated => final(self).phase == LinkPhase::Introspecting && final(self).instantiated
                    && final(self).used_internally == 0 && r is Introspect,
                LinkEvent::InstantiationFailed => final(self).phase == LinkPhase::Done && !final(self).instantiated
                    && final(self).failure == Some(ErrorKind::CacheError) && r is Finish,
                _ => final(self).phase == LinkPhase::Done && !final(self).instantiated
                    && final(self).failure == Some(ErrorKind::ForeignFault) && r is Finish,
            },
            // introspection decides the permission; only an allowed call is invoked
            old(self).phase == LinkPhase::Introspecting ==> final(self).resolution_cost == old(self).resolution_cost
                && final(self).instantiated == old(self).instantiated
                && match event {
                LinkEvent::Introspected { points, used_internally } => {
                    let decided = callee_readonly_spec(old(self).caller_readonly, declared_readonly(points@, old(self).function@));
                    &&& final(self).used_internally == used_internally
                    &&& decided is Err ==> final(self).phase == LinkPhase::Done
                        && final(self).failure == Some(decided->Err_0) && r is Finish
                    &&& decided is Ok ==> final(self).phase == LinkPhase::Invoking
                        && final(self).callee_readonly == decided->Ok_0
                        && r is Invoke
                        && r->Invoke_readonly == decided->Ok_0
                        && r->Invoke_callstack@ == old(self).caller_stack@.push(old(self).caller_addr@)
                },
                LinkEvent::IntrospectionFailed { used_internally } => final(self).phase == LinkPhase::Done
                    && final(self).used_internally == used_internally
                    && final(self).failure == Some(ErrorKind::GuestTrap) && r is Finish,
                _ => final(self).phase == LinkPhase::Done && final(self).used_internally == old(self).used_internally
                    && final(self).failure == Some(ErrorKind::ForeignFault) && r is Finish,
            },
            // the export's own outcome
            old(self).phase == LinkPhase::Invoking ==> final(self).resolution_cost == old(self).resolution_cost
                && final(self).instantiated == old(self).instantiated
                && final(self).phase == LinkPhase::Done && r is Finish
                && match event {
                LinkEvent::Returned { used_internally } => final(self).used_internally == used_internally
                    && final(self).failure is None,
                LinkEvent::Failed { kind, used_internally } => final(self).used_internally == used_internally
                    && final(self).failure == Some(kind),
                _ => final(self).used_internally == old(self).used_internally
                    && final(self).failure == Some(ErrorKind::ForeignFault),
            },
    {
        match self.phase {
            LinkPhase::Done => LinkAction::Finish,
            LinkPhase::Resolving => match event {
                LinkEvent::Resolved { cost } => {
                    self.resolution_cost = cost;
                    match crate::gas::callee_gas_limit(self.caller_gas_left, cost) {
                        Ok(gas_limit) => {
                            self.phase = LinkPhase::Instantiating;
                            LinkAction::Instantiate { gas_limit }
                        },
                        Err(kind) => self.finish(Some(kind)),
                    }
                },
                LinkEvent::ResolutionFailed { cost, message } => {
                    self.resolution_cost = cost;
                    self.message = message;
                    if cost > self.caller_gas_left {
                        self.finish(Some(ErrorKind::OutOfGas))
                    } else {
                        self.finish(Some(ErrorKind::HostResolutionFailure))
                    }
                },
                _ => self.finish(Some(ErrorKind::ForeignFault)),
            },
            LinkPhase::Instantiating => match event {
                LinkEvent::Instantiated => {
                    self.instantiated = true;
                    self.used_internally = 0;
                    self.phase = LinkPhase::Introspecting;
                    LinkAction::Introspect
                },
                LinkEvent::InstantiationFailed => self.finish(Some(ErrorKind::CacheError)),
                _ => self.finish(Some(ErrorKind::ForeignFault)),
            },
            LinkPhase::Introspecting => match event {
                LinkEvent::Introspected { points, used_internally } => {
                    self.used_internally = used_internally;
                    match set_callee_permission(&points, self.function.as_slice(), self.caller_readonly) {
                        Ok(readonly) => {
                            self.callee_readonly = readonly;
                            self.phase = LinkPhase::Invoking;
                            let callstack = self.caller_stack.extended(self.caller_addr.as_slice());
                            LinkAction::Invoke { readonly, callstack }
                        },
                        Err(kind) => self.finish(Some(kind)),
                    }
                },
                LinkEvent::IntrospectionFailed { used_internally } => {
                    self.used_internally = used_internally;
                    self.finish(Some(ErrorKind::GuestTrap))
                },
                _ => self.finish(Some(ErrorKind::ForeignFault)),
            },
            LinkPhase::Invoking => match event {
                LinkEvent::Returned { used_internally } => {
                    self.used_internally = used_internally;
                    self.finish(None)
                },
                LinkEvent::Failed { kind, used_internally } => {
                    self.used_internally = used_internally;
                    self.finish(Some(kind))
                },
                _ => self.finish(Some(ErrorKind::ForeignFault)),
            },
        }
    }
}

/// The gas reported for a call, failed or not, covers all that was consumed up to
/// its end: the cost of resolving the callee and, once the callee was
/// instantiated, what it metered; it is their exact sum wherever that fits.
pub proof fn lemma_reported_gas_covers_consumed(call: LinkCall)
    ensures
        call.reported_cost() >= call.resolution_cost,
        call.instantiated ==> call.reported_cost() >= call.used_internally,
        call.instantiated && call.resolution_cost + call.used_internally <= u64::MAX
            ==> call.reported_cost() == call.resolution_cost + call.used_internally,
        !call.instantiated ==> call.reported_cost() == call.resolution_cost,
{
}

} // verus!
