//! Hook aggregator: fans one dispatch out to an ordered list of sub-hooks,
//! splitting a single packed metadata blob into per-hook slices. Execution
//! order is list order; no sub-hook error is caught locally.

use vstd::prelude::*;
use crate::codec::copy_range;
use crate::error::ContractError;
use crate::metadata::{decode_metadata, meta_slice, meta_wf};

verus! {

/// A forwarding call the aggregator emits: the dispatched message together
/// with the metadata slice assigned to one hook.
#[derive(Clone, Debug, PartialEq, Eq)]
pub struct DispatchCall {
    pub hook: String,
    pub message: Vec<u8>,
    pub metadata: Vec<u8>,
}

/// Operations on the aggregator.
pub enum ExecuteMsg {
    /// Forward a dispatched message to every configured hook.
    PostDispatch { message: Vec<u8>, metadata: Vec<u8> },
    /// Replace the hook list atomically; owner only.
    SetHooks { hooks: Vec<String> },
}

/// Read-only questions about the aggregator.
pub enum QueryMsg {
    Mailbox,
    QuoteDispatch,
    Hooks,
}

/// Answers to `QueryMsg`, one variant per question.
pub enum QueryResponse {
    Mailbox(String),
    QuoteDispatch(Option<u128>),
    Hooks(Vec<String>),
}

/// The hook aggregator's whole state: an owner and the ordered hook list.
/// Insertion order is semantically meaningful: it fixes both the
/// metadata-slice assignment and the execution order.
pub struct HookAggregator {
    pub owner: String,
    pub hooks: Vec<String>,
}

/// The calls that a successful `post_dispatch` emits: one per hook, in
/// list order, each carrying the message and its assigned slice.
pub open spec fn dispatch_calls_ok(
    calls: Seq<DispatchCall>,
    hooks: Seq<String>,
    message: Seq<u8>,
    metadata: Seq<u8>,
) -> bool {
    &&& calls.len() == hooks.len()
    &&& (forall|j: int|
        0 <= j < hooks.len() ==> ((#[trigger] calls[j]).hook@ == hooks[j]@ && calls[j].message@
            == message && calls[j].metadata@ == meta_slice(metadata, j as nat, hooks.len())))
}

impl HookAggregator {
    /// Creates the aggregator with its owner and initial hook list.
    pub fn instantiate(owner: String, hooks: Vec<String>) -> (s: HookAggregator)
        ensures
            s.owner == owner,
            s.hooks == hooks,
    {
        HookAggregator { owner, hooks }
    }

    /// Replaces the hook list; only the owner may, anyone else fails with
    /// `Unauthorized` and leaves the list unchanged.
    pub fn set_hooks(&mut self, caller: &String, hooks: Vec<String>) -> (r: Result<
        (),
        ContractError,
    >)
        ensures
            caller@ == old(self).owner@ ==> (r is Ok && final(self).hooks == hooks
                && final(self).owner == old(self).owner),
            caller@ != old(self).owner@ ==> (r == Err::<(), ContractError>(
                ContractError::Unauthorized,
            ) && *final(self) == *old(self)),
    {
        if !caller.eq(&self.owner) {
            return Err(ContractError::Unauthorized);
        }
        self.hooks = hooks;
        Ok(())
    }

    /// Splits the packed metadata into one slice per configured hook and
    /// emits one forwarding call per (hook, slice) pair, in list order.
    /// Fails with `MalformedMetadata` exactly when the blob is not a valid
    /// packing for the configured hook count; a hook with an empty slice is
    /// not an error.
    pub fn post_dispatch(&self, message: &Vec<u8>, metadata: &Vec<u8>) -> (r: Result<
        Vec<DispatchCall>,
        ContractError,
    >)
        ensures
            meta_wf(metadata@, self.hooks@.len()) ==> (r matches Ok(calls) && dispatch_calls_ok(
                calls@,
                self.hooks@,
                message@,
                metadata@,
            )),
            !meta_wf(metadata@, self.hooks@.len()) ==> r == Err::<Vec<DispatchCall>, ContractError>(
                ContractError::MalformedMetadata,
            ),
    {
        let k = self.hooks.len();
        let slices = match decode_metadata(metadata, k) {
            Ok(slices) => slices,
            Err(e) => {
                return Err(e);
            },
        };
        let mut calls: Vec<DispatchCall> = Vec::new();
        let mut j: usize = 0;
        while j < k
            invariant
                j <= k,
                k == self.hooks@.len(),
                slices@.len() == k,
                forall|m: int|
                    0 <= m < k ==> (#[trigger] slices@[m])@ == meta_slice(
                        metadata@,
                        m as nat,
                        k as nat,
                    ),
                calls@.len() == j,
                forall|m: int|
                    0 <= m < j ==> ((#[trigger] calls@[m]).hook@ == self.hooks@[m]@ && calls@[
                        m].message@ == message@ && calls@[m].metadata@ == meta_slice(
                        metadata@,
                        m as nat,
                        k as nat,
                    )),
            decreases k - j,
        {
            let call = DispatchCall {
                hook: self.hooks[j].clone(),
                message: copy_range(message, 0, message.len()),
                metadata: copy_range(&slices[j], 0, slices[j].len()),
            };
            proof {
                assert(call.message@ =~= message@);
                assert(call.metadata@ =~= slices@[j as int]@);
            }
            calls.push(call);
            j = j + 1;
        }
        Ok(calls)
    }

    /// Dispatches an operation: `PostDispatch` is open to any caller (this
    /// aggregator binds to no mailbox), `SetHooks` is owner-gated.
    pub fn execute(&mut self, caller: &String, msg: ExecuteMsg) -> (r: Result<
        Vec<DispatchCall>,
        ContractError,
    >)
        ensures
            msg matches ExecuteMsg::PostDispatch { message, metadata } ==> (*final(self)
                == *old(self) && (meta_wf(metadata@, old(self).hooks@.len()) ==> (r matches Ok(
                calls,
            ) && dispatch_calls_ok(calls@, old(self).hooks@, message@, metadata@))) && (!meta_wf(
                metadata@,
                old(self).hooks@.len(),
            ) ==> r == Err::<Vec<DispatchCall>, ContractError>(ContractError::MalformedMetadata))),
            msg matches ExecuteMsg::SetHooks { hooks } ==> ((caller@ == old(self).owner@ ==> (r
                matches Ok(calls) && calls@.len() == 0 && final(self).hooks == hooks
                && final(self).owner == old(self).owner)) && (caller@ != old(self).owner@ ==> (r
                == Err::<Vec<DispatchCall>, ContractError>(ContractError::Unauthorized)
                && *final(self) == *old(self)))),
    {
        match msg {
            ExecuteMsg::PostDispatch { message, metadata } => self.post_dispatch(
                &message,
                &metadata,
            ),
            ExecuteMsg::SetHooks { hooks } => {
                match self.set_hooks(caller, hooks) {
                    Ok(_) => Ok(Vec::new()),
                    Err(e) => Err(e),
                }
            },
        }
    }

    /// Answers a query; never fails.
    pub fn query(&self, msg: QueryMsg) -> (r: QueryResponse)
        ensures
            msg is Mailbox ==> (r matches QueryResponse::Mailbox(m) && m@ == "unrestricted"@),
            msg is QuoteDispatch ==> (r matches QueryResponse::QuoteDispatch(q) && q is None),
            msg is Hooks ==> (r matches QueryResponse::Hooks(h) && h@ == self.hooks@),
    {
        match msg {
            QueryMsg::Mailbox => QueryResponse::Mailbox(get_mailbox()),
            QueryMsg::QuoteDispatch => QueryResponse::QuoteDispatch(quote_dispatch()),
            QueryMsg::Hooks => {
                let mut h: Vec<String> = Vec::new();
                let mut i: usize = 0;
                while i < self.hooks.len()
                    invariant
                        i <= self.hooks@.len(),
                        h@.len() == i,
                        forall|j: int| 0 <= j < i ==> h@[j] == self.hooks@[j],
                    decreases self.hooks@.len() - i,
                {
                    h.push(self.hooks[i].clone());
                    i = i + 1;
                }
                proof {
                    assert(h@ =~= self.hooks@);
                }
                QueryResponse::Hooks(h)
            },
        }
    }

    /// The configured hook list, in execution order.
    pub fn get_hooks(&self) -> (r: &Vec<String>)
        ensures
            r == self.hooks,
    {
        &self.hooks
    }
}

/// This aggregator accepts dispatch calls from any caller, by design: it
/// reports the unrestricted sentinel instead of a bound mailbox.
pub fn get_mailbox() -> (r: String)
    ensures
        r@ == "unrestricted"@,
{
    "unrestricted".to_owned()
}

/// This aggregator reports no fee, whatever its sub-hooks would quote: it
/// does not sum sub-hook quotes. Intentional pass-through behaviour.
pub fn quote_dispatch() -> (r: Option<u128>)
    ensures
        r is None,
{
    None
}

} // verus!
