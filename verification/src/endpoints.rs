//! Planning of relay listeners, one per public address.
//!
//! A plan names the local address and port a relay socket must be bound
//! to, and the address advertised to clients for traffic arriving on that
//! socket. In single-address mode the socket binds the wildcard address
//! and advertises the operator-supplied public address; in multi-homed
//! mode every discovered address binds and advertises itself.
//!
//! Binding itself is I/O and happens outside the library; `select_bound`
//! then decides, under an explicit policy, what a partial binding failure
//! means for startup.

use vstd::prelude::*;

use crate::addr::IpAddress;

verus! {

/// One relay listener: where its socket binds, and what address is
/// advertised to clients as the relay's public address.
#[derive(Clone, Copy, PartialEq, Eq, Structural, Debug)]
pub struct RelayEndpointPlan {
    pub bind_addr: IpAddress,
    pub port: u16,
    pub advertised: IpAddress,
}

/// The wildcard (all-zero) address of the same family.
pub open spec fn spec_wildcard(a: IpAddress) -> IpAddress {
    match a {
        IpAddress::V4(_) => IpAddress::V4(0),
        IpAddress::V6(_) => IpAddress::V6(0),
    }
}

/// The single plan of single-address mode: bind the wildcard address,
/// advertise the operator-supplied public address.
pub open spec fn spec_single_plan(public_ip: IpAddress, port: u16) -> RelayEndpointPlan {
    RelayEndpointPlan { bind_addr: spec_wildcard(public_ip), port, advertised: public_ip }
}

/// The plan of one discovered address: bind it and advertise it.
pub open spec fn spec_self_plan(address: IpAddress, port: u16) -> RelayEndpointPlan {
    RelayEndpointPlan { bind_addr: address, port, advertised: address }
}

/// The single-address-mode plans: exactly one listener.
pub fn plan_single(public_ip: IpAddress, port: u16) -> (r: Vec<RelayEndpointPlan>)
    ensures
        r@ =~= seq![spec_single_plan(public_ip, port)],
{
    let bind_addr = match public_ip {
        IpAddress::V4(_) => IpAddress::V4(0),
        IpAddress::V6(_) => IpAddress::V6(0),
    };
    let mut r: Vec<RelayEndpointPlan> = Vec::new();
    r.push(RelayEndpointPlan { bind_addr, port, advertised: public_ip });
    r
}

/// The multi-homed plans: one listener per discovered address, in the
/// discovered order, each binding and advertising that address.
pub fn plan_discovered(addresses: &Vec<IpAddress>, port: u16) -> (r: Vec<RelayEndpointPlan>)
    ensures
        r@.len() == addresses@.len(),
        forall|i: int| 0 <= i < r@.len() ==> r@[i] == spec_self_plan(addresses@[i], port),
{
    let mut r: Vec<RelayEndpointPlan> = Vec::new();
    let mut k: usize = 0;
    while k < addresses.len()
        invariant
            0 <= k <= addresses@.len(),
            r@.len() == k,
            forall|i: int| 0 <= i < k ==> r@[i] == spec_self_plan(addresses@[i], port),
        decreases addresses@.len() - k,
    {
        let a = addresses[k];
        r.push(RelayEndpointPlan { bind_addr: a, port, advertised: a });
        k += 1;
    }
    r
}

/// What a failed bind of one of several listeners means for startup.
#[derive(Clone, Copy, PartialEq, Eq, Structural, Debug)]
pub enum BindPolicy {
    /// One failed bind aborts the whole startup.
    AbortAll,
    /// A failed bind is dropped; startup continues with the rest.
    SkipFailed,
}

/// The first listener whose bind failed; reported when startup aborts.
#[derive(Clone, Copy, PartialEq, Eq, Structural, Debug)]
pub struct BindFailure {
    pub index: usize,
    pub plan: RelayEndpointPlan,
}

/// The plans whose binds succeeded, in their original order.
pub open spec fn spec_kept(plans: Seq<RelayEndpointPlan>, bound: Seq<bool>) -> Seq<
    RelayEndpointPlan,
>
    decreases plans.len(),
{
    if plans.len() == 0 {
        Seq::empty()
    } else {
        let rest = spec_kept(plans.drop_last(), bound.drop_last());
        if bound.last() {
            rest.push(plans.last())
        } else {
            rest
        }
    }
}

/// Decides what the per-listener bind outcomes mean for startup.
/// `bound[i]` says whether binding `plans[i]` succeeded. Under
/// `AbortAll`, any failure aborts with the first failing listener; under
/// `SkipFailed`, the surviving listeners are kept in order, and the
/// caller is expected to surface every dropped one.
pub fn select_bound(
    plans: &Vec<RelayEndpointPlan>,
    bound: &Vec<bool>,
    policy: BindPolicy,
) -> (r: Result<Vec<RelayEndpointPlan>, BindFailure>)
    requires
        plans@.len() == bound@.len(),
    ensures
        policy == BindPolicy::AbortAll ==> {
            &&& (r is Ok <==> forall|i: int| 0 <= i < bound@.len() ==> bound@[i])
            &&& (r is Ok ==> r->Ok_0@ == plans@)
            &&& (r is Err ==> {
                let f = r->Err_0;
                &&& 0 <= f.index < bound@.len()
                &&& !bound@[f.index as int]
                &&& f.plan == plans@[f.index as int]
                &&& forall|j: int| 0 <= j < f.index ==> bound@[j]
            })
        },
        policy == BindPolicy::SkipFailed ==> r is Ok && r->Ok_0@ == spec_kept(plans@, bound@),
{
    let mut kept: Vec<RelayEndpointPlan> = Vec::new();
    let mut k: usize = 0;
    while k < plans.len()
        invariant
            0 <= k <= plans@.len(),
            plans@.len() == bound@.len(),
            policy == BindPolicy::AbortAll ==> (kept@ == plans@.subrange(0, k as int) && forall|
                j: int,
            | 0 <= j < k ==> bound@[j]),
            policy == BindPolicy::SkipFailed ==> kept@ == spec_kept(
                plans@.subrange(0, k as int),
                bound@.subrange(0, k as int),
            ),
        decreases plans@.len() - k,
    {
        let ok = bound[k];
        if ok {
            kept.push(plans[k]);
        } else {
            match policy {
                BindPolicy::AbortAll => {
                    return Result::Err(BindFailure { index: k, plan: plans[k] });
                },
                BindPolicy::SkipFailed => {},
            }
        }
        proof {
            let pre = plans@.subrange(0, k + 1);
            let bre = bound@.subrange(0, k + 1);
            assert(pre.drop_last() =~= plans@.subrange(0, k as int));
            assert(bre.drop_last() =~= bound@.subrange(0, k as int));
        }
        k += 1;
    }
    proof {
        assert(plans@.subrange(0, plans@.len() as int) =~= plans@);
        assert(bound@.subrange(0, bound@.len() as int) =~= bound@);
    }
    Result::Ok(kept)
}

} // verus!
