//! Domain-keyed routing table: which remote router address speaks for each
//! chain/domain. Consulted on both dispatch and receipt; absence of a route
//! is an explicit error, never a default.

use vstd::prelude::*;
use crate::codec::copy_range;
use crate::error::ContractError;

verus! {

/// The binding that an entry list denotes: later entries overwrite earlier
/// ones for the same domain.
pub open spec fn routes_map(s: Seq<(u32, Vec<u8>)>) -> Map<u32, Seq<u8>>
    decreases s.len(),
{
    if s.len() == 0 {
        Map::empty()
    } else {
        routes_map(s.drop_last()).insert(s.last().0, s.last().1@)
    }
}

/// Per-domain mapping from a numeric domain identifier to the remote
/// router's address bytes.
pub struct RouteTable {
    pub routes: Vec<(u32, Vec<u8>)>,
}

impl View for RouteTable {
    type V = Map<u32, Seq<u8>>;

    open spec fn view(&self) -> Map<u32, Seq<u8>> {
        routes_map(self.routes@)
    }
}

impl RouteTable {
    /// A table with no routes configured.
    pub fn new() -> (t: RouteTable)
        ensures
            t@ == Map::<u32, Seq<u8>>::empty(),
    {
        RouteTable { routes: Vec::new() }
    }

    /// Configures (or overwrites unconditionally) the router for a domain.
    /// Owner gating is enforced by the caller, not here.
    pub fn set_route(&mut self, domain: u32, router: Vec<u8>)
        ensures
            final(self)@ == old(self)@.insert(domain, router@),
    {
        self.routes.push((domain, router));
        proof {
            assert(self.routes@.drop_last() =~= old(self).routes@);
        }
    }

    /// Looks up the router for a domain; fails with `RouteNotFound` exactly
    /// when none is configured.
    pub fn get_route(&self, domain: u32) -> (r: Result<Vec<u8>, ContractError>)
        ensures
            self@.contains_key(domain) ==> (r matches Ok(v) && v@ == self@[domain]),
            !self@.contains_key(domain) ==> r == Err::<Vec<u8>, ContractError>(
                ContractError::RouteNotFound,
            ),
    {
        let mut i: usize = self.routes.len();
        proof {
            assert(self.routes@.take(i as int) =~= self.routes@);
        }
        while i > 0
            invariant
                i <= self.routes@.len(),
                self@.contains_key(domain) == routes_map(self.routes@.take(i as int)).contains_key(
                    domain,
                ),
                self@.contains_key(domain) ==> self@[domain] == routes_map(
                    self.routes@.take(i as int),
                )[domain],
            decreases i,
        {
            let entry_domain = self.routes[i - 1].0;
            proof {
                let t = self.routes@.take(i as int);
                assert(t.drop_last() =~= self.routes@.take(i - 1));
                assert(t.last() == self.routes@[i - 1]);
            }
            if entry_domain == domain {
                let v = copy_range(&self.routes[i - 1].1, 0, self.routes[i - 1].1.len());
                proof {
                    assert(v@ =~= self.routes@[i - 1].1@);
                }
                return Ok(v);
            }
            i = i - 1;
        }
        proof {
            assert(self.routes@.take(0) =~= Seq::<(u32, Vec<u8>)>::empty());
        }
        Err(ContractError::RouteNotFound)
    }
}

} // verus!
