use vstd::prelude::*;
use crate::errors::{AppError, SpecAppError};

verus! {

/// One resolved socket endpoint, as plain values: the address family, the
/// address bytes (4 for IPv4, 16 for IPv6) and the port.
#[derive(Debug, PartialEq, Eq)]
pub struct Endpoint {
    pub is_ipv4: bool,
    pub ip: Vec<u8>,
    pub port: u16,
}

/// The mathematical value of an `Endpoint`: its address bytes as a sequence.
#[verifier::ext_equal]
pub struct SpecEndpoint {
    pub is_ipv4: bool,
    pub ip: Seq<u8>,
    pub port: u16,
}

impl Endpoint {
    /// A well-formed endpoint holds exactly as many address bytes as its
    /// family uses.
    pub open spec fn wf(&self) -> bool {
        self.ip@.len() == if self.is_ipv4 {
            4int
        } else {
            16int
        }
    }
}

impl View for Endpoint {
    type V = SpecEndpoint;

    open spec fn view(&self) -> SpecEndpoint {
        SpecEndpoint { is_ipv4: self.is_ipv4, ip: self.ip@, port: self.port }
    }
}

impl DeepView for Endpoint {
    type V = SpecEndpoint;

    open spec fn deep_view(&self) -> SpecEndpoint {
        self@
    }
}

impl Clone for Endpoint {
    /// A clone holds the same family, address bytes and port.
    fn clone(&self) -> (r: Self)
        ensures
            r@ == self@,
    {
        let ip = self.ip.clone();
        proof {
            assert(ip@ =~= self.ip@);
        }
        Endpoint { is_ipv4: self.is_ipv4, ip, port: self.port }
    }
}

/// The endpoints of one address family, in their original order.
pub open spec fn of_family(s: Seq<SpecEndpoint>, v4: bool) -> Seq<SpecEndpoint>
    decreases s.len(),
{
    if s.len() == 0 {
        Seq::empty()
    } else if s.last().is_ipv4 == v4 {
        of_family(s.drop_last(), v4).push(s.last())
    } else {
        of_family(s.drop_last(), v4)
    }
}

/// Every endpoint `of_family` keeps is of that family.
pub proof fn lemma_of_family_members(s: Seq<SpecEndpoint>, v4: bool)
    ensures
        forall|i: int| 0 <= i < of_family(s, v4).len() ==> of_family(s, v4)[i].is_ipv4 == v4,
    decreases s.len(),
{
    if s.len() > 0 {
        lemma_of_family_members(s.drop_last(), v4);
        assert forall|i: int| 0 <= i < of_family(s, v4).len() implies of_family(s, v4)[i].is_ipv4
            == v4 by {
            let kept = of_family(s.drop_last(), v4);
            if s.last().is_ipv4 == v4 && i < kept.len() {
                assert(of_family(s, v4)[i] == kept[i]);
            } else if !(s.last().is_ipv4 == v4) {
                assert(of_family(s, v4)[i] == kept[i]);
            }
        }
    }
}

/// The two families together carry every endpoint: nothing is dropped and
/// nothing is invented.
pub proof fn lemma_of_family_complete(s: Seq<SpecEndpoint>)
    ensures
        of_family(s, true).len() + of_family(s, false).len() == s.len(),
    decreases s.len(),
{
    if s.len() > 0 {
        lemma_of_family_complete(s.drop_last());
    }
}

/// Law: in the ordered list `order_endpoints` returns, every IPv4 endpoint
/// stands before every IPv6 endpoint.
pub proof fn lemma_v4_precede_v6(s: Seq<SpecEndpoint>)
    ensures
        forall|i: int|
            0 <= i < of_family(s, true).len() ==> (of_family(s, true) + of_family(
                s,
                false,
            ))[i].is_ipv4,
        forall|i: int|
            of_family(s, true).len() <= i < of_family(s, true).len() + of_family(s, false).len()
                ==> !(of_family(s, true) + of_family(s, false))[i].is_ipv4,
{
    lemma_of_family_members(s, true);
    lemma_of_family_members(s, false);
}

/// Arranges resolved endpoints for use: every IPv4 endpoint first, then
/// every IPv6 endpoint, each family in its original order; an empty list is
/// rejected, as a resolution that found no addresses at all.
pub fn order_endpoints(found: &Vec<Endpoint>) -> (r: Result<Vec<Endpoint>, AppError>)
    ensures
        match r {
            Ok(v) => found@.len() > 0 && v.deep_view() == of_family(found.deep_view(), true)
                + of_family(found.deep_view(), false),
            Err(e) => found@.len() == 0 && e@ == SpecAppError::NoAddressesFound,
        },
{
    let n = found.len();
    let mut v4s: Vec<Endpoint> = Vec::new();
    let mut v6s: Vec<Endpoint> = Vec::new();
    let mut i: usize = 0;
    while i < n
        invariant
            0 <= i <= n,
            n == found.len(),
            v4s.deep_view() == of_family(found.deep_view().take(i as int), true),
            v6s.deep_view() == of_family(found.deep_view().take(i as int), false),
        decreases n - i,
    {
        let e = found[i].clone();
        proof {
            let full = found.deep_view();
            assert(full.take(i + 1).drop_last() =~= full.take(i as int));
            assert(full.take(i + 1).last() == full[i as int]);
            assert(full[i as int] == found@[i as int]@);
        }
        let ghost v4_before = v4s.deep_view();
        let ghost v6_before = v6s.deep_view();
        if e.is_ipv4 {
            v4s.push(e);
            proof {
                assert(v4s.deep_view() =~= v4_before.push(found@[i as int]@));
            }
        } else {
            v6s.push(e);
            proof {
                assert(v6s.deep_view() =~= v6_before.push(found@[i as int]@));
            }
        }
        i = i + 1;
    }
    proof {
        assert(found.deep_view().take(n as int) =~= found.deep_view());
    }
    if v4s.is_empty() && v6s.is_empty() {
        proof {
            lemma_of_family_complete(found.deep_view());
        }
        return Err(AppError::NoAddressesFound);
    }
    proof {
        lemma_of_family_complete(found.deep_view());
    }
    let ghost v4_final = v4s.deep_view();
    let mut out = v4s;
    let mut rest = v6s;
    out.append(&mut rest);
    proof {
        assert(out.deep_view() =~= v4_final + of_family(found.deep_view(), false));
    }
    Ok(out)
}

} // verus!
