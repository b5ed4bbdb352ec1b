//! Choosing the DNS resolver from the configured server list. The lookups
//! themselves happen outside this crate; here is only the decision which
//! resolver to build.

use vstd::prelude::*;

use crate::ip::IpAddress;
use crate::ip::parse_ip;
use crate::ip::spec_parse_ip;

verus! {

/// Which resolver the process should build.
#[derive(Clone, Debug, PartialEq, Eq)]
pub enum ResolverPlan {
    /// No servers configured: read the system resolver configuration, and
    /// fall back to the system resolver when that fails.
    FromSystemConf,
    /// No configured entry parsed as an IP literal: use the system resolver.
    System,
    /// Run a recursive resolver against these servers.
    Recursive(Vec<IpAddress>),
}

/// Mathematical model of a resolver plan.
#[verifier::ext_equal]
pub enum ResolverPlanView {
    FromSystemConf,
    System,
    Recursive(Seq<IpAddress>),
}

impl View for ResolverPlan {
    type V = ResolverPlanView;

    open spec fn view(&self) -> ResolverPlanView {
        match self {
            ResolverPlan::FromSystemConf => ResolverPlanView::FromSystemConf,
            ResolverPlan::System => ResolverPlanView::System,
            ResolverPlan::Recursive(v) => ResolverPlanView::Recursive(v@),
        }
    }
}

/// The configured entries that parse as IP literals, in order.
pub open spec fn spec_parsed_servers(list: Seq<Seq<u8>>) -> Seq<IpAddress>
    decreases list.len(),
{
    if list.len() == 0 {
        Seq::empty()
    } else {
        (match spec_parse_ip(list[0]) {
            Some(ip) => seq![ip],
            None => Seq::<IpAddress>::empty(),
        }) + spec_parsed_servers(list.skip(1))
    }
}

/// The plan for a configured server list: empty means "read the system
/// configuration"; all entries unparseable means "system resolver"; else a
/// recursive resolver over the parseable entries.
pub open spec fn spec_plan_resolver(list: Seq<Seq<u8>>) -> ResolverPlanView {
    if list.len() == 0 {
        ResolverPlanView::FromSystemConf
    } else if spec_parsed_servers(list).len() == 0 {
        ResolverPlanView::System
    } else {
        ResolverPlanView::Recursive(spec_parsed_servers(list))
    }
}

/// Decide the resolver, exactly [`spec_plan_resolver`].
pub fn plan_resolver(dns_servers: &Vec<Vec<u8>>) -> (r: ResolverPlan)
    ensures
        r@ == spec_plan_resolver(dns_servers@.map_values(|v: Vec<u8>| v@)),
{
    let ghost list = dns_servers@.map_values(|v: Vec<u8>| v@);
    if dns_servers.len() == 0 {
        return ResolverPlan::FromSystemConf;
    }
    let mut parsed: Vec<IpAddress> = Vec::new();
    let mut i: usize = 0;
    proof {
        assert(list.skip(0) =~= list);
    }
    while i < dns_servers.len()
        invariant
            0 <= i <= dns_servers@.len(),
            list == dns_servers@.map_values(|v: Vec<u8>| v@),
            parsed@ + spec_parsed_servers(list.skip(i as int)) == spec_parsed_servers(list),
        decreases dns_servers@.len() - i,
    {
        proof {
            assert(list.skip(i as int)[0] == list[i as int]);
            assert(list.skip(i as int).skip(1) =~= list.skip(i + 1));
        }
        match parse_ip(dns_servers[i].as_slice()) {
            Some(ip) => {
                parsed.push(ip);
            },
            None => {},
        }
        i = i + 1;
        proof {
            assert(parsed@ + spec_parsed_servers(list.skip(i as int)) =~= spec_parsed_servers(
                list,
            ));
        }
    }
    proof {
        assert(list.skip(i as int) =~= Seq::<Seq<u8>>::empty());
        assert(parsed@ =~= spec_parsed_servers(list));
    }
    if parsed.len() == 0 {
        ResolverPlan::System
    } else {
        ResolverPlan::Recursive(parsed)
    }
}

} // verus!
