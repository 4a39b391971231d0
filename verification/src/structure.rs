//! Wire-level types shared by the kill switch, the DNS protection and the status reports.

use vstd::prelude::*;

verus! {

/// Which phase of the two-phase arm the WFP rules are in.
#[derive(Clone, Copy, Debug, PartialEq, Eq, Structural)]
pub enum KillSwitchStatusMode {
    /// Floor + endpoint/DNS rules, bootstrap API channel open, tunnel not yet permitted.
    Bootstrap,
    /// Tunnel permitted, bootstrap API channel retracted.
    Locked,
    /// Disconnected but armed ("Protected Offline"): API recovery channel open, no tunnel.
    Blocked,
}

#[derive(Clone, Copy, Debug, PartialEq, Eq, Structural)]
pub enum ProxyProtocol {
    Tcp,
    Udp,
}

/// One `IP:port/protocol` tuple, the IP as the client sent it.
#[derive(Clone, Debug, PartialEq, Eq)]
pub struct ProxyEndpoint {
    pub ip: String,
    pub port: u16,
    pub protocol: ProxyProtocol,
}

/// The mathematical value of a [`ProxyEndpoint`].
pub ghost struct EndpointView {
    pub ip: Seq<char>,
    pub port: u16,
    pub protocol: ProxyProtocol,
}

impl View for ProxyEndpoint {
    type V = EndpointView;

    open spec fn view(&self) -> EndpointView {
        EndpointView { ip: self.ip@, port: self.port, protocol: self.protocol }
    }
}

pub open spec fn endpoints_view(v: Seq<ProxyEndpoint>) -> Seq<EndpointView> {
    v.map_values(|e: ProxyEndpoint| e@)
}

impl ProxyEndpoint {
    /// A copy with the same value.
    pub fn duplicate(&self) -> (r: ProxyEndpoint)
        ensures
            r@ == self@,
    {
        ProxyEndpoint { ip: self.ip.clone(), port: self.port, protocol: self.protocol }
    }
}

/// A copy of a list of endpoints.
pub fn copy_endpoints(v: &Vec<ProxyEndpoint>) -> (r: Vec<ProxyEndpoint>)
    ensures
        endpoints_view(r@) == endpoints_view(v@),
{
    let mut r: Vec<ProxyEndpoint> = Vec::new();
    let mut i: usize = 0;
    while i < v.len()
        invariant
            i <= v@.len(),
            endpoints_view(r@) == endpoints_view(v@.take(i as int)),
        decreases v@.len() - i,
    {
        let e = v[i].duplicate();
        let ghost prev = r@;
        r.push(e);
        proof {
            assert(endpoints_view(v@.take(i + 1)) =~= endpoints_view(v@.take(i as int)).push(
                v@[i as int]@,
            ));
            assert(endpoints_view(r@) =~= endpoints_view(prev).push(e@));
        }
        i = i + 1;
    }
    proof {
        assert(v@.take(v@.len() as int) =~= v@);
    }
    r
}

/// What the client asks the kill switch to arm with.
#[derive(Clone, Debug, PartialEq, Eq)]
pub struct KillSwitchConfig {
    pub tunnel_interface: String,
    pub proxy_endpoints: Vec<ProxyEndpoint>,
    pub bootstrap_api_hosts: Vec<String>,
    pub direct_endpoints: Vec<ProxyEndpoint>,
}

/// `GET /kill-switch/status`.
#[derive(Clone, Debug, PartialEq, Eq)]
pub struct KillSwitchStatus {
    pub wanted: bool,
    pub verified: bool,
    pub live: bool,
    pub mode: KillSwitchStatusMode,
    pub endpoints: Vec<ProxyEndpoint>,
    pub last_error: Option<String>,
}

/// `GET /dns/status`.
#[derive(Clone, Debug, PartialEq, Eq)]
pub struct DnsProtectionStatus {
    pub enabled: bool,
    pub snapshot_present: bool,
    pub adapters: u32,
    pub last_error: Option<String>,
}

impl Default for DnsProtectionStatus {
    fn default() -> (r: Self)
        ensures
            !r.enabled && !r.snapshot_present && r.adapters == 0 && r.last_error is None,
    {
        DnsProtectionStatus { enabled: false, snapshot_present: false, adapters: 0, last_error: None }
    }
}

/// The pollable network-change counter and latest-event summary.
#[derive(Clone, Debug, PartialEq, Eq)]
pub struct NetworkEventsStatus {
    pub counter: u64,
    pub last_kind: Option<String>,
    pub last_at: Option<i64>,
}

/// Which privileged lifecycle operation is running.
#[derive(Clone, Copy, Debug, PartialEq, Eq, Structural)]
pub enum ServiceOperationKind {
    StartCore,
    StopCore,
    StageRuntime,
}

/// The one running lifecycle operation, as `/status` reports it.
#[derive(Clone, Copy, Debug, PartialEq, Eq, Structural)]
pub struct ServiceOperationSnapshot {
    pub id: u64,
    pub kind: ServiceOperationKind,
    pub started_at_ms: u64,
    pub deadline_at_ms: u64,
}

} // verus!
