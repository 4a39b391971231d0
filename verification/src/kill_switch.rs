//! The WFP kill switch's state machine: the persisted intent record, the two-phase arm
//! (bootstrap, then lock), verification, restriction to "Protected Offline", the
//! DNS-before-disarm release, service-start recovery and the emergency tombstone.
//!
//! Every function here decides; the caller performs what it is told (persist the intent,
//! install or remove the WFP rule set, restore DNS) and reports back.

use crate::ip::{ip_eq, ip_text, parse_ip, parse_ip_spec, push_ip, IpAddr};
use crate::structure::{
    copy_endpoints, endpoints_view, EndpointView, KillSwitchConfig, KillSwitchStatus,
    KillSwitchStatusMode, ProxyEndpoint,
};
use crate::text::{dec_text, push_decimal, strings_view, trim, trim_seq};
use crate::wfp_model::{parse_endpoint, parse_endpoint_spec, IpProtocol, RuleConfig, RuleConfigView};
use vstd::prelude::*;

verus! {

/// The fail-closed intent record (`kill-switch.json`), written before any WFP mutation.
#[derive(Clone, Debug, PartialEq, Eq)]
pub struct IntentRecord {
    pub wanted: bool,
    pub mode: KillSwitchStatusMode,
    /// `None` is a legacy record: Locked migrates as verified, earlier phases as stale.
    pub verified: Option<bool>,
    pub tunnel_interface: String,
    /// Staged core binary path the `ALE_APP_ID` permit is resolved from.
    pub app_path: String,
    pub endpoints: Vec<ProxyEndpoint>,
    /// Resolved, validated, public-only API host IPs.
    pub api_host_ips: Vec<String>,
    pub updated_at: u64,
    /// Who armed the protection; `None` for legacy and emergency intents, which own no one.
    pub owner_key: Option<String>,
}

pub ghost struct IntentView {
    pub wanted: bool,
    pub mode: KillSwitchStatusMode,
    pub verified: Option<bool>,
    pub tunnel_interface: Seq<char>,
    pub app_path: Seq<char>,
    pub endpoints: Seq<EndpointView>,
    pub api_host_ips: Seq<Seq<char>>,
    pub updated_at: u64,
    pub owner_key: Option<Seq<char>>,
}

pub open spec fn opt_text(o: Option<String>) -> Option<Seq<char>> {
    match o {
        Some(s) => Some(s@),
        None => None,
    }
}

impl View for IntentRecord {
    type V = IntentView;

    open spec fn view(&self) -> IntentView {
        IntentView {
            wanted: self.wanted,
            mode: self.mode,
            verified: self.verified,
            tunnel_interface: self.tunnel_interface@,
            app_path: self.app_path@,
            endpoints: endpoints_view(self.endpoints@),
            api_host_ips: strings_view(self.api_host_ips@),
            updated_at: self.updated_at,
            owner_key: opt_text(self.owner_key),
        }
    }
}

/// A legacy record without the flag counts as verified only in Locked mode.
pub open spec fn verified_spec(i: IntentView) -> bool {
    match i.verified {
        Some(v) => v,
        None => i.mode == KillSwitchStatusMode::Locked,
    }
}

fn copy_strings(v: &Vec<String>) -> (r: Vec<String>)
    ensures
        strings_view(r@) == strings_view(v@),
{
    let mut r: Vec<String> = Vec::new();
    let mut i: usize = 0;
    while i < v.len()
        invariant
            i <= v@.len(),
            strings_view(r@) == strings_view(v@).take(i as int),
        decreases v@.len() - i,
    {
        let ghost prev = r@;
        r.push(v[i].clone());
        proof {
            assert(strings_view(r@) =~= strings_view(prev).push(v@[i as int]@));
            assert(strings_view(v@).take(i + 1) =~= strings_view(v@).take(i as int).push(v@[i as int]@));
        }
        i = i + 1;
    }
    proof {
        assert(strings_view(v@).take(v@.len() as int) =~= strings_view(v@));
    }
    r
}

fn copy_opt_text(o: &Option<String>) -> (r: Option<String>)
    ensures
        opt_text(r) == opt_text(*o),
{
    match o {
        Some(s) => Some(s.clone()),
        None => None,
    }
}

impl IntentRecord {
    pub fn is_verified(&self) -> (r: bool)
        ensures
            r == verified_spec(self@),
    {
        match self.verified {
            Some(v) => v,
            None => self.mode == KillSwitchStatusMode::Locked,
        }
    }

    /// A copy with the same value.
    pub fn duplicate(&self) -> (r: IntentRecord)
        ensures
            r@ == self@,
    {
        IntentRecord {
            wanted: self.wanted,
            mode: self.mode,
            verified: self.verified,
            tunnel_interface: self.tunnel_interface.clone(),
            app_path: self.app_path.clone(),
            endpoints: copy_endpoints(&self.endpoints),
            api_host_ips: copy_strings(&self.api_host_ips),
            updated_at: self.updated_at,
            owner_key: copy_opt_text(&self.owner_key),
        }
    }
}

/// A recorded intent re-arms on service start only if it is wanted, names a tunnel and carries
/// at least one endpoint, every one of which renders a permit.
pub open spec fn intent_valid_spec(i: IntentView) -> bool {
    i.wanted && i.tunnel_interface.len() > 0 && i.endpoints.len() > 0 && forall|k: int|
        0 <= k < i.endpoints.len() ==> (#[trigger] parse_endpoint_spec(i.endpoints[k])) is Some
}

pub fn intent_is_valid(intent: &IntentRecord) -> (r: bool)
    ensures
        r == intent_valid_spec(intent@),
{
    if !intent.wanted || intent.tunnel_interface.unicode_len() == 0 || intent.endpoints.len() == 0 {
        return false;
    }
    let mut k: usize = 0;
    while k < intent.endpoints.len()
        invariant
            k <= intent.endpoints@.len(),
            forall|j: int|
                0 <= j < k ==> (#[trigger] parse_endpoint_spec(endpoints_view(intent.endpoints@)[j])) is Some,
        decreases intent.endpoints@.len() - k,
    {
        if parse_endpoint(&intent.endpoints[k]).is_none() {
            proof {
                assert(endpoints_view(intent.endpoints@)[k as int] == intent.endpoints@[k as int]@);
            }
            return false;
        }
        proof {
            assert(endpoints_view(intent.endpoints@)[k as int] == intent.endpoints@[k as int]@);
        }
        k = k + 1;
    }
    true
}

// ---------------------------------------------------------------------------------------------
// Configuration validation
// ---------------------------------------------------------------------------------------------

pub const MAX_DIRECT_ENDPOINTS: usize = 256;
pub const MAX_TUNNEL_INTERFACE_CHARS: usize = 64;

pub ghost struct ConfigView {
    pub tunnel_interface: Seq<char>,
    pub proxy_endpoints: Seq<EndpointView>,
    pub bootstrap_api_hosts: Seq<Seq<char>>,
    pub direct_endpoints: Seq<EndpointView>,
}

pub open spec fn config_view(c: KillSwitchConfig) -> ConfigView {
    ConfigView {
        tunnel_interface: c.tunnel_interface@,
        proxy_endpoints: endpoints_view(c.proxy_endpoints@),
        bootstrap_api_hosts: strings_view(c.bootstrap_api_hosts@),
        direct_endpoints: endpoints_view(c.direct_endpoints@),
    }
}

pub open spec fn protocol_debug(p: IpProtocol) -> Seq<char> {
    match p {
        IpProtocol::Tcp => "Tcp"@,
        IpProtocol::Udp => "Udp"@,
        IpProtocol::IcmpV6 => "IcmpV6"@,
    }
}

/// The approved DIRECT ports: TCP 80/443, UDP 443/8000.
pub open spec fn direct_port_ok(protocol: IpProtocol, port: u16) -> bool {
    match protocol {
        IpProtocol::Tcp => port == 80 || port == 443,
        IpProtocol::Udp => port == 443 || port == 8000,
        IpProtocol::IcmpV6 => false,
    }
}

/// The well-known resolvers 1.1.1.1 and 8.8.8.8, which never go DIRECT.
pub open spec fn is_protected_resolver(ip: IpAddr) -> bool {
    ip is V4 && (ip.octet_seq() == seq![1u8, 1, 1, 1] || ip.octet_seq() == seq![8u8, 8, 8, 8])
}

/// The node addresses of the selected proxy endpoints that parse.
pub open spec fn node_ips(es: Seq<EndpointView>) -> Seq<IpAddr>
    decreases es.len(),
{
    if es.len() == 0 {
        seq![]
    } else {
        match parse_endpoint_spec(es.last()) {
            Some(p) => node_ips(es.drop_last()).push(p.0),
            None => node_ips(es.drop_last()),
        }
    }
}

pub open spec fn endpoint_text(e: EndpointView) -> Seq<char> {
    e.ip + ":"@ + dec_text(e.port as nat)
}

/// Why one DIRECT endpoint is refused, if it is.
pub open spec fn direct_error(e: EndpointView, nodes: Seq<IpAddr>) -> Option<Seq<char>> {
    match parse_endpoint_spec(e) {
        None => Some("invalid direct endpoint "@ + endpoint_text(e)),
        Some((ip, port, protocol)) => if !direct_port_ok(protocol, port) {
            Some(
                "direct endpoint "@ + ip_text(ip) + ":"@ + dec_text(port as nat) + "/"@
                    + protocol_debug(protocol) + " is not an approved WeChat port"@,
            )
        } else if is_protected_resolver(ip) {
            Some("direct endpoint "@ + ip_text(ip) + " is a permanently protected resolver"@)
        } else if nodes.contains(ip) {
            Some("direct endpoint "@ + ip_text(ip) + " duplicates a selected node address"@)
        } else {
            None
        },
    }
}

/// The first refused DIRECT endpoint's reason, in list order.
pub open spec fn first_direct_error(es: Seq<EndpointView>, nodes: Seq<IpAddr>) -> Option<Seq<char>>
    decreases es.len(),
{
    if es.len() == 0 {
        None
    } else {
        match direct_error(es[0], nodes) {
            Some(m) => Some(m),
            None => first_direct_error(es.drop_first(), nodes),
        }
    }
}

/// The first proxy endpoint that does not parse, as `ip:port`.
pub open spec fn first_bad_proxy(es: Seq<EndpointView>) -> Option<Seq<char>>
    decreases es.len(),
{
    if es.len() == 0 {
        None
    } else if parse_endpoint_spec(es[0]) is None {
        Some(endpoint_text(es[0]))
    } else {
        first_bad_proxy(es.drop_first())
    }
}

/// The refusal a kill-switch configuration earns, checked in order, or `None` when it is
/// acceptable.
pub open spec fn config_error(c: ConfigView) -> Option<Seq<char>> {
    if trim_seq(c.tunnel_interface).len() == 0 {
        Some("enabled kill switch requires tunnel_interface"@)
    } else if c.tunnel_interface.len() > MAX_TUNNEL_INTERFACE_CHARS {
        Some("tunnel_interface is not a plausible interface alias"@)
    } else if c.proxy_endpoints.len() == 0 {
        Some("enabled kill switch requires at least one proxy endpoint"@)
    } else if first_bad_proxy(c.proxy_endpoints) is Some {
        Some("invalid proxy endpoint "@ + first_bad_proxy(c.proxy_endpoints)->0)
    } else if c.direct_endpoints.len() > MAX_DIRECT_ENDPOINTS {
        Some("direct_endpoints exceeds the 256-entry bound"@)
    } else {
        first_direct_error(c.direct_endpoints, node_ips(c.proxy_endpoints))
    }
}

fn push_endpoint(out: &mut String, e: &ProxyEndpoint)
    ensures
        final(out)@ == old(out)@ + endpoint_text(e@),
{
    out.append(e.ip.as_str());
    out.append(":");
    push_decimal(out, e.port as u64);
}

fn push_port(out: &mut String, port: u16)
    ensures
        final(out)@ == old(out)@ + dec_text(port as nat),
{
    push_decimal(out, port as u64);
}

fn collect_node_ips(es: &Vec<ProxyEndpoint>) -> (r: Vec<IpAddr>)
    ensures
        r@ == node_ips(endpoints_view(es@)),
{
    let ghost ev = endpoints_view(es@);
    let mut r: Vec<IpAddr> = Vec::new();
    let mut i: usize = 0;
    while i < es.len()
        invariant
            i <= es@.len(),
            ev == endpoints_view(es@),
            r@ == node_ips(ev.take(i as int)),
        decreases es@.len() - i,
    {
        proof {
            assert(ev.take(i + 1).drop_last() =~= ev.take(i as int));
            assert(ev.take(i + 1).last() == es@[i as int]@);
        }
        match parse_endpoint(&es[i]) {
            Some(p) => r.push(p.0),
            None => {},
        }
        i = i + 1;
    }
    proof {
        assert(ev.take(ev.len() as int) =~= ev);
    }
    r
}

fn contains_ip(v: &Vec<IpAddr>, ip: &IpAddr) -> (r: bool)
    ensures
        r == v@.contains(*ip),
{
    let mut i: usize = 0;
    while i < v.len()
        invariant
            i <= v@.len(),
            forall|j: int| 0 <= j < i ==> v@[j] != *ip,
        decreases v@.len() - i,
    {
        if ip_eq(&v[i], ip) {
            return true;
        }
        i = i + 1;
    }
    false
}

fn check_direct(e: &ProxyEndpoint, nodes: &Vec<IpAddr>) -> (r: Option<String>)
    ensures
        match direct_error(e@, nodes@) {
            None => r is None,
            Some(m) => r matches Some(s) && s@ == m,
        },
{
    let (ip, port, protocol) = match parse_endpoint(e) {
        None => {
            let mut msg = String::new();
            msg.append("invalid direct endpoint ");
            push_endpoint(&mut msg, e);
            return Some(msg);
        },
        Some(p) => p,
    };
    let port_ok = match protocol {
        IpProtocol::Tcp => port == 80 || port == 443,
        IpProtocol::Udp => port == 443 || port == 8000,
        IpProtocol::IcmpV6 => false,
    };
    if !port_ok {
        let mut msg = String::new();
        msg.append("direct endpoint ");
        push_ip(&mut msg, &ip);
        msg.append(":");
        push_port(&mut msg, port);
        msg.append("/");
        match protocol {
            IpProtocol::Tcp => msg.append("Tcp"),
            IpProtocol::Udp => msg.append("Udp"),
            IpProtocol::IcmpV6 => msg.append("IcmpV6"),
        }
        msg.append(" is not an approved WeChat port");
        return Some(msg);
    }
    let resolver = match ip {
        IpAddr::V4(o) => (o[0] == 1 && o[1] == 1 && o[2] == 1 && o[3] == 1) || (o[0] == 8 && o[1]
            == 8 && o[2] == 8 && o[3] == 8),
        IpAddr::V6(_) => false,
    };
    proof {
        if ip is V4 {
            let o = ip->V4_0;
            assert(ip.octet_seq() == o@);
            if resolver {
                if o[0] == 1 {
                    assert(o@ =~= seq![1u8, 1, 1, 1]);
                } else {
                    assert(o@ =~= seq![8u8, 8, 8, 8]);
                }
            } else {
                assert(o@ != seq![1u8, 1, 1, 1]) by {
                    if o@ == seq![1u8, 1, 1, 1] {
                        assert(o@[0] == 1 && o@[1] == 1 && o@[2] == 1 && o@[3] == 1);
                    }
                }
                assert(o@ != seq![8u8, 8, 8, 8]) by {
                    if o@ == seq![8u8, 8, 8, 8] {
                        assert(o@[0] == 8 && o@[1] == 8 && o@[2] == 8 && o@[3] == 8);
                    }
                }
            }
        }
    }
    if resolver {
        let mut msg = String::new();
        msg.append("direct endpoint ");
        push_ip(&mut msg, &ip);
        msg.append(" is a permanently protected resolver");
        return Some(msg);
    }
    if contains_ip(nodes, &ip) {
        let mut msg = String::new();
        msg.append("direct endpoint ");
        push_ip(&mut msg, &ip);
        msg.append(" duplicates a selected node address");
        return Some(msg);
    }
    None
}

/// DIRECT endpoints: a bounded list of exact public tuples on an approved port, never a
/// protected resolver and never a selected node address.
pub fn validate_direct_endpoints(config: &KillSwitchConfig) -> (r: Result<(), String>)
    ensures
        config_view(*config).direct_endpoints.len() > MAX_DIRECT_ENDPOINTS ==> (r matches Err(m)
            && m@ == "direct_endpoints exceeds the 256-entry bound"@),
        config_view(*config).direct_endpoints.len() <= MAX_DIRECT_ENDPOINTS ==> match first_direct_error(
            config_view(*config).direct_endpoints,
            node_ips(config_view(*config).proxy_endpoints),
        ) {
            None => r is Ok,
            Some(m) => r matches Err(e) && e@ == m,
        },
{
    if config.direct_endpoints.len() > MAX_DIRECT_ENDPOINTS {
        return Err("direct_endpoints exceeds the 256-entry bound".to_string());
    }
    let nodes = collect_node_ips(&config.proxy_endpoints);
    let ghost dv = endpoints_view(config.direct_endpoints@);
    let ghost nv = nodes@;
    proof {
        assert(dv.skip(0) =~= dv);
    }
    let mut i: usize = 0;
    while i < config.direct_endpoints.len()
        invariant
            i <= config.direct_endpoints@.len(),
            dv == endpoints_view(config.direct_endpoints@),
            nv == nodes@,
            nv == node_ips(endpoints_view(config.proxy_endpoints@)),
            config.direct_endpoints@.len() <= MAX_DIRECT_ENDPOINTS,
            first_direct_error(dv.skip(i as int), nv) == first_direct_error(dv, nv),
        decreases config.direct_endpoints@.len() - i,
    {
        proof {
            assert(dv.skip(i as int)[0] == config.direct_endpoints@[i as int]@);
            assert(dv.skip(i as int).drop_first() =~= dv.skip(i + 1));
        }
        match check_direct(&config.direct_endpoints[i], &nodes) {
            Some(m) => return Err(m),
            None => {},
        }
        i = i + 1;
    }
    proof {
        assert(dv.skip(i as int).len() == 0);
    }
    Ok(())
}

/// Validate an arm request's configuration; the first refusal is returned.
pub fn validate_config(config: &KillSwitchConfig) -> (r: Result<(), String>)
    ensures
        match config_error(config_view(*config)) {
            None => r is Ok,
            Some(m) => r matches Err(e) && e@ == m,
        },
{
    if trim(config.tunnel_interface.as_str()).unicode_len() == 0 {
        return Err("enabled kill switch requires tunnel_interface".to_string());
    }
    if config.tunnel_interface.unicode_len() > MAX_TUNNEL_INTERFACE_CHARS {
        return Err("tunnel_interface is not a plausible interface alias".to_string());
    }
    if config.proxy_endpoints.len() == 0 {
        return Err("enabled kill switch requires at least one proxy endpoint".to_string());
    }
    let ghost pv = endpoints_view(config.proxy_endpoints@);
    proof {
        assert(pv.skip(0) =~= pv);
    }
    let mut i: usize = 0;
    while i < config.proxy_endpoints.len()
        invariant
            i <= config.proxy_endpoints@.len(),
            pv == endpoints_view(config.proxy_endpoints@),
            first_bad_proxy(pv.skip(i as int)) == first_bad_proxy(pv),
            trim_seq(config.tunnel_interface@).len() > 0,
            config.tunnel_interface@.len() <= MAX_TUNNEL_INTERFACE_CHARS,
            config.proxy_endpoints@.len() > 0,
        decreases config.proxy_endpoints@.len() - i,
    {
        proof {
            assert(pv.skip(i as int)[0] == config.proxy_endpoints@[i as int]@);
            assert(pv.skip(i as int).drop_first() =~= pv.skip(i + 1));
        }
        if parse_endpoint(&config.proxy_endpoints[i]).is_none() {
            let mut msg = String::new();
            msg.append("invalid proxy endpoint ");
            push_endpoint(&mut msg, &config.proxy_endpoints[i]);
            return Err(msg);
        }
        i = i + 1;
    }
    proof {
        assert(pv.skip(i as int).len() == 0);
    }
    validate_direct_endpoints(config)
}

// ---------------------------------------------------------------------------------------------
// The armed session
// ---------------------------------------------------------------------------------------------

/// The armed session: the intent, the tunnel LUID once locked, and the DIRECT endpoints,
/// which live only in memory (never persisted, never restored, never inherited).
#[derive(Clone, Debug, PartialEq, Eq)]
pub struct Armed {
    pub intent: IntentRecord,
    pub tun_luid: Option<u64>,
    pub direct_endpoints: Vec<ProxyEndpoint>,
}

pub ghost struct ArmedView {
    pub intent: IntentView,
    pub tun_luid: Option<u64>,
    pub direct_endpoints: Seq<EndpointView>,
}

impl View for Armed {
    type V = ArmedView;

    open spec fn view(&self) -> ArmedView {
        ArmedView {
            intent: self.intent@,
            tun_luid: self.tun_luid,
            direct_endpoints: endpoints_view(self.direct_endpoints@),
        }
    }
}

impl Armed {
    /// A copy with the same value.
    pub fn duplicate(&self) -> (r: Armed)
        ensures
            r@ == self@,
    {
        Armed {
            intent: self.intent.duplicate(),
            tun_luid: self.tun_luid,
            direct_endpoints: copy_endpoints(&self.direct_endpoints),
        }
    }
}

/// The recorded API host IPs that parse, in order.
pub open spec fn parsed_ips(hosts: Seq<Seq<char>>) -> Seq<IpAddr>
    decreases hosts.len(),
{
    if hosts.len() == 0 {
        seq![]
    } else {
        match parse_ip_spec(hosts.last()) {
            Some(ip) => parsed_ips(hosts.drop_last()).push(ip),
            None => parsed_ips(hosts.drop_last()),
        }
    }
}

pub open spec fn rule_config_spec(a: ArmedView) -> RuleConfigView {
    RuleConfigView {
        mode: a.intent.mode,
        endpoints: a.intent.endpoints,
        api_host_ips: parsed_ips(a.intent.api_host_ips),
        tun_luid: a.tun_luid,
        app_path: a.intent.app_path,
        direct_endpoints: a.direct_endpoints,
    }
}

/// The rule model's input for an armed session.
pub fn rule_config(armed: &Armed) -> (r: RuleConfig)
    ensures
        r@ == rule_config_spec(armed@),
{
    let hosts = &armed.intent.api_host_ips;
    let ghost hv = strings_view(hosts@);
    let mut ips: Vec<IpAddr> = Vec::new();
    let mut i: usize = 0;
    while i < hosts.len()
        invariant
            i <= hosts@.len(),
            hv == strings_view(hosts@),
            ips@ == parsed_ips(hv.take(i as int)),
        decreases hosts@.len() - i,
    {
        proof {
            assert(hv.take(i + 1).drop_last() =~= hv.take(i as int));
            assert(hv.take(i + 1).last() == hosts@[i as int]@);
        }
        match parse_ip(hosts[i].as_str()) {
            Some(ip) => ips.push(ip),
            None => {},
        }
        i = i + 1;
    }
    proof {
        assert(hv.take(hv.len() as int) =~= hv);
    }
    RuleConfig {
        mode: armed.intent.mode,
        endpoints: copy_endpoints(&armed.intent.endpoints),
        api_host_ips: ips,
        tun_luid: armed.tun_luid,
        app_path: armed.intent.app_path.clone(),
        direct_endpoints: copy_endpoints(&armed.direct_endpoints),
    }
}

/// The request-level refusals of an arm, checked before any host is resolved.
pub open spec fn arm_request_error(c: ConfigView, app_path: Seq<char>, owner_key: Seq<char>) -> Option<
    Seq<char>,
> {
    if config_error(c) is Some {
        config_error(c)
    } else if trim_seq(app_path).len() == 0 {
        Some("enabled kill switch requires the staged core path"@)
    } else if owner_key.len() == 0 {
        Some("enabled kill switch requires the authenticated owner key"@)
    } else {
        None
    }
}

pub fn check_arm_request(config: &KillSwitchConfig, app_path: &str, owner_key: &str) -> (r: Result<
    (),
    String,
>)
    ensures
        match arm_request_error(config_view(*config), app_path@, owner_key@) {
            None => r is Ok,
            Some(m) => r matches Err(e) && e@ == m,
        },
{
    match validate_config(config) {
        Err(e) => return Err(e),
        Ok(()) => {},
    }
    if trim(app_path).unicode_len() == 0 {
        return Err("enabled kill switch requires the staged core path".to_string());
    }
    if owner_key.unicode_len() == 0 {
        return Err("enabled kill switch requires the authenticated owner key".to_string());
    }
    Ok(())
}

/// How one bootstrap API host is turned into addresses.
#[derive(Clone, Debug, PartialEq, Eq)]
pub enum ApiHost {
    /// A literal address, used as is.
    Literal(IpAddr),
    /// A host name, resolved once by the caller before the block exists.
    Lookup(String),
}

pub ghost enum ApiHostView {
    Literal(IpAddr),
    Lookup(Seq<char>),
}

impl View for ApiHost {
    type V = ApiHostView;

    open spec fn view(&self) -> ApiHostView {
        match self {
            ApiHost::Literal(ip) => ApiHostView::Literal(*ip),
            ApiHost::Lookup(h) => ApiHostView::Lookup(h@),
        }
    }
}

pub open spec fn api_hosts_view(v: Seq<ApiHost>) -> Seq<ApiHostView> {
    v.map_values(|h: ApiHost| h@)
}

pub const MAX_API_HOSTS: usize = 16;

/// The first sixteen hosts, trimmed; blank ones are skipped.
pub open spec fn api_host_plan_spec(hosts: Seq<Seq<char>>) -> Seq<ApiHostView>
    decreases hosts.len(),
{
    if hosts.len() == 0 {
        seq![]
    } else if hosts.len() > MAX_API_HOSTS {
        api_host_plan_spec(hosts.take(MAX_API_HOSTS as int))
    } else {
        let prev = api_host_plan_spec(hosts.drop_last());
        let h = trim_seq(hosts.last());
        if h.len() == 0 {
            prev
        } else {
            match parse_ip_spec(h) {
                Some(ip) => prev.push(ApiHostView::Literal(ip)),
                None => prev.push(ApiHostView::Lookup(h)),
            }
        }
    }
}

pub fn api_host_plan(hosts: &Vec<String>) -> (r: Vec<ApiHost>)
    ensures
        api_hosts_view(r@) == api_host_plan_spec(strings_view(hosts@)),
{
    let ghost hv = strings_view(hosts@);
    let n = if hosts.len() > MAX_API_HOSTS {
        MAX_API_HOSTS
    } else {
        hosts.len()
    };
    let ghost lim = hv.take(n as int);
    proof {
        if hv.len() > MAX_API_HOSTS {
            assert(hv.take(MAX_API_HOSTS as int) =~= lim);
        } else {
            assert(lim =~= hv);
        }
    }
    let mut out: Vec<ApiHost> = Vec::new();
    let mut i: usize = 0;
    while i < n
        invariant
            i <= n <= hosts@.len(),
            n <= MAX_API_HOSTS,
            hv == strings_view(hosts@),
            lim == hv.take(n as int),
            api_hosts_view(out@) == api_host_plan_spec(lim.take(i as int)),
        decreases n - i,
    {
        proof {
            assert(lim.take(i + 1).drop_last() =~= lim.take(i as int));
            assert(lim.take(i + 1).last() == hosts@[i as int]@);
        }
        let h = trim(hosts[i].as_str());
        if h.unicode_len() > 0 {
            let ghost prev = out@;
            match parse_ip(h) {
                Some(ip) => {
                    out.push(ApiHost::Literal(ip));
                    proof {
                        assert(api_hosts_view(out@) =~= api_hosts_view(prev).push(ApiHostView::Literal(ip)));
                    }
                },
                None => {
                    let name = h.to_string();
                    out.push(ApiHost::Lookup(name));
                    proof {
                        assert(api_hosts_view(out@) =~= api_hosts_view(prev).push(ApiHostView::Lookup(h@)));
                    }
                },
            }
        }
        i = i + 1;
    }
    proof {
        assert(lim.take(n as int) =~= lim);
    }
    out
}

/// Addresses in host order: a literal stands for itself, a looked-up host for what its lookup
/// returned.
pub open spec fn gathered_ips(plan: Seq<ApiHostView>, resolved: Seq<Seq<IpAddr>>) -> Seq<IpAddr>
    decreases plan.len(),
{
    if plan.len() == 0 {
        seq![]
    } else {
        let prev = gathered_ips(plan.drop_last(), resolved);
        match plan.last() {
            ApiHostView::Literal(ip) => prev.push(ip),
            ApiHostView::Lookup(_) => prev + resolved[plan.len() - 1],
        }
    }
}

pub open spec fn resolved_view(r: Seq<Vec<IpAddr>>) -> Seq<Seq<IpAddr>> {
    r.map_values(|v: Vec<IpAddr>| v@)
}

/// The bootstrap API addresses: gathered in host order, then through the model's
/// public-only, bounded sanitizer. `resolved[i]` is the lookup result for `plan[i]`.
pub fn api_host_ips(plan: &Vec<ApiHost>, resolved: &Vec<Vec<IpAddr>>) -> (r: Vec<IpAddr>)
    requires
        resolved@.len() == plan@.len(),
    ensures
        r@ == crate::wfp_model::sanitize_spec(gathered_ips(api_hosts_view(plan@), resolved_view(resolved@))),
{
    let ghost pv = api_hosts_view(plan@);
    let ghost rv = resolved_view(resolved@);
    let mut ips: Vec<IpAddr> = Vec::new();
    let mut i: usize = 0;
    while i < plan.len()
        invariant
            i <= plan@.len(),
            resolved@.len() == plan@.len(),
            pv == api_hosts_view(plan@),
            rv == resolved_view(resolved@),
            ips@ == gathered_ips(pv.take(i as int), rv),
        decreases plan@.len() - i,
    {
        proof {
            assert(pv.take(i + 1).drop_last() =~= pv.take(i as int));
            assert(pv.take(i + 1).last() == plan@[i as int]@);
        }
        match &plan[i] {
            ApiHost::Literal(ip) => {
                ips.push(*ip);
            },
            ApiHost::Lookup(_) => {
                let found = &resolved[i];
                let ghost before = ips@;
                let mut j: usize = 0;
                while j < found.len()
                    invariant
                        j <= found@.len(),
                        ips@ == before + found@.take(j as int),
                    decreases found@.len() - j,
                {
                    ips.push(found[j]);
                    proof {
                        assert(found@.take(j + 1) =~= found@.take(j as int).push(found@[j as int]));
                    }
                    j = j + 1;
                }
                proof {
                    assert(found@.take(found@.len() as int) =~= found@);
                    assert(rv[i as int] == found@);
                }
            },
        }
        i = i + 1;
    }
    proof {
        assert(pv.take(pv.len() as int) =~= pv);
    }
    crate::wfp_model::sanitize_api_host_ips(&ips)
}

fn ip_strings(ips: &Vec<IpAddr>) -> (r: Vec<String>)
    ensures
        strings_view(r@) == ips@.map_values(|ip: IpAddr| ip_text(ip)),
{
    let mut r: Vec<String> = Vec::new();
    let mut i: usize = 0;
    while i < ips.len()
        invariant
            i <= ips@.len(),
            strings_view(r@) == ips@.take(i as int).map_values(|ip: IpAddr| ip_text(ip)),
        decreases ips@.len() - i,
    {
        let t = crate::ip::ip_to_string(&ips[i]);
        let ghost prev = r@;
        r.push(t);
        proof {
            assert(strings_view(r@) =~= strings_view(prev).push(t@));
            assert(ips@.take(i + 1).map_values(|ip: IpAddr| ip_text(ip)) =~= ips@.take(
                i as int,
            ).map_values(|ip: IpAddr| ip_text(ip)).push(ip_text(ips@[i as int])));
        }
        i = i + 1;
    }
    proof {
        assert(ips@.take(ips@.len() as int) =~= ips@);
    }
    r
}

// ---------------------------------------------------------------------------------------------
// The state machine
// ---------------------------------------------------------------------------------------------

/// How long a status read may trust the watchdog's last verify.
pub const VERIFY_CACHE_TTL_MS: u64 = 1_500;

/// The status's liveness: the last verify succeeded and is younger than the cache lifetime.
pub fn verify_is_fresh(last_verify: Option<(u64, bool)>, now_ms: u64) -> (r: bool)
    ensures
        r == match last_verify {
            Some((at, ok)) => ok && (if now_ms >= at {
                now_ms - at
            } else {
                0
            }) < VERIFY_CACHE_TTL_MS,
            None => false,
        },
{
    match last_verify {
        Some((at, ok)) => ok && now_ms.saturating_sub(at) < VERIFY_CACHE_TTL_MS,
        None => false,
    }
}

/// What `{:?}` makes of a string slice: std's `Debug` for `str`, quoted and escaped.
pub uninterp spec fn str_debug(s: Seq<char>) -> Seq<char>;

/// `format!("{s:?}")`, std's `Debug` for `str`. Its result is named, not spelled out: a
/// function of the text alone.
#[verifier::external_body]
fn debug_quoted(s: &str) -> (r: String)
    ensures
        r@ == str_debug(s@),
{
    format!("{s:?}")
}

/// The kill switch's in-memory state.
#[derive(Clone, Debug, PartialEq, Eq)]
pub struct KillSwitch {
    pub armed: Option<Armed>,
    pub last_error: Option<String>,
    /// Startup downgraded a Locked intent to Blocked; a core restore may re-lock once.
    pub restore_was_locked: bool,
}

pub open spec fn opt_armed_view(a: Option<Armed>) -> Option<ArmedView> {
    match a {
        Some(x) => Some(x@),
        None => None,
    }
}

/// Why a write by this caller is refused.
#[derive(Clone, Copy, Debug, PartialEq, Eq, Structural)]
pub enum ServiceErrorCode {
    /// The armed protection belongs to another owner.
    NotActive,
}

/// What follows a core stop.
#[derive(Clone, Copy, Debug, PartialEq, Eq, Structural)]
pub enum StopAction {
    /// Nothing is armed.
    Nothing,
    /// An explicit disconnect: run the release.
    Disarm,
    /// Keep blocking with the recovery channel open.
    Restrict,
}

/// The release's steps, in the only order allowed: DNS restore is proven before any filter is
/// removed, and the session is dropped only after filters and intent file are gone.
#[derive(Clone, Copy, Debug, PartialEq, Eq, Structural)]
pub enum DisarmStep {
    /// Nothing armed: sweep residual filters and the stale intent, then restore leftover DNS
    /// best-effort.
    SweepResiduals,
    /// Prove the DNS restore.
    RestoreDns,
    /// Remove every filter.
    RemoveFilters,
    /// Remove the intent record.
    RemoveIntent,
    /// DNS restore unproven: refuse, the block stays armed.
    Refused,
    /// Filter removal failed: reinstall the previous rule set and fail.
    ReinstallAfterFilterFailure,
    /// The intent record could not be removed after the network opened: reinstall and fail.
    ReinstallAfterIntentFailure,
    /// Released.
    Done,
}

/// One step of the release by its outcome.
pub open spec fn disarm_transition(step: DisarmStep, succeeded: bool) -> DisarmStep {
    match step {
        DisarmStep::RestoreDns => if succeeded {
            DisarmStep::RemoveFilters
        } else {
            DisarmStep::Refused
        },
        DisarmStep::RemoveFilters => if succeeded {
            DisarmStep::RemoveIntent
        } else {
            DisarmStep::ReinstallAfterFilterFailure
        },
        DisarmStep::RemoveIntent => if succeeded {
            DisarmStep::Done
        } else {
            DisarmStep::ReinstallAfterIntentFailure
        },
        other => other,
    }
}

/// Where a release of an armed session stands after these step outcomes, in order.
pub open spec fn disarm_run(outcomes: Seq<bool>) -> DisarmStep
    decreases outcomes.len(),
{
    if outcomes.len() == 0 {
        DisarmStep::RestoreDns
    } else {
        disarm_transition(disarm_run(outcomes.drop_last()), outcomes.last())
    }
}

/// DNS before disarm: a release of an armed session completes only if the DNS restore was
/// proven first, and then filters and intent record were removed, each exactly once, in that
/// order.
pub proof fn release_requires_proven_dns(outcomes: Seq<bool>)
    ensures
        disarm_run(outcomes) == DisarmStep::Done ==> outcomes.len() >= 3 && outcomes[0]
            && outcomes[1] && outcomes[2],
        outcomes.len() >= 1 && !outcomes[0] ==> disarm_run(outcomes) == DisarmStep::Refused,
    decreases outcomes.len(),
{
    if outcomes.len() > 0 {
        release_requires_proven_dns(outcomes.drop_last());
        let pre = outcomes.drop_last();
        if pre.len() >= 1 {
            assert(pre[0] == outcomes[0]);
        }
        if pre.len() >= 3 {
            assert(pre[1] == outcomes[1] && pre[2] == outcomes[2]);
        }
        if disarm_run(outcomes) == DisarmStep::Done {
            lemma_disarm_run_shape(pre);
        }
    }
}

proof fn lemma_disarm_run_shape(outcomes: Seq<bool>)
    ensures
        disarm_run(outcomes) == DisarmStep::RemoveIntent ==> outcomes.len() == 2 && outcomes[0]
            && outcomes[1],
        disarm_run(outcomes) == DisarmStep::RemoveFilters ==> outcomes.len() == 1 && outcomes[0],
        disarm_run(outcomes) == DisarmStep::RestoreDns ==> outcomes.len() == 0,
    decreases outcomes.len(),
{
    if outcomes.len() > 0 {
        let pre = outcomes.drop_last();
        lemma_disarm_run_shape(pre);
        if pre.len() >= 1 {
            assert(pre[0] == outcomes[0]);
        }
    }
}

pub const FILTER_REMOVAL_FAILED: &'static str = "failed to remove kill-switch filters; protection restored";
pub const INTENT_CLEANUP_FAILED: &'static str = "network opened but persisted-state cleanup failed";
pub const CORRUPT_INTENT_CONTEXT: &'static str = "corrupt kill-switch intent: failed to install emergency block";
pub const RESIDUAL_OBJECTS_CONTEXT: &'static str = "missing intent with residual WFP objects: failed to reinstall block";

/// What reading the intent record at service start found.
#[derive(Clone, Debug, PartialEq, Eq)]
pub enum IntentRead {
    /// No record; `residual` says whether Tono's WFP objects exist anyway (an unreadable
    /// answer counts as yes).
    Missing { residual: bool },
    /// A record that does not parse.
    Corrupt,
    Parsed(IntentRecord),
}

/// What the service must do after start-up reconciliation decided.
#[derive(Clone, Copy, Debug, PartialEq, Eq, Structural)]
pub enum StartAction {
    /// Nothing armed, nothing residual: restore a leftover DNS snapshot best-effort.
    SweepDns,
    /// Persist the adjusted intent, then install its rules.
    PersistAndInstall,
    /// Install the recorded rules as they are.
    Install,
    /// Install the emergency block for a corrupt record (the file stays as evidence).
    InstallCorruptBlock,
    /// Install the emergency block for residual objects without a record.
    InstallResidualBlock,
    /// Unwanted intent: remove filters and the record, then restore leftover DNS best-effort.
    Cleanup,
}

/// What retiring an unverified start-up intent requires.
#[derive(Clone, Debug, PartialEq, Eq)]
pub enum RetireAction {
    /// Nothing to retire (not armed, or a verified session).
    Nothing,
    /// Retire this owner's desired core state (`None`: the legacy active owner), then release.
    RetireOwner(Option<String>),
}

/// The intent every emergency block carries: wanted, Blocked, owning no one, no endpoints.
pub open spec fn emergency_intent(now: u64) -> IntentView {
    IntentView {
        wanted: true,
        mode: KillSwitchStatusMode::Blocked,
        verified: Some(true),
        tunnel_interface: seq![],
        app_path: seq![],
        endpoints: seq![],
        api_host_ips: seq![],
        updated_at: now,
        owner_key: None,
    }
}

fn emergency_armed(now: u64) -> (r: Armed)
    ensures
        r@.intent == emergency_intent(now),
        r@.tun_luid is None,
        r@.direct_endpoints.len() == 0,
{
    let endpoints: Vec<ProxyEndpoint> = Vec::new();
    let hosts: Vec<String> = Vec::new();
    let direct: Vec<ProxyEndpoint> = Vec::new();
    proof {
        assert(endpoints_view(endpoints@) =~= Seq::<EndpointView>::empty());
        assert(strings_view(hosts@) =~= Seq::<Seq<char>>::empty());
    }
    let r = Armed {
        intent: IntentRecord {
            wanted: true,
            mode: KillSwitchStatusMode::Blocked,
            verified: Some(true),
            tunnel_interface: String::new(),
            app_path: String::new(),
            endpoints,
            api_host_ips: hosts,
            updated_at: now,
            owner_key: None,
        },
        tun_luid: None,
        direct_endpoints: direct,
    };
    proof {
        assert(r@.intent =~= emergency_intent(now));
    }
    r
}

pub open spec fn lock_mismatch_text(supplied: Seq<char>, recorded: Seq<char>) -> Seq<char> {
    "lock interface "@ + str_debug(supplied) + " does not match the interface recorded at arm time "@
        + str_debug(recorded)
}

/// The refusal of a lock naming another interface, from the two names' debug renderings.
pub fn lock_mismatch_message(supplied_debug: &str, recorded_debug: &str) -> (r: String)
    ensures
        r@ == "lock interface "@ + supplied_debug@ + " does not match the interface recorded at arm time "@
            + recorded_debug@,
{
    let mut msg = String::new();
    msg.append("lock interface ");
    msg.append(supplied_debug);
    msg.append(" does not match the interface recorded at arm time ");
    msg.append(recorded_debug);
    msg
}

fn with_prefix(prefix: &str, error: &str) -> (r: String)
    ensures
        r@ == prefix@ + error@,
{
    let mut msg = String::new();
    msg.append(prefix);
    msg.append(error);
    msg
}

pub open spec fn emergency_dns_text(error: Seq<char>, snapshot_debug: Seq<char>) -> Seq<char> {
    "WFP was removed, but DNS restore could not be proven: "@ + error + ". Recovery snapshot: "@
        + snapshot_debug
        + ". Restore the affected adapter DNS (usually DHCP), then rerun the uninstaller; if the snapshot is corrupt, delete it only after DNS is verified."@
}

/// The uninstall contract's failure after an emergency disarm removed WFP but could not prove
/// the DNS restore; `snapshot_debug` is the recovery snapshot path as `{:?}` renders it.
pub fn emergency_dns_failure(error: &str, snapshot_debug: &str) -> (r: String)
    ensures
        r@ == emergency_dns_text(error@, snapshot_debug@),
{
    let mut msg = String::new();
    msg.append("WFP was removed, but DNS restore could not be proven: ");
    msg.append(error);
    msg.append(". Recovery snapshot: ");
    msg.append(snapshot_debug);
    msg.append(
        ". Restore the affected adapter DNS (usually DHCP), then rerun the uninstaller; if the snapshot is corrupt, delete it only after DNS is verified.",
    );
    msg
}

/// The fail-open tombstone an emergency disarm persists before removing WFP: the readable
/// record with `wanted` cleared, or an empty unwanted one.
pub fn emergency_tombstone(read: Option<IntentRecord>, now: u64) -> (r: IntentRecord)
    ensures
        !r.wanted,
        r.updated_at == now,
        read matches Some(i) ==> r@ == (IntentView { wanted: false, updated_at: now, ..i@ }),
        read is None ==> r@ == (IntentView {
            wanted: false,
            mode: KillSwitchStatusMode::Blocked,
            verified: Some(false),
            tunnel_interface: seq![],
            app_path: seq![],
            endpoints: seq![],
            api_host_ips: seq![],
            updated_at: now,
            owner_key: None,
        }),
{
    let mut t = match read {
        Some(i) => i,
        None => {
            let endpoints: Vec<ProxyEndpoint> = Vec::new();
            let hosts: Vec<String> = Vec::new();
            proof {
                assert(endpoints_view(endpoints@) =~= Seq::<EndpointView>::empty());
                assert(strings_view(hosts@) =~= Seq::<Seq<char>>::empty());
            }
            IntentRecord {
                wanted: false,
                mode: KillSwitchStatusMode::Blocked,
                verified: Some(false),
                tunnel_interface: String::new(),
                app_path: String::new(),
                endpoints,
                api_host_ips: hosts,
                updated_at: now,
                owner_key: None,
            }
        },
    };
    t.wanted = false;
    t.updated_at = now;
    t
}

pub open spec fn opt_owner_is(o: Option<Seq<char>>, key: Seq<char>) -> bool {
    o == Some(key)
}

fn owner_matches(o: &Option<String>, key: &str) -> (r: bool)
    ensures
        r == opt_owner_is(opt_text(*o), key@),
{
    match o {
        Some(k) => crate::dns::str_eq(k.as_str(), key),
        None => false,
    }
}

/// The arm's new session: Bootstrap, verified only if the same owner's session already was,
/// the trimmed interface, the sanitized API addresses as text, and the DIRECT endpoints in
/// memory only.
pub open spec fn bootstrap_spec(
    previous: Option<ArmedView>,
    c: ConfigView,
    app_path: Seq<char>,
    owner_key: Seq<char>,
    api_ips: Seq<IpAddr>,
    now: u64,
) -> ArmedView {
    let inherited = match previous {
        Some(a) => a.intent.owner_key == Some(owner_key) && verified_spec(a.intent),
        None => false,
    };
    ArmedView {
        intent: IntentView {
            wanted: true,
            mode: KillSwitchStatusMode::Bootstrap,
            verified: Some(inherited),
            tunnel_interface: trim_seq(c.tunnel_interface),
            app_path,
            endpoints: c.proxy_endpoints,
            api_host_ips: api_ips.map_values(|ip: IpAddr| ip_text(ip)),
            updated_at: now,
            owner_key: Some(owner_key),
        },
        tun_luid: None,
        direct_endpoints: c.direct_endpoints,
    }
}

pub open spec fn mark_verified_spec(armed: Option<ArmedView>, owner: Seq<char>, now: u64) -> Result<
    Option<ArmedView>,
    Seq<char>,
> {
    match armed {
        None => Err("kill switch is not armed"@),
        Some(a) => if !opt_owner_is(a.intent.owner_key, owner) {
            Err("kill switch belongs to a different owner"@)
        } else if a.intent.mode != KillSwitchStatusMode::Locked {
            Err("kill switch must be locked before verification"@)
        } else if a.intent.verified == Some(true) {
            Ok(None)
        } else {
            Ok(
                Some(
                    ArmedView {
                        intent: IntentView { verified: Some(true), updated_at: now, ..a.intent },
                        ..a
                    },
                ),
            )
        },
    }
}

pub open spec fn verification_view(r: Result<Option<Armed>, String>) -> Result<Option<ArmedView>, Seq<char>> {
    match r {
        Ok(Some(a)) => Ok(Some(a@)),
        Ok(None) => Ok(None),
        Err(e) => Err(e@),
    }
}

/// Verification is idempotent: once committed, marking the same session again changes nothing.
pub proof fn mark_verified_is_idempotent(armed: Option<ArmedView>, owner: Seq<char>, now: u64, later: u64)
    ensures
        mark_verified_spec(armed, owner, now) matches Ok(Some(n)) ==> mark_verified_spec(
            Some(n),
            owner,
            later,
        ) == Ok::<Option<ArmedView>, Seq<char>>(None),
{
}

impl KillSwitch {
    pub fn new() -> (r: KillSwitch)
        ensures
            r.armed is None,
            r.last_error is None,
            !r.restore_was_locked,
    {
        KillSwitch { armed: None, last_error: None, restore_was_locked: false }
    }

    /// First phase of the two-phase arm, after `check_arm_request` passed and the API hosts
    /// were resolved: the session to persist, commit and install.
    pub fn bootstrap_armed(
        &self,
        config: &KillSwitchConfig,
        app_path: &str,
        owner_key: &str,
        api_host_ips: &Vec<IpAddr>,
        now: u64,
    ) -> (r: Armed)
        ensures
            r@ == bootstrap_spec(
                opt_armed_view(self.armed),
                config_view(*config),
                app_path@,
                owner_key@,
                api_host_ips@,
                now,
            ),
    {
        let inherited = match &self.armed {
            Some(a) => owner_matches(&a.intent.owner_key, owner_key) && a.intent.is_verified(),
            None => false,
        };
        Armed {
            intent: IntentRecord {
                wanted: true,
                mode: KillSwitchStatusMode::Bootstrap,
                verified: Some(inherited),
                tunnel_interface: trim(config.tunnel_interface.as_str()).to_string(),
                app_path: app_path.to_string(),
                endpoints: copy_endpoints(&config.proxy_endpoints),
                api_host_ips: ip_strings(api_host_ips),
                updated_at: now,
                owner_key: Some(owner_key.to_string()),
            },
            tun_luid: None,
            direct_endpoints: copy_endpoints(&config.direct_endpoints),
        }
    }

    /// Publish a session at its commit boundary.
    pub fn commit(&mut self, armed: Armed)
        ensures
            opt_armed_view(final(self).armed) == Some(armed@),
            final(self).last_error == old(self).last_error,
            final(self).restore_was_locked == old(self).restore_was_locked,
    {
        self.armed = Some(armed);
    }

    /// Record an operation's outcome in `last_error`: cleared on success, the error otherwise.
    pub fn record_outcome(&mut self, outcome: Result<(), String>)
        ensures
            opt_armed_view(final(self).armed) == opt_armed_view(old(self).armed),
            final(self).restore_was_locked == old(self).restore_was_locked,
            match outcome {
                Ok(()) => final(self).last_error is None,
                Err(e) => opt_text(final(self).last_error) == Some(e@),
            },
    {
        match outcome {
            Ok(()) => self.last_error = None,
            Err(e) => self.last_error = Some(e),
        }
    }

    /// Commit the app's verification barrier: only the owner, only once locked; idempotent.
    /// `Ok(Some(..))` is the session to persist and commit, `Ok(None)` means already verified.
    pub fn mark_verified(&self, owner_key: &str, now: u64) -> (r: Result<Option<Armed>, String>)
        ensures
            verification_view(r) == mark_verified_spec(opt_armed_view(self.armed), owner_key@, now),
    {
        let a = match &self.armed {
            None => return Err("kill switch is not armed".to_string()),
            Some(a) => a,
        };
        if !owner_matches(&a.intent.owner_key, owner_key) {
            return Err("kill switch belongs to a different owner".to_string());
        }
        if a.intent.mode != KillSwitchStatusMode::Locked {
            return Err("kill switch must be locked before verification".to_string());
        }
        if a.intent.verified == Some(true) {
            return Ok(None);
        }
        let mut n = a.duplicate();
        n.intent.verified = Some(true);
        n.intent.updated_at = now;
        Ok(Some(n))
    }

    /// Whether `caller_key` may release or restrict the armed protection: only the recorded
    /// owner; a session owning no one (or none at all) may be released by anyone.
    pub fn authorize_write_for(&self, caller_key: &str) -> (r: Result<(), ServiceErrorCode>)
        ensures
            r is Ok <==> match self.armed {
                None => true,
                Some(a) => match a@.intent.owner_key {
                    None => true,
                    Some(k) => k == caller_key@,
                },
            },
            r matches Err(c) ==> c == ServiceErrorCode::NotActive,
    {
        match &self.armed {
            None => Ok(()),
            Some(a) => match &a.intent.owner_key {
                None => Ok(()),
                Some(k) => if crate::dns::str_eq(k.as_str(), caller_key) {
                    Ok(())
                } else {
                    Err(ServiceErrorCode::NotActive)
                },
            },
        }
    }

    /// The interface a lock may permit: the one recorded at arm time. A supplied name that is
    /// non-blank after trimming must equal it; a refusal has no side effect.
    pub fn lock_target(&self, supplied: Option<&str>) -> (r: Result<String, String>)
        ensures
            self.armed is None ==> (r matches Err(e) && e@ == "kill switch is not armed"@),
            self.armed matches Some(a) ==> {
                let rec = a@.intent.tunnel_interface;
                if rec.len() == 0 {
                    r matches Err(e) && e@ == "armed kill switch has no tunnel interface"@
                } else if supplied matches Some(s) && trim_seq(s@).len() > 0 && trim_seq(s@)
                    != rec {
                    r matches Err(e) && e@ == lock_mismatch_text(trim_seq(supplied->0@), rec)
                } else {
                    r matches Ok(t) && t@ == rec
                }
            },
    {
        let a = match &self.armed {
            None => return Err("kill switch is not armed".to_string()),
            Some(a) => a,
        };
        let recorded = a.intent.tunnel_interface.as_str();
        if recorded.unicode_len() == 0 {
            return Err("armed kill switch has no tunnel interface".to_string());
        }
        match supplied {
            Some(s) => {
                let t = trim(s);
                if t.unicode_len() > 0 && !crate::dns::str_eq(t, recorded) {
                    let sd = debug_quoted(t);
                    let rd = debug_quoted(recorded);
                    return Err(lock_mismatch_message(sd.as_str(), rd.as_str()));
                }
            },
            None => {},
        }
        Ok(a.intent.tunnel_interface.clone())
    }

    /// The locked session: the tunnel permitted by its LUID, the bootstrap channel retracted.
    /// The caller installs it first and persists and commits it only if that succeeded.
    pub fn locked(&self, luid: u64, now: u64) -> (r: Option<Armed>)
        ensures
            self.armed is None ==> r is None,
            self.armed matches Some(a) ==> (r matches Some(n) && n@ == (ArmedView {
                intent: IntentView { mode: KillSwitchStatusMode::Locked, updated_at: now, ..a@.intent },
                tun_luid: Some(luid),
                ..a@
            })),
    {
        match &self.armed {
            None => None,
            Some(a) => {
                let mut n = a.duplicate();
                n.tun_luid = Some(luid);
                n.intent.mode = KillSwitchStatusMode::Locked;
                n.intent.updated_at = now;
                Some(n)
            },
        }
    }

    /// A lock committed: the session is published and `last_error` cleared.
    pub fn commit_lock(&mut self, armed: Armed)
        ensures
            opt_armed_view(final(self).armed) == Some(armed@),
            final(self).last_error is None,
            final(self).restore_was_locked == old(self).restore_was_locked,
    {
        self.armed = Some(armed);
        self.last_error = None;
    }

    /// "Protected Offline": Blocked, no tunnel permit, recovery channel open. The caller
    /// persists it first, then commits and installs.
    pub fn restricted(&self, now: u64) -> (r: Result<Armed, String>)
        ensures
            self.armed is None ==> (r matches Err(e) && e@ == "kill switch is not armed"@),
            self.armed matches Some(a) ==> (r matches Ok(n) && n@ == (ArmedView {
                intent: IntentView { mode: KillSwitchStatusMode::Blocked, updated_at: now, ..a@.intent },
                tun_luid: None,
                ..a@
            })),
    {
        match &self.armed {
            None => Err("kill switch is not armed".to_string()),
            Some(a) => {
                let mut n = a.duplicate();
                n.intent.mode = KillSwitchStatusMode::Blocked;
                n.tun_luid = None;
                n.intent.updated_at = now;
                Ok(n)
            },
        }
    }

    /// After a core stop: keep blocking unless an explicit disconnect asked for release.
    pub fn after_stop(&self, release_requested: bool) -> (r: StopAction)
        ensures
            self.armed is None ==> r == StopAction::Nothing,
            self.armed is Some ==> r == if release_requested {
                StopAction::Disarm
            } else {
                StopAction::Restrict
            },
    {
        if self.armed.is_none() {
            StopAction::Nothing
        } else if release_requested {
            StopAction::Disarm
        } else {
            StopAction::Restrict
        }
    }

    /// The first step of a release.
    pub fn disarm_start(&self) -> (r: DisarmStep)
        ensures
            r == if self.armed is None {
                DisarmStep::SweepResiduals
            } else {
                DisarmStep::RestoreDns
            },
    {
        if self.armed.is_none() {
            DisarmStep::SweepResiduals
        } else {
            DisarmStep::RestoreDns
        }
    }

    /// Advance a release by the outcome of `step`. The network opens only after the DNS
    /// restore was proven, and the session is dropped only once filters and record are gone;
    /// a failure after the DNS step reinstalls the previous rules.
    pub fn disarm_next(&mut self, step: DisarmStep, succeeded: bool) -> (r: DisarmStep)
        ensures
            r == disarm_transition(step, succeeded),
            r == DisarmStep::Done && step == DisarmStep::RemoveIntent ==> final(self).armed is None
                && final(self).last_error is None,
            !(r == DisarmStep::Done && step == DisarmStep::RemoveIntent) ==> opt_armed_view(
                final(self).armed,
            ) == opt_armed_view(old(self).armed) && final(self).last_error == old(self).last_error,
            final(self).restore_was_locked == old(self).restore_was_locked,
    {
        match step {
            DisarmStep::RestoreDns => if succeeded {
                DisarmStep::RemoveFilters
            } else {
                DisarmStep::Refused
            },
            DisarmStep::RemoveFilters => if succeeded {
                DisarmStep::RemoveIntent
            } else {
                DisarmStep::ReinstallAfterFilterFailure
            },
            DisarmStep::RemoveIntent => if succeeded {
                self.armed = None;
                self.last_error = None;
                DisarmStep::Done
            } else {
                DisarmStep::ReinstallAfterIntentFailure
            },
            other => other,
        }
    }

    /// The not-armed release's best-effort DNS restore: a failure is surfaced in `last_error`.
    pub fn note_leftover_dns(&mut self, restored: Result<(), String>)
        ensures
            opt_armed_view(final(self).armed) == opt_armed_view(old(self).armed),
            final(self).restore_was_locked == old(self).restore_was_locked,
            match restored {
                Ok(()) => final(self).last_error == old(self).last_error,
                Err(e) => opt_text(final(self).last_error) == Some(
                    "leftover DNS snapshot could not be restored: "@ + e@,
                ),
            },
    {
        match restored {
            Ok(()) => {},
            Err(e) => {
                self.last_error = Some(
                    with_prefix("leftover DNS snapshot could not be restored: ", e.as_str()),
                );
            },
        }
    }

    /// Service-start recovery. A valid unverified intent stays strictly Blocked until start-up
    /// reconciliation retires it; a verified Locked intent is downgraded to Blocked (its
    /// legacy verification materialised) and marked for re-lock; an unwanted one is cleaned
    /// up; a corrupt record or residual objects without a record arm the emergency block.
    /// DIRECT endpoints never come back.
    pub fn restore_on_service_start(&mut self, read: IntentRead, now: u64) -> (r: StartAction)
        ensures
            final(self).last_error == old(self).last_error,
            match read {
                IntentRead::Missing { residual } => if residual {
                    r == StartAction::InstallResidualBlock && !final(self).restore_was_locked
                        && (final(self).armed matches Some(a) && a@.intent == emergency_intent(now)
                        && a@.tun_luid is None && a@.direct_endpoints.len() == 0)
                } else {
                    r == StartAction::SweepDns && !final(self).restore_was_locked && opt_armed_view(
                        final(self).armed,
                    ) == opt_armed_view(old(self).armed)
                },
                IntentRead::Corrupt => r == StartAction::InstallCorruptBlock
                    && !final(self).restore_was_locked && (final(self).armed matches Some(a)
                    && a@.intent == emergency_intent(now) && a@.tun_luid is None
                    && a@.direct_endpoints.len() == 0),
                IntentRead::Parsed(i) => if !intent_valid_spec(i@) {
                    r == StartAction::Cleanup && !final(self).restore_was_locked && (final(self).armed is None)
                } else if !verified_spec(i@) {
                    r == StartAction::PersistAndInstall && !final(self).restore_was_locked && opt_armed_view(
                        final(self).armed,
                    ) == Some(
                        ArmedView {
                            intent: IntentView {
                                mode: KillSwitchStatusMode::Blocked,
                                updated_at: now,
                                ..i@
                            },
                            tun_luid: None,
                            direct_endpoints: seq![],
                        },
                    )
                } else if i@.mode == KillSwitchStatusMode::Locked {
                    r == StartAction::PersistAndInstall && final(self).restore_was_locked && opt_armed_view(
                        final(self).armed,
                    ) == Some(
                        ArmedView {
                            intent: IntentView {
                                verified: Some(true),
                                mode: KillSwitchStatusMode::Blocked,
                                updated_at: now,
                                ..i@
                            },
                            tun_luid: None,
                            direct_endpoints: seq![],
                        },
                    )
                } else {
                    r == StartAction::Install && !final(self).restore_was_locked && opt_armed_view(
                        final(self).armed,
                    ) == Some(ArmedView { intent: i@, tun_luid: None, direct_endpoints: seq![] })
                },
            },
    {
        self.restore_was_locked = false;
        match read {
            IntentRead::Missing { residual } => {
                if residual {
                    self.armed = Some(emergency_armed(now));
                    StartAction::InstallResidualBlock
                } else {
                    StartAction::SweepDns
                }
            },
            IntentRead::Corrupt => {
                self.armed = Some(emergency_armed(now));
                StartAction::InstallCorruptBlock
            },
            IntentRead::Parsed(intent) => {
                if !intent_is_valid(&intent) {
                    self.armed = None;
                    return StartAction::Cleanup;
                }
                let direct: Vec<ProxyEndpoint> = Vec::new();
                proof {
                    assert(endpoints_view(direct@) =~= Seq::<EndpointView>::empty());
                }
                let verified = intent.is_verified();
                let mut armed = Armed { intent, tun_luid: None, direct_endpoints: direct };
                if !verified {
                    armed.intent.mode = KillSwitchStatusMode::Blocked;
                    armed.intent.updated_at = now;
                    self.armed = Some(armed);
                    return StartAction::PersistAndInstall;
                }
                if armed.intent.mode == KillSwitchStatusMode::Locked {
                    armed.intent.verified = Some(true);
                    armed.intent.mode = KillSwitchStatusMode::Blocked;
                    armed.intent.updated_at = now;
                    self.armed = Some(armed);
                    self.restore_was_locked = true;
                    return StartAction::PersistAndInstall;
                }
                self.armed = Some(armed);
                StartAction::Install
            },
        }
    }

    /// The session to drop at the end of an unwanted-intent cleanup.
    pub fn clear(&mut self)
        ensures
            final(self).armed is None,
            final(self).last_error == old(self).last_error,
            final(self).restore_was_locked == old(self).restore_was_locked,
    {
        self.armed = None;
    }

    /// Whether start-up must retire an unverified session before opening the machine.
    pub fn retire_unverified_on_service_start(&self) -> (r: RetireAction)
        ensures
            match self.armed {
                None => r == RetireAction::Nothing,
                Some(a) => if verified_spec(a@.intent) {
                    r == RetireAction::Nothing
                } else {
                    r matches RetireAction::RetireOwner(o) && opt_text(o) == a@.intent.owner_key
                },
            },
    {
        match &self.armed {
            None => RetireAction::Nothing,
            Some(a) => if a.intent.is_verified() {
                RetireAction::Nothing
            } else {
                RetireAction::RetireOwner(copy_opt_text(&a.intent.owner_key))
            },
        }
    }

    /// A failed retirement keeps the session fail-closed and says so.
    pub fn note_retire_failure(&mut self, error: &str)
        ensures
            opt_armed_view(final(self).armed) == opt_armed_view(old(self).armed),
            final(self).restore_was_locked == old(self).restore_was_locked,
            opt_text(final(self).last_error) == Some(
                "stale unverified session remains fail-closed: "@ + error@,
            ),
    {
        self.last_error = Some(with_prefix("stale unverified session remains fail-closed: ", error));
    }

    /// Consume the re-lock marker: a restored Locked session re-locks at most once, and only
    /// while still armed.
    pub fn relock_restored_tunnel(&mut self) -> (r: bool)
        ensures
            r == (old(self).restore_was_locked && old(self).armed is Some),
            !final(self).restore_was_locked,
            opt_armed_view(final(self).armed) == opt_armed_view(old(self).armed),
            final(self).last_error == old(self).last_error,
    {
        let was = self.restore_was_locked;
        self.restore_was_locked = false;
        was && self.armed.is_some()
    }

    /// A failed re-lock keeps the stricter Blocked mode and is recorded.
    pub fn note_relock_failure(&mut self, error: &str) -> (r: String)
        ensures
            r@ == "restored core could not be re-locked: "@ + error@,
            opt_text(final(self).last_error) == Some(r@),
            opt_armed_view(final(self).armed) == opt_armed_view(old(self).armed),
            final(self).restore_was_locked == old(self).restore_was_locked,
    {
        let message = with_prefix("restored core could not be re-locked: ", error);
        self.last_error = Some(message.clone());
        message
    }

    /// An emergency disarm removed the session.
    pub fn emergency_cleared(&mut self)
        ensures
            final(self).armed is None,
            final(self).last_error == old(self).last_error,
            final(self).restore_was_locked == old(self).restore_was_locked,
    {
        self.armed = None;
    }

    /// The status report; `live` is the watchdog's fresh verify result (false when no engine
    /// backs this build).
    pub fn status(&self, live: bool) -> (r: KillSwitchStatus)
        ensures
            opt_text(r.last_error) == opt_text(self.last_error),
            match self.armed {
                None => !r.wanted && !r.verified && !r.live && r.mode == KillSwitchStatusMode::Blocked
                    && r.endpoints@.len() == 0,
                Some(a) => r.wanted == a@.intent.wanted && r.verified == verified_spec(a@.intent)
                    && r.live == live && r.mode == a@.intent.mode && endpoints_view(r.endpoints@)
                    == a@.intent.endpoints,
            },
    {
        let last_error = copy_opt_text(&self.last_error);
        match &self.armed {
            None => KillSwitchStatus {
                wanted: false,
                verified: false,
                live: false,
                mode: KillSwitchStatusMode::Blocked,
                endpoints: Vec::new(),
                last_error,
            },
            Some(a) => KillSwitchStatus {
                wanted: a.intent.wanted,
                verified: a.intent.is_verified(),
                live,
                mode: a.intent.mode,
                endpoints: copy_endpoints(&a.intent.endpoints),
                last_error,
            },
        }
    }
}

} // verus!
