//! Platform-independent WFP rule model for the kill switch.
//!
//! The rule set is a pure function of the desired protection state: [`expected_filters`]
//! renders the exact filter set the Windows engine must install, and [`diff`] turns the live
//! key set into an ordered change plan. Every rule lives in one sublayer, so arbitration is by
//! filter weight alone: weighted permits over a low, condition-free block-all. Persistence is
//! reserved for the floor's condition-free block-all pair, which is what survives a reboot.

use crate::ip::{
    ip_eq, ip_text, is_public_spec, is_public_unreserved, parse_ip, parse_ip_spec, push_ip, IpAddr,
};
use crate::structure::{endpoints_view, EndpointView, KillSwitchStatusMode, ProxyEndpoint, ProxyProtocol};
use crate::text::{dec_text, push_decimal, trim, trim_seq};
use vstd::prelude::*;
use vstd::string::*;
use vstd::utf8::{encode_scalar, encode_utf8};

verus! {

/// A WFP object key; the engine converts it into a Windows `GUID`.
#[derive(Clone, Copy, Debug, PartialEq, Eq, Hash, PartialOrd, Ord, Structural)]
pub struct Guid(u128);

impl Guid {
    pub closed spec fn value(self) -> u128 {
        self.0
    }

    pub fn from_u128(value: u128) -> (r: Guid)
        ensures
            r.value() == value,
    {
        Guid(value)
    }

    pub fn into_u128(self) -> (r: u128)
        ensures
            r == self.value(),
    {
        self.0
    }
}

/// The provider key every WFP object of the service carries.
pub fn tono_wfp_provider_key() -> (r: Guid)
    ensures
        r.value() == 0x2f7c9d41_8b3e_4a6c_9d52_1e7f0a4b6c8d,
{
    Guid(0x2f7c9d41_8b3e_4a6c_9d52_1e7f0a4b6c8d)
}

/// The single sublayer every rule lives in.
pub fn tono_wfp_sublayer_key() -> (r: Guid)
    ensures
        r.value() == 0x2f7c9d42_8b3e_4a6c_9d52_1e7f0a4b6c8d,
{
    Guid(0x2f7c9d42_8b3e_4a6c_9d52_1e7f0a4b6c8d)
}

pub const TONO_WFP_SUBLAYER_WEIGHT: u16 = 1000;

/// Hard permits: floor loopback, core endpoint, tunnel interface, approved DIRECT tuples.
pub const WEIGHT_HARD_PERMIT: u64 = 8;
/// Infrastructure permits: floor DHCP/NDP, bootstrap API channel.
pub const WEIGHT_INFRA_PERMIT: u64 = 7;
/// Session hard DNS block (non-loopback port 53).
pub const WEIGHT_DNS_BLOCK: u64 = 6;
/// Both block-alls: the floor's persistent pair and the session's redundant pair.
pub const WEIGHT_BLOCK_ALL: u64 = 1;

/// Resolved API host IPs are a bounded, public-only set before they ever reach WFP.
pub const MAX_API_HOST_IPS: usize = 8;

/// Filter keys are a fixed 64-bit namespace over a 64-bit FNV-1a hash of the rule's tag. The
/// namespace is bumped on every rule-table change so an upgrade replaces the whole old set.
pub const FILTER_NAMESPACE: u128 = 0x2f7c_9e02_0000_4a6c_0000_0000_0000_0000;

pub const FNV_OFFSET_BASIS: u64 = 0xcbf2_9ce4_8422_2325;
pub const FNV_PRIME: u64 = 0x0000_0100_0000_01b3;

/// 64-bit FNV-1a over a byte string.
pub open spec fn fnv1a64_spec(bytes: Seq<u8>) -> u64
    decreases bytes.len(),
{
    if bytes.len() == 0 {
        FNV_OFFSET_BASIS
    } else {
        vstd::wrapping::u64_specs::wrapping_mul(
            fnv1a64_spec(bytes.drop_last()) ^ (bytes.last() as u64),
            FNV_PRIME,
        )
    }
}

pub fn fnv1a64(bytes: &[u8]) -> (h: u64)
    ensures
        h == fnv1a64_spec(bytes@),
{
    let mut hash: u64 = FNV_OFFSET_BASIS;
    let mut index: usize = 0;
    while index < bytes.len()
        invariant
            index <= bytes@.len(),
            hash == fnv1a64_spec(bytes@.take(index as int)),
        decreases bytes@.len() - index,
    {
        proof {
            assert(bytes@.take(index + 1).drop_last() =~= bytes@.take(index as int));
        }
        hash = (hash ^ (bytes[index] as u64)).wrapping_mul(FNV_PRIME);
        index += 1;
    }
    proof {
        assert(bytes@.take(bytes@.len() as int) =~= bytes@);
    }
    hash
}

/// The key a rule tag maps to.
pub open spec fn tag_key(tag: Seq<char>) -> u128 {
    FILTER_NAMESPACE | (fnv1a64_spec(encode_utf8(tag)) as u128)
}

pub fn key_for(tag: &str) -> (r: Guid)
    ensures
        r.value() == tag_key(tag@),
{
    let h = fnv1a64(tag.as_bytes());
    Guid(FILTER_NAMESPACE | (h as u128))
}

#[derive(Clone, Copy, Debug, PartialEq, Eq, Structural)]
pub enum LayerKind {
    AleAuthConnectV4,
    AleAuthConnectV6,
    AleAuthRecvAcceptV6,
}

#[derive(Clone, Copy, Debug, PartialEq, Eq, Structural)]
pub enum FilterAction {
    Permit,
    Block,
}

#[derive(Clone, Copy, Debug, PartialEq, Eq, Structural)]
pub enum IpProtocol {
    Tcp,
    Udp,
    IcmpV6,
}

pub open spec fn protocol_number(p: IpProtocol) -> u8 {
    match p {
        IpProtocol::Tcp => 6,
        IpProtocol::Udp => 17,
        IpProtocol::IcmpV6 => 58,
    }
}

impl IpProtocol {
    pub fn number(self) -> (r: u8)
        ensures
            r == protocol_number(self),
    {
        match self {
            IpProtocol::Tcp => 6,
            IpProtocol::Udp => 17,
            IpProtocol::IcmpV6 => 58,
        }
    }
}

#[allow(inconsistent_fields)]
#[derive(Clone, Copy, Debug, PartialEq, Eq)]
pub enum Condition {
    RemoteAddressV4 { addr: [u8; 4], prefix: u8 },
    RemoteAddressV6 { addr: [u8; 16], prefix: u8 },
    Protocol(IpProtocol),
    LocalPort(u16),
    RemotePort(u16),
    /// NDP types 133–137 as one inclusive range.
    IcmpV6TypeRange { min: u16, max: u16 },
    /// The app-id blob of the staged core binary; resolved by the engine.
    AleAppId,
    /// WinTUN adapter LUID.
    LocalInterface(u64),
}

/// The mathematical value of a [`Condition`]: addresses as octet sequences.
#[allow(inconsistent_fields)]
pub ghost enum CondView {
    RemoteAddressV4 { addr: Seq<u8>, prefix: u8 },
    RemoteAddressV6 { addr: Seq<u8>, prefix: u8 },
    Protocol(IpProtocol),
    LocalPort(u16),
    RemotePort(u16),
    IcmpV6TypeRange { min: u16, max: u16 },
    AleAppId,
    LocalInterface(u64),
}

impl View for Condition {
    type V = CondView;

    open spec fn view(&self) -> CondView {
        match *self {
            Condition::RemoteAddressV4 { addr, prefix } => CondView::RemoteAddressV4 {
                addr: addr@,
                prefix,
            },
            Condition::RemoteAddressV6 { addr, prefix } => CondView::RemoteAddressV6 {
                addr: addr@,
                prefix,
            },
            Condition::Protocol(p) => CondView::Protocol(p),
            Condition::LocalPort(p) => CondView::LocalPort(p),
            Condition::RemotePort(p) => CondView::RemotePort(p),
            Condition::IcmpV6TypeRange { min, max } => CondView::IcmpV6TypeRange { min, max },
            Condition::AleAppId => CondView::AleAppId,
            Condition::LocalInterface(l) => CondView::LocalInterface(l),
        }
    }
}

pub open spec fn conds_view(v: Seq<Condition>) -> Seq<CondView> {
    v.map_values(|c: Condition| c@)
}

#[derive(Clone, Debug, PartialEq, Eq)]
pub struct FilterSpec {
    pub key: Guid,
    pub name: String,
    pub layer: LayerKind,
    pub weight: u64,
    pub action: FilterAction,
    pub conditions: Vec<Condition>,
    /// Only the floor's condition-free block-all pair is persistent.
    pub persistent: bool,
}

pub ghost struct FilterView {
    pub key: u128,
    pub name: Seq<char>,
    pub layer: LayerKind,
    pub weight: u64,
    pub action: FilterAction,
    pub conditions: Seq<CondView>,
    pub persistent: bool,
}

impl View for FilterSpec {
    type V = FilterView;

    open spec fn view(&self) -> FilterView {
        FilterView {
            key: self.key.value(),
            name: self.name@,
            layer: self.layer,
            weight: self.weight,
            action: self.action,
            conditions: conds_view(self.conditions@),
            persistent: self.persistent,
        }
    }
}

pub open spec fn filters_view(v: Seq<FilterSpec>) -> Seq<FilterView> {
    v.map_values(|f: FilterSpec| f@)
}

/// The protection state the rule set is a function of.
#[derive(Clone, Debug, PartialEq, Eq)]
pub struct RuleConfig {
    pub mode: KillSwitchStatusMode,
    /// Selected node endpoints the staged core may reach directly.
    pub endpoints: Vec<ProxyEndpoint>,
    /// Resolved, validated, public-only API host IPs for the bootstrap channel.
    pub api_host_ips: Vec<IpAddr>,
    /// WinTUN LUID; only consulted in `Locked` mode.
    pub tun_luid: Option<u64>,
    /// Staged core path, folded into the endpoint permit's key.
    pub app_path: String,
    /// Approved DIRECT endpoints; rendered only in `Locked`.
    pub direct_endpoints: Vec<ProxyEndpoint>,
}

pub ghost struct RuleConfigView {
    pub mode: KillSwitchStatusMode,
    pub endpoints: Seq<EndpointView>,
    pub api_host_ips: Seq<IpAddr>,
    pub tun_luid: Option<u64>,
    pub app_path: Seq<char>,
    pub direct_endpoints: Seq<EndpointView>,
}

impl View for RuleConfig {
    type V = RuleConfigView;

    open spec fn view(&self) -> RuleConfigView {
        RuleConfigView {
            mode: self.mode,
            endpoints: endpoints_view(self.endpoints@),
            api_host_ips: self.api_host_ips@,
            tun_luid: self.tun_luid,
            app_path: self.app_path@,
            direct_endpoints: endpoints_view(self.direct_endpoints@),
        }
    }
}

/// One row of the rule tables: the key derived from `tag`, the name prefixed with "Tono ".
#[verifier::opaque]
pub open spec fn rule(
    tag: Seq<char>,
    name: Seq<char>,
    layer: LayerKind,
    weight: u64,
    action: FilterAction,
    conditions: Seq<CondView>,
    persistent: bool,
) -> FilterView {
    FilterView {
        key: tag_key(tag),
        name: "Tono "@ + name,
        layer,
        weight,
        action,
        conditions,
        persistent,
    }
}

/// The fields of a rule row, without unfolding its key and name.
pub broadcast proof fn lemma_rule_fields(
    tag: Seq<char>,
    name: Seq<char>,
    layer: LayerKind,
    weight: u64,
    action: FilterAction,
    conditions: Seq<CondView>,
    persistent: bool,
)
    ensures
        #![trigger rule(tag, name, layer, weight, action, conditions, persistent)]
        rule(tag, name, layer, weight, action, conditions, persistent).key == tag_key(tag),
        rule(tag, name, layer, weight, action, conditions, persistent).name == "Tono "@ + name,
        rule(tag, name, layer, weight, action, conditions, persistent).layer == layer,
        rule(tag, name, layer, weight, action, conditions, persistent).weight == weight,
        rule(tag, name, layer, weight, action, conditions, persistent).action == action,
        rule(tag, name, layer, weight, action, conditions, persistent).conditions == conditions,
        rule(tag, name, layer, weight, action, conditions, persistent).persistent == persistent,
{
    reveal(rule);
}

fn spec_filter(
    tag: &String,
    name: &str,
    layer: LayerKind,
    weight: u64,
    action: FilterAction,
    conditions: Vec<Condition>,
    persistent: bool,
) -> (f: FilterSpec)
    ensures
        f@ == rule(tag@, name@, layer, weight, action, conds_view(conditions@), persistent),
{
    let key = key_for(tag.as_str());
    let mut full = String::new();
    full.append("Tono ");
    full.append(name);
    proof {
        assert(full@ =~= "Tono "@ + name@);
        reveal(rule);
    }
    FilterSpec { key, name: full, layer, weight, action, conditions, persistent }
}

fn lit_tag(s: &str) -> (r: String)
    ensures
        r@ == s@,
{
    s.to_owned()
}

fn conds0() -> (v: Vec<Condition>)
    ensures
        conds_view(v@) == Seq::<CondView>::empty(),
{
    let v = Vec::new();
    proof {
        assert(conds_view(v@) =~= Seq::<CondView>::empty());
    }
    v
}

fn conds1(a: Condition) -> (v: Vec<Condition>)
    ensures
        conds_view(v@) == seq![a@],
{
    let mut v = Vec::new();
    v.push(a);
    proof {
        assert(conds_view(v@) =~= seq![a@]);
    }
    v
}

fn conds2(a: Condition, b: Condition) -> (v: Vec<Condition>)
    ensures
        conds_view(v@) == seq![a@, b@],
{
    let mut v = Vec::new();
    v.push(a);
    v.push(b);
    proof {
        assert(conds_view(v@) =~= seq![a@, b@]);
    }
    v
}

fn conds3(a: Condition, b: Condition, c: Condition) -> (v: Vec<Condition>)
    ensures
        conds_view(v@) == seq![a@, b@, c@],
{
    let mut v = Vec::new();
    v.push(a);
    v.push(b);
    v.push(c);
    proof {
        assert(conds_view(v@) =~= seq![a@, b@, c@]);
    }
    v
}

fn conds4(a: Condition, b: Condition, c: Condition, d: Condition) -> (v: Vec<Condition>)
    ensures
        conds_view(v@) == seq![a@, b@, c@, d@],
{
    let mut v = Vec::new();
    v.push(a);
    v.push(b);
    v.push(c);
    v.push(d);
    proof {
        assert(conds_view(v@) =~= seq![a@, b@, c@, d@]);
    }
    v
}

// ---------------------------------------------------------------------------------------------
// The persistent floor
// ---------------------------------------------------------------------------------------------

pub open spec fn ndp_conditions() -> Seq<CondView> {
    seq![CondView::Protocol(IpProtocol::IcmpV6), CondView::IcmpV6TypeRange { min: 133, max: 137 }]
}

/// Loopback, DHCP and NDP permits over the persistent block-all pair.
pub open spec fn intent_floor_spec() -> Seq<FilterView> {
    seq![
        rule(
            "intent/permit-loopback-v4"@,
            "intent permit loopback v4"@,
            LayerKind::AleAuthConnectV4,
            WEIGHT_HARD_PERMIT,
            FilterAction::Permit,
            seq![CondView::RemoteAddressV4 { addr: seq![127u8, 0, 0, 0], prefix: 8 }],
            false,
        ),
        rule(
            "intent/permit-loopback-v6"@,
            "intent permit loopback v6"@,
            LayerKind::AleAuthConnectV6,
            WEIGHT_HARD_PERMIT,
            FilterAction::Permit,
            seq![
                CondView::RemoteAddressV6 {
                    addr: seq![0u8, 0, 0, 0, 0, 0, 0, 0, 0, 0, 0, 0, 0, 0, 0, 1],
                    prefix: 128,
                },
            ],
            false,
        ),
        rule(
            "intent/permit-dhcp-v4"@,
            "intent permit DHCP v4"@,
            LayerKind::AleAuthConnectV4,
            WEIGHT_INFRA_PERMIT,
            FilterAction::Permit,
            seq![
                CondView::Protocol(IpProtocol::Udp),
                CondView::LocalPort(68),
                CondView::RemotePort(67),
            ],
            false,
        ),
        rule(
            "intent/permit-dhcp-v6"@,
            "intent permit DHCPv6 client to server"@,
            LayerKind::AleAuthConnectV6,
            WEIGHT_INFRA_PERMIT,
            FilterAction::Permit,
            seq![
                CondView::Protocol(IpProtocol::Udp),
                CondView::LocalPort(546),
                CondView::RemotePort(547),
            ],
            false,
        ),
        rule(
            "intent/permit-ndp-out"@,
            "intent permit NDP outbound"@,
            LayerKind::AleAuthConnectV6,
            WEIGHT_INFRA_PERMIT,
            FilterAction::Permit,
            ndp_conditions(),
            false,
        ),
        rule(
            "intent/permit-ndp-in"@,
            "intent permit NDP inbound"@,
            LayerKind::AleAuthRecvAcceptV6,
            WEIGHT_INFRA_PERMIT,
            FilterAction::Permit,
            ndp_conditions(),
            false,
        ),
        rule(
            "intent/block-all-v4"@,
            "intent block all v4"@,
            LayerKind::AleAuthConnectV4,
            WEIGHT_BLOCK_ALL,
            FilterAction::Block,
            seq![],
            true,
        ),
        rule(
            "intent/block-all-v6"@,
            "intent block all v6"@,
            LayerKind::AleAuthConnectV6,
            WEIGHT_BLOCK_ALL,
            FilterAction::Block,
            seq![],
            true,
        ),
    ]
}

/// The persistent fail-closed floor.
pub fn intent_floor() -> (r: Vec<FilterSpec>)
    ensures
        filters_view(r@) == intent_floor_spec(),
{
    let mut v: Vec<FilterSpec> = Vec::new();
    let loopback_v4: [u8; 4] = [127, 0, 0, 0];
    let loopback_v6: [u8; 16] = [0, 0, 0, 0, 0, 0, 0, 0, 0, 0, 0, 0, 0, 0, 0, 1];
    proof {
        assert(loopback_v4@ =~= seq![127u8, 0, 0, 0]);
        assert(loopback_v6@ =~= seq![0u8, 0, 0, 0, 0, 0, 0, 0, 0, 0, 0, 0, 0, 0, 0, 1]);
    }
    v.push(
        spec_filter(
            &lit_tag("intent/permit-loopback-v4"),
            "intent permit loopback v4",
            LayerKind::AleAuthConnectV4,
            WEIGHT_HARD_PERMIT,
            FilterAction::Permit,
            conds1(Condition::RemoteAddressV4 { addr: loopback_v4, prefix: 8 }),
            false,
        ),
    );
    v.push(
        spec_filter(
            &lit_tag("intent/permit-loopback-v6"),
            "intent permit loopback v6",
            LayerKind::AleAuthConnectV6,
            WEIGHT_HARD_PERMIT,
            FilterAction::Permit,
            conds1(Condition::RemoteAddressV6 { addr: loopback_v6, prefix: 128 }),
            false,
        ),
    );
    v.push(
        spec_filter(
            &lit_tag("intent/permit-dhcp-v4"),
            "intent permit DHCP v4",
            LayerKind::AleAuthConnectV4,
            WEIGHT_INFRA_PERMIT,
            FilterAction::Permit,
            conds3(
                Condition::Protocol(IpProtocol::Udp),
                Condition::LocalPort(68),
                Condition::RemotePort(67),
            ),
            false,
        ),
    );
    v.push(
        spec_filter(
            &lit_tag("intent/permit-dhcp-v6"),
            "intent permit DHCPv6 client to server",
            LayerKind::AleAuthConnectV6,
            WEIGHT_INFRA_PERMIT,
            FilterAction::Permit,
            conds3(
                Condition::Protocol(IpProtocol::Udp),
                Condition::LocalPort(546),
                Condition::RemotePort(547),
            ),
            false,
        ),
    );
    v.push(
        spec_filter(
            &lit_tag("intent/permit-ndp-out"),
            "intent permit NDP outbound",
            LayerKind::AleAuthConnectV6,
            WEIGHT_INFRA_PERMIT,
            FilterAction::Permit,
            conds2(
                Condition::Protocol(IpProtocol::IcmpV6),
                Condition::IcmpV6TypeRange { min: 133, max: 137 },
            ),
            false,
        ),
    );
    v.push(
        spec_filter(
            &lit_tag("intent/permit-ndp-in"),
            "intent permit NDP inbound",
            LayerKind::AleAuthRecvAcceptV6,
            WEIGHT_INFRA_PERMIT,
            FilterAction::Permit,
            conds2(
                Condition::Protocol(IpProtocol::IcmpV6),
                Condition::IcmpV6TypeRange { min: 133, max: 137 },
            ),
            false,
        ),
    );
    v.push(
        spec_filter(
            &lit_tag("intent/block-all-v4"),
            "intent block all v4",
            LayerKind::AleAuthConnectV4,
            WEIGHT_BLOCK_ALL,
            FilterAction::Block,
            conds0(),
            true,
        ),
    );
    v.push(
        spec_filter(
            &lit_tag("intent/block-all-v6"),
            "intent block all v6",
            LayerKind::AleAuthConnectV6,
            WEIGHT_BLOCK_ALL,
            FilterAction::Block,
            conds0(),
            true,
        ),
    );
    proof {
        assert(filters_view(v@) =~= intent_floor_spec());
    }
    v
}


// ---------------------------------------------------------------------------------------------
// Endpoints
// ---------------------------------------------------------------------------------------------

pub open spec fn wire_protocol(p: ProxyProtocol) -> IpProtocol {
    match p {
        ProxyProtocol::Tcp => IpProtocol::Tcp,
        ProxyProtocol::Udp => IpProtocol::Udp,
    }
}

/// An endpoint that renders a permit: its trimmed IP parses, is public unicast, port non-zero.
pub open spec fn parse_endpoint_spec(e: EndpointView) -> Option<(IpAddr, u16, IpProtocol)> {
    match parse_ip_spec(trim_seq(e.ip)) {
        Some(ip) => if e.port != 0 && is_public_spec(ip) {
            Some((ip, e.port, wire_protocol(e.protocol)))
        } else {
            None
        },
        None => None,
    }
}

/// Parse and classify an endpoint for rule rendering. Invalid or non-public IPs render no
/// permit: a skipped permit fails closed, never open.
pub fn parse_endpoint(endpoint: &ProxyEndpoint) -> (r: Option<(IpAddr, u16, IpProtocol)>)
    ensures
        r == parse_endpoint_spec(endpoint@),
{
    let text = trim(endpoint.ip.as_str());
    let ip = match parse_ip(text) {
        Some(ip) => ip,
        None => return None,
    };
    if endpoint.port == 0 || !is_public_unreserved(&ip) {
        return None;
    }
    let protocol = match endpoint.protocol {
        ProxyProtocol::Tcp => IpProtocol::Tcp,
        ProxyProtocol::Udp => IpProtocol::Udp,
    };
    Some((ip, endpoint.port, protocol))
}

pub open spec fn addr_condition(ip: IpAddr) -> CondView {
    match ip {
        IpAddr::V4(a) => CondView::RemoteAddressV4 { addr: a@, prefix: 32 },
        IpAddr::V6(a) => CondView::RemoteAddressV6 { addr: a@, prefix: 128 },
    }
}

pub open spec fn layer_of(ip: IpAddr) -> LayerKind {
    match ip {
        IpAddr::V4(_) => LayerKind::AleAuthConnectV4,
        IpAddr::V6(_) => LayerKind::AleAuthConnectV6,
    }
}

fn remote_address_condition(ip: &IpAddr) -> (c: Condition)
    ensures
        c@ == addr_condition(*ip),
{
    match ip {
        IpAddr::V4(a) => Condition::RemoteAddressV4 { addr: *a, prefix: 32 },
        IpAddr::V6(a) => Condition::RemoteAddressV6 { addr: *a, prefix: 128 },
    }
}

fn layer_for(ip: &IpAddr) -> (l: LayerKind)
    ensures
        l == layer_of(*ip),
{
    match ip {
        IpAddr::V4(_) => LayerKind::AleAuthConnectV4,
        IpAddr::V6(_) => LayerKind::AleAuthConnectV6,
    }
}

/// How `{layer:?}` renders a connect layer inside a tag.
pub open spec fn layer_name(l: LayerKind) -> Seq<char> {
    match l {
        LayerKind::AleAuthConnectV4 => "AleAuthConnectV4"@,
        LayerKind::AleAuthConnectV6 => "AleAuthConnectV6"@,
        LayerKind::AleAuthRecvAcceptV6 => "AleAuthRecvAcceptV6"@,
    }
}

fn push_layer_name(out: &mut String, l: LayerKind)
    ensures
        final(out)@ == old(out)@ + layer_name(l),
{
    match l {
        LayerKind::AleAuthConnectV4 => out.append("AleAuthConnectV4"),
        LayerKind::AleAuthConnectV6 => out.append("AleAuthConnectV6"),
        LayerKind::AleAuthRecvAcceptV6 => out.append("AleAuthRecvAcceptV6"),
    }
}

// ---------------------------------------------------------------------------------------------
// The volatile session set
// ---------------------------------------------------------------------------------------------

/// The endpoint permit's tag: the staged core path and the endpoint tuple.
pub open spec fn endpoint_tag(app: Seq<char>, t: (IpAddr, u16, IpProtocol)) -> Seq<char> {
    "session/permit-endpoint/"@ + app + "/"@ + ip_text(t.0) + "/"@ + dec_text(t.1 as nat) + "/"@
        + dec_text(protocol_number(t.2) as nat)
}

/// A: the staged core may reach exactly the selected endpoint (app-scoped).
pub open spec fn endpoint_rule(app: Seq<char>, t: (IpAddr, u16, IpProtocol)) -> FilterView {
    rule(
        endpoint_tag(app, t),
        "session permit core endpoint"@,
        layer_of(t.0),
        WEIGHT_HARD_PERMIT,
        FilterAction::Permit,
        seq![CondView::AleAppId, addr_condition(t.0), CondView::Protocol(t.2), CondView::RemotePort(t.1)],
        false,
    )
}

pub open spec fn endpoint_rules(app: Seq<char>, eps: Seq<EndpointView>) -> Seq<FilterView>
    decreases eps.len(),
{
    if eps.len() == 0 {
        seq![]
    } else {
        let r = endpoint_rules(app, eps.drop_last());
        match parse_endpoint_spec(eps.last()) {
            Some(t) => r.push(endpoint_rule(app, t)),
            None => r,
        }
    }
}

/// B: the tunnel interface permit, one per connect layer.
pub open spec fn tunnel_tag(layer: LayerKind, luid: u64) -> Seq<char> {
    "session/permit-tunnel/"@ + layer_name(layer) + "/"@ + dec_text(luid as nat)
}

pub open spec fn tunnel_rule(layer: LayerKind, luid: u64) -> FilterView {
    rule(
        tunnel_tag(layer, luid),
        "session permit tunnel interface"@,
        layer,
        WEIGHT_HARD_PERMIT,
        FilterAction::Permit,
        seq![CondView::LocalInterface(luid)],
        false,
    )
}

pub open spec fn tunnel_rules(c: RuleConfigView) -> Seq<FilterView> {
    if c.mode == KillSwitchStatusMode::Locked && c.tun_luid is Some {
        seq![
            tunnel_rule(LayerKind::AleAuthConnectV4, c.tun_luid->0),
            tunnel_rule(LayerKind::AleAuthConnectV6, c.tun_luid->0),
        ]
    } else {
        seq![]
    }
}

/// C: the bounded bootstrap API channel to one host IP on tcp/443.
pub open spec fn api_rule(ip: IpAddr) -> FilterView {
    rule(
        "session/permit-api/"@ + ip_text(ip),
        "session permit bootstrap API"@,
        layer_of(ip),
        WEIGHT_INFRA_PERMIT,
        FilterAction::Permit,
        seq![addr_condition(ip), CondView::Protocol(IpProtocol::Tcp), CondView::RemotePort(443)],
        false,
    )
}

pub open spec fn api_rules(ips: Seq<IpAddr>) -> Seq<FilterView>
    decreases ips.len(),
{
    if ips.len() == 0 {
        seq![]
    } else {
        api_rules(ips.drop_last()).push(api_rule(ips.last()))
    }
}

/// G: one approved DIRECT tuple, for any process (no app-id condition).
pub open spec fn direct_rule(t: (IpAddr, u16, IpProtocol)) -> FilterView {
    rule(
        "session/permit-direct/"@ + ip_text(t.0) + "/"@ + dec_text(t.1 as nat) + "/"@ + dec_text(
            protocol_number(t.2) as nat,
        ),
        "session permit approved DIRECT"@,
        layer_of(t.0),
        WEIGHT_HARD_PERMIT,
        FilterAction::Permit,
        seq![addr_condition(t.0), CondView::Protocol(t.2), CondView::RemotePort(t.1)],
        false,
    )
}

pub open spec fn direct_rules(eps: Seq<EndpointView>) -> Seq<FilterView>
    decreases eps.len(),
{
    if eps.len() == 0 {
        seq![]
    } else {
        let r = direct_rules(eps.drop_last());
        match parse_endpoint_spec(eps.last()) {
            Some(t) => r.push(direct_rule(t)),
            None => r,
        }
    }
}

/// D: the hard non-loopback DNS block.
pub open spec fn dns_block_rule(layer: LayerKind, protocol: IpProtocol) -> FilterView {
    rule(
        "session/block-dns/"@ + layer_name(layer) + "/"@ + dec_text(protocol_number(protocol) as nat),
        "session block DNS"@,
        layer,
        WEIGHT_DNS_BLOCK,
        FilterAction::Block,
        seq![CondView::Protocol(protocol), CondView::RemotePort(53)],
        false,
    )
}

pub open spec fn dns_block_rules() -> Seq<FilterView> {
    seq![
        dns_block_rule(LayerKind::AleAuthConnectV4, IpProtocol::Udp),
        dns_block_rule(LayerKind::AleAuthConnectV4, IpProtocol::Tcp),
        dns_block_rule(LayerKind::AleAuthConnectV6, IpProtocol::Udp),
        dns_block_rule(LayerKind::AleAuthConnectV6, IpProtocol::Tcp),
    ]
}

/// E: the redundant, never persistent session block-all.
pub open spec fn session_block_all_rule(layer: LayerKind) -> FilterView {
    rule(
        "session/block-all/"@ + layer_name(layer),
        "session block all"@,
        layer,
        WEIGHT_BLOCK_ALL,
        FilterAction::Block,
        seq![],
        false,
    )
}

pub open spec fn session_block_all_rules() -> Seq<FilterView> {
    seq![
        session_block_all_rule(LayerKind::AleAuthConnectV4),
        session_block_all_rule(LayerKind::AleAuthConnectV6),
    ]
}

/// The sections before the constant tail: A endpoints, B tunnel (Locked), C API channel (not
/// Locked), G DIRECT tuples (Locked).
pub open spec fn session_head(c: RuleConfigView) -> Seq<FilterView> {
    endpoint_rules(c.app_path, c.endpoints) + tunnel_rules(c) + (if c.mode
        != KillSwitchStatusMode::Locked {
        api_rules(c.api_host_ips)
    } else {
        seq![]
    }) + (if c.mode == KillSwitchStatusMode::Locked {
        direct_rules(c.direct_endpoints)
    } else {
        seq![]
    })
}

/// The volatile session set: the head sections, then D DNS block and E block-all.
pub open spec fn session_rules_spec(c: RuleConfigView) -> Seq<FilterView> {
    session_head(c) + dns_block_rules() + session_block_all_rules()
}

/// The complete expected set: the persistent floor followed by the session set.
pub open spec fn expected_filters_spec(c: RuleConfigView) -> Seq<FilterView> {
    intent_floor_spec() + session_rules_spec(c)
}

fn append_filters(out: &mut Vec<FilterSpec>, more: Vec<FilterSpec>)
    ensures
        filters_view(final(out)@) == filters_view(old(out)@) + filters_view(more@),
{
    let mut more = more;
    let ghost m = more@;
    out.append(&mut more);
    proof {
        assert(filters_view(final(out)@) =~= filters_view(old(out)@) + filters_view(m));
    }
}

fn endpoint_permit(app: &String, t: &(IpAddr, u16, IpProtocol)) -> (f: FilterSpec)
    ensures
        f@ == endpoint_rule(app@, *t),
{
    let (ip, port, protocol) = *t;
    let mut tag = String::new();
    tag.append("session/permit-endpoint/");
    tag.append(app.as_str());
    tag.append("/");
    push_ip(&mut tag, &ip);
    tag.append("/");
    push_decimal(&mut tag, port as u64);
    tag.append("/");
    push_decimal(&mut tag, protocol.number() as u64);
    proof {
        assert(tag@ =~= "session/permit-endpoint/"@ + app@ + "/"@ + ip_text(ip) + "/"@ + dec_text(
            port as nat,
        ) + "/"@ + dec_text(protocol_number(protocol) as nat));
    }
    spec_filter(
        &tag,
        "session permit core endpoint",
        layer_for(&ip),
        WEIGHT_HARD_PERMIT,
        FilterAction::Permit,
        conds4(
            Condition::AleAppId,
            remote_address_condition(&ip),
            Condition::Protocol(protocol),
            Condition::RemotePort(port),
        ),
        false,
    )
}

fn direct_permit(t: &(IpAddr, u16, IpProtocol)) -> (f: FilterSpec)
    ensures
        f@ == direct_rule(*t),
{
    let (ip, port, protocol) = *t;
    let mut tag = String::new();
    tag.append("session/permit-direct/");
    push_ip(&mut tag, &ip);
    tag.append("/");
    push_decimal(&mut tag, port as u64);
    tag.append("/");
    push_decimal(&mut tag, protocol.number() as u64);
    proof {
        assert(tag@ =~= "session/permit-direct/"@ + ip_text(ip) + "/"@ + dec_text(port as nat) + "/"@
            + dec_text(protocol_number(protocol) as nat));
    }
    spec_filter(
        &tag,
        "session permit approved DIRECT",
        layer_for(&ip),
        WEIGHT_HARD_PERMIT,
        FilterAction::Permit,
        conds3(
            remote_address_condition(&ip),
            Condition::Protocol(protocol),
            Condition::RemotePort(port),
        ),
        false,
    )
}

fn api_permit(ip: &IpAddr) -> (f: FilterSpec)
    ensures
        f@ == api_rule(*ip),
{
    let mut tag = String::new();
    tag.append("session/permit-api/");
    push_ip(&mut tag, ip);
    proof {
        assert(tag@ =~= "session/permit-api/"@ + ip_text(*ip));
    }
    spec_filter(
        &tag,
        "session permit bootstrap API",
        layer_for(ip),
        WEIGHT_INFRA_PERMIT,
        FilterAction::Permit,
        conds3(
            remote_address_condition(ip),
            Condition::Protocol(IpProtocol::Tcp),
            Condition::RemotePort(443),
        ),
        false,
    )
}

fn tunnel_permit(layer: LayerKind, luid: u64) -> (f: FilterSpec)
    ensures
        f@ == tunnel_rule(layer, luid),
{
    let mut tag = String::new();
    tag.append("session/permit-tunnel/");
    push_layer_name(&mut tag, layer);
    tag.append("/");
    push_decimal(&mut tag, luid);
    proof {
        assert(tag@ =~= "session/permit-tunnel/"@ + layer_name(layer) + "/"@ + dec_text(luid as nat));
    }
    spec_filter(
        &tag,
        "session permit tunnel interface",
        layer,
        WEIGHT_HARD_PERMIT,
        FilterAction::Permit,
        conds1(Condition::LocalInterface(luid)),
        false,
    )
}

fn dns_block(layer: LayerKind, protocol: IpProtocol) -> (f: FilterSpec)
    ensures
        f@ == dns_block_rule(layer, protocol),
{
    let mut tag = String::new();
    tag.append("session/block-dns/");
    push_layer_name(&mut tag, layer);
    tag.append("/");
    push_decimal(&mut tag, protocol.number() as u64);
    proof {
        assert(tag@ =~= "session/block-dns/"@ + layer_name(layer) + "/"@ + dec_text(
            protocol_number(protocol) as nat,
        ));
    }
    spec_filter(
        &tag,
        "session block DNS",
        layer,
        WEIGHT_DNS_BLOCK,
        FilterAction::Block,
        conds2(Condition::Protocol(protocol), Condition::RemotePort(53)),
        false,
    )
}

fn session_block_all(layer: LayerKind) -> (f: FilterSpec)
    ensures
        f@ == session_block_all_rule(layer),
{
    let mut tag = String::new();
    tag.append("session/block-all/");
    push_layer_name(&mut tag, layer);
    proof {
        assert(tag@ =~= "session/block-all/"@ + layer_name(layer));
    }
    spec_filter(
        &tag,
        "session block all",
        layer,
        WEIGHT_BLOCK_ALL,
        FilterAction::Block,
        conds0(),
        false,
    )
}

fn endpoint_section(app: &String, eps: &Vec<ProxyEndpoint>) -> (r: Vec<FilterSpec>)
    ensures
        filters_view(r@) == endpoint_rules(app@, endpoints_view(eps@)),
{
    let mut r: Vec<FilterSpec> = Vec::new();
    let mut i: usize = 0;
    while i < eps.len()
        invariant
            i <= eps@.len(),
            filters_view(r@) == endpoint_rules(app@, endpoints_view(eps@.take(i as int))),
        decreases eps@.len() - i,
    {
        proof {
            assert(endpoints_view(eps@.take(i + 1)).drop_last() =~= endpoints_view(
                eps@.take(i as int),
            ));
            assert(endpoints_view(eps@.take(i + 1)).last() == eps@[i as int]@);
        }
        match parse_endpoint(&eps[i]) {
            Some(t) => {
                let f = endpoint_permit(app, &t);
                let ghost prev = r@;
                r.push(f);
                proof {
                    assert(filters_view(r@) =~= filters_view(prev).push(f@));
                }
            },
            None => {},
        }
        i = i + 1;
    }
    proof {
        assert(eps@.take(eps@.len() as int) =~= eps@);
    }
    r
}

fn direct_section(eps: &Vec<ProxyEndpoint>) -> (r: Vec<FilterSpec>)
    ensures
        filters_view(r@) == direct_rules(endpoints_view(eps@)),
{
    let mut r: Vec<FilterSpec> = Vec::new();
    let mut i: usize = 0;
    while i < eps.len()
        invariant
            i <= eps@.len(),
            filters_view(r@) == direct_rules(endpoints_view(eps@.take(i as int))),
        decreases eps@.len() - i,
    {
        proof {
            assert(endpoints_view(eps@.take(i + 1)).drop_last() =~= endpoints_view(
                eps@.take(i as int),
            ));
            assert(endpoints_view(eps@.take(i + 1)).last() == eps@[i as int]@);
        }
        match parse_endpoint(&eps[i]) {
            Some(t) => {
                let f = direct_permit(&t);
                let ghost prev = r@;
                r.push(f);
                proof {
                    assert(filters_view(r@) =~= filters_view(prev).push(f@));
                }
            },
            None => {},
        }
        i = i + 1;
    }
    proof {
        assert(eps@.take(eps@.len() as int) =~= eps@);
    }
    r
}

fn api_section(ips: &Vec<IpAddr>) -> (r: Vec<FilterSpec>)
    ensures
        filters_view(r@) == api_rules(ips@),
{
    let mut r: Vec<FilterSpec> = Vec::new();
    let mut i: usize = 0;
    while i < ips.len()
        invariant
            i <= ips@.len(),
            filters_view(r@) == api_rules(ips@.take(i as int)),
        decreases ips@.len() - i,
    {
        proof {
            assert(ips@.take(i + 1).drop_last() =~= ips@.take(i as int));
        }
        let f = api_permit(&ips[i]);
        let ghost prev = r@;
        r.push(f);
        proof {
            assert(filters_view(r@) =~= filters_view(prev).push(f@));
        }
        i = i + 1;
    }
    proof {
        assert(ips@.take(ips@.len() as int) =~= ips@);
    }
    r
}

/// The volatile session set, rebuilt per connect and per service start.
pub fn session_rules(config: &RuleConfig) -> (r: Vec<FilterSpec>)
    ensures
        filters_view(r@) == session_rules_spec(config@),
{
    let mut filters = endpoint_section(&config.app_path, &config.endpoints);
    let ghost a = filters_view(filters@);
    let mut tunnel: Vec<FilterSpec> = Vec::new();
    if config.mode == KillSwitchStatusMode::Locked {
        if let Some(luid) = config.tun_luid {
            tunnel.push(tunnel_permit(LayerKind::AleAuthConnectV4, luid));
            tunnel.push(tunnel_permit(LayerKind::AleAuthConnectV6, luid));
        }
    }
    proof {
        assert(filters_view(tunnel@) =~= tunnel_rules(config@));
    }
    append_filters(&mut filters, tunnel);
    let api = if config.mode != KillSwitchStatusMode::Locked {
        api_section(&config.api_host_ips)
    } else {
        Vec::new()
    };
    proof {
        if config.mode == KillSwitchStatusMode::Locked {
            assert(filters_view(api@) =~= Seq::<FilterView>::empty());
        }
    }
    append_filters(&mut filters, api);
    let direct = if config.mode == KillSwitchStatusMode::Locked {
        direct_section(&config.direct_endpoints)
    } else {
        Vec::new()
    };
    proof {
        if config.mode != KillSwitchStatusMode::Locked {
            assert(filters_view(direct@) =~= Seq::<FilterView>::empty());
        }
    }
    append_filters(&mut filters, direct);
    let mut tail: Vec<FilterSpec> = Vec::new();
    tail.push(dns_block(LayerKind::AleAuthConnectV4, IpProtocol::Udp));
    tail.push(dns_block(LayerKind::AleAuthConnectV4, IpProtocol::Tcp));
    tail.push(dns_block(LayerKind::AleAuthConnectV6, IpProtocol::Udp));
    tail.push(dns_block(LayerKind::AleAuthConnectV6, IpProtocol::Tcp));
    tail.push(session_block_all(LayerKind::AleAuthConnectV4));
    tail.push(session_block_all(LayerKind::AleAuthConnectV6));
    proof {
        assert(filters_view(tail@) =~= dns_block_rules() + session_block_all_rules());
    }
    append_filters(&mut filters, tail);
    proof {
        assert(filters_view(filters@) =~= session_rules_spec(config@));
    }
    filters
}

/// The complete expected filter set: the persistent floor plus the session set.
pub fn expected_filters(config: &RuleConfig) -> (r: Vec<FilterSpec>)
    ensures
        filters_view(r@) == expected_filters_spec(config@),
{
    let mut filters = intent_floor();
    append_filters(&mut filters, session_rules(config));
    filters
}

/// Whether an IP may serve as a bootstrap API channel endpoint: the same table as endpoints.
pub fn is_public_api_ip(ip: &IpAddr) -> (r: bool)
    ensures
        r == is_public_spec(*ip),
{
    is_public_unreserved(ip)
}


// ---------------------------------------------------------------------------------------------
// API host sanitising
// ---------------------------------------------------------------------------------------------

/// In input order: public addresses not already accepted, until the bound is reached.
pub open spec fn sanitize_spec(ips: Seq<IpAddr>) -> Seq<IpAddr>
    decreases ips.len(),
{
    if ips.len() == 0 {
        seq![]
    } else {
        let r = sanitize_spec(ips.drop_last());
        if r.len() >= MAX_API_HOST_IPS || !is_public_spec(ips.last()) || r.contains(ips.last()) {
            r
        } else {
            r.push(ips.last())
        }
    }
}

pub proof fn lemma_sanitize_properties(ips: Seq<IpAddr>)
    ensures
        sanitize_spec(ips).len() <= MAX_API_HOST_IPS,
        forall|i: int| 0 <= i < sanitize_spec(ips).len() ==> is_public_spec(#[trigger] sanitize_spec(ips)[i]),
        forall|i: int| 0 <= i < sanitize_spec(ips).len() ==> ips.contains(#[trigger] sanitize_spec(ips)[i]),
        forall|i: int, j: int|
            0 <= i < j < sanitize_spec(ips).len() ==> sanitize_spec(ips)[i] != sanitize_spec(ips)[j],
        forall|i: int|
            0 <= i < ips.len() && is_public_spec(#[trigger] ips[i]) ==> sanitize_spec(ips).contains(ips[i])
                || sanitize_spec(ips).len() == MAX_API_HOST_IPS,
    decreases ips.len(),
{
    if ips.len() > 0 {
        let pre = ips.drop_last();
        lemma_sanitize_properties(pre);
        let r = sanitize_spec(pre);
        let out = sanitize_spec(ips);
        assert forall|i: int| 0 <= i < out.len() implies ips.contains(#[trigger] out[i]) by {
            if i < r.len() {
                let j = choose|j: int| 0 <= j < pre.len() && pre[j] == r[i];
                assert(ips[j] == r[i]);
            } else {
                assert(ips[ips.len() - 1] == out[i]);
            }
        }
        assert forall|i: int|
            0 <= i < ips.len() && is_public_spec(#[trigger] ips[i]) implies out.contains(ips[i])
                || out.len() == MAX_API_HOST_IPS by {
            if i < pre.len() {
                assert(pre[i] == ips[i]);
                if r.contains(pre[i]) {
                    let k = choose|k: int| 0 <= k < r.len() && r[k] == pre[i];
                    assert(out[k] == ips[i]);
                }
            } else {
                if r.contains(ips.last()) {
                    let k = choose|k: int| 0 <= k < r.len() && r[k] == ips.last();
                    assert(out[k] == ips[i]);
                } else if r.len() < MAX_API_HOST_IPS {
                    assert(out[r.len() as int] == ips[i]);
                }
            }
        }
    }
}

/// Bounded, deduplicated, public-only API host IP set, ready to be written into WFP.
pub fn sanitize_api_host_ips(ips: &Vec<IpAddr>) -> (r: Vec<IpAddr>)
    ensures
        r@ == sanitize_spec(ips@),
        r@.len() <= MAX_API_HOST_IPS,
        forall|i: int| 0 <= i < r@.len() ==> is_public_spec(#[trigger] r@[i]),
        forall|i: int, j: int| 0 <= i < j < r@.len() ==> r@[i] != r@[j],
{
    let mut accepted: Vec<IpAddr> = Vec::new();
    let mut i: usize = 0;
    while i < ips.len()
        invariant
            i <= ips@.len(),
            accepted@ == sanitize_spec(ips@.take(i as int)),
        decreases ips@.len() - i,
    {
        proof {
            assert(ips@.take(i + 1).drop_last() =~= ips@.take(i as int));
            assert(ips@.take(i + 1).last() == ips@[i as int]);
            lemma_sanitize_properties(ips@.take(i as int));
        }
        if accepted.len() >= MAX_API_HOST_IPS {
            i = i + 1;
            continue;
        }
        let ip = ips[i];
        let public = is_public_api_ip(&ip);
        let mut seen = false;
        let mut k: usize = 0;
        while k < accepted.len()
            invariant
                k <= accepted@.len(),
                seen == (exists|m: int| 0 <= m < k && accepted@[m] == ip),
            decreases accepted@.len() - k,
        {
            if ip_eq(&accepted[k], &ip) {
                seen = true;
            }
            k = k + 1;
        }
        if public && !seen {
            accepted.push(ip);
        }
        i = i + 1;
    }
    proof {
        assert(ips@.take(ips@.len() as int) =~= ips@);
        lemma_sanitize_properties(ips@);
    }
    accepted
}

// ---------------------------------------------------------------------------------------------
// Change plans
// ---------------------------------------------------------------------------------------------

pub open spec fn keys_view(v: Seq<Guid>) -> Seq<u128> {
    v.map_values(|g: Guid| g.value())
}

pub open spec fn filter_keys(v: Seq<FilterView>) -> Seq<u128> {
    v.map_values(|f: FilterView| f.key)
}

/// Desired filters whose key is not live yet, in desired order.
pub open spec fn install_spec(current: Seq<u128>, desired: Seq<FilterView>) -> Seq<FilterView> {
    desired.filter(|f: FilterView| !current.contains(f.key))
}

/// Live keys no desired filter carries, in live order.
pub open spec fn remove_spec(current: Seq<u128>, desired: Seq<FilterView>) -> Seq<u128> {
    current.filter(|k: u128| !filter_keys(desired).contains(k))
}

/// What must change to move the live set (by key) to the desired set.
#[derive(Clone, Debug, PartialEq, Eq)]
pub struct ChangePlan {
    pub install: Vec<FilterSpec>,
    pub remove: Vec<Guid>,
}

#[derive(Clone, Debug, PartialEq, Eq)]
pub enum PlanStep {
    Install(FilterSpec),
    Remove(Guid),
}

pub ghost enum StepView {
    Install(FilterView),
    Remove(u128),
}

impl View for PlanStep {
    type V = StepView;

    open spec fn view(&self) -> StepView {
        match self {
            PlanStep::Install(f) => StepView::Install(f@),
            PlanStep::Remove(k) => StepView::Remove(k.value()),
        }
    }
}

pub open spec fn steps_view(v: Seq<PlanStep>) -> Seq<StepView> {
    v.map_values(|s: PlanStep| s@)
}

/// Installs first, in order, then removes, in order.
pub open spec fn ordered_steps_spec(install: Seq<FilterView>, remove: Seq<u128>) -> Seq<StepView> {
    install.map_values(|f: FilterView| StepView::Install(f)) + remove.map_values(
        |k: u128| StepView::Remove(k),
    )
}

impl FilterSpec {
    /// A copy with the same value.
    pub fn duplicate(&self) -> (r: FilterSpec)
        ensures
            r@ == self@,
    {
        let mut conditions: Vec<Condition> = Vec::new();
        let mut i: usize = 0;
        while i < self.conditions.len()
            invariant
                i <= self.conditions@.len(),
                conditions@ == self.conditions@.take(i as int),
            decreases self.conditions@.len() - i,
        {
            conditions.push(self.conditions[i]);
            i = i + 1;
            proof {
                assert(conditions@ =~= self.conditions@.take(i as int));
            }
        }
        proof {
            assert(self.conditions@.take(self.conditions@.len() as int) =~= self.conditions@);
        }
        FilterSpec {
            key: self.key,
            name: self.name.clone(),
            layer: self.layer,
            weight: self.weight,
            action: self.action,
            conditions,
            persistent: self.persistent,
        }
    }
}

impl ChangePlan {
    /// Installs strictly before removes: a new permit is live before the old one is deleted.
    pub fn ordered_steps(&self) -> (r: Vec<PlanStep>)
        ensures
            steps_view(r@) == ordered_steps_spec(filters_view(self.install@), keys_view(self.remove@)),
    {
        let mut steps: Vec<PlanStep> = Vec::new();
        let mut i: usize = 0;
        while i < self.install.len()
            invariant
                i <= self.install@.len(),
                steps_view(steps@) == filters_view(self.install@.take(i as int)).map_values(
                    |f: FilterView| StepView::Install(f),
                ),
            decreases self.install@.len() - i,
        {
            let f = self.install[i].duplicate();
            let ghost prev = steps@;
            steps.push(PlanStep::Install(f));
            proof {
                assert(steps_view(steps@) =~= steps_view(prev).push(StepView::Install(f@)));
                assert(filters_view(self.install@.take(i + 1)) =~= filters_view(self.install@.take(i as int)).push(self.install@[i as int]@));
            }
            i = i + 1;
            proof {
                assert(steps_view(steps@) =~= filters_view(self.install@.take(i as int)).map_values(
                    |f: FilterView| StepView::Install(f),
                ));
            }
        }
        let ghost installs = steps_view(steps@);
        let mut j: usize = 0;
        while j < self.remove.len()
            invariant
                j <= self.remove@.len(),
                steps_view(steps@) == installs + keys_view(self.remove@.take(j as int)).map_values(
                    |k: u128| StepView::Remove(k),
                ),
            decreases self.remove@.len() - j,
        {
            let ghost prev = steps@;
            steps.push(PlanStep::Remove(self.remove[j]));
            proof {
                assert(steps_view(steps@) =~= steps_view(prev).push(StepView::Remove(self.remove@[j as int].value())));
                assert(keys_view(self.remove@.take(j + 1)) =~= keys_view(self.remove@.take(j as int)).push(self.remove@[j as int].value()));
            }
            j = j + 1;
            proof {
                assert(steps_view(steps@) =~= installs + keys_view(self.remove@.take(j as int)).map_values(
                    |k: u128| StepView::Remove(k),
                ));
            }
        }
        proof {
            assert(self.install@.take(self.install@.len() as int) =~= self.install@);
            assert(self.remove@.take(self.remove@.len() as int) =~= self.remove@);
        }
        steps
    }
}

fn contains_key(keys: &[Guid], key: Guid) -> (r: bool)
    ensures
        r == keys_view(keys@).contains(key.value()),
{
    let mut i: usize = 0;
    while i < keys.len()
        invariant
            i <= keys@.len(),
            forall|m: int| 0 <= m < i ==> keys@[m].value() != key.value(),
        decreases keys@.len() - i,
    {
        if keys[i] == key {
            proof {
                assert(keys_view(keys@)[i as int] == key.value());
            }
            return true;
        }
        i = i + 1;
    }
    proof {
        if keys_view(keys@).contains(key.value()) {
            let m = choose|m: int| 0 <= m < keys_view(keys@).len() && keys_view(keys@)[m] == key.value();
            assert(keys@[m].value() == key.value());
        }
    }
    false
}

/// The install and remove sets that move `current_keys` to `desired`.
pub fn diff(current_keys: &[Guid], desired: &[FilterSpec]) -> (r: ChangePlan)
    ensures
        filters_view(r.install@) == install_spec(keys_view(current_keys@), filters_view(desired@)),
        keys_view(r.remove@) == remove_spec(keys_view(current_keys@), filters_view(desired@)),
{
    let ghost cur = keys_view(current_keys@);
    let ghost des = filters_view(desired@);
    let mut install: Vec<FilterSpec> = Vec::new();
    let mut i: usize = 0;
    while i < desired.len()
        invariant
            i <= desired@.len(),
            cur == keys_view(current_keys@),
            des == filters_view(desired@),
            filters_view(install@) == des.take(i as int).filter(|f: FilterView| !cur.contains(f.key)),
        decreases desired@.len() - i,
    {
        proof {
            reveal_with_fuel(Seq::filter, 1);
            assert(des.take(i + 1).drop_last() =~= des.take(i as int));
            assert(des.take(i + 1).last() == desired@[i as int]@);
        }
        if !contains_key(current_keys, desired[i].key) {
            let f = desired[i].duplicate();
            let ghost prev = install@;
            install.push(f);
            proof {
                assert(filters_view(install@) =~= filters_view(prev).push(f@));
            }
        }
        i = i + 1;
    }
    let mut desired_keys: Vec<Guid> = Vec::new();
    let mut k: usize = 0;
    while k < desired.len()
        invariant
            k <= desired@.len(),
            des == filters_view(desired@),
            keys_view(desired_keys@) == filter_keys(des.take(k as int)),
        decreases desired@.len() - k,
    {
        let ghost prev = desired_keys@;
        desired_keys.push(desired[k].key);
        proof {
            assert(keys_view(desired_keys@) =~= keys_view(prev).push(desired@[k as int].key.value()));
            assert(des.take(k + 1) =~= des.take(k as int).push(desired@[k as int]@));
            assert(filter_keys(des.take(k + 1)) =~= filter_keys(des.take(k as int)).push(desired@[k as int]@.key));
        }
        k = k + 1;
        proof {
            assert(keys_view(desired_keys@) =~= filter_keys(des.take(k as int)));
        }
    }
    proof {
        assert(des.take(des.len() as int) =~= des);
    }
    let mut remove: Vec<Guid> = Vec::new();
    let mut j: usize = 0;
    while j < current_keys.len()
        invariant
            j <= current_keys@.len(),
            cur == keys_view(current_keys@),
            keys_view(desired_keys@) == filter_keys(des),
            keys_view(remove@) == cur.take(j as int).filter(
                |key: u128| !filter_keys(des).contains(key),
            ),
        decreases current_keys@.len() - j,
    {
        proof {
            reveal_with_fuel(Seq::filter, 1);
            assert(cur.take(j + 1).drop_last() =~= cur.take(j as int));
            assert(cur.take(j + 1).last() == current_keys@[j as int].value());
        }
        let key = current_keys[j];
        if !contains_key(desired_keys.as_slice(), key) {
            let ghost prev = remove@;
            remove.push(key);
            proof {
                assert(keys_view(remove@) =~= keys_view(prev).push(key.value()));
            }
        }
        j = j + 1;
    }
    proof {
        assert(cur.take(cur.len() as int) =~= cur);
    }
    ChangePlan { install, remove }
}


// ---------------------------------------------------------------------------------------------
// Laws of the rule tables
// ---------------------------------------------------------------------------------------------

pub open spec fn no_local_interface(f: FilterView) -> bool {
    forall|j: int| 0 <= j < f.conditions.len() ==> !(f.conditions[j] is LocalInterface)
}

pub open spec fn is_connect_layer(l: LayerKind) -> bool {
    l == LayerKind::AleAuthConnectV4 || l == LayerKind::AleAuthConnectV6
}

/// A condition-free block at the block-all weight on `layer`.
pub open spec fn is_block_all(f: FilterView, layer: LayerKind) -> bool {
    &&& f.layer == layer
    &&& f.action == FilterAction::Block
    &&& f.conditions.len() == 0
    &&& f.weight == WEIGHT_BLOCK_ALL
}

pub open spec fn block_all_count(s: Seq<FilterView>, layer: LayerKind) -> nat
    decreases s.len(),
{
    if s.len() == 0 {
        0
    } else {
        block_all_count(s.drop_last(), layer) + if is_block_all(s.last(), layer) {
            1nat
        } else {
            0nat
        }
    }
}

proof fn lemma_block_all_count_add(a: Seq<FilterView>, b: Seq<FilterView>, layer: LayerKind)
    ensures
        block_all_count(a + b, layer) == block_all_count(a, layer) + block_all_count(b, layer),
    decreases b.len(),
{
    if b.len() == 0 {
        assert(a + b =~= a);
    } else {
        assert((a + b).drop_last() =~= a + b.drop_last());
        assert((a + b).last() == b.last());
        lemma_block_all_count_add(a, b.drop_last(), layer);
    }
}

proof fn lemma_block_all_count_permits(s: Seq<FilterView>, layer: LayerKind)
    requires
        forall|i: int| 0 <= i < s.len() ==> !is_block_all(#[trigger] s[i], layer),
    ensures
        block_all_count(s, layer) == 0,
    decreases s.len(),
{
    if s.len() > 0 {
        assert(s.last() == s[s.len() - 1]);
        lemma_block_all_count_permits(s.drop_last(), layer);
    }
}

proof fn lemma_endpoint_rules_shape(app: Seq<char>, eps: Seq<EndpointView>)
    ensures
        forall|i: int|
            0 <= i < endpoint_rules(app, eps).len() ==> {
                let f = #[trigger] endpoint_rules(app, eps)[i];
                &&& f.weight == WEIGHT_HARD_PERMIT
                &&& f.action == FilterAction::Permit
                &&& !f.persistent
                &&& f.conditions.len() == 4
                &&& f.conditions[0] == CondView::AleAppId
                &&& is_connect_layer(f.layer)
                &&& no_local_interface(f)
            },
    decreases eps.len(),
{
    broadcast use lemma_rule_fields;

    if eps.len() > 0 {
        lemma_endpoint_rules_shape(app, eps.drop_last());
        match parse_endpoint_spec(eps.last()) {
            Some(t) => {
                let f = endpoint_rule(app, t);
                assert(no_local_interface(f)) by {
                    assert(f.conditions =~= seq![CondView::AleAppId, addr_condition(t.0), CondView::Protocol(t.2), CondView::RemotePort(t.1)]);
                }
            },
            None => {},
        }
    }
}

proof fn lemma_direct_rules_shape(eps: Seq<EndpointView>)
    ensures
        forall|i: int|
            0 <= i < direct_rules(eps).len() ==> {
                let f = #[trigger] direct_rules(eps)[i];
                &&& f.weight == WEIGHT_HARD_PERMIT
                &&& f.action == FilterAction::Permit
                &&& !f.persistent
                &&& is_connect_layer(f.layer)
                &&& no_local_interface(f)
            },
    decreases eps.len(),
{
    broadcast use lemma_rule_fields;

    if eps.len() > 0 {
        lemma_direct_rules_shape(eps.drop_last());
        match parse_endpoint_spec(eps.last()) {
            Some(t) => {
                let f = direct_rule(t);
                assert(no_local_interface(f)) by {
                    assert(f.conditions =~= seq![addr_condition(t.0), CondView::Protocol(t.2), CondView::RemotePort(t.1)]);
                }
            },
            None => {},
        }
    }
}

proof fn lemma_api_rules_shape(ips: Seq<IpAddr>)
    ensures
        api_rules(ips).len() == ips.len(),
        forall|i: int|
            0 <= i < ips.len() ==> {
                let f = #[trigger] api_rules(ips)[i];
                &&& f == api_rule(ips[i])
                &&& f.weight == WEIGHT_INFRA_PERMIT
                &&& f.action == FilterAction::Permit
                &&& !f.persistent
                &&& is_connect_layer(f.layer)
                &&& no_local_interface(f)
            },
    decreases ips.len(),
{
    broadcast use lemma_rule_fields;

    if ips.len() > 0 {
        lemma_api_rules_shape(ips.drop_last());
        let f = api_rule(ips.last());
        assert(no_local_interface(f)) by {
            assert(f.conditions =~= seq![addr_condition(ips.last()), CondView::Protocol(IpProtocol::Tcp), CondView::RemotePort(443)]);
        }
        assert forall|i: int| 0 <= i < ips.len() implies #[trigger] api_rules(ips)[i] == api_rule(ips[i]) by {
            if i < ips.len() - 1 {
                assert(ips.drop_last()[i] == ips[i]);
            }
        }
    }
}

/// Facts about the head sections of the session set.
proof fn lemma_session_sections(c: RuleConfigView)
    ensures
        forall|i: int|
            0 <= i < session_head(c).len() ==> {
                let f = #[trigger] session_head(c)[i];
                &&& f.action == FilterAction::Permit
                &&& !f.persistent
                &&& is_connect_layer(f.layer)
                &&& (c.mode == KillSwitchStatusMode::Locked ==> f.weight != WEIGHT_INFRA_PERMIT)
                &&& (c.mode != KillSwitchStatusMode::Locked && f.weight == WEIGHT_HARD_PERMIT
                    ==> f.conditions.len() > 0 && f.conditions[0] == CondView::AleAppId)
                &&& (!no_local_interface(f) ==> c.mode == KillSwitchStatusMode::Locked
                    && c.tun_luid is Some && f.conditions == seq![
                    CondView::LocalInterface(c.tun_luid->0),
                ])
            },
{
    broadcast use lemma_rule_fields;

    let a = endpoint_rules(c.app_path, c.endpoints);
    let b = tunnel_rules(c);
    let api = if c.mode != KillSwitchStatusMode::Locked {
        api_rules(c.api_host_ips)
    } else {
        seq![]
    };
    let g = if c.mode == KillSwitchStatusMode::Locked {
        direct_rules(c.direct_endpoints)
    } else {
        seq![]
    };
    lemma_endpoint_rules_shape(c.app_path, c.endpoints);
    lemma_direct_rules_shape(c.direct_endpoints);
    lemma_api_rules_shape(c.api_host_ips);
    let head = session_head(c);
    assert(head == a + b + api + g);
    assert forall|i: int| 0 <= i < head.len() implies {
        let f = #[trigger] head[i];
        &&& f.action == FilterAction::Permit
        &&& !f.persistent
        &&& is_connect_layer(f.layer)
        &&& (c.mode == KillSwitchStatusMode::Locked ==> f.weight != WEIGHT_INFRA_PERMIT)
        &&& (c.mode != KillSwitchStatusMode::Locked && f.weight == WEIGHT_HARD_PERMIT
            ==> f.conditions.len() > 0 && f.conditions[0] == CondView::AleAppId)
        &&& (!no_local_interface(f) ==> c.mode == KillSwitchStatusMode::Locked
            && c.tun_luid is Some && f.conditions == seq![
            CondView::LocalInterface(c.tun_luid->0),
        ])
    } by {
        if i < a.len() {
            assert(head[i] == a[i]);
        } else if i < a.len() + b.len() {
            assert(head[i] == b[i - a.len()]);
            if c.mode == KillSwitchStatusMode::Locked && c.tun_luid is Some {
                let l = c.tun_luid->0;
                if i - a.len() == 0 {
                    assert(head[i] == tunnel_rule(LayerKind::AleAuthConnectV4, l));
                } else {
                    assert(head[i] == tunnel_rule(LayerKind::AleAuthConnectV6, l));
                }
            }
        } else if i < a.len() + b.len() + api.len() {
            assert(head[i] == api[i - a.len() - b.len()]);
        } else {
            assert(head[i] == g[i - a.len() - b.len() - api.len()]);
        }
    }
}

/// Every connect layer ends in a condition-free block in every mode: exactly two block-all
/// filters per connect layer (the floor's persistent one and the session's redundant one).
pub proof fn block_all_is_always_present_for_both_families(c: RuleConfigView)
    ensures
        block_all_count(expected_filters_spec(c), LayerKind::AleAuthConnectV4) == 2,
        block_all_count(expected_filters_spec(c), LayerKind::AleAuthConnectV6) == 2,
{
    lemma_block_all_layer(c, LayerKind::AleAuthConnectV4);
    lemma_block_all_layer(c, LayerKind::AleAuthConnectV6);
}

proof fn lemma_block_all_layer(c: RuleConfigView, l: LayerKind)
    requires
        is_connect_layer(l),
    ensures
        block_all_count(expected_filters_spec(c), l) == 2,
{
    broadcast use lemma_rule_fields;

    lemma_session_sections(c);
    let head = session_head(c);
    let floor = intent_floor_spec();
    let permits = floor.take(6);
    let pair = floor.subrange(6, 8);
    let dns = dns_block_rules();
    let tail = session_block_all_rules();
    assert(floor =~= permits + pair);
    assert(expected_filters_spec(c) =~= (permits + pair) + ((head + dns) + tail));
    assert forall|i: int| 0 <= i < head.len() implies !is_block_all(#[trigger] head[i], l) by {}
    assert forall|i: int| 0 <= i < permits.len() implies !is_block_all(#[trigger] permits[i], l) by {
        assert(permits[i] == floor[i]);
    }
    assert forall|i: int| 0 <= i < dns.len() implies !is_block_all(#[trigger] dns[i], l) by {}
    lemma_block_all_count_permits(head, l);
    lemma_block_all_count_permits(permits, l);
    lemma_block_all_count_permits(dns, l);
    lemma_block_all_count_add(head, dns, l);
    lemma_block_all_count_add(head + dns, tail, l);
    lemma_block_all_count_add(permits, pair, l);
    lemma_block_all_count_add(permits + pair, (head + dns) + tail, l);
    reveal_with_fuel(block_all_count, 3);
    assert(pair.drop_last() =~= seq![floor[6]]);
    assert(seq![floor[6]].drop_last() =~= Seq::<FilterView>::empty());
    assert(tail.drop_last() =~= seq![tail[0]]);
    assert(seq![tail[0]].drop_last() =~= Seq::<FilterView>::empty());
    assert(block_all_count(pair, l) == 1);
    assert(block_all_count(tail, l) == 1);
}

/// Persistence is reserved for the condition-free floor block pair: in the expected set the
/// persistent filters are exactly the floor's two block-alls (positions 6 and 7), and no session
/// rule is ever persistent.
pub proof fn only_floor_blocks_are_persistent(c: RuleConfigView)
    ensures
        forall|i: int|
            0 <= i < expected_filters_spec(c).len() ==> ((#[trigger] expected_filters_spec(c)[i]).persistent
                <==> (i == 6 || i == 7)),
        expected_filters_spec(c)[6].action == FilterAction::Block,
        expected_filters_spec(c)[6].conditions.len() == 0,
        expected_filters_spec(c)[7].action == FilterAction::Block,
        expected_filters_spec(c)[7].conditions.len() == 0,
        forall|i: int|
            0 <= i < session_rules_spec(c).len() ==> !(#[trigger] session_rules_spec(c)[i]).persistent,
{
    broadcast use lemma_rule_fields;

    lemma_session_sections(c);
    let s = session_rules_spec(c);
    let head = session_head(c);
    assert forall|i: int| 0 <= i < s.len() implies !(#[trigger] s[i]).persistent by {
        if i < head.len() {
            assert(s[i] == head[i]);
        } else if i < head.len() + 4 {
            assert(s[i] == dns_block_rules()[i - head.len()]);
        } else {
            assert(s[i] == session_block_all_rules()[i - head.len() - 4]);
        }
    }
    let e = expected_filters_spec(c);
    assert forall|i: int| 0 <= i < e.len() implies ((#[trigger] e[i]).persistent <==> (i == 6 || i == 7)) by {
        if i >= 8 {
            assert(e[i] == s[i - 8]);
        }
    }
}

/// The bootstrap API channel is open outside `Locked` (one tcp/443 permit per host IP) and
/// fully retracted in `Locked` (no infrastructure-weight permit in the session set at all).
pub proof fn api_channel_open_outside_locked_and_retracted_in_locked(c: RuleConfigView)
    ensures
        c.mode == KillSwitchStatusMode::Locked ==> forall|i: int|
            0 <= i < session_rules_spec(c).len() ==> (#[trigger] session_rules_spec(c)[i]).weight
                != WEIGHT_INFRA_PERMIT,
        c.mode != KillSwitchStatusMode::Locked ==> forall|k: int|
            0 <= k < c.api_host_ips.len() ==> session_rules_spec(c).contains(
                api_rule(#[trigger] c.api_host_ips[k]),
            ),
{
    broadcast use lemma_rule_fields;

    lemma_session_sections(c);
    lemma_api_rules_shape(c.api_host_ips);
    let s = session_rules_spec(c);
    let a = endpoint_rules(c.app_path, c.endpoints);
    let b = tunnel_rules(c);
    let head = session_head(c);
    if c.mode == KillSwitchStatusMode::Locked {
        assert forall|i: int| 0 <= i < s.len() implies (#[trigger] s[i]).weight != WEIGHT_INFRA_PERMIT by {
            if i < head.len() {
                assert(s[i] == head[i]);
            } else if i < head.len() + 4 {
                assert(s[i] == dns_block_rules()[i - head.len()]);
            } else {
                assert(s[i] == session_block_all_rules()[i - head.len() - 4]);
            }
        }
    } else {
        assert forall|k: int| 0 <= k < c.api_host_ips.len() implies s.contains(
            api_rule(#[trigger] c.api_host_ips[k]),
        ) by {
            let idx = a.len() + b.len() + k;
            assert(s[idx] == api_rules(c.api_host_ips)[k]);
        }
    }
}

/// No tunnel permit exists outside `Locked`: every interface-scoped condition in the expected
/// set is the recorded LUID of a locked session; a locked session with a LUID permits its
/// tunnel on both connect layers.
pub proof fn tunnel_permitted_only_when_locked(c: RuleConfigView)
    ensures
        forall|i: int|
            0 <= i < expected_filters_spec(c).len() && !no_local_interface(
                #[trigger] expected_filters_spec(c)[i],
            ) ==> c.mode == KillSwitchStatusMode::Locked && c.tun_luid is Some
                && expected_filters_spec(c)[i].conditions == seq![
                CondView::LocalInterface(c.tun_luid->0),
            ],
        c.mode == KillSwitchStatusMode::Locked && c.tun_luid is Some ==> {
            &&& expected_filters_spec(c).contains(
                tunnel_rule(LayerKind::AleAuthConnectV4, c.tun_luid->0),
            )
            &&& expected_filters_spec(c).contains(
                tunnel_rule(LayerKind::AleAuthConnectV6, c.tun_luid->0),
            )
        },
{
    broadcast use lemma_rule_fields;

    lemma_session_sections(c);
    let e = expected_filters_spec(c);
    let s = session_rules_spec(c);
    let a = endpoint_rules(c.app_path, c.endpoints);
    let head = session_head(c);
    assert forall|i: int|
        0 <= i < e.len() && !no_local_interface(#[trigger] e[i]) implies c.mode
        == KillSwitchStatusMode::Locked && c.tun_luid is Some && e[i].conditions == seq![
        CondView::LocalInterface(c.tun_luid->0),
    ] by {
        if i < 8 {
            let f = e[i];
            assert(no_local_interface(f)) by {
                assert forall|j: int| 0 <= j < f.conditions.len() implies !(
                f.conditions[j] is LocalInterface) by {}
            }
        } else {
            let k = i - 8;
            assert(e[i] == s[k]);
            if k < head.len() {
                assert(s[k] == head[k]);
            } else if k < head.len() + 4 {
                let f = dns_block_rules()[k - head.len()];
                assert(s[k] == f);
                assert(no_local_interface(f)) by {
                    assert forall|j: int| 0 <= j < f.conditions.len() implies !(
                    f.conditions[j] is LocalInterface) by {}
                }
            } else {
                assert(s[k] == session_block_all_rules()[k - head.len() - 4]);
            }
        }
    }
    if c.mode == KillSwitchStatusMode::Locked && c.tun_luid is Some {
        assert(e[8 + a.len() as int] == tunnel_rule(LayerKind::AleAuthConnectV4, c.tun_luid->0));
        assert(e[8 + a.len() as int + 1] == tunnel_rule(LayerKind::AleAuthConnectV6, c.tun_luid->0));
    }
}

/// Outside `Locked` every hard-weight permit in the session set is app-scoped: the approved
/// DIRECT tuples, which carry no app-id condition, exist only while locked.
pub proof fn unscoped_hard_permits_only_when_locked(c: RuleConfigView)
    ensures
        c.mode != KillSwitchStatusMode::Locked ==> forall|i: int|
            0 <= i < session_rules_spec(c).len() && (#[trigger] session_rules_spec(c)[i]).weight
                == WEIGHT_HARD_PERMIT && session_rules_spec(c)[i].action == FilterAction::Permit
                ==> session_rules_spec(c)[i].conditions.len() > 0
                && session_rules_spec(c)[i].conditions[0] == CondView::AleAppId,
        c.mode == KillSwitchStatusMode::Locked ==> forall|k: int|
            0 <= k < c.direct_endpoints.len() && #[trigger] parse_endpoint_spec(c.direct_endpoints[k])
                is Some ==> session_rules_spec(c).contains(
                direct_rule(parse_endpoint_spec(c.direct_endpoints[k])->0),
            ),
{
    broadcast use lemma_rule_fields;

    lemma_session_sections(c);
    let s = session_rules_spec(c);
    let a = endpoint_rules(c.app_path, c.endpoints);
    let head = session_head(c);
    if c.mode != KillSwitchStatusMode::Locked {
        assert forall|i: int|
            0 <= i < s.len() && (#[trigger] s[i]).weight == WEIGHT_HARD_PERMIT && s[i].action
                == FilterAction::Permit implies s[i].conditions.len() > 0 && s[i].conditions[0]
            == CondView::AleAppId by {
            if i < head.len() {
                assert(s[i] == head[i]);
            } else if i < head.len() + 4 {
                assert(s[i] == dns_block_rules()[i - head.len()]);
            } else {
                assert(s[i] == session_block_all_rules()[i - head.len() - 4]);
            }
        }
    } else {
        let pre = a + tunnel_rules(c);
        assert forall|k: int|
            0 <= k < c.direct_endpoints.len() && #[trigger] parse_endpoint_spec(c.direct_endpoints[k])
                is Some implies s.contains(
            direct_rule(parse_endpoint_spec(c.direct_endpoints[k])->0),
        ) by {
            lemma_direct_rules_contains(c.direct_endpoints, k);
            let g = direct_rules(c.direct_endpoints);
            let j = choose|j: int| 0 <= j < g.len() && g[j] == direct_rule(parse_endpoint_spec(c.direct_endpoints[k])->0);
            assert(s[pre.len() + j] == g[j]);
        }
    }
}

proof fn lemma_direct_rules_contains(eps: Seq<EndpointView>, k: int)
    requires
        0 <= k < eps.len(),
        parse_endpoint_spec(eps[k]) is Some,
    ensures
        direct_rules(eps).contains(direct_rule(parse_endpoint_spec(eps[k])->0)),
    decreases eps.len(),
{
    let pre = eps.drop_last();
    if k == eps.len() - 1 {
        assert(direct_rules(eps).last() == direct_rule(parse_endpoint_spec(eps[k])->0));
    } else {
        assert(pre[k] == eps[k]);
        lemma_direct_rules_contains(pre, k);
        let r = direct_rules(pre);
        let j = choose|j: int| 0 <= j < r.len() && r[j] == direct_rule(parse_endpoint_spec(eps[k])->0);
        assert(direct_rules(eps)[j] == r[j]);
    }
}

/// Applying a plan reaches the desired key set: what stays live (not removed) plus what is
/// installed is exactly the desired keys; nothing desired is removed; every install is a
/// desired filter whose key is not live yet.
pub proof fn plan_reaches_desired(current: Seq<u128>, desired: Seq<FilterView>)
    ensures
        forall|k: u128|
            (current.contains(k) && !remove_spec(current, desired).contains(k)) || filter_keys(
                install_spec(current, desired),
            ).contains(k) <==> #[trigger] filter_keys(desired).contains(k),
        forall|i: int|
            0 <= i < remove_spec(current, desired).len() ==> !filter_keys(desired).contains(
                #[trigger] remove_spec(current, desired)[i],
            ),
        forall|i: int|
            0 <= i < install_spec(current, desired).len() ==> desired.contains(
                #[trigger] install_spec(current, desired)[i],
            ) && !current.contains(install_spec(current, desired)[i].key),
{
    broadcast use vstd::seq_lib::group_filter_ensures;

    let ins = install_spec(current, desired);
    lemma_filter_members(desired, |f: FilterView| !current.contains(f.key));
    let rem = remove_spec(current, desired);
    let dk = filter_keys(desired);
    let ipred = |f: FilterView| !current.contains(f.key);
    let rpred = |k: u128| !dk.contains(k);
    assert forall|i: int| 0 <= i < rem.len() implies !dk.contains(#[trigger] rem[i]) by {
        assert(rpred(rem[i]));
    }
    assert forall|i: int| 0 <= i < ins.len() implies desired.contains(#[trigger] ins[i])
        && !current.contains(ins[i].key) by {
        assert(ipred(ins[i]));
    }
    assert forall|k: u128|
        (current.contains(k) && !rem.contains(k)) || filter_keys(ins).contains(k)
            <==> #[trigger] dk.contains(k) by {
        if dk.contains(k) {
            let j = choose|j: int| 0 <= j < dk.len() && dk[j] == k;
            if current.contains(k) {
                if rem.contains(k) {
                    let m = choose|m: int| 0 <= m < rem.len() && rem[m] == k;
                    assert(rpred(rem[m]));
                }
            } else {
                assert(ipred(desired[j]));
                assert(ins.contains(desired[j]));
                let m = choose|m: int| 0 <= m < ins.len() && ins[m] == desired[j];
                assert(filter_keys(ins)[m] == k);
            }
        }
        if filter_keys(ins).contains(k) {
            let m = choose|m: int| 0 <= m < filter_keys(ins).len() && filter_keys(ins)[m] == k;
            assert(ipred(ins[m]));
            assert(desired.contains(ins[m]));
            let j = choose|j: int| 0 <= j < desired.len() && desired[j] == ins[m];
            assert(dk[j] == k);
        }
        if current.contains(k) && !rem.contains(k) {
            let m = choose|m: int| 0 <= m < current.len() && current[m] == k;
            if !dk.contains(k) {
                assert(rpred(current[m]));
                assert(rem.contains(current[m]));
            }
        }
    }
}

proof fn lemma_filter_members<A>(s: Seq<A>, pred: spec_fn(A) -> bool)
    ensures
        forall|i: int| 0 <= i < s.filter(pred).len() ==> s.contains(#[trigger] s.filter(pred)[i]),
    decreases s.len(),
{
    reveal(Seq::filter);
    if s.len() > 0 {
        lemma_filter_members(s.drop_last(), pred);
        let sub = s.drop_last().filter(pred);
        let out = s.filter(pred);
        assert forall|i: int| 0 <= i < out.len() implies s.contains(#[trigger] out[i]) by {
            if i < sub.len() {
                assert(out[i] == sub[i]);
                let j = choose|j: int| 0 <= j < s.drop_last().len() && s.drop_last()[j] == sub[i];
                assert(s[j] == sub[i]);
            } else {
                assert(out[i] == s[s.len() - 1]);
            }
        }
    }
}

/// Installs strictly before removes: every step before the first remove is an install.
pub proof fn ordered_steps_install_before_remove(install: Seq<FilterView>, remove: Seq<u128>)
    ensures
        ordered_steps_spec(install, remove).len() == install.len() + remove.len(),
        forall|i: int|
            0 <= i < install.len() ==> #[trigger] ordered_steps_spec(install, remove)[i]
                == StepView::Install(install[i]),
        forall|j: int|
            0 <= j < remove.len() ==> #[trigger] ordered_steps_spec(install, remove)[install.len()
                + j] == StepView::Remove(remove[j]),
{
}

// ---------------------------------------------------------------------------------------------
// Keys
// ---------------------------------------------------------------------------------------------

/// A key is its value: two Guids with the same value are the same Guid, so a Guid rebuilt from
/// its value (`from_u128(g.into_u128())`) is `g`.
pub proof fn guid_is_its_value(a: Guid, b: Guid)
    ensures
        (a.value() == b.value()) == (a == b),
{
}

/// The high 64 bits of a rule key are the namespace marker, the low 64 bits its tag's hash.
pub proof fn lemma_key_parts(h: u64)
    by (bit_vector)
    ensures
        ((0x2f7c_9e02_0000_4a6c_0000_0000_0000_0000u128 | (h as u128)) >> 64u128)
            == 0x2f7c_9e02_0000_4a6cu128,
        (0x2f7c_9e02_0000_4a6c_0000_0000_0000_0000u128 | (h as u128)) as u64 == h,
{
}

/// The 64-bit FNV-1a hash of a tag's UTF-8 bytes.
pub open spec fn tag_hash(tag: Seq<char>) -> u64 {
    fnv1a64_spec(encode_utf8(tag))
}

/// Every rule key carries the current table's namespace marker in its high 64 bits, and two
/// tags get the same key exactly when their hashes are equal.
pub proof fn keys_carry_the_namespace(t1: Seq<char>, t2: Seq<char>)
    ensures
        tag_key(t1) >> 64u128 == 0x2f7c_9e02_0000_4a6cu128,
        (tag_key(t1) == tag_key(t2)) == (tag_hash(t1) == tag_hash(t2)),
{
    lemma_key_parts(tag_hash(t1));
    lemma_key_parts(tag_hash(t2));
}

/// The floor: every key carries the namespace marker, and the eight rules are tagged by eight
/// different tags, so their keys differ wherever those tags' hashes do.
pub proof fn floor_keys_are_namespaced(i: int, j: int)
    requires
        0 <= i < 8,
        0 <= j < 8,
        i != j,
    ensures
        intent_floor_spec()[i].key >> 64u128 == 0x2f7c_9e02_0000_4a6cu128,
        floor_tags()[i] != floor_tags()[j],
        intent_floor_spec()[i].key == tag_key(floor_tags()[i]),
        tag_hash(floor_tags()[i]) != tag_hash(floor_tags()[j]) ==> intent_floor_spec()[i].key
            != intent_floor_spec()[j].key,
{
    broadcast use lemma_rule_fields;

    let f = intent_floor_spec();
    let t = floor_tags();
    assert(f[i].key == tag_key(t[i]));
    assert(f[j].key == tag_key(t[j]));
    keys_carry_the_namespace(t[i], t[j]);
    reveal_strlit("intent/permit-loopback-v4");
    reveal_strlit("intent/permit-loopback-v6");
    reveal_strlit("intent/permit-dhcp-v4");
    reveal_strlit("intent/permit-dhcp-v6");
    reveal_strlit("intent/permit-ndp-out");
    reveal_strlit("intent/permit-ndp-in");
    reveal_strlit("intent/block-all-v4");
    reveal_strlit("intent/block-all-v6");
    assert(t[i] != t[j]) by {
        if t[i] == t[j] {
            assert(t[i].len() == t[j].len());
            assert(t[i][t[i].len() - 1] == t[j][t[j].len() - 1]);
            assert(t[i][t[i].len() - 2] == t[j][t[j].len() - 2]);
            assert(t[i][14] == t[j][14]);
        }
    }
}

/// The floor's tags, in table order.
pub open spec fn floor_tags() -> Seq<Seq<char>> {
    seq![
        "intent/permit-loopback-v4"@,
        "intent/permit-loopback-v6"@,
        "intent/permit-dhcp-v4"@,
        "intent/permit-dhcp-v6"@,
        "intent/permit-ndp-out"@,
        "intent/permit-ndp-in"@,
        "intent/block-all-v4"@,
        "intent/block-all-v6"@,
    ]
}

/// Moving the core binary re-keys its endpoint permit: a different staged path gives a
/// different tag, hence a different key unless the two tags' 64-bit hashes collide.
pub proof fn moving_the_core_binary_rekeys_the_endpoint_permit(
    a1: Seq<char>,
    a2: Seq<char>,
    t: (IpAddr, u16, IpProtocol),
)
    requires
        a1 != a2,
    ensures
        endpoint_tag(a1, t) != endpoint_tag(a2, t),
        tag_hash(endpoint_tag(a1, t)) != tag_hash(endpoint_tag(a2, t)) ==> endpoint_rule(a1, t).key
            != endpoint_rule(a2, t).key,
{
    broadcast use lemma_rule_fields;

    let p = "session/permit-endpoint/"@;
    let r = "/"@ + ip_text(t.0) + "/"@ + dec_text(t.1 as nat) + "/"@ + dec_text(
        protocol_number(t.2) as nat,
    );
    assert(endpoint_tag(a1, t) =~= p + a1 + r);
    assert(endpoint_tag(a2, t) =~= p + a2 + r);
    if endpoint_tag(a1, t) == endpoint_tag(a2, t) {
        let x = p + a1 + r;
        let y = p + a2 + r;
        assert(a1.len() == a2.len());
        assert(x.subrange(p.len() as int, (p.len() + a1.len()) as int) =~= a1);
        assert(y.subrange(p.len() as int, (p.len() + a2.len()) as int) =~= a2);
    }
    keys_carry_the_namespace(endpoint_tag(a1, t), endpoint_tag(a2, t));
}

/// A new tunnel adapter re-keys the tunnel permits: a different LUID gives a different tag on
/// each layer, hence a different key unless the two tags' 64-bit hashes collide.
pub proof fn a_new_tunnel_rekeys_the_tunnel_permit(layer: LayerKind, l1: u64, l2: u64)
    requires
        l1 != l2,
    ensures
        tunnel_tag(layer, l1) != tunnel_tag(layer, l2),
        tag_hash(tunnel_tag(layer, l1)) != tag_hash(tunnel_tag(layer, l2)) ==> tunnel_rule(layer, l1).key
            != tunnel_rule(layer, l2).key,
{
    broadcast use lemma_rule_fields;

    let q = "session/permit-tunnel/"@ + layer_name(layer) + "/"@;
    assert(tunnel_tag(layer, l1) =~= q + dec_text(l1 as nat));
    assert(tunnel_tag(layer, l2) =~= q + dec_text(l2 as nat));
    if tunnel_tag(layer, l1) == tunnel_tag(layer, l2) {
        let x = q + dec_text(l1 as nat);
        let y = q + dec_text(l2 as nat);
        assert(x.subrange(q.len() as int, x.len() as int) =~= dec_text(l1 as nat));
        assert(y.subrange(q.len() as int, y.len() as int) =~= dec_text(l2 as nat));
        crate::text::lemma_dec_text_injective(l1 as nat, l2 as nat);
    }
    keys_carry_the_namespace(tunnel_tag(layer, l1), tunnel_tag(layer, l2));
}

// ---------------------------------------------------------------------------------------------
// The floor's keys, computed
// ---------------------------------------------------------------------------------------------

/// FNV-1a over the first `k` characters of a text, one byte per character.
pub open spec fn fnv_prefix(s: Seq<char>, k: nat) -> u64
    decreases k,
{
    if k == 0 {
        FNV_OFFSET_BASIS
    } else {
        vstd::wrapping::u64_specs::wrapping_mul(
            fnv_prefix(s, (k - 1) as nat) ^ ((s[k - 1] as u32) as u64),
            FNV_PRIME,
        )
    }
}

/// The first `k` characters are ASCII.
pub open spec fn ascii_prefix(s: Seq<char>, k: nat) -> bool
    decreases k,
{
    k == 0 || ((s[k - 1] as u32) <= 0x7f && ascii_prefix(s, (k - 1) as nat))
}

proof fn lemma_ascii_byte(c: u32)
    by (bit_vector)
    requires
        c <= 0x7f,
    ensures
        ((c & 0x7F) as u8) as u64 == c as u64,
{
}

proof fn lemma_encode_concat(a: Seq<char>, b: Seq<char>)
    ensures
        encode_utf8(a + b) == encode_utf8(a) + encode_utf8(b),
    decreases a.len(),
{
    if a.len() == 0 {
        assert(a + b =~= b);
        assert(encode_utf8(a) + encode_utf8(b) =~= encode_utf8(b));
    } else {
        assert((a + b).drop_first() =~= a.drop_first() + b);
        assert((a + b)[0] == a[0]);
        lemma_encode_concat(a.drop_first(), b);
        assert(encode_utf8(a + b) =~= encode_utf8(a) + encode_utf8(b));
    }
}

/// For ASCII text the hash of the UTF-8 bytes is the hash of the characters.
pub proof fn lemma_fnv_ascii(s: Seq<char>, k: nat)
    requires
        k <= s.len(),
        ascii_prefix(s, k),
    ensures
        fnv1a64_spec(encode_utf8(s.take(k as int))) == fnv_prefix(s, k),
    decreases k,
{
    if k == 0 {
        assert(s.take(0) =~= Seq::<char>::empty());
        assert(encode_utf8(Seq::<char>::empty()) =~= Seq::<u8>::empty());
    } else {
        let c = s[k - 1];
        lemma_fnv_ascii(s, (k - 1) as nat);
        assert(s.take(k as int) =~= s.take(k - 1) + seq![c]);
        lemma_encode_concat(s.take(k - 1), seq![c]);
        assert(seq![c].drop_first() =~= Seq::<char>::empty());
        assert(seq![c][0] == c);
        assert(encode_utf8(Seq::<char>::empty()) =~= Seq::<u8>::empty());
        assert((c as u32) <= 0x7f);
        assert(encode_scalar(c as u32) =~= seq![((c as u32) & 0x7F) as u8]);
        let tail = encode_utf8(seq![c]);
        assert(tail =~= encode_scalar(c as u32) + encode_utf8(Seq::<char>::empty()));
        assert(tail =~= seq![((c as u32) & 0x7F) as u8]);
        lemma_ascii_byte(c as u32);
        let bytes = encode_utf8(s.take(k as int));
        assert(bytes =~= encode_utf8(s.take(k - 1)).push(((c as u32) & 0x7F) as u8));
        assert(bytes.drop_last() =~= encode_utf8(s.take(k - 1)));
        assert(bytes.last() == ((c as u32) & 0x7F) as u8);
        assert((bytes.last() as u64) == (c as u32) as u64);
        assert(fnv1a64_spec(bytes) == vstd::wrapping::u64_specs::wrapping_mul(
            fnv1a64_spec(bytes.drop_last()) ^ (bytes.last() as u64),
            FNV_PRIME,
        ));
    }
}

proof fn lemma_floor_hash_0()
    by (bit_vector)
    ensures
        vstd::wrapping::u64_specs::wrapping_mul(vstd::wrapping::u64_specs::wrapping_mul(vstd::wrapping::u64_specs::wrapping_mul(vstd::wrapping::u64_specs::wrapping_mul(vstd::wrapping::u64_specs::wrapping_mul(vstd::wrapping::u64_specs::wrapping_mul(vstd::wrapping::u64_specs::wrapping_mul(vstd::wrapping::u64_specs::wrapping_mul(vstd::wrapping::u64_specs::wrapping_mul(vstd::wrapping::u64_specs::wrapping_mul(vstd::wrapping::u64_specs::wrapping_mul(vstd::wrapping::u64_specs::wrapping_mul(vstd::wrapping::u64_specs::wrapping_mul(vstd::wrapping::u64_specs::wrapping_mul(vstd::wrapping::u64_specs::wrapping_mul(vstd::wrapping::u64_specs::wrapping_mul(vstd::wrapping::u64_specs::wrapping_mul(vstd::wrapping::u64_specs::wrapping_mul(vstd::wrapping::u64_specs::wrapping_mul(vstd::wrapping::u64_specs::wrapping_mul(vstd::wrapping::u64_specs::wrapping_mul(vstd::wrapping::u64_specs::wrapping_mul(vstd::wrapping::u64_specs::wrapping_mul(vstd::wrapping::u64_specs::wrapping_mul(vstd::wrapping::u64_specs::wrapping_mul(0xcbf2_9ce4_8422_2325u64 ^ 105u64, 0x0000_0100_0000_01b3u64) ^ 110u64, 0x0000_0100_0000_01b3u64) ^ 116u64, 0x0000_0100_0000_01b3u64) ^ 101u64, 0x0000_0100_0000_01b3u64) ^ 110u64, 0x0000_0100_0000_01b3u64) ^ 116u64, 0x0000_0100_0000_01b3u64) ^ 47u64, 0x0000_0100_0000_01b3u64) ^ 112u64, 0x0000_0100_0000_01b3u64) ^ 101u64, 0x0000_0100_0000_01b3u64) ^ 114u64, 0x0000_0100_0000_01b3u64) ^ 109u64, 0x0000_0100_0000_01b3u64) ^ 105u64, 0x0000_0100_0000_01b3u64) ^ 116u64, 0x0000_0100_0000_01b3u64) ^ 45u64, 0x0000_0100_0000_01b3u64) ^ 108u64, 0x0000_0100_0000_01b3u64) ^ 111u64, 0x0000_0100_0000_01b3u64) ^ 111u64, 0x0000_0100_0000_01b3u64) ^ 112u64, 0x0000_0100_0000_01b3u64) ^ 98u64, 0x0000_0100_0000_01b3u64) ^ 97u64, 0x0000_0100_0000_01b3u64) ^ 99u64, 0x0000_0100_0000_01b3u64) ^ 107u64, 0x0000_0100_0000_01b3u64) ^ 45u64, 0x0000_0100_0000_01b3u64) ^ 118u64, 0x0000_0100_0000_01b3u64) ^ 52u64, 0x0000_0100_0000_01b3u64) == 0xf34b9c8d785c647cu64,
{
}

proof fn lemma_floor_hash_1()
    by (bit_vector)
    ensures
        vstd::wrapping::u64_specs::wrapping_mul(vstd::wrapping::u64_specs::wrapping_mul(vstd::wrapping::u64_specs::wrapping_mul(vstd::wrapping::u64_specs::wrapping_mul(vstd::wrapping::u64_specs::wrapping_mul(vstd::wrapping::u64_specs::wrapping_mul(vstd::wrapping::u64_specs::wrapping_mul(vstd::wrapping::u64_specs::wrapping_mul(vstd::wrapping::u64_specs::wrapping_mul(vstd::wrapping::u64_specs::wrapping_mul(vstd::wrapping::u64_specs::wrapping_mul(vstd::wrapping::u64_specs::wrapping_mul(vstd::wrapping::u64_specs::wrapping_mul(vstd::wrapping::u64_specs::wrapping_mul(vstd::wrapping::u64_specs::wrapping_mul(vstd::wrapping::u64_specs::wrapping_mul(vstd::wrapping::u64_specs::wrapping_mul(vstd::wrapping::u64_specs::wrapping_mul(vstd::wrapping::u64_specs::wrapping_mul(vstd::wrapping::u64_specs::wrapping_mul(vstd::wrapping::u64_specs::wrapping_mul(vstd::wrapping::u64_specs::wrapping_mul(vstd::wrapping::u64_specs::wrapping_mul(vstd::wrapping::u64_specs::wrapping_mul(vstd::wrapping::u64_specs::wrapping_mul(0xcbf2_9ce4_8422_2325u64 ^ 105u64, 0x0000_0100_0000_01b3u64) ^ 110u64, 0x0000_0100_0000_01b3u64) ^ 116u64, 0x0000_0100_0000_01b3u64) ^ 101u64, 0x0000_0100_0000_01b3u64) ^ 110u64, 0x0000_0100_0000_01b3u64) ^ 116u64, 0x0000_0100_0000_01b3u64) ^ 47u64, 0x0000_0100_0000_01b3u64) ^ 112u64, 0x0000_0100_0000_01b3u64) ^ 101u64, 0x0000_0100_0000_01b3u64) ^ 114u64, 0x0000_0100_0000_01b3u64) ^ 109u64, 0x0000_0100_0000_01b3u64) ^ 105u64, 0x0000_0100_0000_01b3u64) ^ 116u64, 0x0000_0100_0000_01b3u64) ^ 45u64, 0x0000_0100_0000_01b3u64) ^ 108u64, 0x0000_0100_0000_01b3u64) ^ 111u64, 0x0000_0100_0000_01b3u64) ^ 111u64, 0x0000_0100_0000_01b3u64) ^ 112u64, 0x0000_0100_0000_01b3u64) ^ 98u64, 0x0000_0100_0000_01b3u64) ^ 97u64, 0x0000_0100_0000_01b3u64) ^ 99u64, 0x0000_0100_0000_01b3u64) ^ 107u64, 0x0000_0100_0000_01b3u64) ^ 45u64, 0x0000_0100_0000_01b3u64) ^ 118u64, 0x0000_0100_0000_01b3u64) ^ 54u64, 0x0000_0100_0000_01b3u64) == 0xf34b9e8d785c67e2u64,
{
}

proof fn lemma_floor_hash_2()
    by (bit_vector)
    ensures
        vstd::wrapping::u64_specs::wrapping_mul(vstd::wrapping::u64_specs::wrapping_mul(vstd::wrapping::u64_specs::wrapping_mul(vstd::wrapping::u64_specs::wrapping_mul(vstd::wrapping::u64_specs::wrapping_mul(vstd::wrapping::u64_specs::wrapping_mul(vstd::wrapping::u64_specs::wrapping_mul(vstd::wrapping::u64_specs::wrapping_mul(vstd::wrapping::u64_specs::wrapping_mul(vstd::wrapping::u64_specs::wrapping_mul(vstd::wrapping::u64_specs::wrapping_mul(vstd::wrapping::u64_specs::wrapping_mul(vstd::wrapping::u64_specs::wrapping_mul(vstd::wrapping::u64_specs::wrapping_mul(vstd::wrapping::u64_specs::wrapping_mul(vstd::wrapping::u64_specs::wrapping_mul(vstd::wrapping::u64_specs::wrapping_mul(vstd::wrapping::u64_specs::wrapping_mul(vstd::wrapping::u64_specs::wrapping_mul(vstd::wrapping::u64_specs::wrapping_mul(vstd::wrapping::u64_specs::wrapping_mul(0xcbf2_9ce4_8422_2325u64 ^ 105u64, 0x0000_0100_0000_01b3u64) ^ 110u64, 0x0000_0100_0000_01b3u64) ^ 116u64, 0x0000_0100_0000_01b3u64) ^ 101u64, 0x0000_0100_0000_01b3u64) ^ 110u64, 0x0000_0100_0000_01b3u64) ^ 116u64, 0x0000_0100_0000_01b3u64) ^ 47u64, 0x0000_0100_0000_01b3u64) ^ 112u64, 0x0000_0100_0000_01b3u64) ^ 101u64, 0x0000_0100_0000_01b3u64) ^ 114u64, 0x0000_0100_0000_01b3u64) ^ 109u64, 0x0000_0100_0000_01b3u64) ^ 105u64, 0x0000_0100_0000_01b3u64) ^ 116u64, 0x0000_0100_0000_01b3u64) ^ 45u64, 0x0000_0100_0000_01b3u64) ^ 100u64, 0x0000_0100_0000_01b3u64) ^ 104u64, 0x0000_0100_0000_01b3u64) ^ 99u64, 0x0000_0100_0000_01b3u64) ^ 112u64, 0x0000_0100_0000_01b3u64) ^ 45u64, 0x0000_0100_0000_01b3u64) ^ 118u64, 0x0000_0100_0000_01b3u64) ^ 52u64, 0x0000_0100_0000_01b3u64) == 0xf9f18c2326f485eu64,
{
}

proof fn lemma_floor_hash_3()
    by (bit_vector)
    ensures
        vstd::wrapping::u64_specs::wrapping_mul(vstd::wrapping::u64_specs::wrapping_mul(vstd::wrapping::u64_specs::wrapping_mul(vstd::wrapping::u64_specs::wrapping_mul(vstd::wrapping::u64_specs::wrapping_mul(vstd::wrapping::u64_specs::wrapping_mul(vstd::wrapping::u64_specs::wrapping_mul(vstd::wrapping::u64_specs::wrapping_mul(vstd::wrapping::u64_specs::wrapping_mul(vstd::wrapping::u64_specs::wrapping_mul(vstd::wrapping::u64_specs::wrapping_mul(vstd::wrapping::u64_specs::wrapping_mul(vstd::wrapping::u64_specs::wrapping_mul(vstd::wrapping::u64_specs::wrapping_mul(vstd::wrapping::u64_specs::wrapping_mul(vstd::wrapping::u64_specs::wrapping_mul(vstd::wrapping::u64_specs::wrapping_mul(vstd::wrapping::u64_specs::wrapping_mul(vstd::wrapping::u64_specs::wrapping_mul(vstd::wrapping::u64_specs::wrapping_mul(vstd::wrapping::u64_specs::wrapping_mul(0xcbf2_9ce4_8422_2325u64 ^ 105u64, 0x0000_0100_0000_01b3u64) ^ 110u64, 0x0000_0100_0000_01b3u64) ^ 116u64, 0x0000_0100_0000_01b3u64) ^ 101u64, 0x0000_0100_0000_01b3u64) ^ 110u64, 0x0000_0100_0000_01b3u64) ^ 116u64, 0x0000_0100_0000_01b3u64) ^ 47u64, 0x0000_0100_0000_01b3u64) ^ 112u64, 0x0000_0100_0000_01b3u64) ^ 101u64, 0x0000_0100_0000_01b3u64) ^ 114u64, 0x0000_0100_0000_01b3u64) ^ 109u64, 0x0000_0100_0000_01b3u64) ^ 105u64, 0x0000_0100_0000_01b3u64) ^ 116u64, 0x0000_0100_0000_01b3u64) ^ 45u64, 0x0000_0100_0000_01b3u64) ^ 100u64, 0x0000_0100_0000_01b3u64) ^ 104u64, 0x0000_0100_0000_01b3u64) ^ 99u64, 0x0000_0100_0000_01b3u64) ^ 112u64, 0x0000_0100_0000_01b3u64) ^ 45u64, 0x0000_0100_0000_01b3u64) ^ 118u64, 0x0000_0100_0000_01b3u64) ^ 54u64, 0x0000_0100_0000_01b3u64) == 0xf9f16c2326f44f8u64,
{
}

proof fn lemma_floor_hash_4()
    by (bit_vector)
    ensures
        vstd::wrapping::u64_specs::wrapping_mul(vstd::wrapping::u64_specs::wrapping_mul(vstd::wrapping::u64_specs::wrapping_mul(vstd::wrapping::u64_specs::wrapping_mul(vstd::wrapping::u64_specs::wrapping_mul(vstd::wrapping::u64_specs::wrapping_mul(vstd::wrapping::u64_specs::wrapping_mul(vstd::wrapping::u64_specs::wrapping_mul(vstd::wrapping::u64_specs::wrapping_mul(vstd::wrapping::u64_specs::wrapping_mul(vstd::wrapping::u64_specs::wrapping_mul(vstd::wrapping::u64_specs::wrapping_mul(vstd::wrapping::u64_specs::wrapping_mul(vstd::wrapping::u64_specs::wrapping_mul(vstd::wrapping::u64_specs::wrapping_mul(vstd::wrapping::u64_specs::wrapping_mul(vstd::wrapping::u64_specs::wrapping_mul(vstd::wrapping::u64_specs::wrapping_mul(vstd::wrapping::u64_specs::wrapping_mul(vstd::wrapping::u64_specs::wrapping_mul(vstd::wrapping::u64_specs::wrapping_mul(0xcbf2_9ce4_8422_2325u64 ^ 105u64, 0x0000_0100_0000_01b3u64) ^ 110u64, 0x0000_0100_0000_01b3u64) ^ 116u64, 0x0000_0100_0000_01b3u64) ^ 101u64, 0x0000_0100_0000_01b3u64) ^ 110u64, 0x0000_0100_0000_01b3u64) ^ 116u64, 0x0000_0100_0000_01b3u64) ^ 47u64, 0x0000_0100_0000_01b3u64) ^ 112u64, 0x0000_0100_0000_01b3u64) ^ 101u64, 0x0000_0100_0000_01b3u64) ^ 114u64, 0x0000_0100_0000_01b3u64) ^ 109u64, 0x0000_0100_0000_01b3u64) ^ 105u64, 0x0000_0100_0000_01b3u64) ^ 116u64, 0x0000_0100_0000_01b3u64) ^ 45u64, 0x0000_0100_0000_01b3u64) ^ 110u64, 0x0000_0100_0000_01b3u64) ^ 100u64, 0x0000_0100_0000_01b3u64) ^ 112u64, 0x0000_0100_0000_01b3u64) ^ 45u64, 0x0000_0100_0000_01b3u64) ^ 111u64, 0x0000_0100_0000_01b3u64) ^ 117u64, 0x0000_0100_0000_01b3u64) ^ 116u64, 0x0000_0100_0000_01b3u64) == 0xdc035c70bc3dadedu64,
{
}

proof fn lemma_floor_hash_5()
    by (bit_vector)
    ensures
        vstd::wrapping::u64_specs::wrapping_mul(vstd::wrapping::u64_specs::wrapping_mul(vstd::wrapping::u64_specs::wrapping_mul(vstd::wrapping::u64_specs::wrapping_mul(vstd::wrapping::u64_specs::wrapping_mul(vstd::wrapping::u64_specs::wrapping_mul(vstd::wrapping::u64_specs::wrapping_mul(vstd::wrapping::u64_specs::wrapping_mul(vstd::wrapping::u64_specs::wrapping_mul(vstd::wrapping::u64_specs::wrapping_mul(vstd::wrapping::u64_specs::wrapping_mul(vstd::wrapping::u64_specs::wrapping_mul(vstd::wrapping::u64_specs::wrapping_mul(vstd::wrapping::u64_specs::wrapping_mul(vstd::wrapping::u64_specs::wrapping_mul(vstd::wrapping::u64_specs::wrapping_mul(vstd::wrapping::u64_specs::wrapping_mul(vstd::wrapping::u64_specs::wrapping_mul(vstd::wrapping::u64_specs::wrapping_mul(vstd::wrapping::u64_specs::wrapping_mul(0xcbf2_9ce4_8422_2325u64 ^ 105u64, 0x0000_0100_0000_01b3u64) ^ 110u64, 0x0000_0100_0000_01b3u64) ^ 116u64, 0x0000_0100_0000_01b3u64) ^ 101u64, 0x0000_0100_0000_01b3u64) ^ 110u64, 0x0000_0100_0000_01b3u64) ^ 116u64, 0x0000_0100_0000_01b3u64) ^ 47u64, 0x0000_0100_0000_01b3u64) ^ 112u64, 0x0000_0100_0000_01b3u64) ^ 101u64, 0x0000_0100_0000_01b3u64) ^ 114u64, 0x0000_0100_0000_01b3u64) ^ 109u64, 0x0000_0100_0000_01b3u64) ^ 105u64, 0x0000_0100_0000_01b3u64) ^ 116u64, 0x0000_0100_0000_01b3u64) ^ 45u64, 0x0000_0100_0000_01b3u64) ^ 110u64, 0x0000_0100_0000_01b3u64) ^ 100u64, 0x0000_0100_0000_01b3u64) ^ 112u64, 0x0000_0100_0000_01b3u64) ^ 45u64, 0x0000_0100_0000_01b3u64) ^ 105u64, 0x0000_0100_0000_01b3u64) ^ 110u64, 0x0000_0100_0000_01b3u64) == 0x6d95496f7c957248u64,
{
}

proof fn lemma_floor_hash_6()
    by (bit_vector)
    ensures
        vstd::wrapping::u64_specs::wrapping_mul(vstd::wrapping::u64_specs::wrapping_mul(vstd::wrapping::u64_specs::wrapping_mul(vstd::wrapping::u64_specs::wrapping_mul(vstd::wrapping::u64_specs::wrapping_mul(vstd::wrapping::u64_specs::wrapping_mul(vstd::wrapping::u64_specs::wrapping_mul(vstd::wrapping::u64_specs::wrapping_mul(vstd::wrapping::u64_specs::wrapping_mul(vstd::wrapping::u64_specs::wrapping_mul(vstd::wrapping::u64_specs::wrapping_mul(vstd::wrapping::u64_specs::wrapping_mul(vstd::wrapping::u64_specs::wrapping_mul(vstd::wrapping::u64_specs::wrapping_mul(vstd::wrapping::u64_specs::wrapping_mul(vstd::wrapping::u64_specs::wrapping_mul(vstd::wrapping::u64_specs::wrapping_mul(vstd::wrapping::u64_specs::wrapping_mul(vstd::wrapping::u64_specs::wrapping_mul(0xcbf2_9ce4_8422_2325u64 ^ 105u64, 0x0000_0100_0000_01b3u64) ^ 110u64, 0x0000_0100_0000_01b3u64) ^ 116u64, 0x0000_0100_0000_01b3u64) ^ 101u64, 0x0000_0100_0000_01b3u64) ^ 110u64, 0x0000_0100_0000_01b3u64) ^ 116u64, 0x0000_0100_0000_01b3u64) ^ 47u64, 0x0000_0100_0000_01b3u64) ^ 98u64, 0x0000_0100_0000_01b3u64) ^ 108u64, 0x0000_0100_0000_01b3u64) ^ 111u64, 0x0000_0100_0000_01b3u64) ^ 99u64, 0x0000_0100_0000_01b3u64) ^ 107u64, 0x0000_0100_0000_01b3u64) ^ 45u64, 0x0000_0100_0000_01b3u64) ^ 97u64, 0x0000_0100_0000_01b3u64) ^ 108u64, 0x0000_0100_0000_01b3u64) ^ 108u64, 0x0000_0100_0000_01b3u64) ^ 45u64, 0x0000_0100_0000_01b3u64) ^ 118u64, 0x0000_0100_0000_01b3u64) ^ 52u64, 0x0000_0100_0000_01b3u64) == 0xa4e3da6484bde938u64,
{
}

proof fn lemma_floor_hash_7()
    by (bit_vector)
    ensures
        vstd::wrapping::u64_specs::wrapping_mul(vstd::wrapping::u64_specs::wrapping_mul(vstd::wrapping::u64_specs::wrapping_mul(vstd::wrapping::u64_specs::wrapping_mul(vstd::wrapping::u64_specs::wrapping_mul(vstd::wrapping::u64_specs::wrapping_mul(vstd::wrapping::u64_specs::wrapping_mul(vstd::wrapping::u64_specs::wrapping_mul(vstd::wrapping::u64_specs::wrapping_mul(vstd::wrapping::u64_specs::wrapping_mul(vstd::wrapping::u64_specs::wrapping_mul(vstd::wrapping::u64_specs::wrapping_mul(vstd::wrapping::u64_specs::wrapping_mul(vstd::wrapping::u64_specs::wrapping_mul(vstd::wrapping::u64_specs::wrapping_mul(vstd::wrapping::u64_specs::wrapping_mul(vstd::wrapping::u64_specs::wrapping_mul(vstd::wrapping::u64_specs::wrapping_mul(vstd::wrapping::u64_specs::wrapping_mul(0xcbf2_9ce4_8422_2325u64 ^ 105u64, 0x0000_0100_0000_01b3u64) ^ 110u64, 0x0000_0100_0000_01b3u64) ^ 116u64, 0x0000_0100_0000_01b3u64) ^ 101u64, 0x0000_0100_0000_01b3u64) ^ 110u64, 0x0000_0100_0000_01b3u64) ^ 116u64, 0x0000_0100_0000_01b3u64) ^ 47u64, 0x0000_0100_0000_01b3u64) ^ 98u64, 0x0000_0100_0000_01b3u64) ^ 108u64, 0x0000_0100_0000_01b3u64) ^ 111u64, 0x0000_0100_0000_01b3u64) ^ 99u64, 0x0000_0100_0000_01b3u64) ^ 107u64, 0x0000_0100_0000_01b3u64) ^ 45u64, 0x0000_0100_0000_01b3u64) ^ 97u64, 0x0000_0100_0000_01b3u64) ^ 108u64, 0x0000_0100_0000_01b3u64) ^ 108u64, 0x0000_0100_0000_01b3u64) ^ 45u64, 0x0000_0100_0000_01b3u64) ^ 118u64, 0x0000_0100_0000_01b3u64) ^ 54u64, 0x0000_0100_0000_01b3u64) == 0xa4e3dc6484bdec9eu64,
{
}

/// The floor tags' hashes, computed.
pub open spec fn floor_hashes() -> Seq<u64> {
    seq![0xf34b9c8d785c647cu64, 0xf34b9e8d785c67e2u64, 0xf9f18c2326f485eu64, 0xf9f16c2326f44f8u64, 0xdc035c70bc3dadedu64, 0x6d95496f7c957248u64, 0xa4e3da6484bde938u64, 0xa4e3dc6484bdec9eu64]
}

proof fn lemma_tag_hash_0()
    ensures
        tag_hash("intent/permit-loopback-v4"@) == 0xf34b9c8d785c647cu64,
{
    let s = "intent/permit-loopback-v4"@;
    reveal_strlit("intent/permit-loopback-v4");
    assert(ascii_prefix(s, 25)) by {
        reveal_with_fuel(ascii_prefix, 26);
    }
    lemma_fnv_ascii(s, 25);
    assert(s.take(25) =~= s);
    lemma_floor_hash_0();
    assert(fnv_prefix(s, 25) == 0xf34b9c8d785c647cu64) by {
        reveal_with_fuel(fnv_prefix, 26);
    }
}

proof fn lemma_tag_hash_1()
    ensures
        tag_hash("intent/permit-loopback-v6"@) == 0xf34b9e8d785c67e2u64,
{
    let s = "intent/permit-loopback-v6"@;
    reveal_strlit("intent/permit-loopback-v6");
    assert(ascii_prefix(s, 25)) by {
        reveal_with_fuel(ascii_prefix, 26);
    }
    lemma_fnv_ascii(s, 25);
    assert(s.take(25) =~= s);
    lemma_floor_hash_1();
    assert(fnv_prefix(s, 25) == 0xf34b9e8d785c67e2u64) by {
        reveal_with_fuel(fnv_prefix, 26);
    }
}

proof fn lemma_tag_hash_2()
    ensures
        tag_hash("intent/permit-dhcp-v4"@) == 0xf9f18c2326f485eu64,
{
    let s = "intent/permit-dhcp-v4"@;
    reveal_strlit("intent/permit-dhcp-v4");
    assert(ascii_prefix(s, 21)) by {
        reveal_with_fuel(ascii_prefix, 22);
    }
    lemma_fnv_ascii(s, 21);
    assert(s.take(21) =~= s);
    lemma_floor_hash_2();
    assert(fnv_prefix(s, 21) == 0xf9f18c2326f485eu64) by {
        reveal_with_fuel(fnv_prefix, 22);
    }
}

proof fn lemma_tag_hash_3()
    ensures
        tag_hash("intent/permit-dhcp-v6"@) == 0xf9f16c2326f44f8u64,
{
    let s = "intent/permit-dhcp-v6"@;
    reveal_strlit("intent/permit-dhcp-v6");
    assert(ascii_prefix(s, 21)) by {
        reveal_with_fuel(ascii_prefix, 22);
    }
    lemma_fnv_ascii(s, 21);
    assert(s.take(21) =~= s);
    lemma_floor_hash_3();
    assert(fnv_prefix(s, 21) == 0xf9f16c2326f44f8u64) by {
        reveal_with_fuel(fnv_prefix, 22);
    }
}

proof fn lemma_tag_hash_4()
    ensures
        tag_hash("intent/permit-ndp-out"@) == 0xdc035c70bc3dadedu64,
{
    let s = "intent/permit-ndp-out"@;
    reveal_strlit("intent/permit-ndp-out");
    assert(ascii_prefix(s, 21)) by {
        reveal_with_fuel(ascii_prefix, 22);
    }
    lemma_fnv_ascii(s, 21);
    assert(s.take(21) =~= s);
    lemma_floor_hash_4();
    assert(fnv_prefix(s, 21) == 0xdc035c70bc3dadedu64) by {
        reveal_with_fuel(fnv_prefix, 22);
    }
}

proof fn lemma_tag_hash_5()
    ensures
        tag_hash("intent/permit-ndp-in"@) == 0x6d95496f7c957248u64,
{
    let s = "intent/permit-ndp-in"@;
    reveal_strlit("intent/permit-ndp-in");
    assert(ascii_prefix(s, 20)) by {
        reveal_with_fuel(ascii_prefix, 21);
    }
    lemma_fnv_ascii(s, 20);
    assert(s.take(20) =~= s);
    lemma_floor_hash_5();
    assert(fnv_prefix(s, 20) == 0x6d95496f7c957248u64) by {
        reveal_with_fuel(fnv_prefix, 21);
    }
}

proof fn lemma_tag_hash_6()
    ensures
        tag_hash("intent/block-all-v4"@) == 0xa4e3da6484bde938u64,
{
    let s = "intent/block-all-v4"@;
    reveal_strlit("intent/block-all-v4");
    assert(ascii_prefix(s, 19)) by {
        reveal_with_fuel(ascii_prefix, 20);
    }
    lemma_fnv_ascii(s, 19);
    assert(s.take(19) =~= s);
    lemma_floor_hash_6();
    assert(fnv_prefix(s, 19) == 0xa4e3da6484bde938u64) by {
        reveal_with_fuel(fnv_prefix, 20);
    }
}

proof fn lemma_tag_hash_7()
    ensures
        tag_hash("intent/block-all-v6"@) == 0xa4e3dc6484bdec9eu64,
{
    let s = "intent/block-all-v6"@;
    reveal_strlit("intent/block-all-v6");
    assert(ascii_prefix(s, 19)) by {
        reveal_with_fuel(ascii_prefix, 20);
    }
    lemma_fnv_ascii(s, 19);
    assert(s.take(19) =~= s);
    lemma_floor_hash_7();
    assert(fnv_prefix(s, 19) == 0xa4e3dc6484bdec9eu64) by {
        reveal_with_fuel(fnv_prefix, 20);
    }
}

proof fn lemma_floor_tag_hash(i: int)
    requires
        0 <= i < 8,
    ensures
        tag_hash(floor_tags()[i]) == floor_hashes()[i],
{
    lemma_tag_hash_0();
    lemma_tag_hash_1();
    lemma_tag_hash_2();
    lemma_tag_hash_3();
    lemma_tag_hash_4();
    lemma_tag_hash_5();
    lemma_tag_hash_6();
    lemma_tag_hash_7();
}

/// The floor's eight keys are pairwise distinct, and each carries the current table's
/// namespace marker in its high 64 bits.
pub proof fn floor_keys_are_distinct(i: int, j: int)
    requires
        0 <= i < 8,
        0 <= j < 8,
        i != j,
    ensures
        intent_floor_spec()[i].key != intent_floor_spec()[j].key,
        intent_floor_spec()[i].key >> 64u128 == 0x2f7c_9e02_0000_4a6cu128,
{
    floor_keys_are_namespaced(i, j);
    lemma_floor_tag_hash(i);
    lemma_floor_tag_hash(j);
}
} // verus!
