//! The core's endpoint permits, stated on the endpoints' own fields: what each selected proxy
//! endpoint is owed in the session rule set, and that nothing else is scoped to the core.

use crate::ip::IpAddr;
use crate::structure::{EndpointView, KillSwitchStatusMode, ProxyProtocol};
use crate::wfp_model::{
    addr_condition, api_rule, api_rules, direct_rule, direct_rules, dns_block_rules, endpoint_rule,
    endpoint_rules, lemma_rule_fields, parse_endpoint_spec, session_block_all_rules,
    session_rules_spec, tunnel_rules, expected_filters_spec, intent_floor_spec,
    WEIGHT_DNS_BLOCK, WEIGHT_HARD_PERMIT, CondView, FilterAction, FilterView, IpProtocol, LayerKind,
    RuleConfigView,
};
use vstd::prelude::*;

verus! {

/// The conditions of the permit an endpoint is owed, read off the endpoint itself: the core
/// (app-scoped), the endpoint's parsed address as a host match, the endpoint's own transport
/// and port. `None` for an endpoint that renders no permit.
pub open spec fn owed_core_permit(e: EndpointView) -> Option<Seq<CondView>> {
    match parse_endpoint_spec(e) {
        Some((ip, _, _)) => Some(
            seq![
                CondView::AleAppId,
                match ip {
                    IpAddr::V4(a) => CondView::RemoteAddressV4 { addr: a@, prefix: 32 },
                    IpAddr::V6(a) => CondView::RemoteAddressV6 { addr: a@, prefix: 128 },
                },
                CondView::Protocol(
                    match e.protocol {
                        ProxyProtocol::Tcp => IpProtocol::Tcp,
                        ProxyProtocol::Udp => IpProtocol::Udp,
                    },
                ),
                CondView::RemotePort(e.port),
            ],
        ),
        None => None,
    }
}

proof fn lemma_endpoint_rules_owed(app: Seq<char>, eps: Seq<EndpointView>)
    ensures
        forall|i: int|
            0 <= i < eps.len() && (#[trigger] owed_core_permit(eps[i])) is Some ==> exists|j: int|
                0 <= j < endpoint_rules(app, eps).len() && endpoint_rules(app, eps)[j].action
                    == FilterAction::Permit && endpoint_rules(app, eps)[j].conditions
                    == owed_core_permit(eps[i])->Some_0 && Some(endpoint_rules(app, eps)[j].layer)
                    == owed_layer(eps[i]),
        forall|j: int|
            0 <= j < endpoint_rules(app, eps).len() ==> exists|i: int|
                0 <= i < eps.len() && owed_core_permit(eps[i]) == Some(
                    (#[trigger] endpoint_rules(app, eps)[j]).conditions,
                ),
    decreases eps.len(),
{
    broadcast use lemma_rule_fields;

    if eps.len() > 0 {
        let prev = eps.drop_last();
        lemma_endpoint_rules_owed(app, prev);
        let r0 = endpoint_rules(app, prev);
        let r = endpoint_rules(app, eps);
        let e = eps.last();
        assert forall|i: int| 0 <= i < prev.len() implies prev[i] == eps[i] by {}
        match parse_endpoint_spec(e) {
            Some(t) => {
                let f = endpoint_rule(app, t);
                assert(r == r0.push(f));
                assert(f.conditions == seq![CondView::AleAppId, addr_condition(t.0), CondView::Protocol(t.2), CondView::RemotePort(t.1)]);
                assert(owed_core_permit(e) == Some(f.conditions));
                assert(owed_layer(e) == Some(f.layer));
                assert forall|i: int|
                    0 <= i < eps.len() && (#[trigger] owed_core_permit(eps[i])) is Some implies exists|j: int|
                        0 <= j < r.len() && r[j].action == FilterAction::Permit && r[j].conditions
                            == owed_core_permit(eps[i])->Some_0 && Some(r[j].layer) == owed_layer(eps[i]) by {
                    if i == eps.len() - 1 {
                        assert(r[r0.len() as int] == f);
                    } else {
                        assert(owed_core_permit(prev[i]) is Some);
                        let j = choose|j: int|
                            0 <= j < r0.len() && r0[j].action == FilterAction::Permit && r0[j].conditions
                                == owed_core_permit(prev[i])->Some_0 && Some(r0[j].layer) == owed_layer(prev[i]);
                        assert(r[j] == r0[j]);
                    }
                }
                assert forall|j: int| 0 <= j < r.len() implies exists|i: int|
                    0 <= i < eps.len() && owed_core_permit(eps[i]) == Some((#[trigger] r[j]).conditions) by {
                    if j == r0.len() {
                        assert(owed_core_permit(eps[eps.len() - 1]) == Some(r[j].conditions));
                    } else {
                        assert(r[j] == r0[j]);
                        let i = choose|i: int|
                            0 <= i < prev.len() && owed_core_permit(prev[i]) == Some((#[trigger] r0[j]).conditions);
                        assert(eps[i] == prev[i]);
                    }
                }
            },
            None => {
                assert(r == r0);
                assert(owed_core_permit(e) is None);
                assert forall|i: int|
                    0 <= i < eps.len() && (#[trigger] owed_core_permit(eps[i])) is Some implies exists|j: int|
                        0 <= j < r.len() && r[j].action == FilterAction::Permit && r[j].conditions
                            == owed_core_permit(eps[i])->Some_0 && Some(r[j].layer) == owed_layer(eps[i]) by {
                    assert(i != eps.len() - 1);
                    assert(owed_core_permit(prev[i]) is Some);
                }
                assert forall|j: int| 0 <= j < r.len() implies exists|i: int|
                    0 <= i < eps.len() && owed_core_permit(eps[i]) == Some((#[trigger] r[j]).conditions) by {
                    let i = choose|i: int|
                        0 <= i < prev.len() && owed_core_permit(prev[i]) == Some((#[trigger] r0[j]).conditions);
                    assert(eps[i] == prev[i]);
                }
            },
        }
    }
}

/// The connect layer of the endpoint's address family, if it renders a permit.
pub open spec fn owed_layer(e: EndpointView) -> Option<LayerKind> {
    match parse_endpoint_spec(e) {
        Some((IpAddr::V4(_), _, _)) => Some(LayerKind::AleAuthConnectV4),
        Some((IpAddr::V6(_), _, _)) => Some(LayerKind::AleAuthConnectV6),
        None => None,
    }
}

pub open spec fn app_scoped(f: FilterView) -> bool {
    f.conditions.contains(CondView::AleAppId)
}

proof fn lemma_direct_rules_not_app_scoped(eps: Seq<EndpointView>)
    ensures
        forall|i: int| 0 <= i < direct_rules(eps).len() ==> !app_scoped(#[trigger] direct_rules(eps)[i]),
    decreases eps.len(),
{
    broadcast use lemma_rule_fields;

    if eps.len() > 0 {
        lemma_direct_rules_not_app_scoped(eps.drop_last());
        let r0 = direct_rules(eps.drop_last());
        match parse_endpoint_spec(eps.last()) {
            Some(t) => {
                let f = direct_rule(t);
                assert(direct_rules(eps) == r0.push(f));
                assert(f.conditions =~= seq![addr_condition(t.0), CondView::Protocol(t.2), CondView::RemotePort(t.1)]);
                assert(!f.conditions.contains(CondView::AleAppId)) by {
                    if f.conditions.contains(CondView::AleAppId) {
                        let k = choose|k: int| 0 <= k < f.conditions.len() && f.conditions[k] == CondView::AleAppId;
                        assert(k == 0 || k == 1 || k == 2);
                    }
                }
                assert forall|i: int| 0 <= i < direct_rules(eps).len() implies !app_scoped(
                    #[trigger] direct_rules(eps)[i],
                ) by {
                    if i < r0.len() {
                        assert(direct_rules(eps)[i] == r0[i]);
                    }
                }
            },
            None => {
                assert(direct_rules(eps) == r0);
            },
        }
    }
}

proof fn lemma_api_rules_not_app_scoped(ips: Seq<IpAddr>)
    ensures
        forall|i: int| 0 <= i < api_rules(ips).len() ==> !app_scoped(#[trigger] api_rules(ips)[i]),
    decreases ips.len(),
{
    broadcast use lemma_rule_fields;

    if ips.len() > 0 {
        lemma_api_rules_not_app_scoped(ips.drop_last());
        let r0 = api_rules(ips.drop_last());
        let f = api_rule(ips.last());
        assert(api_rules(ips) == r0.push(f));
        assert(f.conditions =~= seq![addr_condition(ips.last()), CondView::Protocol(IpProtocol::Tcp), CondView::RemotePort(443)]);
        assert(!f.conditions.contains(CondView::AleAppId)) by {
            if f.conditions.contains(CondView::AleAppId) {
                let k = choose|k: int| 0 <= k < f.conditions.len() && f.conditions[k] == CondView::AleAppId;
                assert(k == 0 || k == 1 || k == 2);
            }
        }
        assert forall|i: int| 0 <= i < api_rules(ips).len() implies !app_scoped(
            #[trigger] api_rules(ips)[i],
        ) by {
            if i < r0.len() {
                assert(api_rules(ips)[i] == r0[i]);
            }
        }
    }
}

#[verifier::rlimit(50)]
proof fn lemma_endpoints_are_permitted(c: RuleConfigView)
    ensures
        forall|i: int|
            0 <= i < c.endpoints.len() && (#[trigger] owed_core_permit(c.endpoints[i])) is Some
                ==> exists|j: int|
                0 <= j < session_rules_spec(c).len() && session_rules_spec(c)[j].action
                    == FilterAction::Permit && session_rules_spec(c)[j].conditions
                    == owed_core_permit(c.endpoints[i])->Some_0 && Some(session_rules_spec(c)[j].layer)
                    == owed_layer(c.endpoints[i]),
{
    broadcast use lemma_rule_fields;

    lemma_endpoint_rules_owed(c.app_path, c.endpoints);
    lemma_direct_rules_not_app_scoped(c.direct_endpoints);
    lemma_api_rules_not_app_scoped(c.api_host_ips);
    let a = endpoint_rules(c.app_path, c.endpoints);
    let b = tunnel_rules(c);
    let api = if c.mode != KillSwitchStatusMode::Locked {
        api_rules(c.api_host_ips)
    } else {
        seq![]
    };
    let g = if c.mode == KillSwitchStatusMode::Locked {
        direct_rules(c.direct_endpoints)
    } else {
        seq![]
    };
    let d = dns_block_rules();
    let z = session_block_all_rules();
    let s = session_rules_spec(c);
    assert(s == a + b + api + g + d + z);
    assert forall|i: int|
        0 <= i < c.endpoints.len() && (#[trigger] owed_core_permit(c.endpoints[i])) is Some implies exists|j: int|
            0 <= j < s.len() && s[j].action == FilterAction::Permit && s[j].conditions
                == owed_core_permit(c.endpoints[i])->Some_0 && Some(s[j].layer) == owed_layer(c.endpoints[i]) by {
        let j = choose|j: int|
            0 <= j < a.len() && a[j].action == FilterAction::Permit && a[j].conditions
                == owed_core_permit(c.endpoints[i])->Some_0 && Some(a[j].layer) == owed_layer(c.endpoints[i]);
        assert(s[j] == a[j]);
    }
}

#[verifier::rlimit(50)]
proof fn lemma_only_endpoints_are_core_scoped(c: RuleConfigView)
    ensures
        forall|j: int|
            0 <= j < session_rules_spec(c).len() && app_scoped(#[trigger] session_rules_spec(c)[j])
                ==> exists|i: int|
                0 <= i < c.endpoints.len() && owed_core_permit(c.endpoints[i]) == Some(
                    session_rules_spec(c)[j].conditions,
                ),
{
    broadcast use lemma_rule_fields;

    lemma_endpoint_rules_owed(c.app_path, c.endpoints);
    lemma_direct_rules_not_app_scoped(c.direct_endpoints);
    lemma_api_rules_not_app_scoped(c.api_host_ips);
    let a = endpoint_rules(c.app_path, c.endpoints);
    let b = tunnel_rules(c);
    let api = if c.mode != KillSwitchStatusMode::Locked {
        api_rules(c.api_host_ips)
    } else {
        seq![]
    };
    let g = if c.mode == KillSwitchStatusMode::Locked {
        direct_rules(c.direct_endpoints)
    } else {
        seq![]
    };
    let d = dns_block_rules();
    let z = session_block_all_rules();
    let s = session_rules_spec(c);
    assert(s == a + b + api + g + d + z);
    assert forall|j: int| 0 <= j < s.len() && app_scoped(#[trigger] s[j]) implies exists|i: int|
        0 <= i < c.endpoints.len() && owed_core_permit(c.endpoints[i]) == Some(s[j].conditions) by {
        if j < a.len() {
            assert(s[j] == a[j]);
        } else {
            let f = s[j];
            let k = choose|k: int| 0 <= k < f.conditions.len() && f.conditions[k] == CondView::AleAppId;
            if j < a.len() + b.len() {
                assert(f == b[j - a.len()]);
                assert(f.conditions =~= seq![CondView::LocalInterface(c.tun_luid->0)]);
            } else if j < a.len() + b.len() + api.len() {
                assert(f == api[j - a.len() - b.len()]);
            } else if j < a.len() + b.len() + api.len() + g.len() {
                assert(f == g[j - a.len() - b.len() - api.len()]);
            } else if j < a.len() + b.len() + api.len() + g.len() + d.len() {
                let m = j - a.len() - b.len() - api.len() - g.len();
                assert(f == d[m]);
                assert(f.conditions.len() == 2);
            } else {
                let m = j - a.len() - b.len() - api.len() - g.len() - d.len();
                assert(f == z[m]);
                assert(f.conditions.len() == 0);
            }
        }
    }
}

/// The core reaches each selected endpoint on exactly that endpoint's tuple: for every
/// endpoint that renders a permit, the session set holds a permit scoped to the core, to the
/// endpoint's address, to the endpoint's own transport (UDP for a UDP endpoint, TCP for a TCP
/// one) and to its port, on the connect layer of the address's family; and every core-scoped filter of the session set is such a permit of
/// one of the selected endpoints.
pub proof fn the_core_reaches_each_endpoint_on_its_own_tuple(c: RuleConfigView)
    ensures
        forall|i: int|
            0 <= i < c.endpoints.len() && (#[trigger] owed_core_permit(c.endpoints[i])) is Some
                ==> exists|j: int|
                0 <= j < session_rules_spec(c).len() && session_rules_spec(c)[j].action
                    == FilterAction::Permit && session_rules_spec(c)[j].conditions
                    == owed_core_permit(c.endpoints[i])->Some_0 && Some(session_rules_spec(c)[j].layer)
                    == owed_layer(c.endpoints[i]),
        forall|j: int|
            0 <= j < session_rules_spec(c).len() && app_scoped(#[trigger] session_rules_spec(c)[j])
                ==> exists|i: int|
                0 <= i < c.endpoints.len() && owed_core_permit(c.endpoints[i]) == Some(
                    session_rules_spec(c)[j].conditions,
                ),
{
    lemma_endpoints_are_permitted(c);
    lemma_only_endpoints_are_core_scoped(c);
}

proof fn lemma_endpoint_rules_are_hard_permits(app: Seq<char>, eps: Seq<EndpointView>)
    ensures
        forall|j: int|
            0 <= j < endpoint_rules(app, eps).len() ==> (#[trigger] endpoint_rules(app, eps)[j]).weight
                == WEIGHT_HARD_PERMIT && endpoint_rules(app, eps)[j].action == FilterAction::Permit,
    decreases eps.len(),
{
    broadcast use lemma_rule_fields;

    if eps.len() > 0 {
        lemma_endpoint_rules_are_hard_permits(app, eps.drop_last());
        let r0 = endpoint_rules(app, eps.drop_last());
        match parse_endpoint_spec(eps.last()) {
            Some(t) => {
                assert(endpoint_rules(app, eps) == r0.push(endpoint_rule(app, t)));
                assert forall|j: int| 0 <= j < endpoint_rules(app, eps).len() implies (
                #[trigger] endpoint_rules(app, eps)[j]).weight == WEIGHT_HARD_PERMIT
                    && endpoint_rules(app, eps)[j].action == FilterAction::Permit by {
                    if j < r0.len() {
                        assert(endpoint_rules(app, eps)[j] == r0[j]);
                    }
                }
            },
            None => {
                assert(endpoint_rules(app, eps) == r0);
            },
        }
    }
}

proof fn lemma_direct_rules_permit(eps: Seq<EndpointView>)
    ensures
        forall|j: int| 0 <= j < direct_rules(eps).len() ==> (#[trigger] direct_rules(eps)[j]).action == FilterAction::Permit,
    decreases eps.len(),
{
    broadcast use lemma_rule_fields;

    if eps.len() > 0 {
        lemma_direct_rules_permit(eps.drop_last());
        let r0 = direct_rules(eps.drop_last());
        match parse_endpoint_spec(eps.last()) {
            Some(t) => {
                assert(direct_rules(eps) == r0.push(direct_rule(t)));
                assert forall|j: int| 0 <= j < direct_rules(eps).len() implies (
                #[trigger] direct_rules(eps)[j]).action == FilterAction::Permit by {
                    if j < r0.len() {
                        assert(direct_rules(eps)[j] == r0[j]);
                    }
                }
            },
            None => {
                assert(direct_rules(eps) == r0);
            },
        }
    }
}

proof fn lemma_api_rules_permit(ips: Seq<IpAddr>)
    ensures
        forall|j: int| 0 <= j < api_rules(ips).len() ==> (#[trigger] api_rules(ips)[j]).action == FilterAction::Permit,
    decreases ips.len(),
{
    broadcast use lemma_rule_fields;

    if ips.len() > 0 {
        lemma_api_rules_permit(ips.drop_last());
        let r0 = api_rules(ips.drop_last());
        assert(api_rules(ips) == r0.push(api_rule(ips.last())));
        assert forall|j: int| 0 <= j < api_rules(ips).len() implies (#[trigger] api_rules(ips)[j]).action
            == FilterAction::Permit by {
            if j < r0.len() {
                assert(api_rules(ips)[j] == r0[j]);
            }
        }
    }
}

/// A filter of the expected set that blocks weighs at most the DNS block; one scoped to the
/// core is a hard permit.
#[verifier::rlimit(50)]
proof fn lemma_expected_weights(c: RuleConfigView)
    ensures
        forall|k: int|
            0 <= k < expected_filters_spec(c).len() && (#[trigger] expected_filters_spec(c)[k]).action
                == FilterAction::Block ==> expected_filters_spec(c)[k].weight <= WEIGHT_DNS_BLOCK,
        forall|j: int|
            0 <= j < expected_filters_spec(c).len() && app_scoped(#[trigger] expected_filters_spec(c)[j])
                ==> expected_filters_spec(c)[j].weight == WEIGHT_HARD_PERMIT,
{
    broadcast use lemma_rule_fields;

    lemma_endpoint_rules_are_hard_permits(c.app_path, c.endpoints);
    lemma_direct_rules_permit(c.direct_endpoints);
    lemma_api_rules_permit(c.api_host_ips);
    lemma_only_endpoints_are_core_scoped(c);
    let fl = intent_floor_spec();
    let a = endpoint_rules(c.app_path, c.endpoints);
    let b = tunnel_rules(c);
    let api = if c.mode != KillSwitchStatusMode::Locked {
        api_rules(c.api_host_ips)
    } else {
        seq![]
    };
    let g = if c.mode == KillSwitchStatusMode::Locked {
        direct_rules(c.direct_endpoints)
    } else {
        seq![]
    };
    let d = dns_block_rules();
    let z = session_block_all_rules();
    let s = session_rules_spec(c);
    let e = expected_filters_spec(c);
    assert(s == a + b + api + g + d + z);
    assert(e == fl + s);
    assert forall|k: int| 0 <= k < e.len() && (#[trigger] e[k]).action == FilterAction::Block implies e[k].weight
        <= WEIGHT_DNS_BLOCK by {
        if k < 8 {
            assert(e[k] == fl[k]);
        } else {
            let m = k - 8;
            assert(e[k] == s[m]);
            if m < a.len() {
                assert(s[m] == a[m]);
            } else if m < a.len() + b.len() {
                assert(s[m] == b[m - a.len()]);
            } else if m < a.len() + b.len() + api.len() {
                assert(s[m] == api[m - a.len() - b.len()]);
            } else if m < a.len() + b.len() + api.len() + g.len() {
                assert(s[m] == g[m - a.len() - b.len() - api.len()]);
            } else if m < a.len() + b.len() + api.len() + g.len() + d.len() {
                assert(s[m] == d[m - a.len() - b.len() - api.len() - g.len()]);
            } else {
                assert(s[m] == z[m - a.len() - b.len() - api.len() - g.len() - d.len()]);
            }
        }
    }
    assert forall|j: int| 0 <= j < e.len() && app_scoped(#[trigger] e[j]) implies e[j].weight
        == WEIGHT_HARD_PERMIT by {
        let f = e[j];
        let k = choose|k: int| 0 <= k < f.conditions.len() && f.conditions[k] == CondView::AleAppId;
        if j < 8 {
            assert(f == fl[j]);
            assert(f.conditions.len() <= 3);
            assert(k == 0 || k == 1 || k == 2);
        } else {
            let m = j - 8;
            assert(f == s[m]);
            assert(app_scoped(s[m]));
            if m < a.len() {
                assert(s[m] == a[m]);
            } else {
                let i = choose|i: int|
                    0 <= i < c.endpoints.len() && owed_core_permit(c.endpoints[i]) == Some(s[m].conditions);
                assert(false) by {
                    if m < a.len() + b.len() {
                        assert(s[m] == b[m - a.len()]);
                        assert(f.conditions =~= seq![CondView::LocalInterface(c.tun_luid->0)]);
                    } else if m < a.len() + b.len() + api.len() {
                        assert(s[m] == api[m - a.len() - b.len()]);
                        lemma_api_rules_not_app_scoped(c.api_host_ips);
                    } else if m < a.len() + b.len() + api.len() + g.len() {
                        assert(s[m] == g[m - a.len() - b.len() - api.len()]);
                        lemma_direct_rules_not_app_scoped(c.direct_endpoints);
                    } else if m < a.len() + b.len() + api.len() + g.len() + d.len() {
                        assert(s[m] == d[m - a.len() - b.len() - api.len() - g.len()]);
                        assert(f.conditions.len() == 2);
                    } else {
                        assert(s[m] == z[m - a.len() - b.len() - api.len() - g.len() - d.len()]);
                        assert(f.conditions.len() == 0);
                    }
                }
            }
        }
    }
}

/// A core permit outweighs every block of the expected set, floor and session alike, so the
/// core's own traffic to its endpoints wins the sub-layer's weight arbitration.
pub proof fn core_permits_outweigh_every_block(c: RuleConfigView)
    ensures
        forall|j: int, k: int|
            0 <= j < expected_filters_spec(c).len() && 0 <= k < expected_filters_spec(c).len()
                && app_scoped(#[trigger] expected_filters_spec(c)[j]) && (#[trigger] expected_filters_spec(c)[k]).action
                == FilterAction::Block ==> expected_filters_spec(c)[j].weight > expected_filters_spec(c)[k].weight,
{
    lemma_expected_weights(c);
}

} // verus!
