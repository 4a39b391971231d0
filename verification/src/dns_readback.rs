//! What the DNS registry plans and the restore proof mean, stated on the adapters' saved and
//! read-back values themselves: a restore plan puts every saved value back, a protection plan
//! points every value at the loopback core, a proven restore read back every saved value, and
//! a protected adapter names no resolver but the loopback core.

use crate::dns::{
    find_first, name_servers, registry_restore_spec, restore_is_proven_spec, values_match,
    AdapterView, SnapshotView, LOOPBACK_V4, LOOPBACK_V6, NO_NAME_SERVERS,
};
use crate::dns_live::{
    adapter_protected_spec, loopback_ops_spec, restore_ops_spec, RegistryOpView, NAME_SERVER,
    PROFILE_NAME_SERVER, TCPIP4_INTERFACES, TCPIP6_INTERFACES,
};
use vstd::prelude::*;

verus! {

// ---------------------------------------------------------------------------------------------
// The registry a plan acts on
// ---------------------------------------------------------------------------------------------

/// Registry values by (subkey, value name).
pub type Registry = Map<(Seq<char>, Seq<char>), Seq<char>>;

/// The registry after a plan's operations, in order: a write sets the value, a delete removes it.
pub open spec fn apply_registry_ops(reg: Registry, ops: Seq<RegistryOpView>) -> Registry
    decreases ops.len(),
{
    if ops.len() == 0 {
        reg
    } else {
        let before = apply_registry_ops(reg, ops.drop_last());
        match ops.last() {
            RegistryOpView::Write { subkey, value, data } => before.insert((subkey, value), data),
            RegistryOpView::Delete { subkey, value } => before.remove((subkey, value)),
        }
    }
}

/// What reading one value gives: its data, or `None` where it is absent.
pub open spec fn read_value(reg: Registry, subkey: Seq<char>, value: Seq<char>) -> Option<Seq<char>> {
    if reg.dom().contains((subkey, value)) {
        Some(reg[(subkey, value)])
    } else {
        None
    }
}

pub open spec fn v4_subkey(guid: Seq<char>) -> Seq<char> {
    TCPIP4_INTERFACES@ + "\\"@ + guid
}

pub open spec fn v6_subkey(guid: Seq<char>) -> Seq<char> {
    TCPIP6_INTERFACES@ + "\\"@ + guid
}

/// The four values a plan for this adapter may touch.
pub open spec fn touched(guid: Seq<char>, subkey: Seq<char>, value: Seq<char>) -> bool {
    (subkey == v4_subkey(guid) || subkey == v6_subkey(guid)) && (value == NAME_SERVER@ || value
        == PROFILE_NAME_SERVER@)
}

proof fn lemma_distinct_names(guid: Seq<char>)
    ensures
        NAME_SERVER@ != PROFILE_NAME_SERVER@,
        v4_subkey(guid) != v6_subkey(guid),
{
    reveal_strlit("NameServer");
    reveal_strlit("ProfileNameServer");
    reveal_strlit("SYSTEM\\CurrentControlSet\\Services\\Tcpip\\Parameters\\Interfaces");
    reveal_strlit("SYSTEM\\CurrentControlSet\\Services\\Tcpip6\\Parameters\\Interfaces");
    assert(NAME_SERVER@.len() != PROFILE_NAME_SERVER@.len());
    assert(v4_subkey(guid).len() != v6_subkey(guid).len());
}

/// Applying two sequences of operations is applying the first, then the second.
proof fn lemma_apply_concat(reg: Registry, a: Seq<RegistryOpView>, b: Seq<RegistryOpView>)
    ensures
        apply_registry_ops(reg, a + b) == apply_registry_ops(apply_registry_ops(reg, a), b),
    decreases b.len(),
{
    if b.len() == 0 {
        assert(a + b =~= a);
    } else {
        assert((a + b).drop_last() =~= a + b.drop_last());
        assert((a + b).last() == b.last());
        lemma_apply_concat(reg, a, b.drop_last());
    }
}

/// Applying a two-step family plan for `subkey`.
proof fn lemma_apply_pair(reg: Registry, o1: RegistryOpView, o2: RegistryOpView)
    ensures
        apply_registry_ops(reg, seq![o1, o2]) == apply_registry_ops(
            apply_registry_ops(reg, seq![o1]),
            seq![o2],
        ),
{
    lemma_apply_concat(reg, seq![o1], seq![o2]);
    assert(seq![o1] + seq![o2] =~= seq![o1, o2]);
}

proof fn lemma_apply_one(reg: Registry, o: RegistryOpView)
    ensures
        apply_registry_ops(reg, seq![o]) == match o {
            RegistryOpView::Write { subkey, value, data } => reg.insert((subkey, value), data),
            RegistryOpView::Delete { subkey, value } => reg.remove((subkey, value)),
        },
{
    assert(seq![o].drop_last() =~= Seq::<RegistryOpView>::empty());
    assert(apply_registry_ops(reg, seq![o].drop_last()) == reg);
    assert(seq![o].last() == o);
}

/// The effect of one family's two restore or protection steps on the registry.
proof fn lemma_family(
    reg: Registry,
    subkey: Seq<char>,
    ops: Seq<RegistryOpView>,
    first: Option<Seq<char>>,
    second: Option<Seq<char>>,
)
    requires
        NAME_SERVER@ != PROFILE_NAME_SERVER@,
        ops.len() == 2,
        ops[0] == (match first {
            Some(d) => RegistryOpView::Write { subkey, value: NAME_SERVER@, data: d },
            None => RegistryOpView::Delete { subkey, value: NAME_SERVER@ },
        }),
        ops[1] == (match second {
            Some(d) => RegistryOpView::Write { subkey, value: PROFILE_NAME_SERVER@, data: d },
            None => RegistryOpView::Delete { subkey, value: PROFILE_NAME_SERVER@ },
        }),
    ensures
        read_value(apply_registry_ops(reg, ops), subkey, NAME_SERVER@) == first,
        read_value(apply_registry_ops(reg, ops), subkey, PROFILE_NAME_SERVER@) == second,
        forall|k: Seq<char>, v: Seq<char>|
            !(k == subkey && (v == NAME_SERVER@ || v == PROFILE_NAME_SERVER@)) ==> #[trigger] read_value(
                apply_registry_ops(reg, ops),
                k,
                v,
            ) == read_value(reg, k, v),
{
    let o1 = ops[0];
    let o2 = ops[1];
    assert(ops =~= seq![o1, o2]);
    lemma_apply_pair(reg, o1, o2);
    let mid = apply_registry_ops(reg, seq![o1]);
    lemma_apply_one(reg, o1);
    lemma_apply_one(mid, o2);
}

// ---------------------------------------------------------------------------------------------
// Laws of the registry plans
// ---------------------------------------------------------------------------------------------

/// A restore plan puts back exactly what the snapshot saved: after it, each value of each
/// family whose key exists reads back the adapter's saved value of that family and name (a
/// saved absence is deleted), and no other value changes.
pub proof fn a_restore_plan_reads_back_the_saved_values(
    reg: Registry,
    a: AdapterView,
    has_v4: bool,
    has_v6: bool,
)
    ensures
        ({
            let after = apply_registry_ops(reg, restore_ops_spec(a, has_v4, has_v6));
            &&& has_v4 ==> read_value(after, v4_subkey(a.guid), NAME_SERVER@) == a.v4
            &&& has_v4 ==> read_value(after, v4_subkey(a.guid), PROFILE_NAME_SERVER@) == a.v4_profile
            &&& has_v6 ==> read_value(after, v6_subkey(a.guid), NAME_SERVER@) == a.v6
            &&& has_v6 ==> read_value(after, v6_subkey(a.guid), PROFILE_NAME_SERVER@) == a.v6_profile
            &&& forall|k: Seq<char>, v: Seq<char>|
                !(k == v4_subkey(a.guid) && has_v4 && (v == NAME_SERVER@ || v == PROFILE_NAME_SERVER@))
                    && !(k == v6_subkey(a.guid) && has_v6 && (v == NAME_SERVER@ || v
                    == PROFILE_NAME_SERVER@)) ==> #[trigger] read_value(after, k, v) == read_value(reg, k, v)
        }),
{
    lemma_distinct_names(a.guid);
    let k4 = v4_subkey(a.guid);
    let k6 = v6_subkey(a.guid);
    let ops = restore_ops_spec(a, has_v4, has_v6);
    let p4: Seq<RegistryOpView> = if has_v4 {
        seq![crate::dns_live::restore_op_spec(k4, NAME_SERVER@, a.v4), crate::dns_live::restore_op_spec(k4, PROFILE_NAME_SERVER@, a.v4_profile)]
    } else {
        seq![]
    };
    let p6: Seq<RegistryOpView> = if has_v6 {
        seq![crate::dns_live::restore_op_spec(k6, NAME_SERVER@, a.v6), crate::dns_live::restore_op_spec(k6, PROFILE_NAME_SERVER@, a.v6_profile)]
    } else {
        seq![]
    };
    assert(ops == p4 + p6);
    lemma_apply_concat(reg, p4, p6);
    let mid = apply_registry_ops(reg, p4);
    if has_v4 {
        lemma_family(reg, k4, p4, a.v4, a.v4_profile);
    } else {
        assert(mid == reg);
    }
    if has_v6 {
        lemma_family(mid, k6, p6, a.v6, a.v6_profile);
    } else {
        assert(apply_registry_ops(mid, p6) == mid);
    }
}

/// A protection plan points the adapter at the loopback core: after it, both IPv4 values
/// read `127.0.0.1` and both IPv6 values an empty server list, for each family whose key
/// exists, and no other value changes.
pub proof fn a_protection_plan_points_at_the_loopback_core(
    reg: Registry,
    guid: Seq<char>,
    has_v4: bool,
    has_v6: bool,
)
    ensures
        ({
            let after = apply_registry_ops(reg, loopback_ops_spec(guid, has_v4, has_v6));
            &&& has_v4 ==> read_value(after, v4_subkey(guid), NAME_SERVER@) == Some(LOOPBACK_V4@)
            &&& has_v4 ==> read_value(after, v4_subkey(guid), PROFILE_NAME_SERVER@) == Some(
                LOOPBACK_V4@,
            )
            &&& has_v6 ==> read_value(after, v6_subkey(guid), NAME_SERVER@) == Some(NO_NAME_SERVERS@)
            &&& has_v6 ==> read_value(after, v6_subkey(guid), PROFILE_NAME_SERVER@) == Some(
                NO_NAME_SERVERS@,
            )
            &&& forall|k: Seq<char>, v: Seq<char>|
                !(k == v4_subkey(guid) && has_v4 && (v == NAME_SERVER@ || v == PROFILE_NAME_SERVER@))
                    && !(k == v6_subkey(guid) && has_v6 && (v == NAME_SERVER@ || v
                    == PROFILE_NAME_SERVER@)) ==> #[trigger] read_value(after, k, v) == read_value(reg, k, v)
        }),
{
    lemma_distinct_names(guid);
    let k4 = v4_subkey(guid);
    let k6 = v6_subkey(guid);
    let ops = loopback_ops_spec(guid, has_v4, has_v6);
    let p4: Seq<RegistryOpView> = if has_v4 {
        seq![
            RegistryOpView::Write { subkey: k4, value: NAME_SERVER@, data: LOOPBACK_V4@ },
            RegistryOpView::Write { subkey: k4, value: PROFILE_NAME_SERVER@, data: LOOPBACK_V4@ },
        ]
    } else {
        seq![]
    };
    let p6: Seq<RegistryOpView> = if has_v6 {
        seq![
            RegistryOpView::Write { subkey: k6, value: NAME_SERVER@, data: NO_NAME_SERVERS@ },
            RegistryOpView::Write { subkey: k6, value: PROFILE_NAME_SERVER@, data: NO_NAME_SERVERS@ },
        ]
    } else {
        seq![]
    };
    assert(ops == p4 + p6);
    lemma_apply_concat(reg, p4, p6);
    let mid = apply_registry_ops(reg, p4);
    if has_v4 {
        lemma_family(reg, k4, p4, Some(LOOPBACK_V4@), Some(LOOPBACK_V4@));
    } else {
        assert(mid == reg);
    }
    if has_v6 {
        lemma_family(mid, k6, p6, Some(NO_NAME_SERVERS@), Some(NO_NAME_SERVERS@));
    } else {
        assert(apply_registry_ops(mid, p6) == mid);
    }
}

// ---------------------------------------------------------------------------------------------
// The restore proof, on the read-back values
// ---------------------------------------------------------------------------------------------

/// `j` is the first read-back entry for this GUID.
pub open spec fn first_entry(current: Seq<AdapterView>, guid: Seq<char>, j: int) -> bool {
    &&& 0 <= j < current.len()
    &&& current[j].guid == guid
    &&& forall|k: int| 0 <= k < j ==> current[k].guid != guid
}

proof fn lemma_find_first_index(current: Seq<AdapterView>, g: Seq<char>)
    ensures
        find_first(current, g) is None ==> forall|k: int|
            0 <= k < current.len() ==> (#[trigger] current[k]).guid != g,
        forall|j: int| #[trigger] first_entry(current, g, j) ==> find_first(current, g) == Some(current[j]),
        find_first(current, g) matches Some(x) ==> exists|j: int|
            #[trigger] first_entry(current, g, j) && current[j] == x,
    decreases current.len(),
{
    if current.len() > 0 {
        let rest = current.drop_first();
        lemma_find_first_index(rest, g);
        assert forall|k: int| 0 <= k < rest.len() implies rest[k] == current[k + 1] by {}
        if current[0].guid == g {
            assert(first_entry(current, g, 0));
            assert forall|j: int| #[trigger] first_entry(current, g, j) implies find_first(current, g)
                == Some(current[j]) by {
                if j > 0 {
                    assert(current[0].guid != g);
                }
            }
        } else {
            assert forall|j: int| #[trigger] first_entry(current, g, j) implies find_first(current, g)
                == Some(current[j]) by {
                assert(j > 0);
                assert(first_entry(rest, g, j - 1));
            }
            if find_first(current, g) is Some {
                let x = find_first(current, g)->Some_0;
                let j = choose|j: int| #[trigger] first_entry(rest, g, j) && rest[j] == x;
                assert(current[j + 1] == rest[j]);
                assert forall|k: int| 0 <= k < j + 1 implies current[k].guid != g by {
                    if k > 0 {
                        assert(current[k] == rest[k - 1]);
                    }
                }
                assert(first_entry(current, g, j + 1));
            }
            if find_first(current, g) is None {
                assert forall|k: int| 0 <= k < current.len() implies (#[trigger] current[k]).guid != g by {
                    if k > 0 {
                        assert(current[k] == rest[k - 1]);
                    }
                }
            }
        }
    }
}

/// The saved values of `saved` read back in `current`: the same four name-server values.
pub open spec fn reads_back(saved: AdapterView, current: AdapterView) -> bool {
    &&& current.v4 == saved.v4
    &&& current.v4_profile == saved.v4_profile
    &&& current.v6 == saved.v6
    &&& current.v6_profile == saved.v6_profile
}

/// A restore counts as proven exactly when nothing is left resolving through the loopback
/// core and every snapshotted adapter still present reads back, at its first entry by GUID, all
/// four of its saved values: IPv4 and IPv6, `NameServer` and `ProfileNameServer`.
pub proof fn a_proven_restore_read_back_every_saved_value(
    snapshot: SnapshotView,
    current: Seq<AdapterView>,
    live_loopback: Option<bool>,
)
    ensures
        restore_is_proven_spec(snapshot, current, live_loopback) <==> (live_loopback == Some(false)
            && forall|i: int, j: int|
            0 <= i < snapshot.adapters.len() && #[trigger] first_entry(
                current,
                snapshot.adapters[i].guid,
                j,
            ) ==> reads_back(snapshot.adapters[i], current[j])),
{
    let s = snapshot.adapters;
    if registry_restore_spec(snapshot, current) {
        assert forall|i: int, j: int|
            0 <= i < s.len() && #[trigger] first_entry(current, s[i].guid, j) implies reads_back(
            s[i],
            current[j],
        ) by {
            lemma_find_first_index(current, s[i].guid);
            assert(find_first(current, s[i].guid) == Some(current[j]));
            assert(values_match(s[i], current[j]));
        }
    }
    if forall|i: int, j: int|
        0 <= i < s.len() && #[trigger] first_entry(current, s[i].guid, j) ==> reads_back(
            s[i],
            current[j],
        ) {
        assert forall|i: int| 0 <= i < s.len() implies match find_first(
            current,
            (#[trigger] s[i]).guid,
        ) {
            None => true,
            Some(a) => values_match(s[i], a),
        } by {
            lemma_find_first_index(current, s[i].guid);
            if find_first(current, s[i].guid) is Some {
                let x = find_first(current, s[i].guid)->Some_0;
                let j = choose|j: int| #[trigger] first_entry(current, s[i].guid, j) && current[j] == x;
                assert(reads_back(s[i], current[j]));
            }
        }
    }
}

// ---------------------------------------------------------------------------------------------
// The protected state, on the resolvers a value names
// ---------------------------------------------------------------------------------------------

/// Every resolver the value names is the loopback core.
pub open spec fn names_only_loopback(value: Seq<char>) -> bool {
    forall|i: int|
        0 <= i < name_servers(value).len() ==> (#[trigger] name_servers(value)[i] == LOOPBACK_V4@
            || name_servers(value)[i] == LOOPBACK_V6@)
}

/// An adapter is protected exactly when no value of a family whose key exists names a resolver
/// other than the loopback core: IPv4 `NameServer` is set and names at least one resolver,
/// IPv6 `NameServer` is set (an empty list is fine), and a set `ProfileNameServer` of either
/// family, which overrides `NameServer`, obeys the same rule as its family.
pub proof fn a_protected_adapter_names_only_the_loopback_core(
    a: AdapterView,
    has_v4_key: bool,
    has_v6_key: bool,
)
    ensures
        adapter_protected_spec(a, has_v4_key, has_v6_key) <==> ({
            &&& has_v4_key ==> (a.v4 matches Some(v) && name_servers(v).len() > 0
                && names_only_loopback(v))
            &&& has_v4_key ==> (a.v4_profile matches Some(p) ==> name_servers(p).len() > 0
                && names_only_loopback(p))
            &&& has_v6_key ==> (a.v6 matches Some(v) && names_only_loopback(v))
            &&& has_v6_key ==> (a.v6_profile matches Some(p) ==> names_only_loopback(p))
        }),
{
}

} // verus!
