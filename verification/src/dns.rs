//! Per-adapter DNS protection: snapshot, merge and restore-proof reasoning.
//!
//! Protection snapshots every adapter's IPv4/IPv6 `NameServer`/`ProfileNameServer`, points IPv4
//! at the loopback resolver and leaves IPv6 with an empty static list, and restores from the
//! snapshot on disconnect. The kill switch may only disarm after the restore is *proven*: the
//! registry reads back the saved values and nothing still resolves through the loopback core.

use crate::text::{
    join_seq, join_strings, list_items, push_decimal, split_trimmed_nonempty, strings_view, dec_text,
};
use vstd::prelude::*;
use vstd::string::*;

verus! {

pub const LOOPBACK_V4: &'static str = "127.0.0.1";
/// Recognised as a loopback resolver, never written: nothing listens on `[::1]:53`.
pub const LOOPBACK_V6: &'static str = "::1";
/// The protected IPv6 state: a static server list with nothing in it.
pub const NO_NAME_SERVERS: &'static str = "";
pub const SNAPSHOT_VERSION: u32 = 1;

/// One adapter's original DNS values. `None` means the registry value was absent (DHCP).
#[derive(Clone, Debug, PartialEq, Eq, Default)]
pub struct AdapterDnsSnapshot {
    pub interface_guid: String,
    pub ipv4_name_server: Option<String>,
    pub ipv4_profile_name_server: Option<String>,
    pub ipv6_name_server: Option<String>,
    pub ipv6_profile_name_server: Option<String>,
    /// The last live apply for this adapter failed; it demands live evidence for a restore.
    pub live_apply_failed: bool,
}

#[derive(Clone, Debug, PartialEq, Eq)]
pub struct DnsSnapshot {
    pub version: u32,
    pub taken_at: u64,
    pub adapters: Vec<AdapterDnsSnapshot>,
}

pub open spec fn opt_view(o: Option<String>) -> Option<Seq<char>> {
    match o {
        Some(s) => Some(s@),
        None => None,
    }
}

pub ghost struct AdapterView {
    pub guid: Seq<char>,
    pub v4: Option<Seq<char>>,
    pub v4_profile: Option<Seq<char>>,
    pub v6: Option<Seq<char>>,
    pub v6_profile: Option<Seq<char>>,
    pub live_apply_failed: bool,
}

impl View for AdapterDnsSnapshot {
    type V = AdapterView;

    open spec fn view(&self) -> AdapterView {
        AdapterView {
            guid: self.interface_guid@,
            v4: opt_view(self.ipv4_name_server),
            v4_profile: opt_view(self.ipv4_profile_name_server),
            v6: opt_view(self.ipv6_name_server),
            v6_profile: opt_view(self.ipv6_profile_name_server),
            live_apply_failed: self.live_apply_failed,
        }
    }
}

pub open spec fn adapters_view(v: Seq<AdapterDnsSnapshot>) -> Seq<AdapterView> {
    v.map_values(|a: AdapterDnsSnapshot| a@)
}

pub ghost struct SnapshotView {
    pub version: u32,
    pub taken_at: u64,
    pub adapters: Seq<AdapterView>,
}

impl View for DnsSnapshot {
    type V = SnapshotView;

    open spec fn view(&self) -> SnapshotView {
        SnapshotView {
            version: self.version,
            taken_at: self.taken_at,
            adapters: adapters_view(self.adapters@),
        }
    }
}

fn copy_opt(o: &Option<String>) -> (r: Option<String>)
    ensures
        opt_view(r) == opt_view(*o),
{
    match o {
        Some(s) => Some(s.clone()),
        None => None,
    }
}

impl AdapterDnsSnapshot {
    /// A copy with the same value.
    pub fn duplicate(&self) -> (r: AdapterDnsSnapshot)
        ensures
            r@ == self@,
    {
        AdapterDnsSnapshot {
            interface_guid: self.interface_guid.clone(),
            ipv4_name_server: copy_opt(&self.ipv4_name_server),
            ipv4_profile_name_server: copy_opt(&self.ipv4_profile_name_server),
            ipv6_name_server: copy_opt(&self.ipv6_name_server),
            ipv6_profile_name_server: copy_opt(&self.ipv6_profile_name_server),
            live_apply_failed: self.live_apply_failed,
        }
    }
}

/// A copy of a list of adapters.
pub fn copy_adapters(v: &Vec<AdapterDnsSnapshot>) -> (r: Vec<AdapterDnsSnapshot>)
    ensures
        adapters_view(r@) == adapters_view(v@),
{
    let mut r: Vec<AdapterDnsSnapshot> = Vec::new();
    let mut i: usize = 0;
    while i < v.len()
        invariant
            i <= v@.len(),
            adapters_view(r@) == adapters_view(v@.take(i as int)),
        decreases v@.len() - i,
    {
        let a = v[i].duplicate();
        let ghost prev = r@;
        r.push(a);
        proof {
            assert(adapters_view(r@) =~= adapters_view(prev).push(a@));
            assert(adapters_view(v@.take(i + 1)) =~= adapters_view(v@.take(i as int)).push(
                v@[i as int]@,
            ));
        }
        i = i + 1;
    }
    proof {
        assert(v@.take(v@.len() as int) =~= v@);
    }
    r
}

impl DnsSnapshot {
    /// A copy with the same value.
    pub fn duplicate(&self) -> (r: DnsSnapshot)
        ensures
            r@ == self@,
    {
        DnsSnapshot {
            version: self.version,
            taken_at: self.taken_at,
            adapters: copy_adapters(&self.adapters),
        }
    }
}

/// Text equality of two string slices.
pub fn str_eq(a: &str, b: &str) -> (r: bool)
    ensures
        r == (a@ == b@),
{
    let n = a.unicode_len();
    if n != b.unicode_len() {
        return false;
    }
    let mut i: usize = 0;
    while i < n
        invariant
            n == a@.len(),
            n == b@.len(),
            i <= n,
            forall|j: int| 0 <= j < i ==> a@[j] == b@[j],
        decreases n - i,
    {
        if a.get_char(i) != b.get_char(i) {
            return false;
        }
        i = i + 1;
    }
    assert(a@ =~= b@);
    true
}

pub(crate) fn opt_str_eq(a: &Option<String>, b: &Option<String>) -> (r: bool)
    ensures
        r == (opt_view(*a) == opt_view(*b)),
{
    match a {
        Some(x) => match b {
            Some(y) => str_eq(x.as_str(), y.as_str()),
            None => false,
        },
        None => b.is_none(),
    }
}

pub(crate) fn as_deref(o: &Option<String>) -> (r: Option<&str>)
    ensures
        match r {
            Some(s) => opt_view(*o) == Some(s@),
            None => opt_view(*o) is None,
        },
{
    match o {
        Some(s) => Some(s.as_str()),
        None => None,
    }
}

// ---------------------------------------------------------------------------------------------
// Name-server lists
// ---------------------------------------------------------------------------------------------

/// Registry `NameServer` values are comma-separated; spaces and empty segments are tolerated.
pub open spec fn name_servers(value: Seq<char>) -> Seq<Seq<char>> {
    list_items(value, ',')
}

pub fn parse_name_server_list(value: &str) -> (r: Vec<String>)
    ensures
        strings_view(r@) == name_servers(value@),
{
    split_trimmed_nonempty(value, ',')
}

/// `servers.join(",")`.
pub fn format_name_server_list(servers: &Vec<String>) -> (r: String)
    ensures
        r@ == join_seq(strings_view(servers@), ","@),
{
    join_strings(servers, ",")
}

/// Each server once, in first-seen order.
pub open spec fn dedup_seq(s: Seq<Seq<char>>) -> Seq<Seq<char>>
    decreases s.len(),
{
    if s.len() == 0 {
        seq![]
    } else {
        let r = dedup_seq(s.drop_last());
        if r.contains(s.last()) {
            r
        } else {
            r.push(s.last())
        }
    }
}

pub open spec fn opt_items(value: Option<Seq<char>>) -> Seq<Seq<char>> {
    match value {
        Some(v) => name_servers(v),
        None => seq![],
    }
}

/// The servers a live apply restores for one address family: `ProfileNameServer` overrides
/// `NameServer` when it lists anything; `None` (restore DHCP) when neither lists anything.
pub open spec fn restored_family_spec(profile: Option<Seq<char>>, base: Option<Seq<char>>) -> Option<
    Seq<Seq<char>>,
> {
    let effective = if opt_items(profile).len() == 0 {
        opt_items(base)
    } else {
        opt_items(profile)
    };
    if dedup_seq(effective).len() == 0 {
        None
    } else {
        Some(dedup_seq(effective))
    }
}

pub open spec fn opt_strings_view(o: Option<Vec<String>>) -> Option<Seq<Seq<char>>> {
    match o {
        Some(v) => Some(strings_view(v@)),
        None => None,
    }
}

pub(crate) fn contains_string(v: &Vec<String>, s: &String) -> (r: bool)
    ensures
        r == strings_view(v@).contains(s@),
{
    let mut i: usize = 0;
    while i < v.len()
        invariant
            i <= v@.len(),
            forall|j: int| 0 <= j < i ==> v@[j]@ != s@,
        decreases v@.len() - i,
    {
        if v[i] == *s {
            proof {
                assert(strings_view(v@)[i as int] == s@);
            }
            return true;
        }
        i = i + 1;
    }
    proof {
        if strings_view(v@).contains(s@) {
            let j = choose|j: int| 0 <= j < strings_view(v@).len() && strings_view(v@)[j] == s@;
            assert(v@[j]@ == s@);
        }
    }
    false
}

fn items_of(value: Option<&str>) -> (r: Vec<String>)
    ensures
        strings_view(r@) == opt_items(
            match value {
                Some(v) => Some(v@),
                None => None,
            },
        ),
{
    match value {
        Some(v) => parse_name_server_list(v),
        None => {
            let r = Vec::new();
            proof {
                assert(strings_view(r@) =~= Seq::<Seq<char>>::empty());
            }
            r
        },
    }
}

pub fn restored_family_servers(profile: Option<&str>, base: Option<&str>) -> (r: Option<Vec<String>>)
    ensures
        opt_strings_view(r) == restored_family_spec(
            match profile {
                Some(v) => Some(v@),
                None => None,
            },
            match base {
                Some(v) => Some(v@),
                None => None,
            },
        ),
{
    let profile_items = items_of(profile);
    let effective = if profile_items.len() == 0 {
        items_of(base)
    } else {
        profile_items
    };
    let ghost eff = strings_view(effective@);
    let mut restored: Vec<String> = Vec::new();
    let mut i: usize = 0;
    while i < effective.len()
        invariant
            i <= effective@.len(),
            eff == strings_view(effective@),
            strings_view(restored@) == dedup_seq(eff.take(i as int)),
        decreases effective@.len() - i,
    {
        proof {
            assert(eff.take(i + 1).drop_last() =~= eff.take(i as int));
            assert(eff.take(i + 1).last() == effective@[i as int]@);
        }
        if !contains_string(&restored, &effective[i]) {
            let s = effective[i].clone();
            let ghost prev = restored@;
            restored.push(s);
            proof {
                assert(strings_view(restored@) =~= strings_view(prev).push(s@));
            }
        }
        i = i + 1;
    }
    proof {
        assert(eff.take(eff.len() as int) =~= eff);
    }
    if restored.len() == 0 {
        None
    } else {
        Some(restored)
    }
}

pub fn restored_live_servers_v4(adapter: &AdapterDnsSnapshot) -> (r: Option<Vec<String>>)
    ensures
        opt_strings_view(r) == restored_family_spec(adapter@.v4_profile, adapter@.v4),
{
    restored_family_servers(
        as_deref(&adapter.ipv4_profile_name_server),
        as_deref(&adapter.ipv4_name_server),
    )
}

pub fn restored_live_servers_v6(adapter: &AdapterDnsSnapshot) -> (r: Option<Vec<String>>)
    ensures
        opt_strings_view(r) == restored_family_spec(adapter@.v6_profile, adapter@.v6),
{
    restored_family_servers(
        as_deref(&adapter.ipv6_profile_name_server),
        as_deref(&adapter.ipv6_name_server),
    )
}

/// A read-back value that lists only loopback resolvers (`127.0.0.1` or `::1`), at least one.
pub open spec fn is_loopback_spec(value: Option<Seq<char>>) -> bool {
    match value {
        None => false,
        Some(v) => {
            let servers = name_servers(v);
            servers.len() > 0 && forall|i: int|
                0 <= i < servers.len() ==> (#[trigger] servers[i] == LOOPBACK_V4@ || servers[i]
                    == LOOPBACK_V6@)
        },
    }
}

/// Whether a read-back value points at the loopback core: loopback only, nothing else.
pub fn is_loopback_value(value: Option<&str>) -> (r: bool)
    ensures
        r == is_loopback_spec(
            match value {
                Some(v) => Some(v@),
                None => None,
            },
        ),
{
    let v = match value {
        Some(v) => v,
        None => return false,
    };
    let servers = parse_name_server_list(v);
    if servers.len() == 0 {
        proof {
            assert(strings_view(servers@).len() == 0);
        }
        return false;
    }
    let mut i: usize = 0;
    while i < servers.len()
        invariant
            i <= servers@.len(),
            value == Some(v),
            strings_view(servers@) == name_servers(v@),
            forall|j: int|
                0 <= j < i ==> (#[trigger] strings_view(servers@)[j] == LOOPBACK_V4@
                    || strings_view(servers@)[j] == LOOPBACK_V6@),
        decreases servers@.len() - i,
    {
        let s = servers[i].as_str();
        if !str_eq(s, LOOPBACK_V4) && !str_eq(s, LOOPBACK_V6) {
            proof {
                assert(strings_view(servers@)[i as int] == s@);
                assert(name_servers(v@)[i as int] == s@);
                assert(!(name_servers(v@)[i as int] == LOOPBACK_V4@ || name_servers(v@)[i as int] == LOOPBACK_V6@));
            }
            return false;
        }
        i = i + 1;
    }
    true
}

/// An IPv6 read-back is protected when it is an empty static list or a loopback list; an
/// absent value is DHCP and not protected.
pub open spec fn is_protected_v6_spec(value: Option<Seq<char>>) -> bool {
    match value {
        None => false,
        Some(v) => name_servers(v).len() == 0 || is_loopback_spec(value),
    }
}

pub fn is_protected_v6_value(value: Option<&str>) -> (r: bool)
    ensures
        r == is_protected_v6_spec(
            match value {
                Some(v) => Some(v@),
                None => None,
            },
        ),
{
    match value {
        None => false,
        Some(v) => {
            let servers = parse_name_server_list(v);
            proof {
                assert(strings_view(servers@).len() == servers@.len());
            }
            servers.len() == 0 || is_loopback_value(Some(v))
        },
    }
}


// ---------------------------------------------------------------------------------------------
// Snapshots
// ---------------------------------------------------------------------------------------------

pub open spec fn has_guid(s: Seq<AdapterView>, g: Seq<char>) -> bool {
    exists|i: int| 0 <= i < s.len() && #[trigger] s[i].guid == g
}

/// Fresh adapters appended in order, each only if no adapter with its GUID is recorded yet.
pub open spec fn merge_adapters(saved: Seq<AdapterView>, fresh: Seq<AdapterView>) -> Seq<AdapterView>
    decreases fresh.len(),
{
    if fresh.len() == 0 {
        saved
    } else {
        let r = merge_adapters(saved, fresh.drop_last());
        if has_guid(r, fresh.last().guid) {
            r
        } else {
            r.push(fresh.last())
        }
    }
}

pub open spec fn merge_spec(existing: Option<SnapshotView>, fresh: SnapshotView) -> SnapshotView {
    match existing {
        None => fresh,
        Some(e) => SnapshotView { adapters: merge_adapters(e.adapters, fresh.adapters), ..e },
    }
}

pub open spec fn opt_snapshot_view(o: Option<DnsSnapshot>) -> Option<SnapshotView> {
    match o {
        Some(s) => Some(s@),
        None => None,
    }
}

proof fn lemma_merge_adapters(saved: Seq<AdapterView>, fresh: Seq<AdapterView>)
    ensures
        merge_adapters(saved, fresh).len() >= saved.len(),
        merge_adapters(saved, fresh).take(saved.len() as int) == saved,
        forall|i: int| 0 <= i < fresh.len() ==> has_guid(merge_adapters(saved, fresh), #[trigger] fresh[i].guid),
    decreases fresh.len(),
{
    if fresh.len() > 0 {
        let pre = fresh.drop_last();
        lemma_merge_adapters(saved, pre);
        let r = merge_adapters(saved, pre);
        let out = merge_adapters(saved, fresh);
        if !has_guid(r, fresh.last().guid) {
            assert(out.take(saved.len() as int) =~= r.take(saved.len() as int));
        }
        assert forall|i: int| 0 <= i < fresh.len() implies has_guid(out, #[trigger] fresh[i].guid) by {
            if i < pre.len() {
                assert(pre[i] == fresh[i]);
                let j = choose|j: int| 0 <= j < r.len() && #[trigger] r[j].guid == pre[i].guid;
                assert(out[j] == r[j]);
            } else if !has_guid(r, fresh.last().guid) {
                assert(out[r.len() as int].guid == fresh[i].guid);
            }
        }
    }
}

proof fn lemma_merge_covered(saved: Seq<AdapterView>, fresh: Seq<AdapterView>)
    requires
        forall|i: int| 0 <= i < fresh.len() ==> has_guid(saved, #[trigger] fresh[i].guid),
    ensures
        merge_adapters(saved, fresh) == saved,
    decreases fresh.len(),
{
    if fresh.len() > 0 {
        let pre = fresh.drop_last();
        assert forall|i: int| 0 <= i < pre.len() implies has_guid(saved, #[trigger] pre[i].guid) by {
            assert(pre[i] == fresh[i]);
        }
        lemma_merge_covered(saved, pre);
        assert(has_guid(saved, fresh[fresh.len() - 1].guid));
    }
}

/// Enabling again with the same adapters changes nothing: merging a fresh read into a
/// snapshot that already took it in is the identity.
pub proof fn merge_is_idempotent(existing: Option<SnapshotView>, fresh: SnapshotView)
    ensures
        merge_spec(Some(merge_spec(existing, fresh)), fresh) == merge_spec(existing, fresh),
{
    let m = merge_spec(existing, fresh);
    match existing {
        None => {
            assert forall|i: int| 0 <= i < fresh.adapters.len() implies has_guid(
                m.adapters,
                #[trigger] fresh.adapters[i].guid,
            ) by {
                assert(m.adapters[i] == fresh.adapters[i]);
            }
        },
        Some(e) => {
            lemma_merge_adapters(e.adapters, fresh.adapters);
        },
    }
    lemma_merge_covered(m.adapters, fresh.adapters);
    assert(merge_spec(Some(m), fresh) =~= m);
}

fn has_guid_in(v: &Vec<AdapterDnsSnapshot>, guid: &String) -> (r: bool)
    ensures
        r == has_guid(adapters_view(v@), guid@),
{
    let mut i: usize = 0;
    while i < v.len()
        invariant
            i <= v@.len(),
            forall|j: int| 0 <= j < i ==> v@[j]@.guid != guid@,
        decreases v@.len() - i,
    {
        if v[i].interface_guid == *guid {
            proof {
                assert(adapters_view(v@)[i as int].guid == guid@);
            }
            return true;
        }
        i = i + 1;
    }
    proof {
        if has_guid(adapters_view(v@), guid@) {
            let j = choose|j: int| 0 <= j < adapters_view(v@).len() && #[trigger] adapters_view(v@)[j].guid == guid@;
            assert(v@[j]@.guid == guid@);
        }
    }
    false
}

/// Idempotent enable: every original already recorded is preserved (a prefix of the result),
/// and adapters that appeared since are appended; a fresh record never replaces a saved one.
pub fn merge_snapshot(existing: Option<DnsSnapshot>, fresh: DnsSnapshot) -> (r: DnsSnapshot)
    ensures
        r@ == merge_spec(opt_snapshot_view(existing), fresh@),
        existing matches Some(e) ==> r@.adapters.take(e@.adapters.len() as int) == e@.adapters
            && r@.version == e@.version && r@.taken_at == e@.taken_at,
        forall|i: int| 0 <= i < fresh@.adapters.len() ==> has_guid(r@.adapters, #[trigger] fresh@.adapters[i].guid),
{
    let mut existing = match existing {
        None => return fresh,
        Some(e) => e,
    };
    let ghost e0 = existing@;
    let ghost saved = existing@.adapters;
    let ghost fv = fresh@.adapters;
    let fresh_adapters = fresh.adapters;
    let mut i: usize = 0;
    while i < fresh_adapters.len()
        invariant
            i <= fresh_adapters@.len(),
            fv == adapters_view(fresh_adapters@),
            existing.version == e0.version,
            existing.taken_at == e0.taken_at,
            adapters_view(existing.adapters@) == merge_adapters(saved, fv.take(i as int)),
        decreases fresh_adapters@.len() - i,
    {
        proof {
            assert(fv.take(i + 1).drop_last() =~= fv.take(i as int));
            assert(fv.take(i + 1).last() == fresh_adapters@[i as int]@);
        }
        if !has_guid_in(&existing.adapters, &fresh_adapters[i].interface_guid) {
            let a = fresh_adapters[i].duplicate();
            let ghost prev = existing.adapters@;
            existing.adapters.push(a);
            proof {
                assert(adapters_view(existing.adapters@) =~= adapters_view(prev).push(a@));
            }
        }
        i = i + 1;
    }
    proof {
        assert(fv.take(fv.len() as int) =~= fv);
        lemma_merge_adapters(saved, fv);
    }
    existing
}

/// Short-circuiting `enable` is safe only with a snapshot, adapters on loopback and no
/// recorded live-apply failure; anything else replays the loopback write.
pub fn needs_loopback_replay(snapshot_present: bool, all_loopback: bool, live_apply_failed: bool) -> (r:
    bool)
    ensures
        r == (!snapshot_present || !all_loopback || live_apply_failed),
{
    !snapshot_present || !all_loopback || live_apply_failed
}

/// The four saved registry values and the GUID agree; the live-apply flag is not compared.
pub open spec fn values_match(saved: AdapterView, current: AdapterView) -> bool {
    &&& saved.guid == current.guid
    &&& saved.v4 == current.v4
    &&& saved.v4_profile == current.v4_profile
    &&& saved.v6 == current.v6
    &&& saved.v6_profile == current.v6_profile
}

pub fn registry_values_match(saved: &AdapterDnsSnapshot, current: &AdapterDnsSnapshot) -> (r: bool)
    ensures
        r == values_match(saved@, current@),
{
    saved.interface_guid == current.interface_guid && opt_str_eq(
        &saved.ipv4_name_server,
        &current.ipv4_name_server,
    ) && opt_str_eq(&saved.ipv4_profile_name_server, &current.ipv4_profile_name_server)
        && opt_str_eq(&saved.ipv6_name_server, &current.ipv6_name_server) && opt_str_eq(
        &saved.ipv6_profile_name_server,
        &current.ipv6_profile_name_server,
    )
}

/// The first adapter with this GUID, searching from the front.
pub open spec fn find_first(s: Seq<AdapterView>, g: Seq<char>) -> Option<AdapterView>
    decreases s.len(),
{
    if s.len() == 0 {
        None
    } else if s[0].guid == g {
        Some(s[0])
    } else {
        find_first(s.drop_first(), g)
    }
}

/// Every snapshotted adapter still present reads back exactly its saved values; one that
/// vanished from the live read counts as restored (it has no resolver left to leak through).
pub open spec fn registry_restore_spec(snapshot: SnapshotView, current: Seq<AdapterView>) -> bool {
    forall|i: int|
        0 <= i < snapshot.adapters.len() ==> match find_first(
            current,
            (#[trigger] snapshot.adapters[i]).guid,
        ) {
            None => true,
            Some(a) => values_match(snapshot.adapters[i], a),
        }
}

fn find_adapter<'a>(current: &'a Vec<AdapterDnsSnapshot>, guid: &String) -> (r: Option<
    &'a AdapterDnsSnapshot,
>)
    ensures
        match find_first(adapters_view(current@), guid@) {
            None => r is None,
            Some(a) => r is Some && r->0@ == a,
        },
{
    let ghost cv = adapters_view(current@);
    assert(cv.skip(0) =~= cv);
    let mut i: usize = 0;
    while i < current.len()
        invariant
            i <= current@.len(),
            cv == adapters_view(current@),
            find_first(cv.skip(i as int), guid@) == find_first(cv, guid@),
        decreases current@.len() - i,
    {
        proof {
            assert(cv.skip(i as int)[0] == current@[i as int]@);
            assert(cv.skip(i as int).drop_first() =~= cv.skip(i + 1));
        }
        if current[i].interface_guid == *guid {
            return Some(&current[i]);
        }
        i = i + 1;
    }
    proof {
        assert(cv.skip(i as int).len() == 0);
    }
    None
}

/// Whether the registry alone looks restored: the degraded leg of the proof.
pub fn registry_restore_matches(snapshot: &DnsSnapshot, current: &Vec<AdapterDnsSnapshot>) -> (r: bool)
    ensures
        r == registry_restore_spec(snapshot@, adapters_view(current@)),
{
    let ghost sv = snapshot@;
    let ghost cv = adapters_view(current@);
    let mut i: usize = 0;
    while i < snapshot.adapters.len()
        invariant
            i <= snapshot.adapters@.len(),
            sv == snapshot@,
            cv == adapters_view(current@),
            forall|j: int|
                0 <= j < i ==> match find_first(cv, (#[trigger] sv.adapters[j]).guid) {
                    None => true,
                    Some(a) => values_match(sv.adapters[j], a),
                },
        decreases snapshot.adapters@.len() - i,
    {
        let saved = &snapshot.adapters[i];
        proof {
            assert(sv.adapters[i as int] == saved@);
        }
        match find_adapter(current, &saved.interface_guid) {
            None => {},
            Some(a) => {
                if !registry_values_match(saved, a) {
                    return false;
                }
            },
        }
        i = i + 1;
    }
    true
}

pub open spec fn restore_is_proven_spec(
    snapshot: SnapshotView,
    current: Seq<AdapterView>,
    live_loopback: Option<bool>,
) -> bool {
    live_loopback == Some(false) && registry_restore_spec(snapshot, current)
}

/// Restore is proven from the machine's current state: the registry half (every present
/// snapshotted adapter reads back its saved values) and the live half (nothing still resolves
/// through the loopback core, `Some(false)`). Unobtainable evidence (`None`) is unproven, and
/// the live-apply flag is not consulted.
pub fn restore_is_proven(
    snapshot: &DnsSnapshot,
    current: &Vec<AdapterDnsSnapshot>,
    live_loopback: Option<bool>,
) -> (r: bool)
    ensures
        r == restore_is_proven_spec(snapshot@, adapters_view(current@), live_loopback),
{
    match live_loopback {
        Some(false) => registry_restore_matches(snapshot, current),
        _ => false,
    }
}

/// The live adapters whose GUID the snapshot names, in their order.
pub open spec fn known_adapters(saved: Seq<AdapterView>, current: Seq<AdapterView>) -> Seq<AdapterView>
    decreases current.len(),
{
    if current.len() == 0 {
        seq![]
    } else if has_guid(saved, current[0].guid) {
        seq![current[0]] + known_adapters(saved, current.drop_first())
    } else {
        known_adapters(saved, current.drop_first())
    }
}

/// Looking up a snapshotted GUID sees only the adapters the snapshot knows.
proof fn lemma_find_first_known(saved: Seq<AdapterView>, current: Seq<AdapterView>, g: Seq<char>)
    requires
        has_guid(saved, g),
    ensures
        find_first(current, g) == find_first(known_adapters(saved, current), g),
    decreases current.len(),
{
    if current.len() > 0 {
        lemma_find_first_known(saved, current.drop_first(), g);
        let rest = known_adapters(saved, current.drop_first());
        if has_guid(saved, current[0].guid) {
            let k = seq![current[0]] + rest;
            assert(k[0] == current[0]);
            assert(k.drop_first() =~= rest);
        }
    }
}

/// The same adapters, read back alike: pointwise the same GUID and saved values, whatever the
/// live-apply flags say.
pub open spec fn alike(a: Seq<AdapterView>, b: Seq<AdapterView>) -> bool {
    a.len() == b.len() && forall|i: int| 0 <= i < a.len() ==> values_match(#[trigger] a[i], b[i])
}

proof fn lemma_find_first_alike(a: Seq<AdapterView>, b: Seq<AdapterView>, g: Seq<char>)
    requires
        alike(a, b),
    ensures
        find_first(a, g) is None <==> find_first(b, g) is None,
        find_first(a, g) matches Some(x) ==> (find_first(b, g) matches Some(y) && values_match(x, y)),
    decreases a.len(),
{
    if a.len() > 0 {
        assert(values_match(a[0], b[0]));
        let (a1, b1) = (a.drop_first(), b.drop_first());
        assert forall|i: int| 0 <= i < a1.len() implies values_match(#[trigger] a1[i], b1[i]) by {
            assert(values_match(a[i + 1], b[i + 1]));
        }
        lemma_find_first_alike(a1, b1, g);
    }
}

/// The restore proof reads only the saved values of the snapshotted adapters, looked up by
/// GUID: the live-apply flags (saved or read back) and live adapters the snapshot does not
/// name, wherever they stand in the list, never change it.
pub proof fn restore_proof_ignores_flags_and_unknown_adapters(
    snapshot: SnapshotView,
    current: Seq<AdapterView>,
    other_snapshot: SnapshotView,
    other_current: Seq<AdapterView>,
    live_loopback: Option<bool>,
)
    requires
        alike(snapshot.adapters, other_snapshot.adapters),
        alike(
            known_adapters(snapshot.adapters, current),
            known_adapters(snapshot.adapters, other_current),
        ),
    ensures
        restore_is_proven_spec(snapshot, current, live_loopback) == restore_is_proven_spec(
            other_snapshot,
            other_current,
            live_loopback,
        ),
{
    let s = snapshot.adapters;
    let o = other_snapshot.adapters;
    let k1 = known_adapters(s, current);
    let k2 = known_adapters(s, other_current);
    assert forall|i: int| 0 <= i < s.len() implies (match find_first(current, (#[trigger] s[i]).guid) {
        None => true,
        Some(a) => values_match(s[i], a),
    }) == (match find_first(other_current, o[i].guid) {
        None => true,
        Some(a) => values_match(o[i], a),
    }) by {
        assert(values_match(s[i], o[i]));
        assert(has_guid(s, s[i].guid));
        lemma_find_first_known(s, current, s[i].guid);
        lemma_find_first_known(s, other_current, s[i].guid);
        lemma_find_first_alike(k1, k2, s[i].guid);
    }
    if registry_restore_spec(snapshot, current) {
        assert forall|i: int| 0 <= i < o.len() implies match find_first(
            other_current,
            (#[trigger] o[i]).guid,
        ) {
            None => true,
            Some(a) => values_match(o[i], a),
        } by {
            assert(values_match(s[i], o[i]));
        }
    }
    if registry_restore_spec(other_snapshot, other_current) {
        assert forall|i: int| 0 <= i < s.len() implies match find_first(
            current,
            (#[trigger] s[i]).guid,
        ) {
            None => true,
            Some(a) => values_match(s[i], a),
        } by {
            assert(values_match(s[i], o[i]));
            assert(o[i] == o[i]);
        }
    }
}

/// Whether the values saved for this adapter were themselves a loopback resolver.
pub open spec fn saved_was_loopback_spec(a: AdapterView) -> bool {
    is_loopback_spec(a.v4) || is_loopback_spec(a.v4_profile) || is_loopback_spec(a.v6)
        || is_loopback_spec(a.v6_profile)
}

pub fn saved_dns_was_loopback(saved: &AdapterDnsSnapshot) -> (r: bool)
    ensures
        r == saved_was_loopback_spec(saved@),
{
    is_loopback_value(as_deref(&saved.ipv4_name_server)) || is_loopback_value(
        as_deref(&saved.ipv4_profile_name_server),
    ) || is_loopback_value(as_deref(&saved.ipv6_name_server)) || is_loopback_value(
        as_deref(&saved.ipv6_profile_name_server),
    )
}

/// The snapshot records this GUID with originals that were already a loopback resolver.
pub open spec fn was_local_resolver(snapshot: SnapshotView, g: Seq<char>) -> bool {
    exists|j: int|
        0 <= j < snapshot.adapters.len() && #[trigger] snapshot.adapters[j].guid == g
            && saved_was_loopback_spec(snapshot.adapters[j])
}

/// The adapters the live loopback read has to cover: everything present now, minus those
/// whose originals were already a loopback resolver (a local resolver the user ran before).
pub open spec fn owing_spec(snapshot: SnapshotView, current: Seq<AdapterView>) -> Seq<AdapterView> {
    current.filter(|a: AdapterView| !was_local_resolver(snapshot, a.guid))
}

fn is_local_resolver(snapshot: &DnsSnapshot, guid: &String) -> (r: bool)
    ensures
        r == was_local_resolver(snapshot@, guid@),
{
    let mut j: usize = 0;
    while j < snapshot.adapters.len()
        invariant
            j <= snapshot.adapters@.len(),
            forall|k: int|
                0 <= k < j ==> !(snapshot.adapters@[k]@.guid == guid@ && saved_was_loopback_spec(
                    snapshot.adapters@[k]@,
                )),
        decreases snapshot.adapters@.len() - j,
    {
        let saved = &snapshot.adapters[j];
        if saved.interface_guid == *guid && saved_dns_was_loopback(saved) {
            proof {
                assert(snapshot@.adapters[j as int] == saved@);
                assert(snapshot@.adapters[j as int].guid == guid@);
                assert(saved_was_loopback_spec(snapshot@.adapters[j as int]));
            }
            return true;
        }
        j = j + 1;
    }
    proof {
        if was_local_resolver(snapshot@, guid@) {
            let k = choose|k: int|
                0 <= k < snapshot@.adapters.len() && #[trigger] snapshot@.adapters[k].guid == guid@
                    && saved_was_loopback_spec(snapshot@.adapters[k]);
            assert(snapshot@.adapters[k] == snapshot.adapters@[k]@);
        }
    }
    false
}

pub fn adapters_owing_live_proof(snapshot: &DnsSnapshot, current: &Vec<AdapterDnsSnapshot>) -> (r: Vec<
    AdapterDnsSnapshot,
>)
    ensures
        adapters_view(r@) == owing_spec(snapshot@, adapters_view(current@)),
{
    let ghost cv = adapters_view(current@);
    let ghost pred = |a: AdapterView| !was_local_resolver(snapshot@, a.guid);
    let mut r: Vec<AdapterDnsSnapshot> = Vec::new();
    let mut i: usize = 0;
    while i < current.len()
        invariant
            i <= current@.len(),
            cv == adapters_view(current@),
            pred == (|a: AdapterView| !was_local_resolver(snapshot@, a.guid)),
            adapters_view(r@) == cv.take(i as int).filter(pred),
        decreases current@.len() - i,
    {
        proof {
            reveal_with_fuel(Seq::filter, 1);
            assert(cv.take(i + 1).drop_last() =~= cv.take(i as int));
            assert(cv.take(i + 1).last() == current@[i as int]@);
        }
        if !is_local_resolver(snapshot, &current[i].interface_guid) {
            let a = current[i].duplicate();
            let ghost prev = r@;
            r.push(a);
            proof {
                assert(adapters_view(r@) =~= adapters_view(prev).push(a@));
            }
        }
        i = i + 1;
    }
    proof {
        assert(cv.take(cv.len() as int) =~= cv);
    }
    r
}

/// How live loopback evidence reads in a message: "unknown" is its own state.
pub open spec fn live_label_spec(live_loopback: Option<bool>) -> Seq<char> {
    match live_loopback {
        Some(true) => "yes"@,
        Some(false) => "no"@,
        None => "unknown"@,
    }
}

pub fn live_loopback_label(live_loopback: Option<bool>) -> (r: &'static str)
    ensures
        r@ == live_label_spec(live_loopback),
{
    match live_loopback {
        Some(true) => "yes",
        Some(false) => "no",
        None => "unknown",
    }
}

/// Consecutive failing live-apply rounds after which a registry-matching restore is accepted
/// as degraded.
pub const DEGRADED_RESTORE_STREAK: u32 = 3;

/// The documented degraded exit: an exact registry match and a sustained failure streak.
pub fn accepts_degraded_restore(consecutive_live_failures: u32, registry_matches: bool) -> (r: bool)
    ensures
        r == (registry_matches && consecutive_live_failures >= DEGRADED_RESTORE_STREAK),
{
    registry_matches && consecutive_live_failures >= DEGRADED_RESTORE_STREAK
}

/// Restoration holds without a readable snapshot only when nothing is on loopback and no
/// live-apply failure is on record.
pub fn restore_established_without_snapshot(any_loopback: bool, live_apply_failed: bool) -> (r: bool)
    ensures
        r == (!any_loopback && !live_apply_failed),
{
    !any_loopback && !live_apply_failed
}

/// The streak of consecutive enable/restore rounds whose live apply failed somewhere.
#[derive(Clone, Copy, Debug, PartialEq, Eq, Structural)]
pub struct LiveFailureStreak {
    pub consecutive: u32,
}

impl LiveFailureStreak {
    pub fn new() -> (r: LiveFailureStreak)
        ensures
            r.consecutive == 0,
    {
        LiveFailureStreak { consecutive: 0 }
    }

    /// Record one round and return the current streak: a failing round extends it, a clean
    /// round resets it to 0.
    pub fn note_apply_round(&mut self, any_live_failed: bool) -> (r: u32)
        ensures
            any_live_failed ==> final(self).consecutive == vstd::wrapping::u32_specs::wrapping_add(
                old(self).consecutive,
                1,
            ),
            !any_live_failed ==> final(self).consecutive == 0,
            r == final(self).consecutive,
    {
        if any_live_failed {
            self.consecutive = self.consecutive.wrapping_add(1);
        } else {
            self.consecutive = 0;
        }
        self.consecutive
    }
}

/// An adapter with in-memory live-apply failures folded into its flag.
pub open spec fn flagged(a: AdapterView, failures: Seq<Seq<char>>) -> AdapterView {
    AdapterView { live_apply_failed: a.live_apply_failed || failures.contains(a.guid), ..a }
}

/// Fold in-memory live-apply failures into a snapshot's per-adapter flags.
pub open spec fn with_failures_spec(snapshot: SnapshotView, failures: Seq<Seq<char>>) -> SnapshotView {
    SnapshotView {
        adapters: snapshot.adapters.map_values(|a: AdapterView| flagged(a, failures)),
        ..snapshot
    }
}

pub fn with_live_failures(snapshot: &DnsSnapshot, failures: &Vec<String>) -> (r: DnsSnapshot)
    ensures
        r@ == with_failures_spec(snapshot@, strings_view(failures@)),
{
    let ghost fs = strings_view(failures@);
    let ghost orig = snapshot@.adapters;
    let mut adapters: Vec<AdapterDnsSnapshot> = Vec::new();
    let mut i: usize = 0;
    while i < snapshot.adapters.len()
        invariant
            i <= snapshot.adapters@.len(),
            orig == snapshot@.adapters,
            fs == strings_view(failures@),
            adapters_view(adapters@) == orig.take(i as int).map_values(
                |a: AdapterView| flagged(a, fs),
            ),
        decreases snapshot.adapters@.len() - i,
    {
        let hit = contains_string(failures, &snapshot.adapters[i].interface_guid);
        let mut a = snapshot.adapters[i].duplicate();
        a.live_apply_failed = a.live_apply_failed || hit;
        let ghost prev = adapters@;
        adapters.push(a);
        proof {
            assert(orig[i as int] == snapshot.adapters@[i as int]@);
            assert(adapters_view(adapters@) =~= adapters_view(prev).push(a@));
            assert(orig.take(i + 1).map_values(|a: AdapterView| flagged(a, fs)) =~= orig.take(
                i as int,
            ).map_values(|a: AdapterView| flagged(a, fs)).push(flagged(orig[i as int], fs)));
        }
        i = i + 1;
    }
    proof {
        assert(orig.take(orig.len() as int) =~= orig);
    }
    DnsSnapshot { version: snapshot.version, taken_at: snapshot.taken_at, adapters }
}

/// A snapshot written by a newer build cannot be reinterpreted by this one: its version must
/// not exceed `SNAPSHOT_VERSION`.
pub open spec fn newer_build_reason(version: u32) -> Seq<char> {
    "the file was written by a newer build (version "@ + dec_text(version as nat)
        + ", this build understands up to 1)"@
}

pub fn check_snapshot_version(snapshot: DnsSnapshot) -> (r: Result<DnsSnapshot, String>)
    ensures
        snapshot.version <= SNAPSHOT_VERSION ==> r is Ok && r->Ok_0@ == snapshot@,
        snapshot.version > SNAPSHOT_VERSION ==> r is Err && r->Err_0@ == newer_build_reason(
            snapshot.version,
        ),
{
    if snapshot.version > SNAPSHOT_VERSION {
        let mut reason = String::new();
        reason.append("the file was written by a newer build (version ");
        push_decimal(&mut reason, snapshot.version as u64);
        reason.append(", this build understands up to 1)");
        proof {
            assert(reason@ =~= newer_build_reason(snapshot.version));
        }
        return Err(reason);
    }
    Ok(snapshot)
}

pub const DNS_WATCHDOG_INTERVAL_MS: u64 = 2_000;
/// Consecutive failed repairs after which the watchdog stops re-running enable.
pub const DNS_RECONCILE_MAX_FAILURES: u32 = 5;
pub const DNS_RECONCILE_MAX_BACKOFF_MS: u64 = 60_000;

pub open spec fn doubling(n: u32) -> u64 {
    if n == 0 {
        1
    } else if n == 1 {
        2
    } else if n == 2 {
        4
    } else if n == 3 {
        8
    } else if n == 4 {
        16
    } else {
        32
    }
}

/// Reconciliation delay after `failures` consecutive failed repairs, in milliseconds, or
/// `None` once repair is suspended.
pub open spec fn backoff_spec(failures: u32) -> Option<u64> {
    if failures == 0 {
        Some(0)
    } else if failures >= DNS_RECONCILE_MAX_FAILURES {
        None
    } else {
        let d = DNS_WATCHDOG_INTERVAL_MS * doubling((failures - 1) as u32);
        Some(if d < DNS_RECONCILE_MAX_BACKOFF_MS { d as u64 } else { DNS_RECONCILE_MAX_BACKOFF_MS })
    }
}

pub fn reconcile_backoff(failures: u32) -> (r: Option<u64>)
    ensures
        r == backoff_spec(failures),
{
    if failures == 0 {
        return Some(0);
    }
    if failures >= DNS_RECONCILE_MAX_FAILURES {
        return None;
    }
    let shift = failures - 1;
    let d: u64 = if shift == 0 {
        1
    } else if shift == 1 {
        2
    } else if shift == 2 {
        4
    } else if shift == 3 {
        8
    } else if shift == 4 {
        16
    } else {
        32
    };
    let delay = DNS_WATCHDOG_INTERVAL_MS * d;
    Some(
        if delay < DNS_RECONCILE_MAX_BACKOFF_MS {
            delay
        } else {
            DNS_RECONCILE_MAX_BACKOFF_MS
        },
    )
}

/// Only an operational adapter with a bound IP stack, other than the software loopback, has a
/// live resolver that can leak DNS.
pub fn is_active_dns_adapter(oper_status: i32, if_type: u32, has_bound_ip: bool) -> (r: bool)
    ensures
        r == (oper_status == 1 && if_type != 24 && has_bound_ip),
{
    oper_status == 1 && if_type != 24 && has_bound_ip
}

} // verus!
