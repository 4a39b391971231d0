//! The computing half of the live DNS apply: which adapters are handed to the batch, the
//! generated PowerShell batch itself, how its one-line report is read back, and how a batch
//! and its single retry are combined into per-adapter results. Running PowerShell and reading
//! the registry stay with the caller.

use crate::dns::{
    as_deref, contains_string, is_loopback_spec, is_loopback_value, is_protected_v6_spec,
    is_protected_v6_value, opt_strings_view, restored_family_spec, restored_live_servers_v4,
    restored_live_servers_v6, saved_dns_was_loopback, saved_was_loopback_spec, AdapterDnsSnapshot,
    AdapterView, LOOPBACK_V4,
};
use crate::dns_restore::{bool_text, results_view};
use crate::text::{dec_text, join_seq, list_items, push_decimal, split_trimmed_nonempty, strings_view};
use vstd::prelude::*;

verus! {

/// One adapter handed to the live batch.
#[derive(Clone, Debug, PartialEq, Eq)]
pub struct LiveApplyEntry {
    pub guid: String,
    /// Live IPv4/IPv6 interface indices; 0 means the family is not bound here.
    pub ipv4_index: u32,
    pub ipv6_index: u32,
    /// `None` restores DHCP for the family; `Some(empty)` is a static list with no servers,
    /// the protected IPv6 state. The two are not interchangeable.
    pub ipv4_servers: Option<Vec<String>>,
    pub ipv6_servers: Option<Vec<String>>,
}

pub ghost struct EntryView {
    pub guid: Seq<char>,
    pub ipv4_index: u32,
    pub ipv6_index: u32,
    pub ipv4_servers: Option<Seq<Seq<char>>>,
    pub ipv6_servers: Option<Seq<Seq<char>>>,
}

impl View for LiveApplyEntry {
    type V = EntryView;

    open spec fn view(&self) -> EntryView {
        EntryView {
            guid: self.guid@,
            ipv4_index: self.ipv4_index,
            ipv6_index: self.ipv6_index,
            ipv4_servers: opt_strings_view(self.ipv4_servers),
            ipv6_servers: opt_strings_view(self.ipv6_servers),
        }
    }
}

pub open spec fn entries_view(v: Seq<LiveApplyEntry>) -> Seq<EntryView> {
    v.map_values(|e: LiveApplyEntry| e@)
}

/// What the live read-back proves: the exact protected lists, or no loopback left.
#[derive(Clone, Copy, Debug, PartialEq, Eq, Structural)]
pub enum ApplyMode {
    Loopback,
    Restore,
}

/// A live adapter as IP Helper reports it.
#[derive(Clone, Debug, PartialEq, Eq)]
pub struct ActiveAdapter {
    pub guid: String,
    pub ipv4_index: u32,
    pub ipv6_index: u32,
}

/// The protect entry: IPv4 on the loopback resolver, IPv6 a static list with no servers.
pub fn loopback_entry(guid: &str, ipv4_index: u32, ipv6_index: u32) -> (r: LiveApplyEntry)
    ensures
        r@ == (EntryView {
            guid: guid@,
            ipv4_index,
            ipv6_index,
            ipv4_servers: Some(seq![LOOPBACK_V4@]),
            ipv6_servers: Some(seq![]),
        }),
{
    let mut v4: Vec<String> = Vec::new();
    v4.push(LOOPBACK_V4.to_string());
    let v6: Vec<String> = Vec::new();
    proof {
        assert(strings_view(v4@) =~= seq![LOOPBACK_V4@]);
        assert(strings_view(v6@) =~= Seq::<Seq<char>>::empty());
    }
    LiveApplyEntry {
        guid: guid.to_string(),
        ipv4_index,
        ipv6_index,
        ipv4_servers: Some(v4),
        ipv6_servers: Some(v6),
    }
}

/// The restore entry: each family gets its saved effective list, DHCP where none was saved.
pub fn restore_entry(adapter: &AdapterDnsSnapshot, ipv4_index: u32, ipv6_index: u32) -> (r:
    LiveApplyEntry)
    ensures
        r@ == (EntryView {
            guid: adapter@.guid,
            ipv4_index,
            ipv6_index,
            ipv4_servers: restored_family_spec(adapter@.v4_profile, adapter@.v4),
            ipv6_servers: restored_family_spec(adapter@.v6_profile, adapter@.v6),
        }),
{
    LiveApplyEntry {
        guid: adapter.interface_guid.clone(),
        ipv4_index,
        ipv6_index,
        ipv4_servers: restored_live_servers_v4(adapter),
        ipv6_servers: restored_live_servers_v6(adapter),
    }
}

/// Whether one adapter is in the protected state. Each family present in the registry must be
/// protected in `NameServer` and, when set, in `ProfileNameServer`: IPv4 on loopback, IPv6 with
/// no servers (or loopback). An absent family is skipped.
pub open spec fn adapter_protected_spec(a: AdapterView, has_v4_key: bool, has_v6_key: bool) -> bool {
    &&& !(has_v4_key && (!is_loopback_spec(a.v4) || (a.v4_profile is Some && !is_loopback_spec(
        a.v4_profile,
    ))))
    &&& !(has_v6_key && (!is_protected_v6_spec(a.v6) || (a.v6_profile is Some
        && !is_protected_v6_spec(a.v6_profile))))
}

pub fn adapter_protected(adapter: &AdapterDnsSnapshot, has_v4_key: bool, has_v6_key: bool) -> (r:
    bool)
    ensures
        r == adapter_protected_spec(adapter@, has_v4_key, has_v6_key),
{
    if has_v4_key && (!is_loopback_value(as_deref(&adapter.ipv4_name_server)) || (
    adapter.ipv4_profile_name_server.is_some() && !is_loopback_value(
        as_deref(&adapter.ipv4_profile_name_server),
    ))) {
        return false;
    }
    if has_v6_key && (!is_protected_v6_value(as_deref(&adapter.ipv6_name_server)) || (
    adapter.ipv6_profile_name_server.is_some() && !is_protected_v6_value(
        as_deref(&adapter.ipv6_profile_name_server),
    ))) {
        return false;
    }
    true
}

/// A registry reading of one adapter with which of its two family keys exist.
#[derive(Clone, Debug, PartialEq, Eq)]
pub struct AdapterReading {
    pub adapter: AdapterDnsSnapshot,
    pub has_v4_key: bool,
    pub has_v6_key: bool,
}

/// Protection is in force only if every read adapter is protected.
pub fn all_protected(readings: &Vec<AdapterReading>) -> (r: bool)
    ensures
        r == forall|i: int|
            0 <= i < readings@.len() ==> adapter_protected_spec(
                (#[trigger] readings@[i]).adapter@,
                readings@[i].has_v4_key,
                readings@[i].has_v6_key,
            ),
{
    let mut i: usize = 0;
    while i < readings.len()
        invariant
            i <= readings@.len(),
            forall|j: int|
                0 <= j < i ==> adapter_protected_spec(
                    (#[trigger] readings@[j]).adapter@,
                    readings@[j].has_v4_key,
                    readings@[j].has_v6_key,
                ),
        decreases readings@.len() - i,
    {
        let r = &readings[i];
        if !adapter_protected(&r.adapter, r.has_v4_key, r.has_v6_key) {
            return false;
        }
        i = i + 1;
    }
    true
}

/// Whether any adapter still points a value of either family at the loopback resolver: one
/// leftover `ProfileNameServer` is enough to leave the machine on a stopped core.
pub fn any_on_loopback(adapters: &Vec<AdapterDnsSnapshot>) -> (r: bool)
    ensures
        r == exists|i: int| 0 <= i < adapters@.len() && saved_was_loopback_spec(#[trigger] adapters@[i]@),
{
    let mut i: usize = 0;
    while i < adapters.len()
        invariant
            i <= adapters@.len(),
            forall|j: int| 0 <= j < i ==> !saved_was_loopback_spec(#[trigger] adapters@[j]@),
        decreases adapters@.len() - i,
    {
        if saved_dns_was_loopback(&adapters[i]) {
            return true;
        }
        i = i + 1;
    }
    false
}

pub open spec fn is_ascii_alnum(c: char) -> bool {
    ('0' <= c && c <= '9') || ('a' <= c && c <= 'z') || ('A' <= c && c <= 'Z')
}

pub open spec fn script_safe_spec(value: Seq<char>, extra: Seq<char>) -> bool {
    forall|i: int| 0 <= i < value.len() ==> is_ascii_alnum(#[trigger] value[i]) || extra.contains(value[i])
}

fn contains_char(s: &str, c: char) -> (r: bool)
    ensures
        r == s@.contains(c),
{
    let n = s.unicode_len();
    let mut i: usize = 0;
    while i < n
        invariant
            n == s@.len(),
            i <= n,
            forall|j: int| 0 <= j < i ==> s@[j] != c,
        decreases n - i,
    {
        if s.get_char(i) == c {
            return true;
        }
        i = i + 1;
    }
    false
}

/// Only ASCII letters, digits and the characters of `extra` (ASCII punctuation) may reach the
/// generated script; anything else fails closed.
pub fn script_safe(value: &str, extra: &str) -> (r: bool)
    requires
        forall|i: int| 0 <= i < extra@.len() ==> (#[trigger] extra@[i]) < 128,
    ensures
        r == script_safe_spec(value@, extra@),
{
    let n = value.unicode_len();
    let mut i: usize = 0;
    while i < n
        invariant
            n == value@.len(),
            i <= n,
            forall|j: int| 0 <= j < i ==> is_ascii_alnum(#[trigger] value@[j]) || extra@.contains(value@[j]),
        decreases n - i,
    {
        let c = value.get_char(i);
        let alnum = ('0' <= c && c <= '9') || ('a' <= c && c <= 'z') || ('A' <= c && c <= 'Z');
        if !alnum && !contains_char(extra, c) {
            return false;
        }
        i = i + 1;
    }
    true
}

pub open spec fn quoted(items: Seq<Seq<char>>) -> Seq<Seq<char>> {
    items.map_values(|s: Seq<char>| "'"@ + s + "'"@)
}

/// A PowerShell array literal of single-quoted servers, or `$null` for DHCP.
pub open spec fn ps_list_spec(servers: Option<Seq<Seq<char>>>) -> Seq<char> {
    match servers {
        None => "$null"@,
        Some(v) => "@("@ + join_seq(quoted(v), ","@) + ")"@,
    }
}

pub fn powershell_list(servers: &Option<Vec<String>>) -> (r: String)
    ensures
        r@ == ps_list_spec(opt_strings_view(*servers)),
{
    match servers {
        None => "$null".to_string(),
        Some(v) => {
            let ghost sv = strings_view(v@);
            let mut r = String::new();
            r.append("@(");
            let ghost head = r@;
            let mut i: usize = 0;
            while i < v.len()
                invariant
                    i <= v@.len(),
                    sv == strings_view(v@),
                    head == "@("@,
                    r@ == head + join_seq(quoted(sv.take(i as int)), ","@),
                decreases v@.len() - i,
            {
                proof {
                    assert(quoted(sv.take(i + 1)).drop_last() =~= quoted(sv.take(i as int)));
                    assert(quoted(sv.take(i + 1)).last() == "'"@ + v@[i as int]@ + "'"@);
                    if i == 0 {
                        assert(quoted(sv.take(0)) =~= Seq::<Seq<char>>::empty());
                    }
                }
                if i > 0 {
                    r.append(",");
                }
                r.append("'");
                r.append(v[i].as_str());
                r.append("'");
                proof {
                    if i == 0 {
                        assert(quoted(sv.take(1)).len() == 1);
                        assert(r@ =~= head + quoted(sv.take(1))[0]);
                    } else {
                        assert(r@ =~= head + (join_seq(quoted(sv.take(i as int)), ","@) + ","@
                            + quoted(sv.take(i + 1)).last()));
                    }
                }
                i = i + 1;
            }
            r.append(")");
            proof {
                assert(sv.take(sv.len() as int) =~= sv);
            }
            r
        },
    }
}

/// A comma-separated GUID list from the batch report: trimmed, empties dropped.
pub fn parse_guid_list(value: &str) -> (r: Vec<String>)
    ensures
        strings_view(r@) == list_items(value@, ','),
{
    split_trimmed_nonempty(value, ',')
}

/// The per-family apply and live read-back shared by every entry of a batch; the generated
/// script stays one short line per adapter.
pub const SCRIPT_PRELUDE: &'static str = r#"$global:fails = @()
$global:skips = @()
function Test-Family($index, $family, $want, $restoring) {
  if ($index -eq 0) { return $true }
  $entry = Get-DnsClientServerAddress -InterfaceIndex $index -AddressFamily $family -ErrorAction SilentlyContinue
  if ($null -eq $entry) { return $true }
  $have = @($entry.ServerAddresses)
  $loop = if ($family -eq 'IPv4') { '127.0.0.1' } else { '::1' }
  if ($restoring) {
    foreach ($s in $have) { if ($s -eq $loop) { return $false } }
    return $true
  }
  if ($null -eq $want) { return $true }
  if ($have.Count -ne $want.Count) { return $false }
  for ($k = 0; $k -lt $want.Count; $k++) { if ($have[$k] -ne $want[$k]) { return $false } }
  return $true
}
function Set-AdapterDns($g, $i4, $i6, $v4, $v6, $restoring) {
  $touched = $false
  if ($i4 -ne 0) {
    $c = Get-CimInstance Win32_NetworkAdapterConfiguration -Filter "SettingID='$g'" -ErrorAction SilentlyContinue
    if ($null -eq $c) { $global:fails += $g; return }
    $r = Invoke-CimMethod -InputObject $c -MethodName SetDNSServerSearchOrder -Arguments @{ DNSServerSearchOrder = $v4 } -ErrorAction SilentlyContinue
    if ($r -and $r.ReturnValue -eq 84) { $global:skips += $g; return }
    if (-not $r -or $r.ReturnValue -ne 0) { $global:fails += $g; return }
    $touched = $true
  }
  if ($i6 -ne 0) {
    $e = 0
    if ($null -eq $v6) {
      netsh interface ipv6 set dnsservers "name=$i6" source=dhcp | Out-Null
      $e = $e + $LASTEXITCODE
    } elseif ($v6.Count -eq 0) {
      netsh interface ipv6 set dnsservers "name=$i6" source=static address=none | Out-Null
      $e = $e + $LASTEXITCODE
    } else {
      netsh interface ipv6 set dnsservers "name=$i6" source=static "address=$($v6[0])" register=none validate=no | Out-Null
      $e = $e + $LASTEXITCODE
      for ($k = 1; $k -lt $v6.Count; $k++) {
        netsh interface ipv6 add dnsservers "name=$i6" "address=$($v6[$k])" "index=$($k + 1)" validate=no | Out-Null
        $e = $e + $LASTEXITCODE
      }
    }
    if ($e -ne 0) { $global:fails += $g; return }
    $touched = $true
  }
  if (-not $touched) { $global:skips += $g; return }
  if (-not (Test-Family $i4 'IPv4' $v4 $restoring)) { $global:fails += $g; return }
  if (-not (Test-Family $i6 'IPv6' $v6 $restoring)) { $global:fails += $g; return }
}
"#;

/// The last statement of every batch: the failed and skipped GUIDs around the result marker.
pub const SCRIPT_REPORT: &'static str = "[Console]::Out.Write(($global:fails -join ',') + '|' + ($global:skips -join ','))";

pub open spec fn all_servers_safe(v: Seq<Seq<char>>) -> bool {
    forall|i: int| 0 <= i < v.len() ==> script_safe_spec(#[trigger] v[i], ".:"@)
}

pub open spec fn servers_safe_spec(servers: Option<Seq<Seq<char>>>) -> bool {
    match servers {
        None => true,
        Some(v) => all_servers_safe(v),
    }
}

/// An entry reaches the script only if its GUID and every server are script-safe.
pub open spec fn entry_accepted(e: EntryView) -> bool {
    script_safe_spec(e.guid, "{}-"@) && servers_safe_spec(e.ipv4_servers) && servers_safe_spec(
        e.ipv6_servers,
    )
}

pub open spec fn entry_line(e: EntryView, restoring: bool) -> Seq<char> {
    "Set-AdapterDns '"@ + e.guid + "' "@ + dec_text(e.ipv4_index as nat) + " "@ + dec_text(
        e.ipv6_index as nat,
    ) + " "@ + ps_list_spec(e.ipv4_servers) + " "@ + ps_list_spec(e.ipv6_servers) + " $"@
        + bool_text(restoring) + "\n"@
}

pub open spec fn batch_lines(es: Seq<EntryView>, restoring: bool) -> Seq<char>
    decreases es.len(),
{
    if es.len() == 0 {
        seq![]
    } else if entry_accepted(es.last()) {
        batch_lines(es.drop_last(), restoring) + entry_line(es.last(), restoring)
    } else {
        batch_lines(es.drop_last(), restoring)
    }
}

pub open spec fn rejected_guids(es: Seq<EntryView>) -> Seq<Seq<char>>
    decreases es.len(),
{
    if es.len() == 0 {
        seq![]
    } else if entry_accepted(es.last()) {
        rejected_guids(es.drop_last())
    } else {
        rejected_guids(es.drop_last()).push(es.last().guid)
    }
}

fn servers_safe(servers: &Option<Vec<String>>) -> (r: bool)
    ensures
        r == servers_safe_spec(opt_strings_view(*servers)),
{
    match servers {
        None => true,
        Some(v) => {
            let mut i: usize = 0;
            while i < v.len()
                invariant
                    i <= v@.len(),
                    opt_strings_view(*servers) == Some(strings_view(v@)),
                    forall|j: int| 0 <= j < i ==> script_safe_spec(#[trigger] strings_view(v@)[j], ".:"@),
                decreases v@.len() - i,
            {
                proof {
                    reveal_strlit(".:");
                }
                if !script_safe(v[i].as_str(), ".:") {
                    proof {
                        assert(strings_view(v@)[i as int] == v@[i as int]@);
                        assert(!script_safe_spec(strings_view(v@)[i as int], ".:"@));
                        assert(opt_strings_view(*servers) == Some(strings_view(v@)));
                        assert(!all_servers_safe(strings_view(v@)));
                    }
                    return false;
                }
                i = i + 1;
            }
            true
        },
    }
}

fn push_entry_line(script: &mut String, e: &LiveApplyEntry, restoring: bool)
    ensures
        final(script)@ == old(script)@ + entry_line(e@, restoring),
{
    script.append("Set-AdapterDns '");
    script.append(e.guid.as_str());
    script.append("' ");
    push_decimal(script, e.ipv4_index as u64);
    script.append(" ");
    push_decimal(script, e.ipv6_index as u64);
    script.append(" ");
    let l4 = powershell_list(&e.ipv4_servers);
    script.append(l4.as_str());
    script.append(" ");
    let l6 = powershell_list(&e.ipv6_servers);
    script.append(l6.as_str());
    script.append(" $");
    if restoring {
        script.append("true");
    } else {
        script.append("false");
    }
    script.append("\n");
}

/// The batch script for these entries, and the GUIDs rejected before reaching it (in entry
/// order).
pub fn batch_script(entries: &Vec<LiveApplyEntry>, mode: ApplyMode) -> (r: (String, Vec<String>))
    ensures
        r.0@ == SCRIPT_PRELUDE@ + batch_lines(entries_view(entries@), mode == ApplyMode::Restore)
            + SCRIPT_REPORT@,
        strings_view(r.1@) == rejected_guids(entries_view(entries@)),
{
    let restoring = mode == ApplyMode::Restore;
    let ghost ev = entries_view(entries@);
    let mut script = SCRIPT_PRELUDE.to_string();
    let mut rejected: Vec<String> = Vec::new();
    let mut i: usize = 0;
    while i < entries.len()
        invariant
            i <= entries@.len(),
            ev == entries_view(entries@),
            restoring == (mode == ApplyMode::Restore),
            script@ == SCRIPT_PRELUDE@ + batch_lines(ev.take(i as int), restoring),
            strings_view(rejected@) == rejected_guids(ev.take(i as int)),
        decreases entries@.len() - i,
    {
        let e = &entries[i];
        proof {
            assert(ev.take(i + 1).drop_last() =~= ev.take(i as int));
            assert(ev.take(i + 1).last() == e@);
            reveal_strlit("{}-");
        }
        let accepted = script_safe(e.guid.as_str(), "{}-") && servers_safe(&e.ipv4_servers)
            && servers_safe(&e.ipv6_servers);
        if !accepted {
            let ghost prev = rejected@;
            rejected.push(e.guid.clone());
            proof {
                assert(strings_view(rejected@) =~= strings_view(prev).push(e@.guid));
            }
        } else {
            push_entry_line(&mut script, e, restoring);
            proof {
                assert(script@ =~= SCRIPT_PRELUDE@ + batch_lines(ev.take(i + 1), restoring));
            }
        }
        i = i + 1;
    }
    script.append(SCRIPT_REPORT);
    proof {
        assert(ev.take(ev.len() as int) =~= ev);
    }
    (script, rejected)
}

/// The last position before `hi` holding `c`, or -1.
pub open spec fn last_index_of(s: Seq<char>, c: char, hi: int) -> int
    decreases hi,
{
    if hi <= 0 {
        -1
    } else if s[hi - 1] == c {
        hi - 1
    } else {
        last_index_of(s, c, hi - 1)
    }
}

/// The first position in `lo..hi` holding `c`, or `hi`.
pub open spec fn first_index_of(s: Seq<char>, c: char, lo: int, hi: int) -> int
    decreases hi - lo,
{
    if lo >= hi {
        hi
    } else if s[lo] == c {
        lo
    } else {
        first_index_of(s, c, lo + 1, hi)
    }
}

pub proof fn lemma_last_index_bounds(s: Seq<char>, c: char, hi: int)
    ensures
        -1 <= last_index_of(s, c, hi) < if hi > 0 { hi } else { 0 },
    decreases hi,
{
    if hi > 0 {
        lemma_last_index_bounds(s, c, hi - 1);
    }
}

pub proof fn lemma_first_index_bounds(s: Seq<char>, c: char, lo: int, hi: int)
    requires
        lo <= hi,
    ensures
        lo <= first_index_of(s, c, lo, hi) <= hi,
    decreases hi - lo,
{
    if lo < hi {
        lemma_first_index_bounds(s, c, lo + 1, hi);
    }
}

/// The batch report: on the last line holding the `|` marker, the failed GUIDs before the
/// first marker and the skipped ones after it. `None` when no line holds the marker (the
/// script died before reporting).
pub open spec fn report_spec(s: Seq<char>) -> Option<(Seq<Seq<char>>, Seq<Seq<char>>)> {
    let p = last_index_of(s, '|', s.len() as int);
    if p < 0 {
        None
    } else {
        let ls = last_index_of(s, '\n', p) + 1;
        let le = first_index_of(s, '\n', p, s.len() as int);
        let q = first_index_of(s, '|', ls, le);
        Some((list_items(s.subrange(ls, q), ','), list_items(s.subrange(q + 1, le), ',')))
    }
}

fn last_index(v: &Vec<char>, c: char, hi: usize) -> (r: Option<usize>)
    requires
        hi <= v@.len(),
    ensures
        match r {
            Some(k) => k == last_index_of(v@, c, hi as int),
            None => last_index_of(v@, c, hi as int) == -1,
        },
{
    let mut i: usize = hi;
    while i > 0
        invariant
            i <= hi <= v@.len(),
            last_index_of(v@, c, i as int) == last_index_of(v@, c, hi as int),
        decreases i,
    {
        if v[i - 1] == c {
            return Some(i - 1);
        }
        i = i - 1;
    }
    None
}

fn first_index(v: &Vec<char>, c: char, lo: usize, hi: usize) -> (r: usize)
    requires
        lo <= hi <= v@.len(),
    ensures
        r == first_index_of(v@, c, lo as int, hi as int),
{
    let mut i: usize = lo;
    while i < hi
        invariant
            lo <= i <= hi <= v@.len(),
            first_index_of(v@, c, i as int, hi as int) == first_index_of(v@, c, lo as int, hi as int),
        decreases hi - i,
    {
        if v[i] == c {
            return i;
        }
        i = i + 1;
    }
    i
}

/// Read the batch report off the script's standard output.
pub fn parse_batch_output(stdout: &str) -> (r: Option<(Vec<String>, Vec<String>)>)
    ensures
        match report_spec(stdout@) {
            None => r is None,
            Some((f, k)) => r matches Some((rf, rk)) && strings_view(rf@) == f && strings_view(
                rk@,
            ) == k,
        },
{
    let v = crate::ip::chars_of(stdout);
    let n = v.len();
    let p = match last_index(&v, '|', n) {
        None => return None,
        Some(p) => p,
    };
    proof {
        lemma_last_index_bounds(v@, '|', n as int);
        lemma_last_index_bounds(v@, '\n', p as int);
    }
    let ls = match last_index(&v, '\n', p) {
        None => 0,
        Some(k) => k + 1,
    };
    let le = first_index(&v, '\n', p, n);
    proof {
        lemma_first_index_bounds(v@, '\n', p as int, n as int);
    }
    let q = first_index(&v, '|', ls, le);
    proof {
        lemma_first_index_bounds(v@, '|', ls as int, le as int);
    }
    proof {
        lemma_last_index_hit(v@, '|', n as int);
        assert(v@[p as int] == '|');
        assert(le > p) by {
            lemma_first_index_bounds(v@, '\n', p + 1, n as int);
        }
        lemma_first_is_first(v@, '|', ls as int, le as int, p as int);
    }
    let failed = parse_guid_list(stdout.substring_char(ls, q));
    let skipped = parse_guid_list(stdout.substring_char(q + 1, le));
    Some((failed, skipped))
}

proof fn lemma_last_index_hit(s: Seq<char>, c: char, hi: int)
    ensures
        last_index_of(s, c, hi) >= 0 ==> s[last_index_of(s, c, hi)] == c,
    decreases hi,
{
    if hi > 0 {
        lemma_last_index_hit(s, c, hi - 1);
    }
}

proof fn lemma_first_is_first(s: Seq<char>, c: char, lo: int, hi: int, k: int)
    requires
        lo <= k < hi,
        s[k] == c,
    ensures
        first_index_of(s, c, lo, hi) <= k,
    decreases hi - lo,
{
    if s[lo] != c {
        lemma_first_is_first(s, c, lo + 1, hi, k);
    }
}

/// Per-entry results of one batch. Without a report every entry failed; otherwise an entry
/// succeeded unless the report names it failed or it was rejected before the script.
pub open spec fn batch_results_spec(
    es: Seq<EntryView>,
    report: Option<(Seq<Seq<char>>, Seq<Seq<char>>)>,
    rejected: Seq<Seq<char>>,
) -> Seq<(Seq<char>, bool)> {
    es.map_values(
        |e: EntryView|
            (
                e.guid,
                match report {
                    None => false,
                    Some(r) => !r.0.contains(e.guid) && !rejected.contains(e.guid),
                },
            ),
    )
}

pub open spec fn opt_report_view(r: Option<(Vec<String>, Vec<String>)>) -> Option<
    (Seq<Seq<char>>, Seq<Seq<char>>),
> {
    match r {
        Some(p) => Some((strings_view(p.0@), strings_view(p.1@))),
        None => None,
    }
}

pub fn batch_results(
    entries: &Vec<LiveApplyEntry>,
    report: &Option<(Vec<String>, Vec<String>)>,
    rejected: &Vec<String>,
) -> (r: Vec<(String, bool)>)
    ensures
        results_view(r@) == batch_results_spec(
            entries_view(entries@),
            opt_report_view(*report),
            strings_view(rejected@),
        ),
{
    let ghost ev = entries_view(entries@);
    let ghost want = batch_results_spec(ev, opt_report_view(*report), strings_view(rejected@));
    let mut out: Vec<(String, bool)> = Vec::new();
    let mut i: usize = 0;
    while i < entries.len()
        invariant
            i <= entries@.len(),
            ev == entries_view(entries@),
            want == batch_results_spec(ev, opt_report_view(*report), strings_view(rejected@)),
            results_view(out@) == want.take(i as int),
        decreases entries@.len() - i,
    {
        let g = &entries[i].guid;
        let ok = match report {
            None => false,
            Some(r) => !contains_string(&r.0, g) && !contains_string(rejected, g),
        };
        let ghost prev = out@;
        out.push((g.clone(), ok));
        proof {
            assert(results_view(out@) =~= results_view(prev).push((g@, ok)));
            assert(want[i as int] == (g@, ok));
            assert(want.take(i + 1) =~= want.take(i as int).push(want[i as int]));
        }
        i = i + 1;
    }
    proof {
        assert(want.take(want.len() as int) =~= want);
    }
    out
}

/// The GUIDs whose live apply failed, in result order.
pub open spec fn failed_guids_spec(results: Seq<(Seq<char>, bool)>) -> Seq<Seq<char>>
    decreases results.len(),
{
    if results.len() == 0 {
        seq![]
    } else if results.last().1 {
        failed_guids_spec(results.drop_last())
    } else {
        failed_guids_spec(results.drop_last()).push(results.last().0)
    }
}

pub fn failed_guids(results: &Vec<(String, bool)>) -> (r: Vec<String>)
    ensures
        strings_view(r@) == failed_guids_spec(results_view(results@)),
{
    let ghost rv = results_view(results@);
    let mut out: Vec<String> = Vec::new();
    let mut i: usize = 0;
    while i < results.len()
        invariant
            i <= results@.len(),
            rv == results_view(results@),
            strings_view(out@) == failed_guids_spec(rv.take(i as int)),
        decreases results@.len() - i,
    {
        proof {
            assert(rv.take(i + 1).drop_last() =~= rv.take(i as int));
            assert(rv.take(i + 1).last() == rv[i as int]);
        }
        if !results[i].1 {
            let ghost prev = out@;
            out.push(results[i].0.clone());
            proof {
                assert(strings_view(out@) =~= strings_view(prev).push(results@[i as int].0@));
            }
        }
        i = i + 1;
    }
    proof {
        assert(rv.take(rv.len() as int) =~= rv);
    }
    out
}

/// The entries of a retry batch: those whose GUID failed, in entry order.
pub open spec fn retry_entries_spec(es: Seq<EntryView>, failed: Seq<Seq<char>>) -> Seq<EntryView> {
    es.filter(|e: EntryView| failed.contains(e.guid))
}

fn copy_opt_list(o: &Option<Vec<String>>) -> (r: Option<Vec<String>>)
    ensures
        opt_strings_view(r) == opt_strings_view(*o),
{
    match o {
        None => None,
        Some(v) => {
            let mut c: Vec<String> = Vec::new();
            let mut i: usize = 0;
            while i < v.len()
                invariant
                    i <= v@.len(),
                    strings_view(c@) == strings_view(v@).take(i as int),
                decreases v@.len() - i,
            {
                let ghost prev = c@;
                c.push(v[i].clone());
                proof {
                    assert(strings_view(c@) =~= strings_view(prev).push(v@[i as int]@));
                    assert(strings_view(v@).take(i + 1) =~= strings_view(v@).take(i as int).push(
                        v@[i as int]@,
                    ));
                }
                i = i + 1;
            }
            proof {
                assert(strings_view(v@).take(v@.len() as int) =~= strings_view(v@));
            }
            Some(c)
        },
    }
}

impl LiveApplyEntry {
    /// A copy with the same value.
    pub fn duplicate(&self) -> (r: LiveApplyEntry)
        ensures
            r@ == self@,
    {
        LiveApplyEntry {
            guid: self.guid.clone(),
            ipv4_index: self.ipv4_index,
            ipv6_index: self.ipv6_index,
            ipv4_servers: copy_opt_list(&self.ipv4_servers),
            ipv6_servers: copy_opt_list(&self.ipv6_servers),
        }
    }
}

pub fn retry_entries(entries: &Vec<LiveApplyEntry>, failed: &Vec<String>) -> (r: Vec<LiveApplyEntry>)
    ensures
        entries_view(r@) == retry_entries_spec(entries_view(entries@), strings_view(failed@)),
{
    let ghost ev = entries_view(entries@);
    let ghost fv = strings_view(failed@);
    let ghost pred = |e: EntryView| fv.contains(e.guid);
    let mut out: Vec<LiveApplyEntry> = Vec::new();
    let mut i: usize = 0;
    while i < entries.len()
        invariant
            i <= entries@.len(),
            ev == entries_view(entries@),
            fv == strings_view(failed@),
            pred == (|e: EntryView| fv.contains(e.guid)),
            entries_view(out@) == ev.take(i as int).filter(pred),
        decreases entries@.len() - i,
    {
        proof {
            reveal_with_fuel(Seq::filter, 1);
            assert(ev.take(i + 1).drop_last() =~= ev.take(i as int));
            assert(ev.take(i + 1).last() == entries@[i as int]@);
        }
        if contains_string(failed, &entries[i].guid) {
            let e = entries[i].duplicate();
            let ghost prev = out@;
            out.push(e);
            proof {
                assert(entries_view(out@) =~= entries_view(prev).push(e@));
            }
        }
        i = i + 1;
    }
    proof {
        assert(ev.take(ev.len() as int) =~= ev);
    }
    out
}

/// A first-batch result stands unless it failed and the retry succeeded for that GUID.
pub open spec fn merge_retry_spec(first: Seq<(Seq<char>, bool)>, retried: Seq<(Seq<char>, bool)>) -> Seq<
    (Seq<char>, bool),
> {
    first.map_values(
        |p: (Seq<char>, bool)|
            (p.0, p.1 || exists|j: int| 0 <= j < retried.len() && #[trigger] retried[j] == (p.0, true)),
    )
}

fn retry_succeeded(retried: &Vec<(String, bool)>, g: &String) -> (r: bool)
    ensures
        r == exists|j: int|
            0 <= j < retried@.len() && #[trigger] results_view(retried@)[j] == (g@, true),
{
    let ghost rv = results_view(retried@);
    let mut j: usize = 0;
    while j < retried.len()
        invariant
            j <= retried@.len(),
            rv == results_view(retried@),
            forall|k: int| 0 <= k < j ==> #[trigger] rv[k] != (g@, true),
        decreases retried@.len() - j,
    {
        if retried[j].1 && retried[j].0 == *g {
            proof {
                assert(rv[j as int] == (g@, true));
            }
            return true;
        }
        proof {
            assert(rv[j as int] == (retried@[j as int].0@, retried@[j as int].1));
        }
        j = j + 1;
    }
    false
}

pub fn merge_retry(first: &Vec<(String, bool)>, retried: &Vec<(String, bool)>) -> (r: Vec<(String, bool)>)
    ensures
        results_view(r@) == merge_retry_spec(results_view(first@), results_view(retried@)),
{
    let ghost want = merge_retry_spec(results_view(first@), results_view(retried@));
    let mut out: Vec<(String, bool)> = Vec::new();
    let mut i: usize = 0;
    while i < first.len()
        invariant
            i <= first@.len(),
            want == merge_retry_spec(results_view(first@), results_view(retried@)),
            results_view(out@) == want.take(i as int),
        decreases first@.len() - i,
    {
        let g = &first[i].0;
        let ok = first[i].1 || retry_succeeded(retried, g);
        let ghost prev = out@;
        out.push((g.clone(), ok));
        proof {
            assert(results_view(out@) =~= results_view(prev).push((g@, ok)));
            assert(want[i as int] == (g@, ok));
            assert(want.take(i + 1) =~= want.take(i as int).push(want[i as int]));
        }
        i = i + 1;
    }
    proof {
        assert(want.take(want.len() as int) =~= want);
    }
    out
}

pub open spec fn is_ascii_lower(c: char) -> bool {
    'a' <= c && c <= 'z'
}

/// Two characters equal up to ASCII case.
pub open spec fn same_letter(x: char, y: char) -> bool {
    x == y || (is_ascii_lower(x) && (y as u32) + 32 == x as u32) || (is_ascii_lower(y) && (x as u32)
        + 32 == y as u32)
}

/// Two GUID spellings of the same adapter: equal up to ASCII case.
pub open spec fn same_guid(a: Seq<char>, b: Seq<char>) -> bool {
    a.len() == b.len() && forall|i: int| 0 <= i < a.len() ==> same_letter(#[trigger] a[i], b[i])
}

pub fn same_guid_text(a: &str, b: &str) -> (r: bool)
    ensures
        r == same_guid(a@, b@),
{
    let n = a.unicode_len();
    if n != b.unicode_len() {
        return false;
    }
    let mut i: usize = 0;
    while i < n
        invariant
            n == a@.len(),
            n == b@.len(),
            i <= n,
            forall|j: int| 0 <= j < i ==> same_letter(#[trigger] a@[j], b@[j]),
        decreases n - i,
    {
        let x = a.get_char(i);
        let y = b.get_char(i);
        let same = x == y || ('a' <= x && x <= 'z' && (y as u32) + 32 == x as u32) || ('a' <= y && y
            <= 'z' && (x as u32) + 32 == y as u32);
        if !same {
            return false;
        }
        i = i + 1;
    }
    true
}

pub ghost struct ActiveView {
    pub guid: Seq<char>,
    pub ipv4_index: u32,
    pub ipv6_index: u32,
}

impl View for ActiveAdapter {
    type V = ActiveView;

    open spec fn view(&self) -> ActiveView {
        ActiveView { guid: self.guid@, ipv4_index: self.ipv4_index, ipv6_index: self.ipv6_index }
    }
}

pub open spec fn actives_view(v: Seq<ActiveAdapter>) -> Seq<ActiveView> {
    v.map_values(|a: ActiveAdapter| a@)
}

/// The first live adapter answering to `g` (up to ASCII case) at or after `from`, or -1. The
/// live list never holds two spellings of one GUID.
pub open spec fn match_index(act: Seq<ActiveView>, g: Seq<char>, from: int) -> int
    decreases act.len() - from,
{
    if from < 0 || from >= act.len() {
        -1
    } else if same_guid(act[from].guid, g) {
        from
    } else {
        match_index(act, g, from + 1)
    }
}

fn find_active(active: &Vec<ActiveAdapter>, g: &str) -> (r: Option<usize>)
    ensures
        match r {
            Some(k) => k == match_index(actives_view(active@), g@, 0) && k < active@.len(),
            None => match_index(actives_view(active@), g@, 0) == -1,
        },
{
    let ghost av = actives_view(active@);
    let mut i: usize = 0;
    while i < active.len()
        invariant
            i <= active@.len(),
            av == actives_view(active@),
            match_index(av, g@, i as int) == match_index(av, g@, 0),
        decreases active@.len() - i,
    {
        if same_guid_text(active[i].guid.as_str(), g) {
            return Some(i);
        }
        i = i + 1;
    }
    None
}

/// Record a live adapter unless one answering to the same GUID is already recorded.
pub fn add_active(active: &mut Vec<ActiveAdapter>, adapter: ActiveAdapter)
    ensures
        match_index(actives_view(old(active)@), adapter@.guid, 0) >= 0 ==> final(active)@ == old(
            active,
        )@,
        match_index(actives_view(old(active)@), adapter@.guid, 0) < 0 ==> actives_view(final(active)@)
            == actives_view(old(active)@).push(adapter@),
{
    match find_active(active, adapter.guid.as_str()) {
        Some(_) => {},
        None => {
            let ghost prev = active@;
            active.push(adapter);
            proof {
                assert(actives_view(active@) =~= actives_view(prev).push(adapter@));
            }
        },
    }
}

/// GUIDs without a live adapter have no live resolver to point anywhere: they succeed as is.
pub open spec fn inactive_results(guids: Seq<Seq<char>>, act: Seq<ActiveView>) -> Seq<(Seq<char>, bool)>
    decreases guids.len(),
{
    if guids.len() == 0 {
        seq![]
    } else if match_index(act, guids.last(), 0) < 0 {
        inactive_results(guids.drop_last(), act).push((guids.last(), true))
    } else {
        inactive_results(guids.drop_last(), act)
    }
}

pub open spec fn loopback_entries(guids: Seq<Seq<char>>, act: Seq<ActiveView>) -> Seq<EntryView>
    decreases guids.len(),
{
    if guids.len() == 0 {
        seq![]
    } else {
        let k = match_index(act, guids.last(), 0);
        if k < 0 {
            loopback_entries(guids.drop_last(), act)
        } else {
            loopback_entries(guids.drop_last(), act).push(
                EntryView {
                    guid: guids.last(),
                    ipv4_index: act[k].ipv4_index,
                    ipv6_index: act[k].ipv6_index,
                    ipv4_servers: Some(seq![LOOPBACK_V4@]),
                    ipv6_servers: Some(seq![]),
                },
            )
        }
    }
}

/// Split the GUIDs to protect into those with no live adapter and the batch entries of the
/// live ones (each keeps the caller's spelling of its GUID).
pub fn plan_loopback(guids: &Vec<String>, active: &Vec<ActiveAdapter>) -> (r: (
    Vec<(String, bool)>,
    Vec<LiveApplyEntry>,
))
    ensures
        results_view(r.0@) == inactive_results(strings_view(guids@), actives_view(active@)),
        entries_view(r.1@) == loopback_entries(strings_view(guids@), actives_view(active@)),
{
    let ghost gv = strings_view(guids@);
    let ghost av = actives_view(active@);
    let mut done: Vec<(String, bool)> = Vec::new();
    let mut entries: Vec<LiveApplyEntry> = Vec::new();
    let mut i: usize = 0;
    while i < guids.len()
        invariant
            i <= guids@.len(),
            gv == strings_view(guids@),
            av == actives_view(active@),
            results_view(done@) == inactive_results(gv.take(i as int), av),
            entries_view(entries@) == loopback_entries(gv.take(i as int), av),
        decreases guids@.len() - i,
    {
        proof {
            assert(gv.take(i + 1).drop_last() =~= gv.take(i as int));
            assert(gv.take(i + 1).last() == guids@[i as int]@);
        }
        let g = &guids[i];
        match find_active(active, g.as_str()) {
            None => {
                let ghost prev = done@;
                done.push((g.clone(), true));
                proof {
                    assert(results_view(done@) =~= results_view(prev).push((g@, true)));
                }
            },
            Some(k) => {
                let e = loopback_entry(g.as_str(), active[k].ipv4_index, active[k].ipv6_index);
                let ghost prev = entries@;
                entries.push(e);
                proof {
                    assert(av[k as int] == active@[k as int]@);
                    assert(entries_view(entries@) =~= entries_view(prev).push(e@));
                }
            },
        }
        i = i + 1;
    }
    proof {
        assert(gv.take(gv.len() as int) =~= gv);
    }
    (done, entries)
}

pub open spec fn guids_of(adapters: Seq<AdapterView>) -> Seq<Seq<char>> {
    adapters.map_values(|a: AdapterView| a.guid)
}

pub open spec fn restore_entries(adapters: Seq<AdapterView>, act: Seq<ActiveView>) -> Seq<EntryView>
    decreases adapters.len(),
{
    if adapters.len() == 0 {
        seq![]
    } else {
        let a = adapters.last();
        let k = match_index(act, a.guid, 0);
        if k < 0 {
            restore_entries(adapters.drop_last(), act)
        } else {
            restore_entries(adapters.drop_last(), act).push(
                EntryView {
                    guid: a.guid,
                    ipv4_index: act[k].ipv4_index,
                    ipv6_index: act[k].ipv6_index,
                    ipv4_servers: restored_family_spec(a.v4_profile, a.v4),
                    ipv6_servers: restored_family_spec(a.v6_profile, a.v6),
                },
            )
        }
    }
}

/// Split the snapshot into adapters with no live adapter (nothing to apply live; their
/// registry values are still restored) and the restore entries of the live ones.
pub fn plan_restore(adapters: &Vec<AdapterDnsSnapshot>, active: &Vec<ActiveAdapter>) -> (r: (
    Vec<(String, bool)>,
    Vec<LiveApplyEntry>,
))
    ensures
        results_view(r.0@) == inactive_results(
            guids_of(crate::dns::adapters_view(adapters@)),
            actives_view(active@),
        ),
        entries_view(r.1@) == restore_entries(crate::dns::adapters_view(adapters@), actives_view(active@)),
{
    let ghost sv = crate::dns::adapters_view(adapters@);
    let ghost av = actives_view(active@);
    let mut done: Vec<(String, bool)> = Vec::new();
    let mut entries: Vec<LiveApplyEntry> = Vec::new();
    let mut i: usize = 0;
    while i < adapters.len()
        invariant
            i <= adapters@.len(),
            sv == crate::dns::adapters_view(adapters@),
            av == actives_view(active@),
            results_view(done@) == inactive_results(guids_of(sv.take(i as int)), av),
            entries_view(entries@) == restore_entries(sv.take(i as int), av),
        decreases adapters@.len() - i,
    {
        proof {
            assert(sv.take(i + 1).drop_last() =~= sv.take(i as int));
            assert(sv.take(i + 1).last() == adapters@[i as int]@);
            assert(guids_of(sv.take(i + 1)).drop_last() =~= guids_of(sv.take(i as int)));
            assert(guids_of(sv.take(i + 1)).last() == adapters@[i as int]@.guid);
        }
        let a = &adapters[i];
        match find_active(active, a.interface_guid.as_str()) {
            None => {
                let ghost prev = done@;
                done.push((a.interface_guid.clone(), true));
                proof {
                    assert(results_view(done@) =~= results_view(prev).push((a@.guid, true)));
                }
            },
            Some(k) => {
                let e = restore_entry(a, active[k].ipv4_index, active[k].ipv6_index);
                let ghost prev = entries@;
                entries.push(e);
                proof {
                    assert(av[k as int] == active@[k as int]@);
                    assert(entries_view(entries@) =~= entries_view(prev).push(e@));
                }
            },
        }
        i = i + 1;
    }
    proof {
        assert(sv.take(sv.len() as int) =~= sv);
    }
    (done, entries)
}

// ---------------------------------------------------------------------------------------------
// Registry plan
// ---------------------------------------------------------------------------------------------

pub const TCPIP4_INTERFACES: &'static str = "SYSTEM\\CurrentControlSet\\Services\\Tcpip\\Parameters\\Interfaces";
pub const TCPIP6_INTERFACES: &'static str = "SYSTEM\\CurrentControlSet\\Services\\Tcpip6\\Parameters\\Interfaces";
pub const NAME_SERVER: &'static str = "NameServer";
pub const PROFILE_NAME_SERVER: &'static str = "ProfileNameServer";

/// The adapter's IPv4 interface key.
pub fn v4_key(guid: &str) -> (r: String)
    ensures
        r@ == TCPIP4_INTERFACES@ + "\\"@ + guid@,
{
    let mut k = TCPIP4_INTERFACES.to_string();
    k.append("\\");
    k.append(guid);
    k
}

/// The adapter's IPv6 interface key.
pub fn v6_key(guid: &str) -> (r: String)
    ensures
        r@ == TCPIP6_INTERFACES@ + "\\"@ + guid@,
{
    let mut k = TCPIP6_INTERFACES.to_string();
    k.append("\\");
    k.append(guid);
    k
}

/// One registry mutation: set a value, or delete it (DHCP).
#[derive(Clone, Debug, PartialEq, Eq)]
pub enum RegistryOp {
    Write { subkey: String, value: String, data: String },
    Delete { subkey: String, value: String },
}

pub ghost enum RegistryOpView {
    Write { subkey: Seq<char>, value: Seq<char>, data: Seq<char> },
    Delete { subkey: Seq<char>, value: Seq<char> },
}

impl View for RegistryOp {
    type V = RegistryOpView;

    open spec fn view(&self) -> RegistryOpView {
        match self {
            RegistryOp::Write { subkey, value, data } => RegistryOpView::Write {
                subkey: subkey@,
                value: value@,
                data: data@,
            },
            RegistryOp::Delete { subkey, value } => RegistryOpView::Delete { subkey: subkey@, value: value@ },
        }
    }
}

pub open spec fn ops_view(v: Seq<RegistryOp>) -> Seq<RegistryOpView> {
    v.map_values(|o: RegistryOp| o@)
}

/// Restoring one saved value: write it back, or delete it where none was saved.
pub open spec fn restore_op_spec(subkey: Seq<char>, value: Seq<char>, saved: Option<Seq<char>>) -> RegistryOpView {
    match saved {
        Some(data) => RegistryOpView::Write { subkey, value, data },
        None => RegistryOpView::Delete { subkey, value },
    }
}

pub fn restore_value_op(subkey: &str, value: &str, saved: &Option<String>) -> (r: RegistryOp)
    ensures
        r@ == restore_op_spec(subkey@, value@, crate::dns::opt_view(*saved)),
{
    match saved {
        Some(data) => RegistryOp::Write { subkey: subkey.to_string(), value: value.to_string(), data: data.clone() },
        None => RegistryOp::Delete { subkey: subkey.to_string(), value: value.to_string() },
    }
}

/// Protecting one adapter: both IPv4 values on the loopback resolver and both IPv6 values an
/// empty static list, for each family whose key exists.
pub open spec fn loopback_ops_spec(guid: Seq<char>, has_v4: bool, has_v6: bool) -> Seq<RegistryOpView> {
    let k4 = TCPIP4_INTERFACES@ + "\\"@ + guid;
    let k6 = TCPIP6_INTERFACES@ + "\\"@ + guid;
    let v4: Seq<RegistryOpView> = if has_v4 {
        seq![
            RegistryOpView::Write { subkey: k4, value: NAME_SERVER@, data: LOOPBACK_V4@ },
            RegistryOpView::Write { subkey: k4, value: PROFILE_NAME_SERVER@, data: LOOPBACK_V4@ },
        ]
    } else {
        seq![]
    };
    let v6: Seq<RegistryOpView> = if has_v6 {
        seq![
            RegistryOpView::Write { subkey: k6, value: NAME_SERVER@, data: crate::dns::NO_NAME_SERVERS@ },
            RegistryOpView::Write { subkey: k6, value: PROFILE_NAME_SERVER@, data: crate::dns::NO_NAME_SERVERS@ },
        ]
    } else {
        seq![]
    };
    v4 + v6
}

pub fn loopback_registry_ops(guid: &str, has_v4: bool, has_v6: bool) -> (r: Vec<RegistryOp>)
    ensures
        ops_view(r@) == loopback_ops_spec(guid@, has_v4, has_v6),
{
    let mut ops: Vec<RegistryOp> = Vec::new();
    if has_v4 {
        ops.push(RegistryOp::Write { subkey: v4_key(guid), value: NAME_SERVER.to_string(), data: LOOPBACK_V4.to_string() });
        ops.push(RegistryOp::Write { subkey: v4_key(guid), value: PROFILE_NAME_SERVER.to_string(), data: LOOPBACK_V4.to_string() });
    }
    if has_v6 {
        ops.push(RegistryOp::Write {
            subkey: v6_key(guid),
            value: NAME_SERVER.to_string(),
            data: crate::dns::NO_NAME_SERVERS.to_string(),
        });
        ops.push(RegistryOp::Write {
            subkey: v6_key(guid),
            value: PROFILE_NAME_SERVER.to_string(),
            data: crate::dns::NO_NAME_SERVERS.to_string(),
        });
    }
    proof {
        assert(ops_view(ops@) =~= loopback_ops_spec(guid@, has_v4, has_v6));
    }
    ops
}

/// Restoring one adapter: the four exact saved values, for each family whose key exists.
pub open spec fn restore_ops_spec(a: AdapterView, has_v4: bool, has_v6: bool) -> Seq<RegistryOpView> {
    let k4 = TCPIP4_INTERFACES@ + "\\"@ + a.guid;
    let k6 = TCPIP6_INTERFACES@ + "\\"@ + a.guid;
    let v4: Seq<RegistryOpView> = if has_v4 {
        seq![
            restore_op_spec(k4, NAME_SERVER@, a.v4),
            restore_op_spec(k4, PROFILE_NAME_SERVER@, a.v4_profile),
        ]
    } else {
        seq![]
    };
    let v6: Seq<RegistryOpView> = if has_v6 {
        seq![
            restore_op_spec(k6, NAME_SERVER@, a.v6),
            restore_op_spec(k6, PROFILE_NAME_SERVER@, a.v6_profile),
        ]
    } else {
        seq![]
    };
    v4 + v6
}

pub fn restore_registry_ops(adapter: &AdapterDnsSnapshot, has_v4: bool, has_v6: bool) -> (r: Vec<
    RegistryOp,
>)
    ensures
        ops_view(r@) == restore_ops_spec(adapter@, has_v4, has_v6),
{
    let guid = adapter.interface_guid.as_str();
    let mut ops: Vec<RegistryOp> = Vec::new();
    if has_v4 {
        let k = v4_key(guid);
        ops.push(restore_value_op(k.as_str(), NAME_SERVER, &adapter.ipv4_name_server));
        ops.push(restore_value_op(k.as_str(), PROFILE_NAME_SERVER, &adapter.ipv4_profile_name_server));
    }
    if has_v6 {
        let k = v6_key(guid);
        ops.push(restore_value_op(k.as_str(), NAME_SERVER, &adapter.ipv6_name_server));
        ops.push(restore_value_op(k.as_str(), PROFILE_NAME_SERVER, &adapter.ipv6_profile_name_server));
    }
    proof {
        assert(ops_view(ops@) =~= restore_ops_spec(adapter@, has_v4, has_v6));
    }
    ops
}

/// One character in UTF-16: a unit below U+10000, a surrogate pair above.
pub open spec fn utf16_of(c: char) -> Seq<u16> {
    let n = c as u32;
    if n < 0x10000 {
        seq![n as u16]
    } else {
        let v = n - 0x10000;
        seq![(0xD800 + v / 1024) as u16, (0xDC00 + v % 1024) as u16]
    }
}

pub open spec fn utf16_seq(s: Seq<char>) -> Seq<u16>
    decreases s.len(),
{
    if s.len() == 0 {
        seq![]
    } else {
        utf16_seq(s.drop_last()) + utf16_of(s.last())
    }
}

/// A registry path as the wide, NUL-terminated string the Win32 API takes.
pub fn super_wide(value: &str) -> (r: Vec<u16>)
    ensures
        r@ == utf16_seq(value@).push(0u16),
{
    let chars = crate::ip::chars_of(value);
    let mut out: Vec<u16> = Vec::new();
    let mut i: usize = 0;
    while i < chars.len()
        invariant
            i <= chars@.len(),
            chars@ == value@,
            out@ == utf16_seq(chars@.take(i as int)),
        decreases chars@.len() - i,
    {
        let c = chars[i];
        let n = c as u32;
        proof {
            assert(chars@.take(i + 1).drop_last() =~= chars@.take(i as int));
            assert(chars@.take(i + 1).last() == c);
        }
        if n < 0x10000 {
            out.push(n as u16);
            proof {
                assert(out@ =~= utf16_seq(chars@.take(i as int)) + utf16_of(c));
            }
        } else {
            proof {
                vstd::utf8::char_is_scalar(c);
                assert(n <= 0x10FFFF);
            }
            let v = n - 0x10000;
            out.push((0xD800 + v / 1024) as u16);
            out.push((0xDC00 + v % 1024) as u16);
            proof {
                assert(out@ =~= utf16_seq(chars@.take(i as int)) + utf16_of(c));
            }
        }
        i = i + 1;
    }
    out.push(0);
    proof {
        assert(chars@.take(chars@.len() as int) =~= chars@);
    }
    out
}

} // verus!
