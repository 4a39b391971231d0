use tono_service::dns::AdapterDnsSnapshot;
use tono_service::dns_live::{
    add_active, adapter_protected, all_protected, any_on_loopback, batch_results, batch_script,
    failed_guids, loopback_entry, merge_retry, parse_batch_output, parse_guid_list, plan_loopback,
    plan_restore, powershell_list, restore_entry, retry_entries, same_guid_text, script_safe,
    loopback_registry_ops, restore_registry_ops, super_wide, v4_key, v6_key, ActiveAdapter,
    AdapterReading, ApplyMode, RegistryOp, SCRIPT_PRELUDE, SCRIPT_REPORT,
};

fn active(guid: &str, v4: u32, v6: u32) -> ActiveAdapter {
    ActiveAdapter { guid: guid.to_owned(), ipv4_index: v4, ipv6_index: v6 }
}

#[test]
fn only_alphanumerics_and_the_allowed_punctuation_are_script_safe() {
    assert!(script_safe("{0A1B-2C}", "{}-"));
    assert!(!script_safe("{0A1B'; rm}", "{}-"));
    assert!(script_safe("2606:4700::1111", ".:"));
    assert!(script_safe("1.1.1.1", ".:"));
    assert!(!script_safe("1.1.1.1 ", ".:"));
    assert!(!script_safe("é", ".:"));
    assert!(script_safe("", ".:"));
}

#[test]
fn powershell_lists_are_quoted_arrays_or_null() {
    assert_eq!(powershell_list(&None), "$null");
    assert_eq!(powershell_list(&Some(vec![])), "@()");
    assert_eq!(
        powershell_list(&Some(vec!["8.8.8.8".to_owned(), "8.8.4.4".to_owned()])),
        "@('8.8.8.8','8.8.4.4')"
    );
}

#[test]
fn guid_lists_are_trimmed_and_blank_entries_dropped() {
    assert_eq!(parse_guid_list(" {A}, ,{B} "), vec!["{A}".to_owned(), "{B}".to_owned()]);
    assert!(parse_guid_list("").is_empty());
}

#[test]
fn the_batch_script_carries_one_line_per_safe_entry() {
    let entries = vec![
        loopback_entry("{A}", 3, 0),
        loopback_entry("{B'}", 4, 5),
    ];
    let (script, rejected) = batch_script(&entries, ApplyMode::Loopback);
    assert_eq!(rejected, vec!["{B'}".to_owned()]);
    let expected = format!("{SCRIPT_PRELUDE}Set-AdapterDns '{{A}}' 3 0 @('127.0.0.1') @() $false\n{SCRIPT_REPORT}");
    assert_eq!(script, expected);
    let (restore, _) = batch_script(&vec![], ApplyMode::Restore);
    assert_eq!(restore, format!("{SCRIPT_PRELUDE}{SCRIPT_REPORT}"));
}

#[test]
fn the_report_is_read_from_the_last_marked_line() {
    assert_eq!(parse_batch_output("no marker here\n"), None);
    assert_eq!(
        parse_batch_output("noise\n{A},{B}|{C}\r\n"),
        Some((vec!["{A}".to_owned(), "{B}".to_owned()], vec!["{C}".to_owned()]))
    );
    assert_eq!(
        parse_batch_output("x|y\nwarning\n|{S}"),
        Some((vec![], vec!["{S}".to_owned()]))
    );
    assert_eq!(parse_batch_output("a|b|c"), Some((vec!["a".to_owned()], vec!["b|c".to_owned()])));
}

#[test]
fn batch_results_mark_failed_rejected_and_unreported_entries() {
    let entries = vec![loopback_entry("{A}", 1, 0), loopback_entry("{B}", 2, 0), loopback_entry("{C}", 3, 0)];
    let report = Some((vec!["{B}".to_owned()], vec![]));
    let results = batch_results(&entries, &report, &vec!["{C}".to_owned()]);
    assert_eq!(
        results,
        vec![("{A}".to_owned(), true), ("{B}".to_owned(), false), ("{C}".to_owned(), false)]
    );
    let none = batch_results(&entries, &None, &vec![]);
    assert!(none.iter().all(|(_, ok)| !ok));
}

#[test]
fn a_retry_can_only_turn_failures_into_successes() {
    let entries = vec![loopback_entry("{A}", 1, 0), loopback_entry("{B}", 2, 0)];
    let first = vec![("{A}".to_owned(), true), ("{B}".to_owned(), false)];
    let failed = failed_guids(&first);
    assert_eq!(failed, vec!["{B}".to_owned()]);
    let retry = retry_entries(&entries, &failed);
    assert_eq!(retry.len(), 1);
    assert_eq!(retry[0].guid, "{B}");
    let merged = merge_retry(&first, &vec![("{B}".to_owned(), true)]);
    assert_eq!(merged, vec![("{A}".to_owned(), true), ("{B}".to_owned(), true)]);
    let still = merge_retry(&first, &vec![("{B}".to_owned(), false)]);
    assert_eq!(still, first);
}

#[test]
fn live_adapters_are_matched_regardless_of_guid_case() {
    assert!(same_guid_text("{ab-C}", "{AB-c}"));
    assert!(!same_guid_text("{ab}", "{ac}"));
    let mut live = vec![];
    add_active(&mut live, active("{ab}", 7, 8));
    add_active(&mut live, active("{AB}", 9, 9));
    assert_eq!(live.len(), 1);
    let (inactive, entries) = plan_loopback(&vec!["{AB}".to_owned(), "{gone}".to_owned()], &live);
    assert_eq!(inactive, vec![("{gone}".to_owned(), true)]);
    assert_eq!(entries, vec![loopback_entry("{AB}", 7, 8)]);
}

#[test]
fn restore_entries_carry_the_saved_lists() {
    let saved = AdapterDnsSnapshot {
        interface_guid: "{A}".to_owned(),
        ipv4_name_server: Some("1.1.1.1".to_owned()),
        ..Default::default()
    };
    let entry = restore_entry(&saved, 4, 6);
    assert_eq!(entry.ipv4_servers, Some(vec!["1.1.1.1".to_owned()]));
    assert_eq!(entry.ipv6_servers, None);
    let (inactive, entries) = plan_restore(&vec![saved.clone()], &vec![active("{a}", 4, 6)]);
    assert!(inactive.is_empty());
    assert_eq!(entries, vec![entry]);
}

#[test]
fn protection_is_read_per_family() {
    let protected = AdapterDnsSnapshot {
        interface_guid: "{A}".to_owned(),
        ipv4_name_server: Some("127.0.0.1".to_owned()),
        ipv6_name_server: Some("".to_owned()),
        ..Default::default()
    };
    assert!(adapter_protected(&protected, true, true));
    let drifted = AdapterDnsSnapshot {
        ipv4_profile_name_server: Some("1.1.1.1".to_owned()),
        ..protected.clone()
    };
    assert!(!adapter_protected(&drifted, true, true));
    assert!(adapter_protected(&drifted, false, true), "an absent family is skipped");
    let readings = vec![
        AdapterReading { adapter: protected.clone(), has_v4_key: true, has_v6_key: true },
        AdapterReading { adapter: drifted.clone(), has_v4_key: true, has_v6_key: false },
    ];
    assert!(!all_protected(&readings));
    assert!(any_on_loopback(&vec![drifted]));
    let dhcp = AdapterDnsSnapshot { interface_guid: "{D}".to_owned(), ..Default::default() };
    assert!(!any_on_loopback(&vec![dhcp]));
}

#[test]
fn the_registry_plan_names_exact_keys_and_values() {
    assert_eq!(v4_key("{A}"), r"SYSTEM\CurrentControlSet\Services\Tcpip\Parameters\Interfaces\{A}");
    assert_eq!(v6_key("{A}"), r"SYSTEM\CurrentControlSet\Services\Tcpip6\Parameters\Interfaces\{A}");
    let ops = loopback_registry_ops("{A}", true, false);
    assert_eq!(
        ops,
        vec![
            RegistryOp::Write { subkey: v4_key("{A}"), value: "NameServer".to_owned(), data: "127.0.0.1".to_owned() },
            RegistryOp::Write { subkey: v4_key("{A}"), value: "ProfileNameServer".to_owned(), data: "127.0.0.1".to_owned() },
        ]
    );
    assert_eq!(loopback_registry_ops("{A}", false, true)[0], RegistryOp::Write { subkey: v6_key("{A}"), value: "NameServer".to_owned(), data: String::new() });
    let saved = AdapterDnsSnapshot {
        interface_guid: "{A}".to_owned(),
        ipv6_name_server: Some("2606:4700:4700::1111".to_owned()),
        ..Default::default()
    };
    assert_eq!(
        restore_registry_ops(&saved, false, true),
        vec![
            RegistryOp::Write { subkey: v6_key("{A}"), value: "NameServer".to_owned(), data: "2606:4700:4700::1111".to_owned() },
            RegistryOp::Delete { subkey: v6_key("{A}"), value: "ProfileNameServer".to_owned() },
        ]
    );
}

#[test]
fn wide_strings_are_utf16_with_a_terminator() {
    for text in ["", "SYSTEM\\x", "été", "a😀b"] {
        let mut expected: Vec<u16> = text.encode_utf16().collect();
        expected.push(0);
        assert_eq!(super_wide(text), expected, "{text}");
    }
}
