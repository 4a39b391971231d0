use tono_service::dns_call::{dns_call_is_periodic, dns_call_timeout_error, wedged_dns_error, CallSlot};

#[test]
fn a_wedged_dns_call_times_out_and_blocks_a_second_writer() {
    let mut slot = CallSlot::new();
    let epoch = slot.claim("apply loopback", 100).expect("free slot");
    assert!(slot.abandon(epoch), "the call is still running at its deadline");
    let wedged = slot.claim("restore", 200).expect_err("a second writer must be refused");
    assert_eq!(wedged.operation, "apply loopback");
    assert!(wedged.abandoned);
    let message = wedged_dns_error("restore", &wedged.operation, "25.1s");
    assert!(message.starts_with("TONO_DNS_ENGINE_WEDGED: the DNS engine has been inside apply loopback for 25.1s without returning, so restore is refused"));
    assert_eq!(slot.release(epoch + 7), None, "a foreign epoch releases nothing");
    assert!(slot.in_flight.is_some());
    assert_eq!(slot.release(epoch), Some(true));
    assert!(slot.claim("collect", 300).is_ok(), "accepted again once the call returned");
}

#[test]
fn a_healthy_dns_call_leaves_no_claim_behind() {
    let mut slot = CallSlot::new();
    let first = slot.claim("collect", 1).unwrap();
    assert_eq!(slot.release(first), Some(false));
    assert!(slot.in_flight.is_none());
    let second = slot.claim("collect", 2).unwrap();
    assert_ne!(first, second);
    assert!(!slot.abandon(first), "an old epoch cannot abandon a newer call");
    assert!(!slot.in_flight.as_ref().unwrap().abandoned);
}

#[test]
fn only_the_watchdog_reads_are_periodic() {
    assert!(dns_call_is_periodic("collect"));
    assert!(dns_call_is_periodic("verify loopback"));
    assert!(!dns_call_is_periodic("apply snapshot"));
    assert_eq!(
        dns_call_timeout_error("25s", "collect"),
        "TONO_DNS_ENGINE_WEDGED: the DNS engine did not answer within 25s during collect; the DNS Client service (Dnscache), a registry filter driver or third-party security software may be wedged. Protected DNS was left in its last known state, its snapshot was kept, and no further DNS operation starts until the pending call returns."
    );
}
