# tono_service

The decision logic of the Tono Windows service, verified with Verus.

The service keeps a machine fail-closed while a VPN session is wanted: a WFP kill switch
blocks everything but the selected proxy endpoints and the infrastructure a host needs, and
protected DNS points every adapter at the local resolver. Leaving protection is gated: the
network opens only after the saved DNS servers are proven restored.

## Layout

- `src/` — the verified library.
  - `wfp_model` — the WFP rule tables for each kill-switch mode, deterministic rule keys and
    the key-only install/remove plan; `wfp_keys` computes the keys of the configurations the
    rule tables are checked against.
  - `kill_switch` — the intent record and the two-phase arm, verification, restriction,
    the DNS-before-disarm release, service-start recovery and the emergency tombstone.
  - `dns`, `dns_restore`, `dns_live`, `dns_watchdog`, `dns_call` — the per-adapter DNS
    snapshot and its merge, the restore proof and its verdict, the live PowerShell batch
    (script, report, retry) and the registry plan, the reconciliation watchdog, and the
    single-writer claim around engine calls.
  - `ip`, `text` — IP literal parsing/rendering and the string helpers the above rely on.
  - `netmon`, `operation`, `client`, `cleanup`, `lifecycle`, `process`, `channel`,
    `structure` — event bookkeeping, the lifecycle-operation registry, IPC retry policy,
    installer/uninstaller contracts and the shared wire types.
- `tests/` — scenario tests against the library.
- `app/` — the service around the library: persistence, async facades, process-wide state
  and the engines that touch the machine.
