//! The compiled release channel's identity: service names, state directory and bundle ids.

use vstd::prelude::*;
use vstd::string::*;

verus! {

#[derive(Clone, Copy, Debug, PartialEq, Eq)]
pub struct ChannelIdentity {
    pub id: &'static str,
    pub service_slug: &'static str,
    pub windows_service_name: &'static str,
    pub windows_state_dir: &'static str,
    pub service_display_name: &'static str,
    pub macos_app_bundle_id: &'static str,
    pub macos_service_id: &'static str,
}

pub const CHANNEL_ID: &'static str = "production";
pub const SERVICE_SLUG: &'static str = "clash-verge-service";
pub const WINDOWS_SERVICE_NAME: &'static str = "TonoService";
pub const WINDOWS_STATE_DIR_NAME: &'static str = "Tono";
pub const SERVICE_DISPLAY_NAME: &'static str = "Tono Service";
pub const MACOS_APP_BUNDLE_ID: &'static str = "io.github.clash-verge-rev.clash-verge-rev";
pub const MACOS_SERVICE_ID: &'static str = "io.github.clash-verge-rev.clash-verge-rev.service";

/// The compiled identity is self-consistent: a non-empty id, names in the Tono and
/// clash-verge-service families, and the service id nested under the app's bundle id.
pub proof fn identity_is_consistent()
    ensures
        CHANNEL_ID@.len() > 0,
        "clash-verge-service"@.is_prefix_of(SERVICE_SLUG@),
        "TonoService"@.is_prefix_of(WINDOWS_SERVICE_NAME@),
        "Tono"@.is_prefix_of(WINDOWS_STATE_DIR_NAME@),
        MACOS_APP_BUNDLE_ID@.is_prefix_of(MACOS_SERVICE_ID@),
{
    reveal_strlit("production");
    reveal_strlit("clash-verge-service");
    reveal_strlit("TonoService");
    reveal_strlit("Tono");
    reveal_strlit("io.github.clash-verge-rev.clash-verge-rev");
    reveal_strlit("io.github.clash-verge-rev.clash-verge-rev.service");
    assert(MACOS_APP_BUNDLE_ID@ =~= MACOS_SERVICE_ID@.take(MACOS_APP_BUNDLE_ID@.len() as int));
    assert("Tono"@ =~= WINDOWS_STATE_DIR_NAME@.take(4));
}

/// The compiled channel's identity.
pub fn channel_identity() -> (r: ChannelIdentity)
    ensures
        r.id == CHANNEL_ID,
        r.service_slug == SERVICE_SLUG,
        r.windows_service_name == WINDOWS_SERVICE_NAME,
        r.windows_state_dir == WINDOWS_STATE_DIR_NAME,
        r.service_display_name == SERVICE_DISPLAY_NAME,
        r.macos_app_bundle_id == MACOS_APP_BUNDLE_ID,
        r.macos_service_id == MACOS_SERVICE_ID,
{
    ChannelIdentity {
        id: CHANNEL_ID,
        service_slug: SERVICE_SLUG,
        windows_service_name: WINDOWS_SERVICE_NAME,
        windows_state_dir: WINDOWS_STATE_DIR_NAME,
        service_display_name: SERVICE_DISPLAY_NAME,
        macos_app_bundle_id: MACOS_APP_BUNDLE_ID,
        macos_service_id: MACOS_SERVICE_ID,
    }
}

} // verus!
