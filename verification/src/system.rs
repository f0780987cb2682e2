//! What the application makes of its environment: the address and port the
//! proxy sidecar should use, and the answers of the administrator check and
//! of the cleanup of leftover proxy processes.

use vstd::prelude::*;
use vstd::string::StringExecFns;
use crate::text::{ascii_lower, chars_of, eq_ignore_ascii_case, equal_ignoring_ascii_case, string_of, trim, trimmed};
use crate::unicode::{lossy_text, lossy_utf8};

verus! {

/// The first port tried for the proxy sidecar.
pub const SIDECAR_PORT_START: u16 = 8080;

/// The last port tried for the proxy sidecar before asking the system.
pub const SIDECAR_PORT_END: u16 = 8090;

pub const ALL_INTERFACES: &'static str = "0.0.0.0";

pub const LOOPBACK_ONLY: &'static str = "127.0.0.1";

pub const NO_FREE_PORT_MESSAGE: &'static str = "Uygun port bulunamadı.";

pub const ZOMBIES_CLEANED_PREFIX: &'static str = "Zombi süreçler temizlendi: ";

pub const NO_ZOMBIES_PREFIX: &'static str = "Zombi süreç bulunamadı (normal): ";

/// The report of the cleanup of leftover proxy processes on systems other
/// than Windows, where there is nothing to clean up.
pub const ZOMBIE_CLEANUP_UNSUPPORTED: &'static str = "Zombi temizleme sadece Windows'ta desteklenir.";

/// Where the proxy sidecar listens, and the LAN address devices use.
pub struct ConfigResponse {
    pub port: u16,
    pub lan_ip: String,
    pub bind_address: String,
}

/// The address the sidecar binds: every interface when the proxy is shared
/// on the LAN, the loopback interface otherwise.
pub open spec fn bind_address_text(allow_lan_sharing: bool) -> Seq<char> {
    if allow_lan_sharing {
        ALL_INTERFACES@
    } else {
        LOOPBACK_ONLY@
    }
}

/// The address the sidecar binds.
pub fn sidecar_bind_address(allow_lan_sharing: bool) -> (addr: &'static str)
    ensures
        addr@ == bind_address_text(allow_lan_sharing),
{
    if allow_lan_sharing {
        ALL_INTERFACES
    } else {
        LOOPBACK_ONLY
    }
}

/// The sidecar configuration for the port found (0 when none was found) and
/// the LAN address: an error exactly when no port was found.
pub fn get_sidecar_config(selected_port: u16, allow_lan_sharing: bool, lan_ip: String) -> (r: Result<
    ConfigResponse,
    String,
>)
    ensures
        selected_port == 0 <==> r is Err,
        r matches Err(m) ==> m@ == NO_FREE_PORT_MESSAGE@,
        r matches Ok(c) ==> c.port == selected_port && c.lan_ip@ == lan_ip@ && c.bind_address@
            == bind_address_text(allow_lan_sharing),
{
    if selected_port == 0 {
        return Err(String::from_str(NO_FREE_PORT_MESSAGE));
    }
    Ok(
        ConfigResponse {
            port: selected_port,
            lan_ip,
            bind_address: String::from_str(sidecar_bind_address(allow_lan_sharing)),
        },
    )
}

/// Whether the output of the elevation query says `true` (up to ASCII case
/// and surrounding white space).
pub open spec fn admin_answer(stdout: Seq<u8>) -> bool {
    eq_ignore_ascii_case(trim(lossy_utf8(stdout)), seq!['t', 'r', 'u', 'e'])
}

/// The elevation query says yes exactly when its output, trimmed, is the
/// four letters t, r, u, e in any ASCII case.
pub proof fn admin_answer_is_true(stdout: Seq<u8>)
    ensures
        admin_answer(stdout) <==> {
            let t = trim(lossy_utf8(stdout));
            &&& t.len() == 4
            &&& ascii_lower(t[0]) == 't'
            &&& ascii_lower(t[1]) == 'r'
            &&& ascii_lower(t[2]) == 'u'
            &&& ascii_lower(t[3]) == 'e'
        },
{
    let t = trim(lossy_utf8(stdout));
    let w = seq!['t', 'r', 'u', 'e'];
    if t.len() == 4 && ascii_lower(t[0]) == 't' && ascii_lower(t[1]) == 'r' && ascii_lower(t[2])
        == 'u' && ascii_lower(t[3]) == 'e' {
        assert forall|k: int| 0 <= k < t.len() implies ascii_lower(t[k]) == ascii_lower(w[k]) by {
            if k == 0 {
            } else if k == 1 {
            } else if k == 2 {
            } else {
            }
        }
    }
    if admin_answer(stdout) {
        assert(ascii_lower(t[0]) == ascii_lower(w[0]));
        assert(ascii_lower(t[1]) == ascii_lower(w[1]));
        assert(ascii_lower(t[2]) == ascii_lower(w[2]));
        assert(ascii_lower(t[3]) == ascii_lower(w[3]));
    }
}

/// Whether the elevation query printed `true`.
pub fn check_admin_output(stdout: &[u8]) -> (is_admin: bool)
    ensures
        is_admin == admin_answer(stdout@),
{
    let text = lossy_text(stdout);
    let chars = chars_of(text.as_str());
    let t = trimmed(&chars);
    let expected: [char; 4] = ['t', 'r', 'u', 'e'];
    assert(expected@ =~= seq!['t', 'r', 'u', 'e']);
    equal_ignoring_ascii_case(&t, &expected)
}

/// The report of the cleanup of leftover proxy processes: what `taskkill`
/// printed, trimmed, after a word on whether any were found.
pub open spec fn zombie_message_text(success: bool, stdout: Seq<u8>, stderr: Seq<u8>) -> Seq<char> {
    if success {
        ZOMBIES_CLEANED_PREFIX@ + trim(lossy_utf8(stdout))
    } else {
        NO_ZOMBIES_PREFIX@ + trim(lossy_utf8(stderr))
    }
}

/// The report of the cleanup of leftover proxy processes.
pub fn zombie_cleanup_message(success: bool, stdout: &[u8], stderr: &[u8]) -> (message: String)
    ensures
        message@ == zombie_message_text(success, stdout@, stderr@),
{
    let (mut message, output) = if success {
        (String::from_str(ZOMBIES_CLEANED_PREFIX), lossy_text(stdout))
    } else {
        (String::from_str(NO_ZOMBIES_PREFIX), lossy_text(stderr))
    };
    let chars = chars_of(output.as_str());
    let t = string_of(&trimmed(&chars));
    message.append(t.as_str());
    message
}

} // verus!
