//! The system's proxy settings as a record. Nothing here touches the
//! system: the settings are read into a `ProxyConfig`, changed here, and
//! written back by the caller.

use vstd::prelude::*;
use vstd::string::{StringExecFns, StrSliceExecFns};
use crate::text::{find, find_char, last_word, last_word_bounds, occurs, occurs_in, to_chars};

verus! {

/// Proxy settings: whether a proxy is in use, where it listens, how to
/// log in, and which hosts go around it.
pub struct ProxyConfig {
    pub enabled: bool,
    pub host: String,
    pub port: String,
    pub username: String,
    pub password: String,
    pub bypass: String,
}

/// The content of a `ProxyConfig`.
pub struct ProxyConfigView {
    pub enabled: bool,
    pub host: Seq<char>,
    pub port: Seq<char>,
    pub username: Seq<char>,
    pub password: Seq<char>,
    pub bypass: Seq<char>,
}

impl View for ProxyConfig {
    type V = ProxyConfigView;

    open spec fn view(&self) -> ProxyConfigView {
        ProxyConfigView {
            enabled: self.enabled,
            host: self.host@,
            port: self.port@,
            username: self.username@,
            password: self.password@,
            bypass: self.bypass@,
        }
    }
}

impl Clone for ProxyConfig {
    fn clone(&self) -> (copy: Self)
        ensures
            copy@ == self@,
    {
        ProxyConfig {
            enabled: self.enabled,
            host: self.host.clone(),
            port: self.port.clone(),
            username: self.username.clone(),
            password: self.password.clone(),
            bypass: self.bypass.clone(),
        }
    }
}

/// Why settings were not changed.
#[derive(Clone, Copy, Debug, PartialEq, Eq, Structural)]
pub enum SettingsError {
    /// The proxy was not given as a host and a port with one colon
    /// between them.
    InvalidFormat,
}

impl SettingsError {
    /// The error in words.
    pub fn message(&self) -> (text: String)
        ensures
            text@ == "Invalid proxy format"@,
    {
        "Invalid proxy format".to_owned()
    }
}

/// Whether a text names a proxy: a host and a port with exactly one colon
/// in all, which stands between them.
pub open spec fn names_proxy(proxy: Seq<char>) -> bool {
    let colon = find(proxy, ':', 0);
    colon < proxy.len() && find(proxy, ':', colon + 1) == proxy.len()
}

/// The proxy that settings name, as `host:port`; empty where no proxy is
/// in use.
pub open spec fn server_of(settings: ProxyConfigView) -> Seq<char> {
    if settings.enabled {
        settings.host + ":"@ + settings.port
    } else {
        Seq::empty()
    }
}

/// The settings once the proxy `proxy` is put to use: host and port are
/// the two sides of its colon, the rest stays.
pub open spec fn with_server(settings: ProxyConfigView, proxy: Seq<char>) -> ProxyConfigView {
    ProxyConfigView {
        enabled: true,
        host: proxy.subrange(0, find(proxy, ':', 0)),
        port: proxy.subrange(find(proxy, ':', 0) + 1, proxy.len() as int),
        ..settings
    }
}

/// Gives the proxy that the settings name, as `host:port`; an empty text
/// where no proxy is in use.
pub fn get_system_proxy(settings: &ProxyConfig) -> (server: String)
    ensures
        server@ == server_of(settings@),
{
    if settings.enabled {
        let mut server = settings.host.clone();
        server.append(":");
        server.append(settings.port.as_str());
        server
    } else {
        String::new()
    }
}

/// Puts a proxy, given as `host:port`, to use. A text of another shape
/// is refused and the settings stay as they are.
pub fn set_system_proxy(settings: &mut ProxyConfig, proxy: &str) -> (done: Result<
    (),
    SettingsError,
>)
    ensures
        names_proxy(proxy@) ==> done is Ok && final(settings)@ == with_server(
            old(settings)@,
            proxy@,
        ),
        !names_proxy(proxy@) ==> done == Err::<(), SettingsError>(SettingsError::InvalidFormat)
            && final(settings)@ == old(settings)@,
{
    let chars = to_chars(proxy);
    let colon = find_char(&chars, ':', 0);
    if colon >= chars.len() {
        return Err(SettingsError::InvalidFormat);
    }
    let next = find_char(&chars, ':', colon + 1);
    if next < chars.len() {
        return Err(SettingsError::InvalidFormat);
    }
    settings.enabled = true;
    settings.host = proxy.substring_char(0, colon).to_owned();
    settings.port = proxy.substring_char(colon + 1, chars.len()).to_owned();
    Ok(())
}

/// Takes the proxy out of use. What it was stays in the settings.
pub fn clear_system_proxy(settings: &mut ProxyConfig)
    ensures
        final(settings)@ == (ProxyConfigView { enabled: false, ..old(settings)@ }),
{
    settings.enabled = false;
}

/// What is to be done with the system's settings when the proxy stops.
pub enum Restore {
    /// Put this proxy, which was in use before, back to use.
    PutBack { proxy: String },
    /// Take the proxy out of use.
    Clear,
}

/// The content of a `Restore`.
pub enum RestoreView {
    PutBack { proxy: Seq<char> },
    Clear,
}

impl View for Restore {
    type V = RestoreView;

    open spec fn view(&self) -> RestoreView {
        match self {
            Restore::PutBack { proxy } => RestoreView::PutBack { proxy: proxy@ },
            Restore::Clear => RestoreView::Clear,
        }
    }
}

/// Decides how the system's settings are left when the proxy stops. The
/// settings that were `saved` when it started are put back. Where none
/// were saved, or where putting them back has `failed`, the proxy is
/// taken out of use.
pub fn restore_step(saved: &Option<String>, failed: bool) -> (step: Restore)
    ensures
        step@ == match *saved {
            Some(proxy) if !failed => RestoreView::PutBack { proxy: proxy@ },
            _ => RestoreView::Clear,
        },
{
    match saved {
        Some(proxy) => {
            if failed {
                Restore::Clear
            } else {
                Restore::PutBack { proxy: proxy.clone() }
            }
        },
        None => Restore::Clear,
    }
}

/// What was set is what is read: after a proxy is put to use, the
/// settings name that proxy, letter for letter; after it is taken out of
/// use, they name none.
pub proof fn set_then_get(settings: ProxyConfigView, proxy: Seq<char>)
    requires
        names_proxy(proxy),
    ensures
        server_of(with_server(settings, proxy)) == proxy,
        server_of(ProxyConfigView { enabled: false, ..with_server(settings, proxy) })
            == Seq::<char>::empty(),
{
    reveal_strlit(":");
    let colon = find(proxy, ':', 0);
    crate::text::lemma_find(proxy, ':', 0);
    assert(":"@ =~= seq![':']);
    assert(proxy.subrange(0, colon) + seq![':'] + proxy.subrange(colon + 1, proxy.len() as int)
        =~= proxy);
}

/// The first line of `s`, among those that begin at `start` or later, in
/// which `marker` stands. Lines end at a line feed.
pub open spec fn line_holding(s: Seq<char>, marker: Seq<char>, start: int) -> Option<Seq<char>>
    decreases s.len() - start,
{
    if start < 0 || start >= s.len() {
        None
    } else {
        let end = find(s, '\n', start);
        if start <= end <= s.len() && occurs(s.subrange(start, end), marker) {
            Some(s.subrange(start, end))
        } else if start <= end < s.len() {
            line_holding(s, marker, end + 1)
        } else {
            None
        }
    }
}

/// The value that a tool printed beside `marker`: the last word of the
/// first line in which `marker` stands. It is empty where no line holds
/// the marker.
pub open spec fn printed_value(output: Seq<char>, marker: Seq<char>) -> Seq<char> {
    match line_holding(output, marker, 0) {
        Some(line) => last_word(line),
        None => Seq::empty(),
    }
}

fn read_value(output: &str, chars: &Vec<char>, marker: &str) -> (value: String)
    requires
        chars@ == output@,
    ensures
        value@ == printed_value(output@, marker@),
{
    let needle = to_chars(marker);
    let n = chars.len();
    let mut start: usize = 0;
    while start < n
        invariant
            n == chars.len(),
            chars@ == output@,
            needle@ == marker@,
            line_holding(chars@, needle@, 0) == line_holding(chars@, needle@, start as int),
        decreases n - start,
    {
        let end = find_char(chars, '\n', start);
        if occurs_in(chars, start, end, &needle) {
            let (a, b) = last_word_bounds(chars, start, end);
            return output.substring_char(a, b).to_owned();
        }
        if end >= n {
            return String::new();
        }
        start = end + 1;
    }
    String::new()
}

/// The proxy that the Windows registry names, as a query for the value
/// `ProxyServer` prints it: the last word of the line that holds the
/// value's name, and nothing where the name is not printed.
pub open spec fn registry_proxy(output: Seq<char>) -> Seq<char> {
    if occurs(output, "ProxyServer"@) {
        printed_value(output, "ProxyServer"@)
    } else {
        Seq::empty()
    }
}

/// Reads the proxy out of what a registry query for `ProxyServer` printed.
pub fn proxy_from_registry(output: &str) -> (proxy: String)
    ensures
        proxy@ == registry_proxy(output@),
{
    let chars = to_chars(output);
    let name = to_chars("ProxyServer");
    if occurs_in(&chars, 0, chars.len(), &name) {
        assert(chars@.subrange(0, chars@.len() as int) =~= chars@);
        read_value(output, &chars, "ProxyServer")
    } else {
        assert(chars@.subrange(0, chars@.len() as int) =~= chars@);
        String::new()
    }
}

/// The proxy that macOS names, as `networksetup -getwebproxy` prints it:
/// where the proxy is enabled, the values printed for server and port
/// with a colon between them; nothing where it is not.
pub open spec fn networksetup_proxy(output: Seq<char>) -> Seq<char> {
    if occurs(output, "Enabled: Yes"@) {
        printed_value(output, "Server:"@) + ":"@ + printed_value(output, "Port:"@)
    } else {
        Seq::empty()
    }
}

/// Reads the proxy out of what `networksetup -getwebproxy` printed.
pub fn proxy_from_networksetup(output: &str) -> (proxy: String)
    ensures
        proxy@ == networksetup_proxy(output@),
{
    let chars = to_chars(output);
    let enabled = to_chars("Enabled: Yes");
    assert(chars@.subrange(0, chars@.len() as int) =~= chars@);
    if occurs_in(&chars, 0, chars.len(), &enabled) {
        let mut proxy = read_value(output, &chars, "Server:");
        let port = read_value(output, &chars, "Port:");
        proxy.append(":");
        proxy.append(port.as_str());
        proxy
    } else {
        String::new()
    }
}

} // verus!
