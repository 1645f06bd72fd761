//! Network configuration: a value object naming the relay/signal endpoint,
//! the bootstrap endpoint, the auxiliary connectivity-assist endpoints, and
//! whether wide-area networking is enabled. A configuration is immutable;
//! changing the mode builds a new one.

use vstd::prelude::*;

verus! {

/// The networking mode of the runtime: wide-area (via relay and bootstrap
/// endpoints) or restricted to local-area discovery.
#[derive(Clone, Copy, Debug, PartialEq, Eq, Structural)]
pub enum Mode {
    Wan,
    LanOnly,
}

/// The network configuration handed to the runtime on launch.
pub struct NetworkConfig {
    /// Rendezvous endpoint used to discover peers.
    pub bootstrap_url: String,
    /// Relay/signal endpoint used to establish wide-area connections.
    pub signal_url: String,
    /// Auxiliary connectivity-assist endpoints.
    pub assist_urls: Vec<String>,
    /// Whether wide-area networking is attempted at all.
    pub wan_enabled: bool,
}

impl NetworkConfig {
    /// The configuration seen as a tuple of its field views.
    pub open spec fn view_parts(&self) -> (Seq<char>, Seq<char>, Seq<Seq<char>>, bool) {
        (
            self.bootstrap_url@,
            self.signal_url@,
            self.assist_urls.deep_view(),
            self.wan_enabled,
        )
    }
}

/// Build the configuration the node starts from: the caller's defaults with
/// the optional bootstrap and signal overrides applied. Wide-area networking
/// is enabled; `config_for_mode` narrows it afterwards if the node is to stay
/// local-only.
pub fn network_config(
    defaults: NetworkConfig,
    bootstrap_url: Option<String>,
    signal_url: Option<String>,
) -> (config: NetworkConfig)
    ensures
        config.bootstrap_url@ == match bootstrap_url {
            Some(u) => u@,
            None => defaults.bootstrap_url@,
        },
        config.signal_url@ == match signal_url {
            Some(u) => u@,
            None => defaults.signal_url@,
        },
        config.assist_urls.deep_view() == defaults.assist_urls.deep_view(),
        config.wan_enabled,
{
    let mut config = defaults;
    config.wan_enabled = true;
    if let Some(url) = bootstrap_url {
        config.bootstrap_url = url;
    }
    if let Some(url) = signal_url {
        config.signal_url = url;
    }
    config
}

/// The configuration for a given mode: the endpoints are kept, and wide-area
/// networking is enabled exactly in `Mode::Wan`.
pub fn config_for_mode(base: &NetworkConfig, mode: Mode) -> (config: NetworkConfig)
    ensures
        config.bootstrap_url@ == base.bootstrap_url@,
        config.signal_url@ == base.signal_url@,
        config.assist_urls.deep_view() == base.assist_urls.deep_view(),
        config.wan_enabled == (mode == Mode::Wan),
{
    NetworkConfig {
        bootstrap_url: base.bootstrap_url.clone(),
        signal_url: base.signal_url.clone(),
        assist_urls: clone_urls(&base.assist_urls),
        wan_enabled: match mode {
            Mode::Wan => true,
            Mode::LanOnly => false,
        },
    }
}

/// Copy a list of endpoint strings.
fn clone_urls(urls: &Vec<String>) -> (copy: Vec<String>)
    ensures
        copy.deep_view() == urls.deep_view(),
{
    let mut copy: Vec<String> = Vec::new();
    let mut i: usize = 0;
    while i < urls.len()
        invariant
            i <= urls.len(),
            copy.len() == i,
            forall|j: int| 0 <= j < i ==> copy.deep_view()[j] == urls.deep_view()[j],
        decreases urls.len() - i,
    {
        copy.push(urls[i].clone());
        i = i + 1;
    }
    proof {
        assert(copy.deep_view() =~= urls.deep_view());
    }
    copy
}

} // verus!
