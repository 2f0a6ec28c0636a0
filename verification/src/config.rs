//! Engine configuration.
//!
//! A configuration maps a fixed set of properties to text values;
//! properties left unset fall back to engine defaults.

use vstd::prelude::*;
use vstd::string::*;

verus! {

/// The properties an engine handle can be configured with.
#[derive(Clone, Copy, PartialEq, Eq, Structural, Debug)]
pub enum ConfigProperty {
    /// The service name under which spans are reported.
    Service,
    /// The deployment environment tag.
    Env,
    /// The service version tag.
    Version,
    /// Where the collector agent listens.
    AgentUrl,
}

/// The mathematical value of a configuration.
pub ghost struct ConfigData {
    pub service: Option<Seq<char>>,
    pub env: Option<Seq<char>>,
    pub version: Option<Seq<char>>,
    pub agent_url: Option<Seq<char>>,
}

/// A configuration under construction; all properties start unset.
pub struct Config {
    service: Option<String>,
    env: Option<String>,
    version: Option<String>,
    agent_url: Option<String>,
}

impl View for Config {
    type V = ConfigData;

    closed spec fn view(&self) -> ConfigData {
        ConfigData {
            service: crate::span::opt_str_view(self.service),
            env: crate::span::opt_str_view(self.env),
            version: crate::span::opt_str_view(self.version),
            agent_url: crate::span::opt_str_view(self.agent_url),
        }
    }
}

pub open spec fn spec_config_empty() -> ConfigData {
    ConfigData {
        service: Option::None,
        env: Option::None,
        version: Option::None,
        agent_url: Option::None,
    }
}

/// The configuration after one property write.
pub open spec fn spec_config_set(c: ConfigData, p: ConfigProperty, v: Seq<char>) -> ConfigData {
    match p {
        ConfigProperty::Service => ConfigData { service: Option::Some(v), ..c },
        ConfigProperty::Env => ConfigData { env: Option::Some(v), ..c },
        ConfigProperty::Version => ConfigData { version: Option::Some(v), ..c },
        ConfigProperty::AgentUrl => ConfigData { agent_url: Option::Some(v), ..c },
    }
}

/// The value a configuration holds for a property.
pub open spec fn spec_config_get(c: ConfigData, p: ConfigProperty) -> Option<Seq<char>> {
    match p {
        ConfigProperty::Service => c.service,
        ConfigProperty::Env => c.env,
        ConfigProperty::Version => c.version,
        ConfigProperty::AgentUrl => c.agent_url,
    }
}

impl Config {
    /// A configuration with every property unset.
    pub fn new() -> (r: Config)
        ensures
            r@ == spec_config_empty(),
    {
        Config { service: None, env: None, version: None, agent_url: None }
    }

    /// Writes one property; a later write to the same property wins.
    pub fn set(&mut self, p: ConfigProperty, v: &str)
        ensures
            final(self)@ == spec_config_set(old(self)@, p, v@),
    {
        let owned = String::from_str(v);
        match p {
            ConfigProperty::Service => {
                self.service = Some(owned);
            },
            ConfigProperty::Env => {
                self.env = Some(owned);
            },
            ConfigProperty::Version => {
                self.version = Some(owned);
            },
            ConfigProperty::AgentUrl => {
                self.agent_url = Some(owned);
            },
        }
    }

    /// Reads one property back.
    pub fn get(&self, p: ConfigProperty) -> (r: Option<&String>)
        ensures
            crate::span::opt_ref_view(r) == spec_config_get(self@, p),
    {
        let slot = match p {
            ConfigProperty::Service => &self.service,
            ConfigProperty::Env => &self.env,
            ConfigProperty::Version => &self.version,
            ConfigProperty::AgentUrl => &self.agent_url,
        };
        match slot {
            Some(s) => Some(s),
            None => None,
        }
    }
}

impl Default for Config {
    /// The same empty configuration `new` yields.
    fn default() -> (r: Config)
        ensures
            r@ == spec_config_empty(),
    {
        Config::new()
    }
}

} // verus!
