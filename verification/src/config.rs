//! Connection settings and the builder that assembles them field by field.

use vstd::prelude::*;

verus! {

/// Connection settings for the demo application.
#[derive(Debug)]
pub struct Config {
    host: String,
    port: u16,
    use_tls: bool,
}

impl Config {
    /// The configured host name.
    pub closed spec fn spec_host(self) -> Seq<char> {
        self.host@
    }

    /// The configured port.
    pub closed spec fn spec_port(self) -> u16 {
        self.port
    }

    /// Whether the connection is encrypted.
    pub closed spec fn spec_use_tls(self) -> bool {
        self.use_tls
    }

    /// The configured host name.
    pub fn host(&self) -> (r: &str)
        ensures
            r@ == self.spec_host(),
    {
        self.host.as_str()
    }

    /// The configured port.
    pub fn port(&self) -> (r: u16)
        ensures
            r == self.spec_port(),
    {
        self.port
    }

    /// Whether the connection is encrypted.
    pub fn use_tls(&self) -> (r: bool)
        ensures
            r == self.spec_use_tls(),
    {
        self.use_tls
    }
}

/// Assembles a [`Config`] one field at a time; [`ConfigBuilder::build`]
/// succeeds exactly when every field has been given.
#[derive(Debug)]
pub struct ConfigBuilder {
    host: Option<String>,
    port: Option<u16>,
    use_tls: Option<bool>,
}

impl ConfigBuilder {
    /// The host name given so far, if any.
    pub closed spec fn spec_host(self) -> Option<Seq<char>> {
        match self.host {
            Some(h) => Some(h@),
            None => None,
        }
    }

    /// The port given so far, if any.
    pub closed spec fn spec_port(self) -> Option<u16> {
        self.port
    }

    /// The encryption choice given so far, if any.
    pub closed spec fn spec_use_tls(self) -> Option<bool> {
        self.use_tls
    }

    /// Set the host name.
    pub fn host(self, value: String) -> (r: ConfigBuilder)
        ensures
            r.spec_host() == Some(value@),
            r.spec_port() == self.spec_port(),
            r.spec_use_tls() == self.spec_use_tls(),
    {
        ConfigBuilder { host: Some(value), ..self }
    }

    /// Set the port.
    pub fn port(self, value: u16) -> (r: ConfigBuilder)
        ensures
            r.spec_host() == self.spec_host(),
            r.spec_port() == Some(value),
            r.spec_use_tls() == self.spec_use_tls(),
    {
        ConfigBuilder { port: Some(value), ..self }
    }

    /// Choose whether the connection is encrypted.
    pub fn use_tls(self, value: bool) -> (r: ConfigBuilder)
        ensures
            r.spec_host() == self.spec_host(),
            r.spec_port() == self.spec_port(),
            r.spec_use_tls() == Some(value),
    {
        ConfigBuilder { use_tls: Some(value), ..self }
    }

    /// Assemble the settings.  Succeeds exactly when every field was given;
    /// otherwise it names the first field still missing.
    pub fn build(self) -> (r: Result<Config, String>)
        ensures
            match r {
                Ok(c) => {
                    &&& self.spec_host() == Some(c.spec_host())
                    &&& self.spec_port() == Some(c.spec_port())
                    &&& self.spec_use_tls() == Some(c.spec_use_tls())
                },
                Err(m) => {
                    &&& (self.spec_host() is None || self.spec_port() is None
                        || self.spec_use_tls() is None)
                    &&& m@ == if self.spec_host() is None {
                        "host is not set"@
                    } else if self.spec_port() is None {
                        "port is not set"@
                    } else {
                        "use_tls is not set"@
                    }
                },
            },
    {
        let ConfigBuilder { host, port, use_tls } = self;
        match (host, port, use_tls) {
            (Some(host), Some(port), Some(use_tls)) => Ok(Config { host, port, use_tls }),
            (None, _, _) => Err("host is not set".to_owned()),
            (Some(_), None, _) => Err("port is not set".to_owned()),
            (Some(_), Some(_), None) => Err("use_tls is not set".to_owned()),
        }
    }
}

impl Default for ConfigBuilder {
    /// A builder with no field given yet.
    fn default() -> (r: ConfigBuilder)
        ensures
            r.spec_host() is None,
            r.spec_port() is None,
            r.spec_use_tls() is None,
    {
        ConfigBuilder { host: None, port: None, use_tls: None }
    }
}

} // verus!
