//! Runtime configuration: the sections of `Application.toml`, and the
//! defaults that fill in whatever the file and the `APP_<SECTION>__<KEY>`
//! environment overrides leave out.

use vstd::prelude::*;

verus! {

/// The host that the hot-reload dev server is dialled at when nothing else is configured.
pub open spec fn spec_default_host() -> Seq<char> {
    seq!['1', '2', '7', '.', '0', '.', '0', '.', '1']
}

/// The port that the hot-reload dev server is dialled at when nothing else is configured.
pub open spec fn spec_default_port() -> u16 {
    8790
}

/// The default host is the loopback address `127.0.0.1`, and the default
/// port is 8790.
pub proof fn lemma_defaults_are_loopback_8790()
    ensures
        spec_default_host() == "127.0.0.1"@,
        spec_default_host().len() == 9,
        spec_default_port() == 8790,
{
    reveal_strlit("127.0.0.1");
    assert(spec_default_host() =~= "127.0.0.1"@);
}

/// The default dev-server host, the loopback address `127.0.0.1`.
pub fn default_host() -> (host: String)
    ensures
        host@ == spec_default_host(),
        host@ == "127.0.0.1"@,
{
    let host = String::from_str("127.0.0.1");
    proof {
        reveal_strlit("127.0.0.1");
    }
    host
}

/// The default dev-server port.
pub fn default_port() -> (port: u16)
    ensures
        port == spec_default_port(),
        port == 8790,
{
    8790
}

/// The hot-reload dev server that the app dials out to (the dev machine, not the phone).
#[derive(Debug)]
pub struct Dev {
    pub host: String,
    pub port: u16,
}

/// The whole runtime configuration.
#[derive(Debug)]
pub struct Application {
    pub dev: Dev,
}

impl Dev {
    /// The section holds the defaults in every field.
    pub open spec fn is_default(&self) -> bool {
        &&& self.host@ == spec_default_host()
        &&& self.port == spec_default_port()
    }

    /// The section with the fields that were configured, and the defaults
    /// in the others.
    pub fn with_defaults(host: Option<String>, port: Option<u16>) -> (dev: Dev)
        ensures
            dev.host@ == match host {
                Some(h) => h@,
                None => spec_default_host(),
            },
            dev.port == match port {
                Some(p) => p,
                None => spec_default_port(),
            },
    {
        let host = match host {
            Some(h) => h,
            None => default_host(),
        };
        let port = match port {
            Some(p) => p,
            None => default_port(),
        };
        Dev { host, port }
    }
}

impl Default for Dev {
    /// The section with the default host and port.
    fn default() -> (dev: Self)
        ensures
            dev.is_default(),
            dev.host@ == spec_default_host(),
            dev.port == spec_default_port(),
    {
        Dev { host: default_host(), port: default_port() }
    }
}

impl Application {
    /// Every section holds its defaults.
    pub open spec fn is_default(&self) -> bool {
        self.dev.is_default()
    }

    /// The configuration with the sections that were configured, and the
    /// default section in place of any other.
    pub fn with_defaults(dev: Option<Dev>) -> (app: Application)
        ensures
            match dev {
                Some(d) => app.dev == d,
                None => app.dev.is_default(),
            },
            dev is None ==> app.dev.host@ == spec_default_host() && app.dev.port
                == spec_default_port(),
    {
        let dev = match dev {
            Some(d) => d,
            None => Dev::default(),
        };
        Application { dev }
    }

    /// The configuration that loading settles on: the extracted one, or the
    /// defaults when extraction failed.
    pub fn loaded_or_default(extracted: Option<Application>) -> (app: Application)
        ensures
            match extracted {
                Some(a) => app == a,
                None => app.is_default(),
            },
            extracted is None ==> app.dev.host@ == spec_default_host() && app.dev.port
                == spec_default_port(),
    {
        match extracted {
            Some(a) => a,
            None => Application::default(),
        }
    }
}

impl Default for Application {
    /// The configuration with every section at its defaults.
    fn default() -> (app: Self)
        ensures
            app.is_default(),
            app.dev.host@ == spec_default_host(),
            app.dev.port == spec_default_port(),
    {
        Application { dev: Dev::default() }
    }
}

} // verus!
