//! What the listener and the client are set up with.

use vstd::prelude::*;

verus! {

/// The settings of both programs.
pub struct Config {
    /// The address that the listener binds and the client connects to.
    pub host: String,
    pub port: u16,
    /// The file with the certificate of the listener, as PEM.
    pub cert_path: String,
    /// The file with its PKCS#8 private key, as PEM.
    pub key_path: String,
    /// What the client logs in with.
    pub login: String,
    pub password: String,
    /// The mailbox that the client selects.
    pub mailbox: String,
    /// Whether the client accepts any certificate and host name. Only for a
    /// listener on the same machine; off unless it is asked for.
    pub accept_any_certificate: bool,
}

impl Default for Config {
    /// A listener and a client on this machine.
    fn default() -> (config: Config)
        ensures
            config.host@ == "127.0.0.1"@,
            config.port == 13337,
            config.cert_path@ == "cert.pem"@,
            config.key_path@ == "key.pem"@,
            config.login@ == "mail@example.com"@,
            config.password@ == "12345"@,
            config.mailbox@ == "INBOX"@,
            !config.accept_any_certificate,
    {
        Config {
            host: "127.0.0.1".to_owned(),
            port: 13337,
            cert_path: "cert.pem".to_owned(),
            key_path: "key.pem".to_owned(),
            login: "mail@example.com".to_owned(),
            password: "12345".to_owned(),
            mailbox: "INBOX".to_owned(),
            accept_any_certificate: false,
        }
    }
}

} // verus!
