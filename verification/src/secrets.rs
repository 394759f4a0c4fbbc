//! Secret backends: which one is in use and the handles it gives out.
use vstd::prelude::*;
use crate::text::{push_str, string_of};

verus! {

/// The state of a secret backend, as reported to operators.
#[derive(Debug, Clone)]
pub struct SecretProviderStatus {
    pub backend: String,
    pub available: bool,
    pub degraded: bool,
    pub detail: String,
}

/// Why a secret backend refused a request.
#[derive(Debug, Clone)]
pub enum SecretError {
    Unavailable(String),
}

impl SecretError {
    /// The message of the error, as it is displayed.
    pub fn message(&self) -> (res: String)
        ensures
            res@ == match *self {
                SecretError::Unavailable(m) => "secret backend unavailable: "@ + m@,
            },
    {
        match self {
            SecretError::Unavailable(m) => {
                let mut s = string_of("secret backend unavailable: ");
                push_str(&mut s, m.as_str());
                s
            },
        }
    }
}

/// The handle by which a backend refers to a named secret.
pub open spec fn spec_handle(backend: Seq<char>, name: Seq<char>) -> Seq<char> {
    "secret://"@ + backend + "/"@ + name
}

/// A secret backend: it reports its state and hands out handles to named
/// secrets while it is available.
pub trait SecretProvider {
    /// The backend's name.
    spec fn backend_name(&self) -> Seq<char>;

    /// Whether the backend can be used.
    spec fn is_available(&self) -> bool;

    /// The backend's state.
    fn status(&self) -> (res: SecretProviderStatus)
        ensures
            res.backend@ == self.backend_name(),
            res.available == self.is_available(),
    ;

    /// The handle of a named secret, refused while the backend is
    /// unavailable.
    fn get_handle(&self, name: &str) -> (res: Result<String, SecretError>)
        ensures
            self.is_available() ==> (res matches Ok(h) && h@ == spec_handle(
                self.backend_name(),
                name@,
            )),
            !self.is_available() ==> res is Err,
    ;
}

fn handle(backend: &str, name: &str) -> (res: String)
    ensures
        res@ == spec_handle(backend@, name@),
{
    let mut h = string_of("secret://");
    push_str(&mut h, backend);
    push_str(&mut h, "/");
    push_str(&mut h, name);
    h
}

/// The macOS keychain, available where its `security` command answers.
#[derive(Debug, Clone, Copy)]
pub struct MacOsKeychainProvider {
    pub available: bool,
}

impl MacOsKeychainProvider {
    /// The keychain backend, given whether the `security` command answered
    /// on a macOS host.
    pub fn new(security_cli_available: bool) -> (res: Self)
        ensures
            res.available == security_cli_available,
    {
        MacOsKeychainProvider { available: security_cli_available }
    }
}

impl SecretProvider for MacOsKeychainProvider {
    open spec fn backend_name(&self) -> Seq<char> {
        "macos-keychain"@
    }

    open spec fn is_available(&self) -> bool {
        self.available
    }

    fn status(&self) -> (res: SecretProviderStatus)
        ensures
            res.degraded == !self.available,
            res.detail@ == (if self.available {
                "security cli available"@
            } else {
                "security cli unavailable"@
            }),
    {
        SecretProviderStatus {
            backend: string_of("macos-keychain"),
            available: self.available,
            degraded: !self.available,
            detail: if self.available {
                string_of("security cli available")
            } else {
                string_of("security cli unavailable")
            },
        }
    }

    fn get_handle(&self, name: &str) -> (res: Result<String, SecretError>)
        ensures
            !self.available ==> (res matches Err(SecretError::Unavailable(m))
                && m@ == "macOS keychain backend unavailable"@),
    {
        if !self.available {
            return Err(SecretError::Unavailable(string_of("macOS keychain backend unavailable")));
        }
        Ok(handle("macos-keychain", name))
    }
}

/// The Linux secret service, available where its `secret-tool` command
/// answers.
#[derive(Debug, Clone, Copy)]
pub struct LinuxSecretServiceProvider {
    pub available: bool,
}

impl LinuxSecretServiceProvider {
    /// The secret service backend, given whether the `secret-tool` command
    /// answered on a Linux host.
    pub fn new(secret_tool_available: bool) -> (res: Self)
        ensures
            res.available == secret_tool_available,
    {
        LinuxSecretServiceProvider { available: secret_tool_available }
    }
}

impl SecretProvider for LinuxSecretServiceProvider {
    open spec fn backend_name(&self) -> Seq<char> {
        "linux-secret-service"@
    }

    open spec fn is_available(&self) -> bool {
        self.available
    }

    fn status(&self) -> (res: SecretProviderStatus)
        ensures
            res.degraded == !self.available,
            res.detail@ == (if self.available {
                "secret-tool available"@
            } else {
                "secret-tool unavailable"@
            }),
    {
        SecretProviderStatus {
            backend: string_of("linux-secret-service"),
            available: self.available,
            degraded: !self.available,
            detail: if self.available {
                string_of("secret-tool available")
            } else {
                string_of("secret-tool unavailable")
            },
        }
    }

    fn get_handle(&self, name: &str) -> (res: Result<String, SecretError>)
        ensures
            !self.available ==> (res matches Err(SecretError::Unavailable(m))
                && m@ == "Linux secret service backend unavailable"@),
    {
        if !self.available {
            return Err(
                SecretError::Unavailable(string_of("Linux secret service backend unavailable")),
            );
        }
        Ok(handle("linux-secret-service", name))
    }
}

/// The software fallback: always available, always degraded.
#[derive(Debug, Clone, Copy, Default)]
pub struct SoftwareFallbackProvider;

impl SecretProvider for SoftwareFallbackProvider {
    open spec fn backend_name(&self) -> Seq<char> {
        "software-fallback"@
    }

    open spec fn is_available(&self) -> bool {
        true
    }

    fn status(&self) -> (res: SecretProviderStatus)
        ensures
            res.degraded,
            res.detail@ == "software fallback is active"@,
    {
        SecretProviderStatus {
            backend: string_of("software-fallback"),
            available: true,
            degraded: true,
            detail: string_of("software fallback is active"),
        }
    }

    fn get_handle(&self, name: &str) -> (res: Result<String, SecretError>) {
        Ok(handle("software-fallback", name))
    }
}

/// The state of the backend in use: the macOS keychain where it is
/// available, else the Linux secret service where it is, else the software
/// fallback.
pub fn default_provider_status(
    macos: &MacOsKeychainProvider,
    linux: &LinuxSecretServiceProvider,
) -> (res: SecretProviderStatus)
    ensures
        macos.available ==> res.backend@ == "macos-keychain"@ && res.available && !res.degraded
            && res.detail@ == "security cli available"@,
        !macos.available && linux.available ==> res.backend@ == "linux-secret-service"@
            && res.available && !res.degraded && res.detail@ == "secret-tool available"@,
        !macos.available && !linux.available ==> res.backend@ == "software-fallback"@
            && res.available && res.degraded && res.detail@ == "software fallback is active"@,
{
    let status = macos.status();
    if status.available {
        return status;
    }
    let status = linux.status();
    if status.available {
        return status;
    }
    SoftwareFallbackProvider.status()
}

} // verus!
