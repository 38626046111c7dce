//! The directives of the configuration file.
use vstd::prelude::*;

use crate::text;

verus! {

/// A setting that holds a path.
#[derive(Clone, Copy, Debug, PartialEq, Eq, Structural)]
pub enum PathSetting {
    HostKey,
    AuthorizedKeysFile,
}

/// A setting that is on or off.
#[derive(Clone, Copy, Debug, PartialEq, Eq, Structural)]
pub enum FlagSetting {
    PermitTty,
    PermitExec,
    SftpEnabled,
    AllowTcpForwarding,
    AllowRemoteForwarding,
    GatewayPorts,
    NoDelay,
}

/// A setting that holds a number of things.
#[derive(Clone, Copy, Debug, PartialEq, Eq, Structural)]
pub enum CountSetting {
    MaxUnauthConnectionsGlobal,
    MaxUnauthConnectionsPerIp,
    MaxUnauthConnectionsPerSubnet,
    NewConnectionsPerMinutePerIp,
    NewConnectionsBurstPerIp,
    MaxAuthAttempts,
    AuthFailureBanThreshold,
    KeepaliveMax,
    ChannelBufferSize,
    EventBufferSize,
    AuthorizedKeysMaxEntries,
}

/// A setting that holds a span of time.
#[derive(Clone, Copy, Debug, PartialEq, Eq, Structural)]
pub enum SpanSetting {
    LoginGraceTime,
    ClientBannerTimeout,
    KexStartTimeout,
    AuthRejectionTime,
    AuthFailureBanWindow,
    AuthFailureBanDuration,
    InactivityTimeout,
    KeepaliveInterval,
    AuthorizedKeysReloadInterval,
}

/// A setting that holds a 32-bit size.
#[derive(Clone, Copy, Debug, PartialEq, Eq, Structural)]
pub enum WidthSetting {
    WindowSize,
    MaximumPacketSize,
}

/// A directive that the configuration file may hold.
#[derive(Clone, Copy, Debug, PartialEq, Eq, Structural)]
pub enum Directive {
    Port,
    ListenAddress,
    Path(PathSetting),
    Shell,
    ExecMode,
    Flag(FlagSetting),
    Subsystem,
    Count(CountSetting),
    Span(SpanSetting),
    Width(WidthSetting),
    AuthorizedKeysMaxSize,
    PubkeyAuthentication,
    PasswordAuthentication,
    PermitOpen,
    LogLevel,
}

impl Directive {
    /// The directive's name as the documentation writes it.
    pub open spec fn name(self) -> Seq<char> {
        match self {
            Directive::Port => "Port"@,
            Directive::ListenAddress => "ListenAddress"@,
            Directive::Path(PathSetting::HostKey) => "HostKey"@,
            Directive::Path(PathSetting::AuthorizedKeysFile) => "AuthorizedKeysFile"@,
            Directive::Shell => "Shell"@,
            Directive::ExecMode => "ExecMode"@,
            Directive::Flag(FlagSetting::PermitTty) => "PermitTTY"@,
            Directive::Flag(FlagSetting::PermitExec) => "PermitExec"@,
            Directive::Flag(FlagSetting::SftpEnabled) => "SftpEnabled"@,
            Directive::Flag(FlagSetting::AllowTcpForwarding) => "AllowTcpForwarding"@,
            Directive::Flag(FlagSetting::AllowRemoteForwarding) => "AllowRemoteForwarding"@,
            Directive::Flag(FlagSetting::GatewayPorts) => "GatewayPorts"@,
            Directive::Flag(FlagSetting::NoDelay) => "NoDelay"@,
            Directive::Subsystem => "Subsystem"@,
            Directive::Count(CountSetting::MaxUnauthConnectionsGlobal) => "MaxUnauthConnectionsGlobal"@,
            Directive::Count(CountSetting::MaxUnauthConnectionsPerIp) => "MaxUnauthConnectionsPerIp"@,
            Directive::Count(CountSetting::MaxUnauthConnectionsPerSubnet) => "MaxUnauthConnectionsPerSubnet"@,
            Directive::Count(CountSetting::NewConnectionsPerMinutePerIp) => "NewConnectionsPerMinutePerIp"@,
            Directive::Count(CountSetting::NewConnectionsBurstPerIp) => "NewConnectionsBurstPerIp"@,
            Directive::Count(CountSetting::MaxAuthAttempts) => "MaxAuthAttempts"@,
            Directive::Count(CountSetting::AuthFailureBanThreshold) => "AuthFailureBanThreshold"@,
            Directive::Count(CountSetting::KeepaliveMax) => "KeepaliveMax"@,
            Directive::Count(CountSetting::ChannelBufferSize) => "ChannelBufferSize"@,
            Directive::Count(CountSetting::EventBufferSize) => "EventBufferSize"@,
            Directive::Count(CountSetting::AuthorizedKeysMaxEntries) => "AuthorizedKeysMaxEntries"@,
            Directive::Span(SpanSetting::LoginGraceTime) => "LoginGraceTime"@,
            Directive::Span(SpanSetting::ClientBannerTimeout) => "ClientBannerTimeout"@,
            Directive::Span(SpanSetting::KexStartTimeout) => "KexStartTimeout"@,
            Directive::Span(SpanSetting::AuthRejectionTime) => "AuthRejectionTime"@,
            Directive::Span(SpanSetting::AuthFailureBanWindow) => "AuthFailureBanWindow"@,
            Directive::Span(SpanSetting::AuthFailureBanDuration) => "AuthFailureBanDuration"@,
            Directive::Span(SpanSetting::InactivityTimeout) => "InactivityTimeout"@,
            Directive::Span(SpanSetting::KeepaliveInterval) => "KeepaliveInterval"@,
            Directive::Span(SpanSetting::AuthorizedKeysReloadInterval) => "AuthorizedKeysReloadInterval"@,
            Directive::Width(WidthSetting::WindowSize) => "WindowSize"@,
            Directive::Width(WidthSetting::MaximumPacketSize) => "MaximumPacketSize"@,
            Directive::AuthorizedKeysMaxSize => "AuthorizedKeysMaxSize"@,
            Directive::PubkeyAuthentication => "PubkeyAuthentication"@,
            Directive::PasswordAuthentication => "PasswordAuthentication"@,
            Directive::PermitOpen => "PermitOpen"@,
            Directive::LogLevel => "LogLevel"@,
        }
    }

    pub fn label(self) -> (r: &'static str)
        ensures
            r@ == self.name(),
    {
        match self {
            Directive::Port => "Port",
            Directive::ListenAddress => "ListenAddress",
            Directive::Path(PathSetting::HostKey) => "HostKey",
            Directive::Path(PathSetting::AuthorizedKeysFile) => "AuthorizedKeysFile",
            Directive::Shell => "Shell",
            Directive::ExecMode => "ExecMode",
            Directive::Flag(FlagSetting::PermitTty) => "PermitTTY",
            Directive::Flag(FlagSetting::PermitExec) => "PermitExec",
            Directive::Flag(FlagSetting::SftpEnabled) => "SftpEnabled",
            Directive::Flag(FlagSetting::AllowTcpForwarding) => "AllowTcpForwarding",
            Directive::Flag(FlagSetting::AllowRemoteForwarding) => "AllowRemoteForwarding",
            Directive::Flag(FlagSetting::GatewayPorts) => "GatewayPorts",
            Directive::Flag(FlagSetting::NoDelay) => "NoDelay",
            Directive::Subsystem => "Subsystem",
            Directive::Count(CountSetting::MaxUnauthConnectionsGlobal) => "MaxUnauthConnectionsGlobal",
            Directive::Count(CountSetting::MaxUnauthConnectionsPerIp) => "MaxUnauthConnectionsPerIp",
            Directive::Count(CountSetting::MaxUnauthConnectionsPerSubnet) => "MaxUnauthConnectionsPerSubnet",
            Directive::Count(CountSetting::NewConnectionsPerMinutePerIp) => "NewConnectionsPerMinutePerIp",
            Directive::Count(CountSetting::NewConnectionsBurstPerIp) => "NewConnectionsBurstPerIp",
            Directive::Count(CountSetting::MaxAuthAttempts) => "MaxAuthAttempts",
            Directive::Count(CountSetting::AuthFailureBanThreshold) => "AuthFailureBanThreshold",
            Directive::Count(CountSetting::KeepaliveMax) => "KeepaliveMax",
            Directive::Count(CountSetting::ChannelBufferSize) => "ChannelBufferSize",
            Directive::Count(CountSetting::EventBufferSize) => "EventBufferSize",
            Directive::Count(CountSetting::AuthorizedKeysMaxEntries) => "AuthorizedKeysMaxEntries",
            Directive::Span(SpanSetting::LoginGraceTime) => "LoginGraceTime",
            Directive::Span(SpanSetting::ClientBannerTimeout) => "ClientBannerTimeout",
            Directive::Span(SpanSetting::KexStartTimeout) => "KexStartTimeout",
            Directive::Span(SpanSetting::AuthRejectionTime) => "AuthRejectionTime",
            Directive::Span(SpanSetting::AuthFailureBanWindow) => "AuthFailureBanWindow",
            Directive::Span(SpanSetting::AuthFailureBanDuration) => "AuthFailureBanDuration",
            Directive::Span(SpanSetting::InactivityTimeout) => "InactivityTimeout",
            Directive::Span(SpanSetting::KeepaliveInterval) => "KeepaliveInterval",
            Directive::Span(SpanSetting::AuthorizedKeysReloadInterval) => "AuthorizedKeysReloadInterval",
            Directive::Width(WidthSetting::WindowSize) => "WindowSize",
            Directive::Width(WidthSetting::MaximumPacketSize) => "MaximumPacketSize",
            Directive::AuthorizedKeysMaxSize => "AuthorizedKeysMaxSize",
            Directive::PubkeyAuthentication => "PubkeyAuthentication",
            Directive::PasswordAuthentication => "PasswordAuthentication",
            Directive::PermitOpen => "PermitOpen",
            Directive::LogLevel => "LogLevel",
        }
    }
}

/// The directive that a lower-case key names.
pub open spec fn directive_of(key: Seq<char>) -> Option<Directive> {
    if key == "port"@ {
        Some(Directive::Port)
    } else if key == "listenaddress"@ {
        Some(Directive::ListenAddress)
    } else if key == "hostkey"@ {
        Some(Directive::Path(PathSetting::HostKey))
    } else if key == "authorizedkeysfile"@ {
        Some(Directive::Path(PathSetting::AuthorizedKeysFile))
    } else if key == "shell"@ {
        Some(Directive::Shell)
    } else if key == "execmode"@ {
        Some(Directive::ExecMode)
    } else if key == "permittty"@ {
        Some(Directive::Flag(FlagSetting::PermitTty))
    } else if key == "permitexec"@ {
        Some(Directive::Flag(FlagSetting::PermitExec))
    } else if key == "sftpenabled"@ {
        Some(Directive::Flag(FlagSetting::SftpEnabled))
    } else if key == "allowtcpforwarding"@ {
        Some(Directive::Flag(FlagSetting::AllowTcpForwarding))
    } else if key == "allowremoteforwarding"@ {
        Some(Directive::Flag(FlagSetting::AllowRemoteForwarding))
    } else if key == "gatewayports"@ {
        Some(Directive::Flag(FlagSetting::GatewayPorts))
    } else if key == "nodelay"@ {
        Some(Directive::Flag(FlagSetting::NoDelay))
    } else if key == "subsystem"@ {
        Some(Directive::Subsystem)
    } else if key == "maxunauthconnectionsglobal"@ {
        Some(Directive::Count(CountSetting::MaxUnauthConnectionsGlobal))
    } else if key == "maxunauthconnectionsperip"@ {
        Some(Directive::Count(CountSetting::MaxUnauthConnectionsPerIp))
    } else if key == "maxunauthconnectionspersubnet"@ {
        Some(Directive::Count(CountSetting::MaxUnauthConnectionsPerSubnet))
    } else if key == "newconnectionsperminuteperip"@ {
        Some(Directive::Count(CountSetting::NewConnectionsPerMinutePerIp))
    } else if key == "newconnectionsburstperip"@ {
        Some(Directive::Count(CountSetting::NewConnectionsBurstPerIp))
    } else if key == "maxauthattempts"@ {
        Some(Directive::Count(CountSetting::MaxAuthAttempts))
    } else if key == "authfailurebanthreshold"@ {
        Some(Directive::Count(CountSetting::AuthFailureBanThreshold))
    } else if key == "keepalivemax"@ {
        Some(Directive::Count(CountSetting::KeepaliveMax))
    } else if key == "channelbuffersize"@ {
        Some(Directive::Count(CountSetting::ChannelBufferSize))
    } else if key == "eventbuffersize"@ {
        Some(Directive::Count(CountSetting::EventBufferSize))
    } else if key == "authorizedkeysmaxentries"@ {
        Some(Directive::Count(CountSetting::AuthorizedKeysMaxEntries))
    } else if key == "logingracetime"@ {
        Some(Directive::Span(SpanSetting::LoginGraceTime))
    } else if key == "clientbannertimeout"@ {
        Some(Directive::Span(SpanSetting::ClientBannerTimeout))
    } else if key == "kexstarttimeout"@ {
        Some(Directive::Span(SpanSetting::KexStartTimeout))
    } else if key == "authrejectiontime"@ {
        Some(Directive::Span(SpanSetting::AuthRejectionTime))
    } else if key == "authfailurebanwindow"@ {
        Some(Directive::Span(SpanSetting::AuthFailureBanWindow))
    } else if key == "authfailurebanduration"@ {
        Some(Directive::Span(SpanSetting::AuthFailureBanDuration))
    } else if key == "inactivitytimeout"@ {
        Some(Directive::Span(SpanSetting::InactivityTimeout))
    } else if key == "keepaliveinterval"@ {
        Some(Directive::Span(SpanSetting::KeepaliveInterval))
    } else if key == "authorizedkeysreloadinterval"@ {
        Some(Directive::Span(SpanSetting::AuthorizedKeysReloadInterval))
    } else if key == "windowsize"@ {
        Some(Directive::Width(WidthSetting::WindowSize))
    } else if key == "maximumpacketsize"@ {
        Some(Directive::Width(WidthSetting::MaximumPacketSize))
    } else if key == "authorizedkeysmaxsize"@ {
        Some(Directive::AuthorizedKeysMaxSize)
    } else if key == "pubkeyauthentication"@ {
        Some(Directive::PubkeyAuthentication)
    } else if key == "passwordauthentication"@ {
        Some(Directive::PasswordAuthentication)
    } else if key == "permitopen"@ {
        Some(Directive::PermitOpen)
    } else if key == "loglevel"@ {
        Some(Directive::LogLevel)
    } else {
        None
    }
}

proof fn lemma_key_lengths()
    ensures
        "port"@.len() == 4,
        "listenaddress"@.len() == 13,
        "hostkey"@.len() == 7,
        "authorizedkeysfile"@.len() == 18,
        "shell"@.len() == 5,
        "execmode"@.len() == 8,
        "permittty"@.len() == 9,
        "permitexec"@.len() == 10,
        "sftpenabled"@.len() == 11,
        "allowtcpforwarding"@.len() == 18,
        "allowremoteforwarding"@.len() == 21,
        "gatewayports"@.len() == 12,
        "nodelay"@.len() == 7,
        "subsystem"@.len() == 9,
        "maxunauthconnectionsglobal"@.len() == 26,
        "maxunauthconnectionsperip"@.len() == 25,
        "maxunauthconnectionspersubnet"@.len() == 29,
        "newconnectionsperminuteperip"@.len() == 28,
        "newconnectionsburstperip"@.len() == 24,
        "maxauthattempts"@.len() == 15,
        "authfailurebanthreshold"@.len() == 23,
        "keepalivemax"@.len() == 12,
        "channelbuffersize"@.len() == 17,
        "eventbuffersize"@.len() == 15,
        "authorizedkeysmaxentries"@.len() == 24,
        "logingracetime"@.len() == 14,
        "clientbannertimeout"@.len() == 19,
        "kexstarttimeout"@.len() == 15,
        "authrejectiontime"@.len() == 17,
        "authfailurebanwindow"@.len() == 20,
        "authfailurebanduration"@.len() == 22,
        "inactivitytimeout"@.len() == 17,
        "keepaliveinterval"@.len() == 17,
        "authorizedkeysreloadinterval"@.len() == 28,
        "windowsize"@.len() == 10,
        "maximumpacketsize"@.len() == 17,
        "authorizedkeysmaxsize"@.len() == 21,
        "pubkeyauthentication"@.len() == 20,
        "passwordauthentication"@.len() == 22,
        "permitopen"@.len() == 10,
        "loglevel"@.len() == 8,
{
    reveal_strlit("port");
    reveal_strlit("listenaddress");
    reveal_strlit("hostkey");
    reveal_strlit("authorizedkeysfile");
    reveal_strlit("shell");
    reveal_strlit("execmode");
    reveal_strlit("permittty");
    reveal_strlit("permitexec");
    reveal_strlit("sftpenabled");
    reveal_strlit("allowtcpforwarding");
    reveal_strlit("allowremoteforwarding");
    reveal_strlit("gatewayports");
    reveal_strlit("nodelay");
    reveal_strlit("subsystem");
    reveal_strlit("maxunauthconnectionsglobal");
    reveal_strlit("maxunauthconnectionsperip");
    reveal_strlit("maxunauthconnectionspersubnet");
    reveal_strlit("newconnectionsperminuteperip");
    reveal_strlit("newconnectionsburstperip");
    reveal_strlit("maxauthattempts");
    reveal_strlit("authfailurebanthreshold");
    reveal_strlit("keepalivemax");
    reveal_strlit("channelbuffersize");
    reveal_strlit("eventbuffersize");
    reveal_strlit("authorizedkeysmaxentries");
    reveal_strlit("logingracetime");
    reveal_strlit("clientbannertimeout");
    reveal_strlit("kexstarttimeout");
    reveal_strlit("authrejectiontime");
    reveal_strlit("authfailurebanwindow");
    reveal_strlit("authfailurebanduration");
    reveal_strlit("inactivitytimeout");
    reveal_strlit("keepaliveinterval");
    reveal_strlit("authorizedkeysreloadinterval");
    reveal_strlit("windowsize");
    reveal_strlit("maximumpacketsize");
    reveal_strlit("authorizedkeysmaxsize");
    reveal_strlit("pubkeyauthentication");
    reveal_strlit("passwordauthentication");
    reveal_strlit("permitopen");
    reveal_strlit("loglevel");
}

/// Every directive is found under its own name, whatever the letter case of
/// that name.
pub proof fn law_directive_found_by_name(d: Directive, key: Seq<char>)
    requires
        text::lowered(key) == text::lowered(d.name()),
    ensures
        directive_of(text::lowered(key)) == Some(d),
{
    lemma_key_lengths();
    match d {
        Directive::Port => {
            reveal_strlit("Port");
            reveal_strlit("port");
            assert(text::lowered("Port"@) =~= "port"@);
        },
        Directive::ListenAddress => {
            reveal_strlit("ListenAddress");
            reveal_strlit("listenaddress");
            assert(text::lowered("ListenAddress"@) =~= "listenaddress"@);
        },
        Directive::Path(PathSetting::HostKey) => {
            reveal_strlit("HostKey");
            reveal_strlit("hostkey");
            reveal_strlit("nodelay");
            assert(text::lowered("HostKey"@) =~= "hostkey"@);
            assert("nodelay"@[0] != "hostkey"@[0]);
        },
        Directive::Path(PathSetting::AuthorizedKeysFile) => {
            reveal_strlit("AuthorizedKeysFile");
            reveal_strlit("authorizedkeysfile");
            reveal_strlit("allowtcpforwarding");
            assert(text::lowered("AuthorizedKeysFile"@) =~= "authorizedkeysfile"@);
            assert("allowtcpforwarding"@[1] != "authorizedkeysfile"@[1]);
        },
        Directive::Shell => {
            reveal_strlit("Shell");
            reveal_strlit("shell");
            assert(text::lowered("Shell"@) =~= "shell"@);
        },
        Directive::ExecMode => {
            reveal_strlit("ExecMode");
            reveal_strlit("execmode");
            reveal_strlit("loglevel");
            assert(text::lowered("ExecMode"@) =~= "execmode"@);
            assert("loglevel"@[0] != "execmode"@[0]);
        },
        Directive::Flag(FlagSetting::PermitTty) => {
            reveal_strlit("PermitTTY");
            reveal_strlit("permittty");
            reveal_strlit("subsystem");
            assert(text::lowered("PermitTTY"@) =~= "permittty"@);
            assert("subsystem"@[0] != "permittty"@[0]);
        },
        Directive::Flag(FlagSetting::PermitExec) => {
            reveal_strlit("PermitExec");
            reveal_strlit("permitexec");
            reveal_strlit("windowsize");
            reveal_strlit("permitopen");
            assert(text::lowered("PermitExec"@) =~= "permitexec"@);
            assert("windowsize"@[0] != "permitexec"@[0]);
            assert("permitopen"@[6] != "permitexec"@[6]);
        },
        Directive::Flag(FlagSetting::SftpEnabled) => {
            reveal_strlit("SftpEnabled");
            reveal_strlit("sftpenabled");
            assert(text::lowered("SftpEnabled"@) =~= "sftpenabled"@);
        },
        Directive::Flag(FlagSetting::AllowTcpForwarding) => {
            reveal_strlit("AllowTcpForwarding");
            reveal_strlit("authorizedkeysfile");
            reveal_strlit("allowtcpforwarding");
            assert(text::lowered("AllowTcpForwarding"@) =~= "allowtcpforwarding"@);
            assert("authorizedkeysfile"@[1] != "allowtcpforwarding"@[1]);
        },
        Directive::Flag(FlagSetting::AllowRemoteForwarding) => {
            reveal_strlit("AllowRemoteForwarding");
            reveal_strlit("allowremoteforwarding");
            reveal_strlit("authorizedkeysmaxsize");
            assert(text::lowered("AllowRemoteForwarding"@) =~= "allowremoteforwarding"@);
            assert("authorizedkeysmaxsize"@[1] != "allowremoteforwarding"@[1]);
        },
        Directive::Flag(FlagSetting::GatewayPorts) => {
            reveal_strlit("GatewayPorts");
            reveal_strlit("gatewayports");
            reveal_strlit("keepalivemax");
            assert(text::lowered("GatewayPorts"@) =~= "gatewayports"@);
            assert("keepalivemax"@[0] != "gatewayports"@[0]);
        },
        Directive::Flag(FlagSetting::NoDelay) => {
            reveal_strlit("NoDelay");
            reveal_strlit("hostkey");
            reveal_strlit("nodelay");
            assert(text::lowered("NoDelay"@) =~= "nodelay"@);
            assert("hostkey"@[0] != "nodelay"@[0]);
        },
        Directive::Subsystem => {
            reveal_strlit("Subsystem");
            reveal_strlit("permittty");
            reveal_strlit("subsystem");
            assert(text::lowered("Subsystem"@) =~= "subsystem"@);
            assert("permittty"@[0] != "subsystem"@[0]);
        },
        Directive::Count(CountSetting::MaxUnauthConnectionsGlobal) => {
            reveal_strlit("MaxUnauthConnectionsGlobal");
            reveal_strlit("maxunauthconnectionsglobal");
            assert(text::lowered("MaxUnauthConnectionsGlobal"@) =~= "maxunauthconnectionsglobal"@);
        },
        Directive::Count(CountSetting::MaxUnauthConnectionsPerIp) => {
            reveal_strlit("MaxUnauthConnectionsPerIp");
            reveal_strlit("maxunauthconnectionsperip");
            assert(text::lowered("MaxUnauthConnectionsPerIp"@) =~= "maxunauthconnectionsperip"@);
        },
        Directive::Count(CountSetting::MaxUnauthConnectionsPerSubnet) => {
            reveal_strlit("MaxUnauthConnectionsPerSubnet");
            reveal_strlit("maxunauthconnectionspersubnet");
            assert(text::lowered("MaxUnauthConnectionsPerSubnet"@) =~= "maxunauthconnectionspersubnet"@);
        },
        Directive::Count(CountSetting::NewConnectionsPerMinutePerIp) => {
            reveal_strlit("NewConnectionsPerMinutePerIp");
            reveal_strlit("newconnectionsperminuteperip");
            reveal_strlit("authorizedkeysreloadinterval");
            assert(text::lowered("NewConnectionsPerMinutePerIp"@) =~= "newconnectionsperminuteperip"@);
            assert("authorizedkeysreloadinterval"@[0] != "newconnectionsperminuteperip"@[0]);
        },
        Directive::Count(CountSetting::NewConnectionsBurstPerIp) => {
            reveal_strlit("NewConnectionsBurstPerIp");
            reveal_strlit("newconnectionsburstperip");
            reveal_strlit("authorizedkeysmaxentries");
            assert(text::lowered("NewConnectionsBurstPerIp"@) =~= "newconnectionsburstperip"@);
            assert("authorizedkeysmaxentries"@[0] != "newconnectionsburstperip"@[0]);
        },
        Directive::Count(CountSetting::MaxAuthAttempts) => {
            reveal_strlit("MaxAuthAttempts");
            reveal_strlit("maxauthattempts");
            reveal_strlit("eventbuffersize");
            reveal_strlit("kexstarttimeout");
            assert(text::lowered("MaxAuthAttempts"@) =~= "maxauthattempts"@);
            assert("eventbuffersize"@[0] != "maxauthattempts"@[0]);
            assert("kexstarttimeout"@[0] != "maxauthattempts"@[0]);
        },
        Directive::Count(CountSetting::AuthFailureBanThreshold) => {
            reveal_strlit("AuthFailureBanThreshold");
            reveal_strlit("authfailurebanthreshold");
            assert(text::lowered("AuthFailureBanThreshold"@) =~= "authfailurebanthreshold"@);
        },
        Directive::Count(CountSetting::KeepaliveMax) => {
            reveal_strlit("KeepaliveMax");
            reveal_strlit("gatewayports");
            reveal_strlit("keepalivemax");
            assert(text::lowered("KeepaliveMax"@) =~= "keepalivemax"@);
            assert("gatewayports"@[0] != "keepalivemax"@[0]);
        },
        Directive::Count(CountSetting::ChannelBufferSize) => {
            reveal_strlit("ChannelBufferSize");
            reveal_strlit("channelbuffersize");
            reveal_strlit("authrejectiontime");
            reveal_strlit("inactivitytimeout");
            reveal_strlit("keepaliveinterval");
            reveal_strlit("maximumpacketsize");
            assert(text::lowered("ChannelBufferSize"@) =~= "channelbuffersize"@);
            assert("authrejectiontime"@[0] != "channelbuffersize"@[0]);
            assert("inactivitytimeout"@[0] != "channelbuffersize"@[0]);
            assert("keepaliveinterval"@[0] != "channelbuffersize"@[0]);
            assert("maximumpacketsize"@[0] != "channelbuffersize"@[0]);
        },
        Directive::Count(CountSetting::EventBufferSize) => {
            reveal_strlit("EventBufferSize");
            reveal_strlit("maxauthattempts");
            reveal_strlit("eventbuffersize");
            reveal_strlit("kexstarttimeout");
            assert(text::lowered("EventBufferSize"@) =~= "eventbuffersize"@);
            assert("maxauthattempts"@[0] != "eventbuffersize"@[0]);
            assert("kexstarttimeout"@[0] != "eventbuffersize"@[0]);
        },
        Directive::Count(CountSetting::AuthorizedKeysMaxEntries) => {
            reveal_strlit("AuthorizedKeysMaxEntries");
            reveal_strlit("newconnectionsburstperip");
            reveal_strlit("authorizedkeysmaxentries");
            assert(text::lowered("AuthorizedKeysMaxEntries"@) =~= "authorizedkeysmaxentries"@);
            assert("newconnectionsburstperip"@[0] != "authorizedkeysmaxentries"@[0]);
        },
        Directive::Span(SpanSetting::LoginGraceTime) => {
            reveal_strlit("LoginGraceTime");
            reveal_strlit("logingracetime");
            assert(text::lowered("LoginGraceTime"@) =~= "logingracetime"@);
        },
        Directive::Span(SpanSetting::ClientBannerTimeout) => {
            reveal_strlit("ClientBannerTimeout");
            reveal_strlit("clientbannertimeout");
            assert(text::lowered("ClientBannerTimeout"@) =~= "clientbannertimeout"@);
        },
        Directive::Span(SpanSetting::KexStartTimeout) => {
            reveal_strlit("KexStartTimeout");
            reveal_strlit("maxauthattempts");
            reveal_strlit("eventbuffersize");
            reveal_strlit("kexstarttimeout");
            assert(text::lowered("KexStartTimeout"@) =~= "kexstarttimeout"@);
            assert("maxauthattempts"@[0] != "kexstarttimeout"@[0]);
            assert("eventbuffersize"@[0] != "kexstarttimeout"@[0]);
        },
        Directive::Span(SpanSetting::AuthRejectionTime) => {
            reveal_strlit("AuthRejectionTime");
            reveal_strlit("channelbuffersize");
            reveal_strlit("authrejectiontime");
            reveal_strlit("inactivitytimeout");
            reveal_strlit("keepaliveinterval");
            reveal_strlit("maximumpacketsize");
            assert(text::lowered("AuthRejectionTime"@) =~= "authrejectiontime"@);
            assert("channelbuffersize"@[0] != "authrejectiontime"@[0]);
            assert("inactivitytimeout"@[0] != "authrejectiontime"@[0]);
            assert("keepaliveinterval"@[0] != "authrejectiontime"@[0]);
            assert("maximumpacketsize"@[0] != "authrejectiontime"@[0]);
        },
        Directive::Span(SpanSetting::AuthFailureBanWindow) => {
            reveal_strlit("AuthFailureBanWindow");
            reveal_strlit("authfailurebanwindow");
            reveal_strlit("pubkeyauthentication");
            assert(text::lowered("AuthFailureBanWindow"@) =~= "authfailurebanwindow"@);
            assert("pubkeyauthentication"@[0] != "authfailurebanwindow"@[0]);
        },
        Directive::Span(SpanSetting::AuthFailureBanDuration) => {
            reveal_strlit("AuthFailureBanDuration");
            reveal_strlit("authfailurebanduration");
            reveal_strlit("passwordauthentication");
            assert(text::lowered("AuthFailureBanDuration"@) =~= "authfailurebanduration"@);
            assert("passwordauthentication"@[0] != "authfailurebanduration"@[0]);
        },
        Directive::Span(SpanSetting::InactivityTimeout) => {
            reveal_strlit("InactivityTimeout");
            reveal_strlit("channelbuffersize");
            reveal_strlit("authrejectiontime");
            reveal_strlit("inactivitytimeout");
            reveal_strlit("keepaliveinterval");
            reveal_strlit("maximumpacketsize");
            assert(text::lowered("InactivityTimeout"@) =~= "inactivitytimeout"@);
            assert("channelbuffersize"@[0] != "inactivitytimeout"@[0]);
            assert("authrejectiontime"@[0] != "inactivitytimeout"@[0]);
            assert("keepaliveinterval"@[0] != "inactivitytimeout"@[0]);
            assert("maximumpacketsize"@[0] != "inactivitytimeout"@[0]);
        },
        Directive::Span(SpanSetting::KeepaliveInterval) => {
            reveal_strlit("KeepaliveInterval");
            reveal_strlit("channelbuffersize");
            reveal_strlit("authrejectiontime");
            reveal_strlit("inactivitytimeout");
            reveal_strlit("keepaliveinterval");
            reveal_strlit("maximumpacketsize");
            assert(text::lowered("KeepaliveInterval"@) =~= "keepaliveinterval"@);
            assert("channelbuffersize"@[0] != "keepaliveinterval"@[0]);
            assert("authrejectiontime"@[0] != "keepaliveinterval"@[0]);
            assert("inactivitytimeout"@[0] != "keepaliveinterval"@[0]);
            assert("maximumpacketsize"@[0] != "keepaliveinterval"@[0]);
        },
        Directive::Span(SpanSetting::AuthorizedKeysReloadInterval) => {
            reveal_strlit("AuthorizedKeysReloadInterval");
            reveal_strlit("newconnectionsperminuteperip");
            reveal_strlit("authorizedkeysreloadinterval");
            assert(text::lowered("AuthorizedKeysReloadInterval"@) =~= "authorizedkeysreloadinterval"@);
            assert("newconnectionsperminuteperip"@[0] != "authorizedkeysreloadinterval"@[0]);
        },
        Directive::Width(WidthSetting::WindowSize) => {
            reveal_strlit("WindowSize");
            reveal_strlit("permitexec");
            reveal_strlit("windowsize");
            reveal_strlit("permitopen");
            assert(text::lowered("WindowSize"@) =~= "windowsize"@);
            assert("permitexec"@[0] != "windowsize"@[0]);
            assert("permitopen"@[0] != "windowsize"@[0]);
        },
        Directive::Width(WidthSetting::MaximumPacketSize) => {
            reveal_strlit("MaximumPacketSize");
            reveal_strlit("channelbuffersize");
            reveal_strlit("authrejectiontime");
            reveal_strlit("inactivitytimeout");
            reveal_strlit("keepaliveinterval");
            reveal_strlit("maximumpacketsize");
            assert(text::lowered("MaximumPacketSize"@) =~= "maximumpacketsize"@);
            assert("channelbuffersize"@[0] != "maximumpacketsize"@[0]);
            assert("authrejectiontime"@[0] != "maximumpacketsize"@[0]);
            assert("inactivitytimeout"@[0] != "maximumpacketsize"@[0]);
            assert("keepaliveinterval"@[0] != "maximumpacketsize"@[0]);
        },
        Directive::AuthorizedKeysMaxSize => {
            reveal_strlit("AuthorizedKeysMaxSize");
            reveal_strlit("allowremoteforwarding");
            reveal_strlit("authorizedkeysmaxsize");
            assert(text::lowered("AuthorizedKeysMaxSize"@) =~= "authorizedkeysmaxsize"@);
            assert("allowremoteforwarding"@[1] != "authorizedkeysmaxsize"@[1]);
        },
        Directive::PubkeyAuthentication => {
            reveal_strlit("PubkeyAuthentication");
            reveal_strlit("authfailurebanwindow");
            reveal_strlit("pubkeyauthentication");
            assert(text::lowered("PubkeyAuthentication"@) =~= "pubkeyauthentication"@);
            assert("authfailurebanwindow"@[0] != "pubkeyauthentication"@[0]);
        },
        Directive::PasswordAuthentication => {
            reveal_strlit("PasswordAuthentication");
            reveal_strlit("authfailurebanduration");
            reveal_strlit("passwordauthentication");
            assert(text::lowered("PasswordAuthentication"@) =~= "passwordauthentication"@);
            assert("authfailurebanduration"@[0] != "passwordauthentication"@[0]);
        },
        Directive::PermitOpen => {
            reveal_strlit("PermitOpen");
            reveal_strlit("permitexec");
            reveal_strlit("windowsize");
            reveal_strlit("permitopen");
            assert(text::lowered("PermitOpen"@) =~= "permitopen"@);
            assert("permitexec"@[6] != "permitopen"@[6]);
            assert("windowsize"@[0] != "permitopen"@[0]);
        },
        Directive::LogLevel => {
            reveal_strlit("LogLevel");
            reveal_strlit("execmode");
            reveal_strlit("loglevel");
            assert(text::lowered("LogLevel"@) =~= "loglevel"@);
            assert("execmode"@[0] != "loglevel"@[0]);
        },
    }
}

/// Looks up the directive that a lower-case key names.
pub fn find_directive(key: &Vec<char>) -> (r: Option<Directive>)
    ensures
        r == directive_of(key@),
{
    if text::spells(key, "port") {
        Some(Directive::Port)
    } else if text::spells(key, "listenaddress") {
        Some(Directive::ListenAddress)
    } else if text::spells(key, "hostkey") {
        Some(Directive::Path(PathSetting::HostKey))
    } else if text::spells(key, "authorizedkeysfile") {
        Some(Directive::Path(PathSetting::AuthorizedKeysFile))
    } else if text::spells(key, "shell") {
        Some(Directive::Shell)
    } else if text::spells(key, "execmode") {
        Some(Directive::ExecMode)
    } else if text::spells(key, "permittty") {
        Some(Directive::Flag(FlagSetting::PermitTty))
    } else if text::spells(key, "permitexec") {
        Some(Directive::Flag(FlagSetting::PermitExec))
    } else if text::spells(key, "sftpenabled") {
        Some(Directive::Flag(FlagSetting::SftpEnabled))
    } else if text::spells(key, "allowtcpforwarding") {
        Some(Directive::Flag(FlagSetting::AllowTcpForwarding))
    } else if text::spells(key, "allowremoteforwarding") {
        Some(Directive::Flag(FlagSetting::AllowRemoteForwarding))
    } else if text::spells(key, "gatewayports") {
        Some(Directive::Flag(FlagSetting::GatewayPorts))
    } else if text::spells(key, "nodelay") {
        Some(Directive::Flag(FlagSetting::NoDelay))
    } else if text::spells(key, "subsystem") {
        Some(Directive::Subsystem)
    } else if text::spells(key, "maxunauthconnectionsglobal") {
        Some(Directive::Count(CountSetting::MaxUnauthConnectionsGlobal))
    } else if text::spells(key, "maxunauthconnectionsperip") {
        Some(Directive::Count(CountSetting::MaxUnauthConnectionsPerIp))
    } else if text::spells(key, "maxunauthconnectionspersubnet") {
        Some(Directive::Count(CountSetting::MaxUnauthConnectionsPerSubnet))
    } else if text::spells(key, "newconnectionsperminuteperip") {
        Some(Directive::Count(CountSetting::NewConnectionsPerMinutePerIp))
    } else if text::spells(key, "newconnectionsburstperip") {
        Some(Directive::Count(CountSetting::NewConnectionsBurstPerIp))
    } else if text::spells(key, "maxauthattempts") {
        Some(Directive::Count(CountSetting::MaxAuthAttempts))
    } else if text::spells(key, "authfailurebanthreshold") {
        Some(Directive::Count(CountSetting::AuthFailureBanThreshold))
    } else if text::spells(key, "keepalivemax") {
        Some(Directive::Count(CountSetting::KeepaliveMax))
    } else if text::spells(key, "channelbuffersize") {
        Some(Directive::Count(CountSetting::ChannelBufferSize))
    } else if text::spells(key, "eventbuffersize") {
        Some(Directive::Count(CountSetting::EventBufferSize))
    } else if text::spells(key, "authorizedkeysmaxentries") {
        Some(Directive::Count(CountSetting::AuthorizedKeysMaxEntries))
    } else if text::spells(key, "logingracetime") {
        Some(Directive::Span(SpanSetting::LoginGraceTime))
    } else if text::spells(key, "clientbannertimeout") {
        Some(Directive::Span(SpanSetting::ClientBannerTimeout))
    } else if text::spells(key, "kexstarttimeout") {
        Some(Directive::Span(SpanSetting::KexStartTimeout))
    } else if text::spells(key, "authrejectiontime") {
        Some(Directive::Span(SpanSetting::AuthRejectionTime))
    } else if text::spells(key, "authfailurebanwindow") {
        Some(Directive::Span(SpanSetting::AuthFailureBanWindow))
    } else if text::spells(key, "authfailurebanduration") {
        Some(Directive::Span(SpanSetting::AuthFailureBanDuration))
    } else if text::spells(key, "inactivitytimeout") {
        Some(Directive::Span(SpanSetting::InactivityTimeout))
    } else if text::spells(key, "keepaliveinterval") {
        Some(Directive::Span(SpanSetting::KeepaliveInterval))
    } else if text::spells(key, "authorizedkeysreloadinterval") {
        Some(Directive::Span(SpanSetting::AuthorizedKeysReloadInterval))
    } else if text::spells(key, "windowsize") {
        Some(Directive::Width(WidthSetting::WindowSize))
    } else if text::spells(key, "maximumpacketsize") {
        Some(Directive::Width(WidthSetting::MaximumPacketSize))
    } else if text::spells(key, "authorizedkeysmaxsize") {
        Some(Directive::AuthorizedKeysMaxSize)
    } else if text::spells(key, "pubkeyauthentication") {
        Some(Directive::PubkeyAuthentication)
    } else if text::spells(key, "passwordauthentication") {
        Some(Directive::PasswordAuthentication)
    } else if text::spells(key, "permitopen") {
        Some(Directive::PermitOpen)
    } else if text::spells(key, "loglevel") {
        Some(Directive::LogLevel)
    } else {
        None
    }
}

/// A key names a directive only if it is that directive's name, in lower case.
pub proof fn law_only_names_are_directives(key: Seq<char>)
    ensures
        directive_of(key) matches Some(d) ==> key == text::lowered(d.name()),
{
    if directive_of(key) is Some {
        match directive_of(key)->0 {
            Directive::Port => {
                reveal_strlit("Port");
                reveal_strlit("port");
                assert(text::lowered("Port"@) =~= "port"@);
            },
            Directive::ListenAddress => {
                reveal_strlit("ListenAddress");
                reveal_strlit("listenaddress");
                assert(text::lowered("ListenAddress"@) =~= "listenaddress"@);
            },
            Directive::Path(PathSetting::HostKey) => {
                reveal_strlit("HostKey");
                reveal_strlit("hostkey");
                assert(text::lowered("HostKey"@) =~= "hostkey"@);
            },
            Directive::Path(PathSetting::AuthorizedKeysFile) => {
                reveal_strlit("AuthorizedKeysFile");
                reveal_strlit("authorizedkeysfile");
                assert(text::lowered("AuthorizedKeysFile"@) =~= "authorizedkeysfile"@);
            },
            Directive::Shell => {
                reveal_strlit("Shell");
                reveal_strlit("shell");
                assert(text::lowered("Shell"@) =~= "shell"@);
            },
            Directive::ExecMode => {
                reveal_strlit("ExecMode");
                reveal_strlit("execmode");
                assert(text::lowered("ExecMode"@) =~= "execmode"@);
            },
            Directive::Flag(FlagSetting::PermitTty) => {
                reveal_strlit("PermitTTY");
                reveal_strlit("permittty");
                assert(text::lowered("PermitTTY"@) =~= "permittty"@);
            },
            Directive::Flag(FlagSetting::PermitExec) => {
                reveal_strlit("PermitExec");
                reveal_strlit("permitexec");
                assert(text::lowered("PermitExec"@) =~= "permitexec"@);
            },
            Directive::Flag(FlagSetting::SftpEnabled) => {
                reveal_strlit("SftpEnabled");
                reveal_strlit("sftpenabled");
                assert(text::lowered("SftpEnabled"@) =~= "sftpenabled"@);
            },
            Directive::Flag(FlagSetting::AllowTcpForwarding) => {
                reveal_strlit("AllowTcpForwarding");
                reveal_strlit("allowtcpforwarding");
                assert(text::lowered("AllowTcpForwarding"@) =~= "allowtcpforwarding"@);
            },
            Directive::Flag(FlagSetting::AllowRemoteForwarding) => {
                reveal_strlit("AllowRemoteForwarding");
                reveal_strlit("allowremoteforwarding");
                assert(text::lowered("AllowRemoteForwarding"@) =~= "allowremoteforwarding"@);
            },
            Directive::Flag(FlagSetting::GatewayPorts) => {
                reveal_strlit("GatewayPorts");
                reveal_strlit("gatewayports");
                assert(text::lowered("GatewayPorts"@) =~= "gatewayports"@);
            },
            Directive::Flag(FlagSetting::NoDelay) => {
                reveal_strlit("NoDelay");
                reveal_strlit("nodelay");
                assert(text::lowered("NoDelay"@) =~= "nodelay"@);
            },
            Directive::Subsystem => {
                reveal_strlit("Subsystem");
                reveal_strlit("subsystem");
                assert(text::lowered("Subsystem"@) =~= "subsystem"@);
            },
            Directive::Count(CountSetting::MaxUnauthConnectionsGlobal) => {
                reveal_strlit("MaxUnauthConnectionsGlobal");
                reveal_strlit("maxunauthconnectionsglobal");
                assert(text::lowered("MaxUnauthConnectionsGlobal"@) =~= "maxunauthconnectionsglobal"@);
            },
            Directive::Count(CountSetting::MaxUnauthConnectionsPerIp) => {
                reveal_strlit("MaxUnauthConnectionsPerIp");
                reveal_strlit("maxunauthconnectionsperip");
                assert(text::lowered("MaxUnauthConnectionsPerIp"@) =~= "maxunauthconnectionsperip"@);
            },
            Directive::Count(CountSetting::MaxUnauthConnectionsPerSubnet) => {
                reveal_strlit("MaxUnauthConnectionsPerSubnet");
                reveal_strlit("maxunauthconnectionspersubnet");
                assert(text::lowered("MaxUnauthConnectionsPerSubnet"@) =~= "maxunauthconnectionspersubnet"@);
            },
            Directive::Count(CountSetting::NewConnectionsPerMinutePerIp) => {
                reveal_strlit("NewConnectionsPerMinutePerIp");
                reveal_strlit("newconnectionsperminuteperip");
                assert(text::lowered("NewConnectionsPerMinutePerIp"@) =~= "newconnectionsperminuteperip"@);
            },
            Directive::Count(CountSetting::NewConnectionsBurstPerIp) => {
                reveal_strlit("NewConnectionsBurstPerIp");
                reveal_strlit("newconnectionsburstperip");
                assert(text::lowered("NewConnectionsBurstPerIp"@) =~= "newconnectionsburstperip"@);
            },
            Directive::Count(CountSetting::MaxAuthAttempts) => {
                reveal_strlit("MaxAuthAttempts");
                reveal_strlit("maxauthattempts");
                assert(text::lowered("MaxAuthAttempts"@) =~= "maxauthattempts"@);
            },
            Directive::Count(CountSetting::AuthFailureBanThreshold) => {
                reveal_strlit("AuthFailureBanThreshold");
                reveal_strlit("authfailurebanthreshold");
                assert(text::lowered("AuthFailureBanThreshold"@) =~= "authfailurebanthreshold"@);
            },
            Directive::Count(CountSetting::KeepaliveMax) => {
                reveal_strlit("KeepaliveMax");
                reveal_strlit("keepalivemax");
                assert(text::lowered("KeepaliveMax"@) =~= "keepalivemax"@);
            },
            Directive::Count(CountSetting::ChannelBufferSize) => {
                reveal_strlit("ChannelBufferSize");
                reveal_strlit("channelbuffersize");
                assert(text::lowered("ChannelBufferSize"@) =~= "channelbuffersize"@);
            },
            Directive::Count(CountSetting::EventBufferSize) => {
                reveal_strlit("EventBufferSize");
                reveal_strlit("eventbuffersize");
                assert(text::lowered("EventBufferSize"@) =~= "eventbuffersize"@);
            },
            Directive::Count(CountSetting::AuthorizedKeysMaxEntries) => {
                reveal_strlit("AuthorizedKeysMaxEntries");
                reveal_strlit("authorizedkeysmaxentries");
                assert(text::lowered("AuthorizedKeysMaxEntries"@) =~= "authorizedkeysmaxentries"@);
            },
            Directive::Span(SpanSetting::LoginGraceTime) => {
                reveal_strlit("LoginGraceTime");
                reveal_strlit("logingracetime");
                assert(text::lowered("LoginGraceTime"@) =~= "logingracetime"@);
            },
            Directive::Span(SpanSetting::ClientBannerTimeout) => {
                reveal_strlit("ClientBannerTimeout");
                reveal_strlit("clientbannertimeout");
                assert(text::lowered("ClientBannerTimeout"@) =~= "clientbannertimeout"@);
            },
            Directive::Span(SpanSetting::KexStartTimeout) => {
                reveal_strlit("KexStartTimeout");
                reveal_strlit("kexstarttimeout");
                assert(text::lowered("KexStartTimeout"@) =~= "kexstarttimeout"@);
            },
            Directive::Span(SpanSetting::AuthRejectionTime) => {
                reveal_strlit("AuthRejectionTime");
                reveal_strlit("authrejectiontime");
                assert(text::lowered("AuthRejectionTime"@) =~= "authrejectiontime"@);
            },
            Directive::Span(SpanSetting::AuthFailureBanWindow) => {
                reveal_strlit("AuthFailureBanWindow");
                reveal_strlit("authfailurebanwindow");
                assert(text::lowered("AuthFailureBanWindow"@) =~= "authfailurebanwindow"@);
            },
            Directive::Span(SpanSetting::AuthFailureBanDuration) => {
                reveal_strlit("AuthFailureBanDuration");
                reveal_strlit("authfailurebanduration");
                assert(text::lowered("AuthFailureBanDuration"@) =~= "authfailurebanduration"@);
            },
            Directive::Span(SpanSetting::InactivityTimeout) => {
                reveal_strlit("InactivityTimeout");
                reveal_strlit("inactivitytimeout");
                assert(text::lowered("InactivityTimeout"@) =~= "inactivitytimeout"@);
            },
            Directive::Span(SpanSetting::KeepaliveInterval) => {
                reveal_strlit("KeepaliveInterval");
                reveal_strlit("keepaliveinterval");
                assert(text::lowered("KeepaliveInterval"@) =~= "keepaliveinterval"@);
            },
            Directive::Span(SpanSetting::AuthorizedKeysReloadInterval) => {
                reveal_strlit("AuthorizedKeysReloadInterval");
                reveal_strlit("authorizedkeysreloadinterval");
                assert(text::lowered("AuthorizedKeysReloadInterval"@) =~= "authorizedkeysreloadinterval"@);
            },
            Directive::Width(WidthSetting::WindowSize) => {
                reveal_strlit("WindowSize");
                reveal_strlit("windowsize");
                assert(text::lowered("WindowSize"@) =~= "windowsize"@);
            },
            Directive::Width(WidthSetting::MaximumPacketSize) => {
                reveal_strlit("MaximumPacketSize");
                reveal_strlit("maximumpacketsize");
                assert(text::lowered("MaximumPacketSize"@) =~= "maximumpacketsize"@);
            },
            Directive::AuthorizedKeysMaxSize => {
                reveal_strlit("AuthorizedKeysMaxSize");
                reveal_strlit("authorizedkeysmaxsize");
                assert(text::lowered("AuthorizedKeysMaxSize"@) =~= "authorizedkeysmaxsize"@);
            },
            Directive::PubkeyAuthentication => {
                reveal_strlit("PubkeyAuthentication");
                reveal_strlit("pubkeyauthentication");
                assert(text::lowered("PubkeyAuthentication"@) =~= "pubkeyauthentication"@);
            },
            Directive::PasswordAuthentication => {
                reveal_strlit("PasswordAuthentication");
                reveal_strlit("passwordauthentication");
                assert(text::lowered("PasswordAuthentication"@) =~= "passwordauthentication"@);
            },
            Directive::PermitOpen => {
                reveal_strlit("PermitOpen");
                reveal_strlit("permitopen");
                assert(text::lowered("PermitOpen"@) =~= "permitopen"@);
            },
            Directive::LogLevel => {
                reveal_strlit("LogLevel");
                reveal_strlit("loglevel");
                assert(text::lowered("LogLevel"@) =~= "loglevel"@);
            },
        }
    }
}

/// A directive is found by its own name in lower case.
pub proof fn law_directive_is_found_by_its_label(
    d: Directive,
    label: &'static str,
    key: &Vec<char>,
    found: Option<Directive>,
)
    requires
        call_ensures(Directive::label, (d,), label),
        key@ == text::lowered(label@),
        call_ensures(find_directive, (key,), found),
    ensures
        found == Some(d),
{
    law_directive_found_by_name(d, d.name());
}

} // verus!
