//! The install, uninstall and launch configuration, and the plans they
//! compute.
//!
//! Every decision of the install sequence is taken here, as a pure
//! computation from the configuration and from what was probed on the
//! system; the result is a plan of [`Action`] values whose exact
//! contents the contracts pin down.  The runner outside the library
//! executes the plan in order and aborts at the first failing filesystem
//! action; service-control actions are best-effort.

use vstd::prelude::*;

use crate::actions::{Action, ActionModel, ContentModel, FileContent};
use crate::assets::AssetStore;
use crate::errors::XunleiError;
use crate::ip::{ip_to_string, spec_ip_str, IpAddr};
use crate::paths;
use crate::text::{dec_string, spec_dec, spec_join, spec_token, token_from_bytes};

verus! {

/// The immutable command-line configuration.
pub struct Config {
    /// Panel username, if authentication is wanted.
    pub username: Option<String>,
    /// Panel password, if authentication is wanted.
    pub password: Option<String>,
    /// Listen host.
    pub host: IpAddr,
    /// Listen port, already validated to lie in 1024..=65535.
    pub port: u16,
    /// Configuration directory.
    pub config_path: String,
    /// Download directory.
    pub download_path: String,
}

/// What the runner probed from the system before planning.
pub struct SystemProbe {
    /// Whether the service-control facility answered its probe query.
    pub systemd_supported: bool,
    /// The path of the running executable, used as the launch invocation
    /// in the service unit.
    pub launch_path: String,
}

/// The identity file content embedding the short random token.
pub open spec fn spec_identity_content(tok: Seq<char>) -> Seq<char> {
    "unique=\"synology_"@ + tok + "_720+\""@
}

/// Builds the identity file content around the token.
pub fn identity_content(token: &str) -> (r: String)
    ensures
        r@ == spec_identity_content(token@),
{
    let mut s = String::from_str("unique=\"synology_");
    s.append(token);
    s.append("_720+\"");
    s
}

/// The fixed authentication stub: a script that always answers OK.
pub open spec fn spec_auth_script() -> Seq<char> {
    "#!/usr/bin/env sh\necho OK"@
}

pub fn auth_script() -> (r: &'static str)
    ensures
        r@ == spec_auth_script(),
{
    "#!/usr/bin/env sh\necho OK"
}

/// The authentication arguments of the launch invocation: present exactly
/// when both a username and a password were given.
pub open spec fn spec_auth_arg(user: Option<Seq<char>>, pass: Option<Seq<char>>) -> Seq<char> {
    if user is Some && pass is Some {
        "-U "@ + user->Some_0 + " -W "@ + pass->Some_0
    } else {
        ""@
    }
}

/// The full text of the service unit.
pub open spec fn spec_unit_content(
    desc: Seq<char>,
    launch: Seq<char>,
    host: IpAddr,
    port: u16,
    download_path: Seq<char>,
    config_path: Seq<char>,
    auth: Seq<char>,
    uid: u32,
) -> Seq<char> {
    "[Unit]\n                Description="@ + desc
        + "\n                After=network.target network-online.target\n                Requires=network-online.target\n                \n                [Service]\n                Type=simple\n                ExecStart="@
        + launch + " launch -h "@ + spec_ip_str(host) + " -p "@ + spec_dec(port as int) + " -d "@
        + download_path + " -c "@ + config_path + " "@ + auth
        + "\n                LimitNOFILE=1024\n                LimitNPROC=512\n                User="@
        + spec_dec(uid as int)
        + "\n                \n                [Install]\n                WantedBy=multi-user.target"@
}

/// The install command: the configuration plus the identity of the
/// invoking process.
pub struct XunleiInstall {
    /// The service description written into the unit file.
    pub description: String,
    /// Panel username, if authentication is wanted.
    pub auth_user: Option<String>,
    /// Panel password, if authentication is wanted.
    pub auth_password: Option<String>,
    /// Listen host.
    pub host: IpAddr,
    /// Listen port.
    pub port: u16,
    /// Download directory.
    pub download_path: String,
    /// Configuration directory.
    pub config_path: String,
    /// The invoking process's user id.
    pub uid: u32,
    /// The invoking process's group id.
    pub gid: u32,
}

impl XunleiInstall {
    /// Derives the install command from the configuration and the process
    /// identity the runner read.
    pub fn new(config: Config, uid: u32, gid: u32) -> (r: Self)
        ensures
            r.description@ == "Thunder remote download service"@,
            r.auth_user == config.username,
            r.auth_password == config.password,
            r.host == config.host,
            r.port == config.port,
            r.download_path == config.download_path,
            r.config_path == config.config_path,
            r.uid == uid,
            r.gid == gid,
    {
        XunleiInstall {
            description: String::from_str("Thunder remote download service"),
            auth_user: config.username,
            auth_password: config.password,
            host: config.host,
            port: config.port,
            download_path: config.download_path,
            config_path: config.config_path,
            uid,
            gid,
        }
    }

    /// The authentication arguments for this configuration.
    pub fn auth_arg(&self) -> (r: String)
        ensures
            r@ == spec_auth_arg(
                match self.auth_user {
                    Some(ref u) => Some(u@),
                    None => None,
                },
                match self.auth_password {
                    Some(ref p) => Some(p@),
                    None => None,
                },
            ),
    {
        match (&self.auth_user, &self.auth_password) {
            (Some(u), Some(p)) => {
                let mut s = String::from_str("-U ");
                s.append(u.as_str());
                s.append(" -W ");
                s.append(p.as_str());
                s
            },
            _ => {
                let s = String::new();
                proof {
                    reveal_strlit("");
                    assert(s@ =~= ""@);
                }
                s
            },
        }
    }

    /// Renders the service unit for this configuration and the given
    /// launch invocation path.
    pub fn render_unit(&self, launch: &str) -> (r: String)
        ensures
            r@ == spec_unit_content(
                self.description@,
                launch@,
                self.host,
                self.port,
                self.download_path@,
                self.config_path@,
                spec_auth_arg(
                    match self.auth_user {
                        Some(ref u) => Some(u@),
                        None => None,
                    },
                    match self.auth_password {
                        Some(ref p) => Some(p@),
                        None => None,
                    },
                ),
                self.uid,
            ),
    {
        let auth = self.auth_arg();
        let mut s = String::from_str("[Unit]\n                Description=");
        s.append(self.description.as_str());
        s.append(
            "\n                After=network.target network-online.target\n                Requires=network-online.target\n                \n                [Service]\n                Type=simple\n                ExecStart=",
        );
        s.append(launch);
        s.append(" launch -h ");
        s.append(ip_to_string(&self.host).as_str());
        s.append(" -p ");
        s.append(dec_string(self.port as u64).as_str());
        s.append(" -d ");
        s.append(self.download_path.as_str());
        s.append(" -c ");
        s.append(self.config_path.as_str());
        s.append(" ");
        s.append(auth.as_str());
        s.append(
            "\n                LimitNOFILE=1024\n                LimitNPROC=512\n                User=",
        );
        s.append(dec_string(self.uid as u64).as_str());
        s.append(
            "\n                \n                [Install]\n                WantedBy=multi-user.target",
        );
        s
    }
}

/// Copies a byte vector.
fn copy_bytes(src: &Vec<u8>) -> (r: Vec<u8>)
    ensures
        r@ == src@,
{
    let mut r: Vec<u8> = Vec::new();
    let n = src.len();
    let mut i: usize = 0;
    while i < n
        invariant
            i <= n,
            n == src@.len(),
            r@ == src@.take(i as int),
        decreases n - i,
    {
        r.push(src[i]);
        assert(r@ =~= src@.take(i + 1 as int));
        i += 1;
    }
    assert(r@ =~= src@);
    r
}

/// The directory-preparation actions: the download and configuration
/// directories must exist as directories before anything else happens.
pub open spec fn spec_config_actions(s: &XunleiInstall) -> Seq<ActionModel> {
    seq![
        ActionModel::EnsureDirAll { path: s.download_path@, mode: None },
        ActionModel::EnsureDirAll { path: s.config_path@, mode: None },
    ]
}

/// One staging write per asset entry, in store order, into the target
/// directory, executable bits set.
pub open spec fn spec_asset_writes(assets: Seq<(Seq<char>, Seq<u8>)>) -> Seq<ActionModel> {
    assets.map_values(
        |e: (Seq<char>, Seq<u8>)|
            ActionModel::WriteFile {
                path: spec_join(paths::spec_pkgdest(), e.0),
                data: ContentModel::Bytes(e.1),
                mode: 0o755u32,
            },
    )
}

/// The identity-spoofing actions: write the generated identity file and
/// the authentication stub into the staged `host` subtree, then link the
/// two well-known system paths to them if nothing stands there yet.
pub open spec fn spec_spoof_actions(tok: Seq<char>) -> Seq<ActionModel> {
    seq![
        ActionModel::EnsureDirAll { path: paths::spec_host_info_dir(), mode: Some(0o755u32) },
        ActionModel::WriteFile {
            path: paths::spec_host_info_path(),
            data: ContentModel::Text(spec_identity_content(tok)),
            mode: 0o644u32,
        },
        ActionModel::EnsureDirAll { path: paths::spec_host_auth_dir(), mode: Some(0o755u32) },
        ActionModel::WriteFile {
            path: paths::spec_host_auth_path(),
            data: ContentModel::Text(spec_auth_script()),
            mode: 0o755u32,
        },
        ActionModel::SymlinkIfAbsent {
            link: paths::spec_syno_info_path(),
            target: paths::spec_host_info_path(),
            parent: None,
        },
        ActionModel::SymlinkIfAbsent {
            link: paths::spec_syno_auth_path(),
            target: paths::spec_host_auth_path(),
            parent: Some(paths::spec_syno_auth_dir()),
        },
    ]
}

/// The staging actions: create the target directory, write every asset,
/// set ownership on the package root and the target directory (after all
/// asset writes), then spoof the identity.
pub open spec fn spec_install_actions(
    s: &XunleiInstall,
    assets: Seq<(Seq<char>, Seq<u8>)>,
    tok: Seq<char>,
) -> Seq<ActionModel> {
    seq![ActionModel::EnsureDirAll { path: paths::spec_pkgdest(), mode: Some(0o755u32) }]
        + spec_asset_writes(assets) + seq![
        ActionModel::SetOwnership { path: paths::spec_pkgbase(), uid: s.uid, gid: s.gid },
        ActionModel::SetOwnership { path: paths::spec_pkgdest(), uid: s.uid, gid: s.gid },
    ] + spec_spoof_actions(tok)
}

/// The service-registration actions: nothing when the facility is absent;
/// otherwise write the unit file and reload, enable and start, in that
/// order, each best-effort.
pub open spec fn spec_systemd_actions(
    s: &XunleiInstall,
    supported: bool,
    launch: Seq<char>,
) -> Seq<ActionModel> {
    if !supported {
        Seq::empty()
    } else {
        seq![
            ActionModel::WriteFile {
                path: paths::spec_unit_file(),
                data: ContentModel::Text(
                    spec_unit_content(
                        s.description@,
                        launch,
                        s.host,
                        s.port,
                        s.download_path@,
                        s.config_path@,
                        spec_auth_arg(
                            match s.auth_user {
                                Some(ref u) => Some(u@),
                                None => None,
                            },
                            match s.auth_password {
                                Some(ref p) => Some(p@),
                                None => None,
                            },
                        ),
                        s.uid,
                    ),
                ),
                mode: 0o666u32,
            },
            ActionModel::Systemctl { args: seq!["daemon-reload"@] },
            ActionModel::Systemctl { args: seq!["enable"@, paths::spec_app_name()] },
            ActionModel::Systemctl { args: seq!["start"@, paths::spec_app_name()] },
        ]
    }
}

/// The whole install plan for a given identity token.
pub open spec fn spec_run_plan(
    s: &XunleiInstall,
    assets: Seq<(Seq<char>, Seq<u8>)>,
    tok: Seq<char>,
    supported: bool,
    launch: Seq<char>,
) -> Seq<ActionModel> {
    spec_config_actions(s) + spec_install_actions(s, assets, tok) + spec_systemd_actions(
        s,
        supported,
        launch,
    )
}

impl XunleiInstall {
    /// The directory-preparation actions.
    pub fn config_actions(&self) -> (r: Vec<Action>)
        ensures
            r.deep_view() == spec_config_actions(self),
    {
        let mut v: Vec<Action> = Vec::new();
        v.push(Action::EnsureDirAll { path: self.download_path.clone(), mode: None });
        v.push(Action::EnsureDirAll { path: self.config_path.clone(), mode: None });
        assert(v.deep_view() =~= spec_config_actions(self));
        v
    }

    /// The staging and identity-spoofing actions, for the given token.
    pub fn install_actions(&self, assets: &AssetStore, token: &str) -> (r: Vec<Action>)
        ensures
            r.deep_view() == spec_install_actions(self, assets@, token@),
    {
        let mut v: Vec<Action> = Vec::new();
        v.push(
            Action::EnsureDirAll {
                path: String::from_str(paths::synopkg_pkgdest()),
                mode: Some(0o755u32),
            },
        );
        let n = assets.len();
        let mut i: usize = 0;
        while i < n
            invariant
                i <= n,
                n == assets@.len(),
                v.deep_view() =~= seq![
                    ActionModel::EnsureDirAll {
                        path: paths::spec_pkgdest(),
                        mode: Some(0o755u32),
                    },
                ] + spec_asset_writes(assets@.take(i as int)),
            decreases n - i,
        {
            let path = crate::text::join(paths::synopkg_pkgdest(), assets.name_at(i).as_str());
            let data = copy_bytes(assets.data_at(i));
            v.push(Action::WriteFile { path, data: FileContent::Bytes(data), mode: 0o755u32 });
            proof {
                let hd = seq![
                    ActionModel::EnsureDirAll { path: paths::spec_pkgdest(), mode: Some(0o755u32) },
                ];
                let am = ActionModel::WriteFile {
                    path: spec_join(paths::spec_pkgdest(), assets@[i as int].0),
                    data: ContentModel::Bytes(assets@[i as int].1),
                    mode: 0o755u32,
                };
                assert(spec_asset_writes(assets@.take(i + 1 as int)) =~= spec_asset_writes(
                    assets@.take(i as int),
                ).push(am));
                assert(v.deep_view() =~= (hd + spec_asset_writes(assets@.take(i as int))).push(am));
                assert((hd + spec_asset_writes(assets@.take(i as int))).push(am) =~= hd
                    + spec_asset_writes(assets@.take(i as int)).push(am));
            }
            i += 1;
        }
        assert(assets@.take(n as int) =~= assets@);
        v.push(
            Action::SetOwnership {
                path: String::from_str(paths::synopkg_pkgbase()),
                uid: self.uid,
                gid: self.gid,
            },
        );
        v.push(
            Action::SetOwnership {
                path: String::from_str(paths::synopkg_pkgdest()),
                uid: self.uid,
                gid: self.gid,
            },
        );
        v.push(
            Action::EnsureDirAll {
                path: String::from_str(paths::host_info_dir()),
                mode: Some(0o755u32),
            },
        );
        v.push(
            Action::WriteFile {
                path: String::from_str(paths::host_info_path()),
                data: FileContent::Text(identity_content(token)),
                mode: 0o644u32,
            },
        );
        v.push(
            Action::EnsureDirAll {
                path: String::from_str(paths::host_auth_dir()),
                mode: Some(0o755u32),
            },
        );
        v.push(
            Action::WriteFile {
                path: String::from_str(paths::host_auth_path()),
                data: FileContent::Text(String::from_str(auth_script())),
                mode: 0o755u32,
            },
        );
        v.push(
            Action::SymlinkIfAbsent {
                link: String::from_str(paths::syno_info_path()),
                target: String::from_str(paths::host_info_path()),
                parent: None,
            },
        );
        v.push(
            Action::SymlinkIfAbsent {
                link: String::from_str(paths::syno_auth_path()),
                target: String::from_str(paths::host_auth_path()),
                parent: Some(String::from_str(paths::syno_auth_dir())),
            },
        );
        assert(v.deep_view() =~= spec_install_actions(self, assets@, token@));
        v
    }

    /// The service-registration actions.
    pub fn systemd_actions(&self, supported: bool, launch: &str) -> (r: Vec<Action>)
        ensures
            r.deep_view() == spec_systemd_actions(self, supported, launch@),
    {
        let mut v: Vec<Action> = Vec::new();
        if !supported {
            assert(v.deep_view() =~= spec_systemd_actions(self, supported, launch@));
            return v;
        }
        v.push(
            Action::WriteFile {
                path: String::from_str(paths::systemctl_unit_file()),
                data: FileContent::Text(self.render_unit(launch)),
                mode: 0o666u32,
            },
        );
        let mut a1: Vec<String> = Vec::new();
        a1.push(String::from_str("daemon-reload"));
        assert(a1.deep_view() =~= seq!["daemon-reload"@]);
        v.push(Action::Systemctl { args: a1 });
        let mut a2: Vec<String> = Vec::new();
        a2.push(String::from_str("enable"));
        a2.push(String::from_str(paths::app_name()));
        assert(a2.deep_view() =~= seq!["enable"@, paths::spec_app_name()]);
        v.push(Action::Systemctl { args: a2 });
        let mut a3: Vec<String> = Vec::new();
        a3.push(String::from_str("start"));
        a3.push(String::from_str(paths::app_name()));
        assert(a3.deep_view() =~= seq!["start"@, paths::spec_app_name()]);
        v.push(Action::Systemctl { args: a3 });
        assert(v.deep_view() =~= spec_systemd_actions(self, supported, launch@));
        v
    }

    /// The whole install plan for a given identity token: directory
    /// preparation, staging and spoofing, service registration.
    pub fn plan_with_token(&self, assets: &AssetStore, token: &str, probe: &SystemProbe) -> (r:
        Vec<Action>)
        ensures
            r.deep_view() == spec_run_plan(
                self,
                assets@,
                token@,
                probe.systemd_supported,
                probe.launch_path@,
            ),
    {
        let mut v = self.config_actions();
        let mut mid = self.install_actions(assets, token);
        let mut tail = self.systemd_actions(probe.systemd_supported, probe.launch_path.as_str());
        v.append(&mut mid);
        v.append(&mut tail);
        assert(v.deep_view() =~= spec_run_plan(
            self,
            assets@,
            token@,
            probe.systemd_supported,
            probe.launch_path@,
        ));
        v
    }
}

/// Relies on `rand::thread_rng` and `rand::Rng::fill`: fills the buffer
/// from the thread-local cryptographically secure generator.  Nothing can
/// be promised of the values; only the length is stated.
#[verifier::external_body]
fn random_bytes_32() -> (r: Vec<u8>)
    ensures
        r@.len() == 32,
{
    let mut b: Vec<u8> = Vec::new();
    b.resize(32, 0u8);
    rand::Rng::fill(&mut rand::thread_rng(), &mut b[..]);
    b
}

impl crate::Running for XunleiInstall {
    /// Draws a fresh random identity token and computes the full install
    /// plan around it.  Planning itself cannot fail; whatever bytes the
    /// generator produced, the plan is exactly [`spec_run_plan`] for the
    /// token they encode.
    fn run(&self, assets: &AssetStore, probe: &SystemProbe) -> (r: Result<
        Vec<Action>,
        XunleiError,
    >)
        ensures
            r is Ok,
            exists|tb: Seq<u8>|
                tb.len() == 32 && (r->Ok_0).deep_view() == spec_run_plan(
                    self,
                    assets@,
                    #[trigger] spec_token(tb),
                    probe.systemd_supported,
                    probe.launch_path@,
                ),
    {
        let bytes = random_bytes_32();
        let token = token_from_bytes(&bytes);
        let plan = self.plan_with_token(assets, token.as_str(), probe);
        proof {
            assert(spec_token(bytes@) == token@);
        }
        Ok(plan)
    }
}

/// The uninstall command.
pub struct XunleiUninstall {
    /// Whether to remove the default configuration directory as well.
    pub clear: bool,
}

/// The uninstall plan: when the service-control facility is present,
/// disable and stop the service, reload, and remove the unit file if it
/// exists; then remove the package tree if it exists; then, if a full
/// clear was asked for, remove the default configuration directory.
/// Absence of any of these paths is success, not an error.
pub open spec fn spec_uninstall_plan(clear: bool, supported: bool) -> Seq<ActionModel> {
    (if supported {
        seq![
            ActionModel::Systemctl { args: seq!["disable"@, paths::spec_app_name()] },
            ActionModel::Systemctl { args: seq!["stop"@, paths::spec_app_name()] },
            ActionModel::Systemctl { args: seq!["daemon-reload"@] },
            ActionModel::RemoveFileIfPresent { path: paths::spec_unit_file() },
        ]
    } else {
        Seq::empty()
    }) + seq![ActionModel::RemoveTreeIfPresent { path: paths::spec_pkgbase() }] + (if clear {
        seq![ActionModel::RemoveDirIfPresent { path: paths::spec_default_config_path() }]
    } else {
        Seq::empty()
    })
}

impl XunleiUninstall {
    /// The uninstall plan for this command.
    pub fn plan(&self, probe: &SystemProbe) -> (r: Vec<Action>)
        ensures
            r.deep_view() == spec_uninstall_plan(self.clear, probe.systemd_supported),
    {
        let mut v: Vec<Action> = Vec::new();
        if probe.systemd_supported {
            let mut a1: Vec<String> = Vec::new();
            a1.push(String::from_str("disable"));
            a1.push(String::from_str(paths::app_name()));
            assert(a1.deep_view() =~= seq!["disable"@, paths::spec_app_name()]);
            v.push(Action::Systemctl { args: a1 });
            let mut a2: Vec<String> = Vec::new();
            a2.push(String::from_str("stop"));
            a2.push(String::from_str(paths::app_name()));
            assert(a2.deep_view() =~= seq!["stop"@, paths::spec_app_name()]);
            v.push(Action::Systemctl { args: a2 });
            let mut a3: Vec<String> = Vec::new();
            a3.push(String::from_str("daemon-reload"));
            assert(a3.deep_view() =~= seq!["daemon-reload"@]);
            v.push(Action::Systemctl { args: a3 });
            v.push(
                Action::RemoveFileIfPresent { path: String::from_str(paths::systemctl_unit_file()) },
            );
        }
        v.push(Action::RemoveTreeIfPresent { path: String::from_str(paths::synopkg_pkgbase()) });
        if self.clear {
            v.push(
                Action::RemoveDirIfPresent { path: String::from_str(paths::default_config_path()) },
            );
        }
        assert(v.deep_view() =~= spec_uninstall_plan(self.clear, probe.systemd_supported));
        v
    }
}

impl crate::Running for XunleiUninstall {
    /// Computes the uninstall plan; planning itself cannot fail.
    fn run(&self, assets: &AssetStore, probe: &SystemProbe) -> (r: Result<
        Vec<Action>,
        XunleiError,
    >)
        ensures
            r is Ok,
            (r->Ok_0).deep_view() == spec_uninstall_plan(self.clear, probe.systemd_supported),
    {
        Ok(self.plan(probe))
    }
}

} // verus!

