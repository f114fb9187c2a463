use xunlei_installer::actions::{Action, FileContent};
use xunlei_installer::assets::AssetStore;
use xunlei_installer::errors::XunleiError;
use xunlei_installer::install::{
    identity_content, Config, SystemProbe, XunleiInstall, XunleiUninstall,
};
use xunlei_installer::ip::{ip_to_string, IpAddr};
use xunlei_installer::ipparse::parser_host;
use xunlei_installer::sim::{FsSim, SimNode};
use xunlei_installer::text::{dec_string, join, token_from_bytes};
use xunlei_installer::validate::parser_port_in_range;
use xunlei_installer::Running;

const PKGBASE: &str = "/var/packages/pan-xunlei-com";
const PKGDEST: &str = "/var/packages/pan-xunlei-com/target";
const SYNO_INFO: &str = "/etc/synoinfo.conf";
const SYNO_AUTH: &str = "/usr/syno/synoman/webman/modules/authenticate.cgi";
const HOST_INFO: &str = "/var/packages/pan-xunlei-com/target/host/etc/synoinfo.conf";
const HOST_AUTH: &str =
    "/var/packages/pan-xunlei-com/target/host/usr/syno/synoman/webman/modules/authenticate.cgi";
const UNIT_FILE: &str = "/etc/systemd/system/xunlei.service";

fn sample_install() -> XunleiInstall {
    let config = Config {
        username: None,
        password: None,
        host: IpAddr::V4(0, 0, 0, 0),
        port: 5055,
        config_path: String::from(PKGBASE),
        download_path: String::from("/tmp/downloads"),
    };
    XunleiInstall::new(config, 1000, 100)
}

fn sample_store() -> AssetStore {
    let mut store = AssetStore::new();
    store.add(String::from("a"), b"X".to_vec()).unwrap();
    store.add(String::from("b"), b"Y".to_vec()).unwrap();
    store
}

fn probe(supported: bool) -> SystemProbe {
    SystemProbe {
        systemd_supported: supported,
        launch_path: String::from("/usr/local/bin/xunlei"),
    }
}

#[test]
fn port_range_bounds() {
    assert_eq!(parser_port_in_range("1023"), Err(XunleiError::PortOutOfRange));
    assert_eq!(parser_port_in_range("1024"), Ok(1024));
    assert_eq!(parser_port_in_range("65535"), Ok(65535));
    assert_eq!(parser_port_in_range("65536"), Err(XunleiError::PortOutOfRange));
}

#[test]
fn port_not_a_number() {
    assert_eq!(parser_port_in_range(""), Err(XunleiError::PortNotANumber));
    assert_eq!(parser_port_in_range("abc"), Err(XunleiError::PortNotANumber));
    assert_eq!(parser_port_in_range("50x5"), Err(XunleiError::PortNotANumber));
    assert_eq!(parser_port_in_range("-1"), Err(XunleiError::PortNotANumber));
    assert_eq!(parser_port_in_range("05055"), Ok(5055));
    assert_eq!(
        parser_port_in_range("99999999999999999999"),
        Err(XunleiError::PortOutOfRange)
    );
}

#[test]
fn host_accepts_ip_literals() {
    assert_eq!(parser_host("127.0.0.1"), Ok(IpAddr::V4(127, 0, 0, 1)));
    assert_eq!(parser_host("0.0.0.0"), Ok(IpAddr::V4(0, 0, 0, 0)));
    assert_eq!(parser_host("255.255.255.255"), Ok(IpAddr::V4(255, 255, 255, 255)));
    assert_eq!(parser_host("::1"), Ok(IpAddr::V6(0, 0, 0, 0, 0, 0, 0, 1)));
    assert_eq!(parser_host("::"), Ok(IpAddr::V6(0, 0, 0, 0, 0, 0, 0, 0)));
    assert_eq!(
        parser_host("2001:db8::8a2e:370:7334"),
        Ok(IpAddr::V6(0x2001, 0xdb8, 0, 0, 0, 0x8a2e, 0x370, 0x7334))
    );
    assert_eq!(
        parser_host("1:2:3:4:5:6:7:8"),
        Ok(IpAddr::V6(1, 2, 3, 4, 5, 6, 7, 8))
    );
    assert_eq!(
        parser_host("::ffff:192.168.0.1"),
        Ok(IpAddr::V6(0, 0, 0, 0, 0, 0xffff, 0xc0a8, 0x0001))
    );
}

#[test]
fn host_rejects_non_ip_literals() {
    for bad in [
        "not-an-ip",
        "",
        "1.2.3",
        "1.2.3.4.5",
        "256.1.1.1",
        "01.2.3.4",
        "1.2.3.4:80",
        ":::",
        "1:2:3:4:5:6:7:8:9",
        "1:2:3:4:5:6:7::8",
        "localhost",
        "g::1",
    ] {
        assert_eq!(parser_host(bad), Err(XunleiError::HostNotAnIp), "{}", bad);
    }
}

#[test]
fn ip_rendering() {
    assert_eq!(ip_to_string(&IpAddr::V4(0, 0, 0, 0)), "0.0.0.0");
    assert_eq!(ip_to_string(&IpAddr::V4(192, 168, 0, 1)), "192.168.0.1");
    assert_eq!(
        ip_to_string(&IpAddr::V6(0, 0, 0, 0, 0, 0, 0, 1)),
        "0:0:0:0:0:0:0:1"
    );
    assert_eq!(
        ip_to_string(&IpAddr::V6(0x2001, 0xdb8, 0, 0, 0, 0x8a2e, 0x370, 0x7334)),
        "2001:db8:0:0:0:8a2e:370:7334"
    );
}

#[test]
fn asset_store_lookup() {
    let store = sample_store();
    assert_eq!(store.get("a").unwrap().as_slice(), b"X");
    assert_eq!(store.get("b").unwrap().as_slice(), b"Y");
    assert_eq!(store.get("c").unwrap_err(), XunleiError::NotFound);
}

#[test]
fn asset_store_refuses_bad_names() {
    let mut store = sample_store();
    assert!(store.add(String::from("a"), b"Z".to_vec()).is_err());
    assert!(store.add(String::from("sub/dir"), b"Z".to_vec()).is_err());
    assert_eq!(store.len(), 2);
}

#[test]
fn identity_content_format() {
    assert_eq!(
        identity_content("abcdef0"),
        "unique=\"synology_abcdef0_720+\""
    );
}

#[test]
fn install_stages_assets_with_content_and_mode() {
    let st = sample_install();
    let store = sample_store();
    let plan = st.plan_with_token(&store, "abcdef0", &probe(false));
    let mut sim = FsSim::new();
    sim.apply_plan(&plan).unwrap();
    for (name, bytes) in [("a", b"X".as_slice()), ("b", b"Y".as_slice())] {
        let path = format!("{}/{}", PKGDEST, name);
        match sim.get(&path) {
            Some(SimNode::File { data: FileContent::Bytes(b), mode }) => {
                assert_eq!(b.as_slice(), bytes);
                assert_eq!(*mode, 0o755);
            }
            other => panic!("expected staged file at {}, got {:?}", path, other.is_some()),
        }
    }
}

#[test]
fn install_writes_identity_and_stub() {
    let st = sample_install();
    let store = sample_store();
    let plan = st.plan_with_token(&store, "abcdef0", &probe(false));
    let mut sim = FsSim::new();
    sim.apply_plan(&plan).unwrap();
    match sim.get(HOST_INFO) {
        Some(SimNode::File { data: FileContent::Text(t), mode }) => {
            assert_eq!(t.as_str(), "unique=\"synology_abcdef0_720+\"");
            assert_eq!(*mode, 0o644);
        }
        _ => panic!("identity file missing"),
    }
    match sim.get(HOST_AUTH) {
        Some(SimNode::File { data: FileContent::Text(t), mode }) => {
            assert_eq!(t.as_str(), "#!/usr/bin/env sh\necho OK");
            assert_eq!(*mode, 0o755);
        }
        _ => panic!("authentication stub missing"),
    }
}

#[test]
fn spoof_creates_links_then_never_overwrites() {
    let st = sample_install();
    let store = sample_store();
    let mut sim = FsSim::new();

    // First run: the system paths do not pre-exist, so links appear.
    let plan1 = st.plan_with_token(&store, "aaaaaaa", &probe(false));
    sim.apply_plan(&plan1).unwrap();
    match sim.get(SYNO_INFO) {
        Some(SimNode::Link { target }) => assert_eq!(target.as_str(), HOST_INFO),
        _ => panic!("identity symlink missing"),
    }
    match sim.get(SYNO_AUTH) {
        Some(SimNode::Link { target }) => assert_eq!(target.as_str(), HOST_AUTH),
        _ => panic!("authentication symlink missing"),
    }

    // Second run: completes, links stay.
    let plan2 = st.plan_with_token(&store, "bbbbbbb", &probe(false));
    sim.apply_plan(&plan2).unwrap();
    assert!(matches!(sim.get(SYNO_INFO), Some(SimNode::Link { .. })));

    // A pre-existing occupant is never overwritten and raises no error.
    let mut sim2 = FsSim::new();
    sim2.put(
        String::from(SYNO_INFO),
        SimNode::File {
            data: FileContent::Text(String::from("unique=\"real\"")),
            mode: 0o644,
        },
    );
    let plan3 = st.plan_with_token(&store, "ccccccc", &probe(false));
    sim2.apply_plan(&plan3).unwrap();
    match sim2.get(SYNO_INFO) {
        Some(SimNode::File { data: FileContent::Text(t), .. }) => {
            assert_eq!(t.as_str(), "unique=\"real\"");
        }
        _ => panic!("pre-existing identity file was disturbed"),
    }
}

#[test]
fn uninstall_on_empty_system_succeeds() {
    let un = XunleiUninstall { clear: false };
    let plan = un.plan(&probe(true));
    let mut sim = FsSim::new();
    assert!(sim.apply_plan(&plan).is_ok());
    let un_clear = XunleiUninstall { clear: true };
    let plan2 = un_clear.plan(&probe(false));
    let mut sim2 = FsSim::new();
    assert!(sim2.apply_plan(&plan2).is_ok());
}

#[test]
fn uninstall_removes_package_tree_and_unit() {
    let st = sample_install();
    let store = sample_store();
    let mut sim = FsSim::new();
    sim.apply_plan(&st.plan_with_token(&store, "abcdef0", &probe(true))).unwrap();
    assert!(sim.contains(UNIT_FILE));
    assert!(sim.contains(&format!("{}/a", PKGDEST)));

    let un = XunleiUninstall { clear: false };
    sim.apply_plan(&un.plan(&probe(true))).unwrap();
    assert!(!sim.contains(UNIT_FILE));
    assert!(!sim.contains(PKGBASE));
    assert!(!sim.contains(PKGDEST));
    assert!(!sim.contains(&format!("{}/a", PKGDEST)));
    assert!(!sim.contains(HOST_INFO));
    // The symlinked system paths are outside the package tree and stay.
    assert!(sim.contains(SYNO_INFO));
}

#[test]
fn unsupported_facility_skips_registration() {
    let st = sample_install();
    let store = sample_store();
    let plan = st.plan_with_token(&store, "abcdef0", &probe(false));
    for a in plan.iter() {
        assert!(!matches!(a, Action::Systemctl { .. }));
        if let Action::WriteFile { path, .. } = a {
            assert_ne!(path.as_str(), UNIT_FILE);
        }
    }
    let mut sim = FsSim::new();
    sim.apply_plan(&plan).unwrap();
    assert!(!sim.contains(UNIT_FILE));
}

#[test]
fn supported_facility_registers_service() {
    let st = sample_install();
    let store = sample_store();
    let plan = st.plan_with_token(&store, "abcdef0", &probe(true));
    let mut sim = FsSim::new();
    sim.apply_plan(&plan).unwrap();
    match sim.get(UNIT_FILE) {
        Some(SimNode::File { data: FileContent::Text(t), mode }) => {
            assert_eq!(*mode, 0o666);
            assert!(t.starts_with("[Unit]"));
            assert!(t.contains("Description=Thunder remote download service"));
            assert!(t.contains(
                "ExecStart=/usr/local/bin/xunlei launch -h 0.0.0.0 -p 5055 \
                 -d /tmp/downloads -c /var/packages/pan-xunlei-com "
            ));
            assert!(t.contains("User=1000"));
            assert!(t.ends_with("WantedBy=multi-user.target"));
        }
        _ => panic!("unit file missing"),
    }
    let tail: Vec<&Action> = plan.iter().rev().take(3).collect();
    assert!(matches!(tail[2], Action::Systemctl { .. }));
    assert!(matches!(tail[1], Action::Systemctl { .. }));
    assert!(matches!(tail[0], Action::Systemctl { .. }));
}

#[test]
fn unit_contains_auth_arguments_when_both_given() {
    let config = Config {
        username: Some(String::from("admin")),
        password: Some(String::from("secret")),
        host: IpAddr::V4(127, 0, 0, 1),
        port: 2048,
        config_path: String::from("/etc/xunlei"),
        download_path: String::from("/downloads"),
    };
    let st = XunleiInstall::new(config, 0, 0);
    let unit = st.render_unit("/bin/xunlei");
    assert!(unit.contains("-U admin -W secret"));

    let config_half = Config {
        username: Some(String::from("admin")),
        password: None,
        host: IpAddr::V4(127, 0, 0, 1),
        port: 2048,
        config_path: String::from("/etc/xunlei"),
        download_path: String::from("/downloads"),
    };
    let st_half = XunleiInstall::new(config_half, 0, 0);
    let unit_half = st_half.render_unit("/bin/xunlei");
    assert!(!unit_half.contains("-U "));
}

#[test]
fn running_install_draws_a_fresh_token() {
    let st = sample_install();
    let store = sample_store();
    let plan = st.run(&store, &probe(false)).unwrap();
    let mut sim = FsSim::new();
    sim.apply_plan(&plan).unwrap();
    match sim.get(HOST_INFO) {
        Some(SimNode::File { data: FileContent::Text(t), .. }) => {
            assert!(t.starts_with("unique=\"synology_"));
            assert!(t.ends_with("_720+\""));
            assert_eq!(t.len(), "unique=\"synology_".len() + 7 + "_720+\"".len());
            let token = &t["unique=\"synology_".len()..t.len() - "_720+\"".len()];
            assert!(token.chars().all(|c| c.is_ascii_hexdigit()));
        }
        _ => panic!("identity file missing"),
    }
}

#[test]
fn running_uninstall_matches_plan() {
    let un = XunleiUninstall { clear: true };
    let plan = un.run(&AssetStore::new(), &probe(true)).unwrap();
    assert_eq!(plan.len(), 6);
    assert!(matches!(&plan[0], Action::Systemctl { .. }));
    assert!(matches!(&plan[3], Action::RemoveFileIfPresent { .. }));
    assert!(matches!(&plan[4], Action::RemoveTreeIfPresent { .. }));
    assert!(matches!(&plan[5], Action::RemoveDirIfPresent { .. }));
}

#[test]
fn config_dirs_are_prepared_first() {
    let st = sample_install();
    let store = sample_store();
    let plan = st.plan_with_token(&store, "abcdef0", &probe(false));
    match &plan[0] {
        Action::EnsureDirAll { path, mode } => {
            assert_eq!(path.as_str(), "/tmp/downloads");
            assert_eq!(*mode, None);
        }
        _ => panic!("download directory is not prepared first"),
    }
    match &plan[1] {
        Action::EnsureDirAll { path, mode } => {
            assert_eq!(path.as_str(), PKGBASE);
            assert_eq!(*mode, None);
        }
        _ => panic!("config directory is not prepared second"),
    }
    match &plan[2] {
        Action::EnsureDirAll { path, mode } => {
            assert_eq!(path.as_str(), PKGDEST);
            assert_eq!(*mode, Some(0o755));
        }
        _ => panic!("target directory is not prepared third"),
    }
}

#[test]
fn config_path_as_file_fails_install() {
    let st = sample_install();
    let store = sample_store();
    let plan = st.plan_with_token(&store, "abcdef0", &probe(false));
    let mut sim = FsSim::new();
    sim.put(
        String::from("/tmp/downloads"),
        SimNode::File {
            data: FileContent::Bytes(vec![1]),
            mode: 0o644,
        },
    );
    assert_eq!(sim.apply_plan(&plan), Err(XunleiError::NotADirectory));
}

#[test]
fn ownership_is_set_after_asset_writes() {
    let st = sample_install();
    let store = sample_store();
    let plan = st.plan_with_token(&store, "abcdef0", &probe(false));
    let first_chown = plan
        .iter()
        .position(|a| matches!(a, Action::SetOwnership { .. }))
        .unwrap();
    let last_asset_write = plan
        .iter()
        .rposition(|a| {
            matches!(a, Action::WriteFile { data: FileContent::Bytes(_), .. })
        })
        .unwrap();
    assert!(last_asset_write < first_chown);
    match &plan[first_chown] {
        Action::SetOwnership { path, uid, gid } => {
            assert_eq!(path.as_str(), PKGBASE);
            assert_eq!(*uid, 1000);
            assert_eq!(*gid, 100);
        }
        _ => unreachable!(),
    }
}

#[test]
fn error_messages_name_the_cause() {
    assert_eq!(
        XunleiError::PortOutOfRange.message(),
        "Port not in range 1024-65535"
    );
    assert_eq!(XunleiError::PortNotANumber.message(), "isn't a port number");
    assert_eq!(XunleiError::HostNotAnIp.message(), "isn't a ip address");
}

#[test]
fn decimal_and_hex_rendering() {
    assert_eq!(dec_string(0), "0");
    assert_eq!(dec_string(5055), "5055");
    assert_eq!(dec_string(65535), "65535");
    let token = token_from_bytes(&vec![0xab, 0xcd, 0xef, 0x12]);
    assert_eq!(token, "abcdef1");
    let token_zero = token_from_bytes(&vec![0, 0, 0, 0, 9, 9]);
    assert_eq!(token_zero, "0000000");
}

#[test]
fn join_inserts_single_separator() {
    assert_eq!(
        join("/var/packages/pan-xunlei-com/target", "a"),
        "/var/packages/pan-xunlei-com/target/a"
    );
}
