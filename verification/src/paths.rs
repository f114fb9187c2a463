//! The fixed filesystem locations the installer works with.

use vstd::prelude::*;

verus! {

/// The package root directory.
pub open spec fn spec_pkgbase() -> Seq<char> {
    "/var/packages/pan-xunlei-com"@
}

pub fn synopkg_pkgbase() -> (r: &'static str)
    ensures
        r@ == spec_pkgbase(),
{
    "/var/packages/pan-xunlei-com"
}

/// The target directory holding the staged asset files.
pub open spec fn spec_pkgdest() -> Seq<char> {
    "/var/packages/pan-xunlei-com/target"@
}

pub fn synopkg_pkgdest() -> (r: &'static str)
    ensures
        r@ == spec_pkgdest(),
{
    "/var/packages/pan-xunlei-com/target"
}

/// The staged `host` subtree that fakes the host environment.
pub open spec fn spec_host_dir() -> Seq<char> {
    "/var/packages/pan-xunlei-com/target/host"@
}

/// The well-known system identity file.
pub open spec fn spec_syno_info_path() -> Seq<char> {
    "/etc/synoinfo.conf"@
}

pub fn syno_info_path() -> (r: &'static str)
    ensures
        r@ == spec_syno_info_path(),
{
    "/etc/synoinfo.conf"
}

/// The well-known system authentication hook.
pub open spec fn spec_syno_auth_path() -> Seq<char> {
    "/usr/syno/synoman/webman/modules/authenticate.cgi"@
}

pub fn syno_auth_path() -> (r: &'static str)
    ensures
        r@ == spec_syno_auth_path(),
{
    "/usr/syno/synoman/webman/modules/authenticate.cgi"
}

/// The generated identity file inside the staged tree.
pub open spec fn spec_host_info_path() -> Seq<char> {
    "/var/packages/pan-xunlei-com/target/host/etc/synoinfo.conf"@
}

pub fn host_info_path() -> (r: &'static str)
    ensures
        r@ == spec_host_info_path(),
{
    "/var/packages/pan-xunlei-com/target/host/etc/synoinfo.conf"
}

/// The parent directory of the generated identity file.
pub open spec fn spec_host_info_dir() -> Seq<char> {
    "/var/packages/pan-xunlei-com/target/host/etc"@
}

pub fn host_info_dir() -> (r: &'static str)
    ensures
        r@ == spec_host_info_dir(),
{
    "/var/packages/pan-xunlei-com/target/host/etc"
}

/// The generated authentication stub inside the staged tree.
pub open spec fn spec_host_auth_path() -> Seq<char> {
    "/var/packages/pan-xunlei-com/target/host/usr/syno/synoman/webman/modules/authenticate.cgi"@
}

pub fn host_auth_path() -> (r: &'static str)
    ensures
        r@ == spec_host_auth_path(),
{
    "/var/packages/pan-xunlei-com/target/host/usr/syno/synoman/webman/modules/authenticate.cgi"
}

/// The parent directory of the generated authentication stub.
pub open spec fn spec_host_auth_dir() -> Seq<char> {
    "/var/packages/pan-xunlei-com/target/host/usr/syno/synoman/webman/modules"@
}

pub fn host_auth_dir() -> (r: &'static str)
    ensures
        r@ == spec_host_auth_dir(),
{
    "/var/packages/pan-xunlei-com/target/host/usr/syno/synoman/webman/modules"
}

/// The parent directory of the authentication hook's symlink.
pub open spec fn spec_syno_auth_dir() -> Seq<char> {
    "/usr/syno/synoman/webman/modules"@
}

pub fn syno_auth_dir() -> (r: &'static str)
    ensures
        r@ == spec_syno_auth_dir(),
{
    "/usr/syno/synoman/webman/modules"
}

/// The service unit file location.
pub open spec fn spec_unit_file() -> Seq<char> {
    "/etc/systemd/system/xunlei.service"@
}

pub fn systemctl_unit_file() -> (r: &'static str)
    ensures
        r@ == spec_unit_file(),
{
    "/etc/systemd/system/xunlei.service"
}

/// The service name under the service-control facility.
pub open spec fn spec_app_name() -> Seq<char> {
    "xunlei"@
}

pub fn app_name() -> (r: &'static str)
    ensures
        r@ == spec_app_name(),
{
    "xunlei"
}

/// The default configuration directory an uninstall with `clear` removes.
pub open spec fn spec_default_config_path() -> Seq<char> {
    "/opt/xunlei"@
}

pub fn default_config_path() -> (r: &'static str)
    ensures
        r@ == spec_default_config_path(),
{
    "/opt/xunlei"
}

} // verus!
