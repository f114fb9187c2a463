//! The guarantees the plans give over the abstract filesystem.
//!
//! Each public proof function here states one rule of the installer as a
//! theorem about [`apply_all`] on the plans of `install`: what staging
//! leaves in the target directory, that identity spoofing never overwrites
//! an existing system path, that uninstalling an absent installation is a
//! no-op, and that without a service-control facility no unit file
//! appears.

use vstd::prelude::*;

use crate::actions::{
    apply1, apply_all, covers, lemma_apply_all_concat, lemma_apply_all_preserves_absent,
    lemma_apply_all_preserves_value, may_add, may_remove, ActionModel, ContentModel, Fs, Node,
};
use crate::assets::no_slash;
use crate::install::{
    spec_asset_writes, spec_auth_script, spec_config_actions, spec_identity_content, spec_run_plan,
    spec_spoof_actions, spec_systemd_actions, spec_uninstall_plan, XunleiInstall,
};
use crate::paths::{
    spec_default_config_path, spec_host_auth_dir, spec_host_auth_path, spec_host_info_dir,
    spec_host_info_path, spec_pkgbase, spec_pkgdest, spec_syno_auth_dir, spec_syno_auth_path,
    spec_syno_info_path, spec_unit_file,
};
use crate::text::spec_join;

verus! {

/// Whether the path, if present, holds a directory.
pub open spec fn dir_ok(fs: Fs, p: Seq<char>) -> bool {
    fs.dom().contains(p) ==> fs[p] is Dir
}

/// Whether every path of `ds`, if present, holds a directory.
pub open spec fn dirs_ok(fs: Fs, ds: Set<Seq<char>>) -> bool {
    forall|d: Seq<char>| #[trigger] ds.contains(d) ==> dir_ok(fs, d)
}

/// Whether the action can neither fail nor spoil a directory of `ds`:
/// directories are only ensured inside `ds`, files and links are only
/// placed outside it.
pub open spec fn action_dir_safe(a: ActionModel, ds: Set<Seq<char>>) -> bool {
    match a {
        ActionModel::EnsureDirAll { path, .. } => ds.contains(path),
        ActionModel::WriteFile { path, .. } => !ds.contains(path),
        ActionModel::SymlinkIfAbsent { link, parent, .. } => !ds.contains(link) && match parent {
            Some(p) => ds.contains(p),
            None => true,
        },
        _ => true,
    }
}

pub open spec fn plan_dir_safe(p: Seq<ActionModel>, ds: Set<Seq<char>>) -> bool {
    forall|i: int| 0 <= i < p.len() ==> action_dir_safe(#[trigger] p[i], ds)
}

/// A dir-safe action applied to a filesystem whose `ds` paths are
/// directories succeeds and keeps them directories.
proof fn lemma_apply1_dir_safe(fs: Fs, a: ActionModel, ds: Set<Seq<char>>)
    requires
        dirs_ok(fs, ds),
        action_dir_safe(a, ds),
    ensures
        apply1(fs, a) is Some,
        dirs_ok(apply1(fs, a)->Some_0, ds),
{
}

/// A dir-safe plan applied to a filesystem whose `ds` paths are
/// directories succeeds wholly and keeps them directories.
pub proof fn lemma_apply_all_dir_safe(fs: Fs, p: Seq<ActionModel>, ds: Set<Seq<char>>)
    requires
        dirs_ok(fs, ds),
        plan_dir_safe(p, ds),
    ensures
        apply_all(fs, p) is Some,
        dirs_ok(apply_all(fs, p)->Some_0, ds),
    decreases p.len(),
{
    if p.len() > 0 {
        lemma_apply1_dir_safe(fs, p[0], ds);
        let fs1 = apply1(fs, p[0])->Some_0;
        assert(forall|i: int|
            0 <= i < p.drop_first().len() ==> action_dir_safe(#[trigger] p.drop_first()[i], ds));
        lemma_apply_all_dir_safe(fs1, p.drop_first(), ds);
    }
}

/// Every action of an uninstall plan is dir-safe with no protected
/// directories at all, so uninstalling never fails at the model level:
/// absence of the unit file, the package tree or the configuration
/// directory is not an error.
pub proof fn lemma_uninstall_total(fs: Fs, clear: bool, supported: bool)
    ensures
        apply_all(fs, spec_uninstall_plan(clear, supported)) is Some,
{
    let ds = Set::<Seq<char>>::empty();
    assert(plan_dir_safe(spec_uninstall_plan(clear, supported), ds));
    lemma_apply_all_dir_safe(fs, spec_uninstall_plan(clear, supported), ds);
}

/// A plan whose actions are all no-ops on `fs` leaves `fs` as it is.
proof fn lemma_apply_all_noop(fs: Fs, p: Seq<ActionModel>)
    requires
        forall|i: int| 0 <= i < p.len() ==> apply1(fs, #[trigger] p[i]) == Some(fs),
    ensures
        apply_all(fs, p) == Some(fs),
    decreases p.len(),
{
    if p.len() > 0 {
        assert(forall|i: int|
            0 <= i < p.drop_first().len() ==> apply1(fs, #[trigger] p.drop_first()[i]) == Some(
                fs,
            ));
        lemma_apply_all_noop(fs, p.drop_first());
    }
}

/// Uninstalling on a system where the package was never installed leaves
/// the system exactly as it was.
pub proof fn lemma_uninstall_absent_noop(fs: Fs, clear: bool, supported: bool)
    requires
        !fs.dom().contains(spec_unit_file()),
        forall|k: Seq<char>| #[trigger] fs.dom().contains(k) ==> !covers(spec_pkgbase(), k),
        !fs.dom().contains(spec_default_config_path()),
    ensures
        apply_all(fs, spec_uninstall_plan(clear, supported)) == Some(fs),
{
    let p = spec_uninstall_plan(clear, supported);
    assert forall|i: int| 0 <= i < p.len() implies apply1(fs, #[trigger] p[i]) == Some(fs) by {
        match p[i] {
            ActionModel::RemoveFileIfPresent { path } => {
                assert(fs.remove(path) =~= fs);
            },
            ActionModel::RemoveDirIfPresent { path } => {
                assert(fs.remove(path) =~= fs);
            },
            ActionModel::RemoveTreeIfPresent { path } => {
                assert(fs.remove_keys(Set::new(|k: Seq<char>| covers(path, k))) =~= fs);
            },
            _ => {},
        }
    }
    lemma_apply_all_noop(fs, p);
}

/// Appending to a joined path only ever changes the part after the
/// separator: two joins under one directory agree only on equal names.
pub proof fn lemma_join_injective(d: Seq<char>, a: Seq<char>, b: Seq<char>)
    requires
        spec_join(d, a) == spec_join(d, b),
    ensures
        a == b,
{
    reveal_strlit("/");
    assert(a =~= spec_join(d, a).subrange(
        d.len() as int + 1,
        spec_join(d, a).len() as int,
    ));
    assert(b =~= spec_join(d, b).subrange(
        d.len() as int + 1,
        spec_join(d, b).len() as int,
    ));
}

/// Reveals every fixed path and decomposes the generated locations inside
/// the staged tree as joins under the target directory.
proof fn lemma_path_facts()
    ensures
        spec_host_info_dir() == spec_join(spec_pkgdest(), "host/etc"@),
        spec_host_info_path() == spec_join(spec_pkgdest(), "host/etc/synoinfo.conf"@),
        spec_host_auth_dir() == spec_join(
            spec_pkgdest(),
            "host/usr/syno/synoman/webman/modules"@,
        ),
        spec_host_auth_path() == spec_join(
            spec_pkgdest(),
            "host/usr/syno/synoman/webman/modules/authenticate.cgi"@,
        ),
        !no_slash("host/etc"@),
        !no_slash("host/etc/synoinfo.conf"@),
        !no_slash("host/usr/syno/synoman/webman/modules"@),
        !no_slash("host/usr/syno/synoman/webman/modules/authenticate.cgi"@),
        spec_pkgdest().len() == 35,
        spec_pkgbase().len() == 28,
        spec_syno_info_path().len() == 18,
        spec_syno_auth_path().len() == 49,
        spec_syno_auth_dir().len() == 32,
        spec_unit_file().len() == 34,
        spec_pkgdest()[1] == 'v',
        spec_syno_info_path()[1] == 'e',
        spec_syno_auth_path()[1] == 'u',
        spec_syno_auth_dir()[1] == 'u',
        spec_unit_file()[1] == 'e',
        spec_host_info_dir() != spec_host_info_path(),
        spec_host_info_dir() != spec_host_auth_dir(),
        spec_host_info_dir() != spec_host_auth_path(),
        spec_host_info_path() != spec_host_auth_dir(),
        spec_host_info_path() != spec_host_auth_path(),
        spec_host_auth_dir() != spec_host_auth_path(),
        spec_syno_info_path() != spec_syno_auth_path(),
        spec_syno_info_path() != spec_syno_auth_dir(),
        spec_syno_auth_path() != spec_syno_auth_dir(),
        spec_host_info_dir()[1] == 'v',
        spec_host_info_path()[1] == 'v',
        spec_host_auth_dir()[1] == 'v',
        spec_host_auth_path()[1] == 'v',
        spec_syno_info_path() != spec_unit_file(),
        spec_syno_auth_path() != spec_unit_file(),
        spec_syno_auth_dir() != spec_unit_file(),
        spec_host_info_dir() != spec_pkgdest(),
        spec_host_info_path() != spec_pkgdest(),
        spec_host_auth_dir() != spec_pkgdest(),
        spec_host_auth_path() != spec_pkgdest(),
        spec_unit_file()[1] != spec_pkgdest()[1],
{
    reveal_strlit("/");
    reveal_strlit("/var/packages/pan-xunlei-com");
    reveal_strlit("/var/packages/pan-xunlei-com/target");
    reveal_strlit("/var/packages/pan-xunlei-com/target/host/etc");
    reveal_strlit("/var/packages/pan-xunlei-com/target/host/etc/synoinfo.conf");
    reveal_strlit("/var/packages/pan-xunlei-com/target/host/usr/syno/synoman/webman/modules");
    reveal_strlit(
        "/var/packages/pan-xunlei-com/target/host/usr/syno/synoman/webman/modules/authenticate.cgi",
    );
    reveal_strlit("/etc/synoinfo.conf");
    reveal_strlit("/usr/syno/synoman/webman/modules/authenticate.cgi");
    reveal_strlit("/usr/syno/synoman/webman/modules");
    reveal_strlit("/etc/systemd/system/xunlei.service");
    reveal_strlit("host/etc");
    reveal_strlit("host/etc/synoinfo.conf");
    reveal_strlit("host/usr/syno/synoman/webman/modules");
    reveal_strlit("host/usr/syno/synoman/webman/modules/authenticate.cgi");
    assert(spec_host_info_dir() =~= spec_join(spec_pkgdest(), "host/etc"@));
    assert(spec_host_info_path() =~= spec_join(spec_pkgdest(), "host/etc/synoinfo.conf"@));
    assert(spec_host_auth_dir() =~= spec_join(
        spec_pkgdest(),
        "host/usr/syno/synoman/webman/modules"@,
    ));
    assert(spec_host_auth_path() =~= spec_join(
        spec_pkgdest(),
        "host/usr/syno/synoman/webman/modules/authenticate.cgi"@,
    ));
    assert("host/etc"@[4] == '/');
    assert("host/etc/synoinfo.conf"@[4] == '/');
    assert("host/usr/syno/synoman/webman/modules"@[4] == '/');
    assert("host/usr/syno/synoman/webman/modules/authenticate.cgi"@[4] == '/');
}

/// A join under the target directory never lands on one of the fixed
/// system paths outside the package tree.
proof fn lemma_join_ne_fixed(n: Seq<char>)
    ensures
        spec_join(spec_pkgdest(), n) != spec_syno_info_path(),
        spec_join(spec_pkgdest(), n) != spec_syno_auth_path(),
        spec_join(spec_pkgdest(), n) != spec_syno_auth_dir(),
        spec_join(spec_pkgdest(), n) != spec_unit_file(),
        spec_join(spec_pkgdest(), n) != spec_pkgbase(),
        spec_join(spec_pkgdest(), n) != spec_pkgdest(),
{
    lemma_path_facts();
    reveal_strlit("/");
    assert(spec_join(spec_pkgdest(), n).len() >= 36);
    assert(spec_join(spec_pkgdest(), n)[1] == spec_pkgdest()[1]);
}

/// A join of a separator-free name under the target directory never lands
/// on one of the generated locations inside the staged `host` subtree.
proof fn lemma_join_noslash_ne_host(n: Seq<char>)
    requires
        no_slash(n),
    ensures
        spec_join(spec_pkgdest(), n) != spec_host_info_dir(),
        spec_join(spec_pkgdest(), n) != spec_host_info_path(),
        spec_join(spec_pkgdest(), n) != spec_host_auth_dir(),
        spec_join(spec_pkgdest(), n) != spec_host_auth_path(),
{
    lemma_path_facts();
    if spec_join(spec_pkgdest(), n) == spec_host_info_dir() {
        lemma_join_injective(spec_pkgdest(), n, "host/etc"@);
    }
    if spec_join(spec_pkgdest(), n) == spec_host_info_path() {
        lemma_join_injective(spec_pkgdest(), n, "host/etc/synoinfo.conf"@);
    }
    if spec_join(spec_pkgdest(), n) == spec_host_auth_dir() {
        lemma_join_injective(spec_pkgdest(), n, "host/usr/syno/synoman/webman/modules"@);
    }
    if spec_join(spec_pkgdest(), n) == spec_host_auth_path() {
        lemma_join_injective(
            spec_pkgdest(),
            n,
            "host/usr/syno/synoman/webman/modules/authenticate.cgi"@,
        );
    }
}

/// Whether the configured directories stand clear of every file and link
/// the install plan places.
pub open spec fn no_collisions(s: &XunleiInstall, assets: Seq<(Seq<char>, Seq<u8>)>) -> bool {
    &&& s.download_path@ != spec_host_info_path()
    &&& s.download_path@ != spec_host_auth_path()
    &&& s.download_path@ != spec_syno_info_path()
    &&& s.download_path@ != spec_syno_auth_path()
    &&& s.download_path@ != spec_unit_file()
    &&& s.config_path@ != spec_host_info_path()
    &&& s.config_path@ != spec_host_auth_path()
    &&& s.config_path@ != spec_syno_info_path()
    &&& s.config_path@ != spec_syno_auth_path()
    &&& s.config_path@ != spec_unit_file()
    &&& forall|i: int|
        0 <= i < assets.len() ==> spec_join(spec_pkgdest(), (#[trigger] assets[i]).0)
            != s.download_path@ && spec_join(spec_pkgdest(), assets[i].0) != s.config_path@
}

/// When success is owed: installing succeeds whenever every directory it
/// touches is, if present at all, a directory, and the configured
/// directories do not collide with the files it places.  Those
/// directories are still directories afterwards.
pub proof fn lemma_install_applies(
    s: &XunleiInstall,
    assets: Seq<(Seq<char>, Seq<u8>)>,
    tok: Seq<char>,
    supported: bool,
    launch: Seq<char>,
    fs: Fs,
)
    requires
        entries_wf(assets),
        no_collisions(s, assets),
        dir_ok(fs, s.download_path@),
        dir_ok(fs, s.config_path@),
        dir_ok(fs, spec_pkgdest()),
        dir_ok(fs, spec_host_info_dir()),
        dir_ok(fs, spec_host_auth_dir()),
        dir_ok(fs, spec_syno_auth_dir()),
    ensures
        apply_all(fs, spec_run_plan(s, assets, tok, supported, launch)) is Some,
{
    let p = spec_run_plan(s, assets, tok, supported, launch);
    let n = assets.len() as int;
    let ds = set![
        s.download_path@,
        s.config_path@,
        spec_pkgdest(),
        spec_host_info_dir(),
        spec_host_auth_dir(),
        spec_syno_auth_dir(),
    ];
    lemma_path_facts();
    assert(dirs_ok(fs, ds));
    assert forall|i: int| 0 <= i < p.len() implies action_dir_safe(#[trigger] p[i], ds) by {
        assert(p.len() == 11 + n + (if supported { 4int } else { 0int }));
        if 3 <= i < 3 + n {
            assert(p[i] == spec_asset_writes(assets)[i - 3]);
            lemma_join_ne_fixed(assets[i - 3].0);
            lemma_join_noslash_ne_host(assets[i - 3].0);
        } else if i >= 11 + n {
            assert(p[i] == spec_systemd_actions(s, supported, launch)[i - 11 - n]);
        }
    }
    lemma_apply_all_dir_safe(fs, p, ds);
}

/// When the service-control facility is absent, installing adds no unit
/// file: if none stood there before, none stands there after.
pub proof fn lemma_unsupported_install_adds_no_unit(
    s: &XunleiInstall,
    assets: Seq<(Seq<char>, Seq<u8>)>,
    tok: Seq<char>,
    launch: Seq<char>,
    fs: Fs,
)
    requires
        s.download_path@ != spec_unit_file(),
        s.config_path@ != spec_unit_file(),
        !fs.dom().contains(spec_unit_file()),
        apply_all(fs, spec_run_plan(s, assets, tok, false, launch)) is Some,
    ensures
        !apply_all(fs, spec_run_plan(s, assets, tok, false, launch))->Some_0.dom().contains(
            spec_unit_file(),
        ),
{
    let p = spec_run_plan(s, assets, tok, false, launch);
    let k = spec_unit_file();
    let n = assets.len() as int;
    lemma_path_facts();
    assert forall|i: int| 0 <= i < p.len() implies !may_add(#[trigger] p[i], k) by {
        assert(p.len() == 11 + n);
        if 3 <= i < 3 + n {
            assert(p[i] == spec_asset_writes(assets)[i - 3]);
            lemma_join_ne_fixed(assets[i - 3].0);
        }
    }
    lemma_apply_all_preserves_absent(fs, p, k);
}

/// Identity spoofing succeeds whenever the three directories it touches
/// are not occupied by something other than a directory, regenerates the
/// two staged files, and creates each well-known symlink only where the
/// system path was absent — an existing occupant is never overwritten.
pub proof fn lemma_spoof_applies(fs: Fs, tok: Seq<char>)
    requires
        dir_ok(fs, spec_host_info_dir()),
        dir_ok(fs, spec_host_auth_dir()),
        dir_ok(fs, spec_syno_auth_dir()),
    ensures
        apply_all(fs, spec_spoof_actions(tok)) is Some,
        ({
            let fs1 = apply_all(fs, spec_spoof_actions(tok))->Some_0;
            &&& fs1.dom().contains(spec_host_info_path())
            &&& fs1[spec_host_info_path()] == (Node::File {
                data: ContentModel::Text(spec_identity_content(tok)),
                mode: 0o644u32,
            })
            &&& fs1.dom().contains(spec_host_auth_path())
            &&& fs1[spec_host_auth_path()] == (Node::File {
                data: ContentModel::Text(spec_auth_script()),
                mode: 0o755u32,
            })
            &&& fs1.dom().contains(spec_syno_info_path())
            &&& fs1.dom().contains(spec_syno_auth_path())
            &&& (!fs.dom().contains(spec_syno_info_path()) ==> fs1[spec_syno_info_path()]
                == (Node::Link { target: spec_host_info_path() }))
            &&& (fs.dom().contains(spec_syno_info_path()) ==> fs1[spec_syno_info_path()]
                == fs[spec_syno_info_path()])
            &&& (!fs.dom().contains(spec_syno_auth_path()) ==> fs1[spec_syno_auth_path()]
                == (Node::Link { target: spec_host_auth_path() }))
            &&& (fs.dom().contains(spec_syno_auth_path()) ==> fs1[spec_syno_auth_path()]
                == fs[spec_syno_auth_path()])
            &&& dir_ok(fs1, spec_host_info_dir())
            &&& dir_ok(fs1, spec_host_auth_dir())
            &&& dir_ok(fs1, spec_syno_auth_dir())
        }),
{
    lemma_path_facts();
    let a = spec_spoof_actions(tok);
    let f0 = apply1(fs, a[0])->Some_0;
    let f1 = apply1(f0, a[1])->Some_0;
    let f2 = apply1(f1, a[2])->Some_0;
    let f3 = apply1(f2, a[3])->Some_0;
    let f4 = apply1(f3, a[4])->Some_0;
    let f5 = apply1(f4, a[5])->Some_0;
    assert(apply1(fs, a[0]) is Some);
    assert(apply1(f0, a[1]) is Some);
    assert(apply1(f1, a[2]) is Some);
    assert(apply1(f2, a[3]) is Some);
    assert(apply1(f3, a[4]) is Some);
    assert(apply1(f4, a[5]) is Some);
    assert(a.drop_first() =~= a.subrange(1, 6));
    assert(a.subrange(1, 6).drop_first() =~= a.subrange(2, 6));
    assert(a.subrange(2, 6).drop_first() =~= a.subrange(3, 6));
    assert(a.subrange(3, 6).drop_first() =~= a.subrange(4, 6));
    assert(a.subrange(4, 6).drop_first() =~= a.subrange(5, 6));
    assert(a.subrange(5, 6).drop_first() =~= Seq::<ActionModel>::empty());
    assert(a.subrange(1, 6)[0] == a[1]);
    assert(a.subrange(2, 6)[0] == a[2]);
    assert(a.subrange(3, 6)[0] == a[3]);
    assert(a.subrange(4, 6)[0] == a[4]);
    assert(a.subrange(5, 6)[0] == a[5]);
    assert(apply_all(f5, Seq::<ActionModel>::empty()) == Some(f5));
    assert(apply_all(f4, a.subrange(5, 6)) == Some(f5));
    assert(apply_all(f3, a.subrange(4, 6)) == Some(f5));
    assert(apply_all(f2, a.subrange(3, 6)) == Some(f5));
    assert(apply_all(f1, a.subrange(2, 6)) == Some(f5));
    assert(apply_all(f0, a.subrange(1, 6)) == Some(f5));
    assert(apply_all(fs, a) == Some(f5));
}

/// Whether the entries carry mutually distinct, separator-free names.
pub open spec fn entries_wf(assets: Seq<(Seq<char>, Seq<u8>)>) -> bool {
    &&& forall|p: int, q: int|
        0 <= p < q < assets.len() ==> (#[trigger] assets[p]).0 != (#[trigger] assets[q]).0
    &&& forall|p: int| 0 <= p < assets.len() ==> no_slash((#[trigger] assets[p]).0)
}

/// After the staging writes, the entry at `i` stands under the target
/// directory with exactly its bytes and the executable mode.
proof fn lemma_writes_effect(fs: Fs, assets: Seq<(Seq<char>, Seq<u8>)>, i: int)
    requires
        0 <= i < assets.len(),
        forall|p: int, q: int|
            0 <= p < q < assets.len() ==> (#[trigger] assets[p]).0 != (#[trigger] assets[q]).0,
    ensures
        apply_all(fs, spec_asset_writes(assets)) is Some,
        ({
            let fsw = apply_all(fs, spec_asset_writes(assets))->Some_0;
            &&& fsw.dom().contains(spec_join(spec_pkgdest(), assets[i].0))
            &&& fsw[spec_join(spec_pkgdest(), assets[i].0)] == (Node::File {
                data: ContentModel::Bytes(assets[i].1),
                mode: 0o755u32,
            })
        }),
    decreases assets.len(),
{
    let w = spec_asset_writes(assets);
    let ds = Set::<Seq<char>>::empty();
    assert(plan_dir_safe(w, ds));
    lemma_apply_all_dir_safe(fs, w, ds);
    let pre = assets.drop_last();
    let last = assets.last();
    assert(spec_asset_writes(pre) + seq![
        ActionModel::WriteFile {
            path: spec_join(spec_pkgdest(), last.0),
            data: ContentModel::Bytes(last.1),
            mode: 0o755u32,
        },
    ] =~= w);
    lemma_apply_all_concat(
        fs,
        spec_asset_writes(pre),
        seq![
            ActionModel::WriteFile {
                path: spec_join(spec_pkgdest(), last.0),
                data: ContentModel::Bytes(last.1),
                mode: 0o755u32,
            },
        ],
    );
    assert(plan_dir_safe(spec_asset_writes(pre), ds));
    lemma_apply_all_dir_safe(fs, spec_asset_writes(pre), ds);
    let fsp = apply_all(fs, spec_asset_writes(pre))->Some_0;
    let lw = ActionModel::WriteFile {
        path: spec_join(spec_pkgdest(), last.0),
        data: ContentModel::Bytes(last.1),
        mode: 0o755u32,
    };
    assert(seq![lw].drop_first() =~= Seq::<ActionModel>::empty());
    let fsl = fsp.insert(
        spec_join(spec_pkgdest(), last.0),
        Node::File { data: ContentModel::Bytes(last.1), mode: 0o755u32 },
    );
    assert(seq![lw][0] == lw);
    assert(apply1(fsp, lw) == Some(fsl));
    assert(apply_all(fsl, Seq::<ActionModel>::empty()) == Some(fsl));
    assert(apply_all(fsp, seq![lw]) == Some(fsl));
    if i == assets.len() - 1 {
    } else {
        lemma_writes_effect(fs, pre, i);
        assert(pre[i] == assets[i]);
        if spec_join(spec_pkgdest(), assets[i].0) == spec_join(spec_pkgdest(), last.0) {
            lemma_join_injective(spec_pkgdest(), assets[i].0, last.0);
        }
    }
}

/// What staging owes: after a successful install, every asset entry
/// stands in the target directory with exactly its byte content and the
/// executable permission bits, whatever else the plan did around it.
pub proof fn lemma_install_stages_assets(
    s: &XunleiInstall,
    assets: Seq<(Seq<char>, Seq<u8>)>,
    tok: Seq<char>,
    supported: bool,
    launch: Seq<char>,
    fs: Fs,
    i: int,
)
    requires
        0 <= i < assets.len(),
        entries_wf(assets),
        apply_all(fs, spec_run_plan(s, assets, tok, supported, launch)) is Some,
    ensures
        ({
            let fs1 = apply_all(fs, spec_run_plan(s, assets, tok, supported, launch))->Some_0;
            &&& fs1.dom().contains(spec_join(spec_pkgdest(), assets[i].0))
            &&& fs1[spec_join(spec_pkgdest(), assets[i].0)] == (Node::File {
                data: ContentModel::Bytes(assets[i].1),
                mode: 0o755u32,
            })
        }),
{
    let p = spec_run_plan(s, assets, tok, supported, launch);
    let k = spec_join(spec_pkgdest(), assets[i].0);
    let pre = spec_config_actions(s) + seq![
        ActionModel::EnsureDirAll { path: spec_pkgdest(), mode: Some(0o755u32) },
    ];
    let w = spec_asset_writes(assets);
    let post = seq![
        ActionModel::SetOwnership { path: spec_pkgbase(), uid: s.uid, gid: s.gid },
        ActionModel::SetOwnership { path: spec_pkgdest(), uid: s.uid, gid: s.gid },
    ] + spec_spoof_actions(tok) + spec_systemd_actions(s, supported, launch);
    assert(p =~= pre + w + post);
    lemma_apply_all_concat(fs, pre + w, post);
    lemma_apply_all_concat(fs, pre, w);
    let fsp = apply_all(fs, pre)->Some_0;
    lemma_writes_effect(fsp, assets, i);
    let fsw = apply_all(fsp, w)->Some_0;
    lemma_path_facts();
    lemma_join_ne_fixed(assets[i].0);
    lemma_join_noslash_ne_host(assets[i].0);
    assert forall|j: int| 0 <= j < post.len() implies !may_add(#[trigger] post[j], k)
        && !may_remove(post[j], k) by {
        if j >= 2 + 6 {
            assert(post[j] == spec_systemd_actions(s, supported, launch)[j - 8]);
        }
    }
    lemma_apply_all_preserves_value(fsw, post, k);
}

/// Running identity spoofing twice in a row succeeds both times; the
/// second run rewrites the staged files with its own token but leaves
/// both well-known symlinks exactly as the first run left them.
pub proof fn lemma_spoof_rerun_keeps_links(fs: Fs, t1: Seq<char>, t2: Seq<char>)
    requires
        dir_ok(fs, spec_host_info_dir()),
        dir_ok(fs, spec_host_auth_dir()),
        dir_ok(fs, spec_syno_auth_dir()),
    ensures
        apply_all(fs, spec_spoof_actions(t1)) is Some,
        ({
            let fs1 = apply_all(fs, spec_spoof_actions(t1))->Some_0;
            &&& apply_all(fs1, spec_spoof_actions(t2)) is Some
            &&& ({
                let fs2 = apply_all(fs1, spec_spoof_actions(t2))->Some_0;
                &&& fs2[spec_syno_info_path()] == fs1[spec_syno_info_path()]
                &&& fs2[spec_syno_auth_path()] == fs1[spec_syno_auth_path()]
                &&& fs2[spec_host_info_path()] == (Node::File {
                    data: ContentModel::Text(spec_identity_content(t2)),
                    mode: 0o644u32,
                })
            })
        }),
{
    lemma_spoof_applies(fs, t1);
    let fs1 = apply_all(fs, spec_spoof_actions(t1))->Some_0;
    lemma_spoof_applies(fs1, t2);
}

} // verus!
