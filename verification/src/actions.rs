//! The actions an install or uninstall performs, and their meaning on an
//! abstract filesystem.
//!
//! A plan is a sequence of [`Action`] values.  The library computes plans;
//! a runner outside the library executes them against the real system.  The
//! abstract meaning of each action is given by [`apply1`] over a flat model
//! of the filesystem: a map from path to what the path holds.  The model
//! tracks path occupancy, content and permission bits; it does not resolve
//! symlinks, track directory emptiness, or track ownership (the caller is
//! assumed to hold the needed privilege throughout).

use vstd::prelude::*;

use crate::text::is_prefix;

verus! {

/// What a written file holds: raw bytes (a staged asset) or generated
/// text (the identity file, the authentication stub, the service unit).
pub enum FileContent {
    Bytes(Vec<u8>),
    Text(String),
}

/// The mathematical shape of a [`FileContent`].
pub enum ContentModel {
    Bytes(Seq<u8>),
    Text(Seq<char>),
}

impl View for FileContent {
    type V = ContentModel;

    open spec fn view(&self) -> ContentModel {
        match self {
            FileContent::Bytes(b) => ContentModel::Bytes(b@),
            FileContent::Text(t) => ContentModel::Text(t@),
        }
    }
}

/// One concrete step of a plan.
#[allow(inconsistent_fields)]
pub enum Action {
    /// Create the directory and any missing ancestors; no-op if the path is
    /// already a directory; an error if it holds something else.  `mode` is
    /// the permission bits for created directories; `None` leaves them to
    /// the process default.
    EnsureDirAll { path: String, mode: Option<u32> },
    /// Create or overwrite a file with exactly this content and these
    /// permission bits.
    WriteFile { path: String, data: FileContent, mode: u32 },
    /// Recursively set ownership of a tree.
    SetOwnership { path: String, uid: u32, gid: u32 },
    /// If nothing exists at `link`: first ensure `parent` exists as a
    /// directory (when given), then create a symbolic link at `link`
    /// pointing to `target`.  If anything already exists at `link`: leave
    /// it untouched and succeed.
    SymlinkIfAbsent { link: String, target: String, parent: Option<String> },
    /// Remove the file if it exists; absence is success.
    RemoveFileIfPresent { path: String },
    /// Remove the directory if it exists; absence is success.
    RemoveDirIfPresent { path: String },
    /// Remove the directory tree if it exists; absence is success.
    RemoveTreeIfPresent { path: String },
    /// Invoke the service-control facility with these arguments.
    /// Best-effort: a failure is logged and never aborts the plan.
    Systemctl { args: Vec<String> },
}

/// The mathematical shape of an [`Action`].
#[allow(inconsistent_fields)]
pub enum ActionModel {
    EnsureDirAll { path: Seq<char>, mode: Option<u32> },
    WriteFile { path: Seq<char>, data: ContentModel, mode: u32 },
    SetOwnership { path: Seq<char>, uid: u32, gid: u32 },
    SymlinkIfAbsent { link: Seq<char>, target: Seq<char>, parent: Option<Seq<char>> },
    RemoveFileIfPresent { path: Seq<char> },
    RemoveDirIfPresent { path: Seq<char> },
    RemoveTreeIfPresent { path: Seq<char> },
    Systemctl { args: Seq<Seq<char>> },
}

impl View for Action {
    type V = ActionModel;

    open spec fn view(&self) -> ActionModel {
        match self {
            Action::EnsureDirAll { path, mode } => ActionModel::EnsureDirAll {
                path: path@,
                mode: *mode,
            },
            Action::WriteFile { path, data, mode } => ActionModel::WriteFile {
                path: path@,
                data: data@,
                mode: *mode,
            },
            Action::SetOwnership { path, uid, gid } => ActionModel::SetOwnership {
                path: path@,
                uid: *uid,
                gid: *gid,
            },
            Action::SymlinkIfAbsent { link, target, parent } => ActionModel::SymlinkIfAbsent {
                link: link@,
                target: target@,
                parent: match parent {
                    Some(p) => Some(p@),
                    None => None,
                },
            },
            Action::RemoveFileIfPresent { path } => ActionModel::RemoveFileIfPresent {
                path: path@,
            },
            Action::RemoveDirIfPresent { path } => ActionModel::RemoveDirIfPresent { path: path@ },
            Action::RemoveTreeIfPresent { path } => ActionModel::RemoveTreeIfPresent {
                path: path@,
            },
            Action::Systemctl { args } => ActionModel::Systemctl { args: args.deep_view() },
        }
    }
}

impl DeepView for Action {
    type V = ActionModel;

    open spec fn deep_view(&self) -> ActionModel {
        self.view()
    }
}

/// What a path holds in the abstract filesystem.
#[allow(inconsistent_fields)]
pub enum Node {
    Dir { mode: Option<u32> },
    File { data: ContentModel, mode: u32 },
    Link { target: Seq<char> },
}

/// The abstract filesystem: a flat map from path to what it holds.
pub type Fs = Map<Seq<char>, Node>;

/// Whether removing the tree rooted at `root` removes the path `k`.
pub open spec fn covers(root: Seq<char>, k: Seq<char>) -> bool {
    k == root || is_prefix(root + "/"@, k)
}

/// The meaning of directory creation: no-op on an existing directory, an
/// error on any other occupant, otherwise the path becomes a directory.
pub open spec fn ensure_dir(fs: Fs, path: Seq<char>, mode: Option<u32>) -> Option<Fs> {
    if fs.dom().contains(path) {
        match fs[path] {
            Node::Dir { .. } => Some(fs),
            _ => None,
        }
    } else {
        Some(fs.insert(path, Node::Dir { mode }))
    }
}

/// The meaning of one action on the abstract filesystem.  `None` is the
/// action failing (the only model-level failure is a non-directory standing
/// where a directory must be); service-control actions and ownership
/// changes leave the map unchanged.
pub open spec fn apply1(fs: Fs, a: ActionModel) -> Option<Fs> {
    match a {
        ActionModel::EnsureDirAll { path, mode } => ensure_dir(fs, path, mode),
        ActionModel::WriteFile { path, data, mode } => Some(
            fs.insert(path, Node::File { data, mode }),
        ),
        ActionModel::SetOwnership { .. } => Some(fs),
        ActionModel::SymlinkIfAbsent { link, target, parent } => {
            if fs.dom().contains(link) {
                Some(fs)
            } else {
                match parent {
                    None => Some(fs.insert(link, Node::Link { target })),
                    Some(p) => match ensure_dir(fs, p, Some(0o755)) {
                        None => None,
                        Some(fs1) => Some(fs1.insert(link, Node::Link { target })),
                    },
                }
            }
        },
        ActionModel::RemoveFileIfPresent { path } => Some(fs.remove(path)),
        ActionModel::RemoveDirIfPresent { path } => Some(fs.remove(path)),
        ActionModel::RemoveTreeIfPresent { path } => Some(
            fs.remove_keys(Set::new(|k: Seq<char>| covers(path, k))),
        ),
        ActionModel::Systemctl { .. } => Some(fs),
    }
}

/// Applies a whole plan, stopping at the first failing action.
pub open spec fn apply_all(fs: Fs, p: Seq<ActionModel>) -> Option<Fs>
    decreases p.len(),
{
    if p.len() == 0 {
        Some(fs)
    } else {
        match apply1(fs, p[0]) {
            None => None,
            Some(fs1) => apply_all(fs1, p.drop_first()),
        }
    }
}

/// Splitting a plan splits its application.
pub proof fn lemma_apply_all_concat(fs: Fs, p1: Seq<ActionModel>, p2: Seq<ActionModel>)
    ensures
        apply_all(fs, p1 + p2) == match apply_all(fs, p1) {
            None => None::<Fs>,
            Some(fs1) => apply_all(fs1, p2),
        },
    decreases p1.len(),
{
    if p1.len() == 0 {
        assert(p1 + p2 =~= p2);
    } else {
        assert((p1 + p2)[0] == p1[0]);
        match apply1(fs, p1[0]) {
            None => {},
            Some(fs1) => {
                assert((p1 + p2).drop_first() =~= p1.drop_first() + p2);
                lemma_apply_all_concat(fs1, p1.drop_first(), p2);
            },
        }
    }
}

/// Whether the action can bring the path `k` into existence.
pub open spec fn may_add(a: ActionModel, k: Seq<char>) -> bool {
    match a {
        ActionModel::EnsureDirAll { path, .. } => path == k,
        ActionModel::WriteFile { path, .. } => path == k,
        ActionModel::SetOwnership { .. } => false,
        ActionModel::SymlinkIfAbsent { link, parent, .. } => link == k || parent == Some(k),
        ActionModel::RemoveFileIfPresent { .. } => false,
        ActionModel::RemoveDirIfPresent { .. } => false,
        ActionModel::RemoveTreeIfPresent { .. } => false,
        ActionModel::Systemctl { .. } => false,
    }
}

/// Whether the action can remove or replace what the path `k` holds.
pub open spec fn may_remove(a: ActionModel, k: Seq<char>) -> bool {
    match a {
        ActionModel::RemoveFileIfPresent { path } => path == k,
        ActionModel::RemoveDirIfPresent { path } => path == k,
        ActionModel::RemoveTreeIfPresent { path } => covers(path, k),
        _ => false,
    }
}

/// An action that can neither add nor remove a path leaves what the path
/// holds unchanged.
pub proof fn lemma_apply1_preserves_value(fs: Fs, a: ActionModel, k: Seq<char>)
    requires
        !may_add(a, k),
        !may_remove(a, k),
        apply1(fs, a) is Some,
    ensures
        apply1(fs, a)->Some_0.dom().contains(k) == fs.dom().contains(k),
        fs.dom().contains(k) ==> apply1(fs, a)->Some_0[k] == fs[k],
{
}

/// A plan none of whose actions can add or remove a path leaves what the
/// path holds unchanged.
pub proof fn lemma_apply_all_preserves_value(fs: Fs, p: Seq<ActionModel>, k: Seq<char>)
    requires
        forall|i: int| 0 <= i < p.len() ==> !may_add(#[trigger] p[i], k) && !may_remove(p[i], k),
        apply_all(fs, p) is Some,
    ensures
        apply_all(fs, p)->Some_0.dom().contains(k) == fs.dom().contains(k),
        fs.dom().contains(k) ==> apply_all(fs, p)->Some_0[k] == fs[k],
    decreases p.len(),
{
    if p.len() > 0 {
        let fs1 = apply1(fs, p[0])->Some_0;
        lemma_apply1_preserves_value(fs, p[0], k);
        assert(forall|i: int|
            0 <= i < p.drop_first().len() ==> !may_add(#[trigger] p.drop_first()[i], k)
                && !may_remove(p.drop_first()[i], k));
        lemma_apply_all_preserves_value(fs1, p.drop_first(), k);
    }
}

/// An action that cannot add a path keeps it absent.
pub proof fn lemma_apply1_preserves_absent(fs: Fs, a: ActionModel, k: Seq<char>)
    requires
        !fs.dom().contains(k),
        !may_add(a, k),
        apply1(fs, a) is Some,
    ensures
        !apply1(fs, a)->Some_0.dom().contains(k),
{
}

/// A plan none of whose actions can add a path keeps it absent.
pub proof fn lemma_apply_all_preserves_absent(fs: Fs, p: Seq<ActionModel>, k: Seq<char>)
    requires
        !fs.dom().contains(k),
        forall|i: int| 0 <= i < p.len() ==> !may_add(#[trigger] p[i], k),
        apply_all(fs, p) is Some,
    ensures
        !apply_all(fs, p)->Some_0.dom().contains(k),
    decreases p.len(),
{
    if p.len() > 0 {
        let fs1 = apply1(fs, p[0])->Some_0;
        lemma_apply1_preserves_absent(fs, p[0], k);
        assert(forall|i: int|
            0 <= i < p.drop_first().len() ==> !may_add(#[trigger] p.drop_first()[i], k));
        lemma_apply_all_preserves_absent(fs1, p.drop_first(), k);
    }
}

} // verus!
