//! An executable model filesystem: applies plans with exactly the
//! abstract semantics of [`apply1`], so the behaviour of install and
//! uninstall can be exercised without touching a real system.

use vstd::prelude::*;

use crate::actions::{apply1, apply_all, covers, Action, ActionModel, FileContent, Fs, Node};
use crate::errors::XunleiError;
use crate::text::{starts_with, str_eq};

verus! {

/// What a simulated path holds.
pub enum SimNode {
    Dir { mode: Option<u32> },
    File { data: FileContent, mode: u32 },
    Link { target: String },
}

impl View for SimNode {
    type V = Node;

    open spec fn view(&self) -> Node {
        match self {
            SimNode::Dir { mode } => Node::Dir { mode: *mode },
            SimNode::File { data, mode } => Node::File { data: data@, mode: *mode },
            SimNode::Link { target } => Node::Link { target: target@ },
        }
    }
}

/// The views of a listing of entries.
pub open spec fn es(s: Seq<(String, SimNode)>) -> Seq<(Seq<char>, Node)> {
    s.map_values(|e: (String, SimNode)| (e.0@, e.1@))
}

/// The map a listing of entries denotes; a later entry wins.
pub open spec fn as_map(s: Seq<(Seq<char>, Node)>) -> Fs
    decreases s.len(),
{
    if s.len() == 0 {
        Map::empty()
    } else {
        as_map(s.drop_last()).insert(s.last().0, s.last().1)
    }
}

/// A path is in the denoted map exactly when some entry carries it, and
/// the map holds the value of the last such entry.
proof fn lemma_as_map_find(s: Seq<(Seq<char>, Node)>, k: Seq<char>)
    ensures
        as_map(s).dom().contains(k) <==> exists|i: int|
            0 <= i < s.len() && (#[trigger] s[i]).0 == k,
        forall|i: int|
            0 <= i < s.len() && (#[trigger] s[i]).0 == k && (forall|j: int|
                i < j < s.len() ==> (#[trigger] s[j]).0 != k) ==> as_map(s)[k] == s[i].1,
    decreases s.len(),
{
    if s.len() > 0 {
        let dl = s.drop_last();
        lemma_as_map_find(dl, k);
        assert(forall|i: int| 0 <= i < dl.len() ==> (#[trigger] dl[i]) == s[i]);
        if exists|i: int| 0 <= i < s.len() && (#[trigger] s[i]).0 == k {
            let w = choose|i: int| 0 <= i < s.len() && (#[trigger] s[i]).0 == k;
            if w < s.len() - 1 {
                assert(dl[w].0 == k);
            }
            assert(as_map(s).dom().contains(k));
        }
        assert forall|i: int|
            0 <= i < s.len() && (#[trigger] s[i]).0 == k && (forall|j: int|
                i < j < s.len() ==> (#[trigger] s[j]).0 != k) implies as_map(s)[k]
            == s[i].1 by {
            if i == s.len() - 1 {
            } else {
                assert(s.last().0 != k);
                assert(dl[i].0 == k);
                assert(forall|j: int| i < j < dl.len() ==> (#[trigger] dl[j]).0 != k);
            }
        }
    }
}

/// The entries that remain when the path `k` is removed.
spec fn sieve_rm(s: Seq<(Seq<char>, Node)>, k: Seq<char>) -> Seq<(Seq<char>, Node)>
    decreases s.len(),
{
    if s.len() == 0 {
        Seq::empty()
    } else if s.last().0 == k {
        sieve_rm(s.drop_last(), k)
    } else {
        sieve_rm(s.drop_last(), k).push(s.last())
    }
}

proof fn lemma_sieve_rm(s: Seq<(Seq<char>, Node)>, k: Seq<char>)
    ensures
        as_map(sieve_rm(s, k)) == as_map(s).remove(k),
    decreases s.len(),
{
    if s.len() == 0 {
        assert(as_map(sieve_rm(s, k)) =~= as_map(s).remove(k));
    } else {
        let dl = s.drop_last();
        lemma_sieve_rm(dl, k);
        if s.last().0 == k {
            assert(as_map(s).remove(k) =~= as_map(dl).remove(k));
        } else {
            assert(sieve_rm(s, k).drop_last() =~= sieve_rm(dl, k));
            assert(sieve_rm(s, k).last() == s.last());
            assert(as_map(sieve_rm(s, k)) == as_map(sieve_rm(dl, k)).insert(
                s.last().0,
                s.last().1,
            ));
            assert(as_map(s).remove(k) =~= as_map(dl).remove(k).insert(s.last().0, s.last().1));
        }
    }
}

/// The entries that remain when the tree under `root` is removed.
spec fn sieve_tree(s: Seq<(Seq<char>, Node)>, root: Seq<char>) -> Seq<(Seq<char>, Node)>
    decreases s.len(),
{
    if s.len() == 0 {
        Seq::empty()
    } else if covers(root, s.last().0) {
        sieve_tree(s.drop_last(), root)
    } else {
        sieve_tree(s.drop_last(), root).push(s.last())
    }
}

proof fn lemma_sieve_tree(s: Seq<(Seq<char>, Node)>, root: Seq<char>)
    ensures
        as_map(sieve_tree(s, root)) == as_map(s).remove_keys(
            Set::new(|k: Seq<char>| covers(root, k)),
        ),
    decreases s.len(),
{
    let cov = Set::new(|k: Seq<char>| covers(root, k));
    if s.len() == 0 {
        assert(as_map(sieve_tree(s, root)) =~= as_map(s).remove_keys(cov));
    } else {
        let dl = s.drop_last();
        lemma_sieve_tree(dl, root);
        if covers(root, s.last().0) {
            assert(as_map(s).remove_keys(cov) =~= as_map(dl).remove_keys(cov));
        } else {
            assert(sieve_tree(s, root).drop_last() =~= sieve_tree(dl, root));
            assert(sieve_tree(s, root).last() == s.last());
            assert(as_map(sieve_tree(s, root)) == as_map(sieve_tree(dl, root)).insert(
                s.last().0,
                s.last().1,
            ));
            assert(as_map(s).remove_keys(cov) =~= as_map(dl).remove_keys(cov).insert(
                s.last().0,
                s.last().1,
            ));
        }
    }
}

/// The model filesystem.
pub struct FsSim {
    entries: Vec<(String, SimNode)>,
}

impl View for FsSim {
    type V = Fs;

    closed spec fn view(&self) -> Fs {
        as_map(es(self.entries@))
    }
}

impl FsSim {
    /// An empty filesystem.
    pub fn new() -> (r: Self)
        ensures
            r@ =~= Map::<Seq<char>, Node>::empty(),
    {
        FsSim { entries: Vec::new() }
    }

    /// The index of the entry that holds `path`: the last one carrying it.
    fn find(&self, path: &str) -> (r: Option<usize>)
        ensures
            match r {
                Some(i) => i < self.entries@.len() && self.entries@[i as int].0@ == path@
                    && self@.dom().contains(path@) && self@[path@] == self.entries@[i as int].1@,
                None => !self@.dom().contains(path@),
            },
    {
        proof {
            lemma_as_map_find(es(self.entries@), path@);
        }
        let n = self.entries.len();
        let mut i: usize = n;
        while i > 0
            invariant
                i <= n,
                n == self.entries@.len(),
                forall|j: int| i <= j < n ==> (#[trigger] self.entries@[j]).0@ != path@,
            decreases i,
        {
            i -= 1;
            if str_eq(self.entries[i].0.as_str(), path) {
                proof {
                    lemma_as_map_find(es(self.entries@), path@);
                    assert(es(self.entries@)[i as int].0 == path@);
                    assert(forall|j: int|
                        i < j < es(self.entries@).len() ==> (#[trigger] es(self.entries@)[j]).0
                            != path@);
                }
                return Some(i);
            }
        }
        proof {
            lemma_as_map_find(es(self.entries@), path@);
            if self@.dom().contains(path@) {
                let w = choose|j: int|
                    0 <= j < es(self.entries@).len() && (#[trigger] es(self.entries@)[j]).0
                        == path@;
                assert(self.entries@[w].0@ == path@);
            }
        }
        None
    }

    /// Whether anything stands at `path`.
    pub fn contains(&self, path: &str) -> (r: bool)
        ensures
            r == self@.dom().contains(path@),
    {
        self.find(path).is_some()
    }

    /// A reference to what stands at `path`.
    pub fn get(&self, path: &str) -> (r: Option<&SimNode>)
        ensures
            match r {
                Some(nd) => self@.dom().contains(path@) && self@[path@] == nd@,
                None => !self@.dom().contains(path@),
            },
    {
        match self.find(path) {
            Some(i) => Some(&self.entries[i].1),
            None => None,
        }
    }

    /// Puts `node` at `path`, replacing whatever stood there.
    pub fn put(&mut self, path: String, node: SimNode)
        ensures
            final(self)@ == old(self)@.insert(path@, node@),
    {
        self.entries.push((path, node));
        assert(es(self.entries@).drop_last() =~= es(old(self).entries@));
        assert(es(self.entries@).last() == (path@, node@));
    }

    /// Removes whatever stands at `path`; absence is fine.
    fn unset(&mut self, path: &str)
        ensures
            final(self)@ == old(self)@.remove(path@),
    {
        let n = self.entries.len();
        let mut kept: Vec<(String, SimNode)> = Vec::new();
        let mut i: usize = 0;
        while i < n
            invariant
                i <= n,
                n == self.entries@.len(),
                self.entries@ == old(self).entries@,
                es(kept@) == sieve_rm(es(self.entries@.take(i as int)), path@),
            decreases n - i,
        {
            if !str_eq(self.entries[i].0.as_str(), path) {
                let e = clone_entry(&self.entries[i]);
                kept.push(e);
                assert(es(kept@).drop_last() =~= sieve_rm(
                    es(self.entries@.take(i as int)),
                    path@,
                ));
                assert(es(kept@).last() == (
                    self.entries@[i as int].0@,
                    self.entries@[i as int].1@,
                ));
            }
            proof {
                let t1 = es(self.entries@.take(i + 1 as int));
                assert(t1.drop_last() =~= es(self.entries@.take(i as int)));
                assert(t1.last() == (self.entries@[i as int].0@, self.entries@[i as int].1@));
                if self.entries@[i as int].0@ != path@ {
                    assert(es(kept@) =~= sieve_rm(t1, path@));
                } else {
                    assert(es(kept@) =~= sieve_rm(t1, path@));
                }
            }
            i += 1;
        }
        proof {
            assert(es(self.entries@.take(n as int)) =~= es(self.entries@));
            assert(sieve_rm(es(self.entries@.take(n as int)), path@) == sieve_rm(
                es(self.entries@),
                path@,
            ));
            lemma_sieve_rm(es(self.entries@), path@);
        }
        self.entries = kept;
    }

    /// Removes the whole tree under `root`; absence is fine.
    fn unset_tree(&mut self, root: &str)
        ensures
            final(self)@ == old(self)@.remove_keys(Set::new(|k: Seq<char>| covers(root@, k))),
    {
        let mut prefix = String::from_str(root);
        prefix.append("/");
        let n = self.entries.len();
        let mut kept: Vec<(String, SimNode)> = Vec::new();
        let mut i: usize = 0;
        while i < n
            invariant
                i <= n,
                n == self.entries@.len(),
                self.entries@ == old(self).entries@,
                prefix@ == root@ + "/"@,
                es(kept@) == sieve_tree(es(self.entries@.take(i as int)), root@),
            decreases n - i,
        {
            let drop = str_eq(self.entries[i].0.as_str(), root) || starts_with(
                self.entries[i].0.as_str(),
                prefix.as_str(),
            );
            assert(drop == covers(root@, self.entries@[i as int].0@));
            if !drop {
                let e = clone_entry(&self.entries[i]);
                kept.push(e);
            }
            proof {
                let t1 = es(self.entries@.take(i + 1 as int));
                assert(t1.drop_last() =~= es(self.entries@.take(i as int)));
                assert(t1.last() == (self.entries@[i as int].0@, self.entries@[i as int].1@));
                assert(es(kept@) =~= sieve_tree(t1, root@));
            }
            i += 1;
        }
        proof {
            assert(es(self.entries@.take(n as int)) =~= es(self.entries@));
            assert(sieve_tree(es(self.entries@.take(n as int)), root@) == sieve_tree(
                es(self.entries@),
                root@,
            ));
            lemma_sieve_tree(es(self.entries@), root@);
        }
        self.entries = kept;
    }

    /// Applies one action, with exactly the abstract semantics: the only
    /// failure is a non-directory standing where a directory must be.
    pub fn apply(&mut self, a: &Action) -> (r: Result<(), XunleiError>)
        ensures
            match r {
                Ok(()) => apply1(old(self)@, a@) == Some(final(self)@),
                Err(e) => apply1(old(self)@, a@) is None && e == XunleiError::NotADirectory
                    && final(self)@ == old(self)@,
            },
    {
        match a {
            Action::EnsureDirAll { path, mode } => {
                match self.get(path.as_str()) {
                    Some(SimNode::Dir { .. }) => Ok(()),
                    Some(_) => Err(XunleiError::NotADirectory),
                    None => {
                        self.put(path.clone(), SimNode::Dir { mode: *mode });
                        Ok(())
                    },
                }
            },
            Action::WriteFile { path, data, mode } => {
                let d = clone_content(data);
                self.put(path.clone(), SimNode::File { data: d, mode: *mode });
                Ok(())
            },
            Action::SetOwnership { .. } => Ok(()),
            Action::SymlinkIfAbsent { link, target, parent } => {
                if self.contains(link.as_str()) {
                    return Ok(());
                }
                match parent {
                    Some(p) => {
                        match self.get(p.as_str()) {
                            Some(SimNode::Dir { .. }) => {},
                            Some(_) => {
                                return Err(XunleiError::NotADirectory);
                            },
                            None => {
                                self.put(p.clone(), SimNode::Dir { mode: Some(0o755u32) });
                            },
                        }
                    },
                    None => {},
                }
                self.put(link.clone(), SimNode::Link { target: target.clone() });
                Ok(())
            },
            Action::RemoveFileIfPresent { path } => {
                self.unset(path.as_str());
                Ok(())
            },
            Action::RemoveDirIfPresent { path } => {
                self.unset(path.as_str());
                Ok(())
            },
            Action::RemoveTreeIfPresent { path } => {
                self.unset_tree(path.as_str());
                Ok(())
            },
            Action::Systemctl { .. } => Ok(()),
        }
    }

    /// Applies a whole plan in order, stopping at the first failure.
    pub fn apply_plan(&mut self, plan: &Vec<Action>) -> (r: Result<(), XunleiError>)
        ensures
            match r {
                Ok(()) => apply_all(old(self)@, plan.deep_view()) == Some(final(self)@),
                Err(e) => apply_all(old(self)@, plan.deep_view()) is None && e
                    == XunleiError::NotADirectory,
            },
    {
        let n = plan.len();
        let mut i: usize = 0;
        while i < n
            invariant
                i <= n,
                n == plan@.len(),
                apply_all(old(self)@, plan.deep_view().take(i as int)) == Some(self@),
            decreases n - i,
        {
            let ghost pre = self@;
            let r = self.apply(&plan[i]);
            proof {
                let dv = plan.deep_view();
                assert(dv.take(i + 1 as int) =~= dv.take(i as int) + seq![dv[i as int]]);
                crate::actions::lemma_apply_all_concat(
                    old(self)@,
                    dv.take(i as int),
                    seq![dv[i as int]],
                );
                assert(seq![dv[i as int]].drop_first() =~= Seq::<ActionModel>::empty());
                assert(seq![dv[i as int]][0] == dv[i as int]);
                assert(dv[i as int] == plan@[i as int]@);
            }
            match r {
                Ok(()) => {
                    proof {
                        let dv = plan.deep_view();
                        assert(apply1(pre, dv[i as int]) == Some(self@));
                        assert(apply_all(self@, Seq::<ActionModel>::empty()) == Some(self@));
                        assert(apply_all(pre, seq![dv[i as int]]) == Some(self@));
                    }
                },
                Err(e) => {
                    proof {
                        let dv = plan.deep_view();
                        assert(apply_all(pre, seq![dv[i as int]]) is None);
                        assert(dv =~= dv.take(i as int) + dv.skip(i as int));
                        crate::actions::lemma_apply_all_concat(
                            old(self)@,
                            dv.take(i as int),
                            dv.skip(i as int),
                        );
                        assert(dv.skip(i as int)[0] == dv[i as int]);
                        if apply_all(old(self)@, dv) is Some {
                            assert(apply_all(pre, dv.skip(i as int)) is Some);
                        }
                    }
                    return Err(e);
                },
            }
            i += 1;
        }
        proof {
            assert(plan.deep_view().take(n as int) =~= plan.deep_view());
        }
        Ok(())
    }
}

/// Copies a byte vector.
fn copy_vec(src: &Vec<u8>) -> (r: Vec<u8>)
    ensures
        r@ == src@,
{
    let mut r: Vec<u8> = Vec::new();
    let n = src.len();
    let mut i: usize = 0;
    while i < n
        invariant
            i <= n,
            n == src@.len(),
            r@ == src@.take(i as int),
        decreases n - i,
    {
        r.push(src[i]);
        assert(r@ =~= src@.take(i + 1 as int));
        i += 1;
    }
    assert(r@ =~= src@);
    r
}

/// Copies a file content value.
fn clone_content(data: &FileContent) -> (r: FileContent)
    ensures
        r@ == data@,
{
    match data {
        FileContent::Bytes(b) => FileContent::Bytes(copy_vec(b)),
        FileContent::Text(t) => FileContent::Text(t.clone()),
    }
}

/// Copies one simulator entry.
fn clone_entry(e: &(String, SimNode)) -> (r: (String, SimNode))
    ensures
        r.0@ == e.0@,
        r.1@ == e.1@,
{
    let name = e.0.clone();
    let nd = match &e.1 {
        SimNode::Dir { mode } => SimNode::Dir { mode: *mode },
        SimNode::File { data, mode } => SimNode::File { data: clone_content(data), mode: *mode },
        SimNode::Link { target } => SimNode::Link { target: target.clone() },
    };
    (name, nd)
}

} // verus!
