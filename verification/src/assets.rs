//! The asset store: an opaque, read-only container of named byte blobs.
//!
//! The install routine copies every entry of the store into the staged
//! target directory.  Whatever mechanism embeds the real archive, it hands
//! the library a store built from plain `(filename, bytes)` pairs.

use vstd::prelude::*;

use crate::errors::XunleiError;

verus! {

/// A read-only map from filename to byte content.
pub struct AssetStore {
    entries: Vec<(String, Vec<u8>)>,
}

impl View for AssetStore {
    type V = Seq<(Seq<char>, Seq<u8>)>;

    closed spec fn view(&self) -> Seq<(Seq<char>, Seq<u8>)> {
        self.entries@.map_values(|e: (String, Vec<u8>)| (e.0@, e.1@))
    }
}

/// Whether a filename is free of path separators: a store entry names a
/// plain file directly inside the target directory.
pub open spec fn no_slash(name: Seq<char>) -> bool {
    forall|i: int| 0 <= i < name.len() ==> name[i] != '/'
}

impl AssetStore {
    /// Filenames are mutually distinct and contain no path separator.
    pub open spec fn wf(&self) -> bool {
        &&& forall|i: int, j: int|
            0 <= i < j < self@.len() ==> (#[trigger] self@[i]).0 != (#[trigger] self@[j]).0
        &&& forall|i: int| 0 <= i < self@.len() ==> no_slash((#[trigger] self@[i]).0)
    }

    /// An empty store.
    pub fn new() -> (r: Self)
        ensures
            r@ =~= Seq::<(Seq<char>, Seq<u8>)>::empty(),
            r.wf(),
    {
        AssetStore { entries: Vec::new() }
    }

    /// Adds an entry.  Refuses a duplicate name and a name holding a path
    /// separator, so that a well-formed store stays well-formed.
    pub fn add(&mut self, name: String, data: Vec<u8>) -> (r: Result<(), XunleiError>)
        requires
            old(self).wf(),
        ensures
            final(self).wf(),
            r is Ok ==> final(self)@ =~= old(self)@ + seq![(name@, data@)],
            r is Err ==> final(self)@ == old(self)@,
    {
        if crate::text::contains_slash(name.as_str()) {
            return Err(XunleiError::IoError);
        }
        let n = self.entries.len();
        let mut i: usize = 0;
        while i < n
            invariant
                *self == *old(self),
                self.wf(),
                n == self.entries.len(),
                forall|j: int| 0 <= j < i ==> (#[trigger] self@[j]).0 != name@,
            decreases n - i,
        {
            if crate::text::str_eq(self.entries[i].0.as_str(), name.as_str()) {
                assert(self@[i as int].0 == name@);
                return Err(XunleiError::IoError);
            }
            assert(self@[i as int].0 != name@);
            i += 1;
        }
        self.entries.push((name, data));
        assert(self@ =~= old(self)@ + seq![(name@, data@)]);
        assert(forall|j: int| 0 <= j < old(self)@.len() ==> self@[j] == old(self)@[j]);
        Ok(())
    }

    /// How many entries the store holds.
    pub fn len(&self) -> (r: usize)
        ensures
            r == self@.len(),
    {
        self.entries.len()
    }

    /// The filename of the entry at `i`.
    pub fn name_at(&self, i: usize) -> (r: &String)
        requires
            i < self@.len(),
        ensures
            r@ == self@[i as int].0,
    {
        &self.entries[i].0
    }

    /// The byte content of the entry at `i`.
    pub fn data_at(&self, i: usize) -> (r: &Vec<u8>)
        requires
            i < self@.len(),
        ensures
            r@ == self@[i as int].1,
    {
        &self.entries[i].1
    }

    /// Looks a filename up.  Returns the bytes of the entry carrying it,
    /// or `NotFound` exactly when no entry does.
    pub fn get(&self, name: &str) -> (r: Result<&Vec<u8>, XunleiError>)
        ensures
            match r {
                Ok(d) => exists|i: int| 0 <= i < self@.len() && (#[trigger] self@[i]).0 == name@
                    && d@ == self@[i].1,
                Err(e) => e == XunleiError::NotFound && forall|i: int|
                    0 <= i < self@.len() ==> (#[trigger] self@[i]).0 != name@,
            },
    {
        let n = self.entries.len();
        let mut i: usize = 0;
        while i < n
            invariant
                n == self.entries.len(),
                forall|j: int| 0 <= j < i ==> (#[trigger] self@[j]).0 != name@,
            decreases n - i,
        {
            if crate::text::str_eq(self.entries[i].0.as_str(), name) {
                assert(self@[i as int].0 == name@);
                return Ok(&self.entries[i].1);
            }
            assert(self@[i as int].0 != name@);
            i += 1;
        }
        Err(XunleiError::NotFound)
    }
}

} // verus!
