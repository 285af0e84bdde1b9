//! Files and directories: the working directory and the order directory listings
//! are shown in (reading the disk is the application's part).
use crate::command_registry::{str_less, str_lt};
use std::path::{Path, PathBuf};
use vstd::prelude::*;

verus! {

#[derive(Debug)]
pub struct DirEntry {
    pub name: String,
    pub path: PathBuf,
    pub is_dir: bool,
    pub size: u64,
}

impl Clone for DirEntry {
    fn clone(&self) -> (e: Self)
        ensures
            e.name@ == self.name@ && e.is_dir == self.is_dir && e.size == self.size,
    {
        DirEntry { name: crate::text::owned(self.name.as_str()), path: self.path.clone(), is_dir: self.is_dir, size: self.size }
    }
}

/// `std::path::PathBuf::as_path`. Nothing is claimed of the borrowed path.
#[verifier::external_body]
fn as_path(p: &PathBuf) -> &Path {
    p.as_path()
}

pub struct FileManager {
    pub current_dir: PathBuf,
}

/// The listing order: directories before files, then by name.
pub open spec fn entry_before(a: DirEntry, b: DirEntry) -> bool {
    (a.is_dir && !b.is_dir) || (a.is_dir == b.is_dir && str_lt(a.name@, b.name@))
}

/// `x` put into `s` after every entry that it does not come before.
pub open spec fn insert_entry(s: Seq<DirEntry>, x: DirEntry) -> Seq<DirEntry>
    decreases s.len(),
{
    if s.len() > 0 && entry_before(x, s.last()) {
        insert_entry(s.drop_last(), x).push(s.last())
    } else {
        s.push(x)
    }
}

/// The entries in listing order; entries that order alike keep their order.
pub open spec fn listing_order(s: Seq<DirEntry>) -> Seq<DirEntry>
    decreases s.len(),
{
    if s.len() == 0 {
        Seq::empty()
    } else {
        insert_entry(listing_order(s.drop_last()), s.last())
    }
}

fn before(a: &DirEntry, b: &DirEntry) -> (r: bool)
    ensures
        r == entry_before(*a, *b),
{
    (a.is_dir && !b.is_dir) || (a.is_dir == b.is_dir && str_less(a.name.as_str(), b.name.as_str()))
}

fn place_entry(v: &mut Vec<DirEntry>, x: DirEntry)
    ensures
        final(v)@ == insert_entry(old(v)@, x),
{
    let ghost s = v@;
    let mut k: usize = v.len();
    assert(s.take(k as int) =~= s);
    assert(s.skip(k as int) =~= Seq::<DirEntry>::empty());
    while k > 0 && before(&x, &v[k - 1])
        invariant
            k <= v@.len(),
            s == v@,
            insert_entry(s, x) == insert_entry(s.take(k as int), x) + s.skip(k as int),
        decreases k,
    {
        assert(s.take(k as int).drop_last() =~= s.take(k - 1));
        assert(seq![s[k - 1]] + s.skip(k as int) =~= s.skip(k - 1));
        assert(insert_entry(s.take(k - 1), x).push(s[k - 1]) + s.skip(k as int) =~= insert_entry(s.take(k - 1), x) + s.skip(k - 1));
        k = k - 1;
    }
    v.insert(k, x);
    assert(v@ =~= s.take(k as int).push(x) + s.skip(k as int));
}

impl FileManager {
    /// A file manager in the given working directory.
    pub fn new(current_dir: PathBuf) -> (m: Self)
        ensures
            m.current_dir == current_dir,
    {
        Self { current_dir }
    }

    /// Sorts a directory's entries as listings show them: directories first, then by
    /// name (a stable sort).
    pub fn sort_entries(entries: Vec<DirEntry>) -> (r: Vec<DirEntry>)
        ensures
            r@ == listing_order(entries@),
    {
        let ghost all = entries@;
        let n = entries.len();
        let mut rest = entries;
        let mut sorted: Vec<DirEntry> = Vec::new();
        let mut i: usize = 0;
        assert(all.skip(0) =~= all);
        while rest.len() > 0
            invariant
                i <= all.len(),
                all.len() == n,
                rest@ == all.skip(i as int),
                sorted@ == listing_order(all.take(i as int)),
            decreases rest@.len(),
        {
            let e = rest.remove(0);
            assert(all.take(i + 1).drop_last() =~= all.take(i as int));
            assert(all.take(i + 1).last() == e);
            place_entry(&mut sorted, e);
            assert(rest@ =~= all.skip(i + 1));
            i = i + 1;
        }
        assert(all.take(i as int) =~= all);
        sorted
    }

    pub fn current_directory(&self) -> &Path {
        as_path(&self.current_dir)
    }

    /// Moves to `new_dir` (already made absolute by the caller).
    pub fn change_directory(&mut self, new_dir: PathBuf) -> (r: Result<(), anyhow::Error>)
        ensures
            r is Ok,
            final(self).current_dir == new_dir,
    {
        self.current_dir = new_dir;
        Ok(())
    }
}

} // verus!
