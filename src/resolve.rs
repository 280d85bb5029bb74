//! Which open descriptors of a process reference a given file.

use vstd::prelude::*;
use crate::decimal::{parse_decimal, u64_of};

verus! {

/// One entry of a process's descriptor table, as seen from outside the process.
pub struct FdEntry {
    /// The entry's name: the descriptor number in decimal.
    pub name: Vec<u8>,
    /// The path the entry references, or `None` where it could not be
    /// resolved (the process closed the descriptor meanwhile).
    pub target: Option<Vec<u8>>,
}

/// The descriptor number that an entry's name denotes.
pub open spec fn fd_of_name(name: Seq<u8>) -> Option<u32> {
    match u64_of(name) {
        Some(v) => if v <= u32::MAX {
            Some(v as u32)
        } else {
            None
        },
        None => None,
    }
}

/// The entry was resolved, and to exactly `path`.
pub open spec fn references(e: FdEntry, path: Seq<u8>) -> bool {
    match e.target {
        Some(t) => t@ == path,
        None => false,
    }
}

/// The descriptor an entry contributes to the result: its number, if it
/// references `path` and its name is a descriptor number.
pub open spec fn entry_fd(e: FdEntry, path: Seq<u8>) -> Option<u32> {
    if references(e, path) {
        fd_of_name(e.name@)
    } else {
        None
    }
}

/// The descriptors of a table that reference `path`, in the table's order.
pub open spec fn matching_fds(entries: Seq<FdEntry>, path: Seq<u8>) -> Seq<u32>
    decreases entries.len(),
{
    if entries.len() == 0 {
        Seq::empty()
    } else {
        let rest = matching_fds(entries.drop_last(), path);
        match entry_fd(entries.last(), path) {
            Some(fd) => rest.push(fd),
            None => rest,
        }
    }
}

/// A descriptor is in the result exactly when some entry of the table carries
/// its number and references the path: no entry whose target differs
/// contributes to it.
pub proof fn lemma_resolve_exact(entries: Seq<FdEntry>, path: Seq<u8>, fd: u32)
    ensures
        matching_fds(entries, path).contains(fd) <==> exists|i: int|
            0 <= i < entries.len() && #[trigger] entry_fd(entries[i], path) == Some(fd),
    decreases entries.len(),
{
    if entries.len() > 0 {
        let init = entries.drop_last();
        lemma_resolve_exact(init, path, fd);
        let last = entries.len() - 1;
        if matching_fds(entries, path).contains(fd) {
            if !matching_fds(init, path).contains(fd) {
                let r = matching_fds(init, path);
                let k = choose|k: int| 0 <= k < matching_fds(entries, path).len()
                    && matching_fds(entries, path)[k] == fd;
                if k < r.len() {
                    assert(matching_fds(entries, path)[k] == r[k]);
                    assert(r.contains(fd));
                }
                assert(entry_fd(entries[last], path) == Some(fd));
            } else {
                let i = choose|i: int| 0 <= i < init.len() && #[trigger] entry_fd(init[i], path) == Some(fd);
                assert(entries[i] == init[i]);
            }
        } else {
            assert forall|i: int| 0 <= i < entries.len() implies #[trigger] entry_fd(entries[i], path) != Some(fd) by {
                if i < last {
                    assert(entries[i] == init[i]);
                    if entry_fd(entries[i], path) == Some(fd) {
                        let r = matching_fds(init, path);
                        let k = choose|k: int| 0 <= k < r.len() && r[k] == fd;
                        assert(matching_fds(entries, path)[k] == fd);
                    }
                } else {
                    if entry_fd(entries[i], path) == Some(fd) {
                        let r = matching_fds(init, path);
                        assert(matching_fds(entries, path)[r.len() as int] == fd);
                    }
                }
            }
        }
    }
}

/// A table with no entry that references the path yields no descriptor, and
/// that is a result, not an error.
pub proof fn lemma_resolve_unreferenced(entries: Seq<FdEntry>, path: Seq<u8>)
    requires
        forall|i: int| 0 <= i < entries.len() ==> !references(#[trigger] entries[i], path),
    ensures
        matching_fds(entries, path) == Seq::<u32>::empty(),
    decreases entries.len(),
{
    if entries.len() > 0 {
        let init = entries.drop_last();
        assert forall|i: int| 0 <= i < init.len() implies !references(#[trigger] init[i], path) by {
            assert(init[i] == entries[i]);
        }
        lemma_resolve_unreferenced(init, path);
        assert(!references(entries[entries.len() - 1], path));
    }
}

fn bytes_equal(a: &[u8], b: &[u8]) -> (r: bool)
    ensures
        r == (a@ == b@),
{
    if a.len() != b.len() {
        return false;
    }
    let mut i: usize = 0;
    while i < a.len()
        invariant
            a@.len() == b@.len(),
            i <= a@.len(),
            forall|k: int| 0 <= k < i ==> a@[k] == b@[k],
        decreases a@.len() - i,
    {
        if a[i] != b[i] {
            return false;
        }
        i = i + 1;
    }
    assert(a@ =~= b@);
    true
}

/// The descriptors among `entries`, a process's descriptor table, that
/// reference `path`, which the caller has already made canonical. An entry
/// whose target could not be resolved is skipped; a table where no entry
/// references the path gives an empty result.
pub fn find_fds_for_open_file(entries: &Vec<FdEntry>, path: &[u8]) -> (r: Vec<u32>)
    ensures
        r@ == matching_fds(entries@, path@),
        forall|fd: u32| r@.contains(fd) <==> exists|i: int|
            0 <= i < entries@.len() && #[trigger] entry_fd(entries@[i], path@) == Some(fd),
{
    let mut fds: Vec<u32> = Vec::new();
    let mut i: usize = 0;
    while i < entries.len()
        invariant
            i <= entries@.len(),
            fds@ == matching_fds(entries@.take(i as int), path@),
        decreases entries@.len() - i,
    {
        let e = &entries[i];
        assert(entries@.take(i + 1).drop_last() =~= entries@.take(i as int));
        let hit = match &e.target {
            Some(t) => bytes_equal(t.as_slice(), path),
            None => false,
        };
        if hit {
            match parse_decimal(e.name.as_slice()) {
                Some(v) => {
                    if v <= 4294967295 {
                        fds.push(v as u32);
                    }
                },
                None => {},
            }
        }
        i = i + 1;
    }
    assert(entries@.take(i as int) =~= entries@);
    proof {
        assert forall|fd: u32| fds@.contains(fd) <==> exists|i: int|
            0 <= i < entries@.len() && #[trigger] entry_fd(entries@[i], path@) == Some(fd) by {
            lemma_resolve_exact(entries@, path@, fd);
        }
    }
    fds
}

} // verus!
