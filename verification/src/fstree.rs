//! A model of directory trees.
//!
//! The I/O layer reads a directory from disk into a [`DirTree`] and hands it
//! over as plain data; everything the library decides about on-disk layout —
//! installation, discovery, the recursive copy — is verified against the
//! mathematical view of the tree. A file carries its bytes and, where the
//! bytes parse as JSON, the parsed document as read.
//!
//! A well-formed tree never holds two entries of one name in the same
//! directory, which is what a real filesystem guarantees.

use vstd::prelude::*;

use crate::json::{json_view, Json, JsonV};

verus! {

/// A file's content: its bytes, and the parsed document where the bytes
/// parse as JSON.
#[derive(Debug)]
pub struct FileData {
    pub bytes: Vec<u8>,
    pub json: Option<Json>,
}

/// A directory entry: a file or a subdirectory.
#[derive(Debug)]
pub enum FsEntry {
    File(FileData),
    Dir(DirTree),
}

/// A directory: named entries in listing order.
#[derive(Debug)]
pub struct DirTree {
    pub entries: Vec<(String, FsEntry)>,
}

/// The mathematical view of a file.
#[verifier::ext_equal]
pub struct FileV {
    pub bytes: Seq<u8>,
    pub json: Option<JsonV>,
}

/// The mathematical view of a directory entry.
#[verifier::ext_equal]
pub enum EntryV {
    File(FileV),
    Dir(Seq<(Seq<char>, EntryV)>),
}

/// The mathematical view of a directory: a sequence of named entry views.
pub type DirV = Seq<(Seq<char>, EntryV)>;

/// The view of a file.
pub open spec fn file_view(f: FileData) -> FileV {
    FileV {
        bytes: f.bytes@,
        json: match f.json {
            Some(j) => Some(json_view(j)),
            None => None,
        },
    }
}

/// The view of a directory entry.
pub open spec fn entry_view(e: FsEntry) -> EntryV
    decreases e,
{
    match e {
        FsEntry::File(f) => EntryV::File(file_view(f)),
        FsEntry::Dir(d) => EntryV::Dir(
            Seq::new(
                d.entries@.len(),
                |i: int|
                    if 0 <= i < d.entries@.len() {
                        (d.entries@[i].0@, entry_view(d.entries@[i].1))
                    } else {
                        (Seq::empty(), EntryV::Dir(Seq::empty()))
                    },
            ),
        ),
    }
}

impl View for FsEntry {
    type V = EntryV;

    open spec fn view(&self) -> EntryV {
        entry_view(*self)
    }
}

impl View for DirTree {
    type V = DirV;

    open spec fn view(&self) -> DirV {
        Seq::new(
            self.entries@.len(),
            |i: int|
                if 0 <= i < self.entries@.len() {
                    (self.entries@[i].0@, entry_view(self.entries@[i].1))
                } else {
                    (Seq::empty(), EntryV::Dir(Seq::empty()))
                },
        )
    }
}

/// A directory entry's view and the directory's own view agree.
pub proof fn lemma_dir_entry_view(d: DirTree)
    ensures
        entry_view(FsEntry::Dir(d)) == EntryV::Dir(d@),
{
    assert(entry_view(FsEntry::Dir(d))->Dir_0 =~= d@);
}

/// Whether an entry's view is well formed: every directory beneath it has
/// pairwise distinct names.
pub open spec fn wf_entry_v(e: EntryV) -> bool
    decreases e,
{
    match e {
        EntryV::File(_) => true,
        EntryV::Dir(es) => wf_dir_v(es),
    }
}

/// Whether a directory view is well formed: names pairwise distinct, every
/// entry well formed.
pub open spec fn wf_dir_v(es: DirV) -> bool
    decreases es,
{
    &&& forall|i: int, j: int| 0 <= i < j < es.len() ==> es[i].0 != es[j].0
    &&& forall|i: int| 0 <= i < es.len() ==> wf_entry_v(#[trigger] es[i].1)
}

/// Look a name up in a directory view: the first entry with that name.
pub open spec fn spec_dir_lookup(es: DirV, name: Seq<char>) -> Option<EntryV>
    decreases es.len(),
{
    if es.len() == 0 {
        None
    } else if es[0].0 == name {
        Some(es[0].1)
    } else {
        spec_dir_lookup(es.drop_first(), name)
    }
}

/// A lookup skips any prefix of entries whose names all differ from `name`.
pub proof fn lemma_dir_lookup_skip(es: DirV, name: Seq<char>, i: int)
    requires
        0 <= i <= es.len(),
        forall|j: int| 0 <= j < i ==> es[j].0 != name,
    ensures
        spec_dir_lookup(es, name) == spec_dir_lookup(es.skip(i), name),
    decreases i,
{
    if i > 0 {
        lemma_dir_lookup_skip(es.drop_first(), name, i - 1);
        assert(es.drop_first().skip(i - 1) =~= es.skip(i));
    } else {
        assert(es.skip(0) =~= es);
    }
}

/// When no entry has the name, the lookup yields nothing.
pub proof fn lemma_dir_lookup_absent(es: DirV, name: Seq<char>)
    requires
        forall|j: int| 0 <= j < es.len() ==> es[j].0 != name,
    ensures
        spec_dir_lookup(es, name) is None,
{
    lemma_dir_lookup_skip(es, name, es.len() as int);
    assert(es.skip(es.len() as int) =~= Seq::<(Seq<char>, EntryV)>::empty());
}

/// When the first entry with the name sits at `i`, the lookup yields it.
pub proof fn lemma_dir_lookup_at(es: DirV, name: Seq<char>, i: int)
    requires
        0 <= i < es.len(),
        es[i].0 == name,
        forall|j: int| 0 <= j < i ==> es[j].0 != name,
    ensures
        spec_dir_lookup(es, name) == Some(es[i].1),
{
    lemma_dir_lookup_skip(es, name, i);
    assert(es.skip(i)[0] == es[i]);
}

/// Replace the first entry of the given name, or append one.
pub open spec fn spec_upsert(es: DirV, name: Seq<char>, v: EntryV) -> DirV
    decreases es.len(),
{
    if es.len() == 0 {
        seq![(name, v)]
    } else if es[0].0 == name {
        seq![(name, v)] + es.drop_first()
    } else {
        seq![es[0]] + spec_upsert(es.drop_first(), name, v)
    }
}

/// When the first entry with the name sits at `i`, upserting updates it in
/// place.
pub proof fn lemma_upsert_at(es: DirV, name: Seq<char>, v: EntryV, i: int)
    requires
        0 <= i < es.len(),
        es[i].0 == name,
        forall|j: int| 0 <= j < i ==> es[j].0 != name,
    ensures
        spec_upsert(es, name, v) =~= es.update(i, (name, v)),
    decreases i,
{
    if i == 0 {
        assert(spec_upsert(es, name, v) =~= es.update(0, (name, v)));
    } else {
        lemma_upsert_at(es.drop_first(), name, v, i - 1);
        assert(spec_upsert(es, name, v) =~= seq![es[0]] + es.drop_first().update(
            i - 1,
            (name, v),
        ));
        assert(seq![es[0]] + es.drop_first().update(i - 1, (name, v)) =~= es.update(
            i,
            (name, v),
        ));
    }
}

/// Appending an entry under a fresh name registers it and leaves every
/// other name's lookup unchanged.
pub proof fn lemma_dir_lookup_push(es: DirV, name: Seq<char>, v: EntryV)
    requires
        forall|j: int| 0 <= j < es.len() ==> es[j].0 != name,
    ensures
        spec_dir_lookup(es.push((name, v)), name) == Some(v),
        forall|k: Seq<char>|
            k != name ==> spec_dir_lookup(es.push((name, v)), k) == spec_dir_lookup(es, k),
    decreases es.len(),
{
    if es.len() == 0 {
        assert(es.push((name, v))[0] == (name, v));
        assert forall|k: Seq<char>|
            k != name implies spec_dir_lookup(es.push((name, v)), k) == spec_dir_lookup(
            es,
            k,
        ) by {
            assert(es.push((name, v)).drop_first() =~= Seq::<(Seq<char>, EntryV)>::empty());
            assert(spec_dir_lookup(es.push((name, v)), k) == spec_dir_lookup(
                es.push((name, v)).drop_first(),
                k,
            ));
        }
    } else {
        lemma_dir_lookup_push(es.drop_first(), name, v);
        assert(es.push((name, v)).drop_first() =~= es.drop_first().push((name, v)));
        assert(es.push((name, v))[0] == es[0]);
        assert(spec_dir_lookup(es.push((name, v)), name) == spec_dir_lookup(
            es.drop_first().push((name, v)),
            name,
        ));
        assert forall|k: Seq<char>|
            k != name implies spec_dir_lookup(es.push((name, v)), k) == spec_dir_lookup(
            es,
            k,
        ) by {
            if es[0].0 != k {
                assert(spec_dir_lookup(es.push((name, v)), k) == spec_dir_lookup(
                    es.drop_first().push((name, v)),
                    k,
                ));
                assert(spec_dir_lookup(es, k) == spec_dir_lookup(es.drop_first(), k));
            }
        }
    }
}

/// When no entry has the name, upserting appends.
pub proof fn lemma_upsert_absent(es: DirV, name: Seq<char>, v: EntryV)
    requires
        forall|j: int| 0 <= j < es.len() ==> es[j].0 != name,
    ensures
        spec_upsert(es, name, v) =~= es.push((name, v)),
    decreases es.len(),
{
    if es.len() > 0 {
        lemma_upsert_absent(es.drop_first(), name, v);
        assert(spec_upsert(es, name, v) =~= es.push((name, v)));
    }
}

impl DirTree {
    /// An empty directory.
    pub fn new() -> (r: DirTree)
        ensures
            r@ == Seq::<(Seq<char>, EntryV)>::empty(),
    {
        let r = DirTree { entries: Vec::new() };
        proof {
            assert(r@ =~= Seq::<(Seq<char>, EntryV)>::empty());
        }
        r
    }

    /// The index of the first entry with the given name.
    fn find_index(&self, name: &str) -> (r: Option<usize>)
        ensures
            match r {
                Some(i) => {
                    &&& i < self.entries@.len()
                    &&& self@[i as int].0 == name@
                    &&& forall|j: int| 0 <= j < i ==> self@[j].0 != name@
                    &&& spec_dir_lookup(self@, name@) == Some(self@[i as int].1)
                },
                None => {
                    &&& spec_dir_lookup(self@, name@) is None
                    &&& forall|j: int| 0 <= j < self@.len() ==> self@[j].0 != name@
                },
            },
    {
        let mut i: usize = 0;
        while i < self.entries.len()
            invariant
                i <= self.entries@.len(),
                self@.len() == self.entries@.len(),
                forall|j: int|
                    0 <= j < self.entries@.len() ==> self@[j] == (
                    self.entries@[j].0@,
                    entry_view(self.entries@[j].1),
                    ),
                forall|j: int| 0 <= j < i ==> self@[j].0 != name@,
            decreases self.entries@.len() - i,
        {
            if crate::strutil::str_eq(self.entries[i].0.as_str(), name) {
                proof {
                    lemma_dir_lookup_at(self@, name@, i as int);
                }
                return Some(i);
            }
            i = i + 1;
        }
        proof {
            lemma_dir_lookup_absent(self@, name@);
        }
        None
    }

    /// The entry of the given name, if any.
    pub fn get_entry<'a>(&'a self, name: &str) -> (r: Option<&'a FsEntry>)
        ensures
            match r {
                Some(e) => spec_dir_lookup(self@, name@) == Some(e@),
                None => {
                    &&& spec_dir_lookup(self@, name@) is None
                    &&& forall|j: int| 0 <= j < self@.len() ==> self@[j].0 != name@
                },
            },
    {
        match self.find_index(name) {
            Some(i) => {
                let pair = &self.entries[i];
                proof {
                    assert(self@[i as int].1 == entry_view(self.entries@[i as int].1));
                }
                Some(&pair.1)
            },
            None => None,
        }
    }

    /// Whether a subdirectory of the given name exists.
    pub fn has_dir(&self, name: &str) -> (r: bool)
        ensures
            r == (spec_dir_lookup(self@, name@) matches Some(EntryV::Dir(_))),
    {
        match self.get_entry(name) {
            Some(e) => match e {
                FsEntry::Dir(d) => {
                    proof {
                        lemma_dir_entry_view(*d);
                    }
                    true
                },
                FsEntry::File(_) => false,
            },
            None => false,
        }
    }

    /// Replace the first entry of the given name, or append one.
    pub fn set_entry(&mut self, name: String, e: FsEntry)
        ensures
            final(self)@ == spec_upsert(old(self)@, name@, e@),
    {
        let ghost old_v = self@;
        match self.find_index(name.as_str()) {
            Some(i) => {
                proof {
                    lemma_upsert_at(old_v, name@, e@, i as int);
                }
                self.entries.remove(i);
                self.entries.insert(i, (name, e));
                proof {
                    assert(self@ =~= old_v.update(i as int, (name@, e@)));
                }
            },
            None => {
                proof {
                    lemma_upsert_absent(old_v, name@, e@);
                }
                self.entries.push((name, e));
                proof {
                    assert(self@ =~= old_v.push((name@, e@)));
                }
            },
        }
    }
}

impl DirTree {
    /// Remove and return the entry at `i`.
    fn take_entry_at(&mut self, i: usize) -> (r: (String, FsEntry))
        requires
            i < old(self).entries@.len(),
        ensures
            final(self)@ =~= old(self)@.remove(i as int),
            (r.0@, r.1@) == old(self)@[i as int],
    {
        let ghost old_v = self@;
        let r = self.entries.remove(i);
        proof {
            assert(self@ =~= old_v.remove(i as int));
        }
        r
    }

    /// Insert an entry at `i`.
    fn insert_entry_at(&mut self, i: usize, name: String, e: FsEntry)
        requires
            i <= old(self).entries@.len(),
        ensures
            final(self)@ =~= old(self)@.insert(i as int, (name@, e@)),
    {
        let ghost old_v = self@;
        self.entries.insert(i, (name, e));
        proof {
            assert(self@ =~= old_v.insert(i as int, (name@, e@)));
        }
    }
}

/// The result of merging the first `n` entries of `src` into `dst`, the way
/// a recursive copy does: files overwrite files, directories merge into
/// directories.
pub open spec fn merge_upto(dst: DirV, src: DirTree, n: int) -> DirV
    decreases src, n,
        via merge_upto_decreases
{
    if n <= 0 || n > src.entries@.len() {
        dst
    } else {
        merge_one(merge_upto(dst, src, n - 1), src.entries@[n - 1].0@, src.entries@[n - 1].1)
    }
}

#[via_fn]
proof fn merge_upto_decreases(dst: DirV, src: DirTree, n: int) {
    if 0 < n <= src.entries@.len() {
        assert(decreases_to!(src => src.entries));
        assert(decreases_to!(src.entries => src.entries@[n - 1]));
        assert(decreases_to!(src.entries@[n - 1] => src.entries@[n - 1].1));
    }
}

/// The result of copying one source entry into `dst`.
pub open spec fn merge_one(dst: DirV, name: Seq<char>, e: FsEntry) -> DirV
    decreases e, 0int,
{
    match e {
        FsEntry::File(f) => spec_upsert(dst, name, EntryV::File(file_view(f))),
        FsEntry::Dir(d) => {
            let inner = match spec_dir_lookup(dst, name) {
                Some(EntryV::Dir(des)) => des,
                _ => Seq::empty(),
            };
            spec_upsert(dst, name, EntryV::Dir(merge_upto(inner, d, d.entries@.len() as int)))
        },
    }
}

/// Whether the first `n` entries of `src` can be copied into `dst`: no file
/// of one side collides with a directory of the other.
pub open spec fn merge_ok_upto(dst: DirV, src: DirTree, n: int) -> bool
    decreases src, n,
        via merge_ok_upto_decreases
{
    if n <= 0 || n > src.entries@.len() {
        true
    } else {
        merge_ok_upto(dst, src, n - 1) && merge_one_ok(
            merge_upto(dst, src, n - 1),
            src.entries@[n - 1].0@,
            src.entries@[n - 1].1,
        )
    }
}

#[via_fn]
proof fn merge_ok_upto_decreases(dst: DirV, src: DirTree, n: int) {
    if 0 < n <= src.entries@.len() {
        assert(decreases_to!(src => src.entries));
        assert(decreases_to!(src.entries => src.entries@[n - 1]));
        assert(decreases_to!(src.entries@[n - 1] => src.entries@[n - 1].1));
    }
}

/// Whether one source entry can be copied into `dst`.
pub open spec fn merge_one_ok(dst: DirV, name: Seq<char>, e: FsEntry) -> bool
    decreases e, 0int,
{
    match e {
        FsEntry::File(_) => !(spec_dir_lookup(dst, name) matches Some(EntryV::Dir(_))),
        FsEntry::Dir(d) => match spec_dir_lookup(dst, name) {
            Some(EntryV::File(_)) => false,
            Some(EntryV::Dir(des)) => merge_ok_upto(des, d, d.entries@.len() as int),
            None => merge_ok_upto(Seq::empty(), d, d.entries@.len() as int),
        },
    }
}

/// When a copy is possible, so is the copy of any prefix.
pub proof fn lemma_merge_ok_prefix(dst: DirV, src: DirTree, n: int, k: int)
    requires
        merge_ok_upto(dst, src, n),
        0 <= k <= n <= src.entries@.len(),
    ensures
        merge_ok_upto(dst, src, k),
    decreases n,
{
    if k < n {
        lemma_merge_ok_prefix(dst, src, n - 1, k);
    }
}

/// A source entry that cannot be copied into the state the copy has reached
/// rules the whole copy out.
proof fn lemma_conflict_no_merge(dst: DirV, src: DirTree, i: int)
    requires
        0 <= i < src.entries@.len(),
        !merge_one_ok(merge_upto(dst, src, i), src.entries@[i].0@, src.entries@[i].1),
    ensures
        !merge_ok_upto(dst, src, src.entries@.len() as int),
{
    let n = src.entries@.len() as int;
    if merge_ok_upto(dst, src, n) {
        lemma_merge_ok_prefix(dst, src, n, i + 1);
        assert(merge_ok_upto(dst, src, i + 1));
        assert(merge_one_ok(merge_upto(dst, src, i), src.entries@[i].0@, src.entries@[i].1));
    }
}

/// The message a copy reports when a file of one side collides with a
/// directory of the other.
pub open spec fn copy_conflict_msg() -> Seq<char> {
    "an entry is a file on one side and a directory on the other"@
}

/// Recursively copy all entries of `src` into `dst`: subdirectories merge,
/// files overwrite files of the same name. Fails exactly when a file of one
/// side collides with a directory of the other, anywhere beneath.
pub fn copy_dir_recursive(src: &DirTree, dst: DirTree) -> (r: Result<DirTree, String>)
    ensures
        r is Ok <==> merge_ok_upto(dst@, *src, src.entries@.len() as int),
        r matches Ok(t) ==> t@ == merge_upto(dst@, *src, src.entries@.len() as int),
        r matches Err(m) ==> m@ == copy_conflict_msg(),
    decreases *src,
{
    let ghost n0 = src.entries@.len() as int;
    let mut cur = dst;
    let ghost dst_v = cur@;
    let mut i: usize = 0;
    while i < src.entries.len()
        invariant
            i <= src.entries@.len(),
            n0 == src.entries@.len(),
            dst_v == dst@,
            cur@ == merge_upto(dst_v, *src, i as int),
            merge_ok_upto(dst_v, *src, i as int),
        decreases src.entries@.len() - i,
    {
        let ghost prev = cur@;
        let pair = &src.entries[i];
        let name = &pair.0;
        proof {
            assert(merge_upto(dst_v, *src, i as int + 1) == merge_one(
                prev,
                src.entries@[i as int].0@,
                src.entries@[i as int].1,
            ));
        }
        match &pair.1 {
            FsEntry::File(f) => {
                if cur.has_dir(name.as_str()) {
                    proof {
                        assert(!merge_one_ok(prev, src.entries@[i as int].0@, src.entries@[i as int].1));
                        lemma_conflict_no_merge(dst_v, *src, i as int);
                    }
                    return Err(
                        String::from_str(
                            "an entry is a file on one side and a directory on the other",
                        ),
                    );
                }
                cur.set_entry(name.clone(), FsEntry::File(clone_file(f)));
                proof {
                    assert(cur@ == merge_one(prev, name@, src.entries@[i as int].1));
                    assert(merge_one_ok(prev, src.entries@[i as int].0@, src.entries@[i as int].1));
                    assert(merge_ok_upto(dst_v, *src, i as int + 1));
                }
            },
            FsEntry::Dir(sd) => {
                proof {
                    assert(decreases_to!(*src => src.entries));
                    assert(decreases_to!(src.entries => src.entries@[i as int]));
                    assert(decreases_to!(src.entries@[i as int] => src.entries@[i as int].1));
                    assert(src.entries@[i as int].1 == pair.1);
                    assert(decreases_to!(pair.1 => *sd));
                }
                match cur.find_index(name.as_str()) {
                    Some(idx) => {
                        let (nm, old_entry) = cur.take_entry_at(idx);
                        match old_entry {
                            FsEntry::File(_) => {
                                proof {
                                    assert(spec_dir_lookup(prev, name@) matches Some(
                                        EntryV::File(_),
                                    ));
                                    assert(!merge_one_ok(prev, src.entries@[i as int].0@, src.entries@[i as int].1));
                                    lemma_conflict_no_merge(dst_v, *src, i as int);
                                }
                                return Err(
                                    String::from_str(
                                        "an entry is a file on one side and a directory on the other",
                                    ),
                                );
                            },
                            FsEntry::Dir(dd) => {
                                let ghost dd_v = dd@;
                                proof {
                                    lemma_dir_entry_view(dd);
                                    assert(spec_dir_lookup(prev, name@) == Some(EntryV::Dir(dd_v)));
                                }
                                let merged = match copy_dir_recursive(sd, dd) {
                                    Ok(t) => t,
                                    Err(m) => {
                                        proof {
                                            assert(!merge_one_ok(
                                                prev,
                                                src.entries@[i as int].0@,
                                                src.entries@[i as int].1,
                                            ));
                                            lemma_conflict_no_merge(dst_v, *src, i as int);
                                        }
                                        return Err(m);
                                    },
                                };
                                proof {
                                    lemma_dir_entry_view(merged);
                                    lemma_upsert_at(
                                        prev,
                                        name@,
                                        EntryV::Dir(
                                            merge_upto(dd_v, *sd, sd.entries@.len() as int),
                                        ),
                                        idx as int,
                                    );
                                }
                                cur.insert_entry_at(idx, nm, FsEntry::Dir(merged));
                                proof {
                                    assert(cur@ =~= prev.update(
                                        idx as int,
                                        (name@, EntryV::Dir(merge_upto(dd_v, *sd, sd.entries@.len() as int))),
                                    ));
                                    assert(cur@ == merge_one(prev, name@, src.entries@[i as int].1));
                                    assert(merge_one_ok(prev, src.entries@[i as int].0@, src.entries@[i as int].1));
                                    assert(merge_ok_upto(dst_v, *src, i as int + 1));
                                }
                            },
                        }
                    },
                    None => {
                        let merged = match copy_dir_recursive(sd, DirTree::new()) {
                            Ok(t) => t,
                            Err(m) => {
                                proof {
                                    assert(!merge_one_ok(prev, src.entries@[i as int].0@, src.entries@[i as int].1));
                                    lemma_conflict_no_merge(dst_v, *src, i as int);
                                }
                                return Err(m);
                            },
                        };
                        proof {
                            lemma_dir_entry_view(merged);
                        }
                        cur.set_entry(name.clone(), FsEntry::Dir(merged));
                        proof {
                            assert(cur@ == merge_one(prev, name@, src.entries@[i as int].1));
                            assert(merge_one_ok(prev, src.entries@[i as int].0@, src.entries@[i as int].1));
                            assert(merge_ok_upto(dst_v, *src, i as int + 1));
                        }
                    },
                }
            },
        }
        i = i + 1;
    }
    Ok(cur)
}

/// Merging a prefix of a well-formed source into an empty directory
/// reproduces that prefix exactly.
proof fn lemma_merge_empty_upto(src: DirTree, n: int)
    requires
        wf_dir_v(src@),
        0 <= n <= src.entries@.len(),
    ensures
        merge_ok_upto(Seq::empty(), src, n),
        merge_upto(Seq::empty(), src, n) == src@.take(n),
    decreases src, n,
{
    if n == 0 {
        assert(merge_upto(Seq::empty(), src, 0) =~= src@.take(0));
    } else {
        lemma_merge_empty_upto(src, n - 1);
        let prev = merge_upto(Seq::empty(), src, n - 1);
        let name0 = src.entries@[n - 1].0@;
        let entry = src.entries@[n - 1].1;
        assert(src@[n - 1] == (name0, entry_view(entry)));
        assert(forall|j: int| 0 <= j < n - 1 ==> src@.take(n - 1)[j] == src@[j]);
        assert(forall|j: int| 0 <= j < prev.len() ==> prev[j].0 != name0) by {
            assert(forall|j: int| 0 <= j < n - 1 ==> (#[trigger] src@[j]).0 != src@[n - 1].0);
        }
        lemma_dir_lookup_absent(prev, name0);
        assert(merge_upto(Seq::empty(), src, n) == merge_one(prev, name0, entry));
        assert(merge_ok_upto(Seq::empty(), src, n) == (merge_ok_upto(Seq::empty(), src, n - 1)
            && merge_one_ok(prev, name0, entry)));
        match entry {
            FsEntry::File(f) => {
                assert(merge_one(prev, name0, entry) == spec_upsert(
                    prev,
                    name0,
                    EntryV::File(file_view(f)),
                ));
                lemma_upsert_absent(prev, name0, EntryV::File(file_view(f)));
                assert(entry_view(entry) == EntryV::File(file_view(f)));
                assert(merge_upto(Seq::empty(), src, n) == prev.push((name0, entry_view(entry))));
                assert(prev.push((name0, entry_view(entry))) =~= src@.take(n));
            },
            FsEntry::Dir(d) => {
                assert(decreases_to!(src => src.entries));
                assert(decreases_to!(src.entries => src.entries@[n - 1]));
                assert(decreases_to!(src.entries@[n - 1] => src.entries@[n - 1].1));
                assert(decreases_to!(src.entries@[n - 1].1 => d));
                lemma_dir_entry_view(d);
                assert(wf_entry_v(src@[n - 1].1));
                assert(wf_dir_v(d@));
                lemma_merge_empty_upto(d, d.entries@.len() as int);
                assert(d@.take(d.entries@.len() as int) =~= d@);
                assert(merge_one(prev, name0, entry) == spec_upsert(
                    prev,
                    name0,
                    EntryV::Dir(merge_upto(Seq::empty(), d, d.entries@.len() as int)),
                ));
                lemma_upsert_absent(prev, name0, EntryV::Dir(d@));
                assert(merge_upto(Seq::empty(), src, n) == prev.push((name0, EntryV::Dir(d@))));
                assert(prev.push((name0, EntryV::Dir(d@))) =~= src@.take(n));
            },
        }
    }
}

/// Copying a well-formed directory into an empty one succeeds and
/// reproduces it exactly.
pub proof fn lemma_copy_into_empty(src: DirTree)
    requires
        wf_dir_v(src@),
    ensures
        merge_ok_upto(Seq::empty(), src, src.entries@.len() as int),
        merge_upto(Seq::empty(), src, src.entries@.len() as int) == src@,
{
    lemma_merge_empty_upto(src, src.entries@.len() as int);
    assert(src@.take(src.entries@.len() as int) =~= src@);
}

/// Copy a file: the bytes and the parsed document carry over unchanged.
pub fn clone_file(f: &FileData) -> (r: FileData)
    ensures
        file_view(r) == file_view(*f),
{
    let bytes = f.bytes.clone();
    proof {
        assert(bytes@ =~= f.bytes@);
    }
    let json = match &f.json {
        Some(j) => Some(j.deep_clone()),
        None => None,
    };
    FileData { bytes, json }
}

} // verus!
