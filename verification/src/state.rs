use vstd::prelude::*;
use vstd::map::*;
use vstd::pervasive::VecAdditionalExecFns;
use vstd::string::StringExecFns;
use crate::git::Oid;

verus! {

/// Joining of two path components: the right part alone when the left is
/// empty, otherwise the two separated by `/`.
pub open spec fn path_join(a: Seq<char>, b: Seq<char>) -> Seq<char> {
    if a.len() == 0 {
        b
    } else {
        a + seq!['/'] + b
    }
}

/// The mathematical content of a file handle: the shared bases and the
/// relative path that identifies it.
pub struct FileV {
    pub abs: Seq<char>,
    pub base: Seq<char>,
    pub rel: Seq<char>,
}

/// A handle to one file of the working copy: the run's absolute base, the
/// target subdirectory within the checkout, and the path relative to it.
/// Identity rests on the relative path alone.
pub struct File {
    absolute_base: String,
    cvs_base: String,
    relative_path: String,
}

impl View for File {
    type V = FileV;

    closed spec fn view(&self) -> FileV {
        FileV { abs: self.absolute_base@, base: self.cvs_base@, rel: self.relative_path@ }
    }
}

/// Appends one more component onto a path under construction.
fn push_component(out: &mut String, piece: &str)
    ensures
        final(out)@ == path_join(old(out)@, piece@),
{
    if !out.as_str().is_empty() {
        out.append("/");
        proof {
            reveal_strlit("/");
            assert(old(out)@ + "/"@ =~= old(out)@ + seq!['/']);
        }
    }
    out.append(piece);
    proof {
        if old(out)@.len() != 0 {
            assert(final(out)@ =~= old(out)@ + seq!['/'] + piece@);
        } else {
            assert(final(out)@ =~= piece@);
        }
    }
}

/// Joins two path components the way the working copy's paths are built.
pub fn join_paths(a: &str, b: &str) -> (r: String)
    ensures
        r@ == path_join(a@, b@),
{
    let mut out = String::new();
    push_component(&mut out, a);
    push_component(&mut out, b);
    out
}

impl Clone for File {
    fn clone(&self) -> (r: Self)
        ensures
            r == *self,
    {
        File {
            absolute_base: self.absolute_base.clone(),
            cvs_base: self.cvs_base.clone(),
            relative_path: self.relative_path.clone(),
        }
    }
}

impl PartialEq for File {
    fn eq(&self, other: &Self) -> (r: bool) {
        self.relative_path == other.relative_path
    }
}

impl vstd::std_specs::cmp::PartialEqSpecImpl for File {
    open spec fn obeys_eq_spec() -> bool {
        true
    }

    open spec fn eq_spec(&self, other: &File) -> bool {
        self@.rel == other@.rel
    }
}

impl File {
    /// Where the file lives on disk: absolute base, then target directory,
    /// then the relative path.
    pub fn absolute_path(&self) -> (r: String)
        ensures
            r@ == path_join(path_join(self@.abs, self@.base), self@.rel),
    {
        let mut out = String::new();
        push_component(&mut out, self.absolute_base.as_str());
        push_component(&mut out, self.cvs_base.as_str());
        push_component(&mut out, self.relative_path.as_str());
        out
    }

    /// The path the LVCS sees: target directory, then the relative path.
    pub fn cvs_relative_path(&self) -> (r: String)
        ensures
            r@ == path_join(self@.base, self@.rel),
    {
        let mut out = String::new();
        push_component(&mut out, self.cvs_base.as_str());
        push_component(&mut out, self.relative_path.as_str());
        out
    }
}

/// The mathematical content of the per-commit state.
pub struct CommitV {
    pub binary: Seq<FileV>,
    pub non_binary: Seq<FileV>,
    pub seen: Set<Seq<char>>,
}

/// Per-commit bookkeeping: the newly created handles, binary and text apart
/// and in walk order, and the set of relative paths visited in this commit.
pub struct Commit {
    binary: Vec<File>,
    non_binary: Vec<File>,
    seen: Vec<File>,
}

/// The handle views of a sequence of files.
pub open spec fn files_view(s: Seq<File>) -> Seq<FileV> {
    s.map_values(|f: File| f@)
}

impl View for Commit {
    type V = CommitV;

    closed spec fn view(&self) -> CommitV {
        CommitV {
            binary: files_view(self.binary@),
            non_binary: files_view(self.non_binary@),
            seen: Set::new(
                |rel: Seq<char>|
                    exists|i: int| 0 <= i < self.seen@.len() && (#[trigger] self.seen@[i])@.rel
                        == rel,
            ),
        }
    }
}

impl Commit {
    pub fn new() -> (r: Commit)
        ensures
            r@.binary =~= Seq::<FileV>::empty(),
            r@.non_binary =~= Seq::<FileV>::empty(),
            r@.seen =~= Set::<Seq<char>>::empty(),
    {
        let r = Commit { binary: Vec::new(), non_binary: Vec::new(), seen: Vec::new() };
        proof {
            assert(r@.binary =~= Seq::<FileV>::empty());
            assert(r@.non_binary =~= Seq::<FileV>::empty());
            assert forall|rel: Seq<char>| !r@.seen.contains(rel) by {}
            assert(r@.seen =~= Set::<Seq<char>>::empty());
        }
        r
    }

    /// The newly created binary handles, in walk order.
    pub fn iter_new_binary_files(&self) -> (r: &Vec<File>)
        ensures
            files_view(r@) == self@.binary,
    {
        &self.binary
    }

    /// The newly created non-binary handles, in walk order; directories come
    /// before the files inside them.
    pub fn iter_new_non_binary_files(&self) -> (r: &Vec<File>)
        ensures
            files_view(r@) == self@.non_binary,
    {
        &self.non_binary
    }

    /// Records a handle first created in this commit, on the binary or the
    /// text list as its content dictates.
    pub fn new_file(&mut self, file: File, binary: bool)
        ensures
            binary ==> final(self)@.binary == old(self)@.binary.push(file@) && final(self)@
                .non_binary == old(self)@.non_binary,
            !binary ==> final(self)@.non_binary == old(self)@.non_binary.push(file@)
                && final(self)@.binary == old(self)@.binary,
            final(self)@.seen == old(self)@.seen,
    {
        let ghost fv = file@;
        if binary {
            self.binary.push(file);
            proof {
                assert(files_view(self.binary@) =~= files_view(old(self).binary@).push(fv));
                assert(final(self)@.seen =~= old(self)@.seen);
            }
        } else {
            self.non_binary.push(file);
            proof {
                assert(files_view(self.non_binary@) =~= files_view(old(self).non_binary@).push(
                    fv,
                ));
                assert(final(self)@.seen =~= old(self)@.seen);
            }
        }
    }

    /// Marks a handle as visited in this commit.
    pub fn seen_file(&mut self, file: File)
        ensures
            final(self)@.seen == old(self)@.seen.insert(file@.rel),
            final(self)@.binary == old(self)@.binary,
            final(self)@.non_binary == old(self)@.non_binary,
    {
        let ghost fv = file@;
        self.seen.push(file);
        proof {
            assert forall|rel: Seq<char>|
                final(self)@.seen.contains(rel) == old(self)@.seen.insert(fv.rel).contains(
                    rel,
                ) by {
                if final(self)@.seen.contains(rel) {
                    let i = choose|i: int|
                        0 <= i < self.seen@.len() && (#[trigger] self.seen@[i])@.rel == rel;
                    if i < old(self).seen@.len() {
                        assert(old(self).seen@[i] == self.seen@[i]);
                        assert(old(self)@.seen.contains(rel));
                    }
                }
                if old(self)@.seen.contains(rel) {
                    let i = choose|i: int|
                        0 <= i < old(self).seen@.len() && (#[trigger] old(self).seen@[i])@.rel
                            == rel;
                    assert(self.seen@[i] == old(self).seen@[i]);
                    assert(final(self)@.seen.contains(rel));
                }
                if rel == fv.rel {
                    assert((#[trigger] self.seen@[self.seen@.len() - 1])@.rel == rel);
                    assert(final(self)@.seen.contains(rel));
                }
            }
            assert(final(self)@.seen =~= old(self)@.seen.insert(fv.rel));
            assert(files_view(self.binary@) =~= files_view(old(self).binary@));
            assert(files_view(self.non_binary@) =~= files_view(old(self).non_binary@));
        }
    }

    /// Whether a relative path was visited in this commit.
    pub fn saw(&self, file: &File) -> (r: bool)
        ensures
            r == self@.seen.contains(file@.rel),
    {
        let mut i: usize = 0;
        while i < self.seen.len()
            invariant
                i <= self.seen@.len(),
                forall|j: int| 0 <= j < i ==> (#[trigger] self.seen@[j])@.rel != file@.rel,
            decreases self.seen@.len() - i,
        {
            if self.seen[i].relative_path == file.relative_path {
                return true;
            }
            i = i + 1;
        }
        false
    }
}

/// The mathematical content of the global replay state: the shared bases and
/// the association from relative path to the blob identifier last written.
pub struct GlobalV {
    pub abs: Seq<char>,
    pub base: Seq<char>,
    pub known: Map<Seq<char>, Seq<char>>,
}

/// Global replay state: the run's environment, shared by every handle it
/// mints, and for every path written so far the blob identifier last written
/// there.
pub struct Global {
    absolute_base: String,
    cvs_base: String,
    known: Vec<(File, Oid)>,
}

/// The association a table of handle/identifier pairs holds.
pub open spec fn table_map(s: Seq<(File, Oid)>) -> Map<Seq<char>, Seq<char>> {
    Map::new(
        |rel: Seq<char>| exists|i: int| 0 <= i < s.len() && (#[trigger] s[i]).0@.rel == rel,
        |rel: Seq<char>|
            {
                let i = choose|i: int| 0 <= i < s.len() && (#[trigger] s[i]).0@.rel == rel;
                s[i].1@
            },
    )
}

/// Each relative path occurs at most once in the table.
pub open spec fn table_unique(s: Seq<(File, Oid)>) -> bool {
    forall|i: int, j: int|
        #![trigger s[i], s[j]]
        0 <= i < j < s.len() ==> (s[i]).0@.rel != (s[j]).0@.rel
}

/// Every handle in the table carries the environment's bases.
pub open spec fn table_env(s: Seq<(File, Oid)>, abs: Seq<char>, base: Seq<char>) -> bool {
    forall|i: int| 0 <= i < s.len() ==> (#[trigger] s[i]).0@.abs == abs && (s[i]).0@.base == base
}

impl View for Global {
    type V = GlobalV;

    closed spec fn view(&self) -> GlobalV {
        GlobalV {
            abs: self.absolute_base@,
            base: self.cvs_base@,
            known: table_map(self.known@),
        }
    }
}

proof fn lemma_table_lookup(s: Seq<(File, Oid)>, i: int)
    requires
        table_unique(s),
        0 <= i < s.len(),
    ensures
        table_map(s).contains_key(s[i].0@.rel),
        table_map(s)[s[i].0@.rel] == s[i].1@,
{
    let rel = s[i].0@.rel;
    assert(table_map(s).contains_key(rel));
    let j = choose|j: int| 0 <= j < s.len() && (#[trigger] s[j]).0@.rel == rel;
    if i < j {
        assert(s[i].0@.rel != s[j].0@.rel);
        assert(false);
    } else if j < i {
        assert(s[j].0@.rel != s[i].0@.rel);
        assert(false);
    }
}

impl Global {
    /// The table's bases agree with the environment and no path occurs twice.
    pub closed spec fn wf(&self) -> bool {
        table_unique(self.known@) && table_env(self.known@, self@.abs, self@.base)
    }

    pub fn new(tempdir: String, cvs_base: String) -> (r: Global)
        ensures
            r@.abs == tempdir@,
            r@.base == cvs_base@,
            r@.known =~= Map::<Seq<char>, Seq<char>>::empty(),
            r.wf(),
    {
        let r = Global { absolute_base: tempdir, cvs_base, known: Vec::new() };
        proof {
            assert forall|rel: Seq<char>| !r@.known.dom().contains(rel) by {}
            assert(r@.known =~= Map::<Seq<char>, Seq<char>>::empty());
        }
        r
    }

    /// Mints the handle for a relative path, sharing this state's bases.
    pub fn file(&self, path: &str) -> (r: File)
        ensures
            r@.rel == path@,
            r@.abs == self@.abs,
            r@.base == self@.base,
    {
        File {
            absolute_base: self.absolute_base.clone(),
            cvs_base: self.cvs_base.clone(),
            relative_path: String::from_str(path),
        }
    }

    /// The blob identifier last written for this handle's path, if any was.
    pub fn get_oid(&self, file: &File) -> (r: Option<&Oid>)
        requires
            self.wf(),
        ensures
            match r {
                Some(o) => self@.known.contains_key(file@.rel) && o@ == self@.known[file@.rel],
                None => !self@.known.contains_key(file@.rel),
            },
    {
        let mut i: usize = 0;
        while i < self.known.len()
            invariant
                self.wf(),
                i <= self.known@.len(),
                forall|j: int| 0 <= j < i ==> (#[trigger] self.known@[j]).0@.rel != file@.rel,
            decreases self.known@.len() - i,
        {
            if self.known[i].0.relative_path == file.relative_path {
                proof {
                    lemma_table_lookup(self.known@, i as int);
                }
                return Some(&self.known[i].1);
            }
            i = i + 1;
        }
        None
    }

    /// The position of the entry for this handle's path, if one exists.
    fn find_rel(&self, file: &File) -> (r: Option<usize>)
        ensures
            match r {
                Some(i) => i < self.known@.len() && self.known@[i as int].0@.rel == file@.rel,
                None => forall|j: int|
                    0 <= j < self.known@.len() ==> (#[trigger] self.known@[j]).0@.rel != file@.rel,
            },
    {
        let mut i: usize = 0;
        while i < self.known.len()
            invariant
                i <= self.known@.len(),
                forall|j: int| 0 <= j < i ==> (#[trigger] self.known@[j]).0@.rel != file@.rel,
            decreases self.known@.len() - i,
        {
            if self.known[i].0.relative_path == file.relative_path {
                return Some(i);
            }
            i = i + 1;
        }
        None
    }

    /// Records the blob identifier just written for this handle's path,
    /// replacing any earlier record.
    pub fn save_oid(&mut self, file: File, oid: &Oid)
        requires
            old(self).wf(),
            file@.abs == old(self)@.abs,
            file@.base == old(self)@.base,
        ensures
            final(self).wf(),
            final(self)@.abs == old(self)@.abs,
            final(self)@.base == old(self)@.base,
            final(self)@.known == old(self)@.known.insert(file@.rel, oid@),
    {
        let ghost fv = file@;
        let ghost ov = oid@;
        let ghost s0 = self.known@;
        match self.find_rel(&file) {
            Some(i) => {
                self.known.set(i, (file, oid.clone()));
                proof {
                    let s1 = self.known@;
                    assert(s1[i as int].0@ == fv && s1[i as int].1@ == ov);
                    assert(table_unique(s1)) by {
                        assert forall|p: int, q: int|
                            #![trigger s1[p], s1[q]]
                            0 <= p < q < s1.len() implies (s1[p]).0@.rel != (s1[q]).0@.rel by {
                            assert(s0[p].0@.rel == s1[p].0@.rel || p == i);
                            assert(s0[q].0@.rel == s1[q].0@.rel || q == i);
                            assert(s0[i as int].0@.rel == fv.rel);
                        }
                    }
                    let m2 = old(self)@.known.insert(fv.rel, ov);
                    assert_maps_equal!(table_map(s1), m2, rel => {
                        if rel == fv.rel {
                            lemma_table_lookup(s1, i as int);
                        } else {
                            if table_map(s1).dom().contains(rel) {
                                let j = choose|j: int|
                                    0 <= j < s1.len() && (#[trigger] s1[j]).0@.rel == rel;
                                assert(s0[j].0@.rel == rel);
                                lemma_table_lookup(s0, j);
                                lemma_table_lookup(s1, j);
                            }
                            if old(self)@.known.dom().contains(rel) {
                                let j = choose|j: int|
                                    0 <= j < s0.len() && (#[trigger] s0[j]).0@.rel == rel;
                                assert(s1[j].0@.rel == rel);
                                lemma_table_lookup(s0, j);
                                lemma_table_lookup(s1, j);
                            }
                        }
                    });
                }
            },
            None => {
                self.known.push((file, oid.clone()));
                proof {
                    let s1 = self.known@;
                    assert(s1[s1.len() - 1].0@ == fv && s1[s1.len() - 1].1@ == ov);
                    assert(table_unique(s1)) by {
                        assert forall|p: int, q: int|
                            #![trigger s1[p], s1[q]]
                            0 <= p < q < s1.len() implies (s1[p]).0@.rel != (s1[q]).0@.rel by {
                            if q < s1.len() - 1 {
                                assert(s0[p] == s1[p] && s0[q] == s1[q]);
                            } else {
                                assert(s0[p] == s1[p]);
                                assert(s1[q].0@.rel == fv.rel);
                            }
                        }
                    }
                    let m2 = old(self)@.known.insert(fv.rel, ov);
                    assert_maps_equal!(table_map(s1), m2, rel => {
                        if rel == fv.rel {
                            lemma_table_lookup(s1, s1.len() - 1);
                        } else {
                            if table_map(s1).dom().contains(rel) {
                                let j = choose|j: int|
                                    0 <= j < s1.len() && (#[trigger] s1[j]).0@.rel == rel;
                                assert(j < s0.len());
                                assert(s0[j].0@.rel == rel);
                                lemma_table_lookup(s0, j);
                                lemma_table_lookup(s1, j);
                            }
                            if old(self)@.known.dom().contains(rel) {
                                let j = choose|j: int|
                                    0 <= j < s0.len() && (#[trigger] s0[j]).0@.rel == rel;
                                assert(s1[j].0@.rel == rel);
                                lemma_table_lookup(s0, j);
                                lemma_table_lookup(s1, j);
                            }
                        }
                    });
                }
            },
        }
    }

    /// Removes from the global state every path not visited in the given
    /// commit and hands back their handles: the files deleted by the commit.
    /// What stays is exactly the visited part, unchanged.
    pub fn remove_files_unseen_in_commit(&mut self, commit: &Commit) -> (removed: Vec<File>)
        requires
            old(self).wf(),
        ensures
            final(self).wf(),
            final(self)@.abs == old(self)@.abs,
            final(self)@.base == old(self)@.base,
            final(self)@.known == old(self)@.known.restrict(commit@.seen),
            forall|i: int|
                0 <= i < removed@.len() ==> {
                    let fv = (#[trigger] removed@[i])@;
                    &&& old(self)@.known.contains_key(fv.rel)
                    &&& !commit@.seen.contains(fv.rel)
                    &&& fv.abs == old(self)@.abs
                    &&& fv.base == old(self)@.base
                },
            forall|rel: Seq<char>|
                old(self)@.known.contains_key(rel) && !commit@.seen.contains(rel) ==> exists|i: int|
                    0 <= i < removed@.len() && (#[trigger] removed@[i])@.rel == rel,
            forall|i: int, j: int|
                #![trigger removed@[i], removed@[j]]
                0 <= i < j < removed@.len() ==> removed@[i]@.rel != removed@[j]@.rel,
    {
        let ghost s0 = self.known@;
        let ghost env_abs = old(self)@.abs;
        let ghost env_base = old(self)@.base;
        let mut kept: Vec<(File, Oid)> = Vec::new();
        let mut removed: Vec<File> = Vec::new();
        let mut i: usize = 0;
        proof {
            assert(table_map(kept@) =~= table_map(s0.take(0)).restrict(commit@.seen)) by {
                assert forall|rel: Seq<char>| !table_map(kept@).dom().contains(rel) by {}
                assert forall|rel: Seq<char>|
                    !table_map(s0.take(0)).restrict(commit@.seen).dom().contains(rel) by {}
            }
        }
        while i < self.known.len()
            invariant
                self.known@ == s0,
                i <= s0.len(),
                table_unique(s0),
                table_env(s0, env_abs, env_base),
                table_unique(kept@),
                table_env(kept@, env_abs, env_base),
                table_map(kept@) == table_map(s0.take(i as int)).restrict(commit@.seen),
                forall|k: int|
                    0 <= k < kept@.len() ==> exists|l: int|
                        0 <= l < i && #[trigger] s0[l] == #[trigger] kept@[k],
                forall|k: int|
                    0 <= k < removed@.len() ==> !commit@.seen.contains(
                        (#[trigger] removed@[k])@.rel,
                    ) && exists|l: int|
                        0 <= l < i && (#[trigger] s0[l]).0@ == removed@[k]@,
                forall|l: int|
                    0 <= l < i && !commit@.seen.contains((#[trigger] s0[l]).0@.rel)
                        ==> exists|k: int|
                        0 <= k < removed@.len() && (#[trigger] removed@[k])@.rel == s0[l].0@.rel,
                forall|k1: int, k2: int|
                    #![trigger removed@[k1], removed@[k2]]
                    0 <= k1 < k2 < removed@.len() ==> removed@[k1]@.rel != removed@[k2]@.rel,
            decreases s0.len() - i,
        {
            let seen_here = commit.saw(&self.known[i].0);
            let ghost pre_kept = kept@;
            let ghost pre_removed = removed@;
            if seen_here {
                let pair = (self.known[i].0.clone(), self.known[i].1.clone());
                kept.push(pair);
                proof {
                    let p = kept@[kept@.len() - 1];
                    assert(p.0@ == s0[i as int].0@ && p.1@ == s0[i as int].1@);
                    assert(table_unique(kept@)) by {
                        assert forall|p1: int, q1: int|
                            #![trigger kept@[p1], kept@[q1]]
                            0 <= p1 < q1 < kept@.len() implies (kept@[p1]).0@.rel
                            != (kept@[q1]).0@.rel by {
                            if q1 == kept@.len() - 1 {
                                let l = choose|l: int|
                                    0 <= l < i && #[trigger] s0[l] == pre_kept[p1];
                                assert(s0[l].0@.rel != s0[i as int].0@.rel);
                            } else {
                                assert(pre_kept[p1] == kept@[p1] && pre_kept[q1] == kept@[q1]);
                            }
                        }
                    }
                    lemma_table_step_kept(s0, i as int, pre_kept, kept@, commit@.seen);
                }
            } else {
                removed.push(self.known[i].0.clone());
                proof {
                    assert(removed@[removed@.len() - 1]@ == s0[i as int].0@);
                    assert forall|k1: int, k2: int|
                        #![trigger removed@[k1], removed@[k2]]
                        0 <= k1 < k2 < removed@.len() implies removed@[k1]@.rel
                        != removed@[k2]@.rel by {
                        if k2 == removed@.len() - 1 {
                            let l = choose|l: int|
                                0 <= l < i && (#[trigger] s0[l]).0@ == pre_removed[k1]@;
                            assert(s0[l].0@.rel != s0[i as int].0@.rel);
                        } else {
                            assert(pre_removed[k1] == removed@[k1] && pre_removed[k2]
                                == removed@[k2]);
                        }
                    }
                    lemma_table_step_removed(s0, i as int, kept@, commit@.seen);
                    assert forall|k: int| 0 <= k < pre_removed.len() implies removed@[k]
                        == pre_removed[k] by {}
                    assert forall|l: int|
                        0 <= l < i + 1 && !commit@.seen.contains(
                            (#[trigger] s0[l]).0@.rel,
                        ) implies exists|k: int|
                        0 <= k < removed@.len() && (#[trigger] removed@[k])@.rel
                            == s0[l].0@.rel by {
                        if l < i {
                            let k = choose|k: int|
                                0 <= k < pre_removed.len() && (#[trigger] pre_removed[k])@.rel
                                    == s0[l].0@.rel;
                            assert(removed@[k] == pre_removed[k]);
                            assert((removed@[k])@.rel == s0[l].0@.rel);
                        } else {
                            assert((removed@[removed@.len() - 1])@.rel == s0[l].0@.rel);
                        }
                    }
                }
            }
            i = i + 1;
        }
        proof {
            assert(s0.take(s0.len() as int) =~= s0);
            assert forall|rel: Seq<char>|
                old(self)@.known.contains_key(rel) && !commit@.seen.contains(
                    rel,
                ) implies exists|k: int|
                0 <= k < removed@.len() && (#[trigger] removed@[k])@.rel == rel by {
                let l = choose|l: int| 0 <= l < s0.len() && (#[trigger] s0[l]).0@.rel == rel;
                assert(!commit@.seen.contains(s0[l].0@.rel));
            }
            assert forall|k: int| 0 <= k < removed@.len() implies {
                let fv = (#[trigger] removed@[k])@;
                &&& old(self)@.known.contains_key(fv.rel)
                &&& !commit@.seen.contains(fv.rel)
                &&& fv.abs == env_abs
                &&& fv.base == env_base
            } by {
                let l = choose|l: int| 0 <= l < s0.len() && (#[trigger] s0[l]).0@ == removed@[k]@;
                lemma_table_lookup(s0, l);
            }
        }
        self.known = kept;
        removed
    }
}

/// Extending the processed prefix by a visited pair extends the kept table by
/// exactly that pair.
proof fn lemma_table_step_kept(
    s0: Seq<(File, Oid)>,
    i: int,
    pre_kept: Seq<(File, Oid)>,
    kept: Seq<(File, Oid)>,
    seen: Set<Seq<char>>,
)
    requires
        table_unique(s0),
        0 <= i < s0.len(),
        seen.contains(s0[i].0@.rel),
        kept == pre_kept.push(kept[kept.len() - 1]),
        kept.len() == pre_kept.len() + 1,
        kept[kept.len() - 1].0@ == s0[i].0@,
        kept[kept.len() - 1].1@ == s0[i].1@,
        table_unique(kept),
        table_map(pre_kept) == table_map(s0.take(i)).restrict(seen),
    ensures
        table_map(kept) == table_map(s0.take(i + 1)).restrict(seen),
{
    let t1 = s0.take(i + 1);
    let t0 = s0.take(i);
    assert(t1 =~= t0.push(s0[i]));
    assert(table_unique(pre_kept)) by {
        assert forall|p: int, q: int|
            #![trigger pre_kept[p], pre_kept[q]]
            0 <= p < q < pre_kept.len() implies (pre_kept[p]).0@.rel != (pre_kept[q]).0@.rel by {
            assert(pre_kept[p] == kept[p] && pre_kept[q] == kept[q]);
        }
    }
    assert(table_unique(t1)) by {
        assert forall|p: int, q: int|
            #![trigger t1[p], t1[q]]
            0 <= p < q < t1.len() implies (t1[p]).0@.rel != (t1[q]).0@.rel by {
            assert(t1[p] == s0[p] && t1[q] == s0[q]);
        }
    }
    assert(table_unique(t0)) by {
        assert forall|p: int, q: int|
            #![trigger t0[p], t0[q]]
            0 <= p < q < t0.len() implies (t0[p]).0@.rel != (t0[q]).0@.rel by {
            assert(t0[p] == s0[p] && t0[q] == s0[q]);
        }
    }
    assert_maps_equal!(table_map(kept), table_map(t1).restrict(seen), rel => {
        if rel == s0[i].0@.rel {
            lemma_table_lookup(kept, kept.len() - 1);
            lemma_table_lookup(t1, i);
        } else {
            if table_map(kept).dom().contains(rel) {
                let k = choose|k: int| 0 <= k < kept.len() && (#[trigger] kept[k]).0@.rel == rel;
                assert(k < pre_kept.len() && pre_kept[k] == kept[k]);
                lemma_table_lookup(kept, k);
                lemma_table_lookup(pre_kept, k);
                assert(table_map(pre_kept).dom().contains(rel));
            }
            if table_map(pre_kept).dom().contains(rel) {
                let k = choose|k: int|
                    0 <= k < pre_kept.len() && (#[trigger] pre_kept[k]).0@.rel == rel;
                assert(kept[k] == pre_kept[k]);
                lemma_table_lookup(pre_kept, k);
                lemma_table_lookup(kept, k);
                assert(table_map(kept).dom().contains(rel));
            }
            if table_map(t1).dom().contains(rel) {
                let l = choose|l: int| 0 <= l < t1.len() && (#[trigger] t1[l]).0@.rel == rel;
                assert(l < i && t0[l] == t1[l]);
                assert(table_map(t0).dom().contains(rel));
                lemma_table_lookup(t1, l);
                lemma_table_lookup(t0, l);
            }
            if table_map(t0).dom().contains(rel) {
                let l = choose|l: int| 0 <= l < t0.len() && (#[trigger] t0[l]).0@.rel == rel;
                assert(t1[l] == t0[l]);
                assert(table_map(t1).dom().contains(rel));
            }
        }
    });
}

/// Extending the processed prefix by an unvisited pair leaves the kept table
/// as it stands.
proof fn lemma_table_step_removed(s0: Seq<(File, Oid)>, i: int, kept: Seq<(File, Oid)>, seen: Set<
    Seq<char>,
>)
    requires
        table_unique(s0),
        0 <= i < s0.len(),
        !seen.contains(s0[i].0@.rel),
        table_map(kept) == table_map(s0.take(i)).restrict(seen),
    ensures
        table_map(kept) == table_map(s0.take(i + 1)).restrict(seen),
{
    let t1 = s0.take(i + 1);
    let t0 = s0.take(i);
    assert(t1 =~= t0.push(s0[i]));
    assert(table_unique(t1)) by {
        assert forall|p: int, q: int|
            #![trigger t1[p], t1[q]]
            0 <= p < q < t1.len() implies (t1[p]).0@.rel != (t1[q]).0@.rel by {
            assert(t1[p] == s0[p] && t1[q] == s0[q]);
        }
    }
    assert(table_unique(t0)) by {
        assert forall|p: int, q: int|
            #![trigger t0[p], t0[q]]
            0 <= p < q < t0.len() implies (t0[p]).0@.rel != (t0[q]).0@.rel by {
            assert(t0[p] == s0[p] && t0[q] == s0[q]);
        }
    }
    assert_maps_equal!(table_map(t0).restrict(seen), table_map(t1).restrict(seen), rel => {
        if rel == s0[i].0@.rel {
        } else {
            if table_map(t0).dom().contains(rel) {
                let l = choose|l: int| 0 <= l < t0.len() && (#[trigger] t0[l]).0@.rel == rel;
                assert(t1[l] == t0[l]);
                lemma_table_lookup(t0, l);
                lemma_table_lookup(t1, l);
            }
            if table_map(t1).dom().contains(rel) {
                let l = choose|l: int| 0 <= l < t1.len() && (#[trigger] t1[l]).0@.rel == rel;
                assert(l < i && t0[l] == t1[l]);
                lemma_table_lookup(t0, l);
                lemma_table_lookup(t1, l);
            }
        }
    });
    assert(table_map(kept) =~= table_map(t1).restrict(seen));
}

} // verus!
