//! The registry indexing and version-resolution engine: a durable mapping
//! from content-addressed subtree identifiers to the package and commit
//! that introduced them, built by replaying the registry's commit log, and
//! the version-provenance join over it.

use vstd::prelude::*;

use crate::util::kv;
use crate::util::text;

verus! {

// ---------------------------------------------------------------------------
// Commits
// ---------------------------------------------------------------------------
/// One historical commit of the registry: its hash and its timestamp text.
#[derive(Clone, Debug)]
pub struct GitCommitInfo {
    pub hash: String,
    pub date_time: String,
}

pub struct GitCommitView {
    pub hash: Seq<char>,
    pub date_time: Seq<char>,
}

impl View for GitCommitInfo {
    type V = GitCommitView;

    open spec fn view(&self) -> GitCommitView {
        GitCommitView { hash: self.hash@, date_time: self.date_time@ }
    }
}

impl GitCommitInfo {
    /// The empty commit record that a fresh index starts from.
    pub fn new_empty() -> (r: Self)
        ensures
            r@.hash == Seq::<char>::empty(),
            r@.date_time == Seq::<char>::empty(),
    {
        GitCommitInfo { hash: String::new(), date_time: String::new() }
    }
}

// ---------------------------------------------------------------------------
// Version texts
// ---------------------------------------------------------------------------
/// `baseline` with `#<revision>` appended when the revision is non-zero.
pub open spec fn spec_format_version(baseline: Seq<char>, port_version: u32) -> Seq<char> {
    if port_version == 0 {
        baseline
    } else {
        baseline + seq!['#'] + text::dec_digits(port_version as nat)
    }
}

/// A package's published latest version: the baseline version string and
/// the numeric port revision.
#[derive(Clone, Debug)]
pub struct VcpkgPortVersion {
    pub baseline: String,
    pub port_version: u32,
}

pub struct PortVersionView {
    pub baseline: Seq<char>,
    pub port_version: u32,
}

impl View for VcpkgPortVersion {
    type V = PortVersionView;

    open spec fn view(&self) -> PortVersionView {
        PortVersionView { baseline: self.baseline@, port_version: self.port_version }
    }
}

impl VcpkgPortVersion {
    /// The version as shown to users: revision 0 is the bare version,
    /// a non-zero revision is appended after `#`.
    pub fn format_version_text(&self) -> (r: String)
        ensures
            r@ == spec_format_version(self.baseline@, self.port_version),
    {
        if self.port_version == 0 {
            self.baseline.clone()
        } else {
            let mut s = self.baseline.clone();
            s.append("#");
            let digits = text::u32_to_dec_string(self.port_version);
            s.append(digits.as_str());
            proof {
                reveal_strlit("#");
                assert(s@ =~= spec_format_version(self.baseline@, self.port_version));
            }
            s
        }
    }
}

/// One entry of a package's version history: the subtree identifier the
/// version was published under, exactly one of several version encodings,
/// and the port revision.
#[derive(Clone, Debug)]
pub struct VcpkgPortTreeVersion {
    pub git_tree: String,
    pub version: Option<String>,
    pub version_date: Option<String>,
    pub version_semver: Option<String>,
    pub version_string: Option<String>,
    pub port_version: u32,
}

pub struct PortTreeVersionView {
    pub git_tree: Seq<char>,
    pub version: Option<Seq<char>>,
    pub version_date: Option<Seq<char>>,
    pub version_semver: Option<Seq<char>>,
    pub version_string: Option<Seq<char>>,
    pub port_version: u32,
}

impl View for VcpkgPortTreeVersion {
    type V = PortTreeVersionView;

    open spec fn view(&self) -> PortTreeVersionView {
        PortTreeVersionView {
            git_tree: self.git_tree@,
            version: match self.version {
                Some(ref v) => Some(v@),
                None => None,
            },
            version_date: match self.version_date {
                Some(ref v) => Some(v@),
                None => None,
            },
            version_semver: match self.version_semver {
                Some(ref v) => Some(v@),
                None => None,
            },
            version_string: match self.version_string {
                Some(ref v) => Some(v@),
                None => None,
            },
            port_version: self.port_version,
        }
    }
}

impl PortTreeVersionView {
    /// The version encoding this entry carries: the plain version, else the
    /// date version, else the raw string, else the semantic version.
    pub open spec fn chosen_version_text(self) -> Seq<char> {
        if self.version is Some {
            self.version.unwrap()
        } else if self.version_date is Some {
            self.version_date.unwrap()
        } else if self.version_string is Some {
            self.version_string.unwrap()
        } else if self.version_semver is Some {
            self.version_semver.unwrap()
        } else {
            Seq::<char>::empty()
        }
    }
}

impl VcpkgPortTreeVersion {
    /// The version as shown to users, from whichever encoding the entry
    /// carries, with the `#<revision>` suffix for a non-zero revision.
    pub fn format_version_text(&self) -> (r: String)
        ensures
            r@ == spec_format_version(self@.chosen_version_text(), self.port_version),
    {
        let mut s = String::new();
        if let Some(v) = &self.version {
            s = v.clone();
        } else if let Some(v) = &self.version_date {
            s = v.clone();
        } else if let Some(v) = &self.version_string {
            s = v.clone();
        } else if let Some(v) = &self.version_semver {
            s = v.clone();
        }
        if self.port_version == 0 {
            s
        } else {
            s.append("#");
            let digits = text::u32_to_dec_string(self.port_version);
            s.append(digits.as_str());
            proof {
                reveal_strlit("#");
                assert(s@ =~= spec_format_version(self@.chosen_version_text(), self.port_version));
            }
            s
        }
    }
}

/// A package's full version history, oldest last, as published upstream.
#[derive(Clone, Debug)]
pub struct VcpkgPortVersions {
    pub versions: Vec<VcpkgPortTreeVersion>,
}

// ---------------------------------------------------------------------------
// Baseline
// ---------------------------------------------------------------------------
/// The registry's published table of each package's current version.
#[derive(Clone, Debug)]
pub struct VcpkgBaseline {
    pub default: Vec<(String, VcpkgPortVersion)>,
}

impl VcpkgBaseline {
    /// Package names are unique.
    pub open spec fn wf(&self) -> bool {
        kv::kv_keys_unique(self.default@)
    }

    /// The table as a map from package name to version.
    pub open spec fn as_map(&self) -> Map<Seq<char>, PortVersionView> {
        kv::kv_map(self.default@)
    }

    pub fn new_empty() -> (r: Self)
        ensures
            r.wf(),
            r.as_map() == Map::<Seq<char>, PortVersionView>::empty(),
            r.default@.len() == 0,
    {
        VcpkgBaseline { default: Vec::new() }
    }

    /// The version entry published for `name`.
    pub fn get_version(&self, name: &str) -> (r: Option<&VcpkgPortVersion>)
        requires
            self.wf(),
        ensures
            match r {
                Some(v) => self.as_map().contains_key(name@) && v@ == self.as_map()[name@],
                None => !self.as_map().contains_key(name@),
            },
    {
        kv::kv_lookup(&self.default, name)
    }
}

// ---------------------------------------------------------------------------
// Git-Tree Index
// ---------------------------------------------------------------------------
/// The provenance of one subtree identifier: the package it belongs to and
/// the commit that introduced it.
#[derive(Clone, Debug)]
pub struct VcpkgGitTreeInfo {
    pub port_name: String,
    pub commit_hash: String,
    pub commit_date_time: String,
}

pub struct GitTreeInfoView {
    pub port_name: Seq<char>,
    pub commit_hash: Seq<char>,
    pub commit_date_time: Seq<char>,
}

impl View for VcpkgGitTreeInfo {
    type V = GitTreeInfoView;

    open spec fn view(&self) -> GitTreeInfoView {
        GitTreeInfoView {
            port_name: self.port_name@,
            commit_hash: self.commit_hash@,
            commit_date_time: self.commit_date_time@,
        }
    }
}

pub struct GitTreeIndexView {
    pub index: Map<Seq<char>, GitTreeInfoView>,
    pub check_point: GitCommitView,
}

/// The durable map from subtree identifier to provenance, with the last
/// fully processed commit as its checkpoint. Entries are append-only:
/// once an identifier is recorded its provenance never changes.
#[derive(Clone, Debug)]
pub struct VcpkgGitTreeIndex {
    index: Vec<(String, VcpkgGitTreeInfo)>,
    check_point: GitCommitInfo,
}

impl View for VcpkgGitTreeIndex {
    type V = GitTreeIndexView;

    closed spec fn view(&self) -> GitTreeIndexView {
        GitTreeIndexView { index: kv::kv_map(self.index@), check_point: self.check_point@ }
    }
}

impl VcpkgGitTreeIndex {
    /// Subtree identifiers are unique among the stored entries.
    pub closed spec fn wf(&self) -> bool {
        kv::kv_keys_unique(self.index@)
    }

    /// The empty index with the empty checkpoint.
    pub fn new() -> (r: Self)
        ensures
            r.wf(),
            r@.index == Map::<Seq<char>, GitTreeInfoView>::empty(),
            r@.check_point.hash == Seq::<char>::empty(),
            r@.check_point.date_time == Seq::<char>::empty(),
    {
        VcpkgGitTreeIndex { index: Vec::new(), check_point: GitCommitInfo::new_empty() }
    }

    /// Rebuilds an index from stored entries and a stored checkpoint; where
    /// a duplicate identifier occurs, the first entry wins.
    pub fn from_entries(entries: Vec<(String, VcpkgGitTreeInfo)>, check_point: GitCommitInfo) -> (r:
        Self)
        ensures
            r.wf(),
            r@.index == insert_absent_all(
                Map::<Seq<char>, GitTreeInfoView>::empty(),
                entries@.map_values(|e: (String, VcpkgGitTreeInfo)| (e.0@, e.1@)),
            ),
            r@.check_point == check_point@,
    {
        let ghost pairs = entries@.map_values(|e: (String, VcpkgGitTreeInfo)| (e.0@, e.1@));
        let mut r = VcpkgGitTreeIndex { index: Vec::new(), check_point };
        let n = entries.len();
        let mut i: usize = 0;
        while i < n
            invariant
                0 <= i <= n,
                n == entries@.len(),
                pairs == entries@.map_values(|e: (String, VcpkgGitTreeInfo)| (e.0@, e.1@)),
                r.wf(),
                r@.index == insert_absent_all(
                    Map::<Seq<char>, GitTreeInfoView>::empty(),
                    pairs.take(i as int),
                ),
                r@.check_point == check_point@,
            decreases n - i,
        {
            let id = entries[i].0.clone();
            let info = VcpkgGitTreeInfo {
                port_name: entries[i].1.port_name.clone(),
                commit_hash: entries[i].1.commit_hash.clone(),
                commit_date_time: entries[i].1.commit_date_time.clone(),
            };
            r.insert_if_absent(id, info);
            proof {
                lemma_insert_absent_all_snoc(
                    Map::<Seq<char>, GitTreeInfoView>::empty(),
                    pairs,
                    i as int,
                );
                assert(pairs.take(i + 1).drop_last() =~= pairs.take(i as int));
            }
            i = i + 1;
        }
        proof {
            assert(pairs.take(n as int) =~= pairs);
        }
        r
    }

    /// The provenance recorded for `git_tree`, if any. Exact match only.
    pub fn lookup(&self, git_tree: &str) -> (r: Option<&VcpkgGitTreeInfo>)
        requires
            self.wf(),
        ensures
            match r {
                Some(info) => self@.index.contains_key(git_tree@) && info@ == self@.index[git_tree@],
                None => !self@.index.contains_key(git_tree@),
            },
    {
        kv::kv_lookup(&self.index, git_tree)
    }

    /// Records provenance for `git_tree` unless the identifier is already
    /// present; returns whether it was newly added (first writer wins).
    pub fn insert_if_absent(&mut self, git_tree: String, info: VcpkgGitTreeInfo) -> (added: bool)
        requires
            old(self).wf(),
        ensures
            final(self).wf(),
            added == !old(self)@.index.contains_key(git_tree@),
            final(self)@.index == if added {
                old(self)@.index.insert(git_tree@, info@)
            } else {
                old(self)@.index
            },
            final(self)@.check_point == old(self)@.check_point,
    {
        let absent = self.lookup(git_tree.as_str()).is_none();
        if absent {
            proof {
                kv::lemma_kv_map_domain(self.index@, git_tree@);
                kv::lemma_kv_unique_push(self.index@, git_tree, info);
            }
            let ghost before = self.index@;
            self.index.push((git_tree, info));
            proof {
                kv::lemma_kv_map_push(before, self.index@.last().0, self.index@.last().1);
                assert(self.index@.drop_last() =~= before);
            }
            true
        } else {
            false
        }
    }

    /// The number of subtree identifiers recorded.
    pub fn len(&self) -> (n: usize)
        requires
            self.wf(),
        ensures
            n == self@.index.dom().len(),
    {
        proof {
            kv::lemma_kv_map_len(self.index@);
        }
        self.index.len()
    }

    /// The stored entries, for persistence: one per subtree identifier.
    pub fn entries(&self) -> (r: &Vec<(String, VcpkgGitTreeInfo)>)
        ensures
            kv::kv_map(r@) == self@.index,
            self.wf() ==> kv::kv_keys_unique(r@),
    {
        &self.index
    }

    /// The checkpoint: the last commit fully incorporated into the index.
    pub fn check_point(&self) -> (r: &GitCommitInfo)
        ensures
            r@ == self@.check_point,
    {
        &self.check_point
    }

    /// Moves the checkpoint to `c`; the entries are untouched.
    pub fn set_check_point(&mut self, c: &GitCommitInfo)
        requires
            old(self).wf(),
        ensures
            final(self).wf(),
            final(self)@.index == old(self)@.index,
            final(self)@.check_point == c@,
    {
        self.check_point = GitCommitInfo {
            hash: c.hash.clone(),
            date_time: c.date_time.clone(),
        };
    }

    /// Incorporates one commit: every (identifier, package) pair that is not
    /// yet present is recorded with this commit as its provenance, existing
    /// identifiers are left untouched, and the checkpoint moves to the
    /// commit, which is then fully processed.
    pub fn apply_commit(&mut self, commit: &GitCommitInfo, trees: &Vec<(String, String)>)
        requires
            old(self).wf(),
        ensures
            final(self).wf(),
            final(self)@.index == apply_trees(
                old(self)@.index,
                commit@,
                trees@.map_values(|p: (String, String)| (p.0@, p.1@)),
            ),
            final(self)@.check_point == commit@,
    {
        let ghost pairs = trees@.map_values(|p: (String, String)| (p.0@, p.1@));
        let ghost m0 = self@.index;
        let n = trees.len();
        let mut i: usize = 0;
        while i < n
            invariant
                0 <= i <= n,
                n == trees@.len(),
                pairs == trees@.map_values(|p: (String, String)| (p.0@, p.1@)),
                self.wf(),
                self@.index == apply_trees(m0, commit@, pairs.take(i as int)),
                self@.check_point == old(self)@.check_point,
            decreases n - i,
        {
            let git_tree = trees[i].0.clone();
            let info = VcpkgGitTreeInfo {
                port_name: trees[i].1.clone(),
                commit_hash: commit.hash.clone(),
                commit_date_time: commit.date_time.clone(),
            };
            self.insert_if_absent(git_tree, info);
            proof {
                lemma_apply_trees_snoc(m0, commit@, pairs, i as int);
                assert(pairs.take(i + 1).drop_last() =~= pairs.take(i as int));
            }
            i = i + 1;
        }
        proof {
            assert(pairs.take(n as int) =~= pairs);
        }
        self.set_check_point(commit);
    }
}

// ---------------------------------------------------------------------------
// The replay model
// ---------------------------------------------------------------------------
/// Inserts each (identifier, provenance) pair whose identifier is absent;
/// identifiers already bound keep their value.
pub open spec fn insert_absent_all(
    m: Map<Seq<char>, GitTreeInfoView>,
    pairs: Seq<(Seq<char>, GitTreeInfoView)>,
) -> Map<Seq<char>, GitTreeInfoView>
    decreases pairs.len(),
{
    if pairs.len() == 0 {
        m
    } else {
        let prev = insert_absent_all(m, pairs.drop_last());
        let last = pairs.last();
        if prev.contains_key(last.0) {
            prev
        } else {
            prev.insert(last.0, last.1)
        }
    }
}

proof fn lemma_insert_absent_all_snoc(
    m: Map<Seq<char>, GitTreeInfoView>,
    pairs: Seq<(Seq<char>, GitTreeInfoView)>,
    i: int,
)
    requires
        0 <= i < pairs.len(),
    ensures
        insert_absent_all(m, pairs.take(i + 1)) == (if insert_absent_all(
            m,
            pairs.take(i),
        ).contains_key(pairs[i].0) {
            insert_absent_all(m, pairs.take(i))
        } else {
            insert_absent_all(m, pairs.take(i)).insert(pairs[i].0, pairs[i].1)
        }),
{
    assert(pairs.take(i + 1).drop_last() =~= pairs.take(i));
    assert(pairs.take(i + 1).last() == pairs[i]);
}

/// The provenance a commit's crawl gives to each pair it introduces.
pub open spec fn provenance_of(c: GitCommitView, port_name: Seq<char>) -> GitTreeInfoView {
    GitTreeInfoView { port_name: port_name, commit_hash: c.hash, commit_date_time: c.date_time }
}

/// Incorporates one commit's (identifier, package) pairs into the map,
/// first writer winning.
pub open spec fn apply_trees(
    m: Map<Seq<char>, GitTreeInfoView>,
    c: GitCommitView,
    trees: Seq<(Seq<char>, Seq<char>)>,
) -> Map<Seq<char>, GitTreeInfoView> {
    insert_absent_all(m, trees.map_values(|p: (Seq<char>, Seq<char>)| (p.0, provenance_of(c, p.1))))
}

proof fn lemma_apply_trees_snoc(
    m: Map<Seq<char>, GitTreeInfoView>,
    c: GitCommitView,
    trees: Seq<(Seq<char>, Seq<char>)>,
    i: int,
)
    requires
        0 <= i < trees.len(),
    ensures
        apply_trees(m, c, trees.take(i + 1)) == (if apply_trees(m, c, trees.take(i)).contains_key(
            trees[i].0,
        ) {
            apply_trees(m, c, trees.take(i))
        } else {
            apply_trees(m, c, trees.take(i)).insert(trees[i].0, provenance_of(c, trees[i].1))
        }),
{
    let f = |p: (Seq<char>, Seq<char>)| (p.0, provenance_of(c, p.1));
    assert(trees.take(i + 1).map_values(f) =~= trees.map_values(f).take(i + 1));
    assert(trees.take(i).map_values(f) =~= trees.map_values(f).take(i));
    lemma_insert_absent_all_snoc(m, trees.map_values(f), i);
}

} // verus!
