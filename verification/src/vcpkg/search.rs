//! The search index: a pair of character tries over package names (forward
//! for prefix queries, reversed for suffix queries), a snapshot of the
//! published baseline, and a checkpoint commit that makes rebuilds cheap
//! to skip when nothing changed upstream.

use vstd::prelude::*;

use basic_trie::DataTrie;

use crate::util::kv;
use crate::util::text;
use crate::vcpkg::index::{
    GitCommitInfo, GitCommitView, PortVersionView, VcpkgBaseline, VcpkgPortVersion,
};
use crate::vcpkg::trie;

verus! {

pub struct SearchIndexView {
    pub prefix_words: Set<Seq<char>>,
    pub postfix_entries: Set<(Seq<char>, Seq<char>)>,
    pub baseline: Map<Seq<char>, PortVersionView>,
    pub check_point: GitCommitView,
}

/// The package names a baseline adds to the forward trie.
pub open spec fn baseline_names(b: Map<Seq<char>, PortVersionView>) -> Set<Seq<char>> {
    Set::new(|n: Seq<char>| b.contains_key(n))
}

/// The package-name pairs a baseline adds to the reversed trie: each name
/// keyed by its character-reversed form.
pub open spec fn reversed_name_pairs(b: Map<Seq<char>, PortVersionView>) -> Set<
    (Seq<char>, Seq<char>),
> {
    Set::new(
        |e: (Seq<char>, Seq<char>)|
            exists|n: Seq<char>| #[trigger] b.contains_key(n) && e.0 == n.reverse() && e.1 == n,
    )
}

/// What a rebuild leaves behind: nothing when the baseline's source commit
/// is not newer than the checkpoint; otherwise both tries extended with
/// every package name, the baseline snapshot replaced, and the checkpoint
/// advanced to the source commit.
pub open spec fn rebuilt(
    s: SearchIndexView,
    latest: GitCommitView,
    b: Map<Seq<char>, PortVersionView>,
) -> SearchIndexView {
    if text::lex_le(latest.hash, s.check_point.hash) {
        s
    } else {
        SearchIndexView {
            prefix_words: s.prefix_words.union(baseline_names(b)),
            postfix_entries: s.postfix_entries.union(reversed_name_pairs(b)),
            baseline: b,
            check_point: latest,
        }
    }
}

/// The queryable name index: a forward trie and a reversed trie over the
/// package names of the embedded baseline snapshot.
pub struct VcpkgSearchIndex {
    pub prefix_trie: DataTrie<String>,
    pub postfix_trie: DataTrie<String>,
    pub baseline: VcpkgBaseline,
    check_point: GitCommitInfo,
}

impl View for VcpkgSearchIndex {
    type V = SearchIndexView;

    closed spec fn view(&self) -> SearchIndexView {
        SearchIndexView {
            prefix_words: trie::trie_words(self.prefix_trie),
            postfix_entries: trie::trie_entries(self.postfix_trie),
            baseline: self.baseline.as_map(),
            check_point: self.check_point@,
        }
    }
}

impl VcpkgSearchIndex {
    pub closed spec fn wf(&self) -> bool {
        self.baseline.wf()
    }

    /// The empty search index with the empty checkpoint.
    pub fn new() -> (r: Self)
        ensures
            r.wf(),
            r@.prefix_words == Set::<Seq<char>>::empty(),
            r@.postfix_entries == Set::<(Seq<char>, Seq<char>)>::empty(),
            r@.baseline == Map::<Seq<char>, PortVersionView>::empty(),
            r@.check_point.hash == Seq::<char>::empty(),
    {
        VcpkgSearchIndex {
            prefix_trie: trie::trie_new(),
            postfix_trie: trie::trie_new(),
            baseline: VcpkgBaseline::new_empty(),
            check_point: GitCommitInfo::new_empty(),
        }
    }

    /// Rebuilds a search index from its stored parts.
    pub fn from_parts(
        prefix_trie: DataTrie<String>,
        postfix_trie: DataTrie<String>,
        baseline: VcpkgBaseline,
        check_point: GitCommitInfo,
    ) -> (r: Self)
        requires
            baseline.wf(),
        ensures
            r.wf(),
            r@.prefix_words == trie::trie_words(prefix_trie),
            r@.postfix_entries == trie::trie_entries(postfix_trie),
            r@.baseline == baseline.as_map(),
            r@.check_point == check_point@,
    {
        VcpkgSearchIndex { prefix_trie, postfix_trie, baseline, check_point }
    }

    /// Takes the index apart for persistence.
    pub fn into_parts(self) -> (r: (DataTrie<String>, DataTrie<String>, VcpkgBaseline,
        GitCommitInfo))
        ensures
            trie::trie_words(r.0) == self@.prefix_words,
            trie::trie_entries(r.1) == self@.postfix_entries,
            r.2.as_map() == self@.baseline,
            r.3@ == self@.check_point,
    {
        (self.prefix_trie, self.postfix_trie, self.baseline, self.check_point)
    }

    /// The checkpoint: the source commit of the embedded baseline snapshot.
    pub fn check_point(&self) -> (r: &GitCommitInfo)
        ensures
            r@ == self@.check_point,
    {
        &self.check_point
    }

    /// Every package name whose trie word begins with `query`.
    pub fn search_prefix(&self, query: &str) -> (r: Vec<String>)
        ensures
            forall|w: Seq<char>|
                #![all_triggers]
                r@.map_values(|s: String| s@).contains(w) <==> trie::words_with_prefix(
                    self@.prefix_words,
                    query@,
                ).contains(w),
    {
        match trie::trie_get(&self.prefix_trie, query) {
            Some(words) => words,
            None => {
                let r: Vec<String> = Vec::new();
                proof {
                    assert(r@.map_values(|s: String| s@) =~= Seq::<Seq<char>>::empty());
                }
                r
            },
        }
    }

    /// Every package name whose reversed form begins with the reversed
    /// query: the names that contain `query` as a suffix of their tail.
    pub fn search_contains_suffix(&self, query: &str) -> (r: Vec<String>)
        ensures
            forall|d: Seq<char>|
                #![all_triggers]
                r@.map_values(|s: String| s@).contains(d) <==> trie::data_with_prefix(
                    self@.postfix_entries,
                    query@.reverse(),
                ).contains(d),
    {
        let reversed = text::reverse_string(query);
        match trie::trie_get_data(&self.postfix_trie, reversed.as_str()) {
            Some(items) => items,
            None => {
                let r: Vec<String> = Vec::new();
                proof {
                    assert(r@.map_values(|s: String| s@) =~= Seq::<Seq<char>>::empty());
                }
                r
            },
        }
    }

    /// Rebuilds the index from `baseline` unless its source commit
    /// `latest_commit` is not newer than the stored checkpoint, in which
    /// case the index is left exactly as it is. A rebuild inserts every
    /// package name into both tries, replaces the baseline snapshot, and
    /// advances the checkpoint to the source commit.
    pub fn rebuild_if_stale(&mut self, latest_commit: &GitCommitInfo, baseline: VcpkgBaseline)
        requires
            old(self).wf(),
            baseline.wf(),
        ensures
            final(self).wf(),
            final(self)@ == rebuilt(old(self)@, latest_commit@, baseline.as_map()),
    {
        if text::str_le(latest_commit.hash.as_str(), self.check_point.hash.as_str()) {
            return ;
        }
        let ghost b = baseline.as_map();
        let ghost p0 = self@.prefix_words;
        let ghost q0 = self@.postfix_entries;
        let n = baseline.default.len();
        let mut i: usize = 0;
        while i < n
            invariant
                0 <= i <= n,
                n == baseline.default@.len(),
                baseline.wf(),
                b == baseline.as_map(),
                self.wf(),
                self@.prefix_words =~= p0.union(taken_names(baseline.default@, i as int)),
                self@.postfix_entries =~= q0.union(
                    taken_reversed_name_pairs(baseline.default@, i as int),
                ),
                self@.baseline == old(self)@.baseline,
                self@.check_point == old(self)@.check_point,
            decreases n - i,
        {
            let name = baseline.default[i].0.clone();
            trie::trie_insert(&mut self.prefix_trie, name.as_str(), name.clone());
            let reversed = text::reverse_string(name.as_str());
            trie::trie_insert(&mut self.postfix_trie, reversed.as_str(), name.clone());
            proof {
                assert(self@.prefix_words =~= p0.union(taken_names(baseline.default@, i + 1)));
                assert(self@.postfix_entries =~= q0.union(
                    taken_reversed_name_pairs(baseline.default@, i + 1),
                ));
            }
            i = i + 1;
        }
        proof {
            assert(taken_names(baseline.default@, n as int) =~= baseline_names(b)) by {
                assert forall|nm: Seq<char>|
                    taken_names(baseline.default@, n as int).contains(nm) <==> baseline_names(
                        b,
                    ).contains(nm) by {
                    kv::lemma_kv_map_domain(baseline.default@, nm);
                }
            }
            assert(taken_reversed_name_pairs(baseline.default@, n as int) =~= reversed_name_pairs(
                b,
            )) by {
                assert forall|e: (Seq<char>, Seq<char>)|
                    taken_reversed_name_pairs(baseline.default@, n as int).contains(e)
                        implies reversed_name_pairs(b).contains(e) by {
                    let j = choose|j: int|
                        0 <= j < n && baseline.default@[j].0@ == e.1 && e.0 == e.1.reverse();
                    kv::lemma_kv_map_domain(baseline.default@, e.1);
                }
                assert forall|e: (Seq<char>, Seq<char>)|
                    reversed_name_pairs(b).contains(e) implies taken_reversed_name_pairs(
                    baseline.default@,
                    n as int,
                ).contains(e) by {
                    let nm = choose|nm: Seq<char>|
                        #[trigger] b.contains_key(nm) && e.0 == nm.reverse() && e.1 == nm;
                    kv::lemma_kv_map_domain(baseline.default@, nm);
                }
            }
        }
        self.baseline = baseline;
        self.set_check_point_inner(latest_commit);
    }

    fn set_check_point_inner(&mut self, c: &GitCommitInfo)
        ensures
            final(self).wf() == old(self).wf(),
            final(self)@.prefix_words == old(self)@.prefix_words,
            final(self)@.postfix_entries == old(self)@.postfix_entries,
            final(self)@.baseline == old(self)@.baseline,
            final(self)@.check_point == c@,
    {
        self.check_point = GitCommitInfo { hash: c.hash.clone(), date_time: c.date_time.clone() };
    }
}

/// The forward-trie words contributed by the first `i` baseline entries.
pub open spec fn taken_names(s: Seq<(String, VcpkgPortVersion)>, i: int) -> Set<Seq<char>> {
    Set::new(|n: Seq<char>| exists|j: int| 0 <= j < i && #[trigger] s[j].0@ == n)
}

/// The reversed-trie pairs contributed by the first `i` baseline entries.
pub open spec fn taken_reversed_name_pairs(s: Seq<(String, VcpkgPortVersion)>, i: int) -> Set<
    (Seq<char>, Seq<char>),
> {
    Set::new(
        |e: (Seq<char>, Seq<char>)|
            exists|j: int| 0 <= j < i && #[trigger] s[j].0@ == e.1 && e.0 == e.1.reverse(),
    )
}

} // verus!
