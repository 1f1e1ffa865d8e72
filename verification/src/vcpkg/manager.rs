//! The index orchestrator: replays the registry's commit log into the
//! Git-Tree Index, resuming after the stored checkpoint, and then refreshes
//! the search index from the published baseline. The outside work — listing
//! commits, crawling one commit's subtrees, reading documents — is handed
//! in as plain values; this module holds every decision made over them.

use vstd::prelude::*;

use crate::vcpkg::index::{
    apply_trees, GitCommitInfo, GitCommitView, GitTreeInfoView, VcpkgBaseline, VcpkgGitTreeIndex,
    VcpkgGitTreeInfo, VcpkgPortTreeVersion, VcpkgPortVersions, PortTreeVersionView,
    spec_format_version,
};
use crate::vcpkg::search::{rebuilt, VcpkgSearchIndex};
use crate::util::text;

verus! {

/// The views of a commit list.
pub open spec fn commit_views(s: Seq<GitCommitInfo>) -> Seq<GitCommitView> {
    s.map_values(|c: GitCommitInfo| c@)
}

/// The views of the per-commit subtree listings.
pub open spec fn trees_views(s: Seq<Vec<(String, String)>>) -> Seq<Seq<(Seq<char>, Seq<char>)>> {
    s.map_values(|v: Vec<(String, String)>| v@.map_values(|p: (String, String)| (p.0@, p.1@)))
}

/// Incorporates the given commits, each with its subtree listing, in order,
/// first writer winning throughout.
pub open spec fn replay(
    m: Map<Seq<char>, GitTreeInfoView>,
    commits: Seq<GitCommitView>,
    trees: Seq<Seq<(Seq<char>, Seq<char>)>>,
) -> Map<Seq<char>, GitTreeInfoView>
    decreases commits.len(),
{
    if commits.len() == 0 {
        m
    } else {
        apply_trees(replay(m, commits.drop_last(), trees.drop_last()), commits.last(), trees.last())
    }
}

/// The position, if any, of the first commit with the given hash.
pub open spec fn first_hash_position(commits: Seq<GitCommitView>, h: Seq<char>) -> Option<int>
    decreases commits.len(),
{
    if commits.len() == 0 {
        None
    } else if commits[0].hash == h {
        Some(0int)
    } else {
        match first_hash_position(commits.drop_first(), h) {
            Some(i) => Some(i + 1),
            None => None,
        }
    }
}

/// Where replay resumes: right after the first commit carrying the
/// checkpoint hash, or at the start when that hash does not occur (a fresh
/// index, or a rewritten history).
pub open spec fn resume_start_spec(commits: Seq<GitCommitView>, h: Seq<char>) -> int {
    match first_hash_position(commits, h) {
        Some(i) => i + 1,
        None => 0,
    }
}

/// What `first_hash_position` finds: the first match, or no match at all.
pub proof fn lemma_first_hash_position(commits: Seq<GitCommitView>, h: Seq<char>)
    ensures
        match first_hash_position(commits, h) {
            Some(i) => 0 <= i < commits.len() && commits[i].hash == h && forall|j: int|
                0 <= j < i ==> commits[j].hash != h,
            None => forall|j: int| 0 <= j < commits.len() ==> commits[j].hash != h,
        },
    decreases commits.len(),
{
    if commits.len() > 0 && commits[0].hash != h {
        let rest = commits.drop_first();
        lemma_first_hash_position(rest, h);
        assert(forall|j: int| 0 <= j < rest.len() ==> rest[j] == commits[j + 1]);
        match first_hash_position(rest, h) {
            Some(i) => {
                assert(commits[i + 1].hash == h);
                assert forall|j: int| 0 <= j < i + 1 implies commits[j].hash != h by {
                    if j > 0 {
                        assert(rest[j - 1] == commits[j]);
                        assert(rest[j - 1].hash != h);
                    }
                }
            },
            None => {
                assert forall|j: int| 0 <= j < commits.len() implies commits[j].hash != h by {
                    if j > 0 {
                        assert(rest[j - 1] == commits[j]);
                    }
                }
            },
        }
    }
}

/// The manager of the two persisted artifacts: it alone mutates them, and
/// in a fixed order — commit replay first, search refresh second.
pub struct VcpkgManager {
    pub git_tree_index: VcpkgGitTreeIndex,
    pub search_index: VcpkgSearchIndex,
}

impl VcpkgManager {
    pub open spec fn wf(&self) -> bool {
        &&& self.git_tree_index.wf()
        &&& self.search_index.wf()
    }

    /// A manager over the given loaded (or fresh) artifacts.
    pub fn new(git_tree_index: VcpkgGitTreeIndex, search_index: VcpkgSearchIndex) -> (r: Self)
        ensures
            r.git_tree_index == git_tree_index,
            r.search_index == search_index,
    {
        VcpkgManager { git_tree_index, search_index }
    }

    /// Where processing of `commits` resumes for the current checkpoint:
    /// everything after the first commit carrying the checkpoint hash is
    /// still unprocessed, and a checkpoint hash that never occurs means the
    /// whole log is unprocessed.
    pub fn resume_start(&self, commits: &Vec<GitCommitInfo>) -> (r: usize)
        ensures
            r == resume_start_spec(commit_views(commits@), self.git_tree_index@.check_point.hash),
            r <= commits@.len(),
    {
        let cs = commits.len();
        let cp = self.git_tree_index.check_point();
        let ghost cviews = commit_views(commits@);
        let mut i: usize = 0;
        while i < cs
            invariant
                0 <= i <= cs,
                cs == commits@.len(),
                cviews == commit_views(commits@),
                cp@.hash == self.git_tree_index@.check_point.hash,
                forall|j: int| 0 <= j < i ==> cviews[j].hash != cp@.hash,
            decreases cs - i,
        {
            if text::str_eq(commits[i].hash.as_str(), cp.hash.as_str()) {
                proof {
                    lemma_first_hash_position(cviews, cp@.hash);
                    assert(cviews[i as int].hash == cp@.hash);
                    match first_hash_position(cviews, cp@.hash) {
                        Some(p) => {
                            if p < i {
                                assert(cviews[p].hash != cp@.hash);
                            }
                            if p > i {
                                assert(cviews[i as int].hash != cp@.hash);
                            }
                        },
                        None => {
                            assert(cviews[i as int].hash != cp@.hash);
                        },
                    }
                }
                return i + 1;
            }
            i = i + 1;
        }
        proof {
            lemma_first_hash_position(cviews, cp@.hash);
            if first_hash_position(cviews, cp@.hash) is Some {
                let p = first_hash_position(cviews, cp@.hash).unwrap();
                assert(cviews[p].hash == cp@.hash);
            }
        }
        0
    }

    /// Replays the commit log into the Git-Tree Index. `commits` is the
    /// full log, oldest first; `new_trees` holds the subtree listing of
    /// each commit after the resume point, in the same order. Every pair
    /// not yet present is recorded with its commit as provenance, existing
    /// entries are never overwritten, and the checkpoint ends at the last
    /// commit of the log.
    pub fn build_git_tree_index(
        &mut self,
        commits: &Vec<GitCommitInfo>,
        new_trees: &Vec<Vec<(String, String)>>,
    )
        requires
            old(self).wf(),
            commits@.len() > 0,
            new_trees@.len() == commits@.len() - resume_start_spec(
                commit_views(commits@),
                old(self).git_tree_index@.check_point.hash,
            ),
        ensures
            final(self).wf(),
            final(self).git_tree_index@.index == replay(
                old(self).git_tree_index@.index,
                commit_views(commits@).skip(
                    resume_start_spec(
                        commit_views(commits@),
                        old(self).git_tree_index@.check_point.hash,
                    ),
                ),
                trees_views(new_trees@),
            ),
            final(self).git_tree_index@.check_point == commits@[commits@.len() - 1]@,
            final(self).search_index == old(self).search_index,
    {
        let ghost m0 = self.git_tree_index@.index;
        let ghost cviews = commit_views(commits@);
        let ghost tviews = trees_views(new_trees@);
        let start = self.resume_start(commits);
        let ghost suffix = cviews.skip(start as int);
        let n = new_trees.len();
        let total = commits.len();
        let mut k: usize = 0;
        while k < n
            invariant
                0 <= k <= n,
                n == new_trees@.len(),
                total == commits@.len(),
                start + n == total,
                cviews == commit_views(commits@),
                tviews == trees_views(new_trees@),
                suffix == cviews.skip(start as int),
                self.git_tree_index.wf(),
                self.git_tree_index@.index == replay(m0, suffix.take(k as int), tviews.take(
                    k as int,
                )),
                self.search_index == old(self).search_index,
            decreases n - k,
        {
            self.git_tree_index.apply_commit(&commits[start + k], &new_trees[k]);
            proof {
                assert(suffix.take(k + 1).drop_last() =~= suffix.take(k as int));
                assert(tviews.take(k + 1).drop_last() =~= tviews.take(k as int));
                assert(suffix.take(k + 1).last() == cviews[start + k]);
                assert(cviews[start + k] == commits@[start + k]@);
                assert(tviews.take(k + 1).last() == tviews[k as int]);
                assert(tviews[k as int] == new_trees@[k as int]@.map_values(
                    |p: (String, String)| (p.0@, p.1@),
                ));
            }
            k = k + 1;
        }
        proof {
            assert(suffix.take(n as int) =~= suffix);
            assert(tviews.take(n as int) =~= tviews);
        }
        self.git_tree_index.set_check_point(&commits[commits.len() - 1]);
    }

    /// Refreshes the search index from the baseline, skipping the rebuild
    /// when the baseline's source commit is not newer than the stored
    /// checkpoint. The Git-Tree Index is untouched.
    pub fn build_search_index(&mut self, latest_commit: &GitCommitInfo, baseline: VcpkgBaseline)
        requires
            old(self).wf(),
            baseline.wf(),
        ensures
            final(self).wf(),
            final(self).search_index@ == rebuilt(
                old(self).search_index@,
                latest_commit@,
                baseline.as_map(),
            ),
            final(self).git_tree_index == old(self).git_tree_index,
    {
        self.search_index.rebuild_if_stale(latest_commit, baseline);
    }

    /// The whole `index` operation: replay the commit log into the
    /// Git-Tree Index, then refresh the search index against the log's
    /// most recent commit.
    pub fn index(
        &mut self,
        commits: &Vec<GitCommitInfo>,
        new_trees: &Vec<Vec<(String, String)>>,
        baseline: VcpkgBaseline,
    )
        requires
            old(self).wf(),
            baseline.wf(),
            commits@.len() > 0,
            new_trees@.len() == commits@.len() - resume_start_spec(
                commit_views(commits@),
                old(self).git_tree_index@.check_point.hash,
            ),
        ensures
            final(self).wf(),
            final(self).git_tree_index@.index == replay(
                old(self).git_tree_index@.index,
                commit_views(commits@).skip(
                    resume_start_spec(
                        commit_views(commits@),
                        old(self).git_tree_index@.check_point.hash,
                    ),
                ),
                trees_views(new_trees@),
            ),
            final(self).git_tree_index@.check_point == commits@[commits@.len() - 1]@,
            final(self).search_index@ == rebuilt(
                old(self).search_index@,
                commits@[commits@.len() - 1]@,
                baseline.as_map(),
            ),
    {
        self.build_git_tree_index(commits, new_trees);
        let latest = &commits[commits.len() - 1];
        self.build_search_index(latest, baseline);
    }

    /// A package's resolved version history: each entry whose subtree
    /// identifier the Git-Tree Index knows, as (version text, commit hash,
    /// commit timestamp). Entries with unknown identifiers are dropped.
    pub fn get_port_versions(
        versions: &VcpkgPortVersions,
        git_tree_index: &VcpkgGitTreeIndex,
    ) -> (r: Vec<(String, String, String)>)
        requires
            git_tree_index.wf(),
        ensures
            r@.map_values(|t: (String, String, String)| (t.0@, t.1@, t.2@)) == resolved_of(
                versions.versions@.map_values(|v: VcpkgPortTreeVersion| v@),
                git_tree_index@.index,
            ),
    {
        let (resolved, _dropped) = Self::resolve_versions(versions, git_tree_index);
        resolved
    }

    /// Joins a package's version history against the Git-Tree Index.
    /// Returns the resolved entries in order, and, exactly once each and in
    /// order, the entries whose subtree identifier the index does not know
    /// (their provenance is unknowable until a deeper crawl), for reporting.
    pub fn resolve_versions(
        versions: &VcpkgPortVersions,
        git_tree_index: &VcpkgGitTreeIndex,
    ) -> (r: (Vec<(String, String, String)>, Vec<VcpkgPortTreeVersion>))
        requires
            git_tree_index.wf(),
        ensures
            r.0@.map_values(|t: (String, String, String)| (t.0@, t.1@, t.2@)) == resolved_of(
                versions.versions@.map_values(|v: VcpkgPortTreeVersion| v@),
                git_tree_index@.index,
            ),
            r.1@.map_values(|v: VcpkgPortTreeVersion| v@) == dropped_of(
                versions.versions@.map_values(|v: VcpkgPortTreeVersion| v@),
                git_tree_index@.index,
            ),
    {
        let ghost vviews = versions.versions@.map_values(|v: VcpkgPortTreeVersion| v@);
        let ghost idx = git_tree_index@.index;
        let mut resolved: Vec<(String, String, String)> = Vec::new();
        let mut dropped: Vec<VcpkgPortTreeVersion> = Vec::new();
        let n = versions.versions.len();
        let mut i: usize = 0;
        while i < n
            invariant
                0 <= i <= n,
                n == versions.versions@.len(),
                vviews == versions.versions@.map_values(|v: VcpkgPortTreeVersion| v@),
                idx == git_tree_index@.index,
                git_tree_index.wf(),
                resolved@.map_values(|t: (String, String, String)| (t.0@, t.1@, t.2@))
                    == resolved_of(vviews.take(i as int), idx),
                dropped@.map_values(|v: VcpkgPortTreeVersion| v@) == dropped_of(
                    vviews.take(i as int),
                    idx,
                ),
            decreases n - i,
        {
            let v = &versions.versions[i];
            proof {
                assert(vviews.take(i + 1).drop_last() =~= vviews.take(i as int));
                assert(vviews.take(i + 1).last() == vviews[i as int]);
            }
            match git_tree_index.lookup(v.git_tree.as_str()) {
                Some(info) => {
                    let text = v.format_version_text();
                    let ghost before = resolved@;
                    resolved.push((text, info.commit_hash.clone(), info.commit_date_time.clone()));
                    proof {
                        assert(resolved@.map_values(
                            |t: (String, String, String)| (t.0@, t.1@, t.2@),
                        ) =~= before.map_values(
                            |t: (String, String, String)| (t.0@, t.1@, t.2@),
                        ).push((resolved@.last().0@, resolved@.last().1@, resolved@.last().2@)));
                        assert(resolved@.map_values(
                            |t: (String, String, String)| (t.0@, t.1@, t.2@),
                        ) =~= resolved_of(vviews.take(i + 1), idx));
                    }
                },
                None => {
                    let ghost before = dropped@;
                    dropped.push(clone_tree_version(v));
                    proof {
                        assert(dropped@.map_values(|v: VcpkgPortTreeVersion| v@) =~= before
                            .map_values(|v: VcpkgPortTreeVersion| v@).push(dropped@.last()@));
                        assert(dropped@.map_values(|v: VcpkgPortTreeVersion| v@) =~= dropped_of(
                            vviews.take(i + 1),
                            idx,
                        ));
                    }
                },
            }
            i = i + 1;
        }
        proof {
            assert(vviews.take(n as int) =~= vviews);
        }
        (resolved, dropped)
    }
}

/// The separator between a tree object's mode and its hash in one line of
/// the version-control listing.
pub open spec fn tree_sep() -> Seq<char> {
    " tree "@
}

/// The recipes directory prefix that every listed package path carries.
pub open spec fn ports_dir() -> Seq<char> {
    "ports/"@
}

/// What one line of the listing contributes: the (subtree identifier,
/// package name) pair of a well-formed line — the text after the first
/// tree separator, split at the single occurrence of the recipes directory
/// prefix, both halves trimmed — and nothing for any other line.
pub open spec fn parse_line_spec(line: Seq<char>) -> Option<(Seq<char>, Seq<char>)> {
    let t = text::trim_spec(line);
    if t.len() == 0 {
        None
    } else {
        match text::first_occur(t, tree_sep()) {
            None => None,
            Some(p) => {
                let right = t.skip(p + tree_sep().len() as int);
                match text::first_occur(right, ports_dir()) {
                    None => None,
                    Some(q) => {
                        let left_part = right.take(q);
                        let rest = right.skip(q + ports_dir().len() as int);
                        if text::first_occur(rest, ports_dir()) is Some {
                            None
                        } else {
                            Some((text::trim_spec(left_part), text::trim_spec(rest)))
                        }
                    },
                }
            },
        }
    }
}

/// The pairs of one line, as a sequence of zero or one elements.
pub open spec fn line_results(line: Seq<char>) -> Seq<(Seq<char>, Seq<char>)> {
    match parse_line_spec(line) {
        Some(p) => seq![p],
        None => Seq::<(Seq<char>, Seq<char>)>::empty(),
    }
}

/// The pairs of a whole listing, line by line.
pub open spec fn parsed_trees(s: Seq<char>) -> Seq<(Seq<char>, Seq<char>)>
    decreases s.len(),
{
    match text::first_occur(s, seq!['\n']) {
        Some(p) => if 0 <= p < s.len() {
            line_results(s.take(p)) + parsed_trees(s.skip(p + 1))
        } else {
            line_results(s)
        },
        None => line_results(s),
    }
}

/// Parses one line of the listing.
fn parse_line(line: &str) -> (r: Option<(String, String)>)
    ensures
        match r {
            Some(p) => parse_line_spec(line@) == Some((p.0@, p.1@)),
            None => parse_line_spec(line@) is None,
        },
{
    let t = text::trim(line);
    if t.unicode_len() == 0 {
        return None;
    }
    match text::find_sub(t, " tree ") {
        None => {
            proof {
                assert(tree_sep() == " tree "@);
            }
            None
        },
        Some(p) => {
            proof {
                reveal_strlit(" tree ");
                text::lemma_first_occur(t@, " tree "@);
            }
            let right = t.substring_char(p + 6, t.unicode_len());
            proof {
                assert(right@ == t@.skip(p + tree_sep().len() as int));
            }
            match text::find_sub(right, "ports/") {
                None => {
                    proof {
                        assert(ports_dir() == "ports/"@);
                    }
                    None
                },
                Some(q) => {
                    proof {
                        reveal_strlit("ports/");
                        text::lemma_first_occur(right@, "ports/"@);
                    }
                    let left_part = right.substring_char(0, q);
                    let rest = right.substring_char(q + 6, right.unicode_len());
                    proof {
                        assert(left_part@ == right@.take(q as int));
                        assert(rest@ == right@.skip(q + ports_dir().len() as int));
                    }
                    match text::find_sub(rest, "ports/") {
                        Some(_) => None,
                        None => Some(
                            (text::trim(left_part).to_owned(), text::trim(rest).to_owned()),
                        ),
                    }
                },
            }
        },
    }
}

impl VcpkgManager {
    /// The (subtree identifier, package name) pairs listed by the
    /// version-control tool for one commit's recipes directory: one pair
    /// per well-formed listing line, in order.
    pub fn get_git_trees(stdout: &str) -> (r: Vec<(String, String)>)
        ensures
            r@.map_values(|p: (String, String)| (p.0@, p.1@)) == parsed_trees(stdout@),
    {
        let mut out: Vec<(String, String)> = Vec::new();
        let mut rest: &str = stdout;
        loop
            invariant
                out@.map_values(|p: (String, String)| (p.0@, p.1@)) + parsed_trees(rest@)
                    == parsed_trees(stdout@),
            decreases rest@.len(),
        {
            let ghost rest0 = rest@;
            let ghost out0 = out@;
            match text::find_sub(rest, "\n") {
                Some(p) => {
                    proof {
                        reveal_strlit("\n");
                        assert("\n"@ =~= seq!['\n']);
                        text::lemma_first_occur(rest@, "\n"@);
                    }
                    let line = rest.substring_char(0, p);
                    if let Some(pair) = parse_line(line) {
                        out.push(pair);
                    }
                    let len = rest.unicode_len();
                    rest = rest.substring_char(p + 1, len);
                    proof {
                        assert(parsed_trees(rest0) == line_results(rest0.take(p as int))
                            + parsed_trees(rest0.skip(p + 1)));
                        assert(out@.map_values(|p: (String, String)| (p.0@, p.1@)) =~= out0
                            .map_values(|p: (String, String)| (p.0@, p.1@)) + line_results(
                            line@,
                        ));
                        assert(out@.map_values(|p: (String, String)| (p.0@, p.1@)) + parsed_trees(
                            rest@,
                        ) =~= parsed_trees(stdout@));
                    }
                },
                None => {
                    proof {
                        reveal_strlit("\n");
                        assert("\n"@ =~= seq!['\n']);
                        assert(parsed_trees(rest0) == line_results(rest0));
                    }
                    if let Some(pair) = parse_line(rest) {
                        out.push(pair);
                    }
                    proof {
                        assert(out@.map_values(|p: (String, String)| (p.0@, p.1@)) =~= out0
                            .map_values(|p: (String, String)| (p.0@, p.1@)) + line_results(
                            rest0,
                        ));
                        assert(out@.map_values(|p: (String, String)| (p.0@, p.1@)) =~= parsed_trees(
                            stdout@,
                        ));
                    }
                    return out;
                },
            }
        }
    }
}

/// The resolved rows of a version history: one per entry whose identifier
/// the index knows, in order — the formatted version text with the entry's
/// recorded provenance.
pub open spec fn resolved_of(
    versions: Seq<PortTreeVersionView>,
    idx: Map<Seq<char>, GitTreeInfoView>,
) -> Seq<(Seq<char>, Seq<char>, Seq<char>)>
    decreases versions.len(),
{
    if versions.len() == 0 {
        Seq::<(Seq<char>, Seq<char>, Seq<char>)>::empty()
    } else {
        let rest = resolved_of(versions.drop_last(), idx);
        let v = versions.last();
        if idx.contains_key(v.git_tree) {
            rest.push(
                (
                    spec_format_version(v.chosen_version_text(), v.port_version),
                    idx[v.git_tree].commit_hash,
                    idx[v.git_tree].commit_date_time,
                ),
            )
        } else {
            rest
        }
    }
}

/// The entries of a version history whose identifier the index does not
/// know, each exactly once, in order.
pub open spec fn dropped_of(
    versions: Seq<PortTreeVersionView>,
    idx: Map<Seq<char>, GitTreeInfoView>,
) -> Seq<PortTreeVersionView>
    decreases versions.len(),
{
    if versions.len() == 0 {
        Seq::<PortTreeVersionView>::empty()
    } else {
        let rest = dropped_of(versions.drop_last(), idx);
        let v = versions.last();
        if idx.contains_key(v.git_tree) {
            rest
        } else {
            rest.push(v)
        }
    }
}

/// A field-for-field copy of a version-history entry.
fn clone_tree_version(v: &VcpkgPortTreeVersion) -> (r: VcpkgPortTreeVersion)
    ensures
        r@ == v@,
{
    VcpkgPortTreeVersion {
        git_tree: v.git_tree.clone(),
        version: clone_opt_string(&v.version),
        version_date: clone_opt_string(&v.version_date),
        version_semver: clone_opt_string(&v.version_semver),
        version_string: clone_opt_string(&v.version_string),
        port_version: v.port_version,
    }
}

fn clone_opt_string(s: &Option<String>) -> (r: Option<String>)
    ensures
        (r is Some) == (s is Some),
        r is Some ==> r.unwrap()@ == s.unwrap()@,
{
    match s {
        Some(x) => Some(x.clone()),
        None => None,
    }
}

} // verus!
