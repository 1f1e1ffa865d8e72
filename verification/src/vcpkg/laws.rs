//! The engine's laws, each proved over the same model that the executable
//! functions' contracts are stated in: idempotence of a repeated `index`
//! run, monotonicity of the checkpoint, first-writer-wins for provenance,
//! correctness of resuming a replay, the search round-trip, and the
//! staleness skip.

use vstd::prelude::*;

use crate::util::text;
use crate::vcpkg::index::{insert_absent_all, provenance_of, GitCommitView, GitTreeIndexView,
    GitTreeInfoView, PortVersionView};
use crate::vcpkg::manager::{first_hash_position, lemma_first_hash_position, replay,
    resume_start_spec};
use crate::vcpkg::search::{baseline_names, rebuilt, reversed_name_pairs, SearchIndexView};
use crate::vcpkg::trie;

verus! {

proof fn lemma_insert_absent_all_preserves(
    m: Map<Seq<char>, GitTreeInfoView>,
    pairs: Seq<(Seq<char>, GitTreeInfoView)>,
    id: Seq<char>,
)
    requires
        m.contains_key(id),
    ensures
        insert_absent_all(m, pairs).contains_key(id),
        insert_absent_all(m, pairs)[id] == m[id],
    decreases pairs.len(),
{
    if pairs.len() > 0 {
        lemma_insert_absent_all_preserves(m, pairs.drop_last(), id);
    }
}

proof fn lemma_replay_preserves(
    m: Map<Seq<char>, GitTreeInfoView>,
    commits: Seq<GitCommitView>,
    trees: Seq<Seq<(Seq<char>, Seq<char>)>>,
    id: Seq<char>,
)
    requires
        m.contains_key(id),
    ensures
        replay(m, commits, trees).contains_key(id),
        replay(m, commits, trees)[id] == m[id],
    decreases commits.len(),
{
    if commits.len() > 0 {
        lemma_replay_preserves(m, commits.drop_last(), trees.drop_last(), id);
        let prev = replay(m, commits.drop_last(), trees.drop_last());
        let c = commits.last();
        lemma_insert_absent_all_preserves(
            prev,
            trees.last().map_values(|p: (Seq<char>, Seq<char>)| (p.0, provenance_of(c, p.1))),
            id,
        );
    }
}

/// Law (first writer wins): once a subtree identifier carries provenance,
/// replaying any further commits — in any order, with any listings — never
/// changes it: the identifier stays bound to the provenance of the commit
/// that was processed first.
pub proof fn lemma_first_writer_wins(
    m: Map<Seq<char>, GitTreeInfoView>,
    commits: Seq<GitCommitView>,
    trees: Seq<Seq<(Seq<char>, Seq<char>)>>,
    id: Seq<char>,
)
    requires
        m.contains_key(id),
    ensures
        replay(m, commits, trees).contains_key(id),
        replay(m, commits, trees)[id] == m[id],
{
    lemma_replay_preserves(m, commits, trees, id);
}

proof fn lemma_replay_append(
    m: Map<Seq<char>, GitTreeInfoView>,
    c1: Seq<GitCommitView>,
    t1: Seq<Seq<(Seq<char>, Seq<char>)>>,
    c2: Seq<GitCommitView>,
    t2: Seq<Seq<(Seq<char>, Seq<char>)>>,
)
    requires
        c1.len() == t1.len(),
        c2.len() == t2.len(),
    ensures
        replay(m, c1 + c2, t1 + t2) == replay(replay(m, c1, t1), c2, t2),
    decreases c2.len(),
{
    if c2.len() == 0 {
        assert(c1 + c2 =~= c1);
        assert(t1 + t2 =~= t1);
    } else {
        assert((c1 + c2).drop_last() =~= c1 + c2.drop_last());
        assert((t1 + t2).drop_last() =~= t1 + t2.drop_last());
        assert((c1 + c2).last() == c2.last());
        assert((t1 + t2).last() == t2.last());
        lemma_replay_append(m, c1, t1, c2.drop_last(), t2.drop_last());
    }
}

/// Where a fully-processed prefix's checkpoint lies in the full log: at
/// the end of the prefix, when the log's hashes are distinct. Resumption
/// therefore starts exactly where the prefix ended.
pub proof fn lemma_resume_position(commits: Seq<GitCommitView>, m: int)
    requires
        0 < m <= commits.len(),
        forall|i: int, j: int| 0 <= i < j < commits.len() ==> commits[i].hash != commits[j].hash,
    ensures
        first_hash_position(commits, commits[m - 1].hash) == Some(m - 1),
        resume_start_spec(commits, commits[m - 1].hash) == m,
{
    lemma_first_hash_position(commits, commits[m - 1].hash);
    match first_hash_position(commits, commits[m - 1].hash) {
        Some(p) => {
            if p < m - 1 {
                assert(commits[p].hash != commits[m - 1].hash);
            }
            if p > m - 1 {
                assert(commits[m - 1].hash != commits[m - 1].hash);
            }
        },
        None => {
            assert(commits[m - 1].hash == commits[m - 1].hash);
        },
    }
}

/// Law (resume correctness): building the index over the first `m` commits
/// and then resuming from the stored checkpoint over the full log yields
/// exactly the index that one uninterrupted build over the full log
/// yields.
pub proof fn lemma_resume_correctness(
    m0: Map<Seq<char>, GitTreeInfoView>,
    commits: Seq<GitCommitView>,
    trees: Seq<Seq<(Seq<char>, Seq<char>)>>,
    m: int,
)
    requires
        commits.len() == trees.len(),
        0 < m <= commits.len(),
        forall|i: int, j: int| 0 <= i < j < commits.len() ==> commits[i].hash != commits[j].hash,
    ensures
        resume_start_spec(commits, commits[m - 1].hash) == m,
        replay(replay(m0, commits.take(m), trees.take(m)), commits.skip(m), trees.skip(m))
            == replay(m0, commits, trees),
{
    lemma_resume_position(commits, m);
    lemma_replay_append(m0, commits.take(m), trees.take(m), commits.skip(m), trees.skip(m));
    assert(commits.take(m) + commits.skip(m) =~= commits);
    assert(trees.take(m) + trees.skip(m) =~= trees);
}

/// Law (monotonic checkpoint): each run leaves the checkpoint at the last
/// commit of the log it saw, so across runs over a growing log the
/// checkpoint's position never decreases: the previous checkpoint sits at
/// the end of the earlier log, before or at the end of the later one.
pub proof fn lemma_checkpoint_monotonic(commits1: Seq<GitCommitView>, commits2: Seq<GitCommitView>)
    requires
        0 < commits1.len() <= commits2.len(),
        commits1 == commits2.take(commits1.len() as int),
        forall|i: int, j: int| 0 <= i < j < commits2.len() ==> commits2[i].hash != commits2[j].hash,
    ensures
        first_hash_position(commits2, commits1.last().hash) == Some(commits1.len() - 1),
        commits1.len() - 1 <= commits2.len() - 1,
{
    assert(commits1.last() == commits2[commits1.len() - 1]);
    lemma_resume_position(commits2, commits1.len() as int);
}

/// Law (idempotence): a second `index` run over an unchanged commit log
/// changes nothing. The resume point is the end of the log, so the replay
/// suffix is empty and the Git-Tree Index keeps its entries and its
/// checkpoint; and the baseline's source commit is not newer than the
/// stored search checkpoint, so the rebuild is skipped.
pub proof fn lemma_index_idempotent(
    g: GitTreeIndexView,
    commits: Seq<GitCommitView>,
    trees: Seq<Seq<(Seq<char>, Seq<char>)>>,
    s: SearchIndexView,
    b: Map<Seq<char>, PortVersionView>,
)
    requires
        commits.len() > 0,
        g.check_point == commits.last(),
        s.check_point.hash == commits.last().hash,
        forall|j: int| 0 <= j < commits.len() - 1 ==> commits[j].hash != commits.last().hash,
        trees.len() == 0,
    ensures
        resume_start_spec(commits, g.check_point.hash) == commits.len(),
        (GitTreeIndexView {
            index: replay(
                g.index,
                commits.skip(resume_start_spec(commits, g.check_point.hash)),
                trees,
            ),
            check_point: commits.last(),
        }) == g,
        rebuilt(s, commits.last(), b) == s,
{
    assert(forall|i: int, j: int|
        0 <= i < j < commits.len() && j == commits.len() - 1 ==> commits[i].hash
            != commits[j].hash);
    lemma_first_hash_position(commits, commits.last().hash);
    match first_hash_position(commits, commits.last().hash) {
        Some(p) => {
            if p < commits.len() - 1 {
                assert(commits[p].hash != commits.last().hash);
            }
        },
        None => {
            assert(commits[commits.len() - 1].hash == commits.last().hash);
        },
    }
    assert(resume_start_spec(commits, g.check_point.hash) == commits.len());
    assert(commits.skip(commits.len() as int) =~= Seq::<GitCommitView>::empty());
    assert(replay(g.index, commits.skip(commits.len() as int), trees) == g.index);
    text::lemma_lex_le_refl(commits.last().hash);
    assert(text::lex_le(commits.last().hash, s.check_point.hash));
}

/// Law (staleness skip): a rebuild against a baseline whose source commit
/// is the stored checkpoint itself performs no mutation at all: tries,
/// snapshot and checkpoint all stay exactly as they were.
pub proof fn lemma_staleness_skip(
    s: SearchIndexView,
    latest: GitCommitView,
    b: Map<Seq<char>, PortVersionView>,
)
    requires
        latest.hash == s.check_point.hash,
    ensures
        rebuilt(s, latest, b) == s,
{
    text::lemma_lex_le_refl(latest.hash);
}

/// Law (suffix search): after a rebuild from a baseline, every package
/// name in that baseline is found through the reversed trie by any of its
/// suffixes: the reversed suffix is a prefix of the reversed name, whose
/// data item is the name itself.
pub proof fn lemma_suffix_search_round_trip(
    s: SearchIndexView,
    latest: GitCommitView,
    b: Map<Seq<char>, PortVersionView>,
    name: Seq<char>,
    k: int,
)
    requires
        !text::lex_le(latest.hash, s.check_point.hash),
        b.contains_key(name),
        0 <= k <= name.len(),
    ensures
        trie::data_with_prefix(
            rebuilt(s, latest, b).postfix_entries,
            name.skip(k).reverse(),
        ).contains(name),
{
    let es = rebuilt(s, latest, b).postfix_entries;
    assert(reversed_name_pairs(b).contains((name.reverse(), name)));
    assert(es.contains((name.reverse(), name)));
    let q = name.skip(k).reverse();
    assert(text::is_prefix_of(q, name.reverse())) by {
        assert(q =~= name.reverse().subrange(0, name.len() - k));
    }
}

/// Law (search round-trip): after a rebuild from a baseline, every package
/// name in that baseline is found by a forward-trie search for any of its
/// prefixes, the full name included.
pub proof fn lemma_search_round_trip(
    s: SearchIndexView,
    latest: GitCommitView,
    b: Map<Seq<char>, PortVersionView>,
    name: Seq<char>,
    k: int,
)
    requires
        !text::lex_le(latest.hash, s.check_point.hash),
        b.contains_key(name),
        0 <= k <= name.len(),
    ensures
        trie::words_with_prefix(rebuilt(s, latest, b).prefix_words, name.take(k)).contains(name),
{
    let ws = rebuilt(s, latest, b).prefix_words;
    assert(baseline_names(b).contains(name));
    assert(ws.contains(name));
    assert(text::is_prefix_of(name.take(k), name)) by {
        assert(name.take(k) =~= name.subrange(0, k));
    }
}

} // verus!
