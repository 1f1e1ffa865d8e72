//! The data behind the generated build files: the scanned header and
//! source paths, grouped by the directory they live in, and the header
//! install table. Rendering the files themselves stays with the
//! surrounding program.

use vstd::prelude::*;

use crate::cli::commands::ScanOptions;
use crate::util::fs;
use crate::util::kv;
use crate::util::text;

verus! {

/// What the source scanner hands over: for each header, the sources that
/// include it.
#[derive(Clone, Debug, Default)]
pub struct SourceMappings {
    pub header_include_by_sources: Vec<(String, Vec<String>)>,
}

/// The grouping of one path list: directory groups, the directory each
/// group name stands for, and the header install table.
pub struct GroupView {
    pub group_sources: Map<Seq<char>, Set<Seq<char>>>,
    pub classify_to_dir: Map<Seq<char>, Seq<char>>,
    pub install_headers: Map<Seq<char>, Seq<char>>,
}

/// The set of paths an association list's entry holds.
pub open spec fn str_vec_set(v: Vec<String>) -> Set<Seq<char>> {
    v@.map_values(|x: String| x@).to_set()
}

/// The map a grouping list denotes.
pub open spec fn group_map(s: Seq<(String, Vec<String>)>) -> Map<Seq<char>, Set<Seq<char>>>
    decreases s.len(),
{
    if s.len() == 0 {
        Map::<Seq<char>, Set<Seq<char>>>::empty()
    } else {
        group_map(s.drop_last()).insert(s.last().0@, str_vec_set(s.last().1))
    }
}

proof fn lemma_group_map_domain(s: Seq<(String, Vec<String>)>, k: Seq<char>)
    ensures
        group_map(s).contains_key(k) <==> exists|i: int| 0 <= i < s.len() && s[i].0@ == k,
    decreases s.len(),
{
    if s.len() > 0 {
        lemma_group_map_domain(s.drop_last(), k);
        if s.last().0@ == k {
            assert(s[s.len() - 1].0@ == k);
        } else if exists|i: int| 0 <= i < s.len() && s[i].0@ == k {
            let i = choose|i: int| 0 <= i < s.len() && s[i].0@ == k;
            assert(s.drop_last()[i] == s[i]);
        }
    }
}

proof fn lemma_group_map_index(s: Seq<(String, Vec<String>)>, i: int)
    requires
        kv::kv_keys_unique(s),
        0 <= i < s.len(),
    ensures
        group_map(s).contains_key(s[i].0@),
        group_map(s)[s[i].0@] == str_vec_set(s[i].1),
    decreases s.len(),
{
    if i == s.len() - 1 {
    } else {
        assert(kv::kv_keys_unique(s.drop_last())) by {
            assert(forall|x: int, y: int|
                0 <= x < y < s.len() - 1 ==> s.drop_last()[x] == s[x] && s.drop_last()[y] == s[y]);
        }
        assert(s.drop_last()[i] == s[i]);
        lemma_group_map_index(s.drop_last(), i);
        assert(s[i].0@ != s.last().0@);
    }
}

proof fn lemma_group_map_update(s: Seq<(String, Vec<String>)>, i: int, key: String, value: Vec<
    String,
>)
    requires
        kv::kv_keys_unique(s),
        0 <= i < s.len(),
        key@ == s[i].0@,
    ensures
        group_map(s.update(i, (key, value))) == group_map(s).insert(key@, str_vec_set(value)),
        kv::kv_keys_unique(s.update(i, (key, value))),
    decreases s.len(),
{
    let t = s.update(i, (key, value));
    assert(kv::kv_keys_unique(t)) by {
        assert(forall|x: int| 0 <= x < t.len() ==> t[x].0@ == s[x].0@);
    }
    if i == s.len() - 1 {
        assert(t.drop_last() =~= s.drop_last());
        assert(t.last() == (key, value));
        assert(group_map(s.drop_last()).insert(key@, str_vec_set(value)) =~= group_map(s).insert(
            key@,
            str_vec_set(value),
        ));
    } else {
        assert(kv::kv_keys_unique(s.drop_last())) by {
            assert(forall|x: int, y: int|
                0 <= x < y < s.len() - 1 ==> s.drop_last()[x] == s[x] && s.drop_last()[y] == s[y]);
        }
        assert(s.drop_last()[i] == s[i]);
        lemma_group_map_update(s.drop_last(), i, key, value);
        assert(t.drop_last() =~= s.drop_last().update(i, (key, value)));
        assert(t.last() == s.last());
        assert(s.last().0@ != key@);
        assert(group_map(s.drop_last()).insert(key@, str_vec_set(value)).insert(
            s.last().0@,
            str_vec_set(s.last().1),
        ) =~= group_map(s).insert(key@, str_vec_set(value)));
    }
}

proof fn lemma_to_set_push(s: Seq<Seq<char>>, x: Seq<char>)
    ensures
        s.push(x).to_set() == s.to_set().insert(x),
{
    assert forall|a: Seq<char>| #[trigger] s.push(x).to_set().contains(a) implies s.to_set().insert(
        x,
    ).contains(a) by {
        let i = choose|i: int| 0 <= i < s.push(x).len() && s.push(x)[i] == a;
        if i < s.len() {
            assert(s[i] == a);
        }
    }
    assert forall|a: Seq<char>| #[trigger] s.to_set().insert(x).contains(a) implies s.push(
        x,
    ).to_set().contains(a) by {
        if a == x {
            assert(s.push(x)[s.len() as int] == a);
        } else {
            let i = choose|i: int| 0 <= i < s.len() && s[i] == a;
            assert(s.push(x)[i] == a);
        }
    }
    assert(s.push(x).to_set() =~= s.to_set().insert(x));
}

proof fn lemma_group_map_push(s: Seq<(String, Vec<String>)>, key: String, value: Vec<String>)
    ensures
        group_map(s.push((key, value))) == group_map(s).insert(key@, str_vec_set(value)),
{
    assert(s.push((key, value)).drop_last() =~= s);
    assert(s.push((key, value)).last() == (key, value));
}

/// Adds `path` to the group named `key`, creating the group if new.
fn group_add(groups: &mut Vec<(String, Vec<String>)>, key: String, path: String)
    requires
        kv::kv_keys_unique(old(groups)@),
    ensures
        kv::kv_keys_unique(final(groups)@),
        group_map(final(groups)@) == group_map(old(groups)@).insert(
            key@,
            (if group_map(old(groups)@).contains_key(key@) {
                group_map(old(groups)@)[key@]
            } else {
                Set::<Seq<char>>::empty()
            }).insert(path@),
        ),
{
    let ghost gm = group_map(groups@);
    let n = groups.len();
    let mut i: usize = 0;
    while i < n
        invariant
            0 <= i <= n,
            n == groups@.len(),
            groups@ == old(groups)@,
            gm == group_map(groups@),
            kv::kv_keys_unique(groups@),
            forall|j: int| 0 <= j < i ==> groups@[j].0@ != key@,
        decreases n - i,
    {
        if text::str_eq(groups[i].0.as_str(), key.as_str()) {
            proof {
                lemma_group_map_index(groups@, i as int);
            }
            if text::contains_str(&groups[i].1, path.as_str()) {
                proof {
                    assert(str_vec_set(groups@[i as int].1).contains(path@));
                    assert(gm[key@].insert(path@) =~= gm[key@]);
                    assert(gm.insert(key@, gm[key@].insert(path@)) =~= gm);
                }
                return ;
            }
            let mut value = clone_string_vec(&groups[i].1);
            value.push(path);
            proof {
                assert(value@.map_values(|x: String| x@) =~= groups@[i as int].1@.map_values(
                    |x: String| x@,
                ).push(value@.last()@));
                lemma_to_set_push(
                    groups@[i as int].1@.map_values(|x: String| x@),
                    value@.last()@,
                );
                lemma_group_map_update(groups@, i as int, key, value);
            }
            let slot = &mut groups[i];
            *slot = (key, value);
            return ;
        }
        i = i + 1;
    }
    let mut value: Vec<String> = Vec::new();
    value.push(path);
    proof {
        lemma_group_map_domain(groups@, key@);
        assert(value@.map_values(|x: String| x@) =~= Seq::<Seq<char>>::empty().push(
            value@.last()@,
        ));
        lemma_to_set_push(Seq::<Seq<char>>::empty(), value@.last()@);
        assert(Seq::<Seq<char>>::empty().to_set() =~= Set::<Seq<char>>::empty());
        kv::lemma_kv_unique_push(groups@, key, value);
        lemma_group_map_push(groups@, key, value);
    }
    groups.push((key, value));
}

/// A copy of a string list, character for character.
fn clone_string_vec(v: &Vec<String>) -> (r: Vec<String>)
    ensures
        r@.map_values(|x: String| x@) == v@.map_values(|x: String| x@),
{
    let n = v.len();
    let mut out: Vec<String> = Vec::new();
    let mut i: usize = 0;
    while i < n
        invariant
            0 <= i <= n,
            n == v@.len(),
            out@.map_values(|x: String| x@) =~= v@.map_values(|x: String| x@).take(i as int),
        decreases n - i,
    {
        let ghost before = out@;
        out.push(v[i].clone());
        proof {
            assert(out@.map_values(|x: String| x@) =~= before.map_values(|x: String| x@).push(
                v@[i as int]@,
            ));
            assert(out@.map_values(|x: String| x@) =~= v@.map_values(|x: String| x@).take(i + 1));
        }
        i = i + 1;
    }
    proof {
        assert(v@.map_values(|x: String| x@).take(n as int) =~= v@.map_values(|x: String| x@));
    }
    out
}

/// The path relative to the project or target directory.
pub open spec fn rel_spec(p: Seq<char>, project_dir: Seq<char>, target_dir: Seq<char>) -> Seq<
    char,
> {
    fs::remove_prefix_spec(p, project_dir, target_dir)
}

/// The group a path belongs to: its directory with the separators
/// replaced by underscores.
pub open spec fn classify_spec(rel: Seq<char>) -> Seq<char> {
    text::underscored_spec(text::parent_dir_spec(rel))
}

/// Where an installed header is copied from: relative to the project for
/// a header under the source tree, else relative to the source tree and
/// rooted in the build directory.
pub open spec fn install_src_spec(
    h: Seq<char>,
    source_dir: Seq<char>,
    project_dir: Seq<char>,
    target_dir: Seq<char>,
) -> Seq<char> {
    if text::is_prefix_of(source_dir, h) {
        rel_spec(h, project_dir, target_dir)
    } else {
        "${CMAKE_CURRENT_BINARY_DIR}/"@ + fs::remove_prefix_spec(h, source_dir, target_dir)
    }
}

/// Where an installed header is copied to: its directory relative to the
/// source tree, or the install root for a header outside it.
pub open spec fn install_dst_spec(h: Seq<char>, source_dir: Seq<char>, target_dir: Seq<
    char,
>) -> Seq<char> {
    if text::is_prefix_of(source_dir, text::parent_dir_spec(h)) {
        fs::remove_prefix_spec(text::parent_dir_spec(h), source_dir, target_dir)
    } else {
        Seq::<char>::empty()
    }
}

/// One path added to the groups: its relative form joins its directory's
/// group, and the group name is bound to the directory.
pub open spec fn grouped_with(g: GroupView, rel: Seq<char>) -> GroupView {
    let c = classify_spec(rel);
    GroupView {
        group_sources: g.group_sources.insert(
            c,
            (if g.group_sources.contains_key(c) {
                g.group_sources[c]
            } else {
                Set::<Seq<char>>::empty()
            }).insert(rel),
        ),
        classify_to_dir: g.classify_to_dir.insert(c, text::parent_dir_spec(rel)),
        install_headers: g.install_headers,
    }
}

/// One header's sources added to the groups, in order.
pub open spec fn grouped_with_sources(
    g: GroupView,
    sources: Seq<Seq<char>>,
    project_dir: Seq<char>,
    target_dir: Seq<char>,
) -> GroupView
    decreases sources.len(),
{
    if sources.len() == 0 {
        g
    } else {
        grouped_with(
            grouped_with_sources(g, sources.drop_last(), project_dir, target_dir),
            rel_spec(sources.last(), project_dir, target_dir),
        )
    }
}

/// The whole grouping: per header, first its install entry, then the
/// header itself, then its sources, in the order handed over.
pub open spec fn grouped_data(
    g: GroupView,
    entries: Seq<(String, Vec<String>)>,
    source_dir: Seq<char>,
    project_dir: Seq<char>,
    target_dir: Seq<char>,
) -> GroupView
    decreases entries.len(),
{
    if entries.len() == 0 {
        g
    } else {
        let prev = grouped_data(g, entries.drop_last(), source_dir, project_dir, target_dir);
        let h = entries.last().0@;
        let with_install = GroupView {
            group_sources: prev.group_sources,
            classify_to_dir: prev.classify_to_dir,
            install_headers: prev.install_headers.insert(
                install_src_spec(h, source_dir, project_dir, target_dir),
                install_dst_spec(h, source_dir, target_dir),
            ),
        };
        grouped_with_sources(
            grouped_with(with_install, rel_spec(h, project_dir, target_dir)),
            entries.last().1@.map_values(|x: String| x@),
            project_dir,
            target_dir,
        )
    }
}

/// The grouping behind the generated build files: the scanned headers and
/// sources grouped by directory, each group name bound to its directory,
/// and the header install table, all starting from nothing.
pub fn group_data(options: &ScanOptions, source_mappings: &SourceMappings) -> (r: (
    Vec<(String, Vec<String>)>,
    Vec<(String, String)>,
    Vec<(String, String)>,
))
    ensures
        kv::kv_keys_unique(r.0@),
        kv::kv_keys_unique(r.1@),
        kv::kv_keys_unique(r.2@),
        (GroupView {
            group_sources: group_map(r.0@),
            classify_to_dir: kv::kv_map(r.1@),
            install_headers: kv::kv_map(r.2@),
        }) == grouped_data(
            GroupView {
                group_sources: Map::<Seq<char>, Set<Seq<char>>>::empty(),
                classify_to_dir: Map::<Seq<char>, Seq<char>>::empty(),
                install_headers: Map::<Seq<char>, Seq<char>>::empty(),
            },
            source_mappings.header_include_by_sources@,
            options.source_dir@,
            options.project_dir@,
            options.target_dir@,
        ),
{
    let ghost entries = source_mappings.header_include_by_sources@;
    let ghost sd = options.source_dir@;
    let ghost pd = options.project_dir@;
    let ghost td = options.target_dir@;
    let ghost g0 = GroupView {
        group_sources: Map::<Seq<char>, Set<Seq<char>>>::empty(),
        classify_to_dir: Map::<Seq<char>, Seq<char>>::empty(),
        install_headers: Map::<Seq<char>, Seq<char>>::empty(),
    };
    let mut group_sources: Vec<(String, Vec<String>)> = Vec::new();
    let mut classify_to_dir: Vec<(String, String)> = Vec::new();
    let mut install_headers: Vec<(String, String)> = Vec::new();
    let n = source_mappings.header_include_by_sources.len();
    let mut i: usize = 0;
    while i < n
        invariant
            0 <= i <= n,
            n == entries.len(),
            entries == source_mappings.header_include_by_sources@,
            sd == options.source_dir@,
            pd == options.project_dir@,
            td == options.target_dir@,
            kv::kv_keys_unique(group_sources@),
            kv::kv_keys_unique(classify_to_dir@),
            kv::kv_keys_unique(install_headers@),
            (GroupView {
                group_sources: group_map(group_sources@),
                classify_to_dir: kv::kv_map(classify_to_dir@),
                install_headers: kv::kv_map(install_headers@),
            }) == grouped_data(g0, entries.take(i as int), sd, pd, td),
        decreases n - i,
    {
        proof {
            assert(entries.take(i + 1).drop_last() =~= entries.take(i as int));
            assert(entries.take(i + 1).last() == entries[i as int]);
        }
        let header = &source_mappings.header_include_by_sources[i].0;
        let sources = &source_mappings.header_include_by_sources[i].1;

        // the install entry of the header
        let src = install_src(header, options);
        let dst = install_dst(header, options);
        kv::kv_set(&mut install_headers, src, dst);

        // the header joins its directory's group
        let rel = fs::remove_prefix(header, &options.project_dir, &options.target_dir);
        add_to_groups(&mut group_sources, &mut classify_to_dir, rel);

        // so does each source that includes it
        let ghost svs = sources@.map_values(|x: String| x@);
        let m = sources.len();
        let mut j: usize = 0;
        while j < m
            invariant
                0 <= j <= m,
                m == sources@.len(),
                svs == sources@.map_values(|x: String| x@),
                sources@ == source_mappings.header_include_by_sources@[i as int].1@,
                sd == options.source_dir@,
                pd == options.project_dir@,
                td == options.target_dir@,
                kv::kv_keys_unique(group_sources@),
                kv::kv_keys_unique(classify_to_dir@),
                kv::kv_keys_unique(install_headers@),
                (GroupView {
                    group_sources: group_map(group_sources@),
                    classify_to_dir: kv::kv_map(classify_to_dir@),
                    install_headers: kv::kv_map(install_headers@),
                }) == grouped_with_sources(
                    grouped_with(
                        GroupView {
                            group_sources: grouped_data(
                                g0,
                                entries.take(i as int),
                                sd,
                                pd,
                                td,
                            ).group_sources,
                            classify_to_dir: grouped_data(
                                g0,
                                entries.take(i as int),
                                sd,
                                pd,
                                td,
                            ).classify_to_dir,
                            install_headers: grouped_data(
                                g0,
                                entries.take(i as int),
                                sd,
                                pd,
                                td,
                            ).install_headers.insert(
                                install_src_spec(entries[i as int].0@, sd, pd, td),
                                install_dst_spec(entries[i as int].0@, sd, td),
                            ),
                        },
                        rel_spec(entries[i as int].0@, pd, td),
                    ),
                    svs.take(j as int),
                    pd,
                    td,
                ),
            decreases m - j,
        {
            proof {
                assert(svs.take(j + 1).drop_last() =~= svs.take(j as int));
                assert(svs.take(j + 1).last() == svs[j as int]);
                assert(svs[j as int] == sources@[j as int]@);
            }
            let rel_source = fs::remove_prefix(
                &sources[j],
                &options.project_dir,
                &options.target_dir,
            );
            add_to_groups(&mut group_sources, &mut classify_to_dir, rel_source);
            j = j + 1;
        }
        proof {
            assert(svs.take(m as int) =~= svs);
        }
        i = i + 1;
    }
    proof {
        assert(entries.take(n as int) =~= entries);
    }
    (group_sources, classify_to_dir, install_headers)
}

/// Where the header is installed from.
fn install_src(header: &String, options: &ScanOptions) -> (r: String)
    ensures
        r@ == install_src_spec(header@, options.source_dir@, options.project_dir@,
        options.target_dir@),
{
    if text::starts_with(header.as_str(), options.source_dir.as_str()) {
        fs::remove_prefix(header, &options.project_dir, &options.target_dir)
    } else {
        let mut s = String::new();
        s.append("${CMAKE_CURRENT_BINARY_DIR}/");
        let tail = fs::remove_prefix(header, &options.source_dir, &options.target_dir);
        s.append(tail.as_str());
        proof {
            assert(s@ =~= install_src_spec(header@, options.source_dir@, options.project_dir@,
            options.target_dir@));
        }
        s
    }
}

/// Where the header is installed to.
fn install_dst(header: &String, options: &ScanOptions) -> (r: String)
    ensures
        r@ == install_dst_spec(header@, options.source_dir@, options.target_dir@),
{
    let dir = text::parent_dir(header.as_str()).to_owned();
    if text::starts_with(dir.as_str(), options.source_dir.as_str()) {
        fs::remove_prefix(&dir, &options.source_dir, &options.target_dir)
    } else {
        String::new()
    }
}

/// One relative path added to both group tables.
fn add_to_groups(
    group_sources: &mut Vec<(String, Vec<String>)>,
    classify_to_dir: &mut Vec<(String, String)>,
    rel: String,
)
    requires
        kv::kv_keys_unique(old(group_sources)@),
        kv::kv_keys_unique(old(classify_to_dir)@),
    ensures
        kv::kv_keys_unique(final(group_sources)@),
        kv::kv_keys_unique(final(classify_to_dir)@),
        (GroupView {
            group_sources: group_map(final(group_sources)@),
            classify_to_dir: kv::kv_map(final(classify_to_dir)@),
            install_headers: Map::<Seq<char>, Seq<char>>::empty(),
        }) == grouped_with(
            GroupView {
                group_sources: group_map(old(group_sources)@),
                classify_to_dir: kv::kv_map(old(classify_to_dir)@),
                install_headers: Map::<Seq<char>, Seq<char>>::empty(),
            },
            rel@,
        ),
{
    let dir = text::parent_dir(rel.as_str()).to_owned();
    let classify = text::slashes_to_underscores(dir.as_str());
    kv::kv_set(classify_to_dir, classify.clone(), dir);
    group_add(group_sources, classify, rel);
}

} // verus!
