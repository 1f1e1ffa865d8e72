//! Trusted interface to the outside prefix-tree collection that backs the
//! search index. A trie is modelled by two sets: the words it holds, and
//! the (word, data item) pairs attached to them — a word can exist with no
//! data, so the two are named separately. Every contract below is stated
//! over those sets.

use vstd::prelude::*;

use basic_trie::DataTrie;

use crate::util::text;

verus! {

#[verifier::external_type_specification]
#[verifier::external_body]
#[verifier::reject_recursive_types(D)]
pub struct ExDataTrie<D>(DataTrie<D>);

/// The words the trie holds, each as its character sequence.
pub uninterp spec fn trie_words(t: DataTrie<String>) -> Set<Seq<char>>;

/// The (word, data item) pairs the trie holds, each as its character
/// sequences; every pair's word is one of the trie's words.
pub uninterp spec fn trie_entries(t: DataTrie<String>) -> Set<(Seq<char>, Seq<char>)>;

/// The words among `ws` that begin with `q`.
pub open spec fn words_with_prefix(ws: Set<Seq<char>>, q: Seq<char>) -> Set<Seq<char>> {
    Set::new(|w: Seq<char>| ws.contains(w) && text::is_prefix_of(q, w))
}

/// The data items among `es` whose word begins with `q`.
pub open spec fn data_with_prefix(es: Set<(Seq<char>, Seq<char>)>, q: Seq<char>) -> Set<
    Seq<char>,
> {
    Set::new(
        |d: Seq<char>|
            exists|e: (Seq<char>, Seq<char>)|
                #[trigger] es.contains(e) && text::is_prefix_of(q, e.0) && e.1 == d,
    )
}

/// Relies on DataTrie::new: the new trie holds no words.
#[verifier::external_body]
pub fn trie_new() -> (r: DataTrie<String>)
    ensures
        trie_words(r) == Set::<Seq<char>>::empty(),
        trie_entries(r) == Set::<(Seq<char>, Seq<char>)>::empty(),
{
    DataTrie::new()
}

/// Relies on DataTrie::insert: the word is added to the trie and the data
/// item is appended to the word's data.
#[verifier::external_body]
pub fn trie_insert(t: &mut DataTrie<String>, word: &str, data: String)
    ensures
        trie_words(*final(t)) == trie_words(*old(t)).insert(word@),
        trie_entries(*final(t)) == trie_entries(*old(t)).insert((word@, data@)),
{
    t.insert(word, data);
}

/// Relies on DataTrie::get: exactly the stored words that begin with the
/// query; nothing only when no stored word begins with the query.
#[verifier::external_body]
pub fn trie_get(t: &DataTrie<String>, query: &str) -> (r: Option<Vec<String>>)
    ensures
        match r {
            Some(words) => forall|w: Seq<char>|
                #![all_triggers]
                words@.map_values(|s: String| s@).contains(w) <==> words_with_prefix(
                    trie_words(*t),
                    query@,
                ).contains(w),
            None => words_with_prefix(trie_words(*t), query@) =~= Set::<Seq<char>>::empty(),
        },
{
    t.get(query)
}

/// Relies on DataTrie::get_data with soft matching: the data items of every
/// stored word that begins with the query; nothing only when no stored word
/// begins with the query.
#[verifier::external_body]
pub fn trie_get_data(t: &DataTrie<String>, query: &str) -> (r: Option<Vec<String>>)
    ensures
        match r {
            Some(items) => forall|d: Seq<char>|
                #![all_triggers]
                items@.map_values(|s: String| s@).contains(d) <==> data_with_prefix(
                    trie_entries(*t),
                    query@,
                ).contains(d),
            None => data_with_prefix(trie_entries(*t), query@) =~= Set::<Seq<char>>::empty(),
        },
{
    t.get_data(query, true).map(|v| v.into_iter().cloned().collect())
}

} // verus!
