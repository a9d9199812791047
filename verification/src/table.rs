use vstd::prelude::*;

use indexmap::IndexMap;

use crate::sets::{UdpSetConfig, UdpSetConfigView, UdpSetRun, UdpSetRunView};

verus! {

/// `indexmap::IndexMap`: a hash map that keeps its entries in insertion order.
#[verifier::external_type_specification]
#[verifier::external_body]
#[verifier::reject_recursive_types(K)]
#[verifier::reject_recursive_types(V)]
#[verifier::reject_recursive_types(S)]
pub struct ExIndexMap<K, V, S>(IndexMap<K, V, S>);

/// The entries of a table of benchmark sets, in the map's order, each value
/// taken by its view.
pub uninterp spec fn set_table_entries(m: IndexMap<usize, UdpSetConfig>) -> Seq<(usize, UdpSetConfigView)>;

/// The entries of a table of benchmark sets as they are run, in the map's
/// order, each value taken by its view.
pub uninterp spec fn run_table_entries(m: IndexMap<usize, UdpSetRun>) -> Seq<(usize, UdpSetRunView)>;

/// The entries of a table of text pairs, in the map's order, keys and values
/// taken by their views.
pub uninterp spec fn text_table_entries(m: IndexMap<String, String>) -> Seq<(Seq<char>, Seq<char>)>;

/// The keys of a sequence of entries.
pub open spec fn entry_keys<K, V>(entries: Seq<(K, V)>) -> Seq<K> {
    entries.map_values(|e: (K, V)| e.0)
}

/// `IndexMap::new`: a map with no entries.
#[verifier::external_body]
pub(crate) fn new_set_table() -> (m: IndexMap<usize, UdpSetConfig>)
    ensures
        set_table_entries(m) == Seq::<(usize, UdpSetConfigView)>::empty(),
{
    IndexMap::new()
}

/// `IndexMap::insert`: the source documents that a key not yet in the map is
/// inserted last in order, all other entries staying as they were. What it
/// does to a key already present (value replaced in place) is not stated.
#[verifier::external_body]
pub(crate) fn insert_set(m: &mut IndexMap<usize, UdpSetConfig>, key: usize, value: UdpSetConfig)
    ensures
        !entry_keys(set_table_entries(*old(m))).contains(key) ==> set_table_entries(*final(m))
            == set_table_entries(*old(m)).push((key, value@)),
{
    m.insert(key, value);
}

/// `IndexMap::into_iter` collected into a `Vec`: the map's entries by value,
/// in the map's order.
#[verifier::external_body]
pub(crate) fn set_table_into_entries(m: IndexMap<usize, UdpSetConfig>) -> (entries: Vec<(usize, UdpSetConfig)>)
    ensures
        entries@.map_values(|e: (usize, UdpSetConfig)| (e.0, e.1@)) == set_table_entries(m),
{
    m.into_iter().collect()
}

/// `IndexMap::new`: a map with no entries.
#[verifier::external_body]
pub(crate) fn new_run_table() -> (m: IndexMap<usize, UdpSetRun>)
    ensures
        run_table_entries(m) == Seq::<(usize, UdpSetRunView)>::empty(),
{
    IndexMap::new()
}

/// `IndexMap::insert`: the source documents that a key not yet in the map is
/// inserted last in order, all other entries staying as they were. What it
/// does to a key already present (value replaced in place) is not stated.
#[verifier::external_body]
pub(crate) fn insert_run(m: &mut IndexMap<usize, UdpSetRun>, key: usize, value: UdpSetRun)
    ensures
        !entry_keys(run_table_entries(*old(m))).contains(key) ==> run_table_entries(*final(m))
            == run_table_entries(*old(m)).push((key, value@)),
{
    m.insert(key, value);
}

/// `IndexMap::new`: a map with no entries.
#[verifier::external_body]
pub(crate) fn new_text_table() -> (m: IndexMap<String, String>)
    ensures
        text_table_entries(m) == Seq::<(Seq<char>, Seq<char>)>::empty(),
{
    IndexMap::new()
}

/// `IndexMap::insert` on text keys: a key whose text is not yet in the map is
/// inserted last in order (`String`'s equality and hash go by the text). What
/// it does to a key already present is not stated.
#[verifier::external_body]
pub(crate) fn insert_text(m: &mut IndexMap<String, String>, key: String, value: String)
    ensures
        !entry_keys(text_table_entries(*old(m))).contains(key@) ==> text_table_entries(*final(m))
            == text_table_entries(*old(m)).push((key@, value@)),
{
    m.insert(key, value);
}

} // verus!
