//! The parts of sled that the disk backend uses, with what it relies on.
//!
//! A tree is seen through `tree_entries`, the map that its entries form. The
//! disk backend holds one handle per tree and writes a tree only through
//! `tree_insert` on that handle, which is why `tree_insert` takes it as
//! `&mut` although sled's `insert` takes `&self`. A sled error is handed on as
//! its message.
use vstd::prelude::*;

verus! {

#[verifier::external_type_specification]
#[verifier::external_body]
pub struct ExDb(sled::Db);

#[verifier::external_type_specification]
#[verifier::external_body]
pub struct ExTree(sled::Tree);

/// The entries of a sled tree, key bytes to value bytes.
pub uninterp spec fn tree_entries(t: sled::Tree) -> Map<Seq<u8>, Seq<u8>>;

/// Relies on `sled::open`: opens or creates the database at `path`.
#[verifier::external_body]
pub(crate) fn open_db(path: &str) -> (r: Result<sled::Db, String>) {
    sled::open(path).map_err(|e| e.to_string())
}

/// Relies on `sled::Db::open_tree`: opens or creates the tree called `name`.
#[verifier::external_body]
pub(crate) fn open_tree(db: &sled::Db, name: &str) -> (r: Result<sled::Tree, String>) {
    db.open_tree(name).map_err(|e| e.to_string())
}

/// Relies on `sled::Tree::insert`: on success the tree maps `key` to `value`
/// and every other key as before.
#[verifier::external_body]
pub(crate) fn tree_insert(tree: &mut sled::Tree, key: Vec<u8>, value: Vec<u8>) -> (r: Result<
    (),
    String,
>)
    ensures
        r is Ok ==> tree_entries(*final(tree)) == tree_entries(*old(tree)).insert(key@, value@),
{
    tree.insert(key, value).map(|_| ()).map_err(|e| e.to_string())
}

/// Relies on `sled::Tree::get`: on success, the value stored under `key`, if any.
#[verifier::external_body]
pub(crate) fn tree_get(tree: &sled::Tree, key: &[u8]) -> (r: Result<Option<Vec<u8>>, String>)
    ensures
        r is Ok ==> (r->Ok_0 is Some <==> tree_entries(*tree).contains_key(key@)),
        r is Ok && r->Ok_0 is Some ==> r->Ok_0->Some_0@ == tree_entries(*tree)[key@],
{
    tree.get(key).map(|v| v.map(|v| v.to_vec())).map_err(|e| e.to_string())
}

/// Relies on `sled::Tree::flush`: writes all dirty buffers to disk and syncs.
#[verifier::external_body]
pub(crate) fn tree_flush(tree: &sled::Tree) -> (r: Result<(), String>) {
    tree.flush().map(|_| ()).map_err(|e| e.to_string())
}

/// Relies on `sled::Tree::iter`: on success, every entry of the tree, each key once.
#[verifier::external_body]
pub(crate) fn tree_pairs(tree: &sled::Tree) -> (r: Result<Vec<(Vec<u8>, Vec<u8>)>, String>)
    ensures
        r is Ok ==> {
            let p = r->Ok_0@;
            &&& forall|i: int|
                0 <= i < p.len() ==> #[trigger] tree_entries(*tree).contains_key(p[i].0@)
                    && tree_entries(*tree)[p[i].0@] == p[i].1@
            &&& forall|i: int, j: int|
                0 <= i < j < p.len() ==> #[trigger] p[i].0@ != #[trigger] p[j].0@
            &&& forall|k: Seq<u8>|
                #[trigger] tree_entries(*tree).contains_key(k) ==> exists|i: int|
                    0 <= i < p.len() && #[trigger] p[i].0@ == k
        },
{
    tree.iter().map(|e| e.map(|(k, v)| (k.to_vec(), v.to_vec()))).collect::<Result<_, _>>().map_err(
        |e| e.to_string(),
    )
}

} // verus!
