//! The database under the store: sled, behind a handful of trusted functions.
//!
//! Verus does not look inside sled. Each function in this module that carries
//! `external_body` makes one call into sled, and its contract is taken on
//! trust from sled's documentation and source. The contracts speak of
//! [`tree_contents`], the map from keys to values that a tree holds, of
//! [`tree_name`], the name under which a tree was opened, and of
//! [`staged_writes`], what a running transaction has staged for a tree.
//!
//! A tree handle stands for its tree alone: the contracts hold as long as the
//! handle is the only one to its tree. [`handed_out`] keeps count of the names
//! under which a database has given out a handle, and [`open_tree`] and
//! [`default_tree`] refuse, by their `requires`, to give out a second handle
//! to one tree. The store opens each of its trees once and never hands a
//! handle on.
//!
//! sled does not undo what a failed call has written. After a plain write that
//! fails, the tree is as it was or holds the write. After a transaction that
//! fails, each key is as it was or as the transaction would have left it.

use vstd::prelude::*;
use crate::error::StorageError;

verus! {

#[verifier::external_type_specification]
#[verifier::external_body]
pub struct ExDb(sled::Db);

#[verifier::external_type_specification]
#[verifier::external_body]
pub struct ExTree(sled::Tree);

#[verifier::external_type_specification]
#[verifier::external_body]
pub struct ExSledError(sled::Error);

#[verifier::external_type_specification]
#[verifier::external_body]
pub struct ExTransactionalTree(sled::transaction::TransactionalTree);

#[verifier::external_type_specification]
#[verifier::external_body]
pub struct ExUnabortableTransactionError(sled::transaction::UnabortableTransactionError);

/// The keys of a tree and the value stored under each.
pub uninterp spec fn tree_contents(tree: sled::Tree) -> Map<Seq<u8>, Seq<u8>>;

/// The name under which a tree was opened in its database.
pub uninterp spec fn tree_name(tree: sled::Tree) -> Seq<u8>;

/// The names of the trees to which this database handle has given out a tree
/// handle since it was opened.
pub uninterp spec fn handed_out(db: sled::Db) -> Set<Seq<u8>>;

/// The name of the tree that a database holds without being asked: the bytes
/// of `__sled__default`.
pub open spec fn default_tree_name() -> Seq<u8> {
    seq![95u8, 95, 115, 108, 101, 100, 95, 95, 100, 101, 102, 97, 117, 108, 116]
}

/// The writes that a running transaction has staged for a tree: for each key
/// that it has written, the value that it will hold, or `None` where it will
/// be gone.
pub uninterp spec fn staged_writes(tree: sled::transaction::TransactionalTree) -> Map<Seq<u8>, Option<Seq<u8>>>;

/// One key of a tree with its value.
pub struct Entry {
    pub key: Vec<u8>,
    pub value: Vec<u8>,
}

impl View for Entry {
    type V = (Seq<u8>, Seq<u8>);

    open spec fn view(&self) -> (Seq<u8>, Seq<u8>) {
        (self.key@, self.value@)
    }
}

/// The entries of a vector, each as a pair of byte sequences.
pub open spec fn entries_view(entries: Seq<Entry>) -> Seq<(Seq<u8>, Seq<u8>)> {
    entries.map_values(|e: Entry| e@)
}

/// `entries` lists `contents`: every key once, each with its value.
pub open spec fn is_listing(entries: Seq<(Seq<u8>, Seq<u8>)>, contents: Map<Seq<u8>, Seq<u8>>) -> bool {
    &&& forall|i: int, j: int|
        0 <= i < j < entries.len() ==> (#[trigger] entries[i]).0 != (#[trigger] entries[j]).0
    &&& forall|i: int|
        0 <= i < entries.len() ==> contents.contains_pair((#[trigger] entries[i]).0, entries[i].1)
    &&& forall|k: Seq<u8>| #[trigger]
        contents.contains_key(k) ==> exists|i: int| 0 <= i < entries.len() && (#[trigger] entries[i]).0 == k
}

/// A change to one key of a tree.
pub enum Write {
    /// Store `value` under `key`, replacing what was there.
    Insert { key: Vec<u8>, value: Vec<u8> },
    /// Remove `key` and its value, if present.
    Remove { key: Vec<u8> },
}

/// A [`Write`] as plain byte sequences.
pub enum WriteView {
    Insert { key: Seq<u8>, value: Seq<u8> },
    Remove { key: Seq<u8> },
}

impl View for Write {
    type V = WriteView;

    open spec fn view(&self) -> WriteView {
        match self {
            Write::Insert { key, value } => WriteView::Insert { key: key@, value: value@ },
            Write::Remove { key } => WriteView::Remove { key: key@ },
        }
    }
}

/// The writes of a vector, each as plain byte sequences.
pub open spec fn writes_view(writes: Seq<Write>) -> Seq<WriteView> {
    writes.map_values(|w: Write| w@)
}

/// What a tree holds after one write.
pub open spec fn apply_write(contents: Map<Seq<u8>, Seq<u8>>, write: WriteView) -> Map<Seq<u8>, Seq<u8>> {
    match write {
        WriteView::Insert { key, value } => contents.insert(key, value),
        WriteView::Remove { key } => contents.remove(key),
    }
}

/// What a tree holds after a run of writes, applied first to last.
pub open spec fn apply_writes(contents: Map<Seq<u8>, Seq<u8>>, writes: Seq<WriteView>) -> Map<Seq<u8>, Seq<u8>>
    decreases writes.len(),
{
    if writes.len() == 0 {
        contents
    } else {
        apply_write(apply_writes(contents, writes.drop_last()), writes.last())
    }
}

/// Calls `sled::open`: opens the database at `path`, creating it if there is
/// none. The handle that comes back has given out no tree handle yet. Nothing
/// is claimed of what the database holds.
#[verifier::external_body]
pub(crate) fn open_db(path: &str) -> (r: Result<sled::Db, sled::Error>)
    ensures
        r matches Ok(db) ==> handed_out(db) == Set::<Seq<u8>>::empty(),
{
    sled::open(path)
}

/// Calls `Db::open_tree`: opens the tree of the database that goes by the one
/// byte `name`, creating it if there is none. The tree that comes back goes by
/// that name. Nothing is claimed of what the tree holds. sled hands out a
/// handle to the same tree each time it is asked for one name, so this is
/// called once for a name at most.
#[verifier::external_body]
pub(crate) fn open_tree(db: &mut sled::Db, name: u8) -> (r: Result<sled::Tree, sled::Error>)
    requires
        !handed_out(*old(db)).contains(seq![name]),
    ensures
        r matches Ok(tree) ==> tree_name(tree) == seq![name] && handed_out(*final(db)) == handed_out(
            *old(db),
        ).insert(seq![name]),
        r is Err ==> handed_out(*final(db)) == handed_out(*old(db)),
{
    db.open_tree([name])
}

/// Hands out the tree that a `Db` dereferences to: the database's default
/// tree, which goes by the name `__sled__default`. Each call clones a handle
/// to the same tree, so this is called once at most.
#[verifier::external_body]
pub(crate) fn default_tree(db: &mut sled::Db) -> (tree: sled::Tree)
    requires
        !handed_out(*old(db)).contains(default_tree_name()),
    ensures
        tree_name(tree) == default_tree_name(),
        handed_out(*final(db)) == handed_out(*old(db)).insert(default_tree_name()),
{
    sled::Tree::clone(db)
}

/// Calls `Tree::get`. When the call succeeds, the result is the value that
/// the tree holds under `key`, or `None` if it holds none.
#[verifier::external_body]
pub(crate) fn tree_get(tree: &sled::Tree, key: &[u8]) -> (r: Result<Option<Vec<u8>>, sled::Error>)
    ensures
        r matches Ok(Some(value)) ==> tree_contents(*tree).contains_pair(key@, value@),
        r matches Ok(None) ==> !tree_contents(*tree).contains_key(key@),
{
    tree.get(key).map(|found| found.map(|value| value.to_vec()))
}

/// Calls `Tree::insert`. When the call succeeds, the tree holds `value` under
/// `key` and is otherwise unchanged. When it fails, the tree is as it was, or
/// holds the write all the same: sled can fail after it has changed the page.
#[verifier::external_body]
pub(crate) fn tree_insert(tree: &mut sled::Tree, key: &[u8], value: Vec<u8>) -> (r: Result<(), sled::Error>)
    ensures
        r is Ok ==> tree_contents(*final(tree)) == tree_contents(*old(tree)).insert(key@, value@),
        r is Err ==> tree_contents(*final(tree)) == tree_contents(*old(tree)) || tree_contents(*final(tree))
            == tree_contents(*old(tree)).insert(key@, value@),
        tree_name(*final(tree)) == tree_name(*old(tree)),
{
    tree.insert(key, value).map(|_| ())
}

/// Calls `Tree::remove`. When the call succeeds, the tree no longer holds
/// `key` and is otherwise unchanged. When it fails, the tree is as it was, or
/// has lost the key all the same: sled can fail after it has changed the page.
#[verifier::external_body]
pub(crate) fn tree_remove(tree: &mut sled::Tree, key: &[u8]) -> (r: Result<(), sled::Error>)
    ensures
        r is Ok ==> tree_contents(*final(tree)) == tree_contents(*old(tree)).remove(key@),
        r is Err ==> tree_contents(*final(tree)) == tree_contents(*old(tree)) || tree_contents(*final(tree))
            == tree_contents(*old(tree)).remove(key@),
        tree_name(*final(tree)) == tree_name(*old(tree)),
{
    tree.remove(key).map(|_| ())
}

/// Calls `Tree::iter` and collects what it yields. When every step succeeds,
/// the result lists the tree: each key once, with its value.
#[verifier::external_body]
pub(crate) fn tree_entries(tree: &sled::Tree) -> (r: Result<Vec<Entry>, sled::Error>)
    ensures
        r matches Ok(entries) ==> is_listing(entries_view(entries@), tree_contents(*tree)),
{
    tree.iter().map(|item| item.map(|(key, value)| Entry { key: key.to_vec(), value: value.to_vec() })).collect()
}

/// What a transaction has staged after it stages one more write.
pub open spec fn stage_write(staged: Map<Seq<u8>, Option<Seq<u8>>>, write: WriteView) -> Map<
    Seq<u8>,
    Option<Seq<u8>>,
> {
    match write {
        WriteView::Insert { key, value } => staged.insert(key, Some(value)),
        WriteView::Remove { key } => staged.insert(key, None),
    }
}

/// What a transaction has staged after it stages a run of writes, first to
/// last.
pub open spec fn stage_all(staged: Map<Seq<u8>, Option<Seq<u8>>>, writes: Seq<WriteView>) -> Map<
    Seq<u8>,
    Option<Seq<u8>>,
>
    decreases writes.len(),
{
    if writes.len() == 0 {
        staged
    } else {
        stage_write(stage_all(staged, writes.drop_last()), writes.last())
    }
}

/// `after` is `before` with some first part of `writes` staged on top.
pub open spec fn staged_part(
    before: Map<Seq<u8>, Option<Seq<u8>>>,
    after: Map<Seq<u8>, Option<Seq<u8>>>,
    writes: Seq<WriteView>,
) -> bool {
    exists|n: int| 0 <= n <= writes.len() && after == stage_all(before, #[trigger] writes.take(n))
}

/// What a tree holds once a transaction has committed what it staged: each
/// staged key has its staged value, or is gone; every other key is as it was.
pub open spec fn commit(contents: Map<Seq<u8>, Seq<u8>>, staged: Map<Seq<u8>, Option<Seq<u8>>>) -> Map<
    Seq<u8>,
    Seq<u8>,
> {
    Map::new(
        |key: Seq<u8>|
            if staged.contains_key(key) {
                staged[key] is Some
            } else {
                contents.contains_key(key)
            },
        |key: Seq<u8>|
            if staged.contains_key(key) {
                staged[key]->Some_0
            } else {
                contents[key]
            },
    )
}

/// Two trees agree on `key`: both hold it with one value, or neither holds it.
pub open spec fn same_at(a: Map<Seq<u8>, Seq<u8>>, b: Map<Seq<u8>, Seq<u8>>, key: Seq<u8>) -> bool {
    a.contains_key(key) == b.contains_key(key) && (a.contains_key(key) ==> a[key] == b[key])
}

/// `after` lies between `before` and `target`: at each key it agrees with the
/// one or with the other. Where `before` and `target` agree on a key, `after`
/// agrees with both.
pub open spec fn between(
    before: Map<Seq<u8>, Seq<u8>>,
    after: Map<Seq<u8>, Seq<u8>>,
    target: Map<Seq<u8>, Seq<u8>>,
) -> bool {
    forall|key: Seq<u8>| #[trigger] same_at(after, before, key) || same_at(after, target, key)
}

/// Committing what a fresh transaction has staged for a run of writes gives
/// what applying the writes one after the other gives.
pub proof fn lemma_commit_applies_the_writes(contents: Map<Seq<u8>, Seq<u8>>, writes: Seq<WriteView>)
    ensures
        commit(contents, stage_all(Map::empty(), writes)) == apply_writes(contents, writes),
    decreases writes.len(),
{
    if writes.len() == 0 {
        assert(commit(contents, Map::empty()) =~= contents);
    } else {
        lemma_commit_applies_the_writes(contents, writes.drop_last());
        let earlier = stage_all(Map::empty(), writes.drop_last());
        assert(commit(contents, stage_write(earlier, writes.last())) =~= apply_write(
            commit(contents, earlier),
            writes.last(),
        ));
    }
}

/// Calls `TransactionalTree::insert`, which looks the key up and then stages
/// the write inside the running transaction. When the lookup fails, nothing is
/// staged.
#[verifier::external_body]
pub(crate) fn stage_insert(tree: &mut sled::transaction::TransactionalTree, key: &[u8], value: &[u8]) -> (r: Result<
    (),
    sled::transaction::UnabortableTransactionError,
>)
    ensures
        r is Ok ==> staged_writes(*final(tree)) == staged_writes(*old(tree)).insert(key@, Some(value@)),
        r is Err ==> staged_writes(*final(tree)) == staged_writes(*old(tree)),
{
    tree.insert(key, value).map(|_| ())
}

/// Calls `TransactionalTree::remove`, which looks the key up and stages the
/// removal inside the running transaction, whether the lookup fails or not.
#[verifier::external_body]
pub(crate) fn stage_remove(tree: &mut sled::transaction::TransactionalTree, key: &[u8]) -> (r: Result<
    (),
    sled::transaction::UnabortableTransactionError,
>)
    ensures
        staged_writes(*final(tree)) == staged_writes(*old(tree)).insert(key@, None),
{
    tree.remove(key).map(|_| ())
}

/// Stages `writes`, first to last, inside a running transaction. Stops at the
/// first write that the database refuses: the writes before it are staged
/// then, and no write after it.
pub(crate) fn stage_writes(tree: &mut sled::transaction::TransactionalTree, writes: &Vec<Write>) -> (r: Result<
    (),
    sled::transaction::UnabortableTransactionError,
>)
    ensures
        r is Ok ==> staged_writes(*final(tree)) == stage_all(staged_writes(*old(tree)), writes_view(writes@)),
        r is Err ==> staged_part(staged_writes(*old(tree)), staged_writes(*final(tree)), writes_view(writes@)),
{
    let ghost before = staged_writes(*tree);
    let ghost all = writes_view(writes@);
    let mut i: usize = 0;
    assert(all.take(0) =~= Seq::<WriteView>::empty());
    while i < writes.len()
        invariant
            i <= writes.len(),
            all == writes_view(writes@),
            before == staged_writes(*old(tree)),
            staged_writes(*tree) == stage_all(before, all.take(i as int)),
        decreases writes.len() - i,
    {
        proof {
            let upto = all.take(i as int + 1);
            assert(upto.drop_last() =~= all.take(i as int));
            assert(upto.last() == writes@[i as int]@);
        }
        let staged = match &writes[i] {
            Write::Insert { key, value } => stage_insert(tree, key.as_slice(), value.as_slice()),
            Write::Remove { key } => stage_remove(tree, key.as_slice()),
        };
        match staged {
            Ok(()) => {},
            Err(e) => {
                assert(staged_writes(*tree) == stage_all(before, all.take(i as int)) || staged_writes(*tree)
                    == stage_all(before, all.take(i as int + 1)));
                return Err(e);
            },
        }
        i = i + 1;
    }
    assert(all.take(i as int) =~= all);
    Ok(())
}

/// Stages the writes of two trees inside one running transaction: those of
/// the first tree, then those of the second. Stops at the first write that the
/// database refuses.
pub(crate) fn stage_writes_pair(
    first: &mut sled::transaction::TransactionalTree,
    second: &mut sled::transaction::TransactionalTree,
    first_writes: &Vec<Write>,
    second_writes: &Vec<Write>,
) -> (r: Result<(), sled::transaction::UnabortableTransactionError>)
    ensures
        r is Ok ==> staged_writes(*final(first)) == stage_all(
            staged_writes(*old(first)),
            writes_view(first_writes@),
        ) && staged_writes(*final(second)) == stage_all(staged_writes(*old(second)), writes_view(second_writes@)),
        r is Err ==> staged_part(
            staged_writes(*old(first)),
            staged_writes(*final(first)),
            writes_view(first_writes@),
        ) && staged_part(staged_writes(*old(second)), staged_writes(*final(second)), writes_view(second_writes@)),
{
    match stage_writes(first, first_writes) {
        Ok(()) => {
            let r = stage_writes(second, second_writes);
            proof {
                let all = writes_view(first_writes@);
                assert(all.take(all.len() as int) =~= all);
            }
            r
        },
        Err(e) => {
            proof {
                let all = writes_view(second_writes@);
                assert(all.take(0) =~= Seq::<WriteView>::empty());
                assert(staged_writes(*second) == stage_all(staged_writes(*old(second)), all.take(0)));
            }
            Err(e)
        },
    }
}

/// Calls `Tree::transaction` with a closure that stages `writes`. When the
/// call succeeds, sled has committed what the closure staged: the tree holds
/// what it held, overlaid with the staged writes. When the call fails, sled
/// undoes nothing: it commits the staged keys one by one and gives up at the
/// first failure, so each key is as it was or as the commit would have left
/// it, and the keys that no write names are as they were.
#[verifier::external_body]
pub(crate) fn tree_transaction(tree: &mut sled::Tree, writes: &Vec<Write>) -> (r: Result<(), StorageError>)
    ensures
        r is Ok ==> tree_contents(*final(tree)) == commit(
            tree_contents(*old(tree)),
            stage_all(Map::empty(), writes_view(writes@)),
        ),
        r matches Err(e) ==> e is Engine && between(
            tree_contents(*old(tree)),
            tree_contents(*final(tree)),
            commit(tree_contents(*old(tree)), stage_all(Map::empty(), writes_view(writes@))),
        ),
        tree_name(*final(tree)) == tree_name(*old(tree)),
{
    tree.transaction::<_, _, sled::transaction::UnabortableTransactionError>(
        |t| Ok(stage_writes(&mut t.clone(), writes)?),
    )
        .map_err(|e| StorageError::Engine(e.to_string()))
}

/// Calls `Transactional::transaction` on a pair of trees, with a closure that
/// stages the writes of each. When the call succeeds, sled has committed what
/// the closure staged for each tree. When the call fails, sled undoes
/// nothing: in each tree, each key is as it was or as the commit would have
/// left it, and the keys that no write names are as they were.
#[verifier::external_body]
pub(crate) fn tree_pair_transaction(
    first: &mut sled::Tree,
    second: &mut sled::Tree,
    first_writes: &Vec<Write>,
    second_writes: &Vec<Write>,
) -> (r: Result<(), StorageError>)
    ensures
        r is Ok ==> tree_contents(*final(first)) == commit(
            tree_contents(*old(first)),
            stage_all(Map::empty(), writes_view(first_writes@)),
        ) && tree_contents(*final(second)) == commit(
            tree_contents(*old(second)),
            stage_all(Map::empty(), writes_view(second_writes@)),
        ),
        r matches Err(e) ==> e is Engine && between(
            tree_contents(*old(first)),
            tree_contents(*final(first)),
            commit(tree_contents(*old(first)), stage_all(Map::empty(), writes_view(first_writes@))),
        ) && between(
            tree_contents(*old(second)),
            tree_contents(*final(second)),
            commit(tree_contents(*old(second)), stage_all(Map::empty(), writes_view(second_writes@))),
        ),
        tree_name(*final(first)) == tree_name(*old(first)),
        tree_name(*final(second)) == tree_name(*old(second)),
{
    sled::Transactional::transaction(
        &(&*first, &*second),
        |(a, b)| -> sled::transaction::ConflictableTransactionResult<(), sled::transaction::UnabortableTransactionError> {
            Ok(stage_writes_pair(&mut a.clone(), &mut b.clone(), first_writes, second_writes)?)
        },
    ).map_err(|e| StorageError::Engine(e.to_string()))
}

} // verus!
