//! Tags kept as rows of the cluster index `zstags` of a persy database: one
//! row per tag, keyed by the file's path relative to a base directory.
use vstd::prelude::*;
use crate::backend::{storage_error, Backend, TagError};
use crate::paths::{absolute_of, get_absolute_path, is_abs, normalize_path, relative_of};
use crate::tagset::TagSet;
use crate::text::str_eq;

verus! {

#[verifier::external_type_specification]
#[verifier::external_body]
pub struct ExPersy(persy::Persy);

#[verifier::external_type_specification]
#[verifier::external_body]
pub struct ExTransaction(persy::Transaction);

#[verifier::external_type_specification]
#[verifier::external_body]
pub struct ExTransactionFinalize(persy::TransactionFinalize);

/// The pending changes of the transaction `tx` that replace a key's rows:
/// for each (index, key) whose rows `tx` has removed, the values that `tx`
/// has put for that key since. Nothing that commits elsewhere changes it.
pub uninterp spec fn replaced_rows(tx: persy::Transaction) -> Map<(Seq<char>, Seq<char>), Set<Seq<char>>>;

/// The name of the index that holds the tags.
pub open spec fn tag_index() -> Seq<char> {
    seq!['z', 's', 't', 'a', 'g', 's']
}

/// Relies on `persy::Persy::create`: creates a new database file at `path`.
#[verifier::external_body]
fn db_create(path: &str) -> (r: Result<(), String>) {
    persy::Persy::create(path).map_err(|e| e.to_string())
}

/// Relies on `persy::Persy::open`: opens the database file at `path` with
/// the default configuration.
#[verifier::external_body]
fn db_open(path: &str) -> (r: Result<persy::Persy, String>) {
    persy::Persy::open(path, persy::Config::new()).map_err(|e| e.to_string())
}

/// Relies on `persy::Persy::begin`: starts a transaction.
#[verifier::external_body]
fn db_begin(db: &persy::Persy) -> (r: Result<persy::Transaction, String>) {
    db.begin().map_err(|e| e.to_string())
}

/// Relies on `persy::Transaction::create_index`: creates the index `name`,
/// from strings to strings, that keeps several values per key; it starts
/// with no rows.
#[verifier::external_body]
fn tx_create_cluster_index(tx: &mut persy::Transaction, name: &str) -> (r: Result<(), String>) {
    tx.create_index::<String, String>(name, persy::ValueMode::Cluster).map_err(|e| e.to_string())
}

/// Relies on `persy::Transaction::remove` with no value: records in `tx`
/// that every row of `key` in the index `name` goes, and no value put for it
/// since; the changes recorded for other keys stay as they were.
#[verifier::external_body]
fn tx_remove_key(tx: &mut persy::Transaction, name: &str, key: &String) -> (r: Result<(), String>)
    ensures
        r is Ok ==> replaced_rows(*final(tx)) == replaced_rows(*old(tx)).insert((name@, key@), Set::empty()),
{
    tx.remove::<String, String>(name, key.clone(), None).map_err(|e| e.to_string())
}

/// Relies on `persy::Transaction::put`: records in `tx` the row `key`,
/// `value` of the index `name`; the changes recorded for other keys stay as
/// they were.
#[verifier::external_body]
fn tx_put(tx: &mut persy::Transaction, name: &str, key: &String, value: &String) -> (r: Result<(), String>)
    ensures
        r is Ok && replaced_rows(*old(tx)).contains_key((name@, key@)) ==> replaced_rows(*final(tx))
            == replaced_rows(*old(tx)).insert(
            (name@, key@),
            replaced_rows(*old(tx))[(name@, key@)].insert(value@),
        ),
{
    tx.put::<String, String>(name, key.clone(), value.clone()).map_err(|e| e.to_string())
}

/// Relies on `persy::Transaction::prepare`: the first phase of a commit.
#[verifier::external_body]
fn tx_prepare(tx: persy::Transaction) -> (r: Result<persy::TransactionFinalize, String>) {
    tx.prepare().map_err(|e| e.to_string())
}

/// Relies on `persy::TransactionFinalize::commit`: makes a prepared
/// transaction durable.
#[verifier::external_body]
fn tx_commit(fin: persy::TransactionFinalize) -> (r: Result<(), String>) {
    fin.commit().map_err(|e| e.to_string())
}

/// Relies on `persy::Persy::get`: the values of `key` in the index `name`.
#[verifier::external_body]
fn db_get(db: &persy::Persy, name: &str, key: &String) -> (r: Result<Vec<String>, String>) {
    db.get::<String, String>(name, key).map(|it| it.collect()).map_err(|e| e.to_string())
}

/// The key under which the tags of `path` are stored.
pub open spec fn key_of(path: Seq<char>, cur_dir: Seq<char>, base: Seq<char>) -> Seq<char> {
    relative_of(absolute_of(path, cur_dir), base)
}

/// Construction arguments that are malformed: not two or three of them, or
/// a third one other than `init`.
pub open spec fn bad_args(args: Seq<Seq<char>>) -> bool {
    args.len() < 2 || args.len() > 3 || (args.len() == 3 && args[2] != seq!['i', 'n', 'i', 't'])
}

/// Keeps tags in a persy database.
pub struct PersyBackend {
    persy: persy::Persy,
    norm_path: String,
    cur_dir: String,
}


impl PersyBackend {
    /// The absolute directory that keys are relative to.
    pub closed spec fn base(&self) -> Seq<char> {
        self.norm_path@
    }

    /// The absolute directory that relative paths start from.
    pub closed spec fn cwd(&self) -> Seq<char> {
        self.cur_dir@
    }

    /// Both directories are absolute.
    pub open spec fn wf(&self) -> bool {
        is_abs(self.base()) && is_abs(self.cwd())
    }

    /// Opens the database `args[0]`, with keys relative to `args[1]` taken
    /// from `cur_dir`; a third argument `init` first creates the database
    /// and its index.
    pub fn new(args: Vec<&str>, cur_dir: &str) -> (r: Result<PersyBackend, TagError>)
        requires
            is_abs(cur_dir@),
        ensures
            bad_args(args@.map_values(|a: &str| a@)) ==> r is Err && r->Err_0 is Config,
            r is Err && r->Err_0 is Config ==> bad_args(args@.map_values(|a: &str| a@)),
            r is Ok ==> r->Ok_0.wf() && r->Ok_0.cwd() == cur_dir@
                && r->Ok_0.base() == absolute_of(args@[1]@, cur_dir@),
    {
        let ghost av = args@.map_values(|a: &str| a@);
        if args.len() < 2 || args.len() > 3 {
            return Err(TagError::Config(String::from_str("persy backend: invalid invocation (expects only 2 or 3 args)")));
        }
        assert(av[1] == args@[1]@);
        let persy_path = args[0];
        let norm_path = get_absolute_path(args[1], cur_dir);
        let mut do_init = false;
        if args.len() == 3 {
            proof {
                reveal_strlit("init");
                assert("init"@ =~= seq!['i', 'n', 'i', 't']);
                assert(av[2] == args@[2]@);
            }
            if str_eq(args[2], "init") {
                if let Err(e) = db_create(persy_path) {
                    return Err(TagError::Storage(e));
                }
                do_init = true;
            } else {
                return Err(TagError::Config(String::from_str("persy backend: unknown modifier")));
            }
        }
        let persy = match db_open(persy_path) {
            Ok(p) => p,
            Err(e) => return Err(TagError::Storage(e)),
        };
        if do_init {
            let mut tx = match db_begin(&persy) {
                Ok(tx) => tx,
                Err(e) => return Err(TagError::Storage(e)),
            };
            if let Err(e) = tx_create_cluster_index(&mut tx, "zstags") {
                return Err(TagError::Storage(e));
            }
            if let Err(e) = PersyBackend::finish(tx) {
                return Err(e);
            }
        }
        Ok(PersyBackend { persy, norm_path, cur_dir: String::from_str(cur_dir) })
    }

    /// Prepares and commits `tx`.
    fn finish(tx: persy::Transaction) -> (r: Result<(), TagError>)
        ensures
            r is Err ==> r->Err_0 is Storage,
    {
        let fin = match tx_prepare(tx) {
            Ok(f) => f,
            Err(e) => return Err(TagError::Storage(e)),
        };
        match tx_commit(fin) {
            Ok(()) => Ok(()),
            Err(e) => Err(TagError::Storage(e)),
        }
    }

    /// The key under which the tags of `path` are stored: its absolute form
    /// relative to the base directory.
    pub fn mangle_path(&self, path: &str) -> (r: String)
        requires
            self.wf(),
        ensures
            r@ == key_of(path@, self.cwd(), self.base()),
    {
        let abs = get_absolute_path(path, self.cur_dir.as_str());
        normalize_path(abs.as_str(), self.norm_path.as_str())
    }
}

/// Records in `tx` that the rows of `key` in the tag index are replaced by
/// one row per tag; the changes that `tx` records for other keys stay as
/// they were.
pub fn stage_tags(tx: &mut persy::Transaction, key: &String, tags: &TagSet) -> (r: Result<(), TagError>)
    requires
        tags.wf(),
    ensures
        r is Err ==> r->Err_0 is Storage,
        r is Ok ==> replaced_rows(*final(tx)) == replaced_rows(*old(tx)).insert((tag_index(), key@), tags@),
{
    proof {
        reveal_strlit("zstags");
        assert("zstags"@ =~= tag_index());
    }
    if let Err(e) = tx_remove_key(tx, "zstags", key) {
        return Err(TagError::Storage(e));
    }
    let ghost start = replaced_rows(*old(tx));
    let ghost k = (tag_index(), key@);
    let items = tags.items();
    let ghost ts = tags.tag_seq();
    let mut i: usize = 0;
    proof {
        assert(ts.take(0).to_set() =~= Set::<Seq<char>>::empty());
    }
    while i < items.len()
        invariant
            "zstags"@ == tag_index(),
            k == (tag_index(), key@),
            items@.map_values(|s: String| s@) == ts,
            ts.to_set() == tags@,
            i <= ts.len(),
            replaced_rows(*tx) == start.insert(k, ts.take(i as int).to_set()),
        decreases ts.len() - i,
    {
        if let Err(e) = tx_put(tx, "zstags", key, &items[i]) {
            return Err(TagError::Storage(e));
        }
        proof {
            assert(items@[i as int]@ == ts[i as int]);
            assert(ts.take(i as int + 1) =~= ts.take(i as int).push(ts[i as int]));
            ts.take(i as int).lemma_push_to_set_commute(ts[i as int]);
            assert(start.insert(k, ts.take(i as int).to_set()).insert(k, ts.take(i as int + 1).to_set())
                =~= start.insert(k, ts.take(i as int + 1).to_set()));
        }
        i = i + 1;
    }
    proof {
        assert(ts.take(ts.len() as int) =~= ts);
    }
    Ok(())
}

impl Backend for PersyBackend {
    open spec fn valid(&self) -> bool {
        self.wf()
    }

    fn tags(&self, path: &str) -> (r: Result<TagSet, TagError>) {
        let key = self.mangle_path(path);
        match db_get(&self.persy, "zstags", &key) {
            Ok(rows) => Ok(TagSet::from_vec(rows)),
            Err(e) => Err(storage_error("zstags::PersyBackend::tags", path, e.as_str())),
        }
    }

    fn set_tags(&mut self, path: &str, tags: TagSet) -> (r: Result<(), TagError>) {
        let key = self.mangle_path(path);
        let mut tx = match db_begin(&self.persy) {
            Ok(tx) => tx,
            Err(e) => return Err(storage_error("zstags::PersyBackend::set_tags", path, e.as_str())),
        };
        stage_tags(&mut tx, &key, &tags)?;
        PersyBackend::finish(tx)
    }
}

} // verus!
