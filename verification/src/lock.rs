//! The lock store: a record, per hook id, of the executable that was
//! installed for the hook and of the hash of its content.
//!
//! The store holds at most one record per id that it was asked to record,
//! and after every recording its records are in the order of their ids.
//! Reading and writing the lock file is the caller's part; the library
//! turns one set of records into the next.

use crate::text::{
    chars_of, has_prefix, lemma_lex_total, lemma_lex_transitive, lex_le, string_of, text_eq,
    text_le,
};
use sha2::Digest;
use vstd::multiset::Multiset;
use vstd::prelude::*;
use vstd::slice::slice_subrange;

verus! {

broadcast use vstd::string::group_string_axioms;

/// The record of one installed hook.
#[derive(Debug)]
pub struct LockEntry {
    pub id: String,
    /// The path of the executable, relative to the working root where it
    /// lies below it.
    pub binary: String,
    /// The SHA-256 digest of the executable, in lower-case hex.
    pub sha256: String,
    pub language: String,
    pub source: Option<String>,
    pub entry: Option<String>,
}

/// The mathematical content of a [`LockEntry`].
pub struct LockEntryView {
    pub id: Seq<char>,
    pub binary: Seq<char>,
    pub sha256: Seq<char>,
    pub language: Seq<char>,
    pub source: Option<Seq<char>>,
    pub entry: Option<Seq<char>>,
}

impl View for LockEntry {
    type V = LockEntryView;

    open spec fn view(&self) -> LockEntryView {
        LockEntryView {
            id: self.id@,
            binary: self.binary@,
            sha256: self.sha256@,
            language: self.language@,
            source: self.source.deep_view(),
            entry: self.entry.deep_view(),
        }
    }
}

impl DeepView for LockEntry {
    type V = LockEntryView;

    open spec fn deep_view(&self) -> LockEntryView {
        self@
    }
}

/// The lock file.
#[derive(Debug)]
pub struct LockFile {
    pub version: u32,
    /// When the file was last written, as an RFC 3339 timestamp.
    pub generated_at: String,
    pub hooks: Vec<LockEntry>,
}

/// The mathematical content of a [`LockFile`].
pub struct LockFileView {
    pub version: u32,
    pub generated_at: Seq<char>,
    pub hooks: Seq<LockEntryView>,
}

impl View for LockFile {
    type V = LockFileView;

    open spec fn view(&self) -> LockFileView {
        LockFileView {
            version: self.version,
            generated_at: self.generated_at@,
            hooks: self.hooks.deep_view(),
        }
    }
}

/// The lower-case hex form of the SHA-256 digest of `bytes`.
pub uninterp spec fn sha256_hex(bytes: Seq<u8>) -> Seq<char>;

/// Whether `c` is a digit of lower-case hex.
pub open spec fn is_lower_hex(c: char) -> bool {
    ||| c == '0'
    ||| c == '1'
    ||| c == '2'
    ||| c == '3'
    ||| c == '4'
    ||| c == '5'
    ||| c == '6'
    ||| c == '7'
    ||| c == '8'
    ||| c == '9'
    ||| c == 'a'
    ||| c == 'b'
    ||| c == 'c'
    ||| c == 'd'
    ||| c == 'e'
    ||| c == 'f'
}

/// Trusted: `sha2::Sha256::digest`, formatted with `{:x}`. The digest is a
/// function of the bytes alone; the contract names it [`sha256_hex`]. Of its
/// form the contract states what the sources show: the digest has 32 bytes,
/// and the formatter writes two lower-case hex digits for each.
#[verifier::external_body]
fn hash_hex(bytes: &[u8]) -> (out: String)
    ensures
        out@ == sha256_hex(bytes@),
        out@.len() == 64,
        forall|i: int| 0 <= i < out@.len() ==> is_lower_hex(#[trigger] out@[i]),
{
    format!("{:x}", sha2::Sha256::digest(bytes))
}

/// The content hash of an executable: the SHA-256 digest of its bytes in
/// lower-case hex.
pub fn sha256_file(content: &[u8]) -> (out: String)
    ensures
        out@ == sha256_hex(content@),
        out@.len() == 64,
        forall|i: int| 0 <= i < out@.len() ==> is_lower_hex(#[trigger] out@[i]),
{
    hash_hex(content)
}

/// The content hash is deterministic: equal bytes have equal digests.
pub proof fn lemma_hash_deterministic(first: Seq<u8>, second: Seq<u8>)
    requires
        first == second,
    ensures
        sha256_hex(first) == sha256_hex(second),
{
}

/// `path` as seen from `root`: what follows the root and the separator
/// behind it where the path begins with them, and the path itself where it
/// does not. A root that ends with a separator brings its own.
pub open spec fn relative_to(path: Seq<char>, root: Seq<char>) -> Seq<char> {
    if root.len() > 0 && root.last() == '/' && root.is_prefix_of(path) {
        path.skip(root.len() as int)
    } else if (root + seq!['/']).is_prefix_of(path) {
        path.skip(root.len() as int + 1)
    } else {
        path
    }
}

/// Executable form of [`relative_to`].
pub fn relative_path(path: &str, root: &str) -> (out: String)
    ensures
        out@ == relative_to(path@, root@),
{
    let p = chars_of(path);
    let r = chars_of(root);
    let n = r.len();
    let below = has_prefix(p.as_slice(), r.as_slice());
    proof {
        let longer = root@ + seq!['/'];
        if longer.is_prefix_of(path@) {
            assert(root@ =~= path@.subrange(0, n as int)) by {
                assert(longer.subrange(0, n as int) =~= root@);
                assert(path@.subrange(0, longer.len() as int).subrange(0, n as int)
                    =~= path@.subrange(0, n as int));
            }
            assert(path@[n as int] == longer[n as int]);
        }
        if below && p@.len() > n && p@[n as int] == '/' {
            assert(longer =~= path@.subrange(0, longer.len() as int));
        }
    }
    if below && n > 0 && r[n - 1] == '/' {
        proof {
            assert(p@.subrange(n as int, p@.len() as int) =~= path@.skip(n as int));
        }
        string_of(slice_subrange(p.as_slice(), n, p.len()))
    } else if below && p.len() > n && p[n] == '/' {
        proof {
            assert(p@.subrange(n + 1, p@.len() as int) =~= path@.skip(n + 1));
        }
        string_of(slice_subrange(p.as_slice(), n + 1, p.len()))
    } else {
        path.to_owned()
    }
}

/// The records whose id is not `id`, in their order.
pub open spec fn without(hooks: Seq<LockEntryView>, id: Seq<char>) -> Seq<LockEntryView> {
    hooks.filter(|e: LockEntryView| e.id != id)
}

/// Where a record of the given id goes among records in the order of their
/// ids: behind the last record whose id does not come after its own.
pub open spec fn insert_position(hooks: Seq<LockEntryView>, id: Seq<char>) -> int
    decreases hooks.len(),
{
    if hooks.len() == 0 || lex_le(hooks.last().id, id) {
        hooks.len() as int
    } else {
        insert_position(hooks.drop_last(), id)
    }
}

/// The records in the order of their ids. Records of the same id keep the
/// order they had.
pub open spec fn sorted_by_id(hooks: Seq<LockEntryView>) -> Seq<LockEntryView>
    decreases hooks.len(),
{
    if hooks.len() == 0 {
        Seq::empty()
    } else {
        let rest = sorted_by_id(hooks.drop_last());
        rest.insert(insert_position(rest, hooks.last().id), hooks.last())
    }
}

/// The records after `entry` was recorded: every record of its id is
/// gone, the entry is there, and the records are in the order of their ids.
pub open spec fn upserted(hooks: Seq<LockEntryView>, entry: LockEntryView) -> Seq<LockEntryView> {
    sorted_by_id(without(hooks, entry.id).push(entry))
}

/// Whether the records are in the order of their ids.
pub open spec fn is_sorted(hooks: Seq<LockEntryView>) -> bool {
    forall|i: int, j: int|
        0 <= i <= j < hooks.len() ==> lex_le(#[trigger] hooks[i].id, #[trigger] hooks[j].id)
}

/// What [`insert_position`] returns: a position behind which every id comes
/// after `id`, and before which, if anything is there, an id lies that does
/// not.
pub proof fn lemma_insert_position(hooks: Seq<LockEntryView>, id: Seq<char>)
    ensures
        0 <= insert_position(hooks, id) <= hooks.len(),
        forall|j: int|
            insert_position(hooks, id) <= j < hooks.len() ==> !lex_le((#[trigger] hooks[j]).id, id),
        insert_position(hooks, id) > 0 ==> lex_le(hooks[insert_position(hooks, id) - 1].id, id),
    decreases hooks.len(),
{
    if !(hooks.len() == 0 || lex_le(hooks.last().id, id)) {
        let rest = hooks.drop_last();
        lemma_insert_position(rest, id);
        let p = insert_position(hooks, id);
        assert forall|j: int| p <= j < hooks.len() implies !lex_le((#[trigger] hooks[j]).id, id) by {
            if j < rest.len() {
                assert(rest[j] == hooks[j]);
            }
        }
        if p > 0 {
            assert(rest[p - 1] == hooks[p - 1]);
        }
    }
}

/// Dropping the records of an id from records with one more at the end.
pub proof fn lemma_without_push(hooks: Seq<LockEntryView>, last: LockEntryView, id: Seq<char>)
    ensures
        without(hooks.push(last), id) == if last.id != id {
            without(hooks, id).push(last)
        } else {
            without(hooks, id)
        },
{
    reveal(Seq::filter);
    assert(hooks.push(last).drop_last() =~= hooks);
}

/// A position with these properties is the one [`insert_position`]
/// returns.
pub proof fn lemma_insert_position_is(hooks: Seq<LockEntryView>, id: Seq<char>, p: int)
    requires
        0 <= p <= hooks.len(),
        forall|j: int| p <= j < hooks.len() ==> !lex_le((#[trigger] hooks[j]).id, id),
        p > 0 ==> lex_le(hooks[p - 1].id, id),
    ensures
        insert_position(hooks, id) == p,
    decreases hooks.len(),
{
    if hooks.len() > 0 {
        if p == hooks.len() {
        } else {
            assert(!lex_le(hooks[hooks.len() - 1].id, id));
            lemma_insert_position_is(hooks.drop_last(), id, p);
        }
    }
}

/// Putting a record at its position among ordered records leaves them
/// ordered.
pub proof fn lemma_insert_keeps_order(hooks: Seq<LockEntryView>, entry: LockEntryView)
    requires
        is_sorted(hooks),
    ensures
        is_sorted(hooks.insert(insert_position(hooks, entry.id), entry)),
{
    broadcast use vstd::seq_lib::group_seq_properties;

    let p = insert_position(hooks, entry.id);
    let out = hooks.insert(p, entry);
    lemma_insert_position(hooks, entry.id);
    assert forall|i: int, j: int| 0 <= i <= j < out.len() implies lex_le(
        #[trigger] out[i].id,
        #[trigger] out[j].id,
    ) by {
        if i == j {
            lemma_lex_total(out[i].id, out[i].id);
        } else if j < p {
            assert(out[i] == hooks[i] && out[j] == hooks[j]);
        } else if j == p {
            assert(out[i] == hooks[i]);
            assert(lex_le(hooks[i].id, hooks[p - 1].id));
            lemma_lex_transitive(hooks[i].id, hooks[p - 1].id, entry.id);
        } else if i < p {
            assert(out[i] == hooks[i] && out[j] == hooks[j - 1]);
        } else if i == p {
            assert(out[j] == hooks[j - 1]);
            assert(!lex_le(hooks[j - 1].id, entry.id));
            lemma_lex_total(hooks[j - 1].id, entry.id);
        } else {
            assert(out[i] == hooks[i - 1] && out[j] == hooks[j - 1]);
        }
    }
}

/// Sorting orders: the sorted records are in the order of their ids.
pub proof fn lemma_sort_orders(hooks: Seq<LockEntryView>)
    ensures
        is_sorted(sorted_by_id(hooks)),
    decreases hooks.len(),
{
    if hooks.len() > 0 {
        lemma_sort_orders(hooks.drop_last());
        lemma_insert_keeps_order(sorted_by_id(hooks.drop_last()), hooks.last());
    }
}

/// Sorting neither drops nor adds nor changes a record.
pub proof fn lemma_sort_permutes(hooks: Seq<LockEntryView>)
    ensures
        sorted_by_id(hooks).to_multiset() == hooks.to_multiset(),
    decreases hooks.len(),
{
    broadcast use {
        vstd::seq_lib::group_seq_properties,
        vstd::seq_lib::group_to_multiset_ensures,
        vstd::multiset::group_multiset_axioms,
    };

    if hooks.len() > 0 {
        let rest = sorted_by_id(hooks.drop_last());
        lemma_sort_permutes(hooks.drop_last());
        lemma_insert_position(rest, hooks.last().id);
        vstd::seq_lib::to_multiset_insert(rest, insert_position(rest, hooks.last().id), hooks.last());
        assert(hooks =~= hooks.drop_last().push(hooks.last()));
        assert(hooks.to_multiset() =~= hooks.drop_last().to_multiset().insert(hooks.last()));
        assert(sorted_by_id(hooks).to_multiset() =~= hooks.to_multiset());
    } else {
        assert(sorted_by_id(hooks) =~= hooks);
    }
}

/// How often a record occurs among those whose id is not `id`: as often
/// as before if its id differs from `id`, and never if it does not.
pub proof fn lemma_without_counts(hooks: Seq<LockEntryView>, id: Seq<char>, x: LockEntryView)
    ensures
        without(hooks, id).to_multiset().count(x) == if x.id != id {
            hooks.to_multiset().count(x)
        } else {
            0
        },
    decreases hooks.len(),
{
    broadcast use {
        vstd::seq_lib::group_seq_properties,
        vstd::seq_lib::group_to_multiset_ensures,
        vstd::multiset::group_multiset_axioms,
    };

    reveal(Seq::filter);
    if hooks.len() > 0 {
        let rest = hooks.drop_last();
        lemma_without_counts(rest, id, x);
        assert(hooks =~= rest.push(hooks.last()));
        assert(hooks.to_multiset() =~= rest.to_multiset().insert(hooks.last()));
        if hooks.last().id != id {
            assert(without(hooks, id) =~= without(rest, id).push(hooks.last()));
            assert(without(hooks, id).to_multiset() =~= without(rest, id).to_multiset().insert(
                hooks.last(),
            ));
        } else {
            assert(without(hooks, id) =~= without(rest, id));
        }
    } else {
        assert(without(hooks, id) =~= hooks);
        assert(hooks.to_multiset() =~= Multiset::<LockEntryView>::empty());
    }
}

/// The law of the lock store. After `entry` was recorded among any
/// records, ordered or not:
/// - the records are in the order of their ids;
/// - the entry occurs exactly once, and no other record has its id, so
///   that a second recording for an id replaces the first;
/// - every record of another id occurs as often as it did before.
pub proof fn lemma_upsert(hooks: Seq<LockEntryView>, entry: LockEntryView)
    ensures
        is_sorted(upserted(hooks, entry)),
        upserted(hooks, entry).to_multiset().count(entry) == 1,
        forall|k: int|
            0 <= k < upserted(hooks, entry).len() && (#[trigger] upserted(hooks, entry)[k]).id
                == entry.id ==> upserted(hooks, entry)[k] == entry,
        forall|x: LockEntryView|
            x.id != entry.id ==> #[trigger] upserted(hooks, entry).to_multiset().count(x)
                == hooks.to_multiset().count(x),
{
    broadcast use {
        vstd::seq_lib::group_seq_properties,
        vstd::seq_lib::group_to_multiset_ensures,
        vstd::multiset::group_multiset_axioms,
    };

    let kept = without(hooks, entry.id);
    let out = upserted(hooks, entry);
    lemma_sort_orders(kept.push(entry));
    lemma_sort_permutes(kept.push(entry));
    assert(out.to_multiset() =~= kept.to_multiset().insert(entry));
    lemma_without_counts(hooks, entry.id, entry);
    assert forall|x: LockEntryView| x.id != entry.id implies #[trigger] out.to_multiset().count(x)
        == hooks.to_multiset().count(x) by {
        lemma_without_counts(hooks, entry.id, x);
    }
    assert forall|k: int| 0 <= k < out.len() && (#[trigger] out[k]).id == entry.id implies out[k]
        == entry by {
        let x = out[k];
        assert(out.contains(x));
        assert(out.to_multiset().count(x) > 0);
        lemma_without_counts(hooks, entry.id, x);
    }
}

/// Recording twice for one id leaves the second record and not the first.
pub proof fn lemma_upsert_replaces(
    hooks: Seq<LockEntryView>,
    first: LockEntryView,
    second: LockEntryView,
)
    requires
        first.id == second.id,
        first != second,
    ensures
        upserted(upserted(hooks, first), second).contains(second),
        !upserted(upserted(hooks, first), second).contains(first),
        upserted(upserted(hooks, first), second).to_multiset().count(second) == 1,
{
    broadcast use {
        vstd::seq_lib::group_seq_properties,
        vstd::seq_lib::group_to_multiset_ensures,
        vstd::multiset::group_multiset_axioms,
    };

    let out = upserted(upserted(hooks, first), second);
    lemma_upsert(upserted(hooks, first), second);
    assert(out.to_multiset().count(second) > 0);
    if out.contains(first) {
        let k = choose|k: int| 0 <= k < out.len() && out[k] == first;
        assert(out[k].id == second.id);
    }
}

/// A copy of a record.
fn copy_entry(entry: &LockEntry) -> (out: LockEntry)
    ensures
        out@ == entry@,
{
    LockEntry {
        id: entry.id.clone(),
        binary: entry.binary.clone(),
        sha256: entry.sha256.clone(),
        language: entry.language.clone(),
        source: match &entry.source {
            Some(s) => Some(s.clone()),
            None => None,
        },
        entry: match &entry.entry {
            Some(s) => Some(s.clone()),
            None => None,
        },
    }
}

/// Puts the records in the order of their ids.
pub fn sort_by_id(hooks: &Vec<LockEntry>) -> (out: Vec<LockEntry>)
    ensures
        out.deep_view() == sorted_by_id(hooks.deep_view()),
{
    let ghost all = hooks.deep_view();
    let mut out: Vec<LockEntry> = Vec::new();
    let mut i: usize = 0;
    proof {
        assert(all.take(0) =~= Seq::<LockEntryView>::empty());
        assert(out.deep_view() =~= sorted_by_id(all.take(0)));
    }
    while i < hooks.len()
        invariant
            i <= hooks@.len(),
            all == hooks.deep_view(),
            out.deep_view() == sorted_by_id(all.take(i as int)),
        decreases hooks@.len() - i,
    {
        let entry = copy_entry(&hooks[i]);
        let ghost sorted = out.deep_view();
        let mut p: usize = out.len();
        loop
            invariant_except_break
                p <= out@.len(),
                sorted == out.deep_view(),
                forall|j: int| p <= j < sorted.len() ==> !lex_le((#[trigger] sorted[j]).id, entry@.id),
            ensures
                p <= out@.len(),
                sorted == out.deep_view(),
                forall|j: int| p <= j < sorted.len() ==> !lex_le((#[trigger] sorted[j]).id, entry@.id),
                p > 0 ==> lex_le(sorted[p - 1].id, entry@.id),
            decreases p,
        {
            if p == 0 {
                break ;
            }
            assert(sorted[p - 1] == out@[p - 1]@);
            if text_le(out[p - 1].id.as_str(), entry.id.as_str()) {
                break ;
            }
            p = p - 1;
        }
        proof {
            lemma_insert_position_is(sorted, entry@.id, p as int);
            assert(all.take(i + 1).drop_last() =~= all.take(i as int));
            assert(all.take(i + 1).last() == entry@);
        }
        let ghost shown = entry@;
        out.insert(p, entry);
        proof {
            assert(out.deep_view() =~= sorted.insert(p as int, shown));
        }
        i = i + 1;
    }
    proof {
        assert(all.take(i as int) =~= all);
    }
    out
}

/// Records `entry`: drops every record of its id, adds it, and puts the
/// records in the order of their ids.
pub fn upsert(hooks: &Vec<LockEntry>, entry: LockEntry) -> (out: Vec<LockEntry>)
    ensures
        out.deep_view() == upserted(hooks.deep_view(), entry@),
{
    let ghost all = hooks.deep_view();
    let mut kept: Vec<LockEntry> = Vec::new();
    let mut i: usize = 0;
    proof {
        reveal(Seq::filter);
        assert(all.take(0) =~= Seq::<LockEntryView>::empty());
        assert(kept.deep_view() =~= without(all.take(0), entry@.id));
    }
    while i < hooks.len()
        invariant
            i <= hooks@.len(),
            all == hooks.deep_view(),
            kept.deep_view() == without(all.take(i as int), entry@.id),
        decreases hooks@.len() - i,
    {
        let ghost prev = kept.deep_view();
        proof {
            assert(all.take(i + 1) =~= all.take(i as int).push(hooks@[i as int]@));
            lemma_without_push(all.take(i as int), hooks@[i as int]@, entry@.id);
        }
        if !text_eq(hooks[i].id.as_str(), entry.id.as_str()) {
            kept.push(copy_entry(&hooks[i]));
            proof {
                assert(kept.deep_view() =~= prev.push(hooks@[i as int]@));
            }
        }
        i = i + 1;
    }
    let ghost prev = kept.deep_view();
    let ghost shown = entry@;
    kept.push(entry);
    proof {
        assert(all.take(i as int) =~= all);
        assert(kept.deep_view() =~= prev.push(shown));
    }
    sort_by_id(&kept)
}

/// The lock file once the executable of a hook was recorded in it.
pub open spec fn recorded(
    lock: LockFileView,
    root: Seq<char>,
    id: Seq<char>,
    language: Seq<char>,
    source: Option<Seq<char>>,
    entry: Option<Seq<char>>,
    binary_path: Seq<char>,
    content: Seq<u8>,
) -> LockFileView {
    LockFileView {
        version: lock.version,
        generated_at: lock.generated_at,
        hooks: upserted(
            lock.hooks,
            LockEntryView {
                id,
                binary: relative_to(binary_path, root),
                sha256: sha256_hex(content),
                language,
                source,
                entry,
            },
        ),
    }
}

/// Records an installed hook binary in the lock file: its path relative to
/// the working root `root`, and the hash of its `content`.
pub fn record_hook(
    lock: LockFile,
    root: &str,
    id: &str,
    language: &str,
    source: Option<&str>,
    entry: Option<&str>,
    binary_path: &str,
    content: &[u8],
) -> (out: LockFile)
    ensures
        out@ == recorded(
            lock@,
            root@,
            id@,
            language@,
            source.deep_view(),
            entry.deep_view(),
            binary_path@,
            content@,
        ),
{
    let record = LockEntry {
        id: id.to_owned(),
        binary: relative_path(binary_path, root),
        sha256: sha256_file(content),
        language: language.to_owned(),
        source: match source {
            Some(s) => Some(s.to_owned()),
            None => None,
        },
        entry: match entry {
            Some(s) => Some(s.to_owned()),
            None => None,
        },
    };
    let hooks = upsert(&lock.hooks, record);
    LockFile { version: lock.version, generated_at: lock.generated_at, hooks }
}

/// The lock data to start a recording from: what the lock file held, if
/// there was one, else an empty store of version 1; either way stamped with
/// the current time `now`.
pub fn load_lock(existing: Option<LockFile>, now: String) -> (out: LockFile)
    ensures
        out@ == (match existing {
            Some(lock) => LockFileView {
                version: lock@.version,
                generated_at: now@,
                hooks: lock@.hooks,
            },
            None => LockFileView { version: 1, generated_at: now@, hooks: Seq::empty() },
        }),
{
    match existing {
        Some(lock) => LockFile { version: lock.version, generated_at: now, hooks: lock.hooks },
        None => {
            let hooks: Vec<LockEntry> = Vec::new();
            proof {
                assert(hooks.deep_view() =~= Seq::<LockEntryView>::empty());
            }
            LockFile { version: 1, generated_at: now, hooks }
        },
    }
}

} // verus!
