//! Listing of the documents of a vault, newest first.

use vstd::prelude::*;
use crate::document::{is_invalid, is_not_found};
use crate::error::StoreError;
use crate::naming::chars_of;
use crate::paths::{file_stem, is_document, is_document_path, opt_text, stem_of};

verus! {

/// A modification time: seconds since the Unix epoch (negative before it)
/// and the nanoseconds within that second.
#[derive(Clone, Copy, Debug, PartialEq, Eq)]
pub struct Timestamp {
    pub secs: i64,
    pub nanos: u32,
}

/// A directory entry as observed by the caller: its path, and its
/// modification time when the filesystem could give one.
#[derive(Clone, Debug)]
pub struct ScannedFile {
    pub path: String,
    pub modified: Option<Timestamp>,
}

/// A document of a vault: its name (the file stem), its path, and its
/// modification time in RFC 3339 (UTC), or `Unknown`.
#[derive(Clone, Debug)]
pub struct FileEntry {
    pub name: String,
    pub path: String,
    pub modified_at: String,
}

impl View for FileEntry {
    type V = (Seq<char>, Seq<char>, Seq<char>);

    open spec fn view(&self) -> (Seq<char>, Seq<char>, Seq<char>) {
        (self.name@, self.path@, self.modified_at@)
    }
}

/// The RFC 3339 text that chrono gives for the UTC instant `secs` seconds and
/// `nanos` nanoseconds after the epoch, when that instant is in its range.
pub uninterp spec fn utc_rfc3339(secs: int, nanos: int) -> Option<Seq<char>>;

/// Relies on chrono's `DateTime::<Utc>::from_timestamp` (no value out of its
/// range) and `DateTime::to_rfc3339` (the text of the instant).
#[verifier::external_body]
fn rfc3339_utc(secs: i64, nanos: u32) -> (r: Option<String>)
    ensures
        opt_text(r) == utc_rfc3339(secs as int, nanos as int),
{
    chrono::DateTime::from_timestamp(secs, nanos).map(|d| d.to_rfc3339())
}

/// The placeholder for what could not be told.
pub open spec fn unknown() -> Seq<char> {
    "Unknown"@
}

/// The displayed modification time: the RFC 3339 text, or `Unknown` when
/// there is no time or it lies outside chrono's range.
pub open spec fn modified_text(m: Option<Timestamp>) -> Seq<char> {
    match m {
        Some(t) => match utc_rfc3339(t.secs as int, t.nanos as int) {
            Some(s) => s,
            None => unknown(),
        },
        None => unknown(),
    }
}

/// The displayed name of the document at `p`: its file stem, or `Unknown`.
pub open spec fn entry_name(p: Seq<char>) -> Seq<char> {
    match stem_of(p) {
        Some(s) => s,
        None => unknown(),
    }
}

/// The entry listed for a scanned file.
pub open spec fn entry_of(f: ScannedFile) -> (Seq<char>, Seq<char>, Seq<char>) {
    (entry_name(f.path@), f.path@, modified_text(f.modified))
}

/// The entries of the document files among `files`, in scan order.
pub open spec fn listed(files: Seq<ScannedFile>) -> Seq<(Seq<char>, Seq<char>, Seq<char>)>
    decreases files.len(),
{
    if files.len() == 0 {
        Seq::empty()
    } else if is_document(files.last().path@) {
        listed(files.drop_last()).push(entry_of(files.last()))
    } else {
        listed(files.drop_last())
    }
}

/// The views of a sequence of entries.
pub open spec fn views(v: Seq<FileEntry>) -> Seq<(Seq<char>, Seq<char>, Seq<char>)> {
    v.map_values(|e: FileEntry| e@)
}

/// Whether `a` comes at or after `b` in the order of `String`, which compares
/// character by character by code point.
pub open spec fn text_at_least(a: Seq<char>, b: Seq<char>) -> bool
    decreases a.len(),
{
    if b.len() == 0 {
        true
    } else if a.len() == 0 {
        false
    } else if a[0] != b[0] {
        a[0] > b[0]
    } else {
        text_at_least(a.drop_first(), b.drop_first())
    }
}

/// Whether the entries go from the latest modification text to the earliest.
pub open spec fn newest_first(s: Seq<(Seq<char>, Seq<char>, Seq<char>)>) -> bool {
    forall|i: int, j: int| 0 <= i < j < s.len() ==> text_at_least(#[trigger] s[i].2, #[trigger] s[j].2)
}

/// The entries of `s` whose modification text is `k`, in order.
pub open spec fn with_time(s: Seq<(Seq<char>, Seq<char>, Seq<char>)>, k: Seq<char>) -> Seq<
    (Seq<char>, Seq<char>, Seq<char>),
>
    decreases s.len(),
{
    if s.len() == 0 {
        Seq::empty()
    } else if s.last().2 == k {
        with_time(s.drop_last(), k).push(s.last())
    } else {
        with_time(s.drop_last(), k)
    }
}

/// Every text is at least itself.
pub proof fn lemma_text_reflexive(a: Seq<char>)
    ensures
        text_at_least(a, a),
    decreases a.len(),
{
    if a.len() > 0 {
        lemma_text_reflexive(a.drop_first());
    }
}

/// Inserting an entry with another time leaves the entries with time `k` as
/// they were.
proof fn lemma_insert_other_time(
    s: Seq<(Seq<char>, Seq<char>, Seq<char>)>,
    pos: int,
    x: (Seq<char>, Seq<char>, Seq<char>),
    k: Seq<char>,
)
    requires
        0 <= pos <= s.len(),
        x.2 != k,
    ensures
        with_time(s.insert(pos, x), k) == with_time(s, k),
    decreases s.len(),
{
    if pos == s.len() {
        assert(s.insert(pos, x).drop_last() =~= s);
    } else {
        let t = s.drop_last();
        lemma_insert_other_time(t, pos, x, k);
        assert(s.insert(pos, x).drop_last() =~= t.insert(pos, x));
        assert(s.insert(pos, x).last() == s.last());
    }
}

/// Inserting an entry with time `k` after every other entry with that time
/// adds it at the end of the entries with time `k`.
proof fn lemma_insert_after_same_time(
    s: Seq<(Seq<char>, Seq<char>, Seq<char>)>,
    pos: int,
    x: (Seq<char>, Seq<char>, Seq<char>),
    k: Seq<char>,
)
    requires
        0 <= pos <= s.len(),
        x.2 == k,
        forall|j: int| pos <= j < s.len() ==> #[trigger] s[j].2 != k,
    ensures
        with_time(s.insert(pos, x), k) == with_time(s, k).push(x),
    decreases s.len(),
{
    if pos == s.len() {
        assert(s.insert(pos, x).drop_last() =~= s);
    } else {
        let t = s.drop_last();
        assert(s[s.len() - 1].2 != k);
        lemma_insert_after_same_time(t, pos, x, k);
        assert(s.insert(pos, x).drop_last() =~= t.insert(pos, x));
        assert(s.insert(pos, x).last() == s.last());
    }
}

/// Of two texts, one is at least the other.
pub proof fn lemma_text_total(a: Seq<char>, b: Seq<char>)
    ensures
        text_at_least(a, b) || text_at_least(b, a),
    decreases a.len(),
{
    if a.len() > 0 && b.len() > 0 && a[0] == b[0] {
        lemma_text_total(a.drop_first(), b.drop_first());
    }
}

/// The order of texts is transitive.
pub proof fn lemma_text_transitive(a: Seq<char>, b: Seq<char>, c: Seq<char>)
    requires
        text_at_least(a, b),
        text_at_least(b, c),
    ensures
        text_at_least(a, c),
    decreases a.len(),
{
    if a.len() > 0 && b.len() > 0 && c.len() > 0 && a[0] == b[0] && b[0] == c[0] {
        lemma_text_transitive(a.drop_first(), b.drop_first(), c.drop_first());
    }
}

/// Inserting `x` after every entry at least as new and before the first that
/// is older keeps a listing newest first.
proof fn lemma_insert_keeps_order(s: Seq<(Seq<char>, Seq<char>, Seq<char>)>, pos: int, x: (
    Seq<char>,
    Seq<char>,
    Seq<char>,
))
    requires
        newest_first(s),
        0 <= pos <= s.len(),
        forall|k: int| 0 <= k < pos ==> text_at_least(#[trigger] s[k].2, x.2),
        pos < s.len() ==> !text_at_least(s[pos].2, x.2),
    ensures
        newest_first(s.insert(pos, x)),
{
    if pos < s.len() {
        lemma_text_total(s[pos].2, x.2);
    }
    assert forall|k: int| pos <= k < s.len() implies text_at_least(x.2, #[trigger] s[k].2) by {
        if k > pos {
            lemma_text_transitive(x.2, s[pos].2, s[k].2);
        }
    }
    let t = s.insert(pos, x);
    assert forall|i: int, j: int| 0 <= i < j < t.len() implies text_at_least(
        #[trigger] t[i].2,
        #[trigger] t[j].2,
    ) by {
        if j < pos {
        } else if j == pos {
        } else if i < pos {
            lemma_text_transitive(s[i].2, x.2, s[j - 1].2);
        } else if i == pos {
        } else {
        }
    }
}

/// One step of the listing: an entry inserted after every entry at least as
/// new keeps the listing newest first, keeps its entries those of the scanned
/// files, and keeps entries with equal times in scan order.
proof fn lemma_insert_step(
    before: Seq<(Seq<char>, Seq<char>, Seq<char>)>,
    prefix: Seq<(Seq<char>, Seq<char>, Seq<char>)>,
    pos: int,
    x: (Seq<char>, Seq<char>, Seq<char>),
)
    requires
        newest_first(before),
        before.to_multiset() == prefix.to_multiset(),
        forall|k: Seq<char>| #[trigger] with_time(before, k) == with_time(prefix, k),
        0 <= pos <= before.len(),
        forall|k: int| 0 <= k < pos ==> text_at_least(#[trigger] before[k].2, x.2),
        pos < before.len() ==> !text_at_least(before[pos].2, x.2),
    ensures
        newest_first(before.insert(pos, x)),
        before.insert(pos, x).to_multiset() == prefix.push(x).to_multiset(),
        forall|k: Seq<char>|
            #[trigger] with_time(before.insert(pos, x), k) == with_time(prefix.push(x), k),
{
    lemma_insert_keeps_order(before, pos, x);
    vstd::seq_lib::to_multiset_insert(before, pos, x);
    prefix.to_multiset_ensures();
    assert forall|j: int| pos <= j < before.len() implies #[trigger] before[j].2 != x.2 by {
        if before[j].2 == x.2 {
            lemma_text_reflexive(x.2);
        }
    }
    assert forall|k: Seq<char>|
        #[trigger] with_time(before.insert(pos, x), k) == with_time(prefix.push(x), k) by {
        assert(prefix.push(x).drop_last() =~= prefix);
        if k == x.2 {
            lemma_insert_after_same_time(before, pos, x, k);
        } else {
            lemma_insert_other_time(before, pos, x, k);
        }
    }
}

/// Whether `a` comes at or after `b` in the order of `String`.
fn at_least(a: &String, b: &String) -> (r: bool)
    ensures
        r == text_at_least(a@, b@),
{
    let x = chars_of(a.as_str());
    let y = chars_of(b.as_str());
    let mut i: usize = 0;
    assert(x@.subrange(0, x@.len() as int) =~= x@);
    assert(y@.subrange(0, y@.len() as int) =~= y@);
    while i < x.len() && i < y.len()
        invariant
            x@ == a@,
            y@ == b@,
            i <= x@.len(),
            i <= y@.len(),
            text_at_least(a@, b@) == text_at_least(
                x@.subrange(i as int, x@.len() as int),
                y@.subrange(i as int, y@.len() as int),
            ),
        decreases x@.len() - i,
    {
        if x[i] != y[i] {
            return x[i] > y[i];
        }
        assert(x@.subrange(i as int, x@.len() as int).drop_first() =~= x@.subrange(
            i + 1,
            x@.len() as int,
        ));
        assert(y@.subrange(i as int, y@.len() as int).drop_first() =~= y@.subrange(
            i + 1,
            y@.len() as int,
        ));
        i = i + 1;
    }
    i == y.len()
}

/// The entry listed for a scanned document file.
fn entry_for(f: &ScannedFile) -> (e: FileEntry)
    ensures
        e@ == entry_of(*f),
{
    let name = match file_stem(f.path.as_str()) {
        Some(s) => s,
        None => String::from_str("Unknown"),
    };
    let modified_at = match f.modified {
        Some(t) => match rfc3339_utc(t.secs, t.nanos) {
            Some(s) => s,
            None => String::from_str("Unknown"),
        },
        None => String::from_str("Unknown"),
    };
    FileEntry { name, path: String::from_str(f.path.as_str()), modified_at }
}

/// Whether `v` is a listing of `scanned`: the entries of its document files,
/// each once, newest first, entries with equal times in scan order.
pub open spec fn lists(v: Seq<FileEntry>, scanned: Seq<ScannedFile>) -> bool {
    &&& views(v).to_multiset() == listed(scanned).to_multiset()
    &&& newest_first(views(v))
    &&& forall|k: int| 0 <= k < v.len() ==> is_document(#[trigger] v[k].path@)
    &&& forall|k: Seq<char>| #[trigger] with_time(views(v), k) == with_time(listed(scanned), k)
}

/// The documents of a vault. The vault must exist and be a directory; of the
/// scanned entries only those with the document extension are listed, from
/// the latest modification text to the earliest (texts compared as strings),
/// entries with equal texts in scan order.
pub fn get_vault_files(
    vault_path: &str,
    vault_exists: bool,
    vault_is_dir: bool,
    scanned: &Vec<ScannedFile>,
) -> (r: Result<Vec<FileEntry>, StoreError>)
    ensures
        !vault_exists ==> is_not_found(r, vault_path@),
        vault_exists && !vault_is_dir ==> is_invalid(r, vault_path@),
        vault_exists && vault_is_dir ==> (r matches Ok(v) && lists(v@, scanned@)),
{
    if !vault_exists {
        return Err(StoreError::NotFound(String::from_str(vault_path)));
    }
    if !vault_is_dir {
        return Err(StoreError::InvalidArgument(String::from_str(vault_path)));
    }
    let mut out: Vec<FileEntry> = Vec::new();
    let n = scanned.len();
    let mut i: usize = 0;
    proof {
        assert(views(out@) =~= Seq::empty());
        assert(scanned@.subrange(0, 0) =~= Seq::empty());
    }
    while i < n
        invariant
            n == scanned@.len(),
            i <= n,
            views(out@).to_multiset() == listed(scanned@.subrange(0, i as int)).to_multiset(),
            newest_first(views(out@)),
            forall|k: int| 0 <= k < out@.len() ==> is_document(#[trigger] out@[k].path@),
            forall|k: Seq<char>|
                #[trigger] with_time(views(out@), k) == with_time(
                    listed(scanned@.subrange(0, i as int)),
                    k,
                ),
        decreases n - i,
    {
        let f = &scanned[i];
        assert(scanned@.subrange(0, i + 1).drop_last() =~= scanned@.subrange(0, i as int));
        assert(scanned@.subrange(0, i + 1).last() == *f);
        proof {
            listed(scanned@.subrange(0, i as int)).to_multiset_ensures();
        }
        if is_document_path(f.path.as_str()) {
            let e = entry_for(f);
            let mut pos: usize = 0;
            while pos < out.len() && at_least(&out[pos].modified_at, &e.modified_at)
                invariant
                    pos <= out@.len(),
                    forall|k: int| 0 <= k < pos ==> text_at_least(#[trigger] views(out@)[k].2, e@.2),
                decreases out@.len() - pos,
            {
                pos = pos + 1;
            }
            let ghost before = views(out@);
            proof {
                lemma_insert_step(before, listed(scanned@.subrange(0, i as int)), pos as int, e@);
            }
            out.insert(pos, e);
            assert(views(out@) =~= before.insert(pos as int, e@));
        }
        i = i + 1;
    }
    assert(scanned@.subrange(0, n as int) =~= scanned@);
    Ok(out)
}

} // verus!
