//! Backup copies of a file before it is overwritten: their names, and which
//! old copies to prune so that only the newest `max_backups` remain.

use vstd::prelude::*;
use crate::text::{chars_of, decimal, decimal_text};

verus! {

broadcast use vstd::seq_lib::group_to_multiset_ensures, vstd::multiset::group_multiset_axioms;

/// Backups kept by default.
pub const DEFAULT_MAX_BACKUPS: usize = 5;

/// The marker between a file's name and its backup's timestamp.
pub open spec fn backup_marker() -> Seq<char> {
    ".backup."@
}

/// The name of the backup of file `file_name` made at `secs` seconds after the Unix epoch.
pub open spec fn backup_name(file_name: Seq<char>, secs: nat) -> Seq<char> {
    file_name + backup_marker() + decimal(secs)
}

pub open spec fn starts_with(s: Seq<char>, p: Seq<char>) -> bool {
    p.len() <= s.len() && s.subrange(0, p.len() as int) == p
}

pub open spec fn contains_text(s: Seq<char>, p: Seq<char>) -> bool {
    exists|i: int| 0 <= i <= s.len() - p.len() && #[trigger] s.subrange(i, i + p.len()) == p
}

/// Whether the directory entry `name` is a backup of file `file_name`.
pub open spec fn is_backup_of(name: Seq<char>, file_name: Seq<char>) -> bool {
    starts_with(name, file_name) && contains_text(name, backup_marker())
}

/// A directory entry beside the file: its name and modification time
/// (nanoseconds since the Unix epoch).
#[derive(Debug, Clone)]
pub struct BackupEntry {
    pub name: String,
    pub modified: u128,
}

/// The number of entries that are backups of `file_name`.
pub open spec fn backup_count(entries: Seq<BackupEntry>, file_name: Seq<char>) -> nat
    decreases entries.len(),
{
    if entries.len() == 0 {
        0
    } else {
        backup_count(entries.drop_last(), file_name) + if is_backup_of(
            entries.last().name@,
            file_name,
        ) {
            1nat
        } else {
            0nat
        }
    }
}

/// How many of `count` backups go when `max` are kept.
pub open spec fn excess(count: nat, max: nat) -> nat {
    if count > max {
        (count - max) as nat
    } else {
        0
    }
}

/// `removed` lists the entries to delete when `max` backups of `file_name`
/// are kept: as many as exceed `max`, each once, all backups, and none newer
/// than a backup that stays.
pub open spec fn is_pruning(
    entries: Seq<BackupEntry>,
    file_name: Seq<char>,
    max: nat,
    removed: Seq<usize>,
) -> bool {
    &&& removed.len() == excess(backup_count(entries, file_name), max)
    &&& removed.no_duplicates()
    &&& forall|j: int|
        0 <= j < removed.len() ==> (#[trigger] removed[j]) < entries.len() && is_backup_of(
            entries[removed[j] as int].name@,
            file_name,
        )
    &&& forall|j: int, x: int|
        0 <= j < removed.len() && 0 <= x < entries.len() && is_backup_of(
            entries[x].name@,
            file_name,
        ) && !removed.contains(x as usize) ==> entries[#[trigger] removed[j] as int].modified
            <= #[trigger] entries[x].modified
}

/// Whether `v[i..i + p.len()]` is `p`.
fn matches_at(v: &Vec<char>, i: usize, p: &Vec<char>) -> (r: bool)
    requires
        i <= v.len(),
    ensures
        r == (p.len() <= v.len() - i && v@.subrange(i as int, i + p.len()) == p@),
{
    if p.len() > v.len() - i {
        return false;
    }
    let mut k: usize = 0;
    while k < p.len()
        invariant
            k <= p.len() <= v.len() - i,
            forall|j: int| 0 <= j < k ==> v@[i + j] == p@[j],
        decreases p.len() - k,
    {
        if v[i + k] != p[k] {
            assert(v@.subrange(i as int, i + p.len())[k as int] != p@[k as int]);
            return false;
        }
        k = k + 1;
    }
    assert(v@.subrange(i as int, i + p.len()) =~= p@);
    true
}

/// Whether `v` holds `p`.
fn contains_chars(v: &Vec<char>, p: &Vec<char>) -> (r: bool)
    ensures
        r == contains_text(v@, p@),
{
    if p.len() > v.len() {
        return false;
    }
    let last = v.len() - p.len();
    let mut i: usize = 0;
    loop
        invariant
            last == v.len() - p.len(),
            i <= last,
            forall|j: int| 0 <= j < i ==> #[trigger] v@.subrange(j, j + p.len()) != p@,
        decreases last - i,
    {
        if matches_at(v, i, p) {
            return true;
        }
        if i == last {
            return false;
        }
        i = i + 1;
    }
}

/// Whether `name` is a backup of `file_name`.
pub fn is_backup(name: &str, file_name: &str) -> (r: bool)
    ensures
        r == is_backup_of(name@, file_name@),
{
    let v = chars_of(name);
    let f = chars_of(file_name);
    let marker = chars_of(".backup.");
    proof {
        reveal_strlit(".backup.");
    }
    matches_at(&v, 0, &f) && contains_chars(&v, &marker)
}

/// The policy of how many backups of a file to keep.
pub struct BackupManager {
    max_backups: usize,
}

impl BackupManager {
    /// The number of backups kept.
    pub closed spec fn max(&self) -> nat {
        self.max_backups as nat
    }

    /// A policy that keeps five backups.
    pub fn new() -> (r: Self)
        ensures
            r.max() == DEFAULT_MAX_BACKUPS,
    {
        BackupManager { max_backups: DEFAULT_MAX_BACKUPS }
    }

    /// The number of backups kept.
    pub fn max_backups(&self) -> (r: usize)
        ensures
            r == self.max(),
    {
        self.max_backups
    }

    /// The name of the backup of file `file_name` made at `secs` seconds after the Unix epoch.
    pub fn backup_file_name(&self, file_name: &str, secs: u64) -> (r: String)
        ensures
            r@ == backup_name(file_name@, secs as nat),
    {
        let mut r = String::from_str(file_name);
        r.append(".backup.");
        r.append(decimal_text(secs).as_str());
        proof {
            reveal_strlit(".backup.");
        }
        r
    }

    /// Which of the directory entries `entries` to delete: the oldest backups
    /// of `file_name` beyond the newest `max_backups`. Returns their indices.
    pub fn cleanup_old_backups(&self, file_name: &str, entries: &Vec<BackupEntry>) -> (r: Vec<usize>)
        ensures
            is_pruning(entries@, file_name@, self.max(), r@),
    {
        let n = entries.len();
        let mut remaining: Vec<usize> = Vec::new();
        let mut i: usize = 0;
        while i < n
            invariant
                i <= n == entries.len(),
                remaining.len() == backup_count(entries@.subrange(0, i as int), file_name@),
                forall|j: int|
                    0 <= j < remaining.len() ==> (#[trigger] remaining@[j]) < i && is_backup_of(
                        entries@[remaining@[j] as int].name@,
                        file_name@,
                    ),
                forall|j: int, k: int|
                    0 <= j < k < remaining.len() ==> remaining@[j] < remaining@[k],
                forall|x: int|
                    0 <= x < i && is_backup_of(entries@[x].name@, file_name@)
                        ==> remaining@.contains(x as usize),
            decreases n - i,
        {
            assert(entries@.subrange(0, i + 1).drop_last() =~= entries@.subrange(0, i as int));
            if is_backup(entries[i].name.as_str(), file_name) {
                let ghost before = remaining@;
                remaining.push(i);
                assert forall|x: int|
                    0 <= x < i + 1 && is_backup_of(
                        entries@[x].name@,
                        file_name@,
                    ) implies remaining@.contains(x as usize) by {
                    if x < i {
                        let w = choose|w: int| 0 <= w < before.len() && before[w] == x as usize;
                        assert(remaining@[w] == x as usize);
                    } else {
                        assert(remaining@[before.len() as int] == x as usize);
                    }
                }
            }
            i = i + 1;
        }
        assert(entries@.subrange(0, n as int) =~= entries@);
        let ghost all = remaining@;
        proof {
            all.lemma_multiset_has_no_duplicates();
        }
        let count = remaining.len();
        let to_remove = if count > self.max_backups {
            count - self.max_backups
        } else {
            0
        };
        let mut removed: Vec<usize> = Vec::new();
        while removed.len() < to_remove
            invariant
                removed.len() + remaining.len() == count == all.len(),
                to_remove <= count,
                removed.len() <= to_remove,
                removed@.to_multiset().add(remaining@.to_multiset()) == all.to_multiset(),
                forall|j: int| 0 <= j < remaining.len() ==> (#[trigger] remaining@[j]) < n,
                forall|j: int| 0 <= j < removed.len() ==> (#[trigger] removed@[j]) < n,
                forall|a: int, c: int|
                    0 <= a < removed.len() && 0 <= c < remaining.len() ==> entries@[#[trigger] removed@[a] as int].modified
                        <= entries@[#[trigger] remaining@[c] as int].modified,
                n == entries.len(),
            decreases to_remove - removed.len(),
        {
            let mut m: usize = 0;
            let mut j: usize = 1;
            while j < remaining.len()
                invariant
                    m < remaining.len(),
                    1 <= j <= remaining.len(),
                    forall|j: int| 0 <= j < remaining.len() ==> (#[trigger] remaining@[j]) < n,
                    n == entries.len(),
                    forall|c: int|
                        0 <= c < j ==> entries@[remaining@[m as int] as int].modified
                            <= entries@[#[trigger] remaining@[c] as int].modified,
                decreases remaining.len() - j,
            {
                if entries[remaining[j]].modified < entries[remaining[m]].modified {
                    m = j;
                }
                j = j + 1;
            }
            let ghost before_removed = removed@;
            let ghost before_remaining = remaining@;
            let x = remaining.remove(m);
            removed.push(x);
            proof {
                assert(removed@.to_multiset() =~= before_removed.to_multiset().insert(x));
                assert(remaining@.to_multiset() =~= before_remaining.to_multiset().remove(x));
                assert(removed@.to_multiset().add(remaining@.to_multiset()) =~= all.to_multiset());
                assert forall|a: int, c: int|
                    0 <= a < removed.len() && 0 <= c < remaining.len() implies entries@[#[trigger] removed@[a] as int].modified
                        <= entries@[#[trigger] remaining@[c] as int].modified by {
                    let cc = if c < m {
                        c
                    } else {
                        c + 1
                    };
                    assert(remaining@[c] == before_remaining[cc]);
                    if a < before_removed.len() {
                        assert(removed@[a] == before_removed[a]);
                    }
                }
            }
        }
        proof {
            assert forall|v: usize| removed@.to_multiset().contains(v) implies removed@.to_multiset().count(
                v,
            ) == 1 by {
                assert(all.to_multiset().count(v) == removed@.to_multiset().count(v)
                    + remaining@.to_multiset().count(v));
            }
            removed@.lemma_multiset_has_no_duplicates_conv();
            assert forall|j: int, x: int|
                0 <= j < removed.len() && 0 <= x < entries.len() && is_backup_of(
                    entries@[x].name@,
                    file_name@,
                ) && !removed@.contains(x as usize) implies entries@[#[trigger] removed@[j] as int].modified
                <= #[trigger] entries@[x].modified by {
                assert(all.contains(x as usize));
                assert(all.to_multiset().count(x as usize) == removed@.to_multiset().count(
                    x as usize,
                ) + remaining@.to_multiset().count(x as usize));
                assert(remaining@.contains(x as usize));
                let w = choose|w: int| 0 <= w < remaining.len() && remaining@[w] == x as usize;
                assert(entries@[removed@[j] as int].modified <= entries@[remaining@[w] as int].modified);
            }
            assert forall|j: int| 0 <= j < removed.len() implies (#[trigger] removed@[j]) < entries.len()
                && is_backup_of(entries@[removed@[j] as int].name@, file_name@) by {
                assert(removed@.to_multiset().count(removed@[j]) > 0);
                assert(all.to_multiset().count(removed@[j]) > 0);
                assert(all.contains(removed@[j]));
            }
        }
        removed
    }
}

impl Default for BackupManager {
    fn default() -> (r: Self)
        ensures
            r.max() == DEFAULT_MAX_BACKUPS,
    {
        BackupManager::new()
    }
}

/// Pruning a directory that holds at least `max` backups leaves exactly
/// `max` of them, and they are the newest: a backup newer than one that
/// stays also stays.
pub proof fn lemma_backup_retention(
    entries: Seq<BackupEntry>,
    file_name: Seq<char>,
    max: nat,
    removed: Seq<usize>,
)
    requires
        entries.len() <= usize::MAX,
        is_pruning(entries, file_name, max, removed),
        backup_count(entries, file_name) >= max,
    ensures
        backup_count(entries, file_name) - removed.len() == max,
        forall|x: int, y: int|
            0 <= x < entries.len() && 0 <= y < entries.len() && is_backup_of(
                entries[x].name@,
                file_name,
            ) && is_backup_of(entries[y].name@, file_name) && !removed.contains(x as usize)
                && entries[y].modified > entries[x].modified ==> !removed.contains(
                y as usize,
            ),
{
    assert forall|x: int, y: int|
        0 <= x < entries.len() && 0 <= y < entries.len() && is_backup_of(
            entries[x].name@,
            file_name,
        ) && is_backup_of(entries[y].name@, file_name) && !removed.contains(x as usize)
            && entries[y].modified > entries[x].modified implies !removed.contains(
            y as usize,
        ) by {
        if removed.contains(y as usize) {
            let j = choose|j: int| 0 <= j < removed.len() && removed[j] == y as usize;
            assert(entries[removed[j] as int].modified <= entries[x].modified);
        }
    }
}

/// Saving again when earlier saves left `min(n - 1, max)` backups, one more
/// backup is made and the pruning leaves `min(n, max)`: after `n >= max`
/// saves exactly `max` remain.
pub proof fn lemma_backups_after_save(
    entries: Seq<BackupEntry>,
    file_name: Seq<char>,
    max: nat,
    removed: Seq<usize>,
    n: nat,
)
    requires
        is_pruning(entries, file_name, max, removed),
        n >= 1,
        backup_count(entries, file_name) == (if n - 1 < max {
            n - 1
        } else {
            max as int
        }) + 1,
    ensures
        backup_count(entries, file_name) - removed.len() == (if n < max {
            n as int
        } else {
            max as int
        }),
{
}

} // verus!
