//! The remote file browser: listing order and the browse / transfer /
//! mutation state machine.

use vstd::prelude::*;

use crate::device::{duplicate_target, is_target, same_target, target_view, BridgeError, DeviceTarget, ErrorCode};
use crate::text::{chars_of, lowercase, push_char, push_chars, to_lowercase};

verus! {

/// Kind of a remote directory entry.
#[derive(Clone, Copy, Debug, PartialEq, Eq, Structural)]
pub enum RemoteFileKind {
    Directory,
    File,
    Symlink,
    Other,
}

/// One entry of a remote directory listing.
#[derive(Clone, Debug, PartialEq, Eq)]
pub struct RemoteFileEntry {
    pub path: String,
    pub name: String,
    pub kind: RemoteFileKind,
    pub size_bytes: Option<u64>,
    pub modified_unix_seconds: Option<i64>,
    pub permissions: Option<String>,
}

/// Column the listing is ordered by.
#[derive(Clone, Copy, Debug, PartialEq, Eq, Structural)]
pub enum SortKey {
    Name,
    Size,
    Modified,
}

/// Three-way comparison of integers: -1, 0 or 1.
pub open spec fn compare_int(a: int, b: int) -> int {
    if a < b {
        -1
    } else if a > b {
        1
    } else {
        0
    }
}

/// Lexicographic comparison by code point, the order of `str`.
pub open spec fn compare_text(a: Seq<char>, b: Seq<char>) -> int
    decreases a.len(),
{
    if a.len() == 0 || b.len() == 0 {
        compare_int(a.len() as int, b.len() as int)
    } else if a[0] != b[0] {
        compare_int(a[0] as int, b[0] as int)
    } else {
        compare_text(a.drop_first(), b.drop_first())
    }
}

/// Comparison of optional values: a missing value sorts first.
pub open spec fn compare_option(a: Option<int>, b: Option<int>) -> int {
    match (a, b) {
        (Some(x), Some(y)) => compare_int(x, y),
        (Some(_), None) => 1,
        (None, Some(_)) => -1,
        (None, None) => 0,
    }
}

pub open spec fn option_u64(v: Option<u64>) -> Option<int> {
    match v {
        Some(x) => Some(x as int),
        None => None,
    }
}

pub open spec fn option_i64(v: Option<i64>) -> Option<int> {
    match v {
        Some(x) => Some(x as int),
        None => None,
    }
}

/// Where `a` sorts relative to `b`: directories first, then by the chosen
/// column (names compared lower-cased), that comparison flipped when
/// `reverse` is set.
pub open spec fn entry_order(a: RemoteFileEntry, b: RemoteFileEntry, key: SortKey, reverse: bool) -> int {
    let a_dir = if a.kind == RemoteFileKind::Directory { 0int } else { 1int };
    let b_dir = if b.kind == RemoteFileKind::Directory { 0int } else { 1int };
    if a_dir != b_dir {
        compare_int(a_dir, b_dir)
    } else {
        let by_key = match key {
            SortKey::Name => compare_text(lowercase(a.name@), lowercase(b.name@)),
            SortKey::Size => compare_option(option_u64(a.size_bytes), option_u64(b.size_bytes)),
            SortKey::Modified => compare_option(
                option_i64(a.modified_unix_seconds),
                option_i64(b.modified_unix_seconds),
            ),
        };
        if reverse {
            -by_key
        } else {
            by_key
        }
    }
}

proof fn lemma_compare_text_antisymmetric(a: Seq<char>, b: Seq<char>)
    ensures
        compare_text(a, b) == -compare_text(b, a),
        -1 <= compare_text(a, b) <= 1,
    decreases a.len(),
{
    if a.len() > 0 && b.len() > 0 && a[0] == b[0] {
        lemma_compare_text_antisymmetric(a.drop_first(), b.drop_first());
    }
}

proof fn lemma_compare_text_transitive(a: Seq<char>, b: Seq<char>, c: Seq<char>)
    requires
        compare_text(a, b) <= 0,
        compare_text(b, c) <= 0,
    ensures
        compare_text(a, c) <= 0,
        compare_text(a, b) < 0 || compare_text(b, c) < 0 ==> compare_text(a, c) < 0,
    decreases a.len(),
{
    if a.len() > 0 && b.len() > 0 && c.len() > 0 && a[0] == b[0] && b[0] == c[0] {
        lemma_compare_text_transitive(a.drop_first(), b.drop_first(), c.drop_first());
    }
}

/// `entry_order` is a total preorder: antisymmetric and transitive, also in
/// its strict form.
pub proof fn lemma_entry_order_preorder(
    a: RemoteFileEntry,
    b: RemoteFileEntry,
    c: RemoteFileEntry,
    key: SortKey,
    reverse: bool,
)
    ensures
        entry_order(a, b, key, reverse) == -entry_order(b, a, key, reverse),
        -1 <= entry_order(a, b, key, reverse) <= 1,
        entry_order(a, b, key, reverse) <= 0 && entry_order(b, c, key, reverse) <= 0 ==> entry_order(
            a,
            c,
            key,
            reverse,
        ) <= 0,
        entry_order(a, b, key, reverse) < 0 && entry_order(b, c, key, reverse) <= 0 ==> entry_order(
            a,
            c,
            key,
            reverse,
        ) < 0,
        entry_order(a, b, key, reverse) <= 0 && entry_order(b, c, key, reverse) < 0 ==> entry_order(
            a,
            c,
            key,
            reverse,
        ) < 0,
{
    lemma_compare_text_antisymmetric(lowercase(a.name@), lowercase(b.name@));
    if key == SortKey::Name {
        if !reverse {
            if compare_text(lowercase(a.name@), lowercase(b.name@)) <= 0 && compare_text(
                lowercase(b.name@),
                lowercase(c.name@),
            ) <= 0 {
                lemma_compare_text_transitive(lowercase(a.name@), lowercase(b.name@), lowercase(c.name@));
            }
        } else {
            if compare_text(lowercase(c.name@), lowercase(b.name@)) <= 0 && compare_text(
                lowercase(b.name@),
                lowercase(a.name@),
            ) <= 0 {
                lemma_compare_text_transitive(lowercase(c.name@), lowercase(b.name@), lowercase(a.name@));
            }
            lemma_compare_text_antisymmetric(lowercase(b.name@), lowercase(c.name@));
            lemma_compare_text_antisymmetric(lowercase(a.name@), lowercase(c.name@));
        }
        lemma_compare_text_antisymmetric(lowercase(b.name@), lowercase(c.name@));
        lemma_compare_text_antisymmetric(lowercase(a.name@), lowercase(c.name@));
    }
}

/// Whether `first` may be listed above `second`, by the entries' fields:
/// directories above files; among equals, names in lower-case character
/// order, or sizes or modification times ascending with a missing value
/// first; `reverse` turns the second rule round (directories stay first).
pub open spec fn may_precede(first: RemoteFileEntry, second: RemoteFileEntry, key: SortKey, reverse: bool) -> bool {
    let first_dir = first.kind == RemoteFileKind::Directory;
    let second_dir = second.kind == RemoteFileKind::Directory;
    if first_dir != second_dir {
        first_dir
    } else {
        let (x, y) = if reverse {
            (second, first)
        } else {
            (first, second)
        };
        match key {
            SortKey::Name => compare_text(lowercase(x.name@), lowercase(y.name@)) <= 0,
            SortKey::Size => match (x.size_bytes, y.size_bytes) {
                (Some(p), Some(q)) => p <= q,
                (Some(_), None) => false,
                _ => true,
            },
            SortKey::Modified => match (x.modified_unix_seconds, y.modified_unix_seconds) {
                (Some(p), Some(q)) => p <= q,
                (Some(_), None) => false,
                _ => true,
            },
        }
    }
}

/// The listing order in terms of the entries: an entry may stand above
/// another exactly when `may_precede` allows it.
pub proof fn lemma_entry_order_fields(first: RemoteFileEntry, second: RemoteFileEntry, key: SortKey, reverse: bool)
    ensures
        (entry_order(first, second, key, reverse) <= 0) == may_precede(first, second, key, reverse),
{
    if key == SortKey::Name && (first.kind == RemoteFileKind::Directory) == (second.kind == RemoteFileKind::Directory) {
        lemma_compare_text_antisymmetric(lowercase(first.name@), lowercase(second.name@));
    }
}


/// `after` is `before` reordered by the index sequence `order`: sorted by
/// `entry_order`, with entries that compare equal kept in their old order.
pub open spec fn is_stable_sort(
    before: Seq<RemoteFileEntry>,
    after: Seq<RemoteFileEntry>,
    order: Seq<int>,
    key: SortKey,
    reverse: bool,
) -> bool {
    &&& order.len() == before.len() == after.len()
    &&& forall|k: int| 0 <= k < order.len() ==> 0 <= #[trigger] order[k] < before.len()
    &&& forall|a: int, b: int| 0 <= a < b < order.len() ==> order[a] != order[b]
    &&& forall|k: int| 0 <= k < order.len() ==> after[k] == before[#[trigger] order[k]]
    &&& forall|a: int, b: int|
        0 <= a < b < after.len() ==> entry_order(after[a], after[b], key, reverse) <= 0
    &&& forall|a: int, b: int|
        0 <= a < b < after.len() && entry_order(after[a], after[b], key, reverse) == 0 ==> order[a]
            < order[b]
}

fn compare_chars(a: &Vec<char>, b: &Vec<char>) -> (order: i8)
    ensures
        order as int == compare_text(a@, b@),
{
    let mut i: usize = 0;
    assert(a@.skip(0) == a@ && b@.skip(0) == b@);
    while i < a.len() && i < b.len() && a[i] == b[i]
        invariant
            i <= a.len(),
            i <= b.len(),
            compare_text(a@, b@) == compare_text(a@.skip(i as int), b@.skip(i as int)),
        decreases a.len() - i,
    {
        assert(a@.skip(i as int).drop_first() == a@.skip(i + 1));
        assert(b@.skip(i as int).drop_first() == b@.skip(i + 1));
        i = i + 1;
    }
    let ghost sa = a@.skip(i as int);
    let ghost sb = b@.skip(i as int);
    if i == a.len() || i == b.len() {
        assert(sa.len() == 0 || sb.len() == 0);
        assert(compare_text(sa, sb) == compare_int(sa.len() as int, sb.len() as int));
        if a.len() - i < b.len() - i {
            -1
        } else if a.len() - i > b.len() - i {
            1
        } else {
            0
        }
    } else {
        assert(sa[0] == a@[i as int] && sb[0] == b@[i as int]);
        assert(compare_text(sa, sb) == compare_int(sa[0] as int, sb[0] as int));
        if a[i] < b[i] {
            -1
        } else {
            1
        }
    }
}

fn compare_optional(a: Option<i128>, b: Option<i128>) -> (order: i8)
    ensures
        order as int == compare_option(
            match a {
                Some(x) => Some(x as int),
                None => None,
            },
            match b {
                Some(x) => Some(x as int),
                None => None,
            },
        ),
{
    match (a, b) {
        (Some(x), Some(y)) => if x < y {
            -1
        } else if x > y {
            1
        } else {
            0
        },
        (Some(_), None) => 1,
        (None, Some(_)) => -1,
        (None, None) => 0,
    }
}

fn widen_u64(v: Option<u64>) -> (w: Option<i128>)
    ensures
        match w {
            Some(x) => Some(x as int),
            None => None::<int>,
        } == option_u64(v),
{
    match v {
        Some(x) => Some(x as i128),
        None => None,
    }
}

fn widen_i64(v: Option<i64>) -> (w: Option<i128>)
    ensures
        match w {
            Some(x) => Some(x as int),
            None => None::<int>,
        } == option_i64(v),
{
    match v {
        Some(x) => Some(x as i128),
        None => None,
    }
}

fn compare_entries(
    a: &RemoteFileEntry,
    a_name: &Vec<char>,
    b: &RemoteFileEntry,
    b_name: &Vec<char>,
    key: SortKey,
    reverse: bool,
) -> (order: i8)
    requires
        a_name@ == lowercase(a.name@),
        b_name@ == lowercase(b.name@),
    ensures
        order as int == entry_order(*a, *b, key, reverse),
{
    let a_dir: i8 = if a.kind == RemoteFileKind::Directory { 0 } else { 1 };
    let b_dir: i8 = if b.kind == RemoteFileKind::Directory { 0 } else { 1 };
    if a_dir != b_dir {
        return if a_dir < b_dir {
            -1
        } else {
            1
        };
    }
    let by_key = match key {
        SortKey::Name => compare_chars(a_name, b_name),
        SortKey::Size => compare_optional(widen_u64(a.size_bytes), widen_u64(b.size_bytes)),
        SortKey::Modified => compare_optional(
            widen_i64(a.modified_unix_seconds),
            widen_i64(b.modified_unix_seconds),
        ),
    };
    proof {
        lemma_compare_text_antisymmetric(a_name@, b_name@);
    }
    if reverse {
        -by_key
    } else {
        by_key
    }
}

fn copy_entry(entry: &RemoteFileEntry) -> (copy: RemoteFileEntry)
    ensures
        copy == *entry,
{
    RemoteFileEntry {
        path: entry.path.clone(),
        name: entry.name.clone(),
        kind: entry.kind,
        size_bytes: entry.size_bytes,
        modified_unix_seconds: entry.modified_unix_seconds,
        permissions: match &entry.permissions {
            Some(p) => Some(p.clone()),
            None => None,
        },
    }
}

/// Orders the listing: directories first, then by `key` (names compared
/// case-insensitively), descending when `reverse` is set; entries that
/// compare equal keep their order.
pub fn sort_entries(entries: &mut Vec<RemoteFileEntry>, key: SortKey, reverse: bool)
    ensures
        exists|order: Seq<int>| is_stable_sort(old(entries)@, final(entries)@, order, key, reverse),
        forall|a: int, b: int|
            0 <= a < b < final(entries)@.len() ==> may_precede(
                #[trigger] final(entries)@[a],
                #[trigger] final(entries)@[b],
                key,
                reverse,
            ),
{
    let n = entries.len();
    let mut names: Vec<Vec<char>> = Vec::new();
    let mut i: usize = 0;
    while i < n
        invariant
            i <= n == entries@.len(),
            names@.len() == i,
            forall|k: int| 0 <= k < i ==> (#[trigger] names@[k])@ == lowercase(entries@[k].name@),
        decreases n - i,
    {
        let lowered = to_lowercase(entries[i].name.as_str());
        names.push(chars_of(lowered.as_str()));
        i = i + 1;
    }
    let ghost before = entries@;
    let mut order: Vec<usize> = Vec::new();
    let mut i: usize = 0;
    while i < n
        invariant
            i <= n == entries@.len() == names@.len(),
            before == entries@,
            forall|k: int| 0 <= k < n ==> (#[trigger] names@[k])@ == lowercase(entries@[k].name@),
            order@.len() == i,
            forall|k: int| 0 <= k < i ==> #[trigger] order@[k] < i,
            forall|a: int, b: int| 0 <= a < b < i ==> order@[a] != order@[b],
            forall|a: int, b: int|
                0 <= a < b < i ==> entry_order(
                    before[order@[a] as int],
                    before[order@[b] as int],
                    key,
                    reverse,
                ) <= 0,
            forall|a: int, b: int|
                0 <= a < b < i && entry_order(
                    before[order@[a] as int],
                    before[order@[b] as int],
                    key,
                    reverse,
                ) == 0 ==> order@[a] < order@[b],
        decreases n - i,
    {
        // Stable insertion: after every entry that does not sort after entry i.
        let mut pos: usize = i;
        while pos > 0 && compare_entries(
            &entries[order[pos - 1]],
            &names[order[pos - 1]],
            &entries[i],
            &names[i],
            key,
            reverse,
        ) > 0
            invariant
                pos <= i < n == entries@.len() == names@.len(),
                before == entries@,
                order@.len() == i,
                forall|k: int| 0 <= k < i ==> #[trigger] order@[k] < i,
                forall|k: int| 0 <= k < n ==> (#[trigger] names@[k])@ == lowercase(entries@[k].name@),
                forall|k: int|
                    pos <= k < i ==> entry_order(
                        before[#[trigger] order@[k] as int],
                        before[i as int],
                        key,
                        reverse,
                    ) > 0,
            decreases pos,
        {
            pos = pos - 1;
        }
        proof {
            assert forall|k: int| 0 <= k < pos implies entry_order(
                before[#[trigger] order@[k] as int],
                before[i as int],
                key,
                reverse,
            ) <= 0 by {
                if pos > 0 {
                    let last = order@[pos - 1] as int;
                    lemma_entry_order_preorder(before[order@[k] as int], before[last], before[i as int], key, reverse);
                    if k < pos - 1 {
                        assert(entry_order(before[order@[k] as int], before[last], key, reverse) <= 0);
                    }
                }
            }
        }
        let ghost old_order = order@;
        order.insert(pos, i);
        proof {
            assert forall|a: int, b: int| 0 <= a < b < i + 1 implies entry_order(
                before[order@[a] as int],
                before[order@[b] as int],
                key,
                reverse,
            ) <= 0 by {
                if b == pos {
                    assert(order@[a] == old_order[a]);
                } else if a == pos {
                    assert(order@[b] == old_order[b - 1]);
                    lemma_entry_order_preorder(before[i as int], before[old_order[b - 1] as int], before[i as int], key, reverse);
                } else {
                    let oa = if a < pos { a } else { a - 1 };
                    let ob = if b < pos { b } else { b - 1 };
                    assert(order@[a] == old_order[oa]);
                    assert(order@[b] == old_order[ob]);
                }
            }
            assert forall|a: int, b: int|
                0 <= a < b < i + 1 && entry_order(
                    before[order@[a] as int],
                    before[order@[b] as int],
                    key,
                    reverse,
                ) == 0 implies order@[a] < order@[b] by {
                if b == pos {
                    assert(order@[a] == old_order[a]);
                } else if a == pos {
                    assert(order@[b] == old_order[b - 1]);
                    lemma_entry_order_preorder(before[i as int], before[old_order[b - 1] as int], before[i as int], key, reverse);
                } else {
                    let oa = if a < pos { a } else { a - 1 };
                    let ob = if b < pos { b } else { b - 1 };
                    assert(order@[a] == old_order[oa]);
                    assert(order@[b] == old_order[ob]);
                }
            }
            assert forall|k: int| 0 <= k < i + 1 implies #[trigger] order@[k] < i + 1 by {
                if k < pos {
                    assert(order@[k] == old_order[k]);
                } else if k > pos {
                    assert(order@[k] == old_order[k - 1]);
                }
            }
            assert forall|a: int, b: int| 0 <= a < b < i + 1 implies order@[a] != order@[b] by {
                if a == pos {
                    assert(order@[b] == old_order[b - 1]);
                } else if b == pos {
                    assert(order@[a] == old_order[a]);
                } else {
                    let oa = if a < pos { a } else { a - 1 };
                    let ob = if b < pos { b } else { b - 1 };
                    assert(order@[a] == old_order[oa]);
                    assert(order@[b] == old_order[ob]);
                }
            }
        }
        i = i + 1;
    }
    let mut sorted: Vec<RemoteFileEntry> = Vec::new();
    let mut k: usize = 0;
    while k < n
        invariant
            k <= n == entries@.len() == order@.len(),
            before == entries@,
            forall|j: int| 0 <= j < n ==> #[trigger] order@[j] < n,
            sorted@.len() == k,
            forall|j: int| 0 <= j < k ==> sorted@[j] == before[#[trigger] order@[j] as int],
        decreases n - k,
    {
        sorted.push(copy_entry(&entries[order[k]]));
        k = k + 1;
    }
    *entries = sorted;
    let ghost witness = order@.map_values(|v: usize| v as int);
    proof {
        let after = entries@;
        assert forall|j: int| 0 <= j < n implies after[j] == before[#[trigger] witness[j]] by {
            assert(witness[j] == order@[j] as int);
        }
        assert forall|j: int| 0 <= j < n implies 0 <= #[trigger] witness[j] < before.len() by {
            assert(witness[j] == order@[j] as int);
        }
        assert forall|a: int, b: int| 0 <= a < b < n implies witness[a] != witness[b] by {
            assert(witness[a] == order@[a] as int);
            assert(witness[b] == order@[b] as int);
        }
        assert forall|a: int, b: int|
            0 <= a < b < after.len() implies entry_order(after[a], after[b], key, reverse) <= 0 by {
            assert(after[a] == before[order@[a] as int]);
            assert(after[b] == before[order@[b] as int]);
        }
        assert forall|a: int, b: int|
            0 <= a < b < after.len() && entry_order(after[a], after[b], key, reverse) == 0 implies witness[a]
                < witness[b] by {
            assert(after[a] == before[order@[a] as int]);
            assert(after[b] == before[order@[b] as int]);
            assert(witness[a] == order@[a] as int);
            assert(witness[b] == order@[b] as int);
        }
    }
    assert(is_stable_sort(before, entries@, witness, key, reverse));
    proof {
        let after = entries@;
        assert forall|a: int, b: int|
            0 <= a < b < after.len() implies may_precede(#[trigger] after[a], #[trigger] after[b], key, reverse) by {
            lemma_entry_order_fields(after[a], after[b], key, reverse);
        }
    }
}


/// Direction of a file transfer.
#[derive(Clone, Copy, Debug, PartialEq, Eq)]
pub enum FileTransferDirection {
    Upload,
    Download,
}

/// Whether a transfer may replace an existing file.
#[derive(Clone, Copy, Debug, PartialEq, Eq)]
pub enum OverwritePolicy {
    Deny,
    ReplaceConfirmed,
}

/// A transfer the user asked for, kept so a refused overwrite can be retried.
pub struct TransferIntent {
    pub direction: FileTransferDirection,
    pub target: DeviceTarget,
    pub local_path: String,
    pub remote_path: String,
}

/// The open create / rename / delete dialog.
#[derive(Clone, Copy, Debug, PartialEq, Eq, Structural)]
pub enum MutationModalKind {
    CreateDirectory,
    Rename,
    Delete,
}

pub struct MutationModal {
    pub kind: MutationModalKind,
    pub input: String,
    pub entry: Option<RemoteFileEntry>,
}

/// Backend requests of the file browser.
pub enum FilesCommand {
    ListDirectory { request_id: u64, target: DeviceTarget, path: String },
    UploadFile {
        request_id: u64,
        target: DeviceTarget,
        local_path: String,
        remote_path: String,
        overwrite: OverwritePolicy,
    },
    DownloadFile {
        request_id: u64,
        target: DeviceTarget,
        remote_path: String,
        local_path: String,
        overwrite: OverwritePolicy,
    },
    CreateDirectory { request_id: u64, target: DeviceTarget, path: String },
    RenameRemoteEntry { request_id: u64, target: DeviceTarget, source: String, destination: String },
    DeleteRemoteFile { request_id: u64, target: DeviceTarget, path: String, confirmed: bool },
    CancelFileOperation(u64),
}

/// Backend reports the file browser reacts to.
pub enum FilesEvent {
    DirectoryLoading { request_id: u64, target: DeviceTarget, path: String },
    DirectoryLoaded {
        request_id: u64,
        target: DeviceTarget,
        directory: String,
        entries: Vec<RemoteFileEntry>,
    },
    DirectoryFailed { request_id: u64, target: DeviceTarget, error: BridgeError },
    FileTransferStarted { request_id: u64, target: DeviceTarget },
    FileTransferCompleted { request_id: u64, target: DeviceTarget },
    FileTransferFailed { request_id: u64, target: DeviceTarget, error: BridgeError },
    FileTransferCancelled { request_id: u64, target: DeviceTarget },
    FileMutationStarted { request_id: u64, target: DeviceTarget },
    FileMutationCompleted { request_id: u64, target: DeviceTarget },
    FileMutationFailed { request_id: u64, target: DeviceTarget, error: BridgeError },
}

/// The directory listed when a device is selected.
pub open spec fn default_directory() -> Seq<char> {
    "/sdcard"@
}

/// An error as the browser shows it: `key: detail`.
pub open spec fn error_message(error: BridgeError) -> Seq<char> {
    error.message_key@ + seq![':', ' '] + error.detail@
}

/// Renders an error as `key: detail`.
pub fn format_error(error: &BridgeError) -> (message: String)
    ensures
        message@ == error_message(*error),
{
    let mut message = error.message_key.clone();
    push_char(&mut message, ':');
    push_char(&mut message, ' ');
    push_chars(&mut message, chars_of(error.detail.as_str()).as_slice());
    message
}

/// The upload or download command for `intent` with the given policy.
pub open spec fn transfer_command(
    intent: TransferIntent,
    overwrite: OverwritePolicy,
    request_id: u64,
    command: FilesCommand,
) -> bool {
    match intent.direction {
        FileTransferDirection::Upload => command == (FilesCommand::UploadFile {
            request_id,
            target: intent.target,
            local_path: intent.local_path,
            remote_path: intent.remote_path,
            overwrite,
        }),
        FileTransferDirection::Download => command == (FilesCommand::DownloadFile {
            request_id,
            target: intent.target,
            remote_path: intent.remote_path,
            local_path: intent.local_path,
            overwrite,
        }),
    }
}

/// The request a confirmed dialog sends, if it can send one.
pub open spec fn mutation_request(
    modal: MutationModal,
    target: DeviceTarget,
    destination: Option<String>,
    request_id: u64,
) -> Option<FilesCommand> {
    match (modal.kind, modal.entry, destination) {
        (MutationModalKind::CreateDirectory, _, Some(path)) => Some(
            FilesCommand::CreateDirectory { request_id, target, path },
        ),
        (MutationModalKind::Rename, Some(entry), Some(destination)) => Some(
            FilesCommand::RenameRemoteEntry { request_id, target, source: entry.path, destination },
        ),
        (MutationModalKind::Delete, Some(entry), _) => Some(
            FilesCommand::DeleteRemoteFile { request_id, target, path: entry.path, confirmed: true },
        ),
        _ => None,
    }
}

/// The error shown when a dialog cannot send its request.
pub open spec fn invalid_mutation_message() -> Seq<char> {
    "Invalid remote name or selection."@
}

/// The entry at the selected row, if the selection is in range.
pub open spec fn selected_entry_of(state: FilesPanelState) -> Option<RemoteFileEntry> {
    match state.selected {
        Some(i) => if i < state.entries@.len() {
            Some(state.entries@[i as int])
        } else {
            None
        },
        None => None,
    }
}

/// The remote file browser.
pub struct FilesPanelState {
    pub target: Option<DeviceTarget>,
    pub directory: Option<String>,
    pub path_input: String,
    pub entries: Vec<RemoteFileEntry>,
    pub selected: Option<usize>,
    /// Directories to return to with Back, most recent last.
    pub history: Vec<String>,
    pub sort_key: SortKey,
    pub sort_reverse: bool,
    pub listing_request: Option<u64>,
    pub loading: bool,
    pub transfer: Option<u64>,
    pub transfer_intent: Option<TransferIntent>,
    pub overwrite_prompt: Option<TransferIntent>,
    pub mutation: Option<u64>,
    pub mutation_modal: Option<MutationModal>,
    pub error: Option<String>,
}

impl Default for FilesPanelState {
    fn default() -> (state: Self)
        ensures
            state.target is None,
            state.directory is None,
            state.entries@.len() == 0,
            state.history@.len() == 0,
            state.sort_key == SortKey::Name,
            !state.sort_reverse,
            state.listing_request is None,
            !state.loading,
            state.transfer is None,
            state.mutation is None,
            state.error is None,
            state.path_input@.len() == 0,
            state.selected is None,
            state.transfer_intent is None,
            state.overwrite_prompt is None,
            state.mutation_modal is None,
    {
        FilesPanelState {
            target: None,
            directory: None,
            path_input: String::new(),
            entries: Vec::new(),
            selected: None,
            history: Vec::new(),
            sort_key: SortKey::Name,
            sort_reverse: false,
            listing_request: None,
            loading: false,
            transfer: None,
            transfer_intent: None,
            overwrite_prompt: None,
            mutation: None,
            mutation_modal: None,
            error: None,
        }
    }
}

impl FilesPanelState {
    /// Requests a listing of `path` under the fresh id `request_id`.
    pub fn list(&mut self, target: DeviceTarget, path: String, request_id: u64) -> (command: FilesCommand)
        ensures
            command == (FilesCommand::ListDirectory { request_id, target, path }),
            *final(self) == (FilesPanelState {
                listing_request: Some(request_id),
                loading: true,
                ..*old(self)
            }),
    {
        self.listing_request = Some(request_id);
        self.loading = true;
        FilesCommand::ListDirectory { request_id, target, path }
    }

    /// Lists `path`, remembering the current directory for Back unless it is
    /// the same directory again.
    pub fn navigate(&mut self, target: DeviceTarget, path: String, request_id: u64) -> (command: FilesCommand)
        ensures
            command == (FilesCommand::ListDirectory { request_id, target, path }),
            final(self).listing_request == Some(request_id),
            final(self).loading,
            match old(self).directory {
                Some(d) => if d@ != path@ {
                    final(self).history@.map_values(|h: String| h@) == old(self).history@.map_values(
                        |h: String| h@,
                    ).push(d@)
                } else {
                    final(self).history == old(self).history
                },
                None => final(self).history == old(self).history,
            },
            *final(self) == (FilesPanelState {
                history: final(self).history,
                listing_request: Some(request_id),
                loading: true,
                ..*old(self)
            }),
    {
        match &self.directory {
            Some(directory) => {
                if *directory != path {
                    let previous = directory.clone();
                    let ghost before = self.history@.map_values(|h: String| h@);
                    self.history.push(previous);
                    assert(self.history@.map_values(|h: String| h@) == before.push(previous@));
                }
            },
            None => {},
        }
        self.list(target, path, request_id)
    }

    /// Follows the selected device: a different target drops every listing,
    /// transfer and dialog and lists the default directory of the new one.
    pub fn reconcile_target(&mut self, target: Option<DeviceTarget>, request_id: u64) -> (command:
        Option<FilesCommand>)
        ensures
            target_view(old(self).target) == target_view(target) ==> command is None && *final(self)
                == *old(self),
            target_view(old(self).target) != target_view(target) ==> {
                &&& target_view(final(self).target) == target_view(target)
                &&& final(self).path_input@.len() == 0
                &&& final(self).sort_key == old(self).sort_key
                &&& final(self).sort_reverse == old(self).sort_reverse
                &&& final(self).directory is None
                &&& final(self).entries@.len() == 0
                &&& final(self).selected is None
                &&& final(self).history@.len() == 0
                &&& final(self).transfer is None
                &&& final(self).transfer_intent is None
                &&& final(self).overwrite_prompt is None
                &&& final(self).mutation is None
                &&& final(self).mutation_modal is None
                &&& final(self).error is None
                &&& match target {
                    Some(t) => {
                        &&& command matches Some(
                            FilesCommand::ListDirectory { request_id: id, target: listed, path },
                        ) && id == request_id && listed@ == t@ && path@ == default_directory()
                        &&& final(self).listing_request == Some(request_id)
                        &&& final(self).loading
                    },
                    None => command is None && final(self).listing_request is None
                        && !final(self).loading,
                }
            },
    {
        if same_target(&self.target, &target) {
            return None;
        }
        self.target = duplicate_target(&target);
        self.directory = None;
        self.path_input = String::new();
        self.entries = Vec::new();
        self.selected = None;
        self.history = Vec::new();
        self.listing_request = None;
        self.loading = false;
        self.transfer = None;
        self.transfer_intent = None;
        self.overwrite_prompt = None;
        self.mutation = None;
        self.mutation_modal = None;
        self.error = None;
        match target {
            Some(t) => {
                let path = crate::text::string_of(chars_of("/sdcard").as_slice());
                Some(self.list(t, path, request_id))
            },
            None => None,
        }
    }

    /// Starts a transfer under the fresh id `request_id`, remembering it so
    /// a refused overwrite can be offered again.
    pub fn start_transfer(
        &mut self,
        intent: TransferIntent,
        overwrite: OverwritePolicy,
        request_id: u64,
    ) -> (command: FilesCommand)
        ensures
            transfer_command(intent, overwrite, request_id, command),
            *final(self) == (FilesPanelState {
                transfer: Some(request_id),
                transfer_intent: Some(intent),
                error: None,
                ..*old(self)
            }),
    {
        let command = match intent.direction {
            FileTransferDirection::Upload => FilesCommand::UploadFile {
                request_id,
                target: intent.target.duplicate(),
                local_path: intent.local_path.clone(),
                remote_path: intent.remote_path.clone(),
                overwrite,
            },
            FileTransferDirection::Download => FilesCommand::DownloadFile {
                request_id,
                target: intent.target.duplicate(),
                remote_path: intent.remote_path.clone(),
                local_path: intent.local_path.clone(),
                overwrite,
            },
        };
        self.transfer = Some(request_id);
        self.transfer_intent = Some(intent);
        self.error = None;
        command
    }

    /// Tracks a create / rename / delete request until its report arrives;
    /// other commands are passed through untracked.
    pub fn start_mutation(&mut self, command: FilesCommand) -> (sent: FilesCommand)
        ensures
            sent == command,
            match command {
                FilesCommand::CreateDirectory { request_id, .. }
                | FilesCommand::RenameRemoteEntry { request_id, .. }
                | FilesCommand::DeleteRemoteFile { request_id, .. } => *final(self) == (FilesPanelState {
                    mutation: Some(request_id),
                    error: None,
                    ..*old(self)
                }),
                _ => *final(self) == *old(self),
            },
    {
        match &command {
            FilesCommand::CreateDirectory { request_id, .. }
            | FilesCommand::RenameRemoteEntry { request_id, .. }
            | FilesCommand::DeleteRemoteFile { request_id, .. } => {
                self.mutation = Some(*request_id);
                self.error = None;
            },
            _ => {},
        }
        command
    }

    /// The entry at the selected row, if the selection is in range.
    pub fn selected_entry(&self) -> (entry: Option<&RemoteFileEntry>)
        ensures
            match self.selected {
                Some(i) => if i < self.entries@.len() {
                    entry == Some(&self.entries@[i as int])
                } else {
                    entry is None
                },
                None => entry is None,
            },
    {
        match self.selected {
            Some(i) => if i < self.entries.len() {
                Some(&self.entries[i])
            } else {
                None
            },
            None => None,
        }
    }

    /// Applies one backend report; reports for other requests or devices are
    /// ignored. A finished transfer or mutation relists the current directory
    /// under the fresh id `request_id`.
    pub fn handle_event(&mut self, event: &FilesEvent, request_id: u64) -> (commands: Vec<FilesCommand>)
        ensures
            match event {
                FilesEvent::DirectoryLoading { request_id: r, target, path } => if old(
                    self,
                ).listing_request == Some(*r) && target_view(old(self).target) == Some(target@) {
                    &&& final(self).directory matches Some(d) && d@ == path@
                    &&& final(self).path_input@ == path@
                    &&& *final(self) == (FilesPanelState {
                        directory: final(self).directory,
                        path_input: final(self).path_input,
                        loading: true,
                        error: None,
                        ..*old(self)
                    })
                    &&& commands@.len() == 0
                } else {
                    commands@.len() == 0 && *final(self) == *old(self)
                },
                FilesEvent::DirectoryLoaded { request_id: r, target, directory, entries } => if old(
                    self,
                ).listing_request == Some(*r) && target_view(old(self).target) == Some(target@) {
                    &&& final(self).directory matches Some(d) && d@ == directory@
                    &&& final(self).path_input@ == directory@
                    &&& final(self).entries@ == entries@
                    &&& *final(self) == (FilesPanelState {
                        directory: final(self).directory,
                        path_input: final(self).path_input,
                        entries: final(self).entries,
                        selected: None,
                        loading: false,
                        error: None,
                        ..*old(self)
                    })
                    &&& commands@.len() == 0
                } else {
                    commands@.len() == 0 && *final(self) == *old(self)
                },
                FilesEvent::DirectoryFailed { request_id: r, target, error } => if old(
                    self,
                ).listing_request == Some(*r) && target_view(old(self).target) == Some(target@) {
                    &&& final(self).error matches Some(m) && m@ == error_message(*error)
                    &&& *final(self) == (FilesPanelState { loading: false, error: final(self).error, ..*old(self) })
                    &&& commands@.len() == 0
                } else {
                    commands@.len() == 0 && *final(self) == *old(self)
                },
                FilesEvent::FileTransferStarted { .. } | FilesEvent::FileMutationStarted { .. } =>
                    commands@.len() == 0 && *final(self) == *old(self),
                FilesEvent::FileTransferCompleted { request_id: r, target } => if old(self).transfer
                    == Some(*r) && target_view(old(self).target) == Some(target@) {
                    let cleared = FilesPanelState { transfer: None, transfer_intent: None, ..*old(self) };
                    match old(self).directory {
                        Some(d) => {
                            &&& *final(self) == (FilesPanelState {
                                listing_request: Some(request_id),
                                loading: true,
                                ..cleared
                            })
                            &&& commands@.len() == 1
                            &&& commands@[0] matches FilesCommand::ListDirectory {
                                request_id: id,
                                target: listed,
                                path,
                            } && id == request_id && listed@ == target@ && path == d
                        },
                        None => commands@.len() == 0 && *final(self) == cleared,
                    }
                } else {
                    commands@.len() == 0 && *final(self) == *old(self)
                },
                FilesEvent::FileTransferFailed { request_id: r, target, error } => if old(
                    self,
                ).transfer == Some(*r) && target_view(old(self).target) == Some(target@) {
                    &&& commands@.len() == 0
                    &&& if error.code == ErrorCode::AlreadyExists && old(self).transfer_intent is Some {
                        *final(self) == (FilesPanelState {
                            transfer: None,
                            transfer_intent: None,
                            overwrite_prompt: old(self).transfer_intent,
                            ..*old(self)
                        })
                    } else {
                        &&& final(self).error matches Some(m) && m@ == error_message(*error)
                        &&& *final(self) == (FilesPanelState {
                            transfer: None,
                            transfer_intent: None,
                            error: final(self).error,
                            ..*old(self)
                        })
                    }
                } else {
                    commands@.len() == 0 && *final(self) == *old(self)
                },
                FilesEvent::FileTransferCancelled { request_id: r, target } => if old(self).transfer
                    == Some(*r) && target_view(old(self).target) == Some(target@) {
                    &&& *final(self) == (FilesPanelState { transfer: None, transfer_intent: None, ..*old(self) })
                    &&& commands@.len() == 0
                } else {
                    commands@.len() == 0 && *final(self) == *old(self)
                },
                FilesEvent::FileMutationCompleted { request_id: r, target } => if old(self).mutation
                    == Some(*r) && target_view(old(self).target) == Some(target@) {
                    let cleared = FilesPanelState {
                        mutation: None,
                        mutation_modal: None,
                        error: None,
                        ..*old(self)
                    };
                    match old(self).directory {
                        Some(d) => {
                            &&& *final(self) == (FilesPanelState {
                                listing_request: Some(request_id),
                                loading: true,
                                ..cleared
                            })
                            &&& commands@.len() == 1
                            &&& commands@[0] matches FilesCommand::ListDirectory {
                                request_id: id,
                                target: listed,
                                path,
                            } && id == request_id && listed@ == target@ && path == d
                        },
                        None => commands@.len() == 0 && *final(self) == cleared,
                    }
                } else {
                    commands@.len() == 0 && *final(self) == *old(self)
                },
                FilesEvent::FileMutationFailed { request_id: r, target, error } => if old(
                    self,
                ).mutation == Some(*r) && target_view(old(self).target) == Some(target@) {
                    &&& final(self).error matches Some(m) && m@ == error_message(*error)
                    &&& *final(self) == (FilesPanelState { mutation: None, error: final(self).error, ..*old(self) })
                    &&& commands@.len() == 0
                } else {
                    commands@.len() == 0 && *final(self) == *old(self)
                },
            },
    {
        let mut commands = Vec::new();
        match event {
            FilesEvent::DirectoryLoading { request_id: r, target, path } => {
                if self.listing_request == Some(*r) && is_target(&self.target, target) {
                    self.directory = Some(path.clone());
                    self.path_input = path.clone();
                    self.loading = true;
                    self.error = None;
                }
            },
            FilesEvent::DirectoryLoaded { request_id: r, target, directory, entries } => {
                if self.listing_request == Some(*r) && is_target(&self.target, target) {
                    self.directory = Some(directory.clone());
                    self.path_input = directory.clone();
                    let mut copied: Vec<RemoteFileEntry> = Vec::new();
                    let mut i: usize = 0;
                    while i < entries.len()
                        invariant
                            i <= entries@.len(),
                            copied@ == entries@.take(i as int),
                        decreases entries@.len() - i,
                    {
                        copied.push(copy_entry(&entries[i]));
                        i = i + 1;
                        assert(copied@ == entries@.take(i as int));
                    }
                    assert(entries@.take(entries@.len() as int) == entries@);
                    self.entries = copied;
                    self.selected = None;
                    self.loading = false;
                    self.error = None;
                }
            },
            FilesEvent::DirectoryFailed { request_id: r, target, error } => {
                if self.listing_request == Some(*r) && is_target(&self.target, target) {
                    self.loading = false;
                    self.error = Some(format_error(error));
                }
            },
            FilesEvent::FileTransferStarted { .. } | FilesEvent::FileMutationStarted { .. } => {},
            FilesEvent::FileTransferCompleted { request_id: r, target } => {
                if self.transfer == Some(*r) && is_target(&self.target, target) {
                    self.transfer = None;
                    self.transfer_intent = None;
                    match &self.directory {
                        Some(d) => {
                            let path = d.clone();
                            let command = self.list(target.duplicate(), path, request_id);
                            commands.push(command);
                        },
                        None => {},
                    }
                }
            },
            FilesEvent::FileTransferFailed { request_id: r, target, error } => {
                if self.transfer == Some(*r) && is_target(&self.target, target) {
                    self.transfer = None;
                    let intent = self.transfer_intent.take();
                    match intent {
                        Some(intent) if error.code == ErrorCode::AlreadyExists => {
                            self.overwrite_prompt = Some(intent);
                        },
                        _ => {
                            self.error = Some(format_error(error));
                        },
                    }
                }
            },
            FilesEvent::FileTransferCancelled { request_id: r, target } => {
                if self.transfer == Some(*r) && is_target(&self.target, target) {
                    self.transfer = None;
                    self.transfer_intent = None;
                }
            },
            FilesEvent::FileMutationCompleted { request_id: r, target } => {
                if self.mutation == Some(*r) && is_target(&self.target, target) {
                    self.mutation = None;
                    self.mutation_modal = None;
                    self.error = None;
                    match &self.directory {
                        Some(d) => {
                            let path = d.clone();
                            let command = self.list(target.duplicate(), path, request_id);
                            commands.push(command);
                        },
                        None => {},
                    }
                }
            },
            FilesEvent::FileMutationFailed { request_id: r, target, error } => {
                if self.mutation == Some(*r) && is_target(&self.target, target) {
                    self.mutation = None;
                    self.error = Some(format_error(error));
                }
            },
        }
        commands
    }

    /// A fresh upload or download asked for by the user: it never replaces an
    /// existing file; a refusal raises the overwrite prompt.
    pub fn request_transfer(&mut self, intent: TransferIntent, request_id: u64) -> (command: FilesCommand)
        ensures
            transfer_command(intent, OverwritePolicy::Deny, request_id, command),
            *final(self) == (FilesPanelState {
                transfer: Some(request_id),
                transfer_intent: Some(intent),
                error: None,
                ..*old(self)
            }),
    {
        self.start_transfer(intent, OverwritePolicy::Deny, request_id)
    }

    /// The Replace button of the overwrite prompt: the kept transfer is sent
    /// again, now allowed to replace, and the prompt closes.
    pub fn confirm_overwrite(&mut self, request_id: u64) -> (command: Option<FilesCommand>)
        ensures
            match old(self).overwrite_prompt {
                Some(i) => {
                    &&& command matches Some(c) && transfer_command(
                        i,
                        OverwritePolicy::ReplaceConfirmed,
                        request_id,
                        c,
                    )
                    &&& *final(self) == (FilesPanelState {
                        overwrite_prompt: None,
                        transfer: Some(request_id),
                        transfer_intent: Some(i),
                        error: None,
                        ..*old(self)
                    })
                },
                None => command is None && *final(self) == *old(self),
            },
    {
        match self.overwrite_prompt.take() {
            Some(intent) => Some(self.start_transfer(intent, OverwritePolicy::ReplaceConfirmed, request_id)),
            None => None,
        }
    }

    /// Cancel (or closing) of the overwrite prompt: nothing is sent.
    pub fn dismiss_overwrite(&mut self)
        ensures
            *final(self) == (FilesPanelState { overwrite_prompt: None, ..*old(self) }),
    {
        self.overwrite_prompt = None;
    }

    /// The Back button: the most recent directory of the history is listed
    /// again (and leaves the history); with no history the parent of the
    /// current directory, `parent`, is listed.
    pub fn go_back(&mut self, target: DeviceTarget, parent: Option<String>, request_id: u64) -> (command:
        Option<FilesCommand>)
        ensures
            old(self).history@.len() > 0 ==> {
                &&& command == Some(
                    FilesCommand::ListDirectory { request_id, target, path: old(self).history@.last() },
                )
                &&& final(self).history@ == old(self).history@.drop_last()
                &&& *final(self) == (FilesPanelState {
                    history: final(self).history,
                    listing_request: Some(request_id),
                    loading: true,
                    ..*old(self)
                })
            },
            old(self).history@.len() == 0 ==> match parent {
                Some(p) => command == Some(FilesCommand::ListDirectory { request_id, target, path: p })
                    && *final(self) == (FilesPanelState {
                    listing_request: Some(request_id),
                    loading: true,
                    ..*old(self)
                }),
                None => command is None && *final(self) == *old(self),
            },
    {
        if self.history.len() > 0 {
            match self.history.pop() {
                Some(previous) => Some(self.list(target, previous, request_id)),
                None => None,
            }
        } else {
            match parent {
                Some(p) => Some(self.list(target, p, request_id)),
                None => None,
            }
        }
    }

    /// The Refresh button: lists the current directory again.
    pub fn refresh(&mut self, target: DeviceTarget, request_id: u64) -> (command: Option<FilesCommand>)
        ensures
            match old(self).directory {
                Some(d) => command == Some(FilesCommand::ListDirectory { request_id, target, path: d })
                    && *final(self) == (FilesPanelState {
                    listing_request: Some(request_id),
                    loading: true,
                    ..*old(self)
                }),
                None => command is None && *final(self) == *old(self),
            },
    {
        match &self.directory {
            Some(d) => {
                let path = d.clone();
                Some(self.list(target, path, request_id))
            },
            None => None,
        }
    }

    /// The cancel button of a running transfer.
    pub fn cancel_transfer(&self) -> (command: Option<FilesCommand>)
        ensures
            match self.transfer {
                Some(id) => command == Some(FilesCommand::CancelFileOperation(id)),
                None => command is None,
            },
    {
        match self.transfer {
            Some(id) => Some(FilesCommand::CancelFileOperation(id)),
            None => None,
        }
    }

    /// Opens the create / rename / delete dialog. Nothing opens while a
    /// mutation runs; rename and delete need a selected entry, and rename
    /// starts from the entry's name.
    pub fn open_mutation_dialog(&mut self, kind: MutationModalKind)
        ensures
            old(self).mutation is Some ==> *final(self) == *old(self),
            old(self).mutation is None ==> match kind {
                MutationModalKind::CreateDirectory => {
                    &&& *final(self) == (FilesPanelState {
                        mutation_modal: final(self).mutation_modal,
                        ..*old(self)
                    })
                    &&& final(self).mutation_modal matches Some(m) && m.kind == kind && m.input@.len() == 0
                        && m.entry is None
                },
                _ => match selected_entry_of(*old(self)) {
                    Some(e) => {
                        &&& *final(self) == (FilesPanelState {
                            mutation_modal: final(self).mutation_modal,
                            ..*old(self)
                        })
                        &&& final(self).mutation_modal matches Some(m) && m.kind == kind && m.entry
                            == Some(e) && (if kind == MutationModalKind::Rename {
                            m.input == e.name
                        } else {
                            m.input@.len() == 0
                        })
                    },
                    None => *final(self) == *old(self),
                },
            },
    {
        if self.mutation.is_some() {
            return;
        }
        match kind {
            MutationModalKind::CreateDirectory => {
                self.mutation_modal = Some(MutationModal { kind, input: String::new(), entry: None });
            },
            _ => {
                let entry = match self.selected_entry() {
                    Some(e) => copy_entry(e),
                    None => {
                        return;
                    },
                };
                let input = if kind == MutationModalKind::Rename {
                    entry.name.clone()
                } else {
                    String::new()
                };
                self.mutation_modal = Some(MutationModal { kind, input, entry: Some(entry) });
            },
        }
    }

    /// Cancel of the create / rename / delete dialog.
    pub fn cancel_mutation_dialog(&mut self)
        ensures
            *final(self) == (FilesPanelState { mutation_modal: None, ..*old(self) }),
    {
        self.mutation_modal = None;
    }

    /// Confirms the open dialog under the fresh id `request_id`.
    /// `destination` is the dialog's name joined to the current directory
    /// (`None` when there is no directory or the name is not a valid path
    /// component). A create or rename needs it, a rename and a delete need
    /// the dialog's entry; a delete is sent confirmed. Without a request the
    /// dialog stays open with an error.
    pub fn submit_mutation(&mut self, target: DeviceTarget, destination: Option<String>, request_id: u64) -> (command:
        Option<FilesCommand>)
        ensures
            match old(self).mutation_modal {
                None => command is None && *final(self) == *old(self),
                Some(m) => match mutation_request(m, target, destination, request_id) {
                    Some(c) => command == Some(c) && *final(self) == (FilesPanelState {
                        mutation_modal: None,
                        mutation: Some(request_id),
                        error: None,
                        ..*old(self)
                    }),
                    None => {
                        &&& command is None
                        &&& final(self).error matches Some(e) && e@ == invalid_mutation_message()
                        &&& *final(self) == (FilesPanelState { error: final(self).error, ..*old(self) })
                    },
                },
            },
    {
        let modal = match self.mutation_modal.take() {
            Some(m) => m,
            None => {
                return None;
            },
        };
        let command = match (modal.kind, &modal.entry, destination) {
            (MutationModalKind::CreateDirectory, _, Some(path)) => Some(
                FilesCommand::CreateDirectory { request_id, target, path },
            ),
            (MutationModalKind::Rename, Some(entry), Some(destination)) => Some(
                FilesCommand::RenameRemoteEntry { request_id, target, source: entry.path.clone(), destination },
            ),
            (MutationModalKind::Delete, Some(entry), _) => Some(
                FilesCommand::DeleteRemoteFile { request_id, target, path: entry.path.clone(), confirmed: true },
            ),
            _ => None,
        };
        match command {
            Some(c) => Some(self.start_mutation(c)),
            None => {
                let message = "Invalid remote name or selection.";
                proof {
                    reveal_strlit("Invalid remote name or selection.");
                }
                self.error = Some(crate::text::string_of(chars_of(message).as_slice()));
                self.mutation_modal = Some(modal);
                None
            },
        }
    }

    /// Clicking a column header: the active column flips direction, another
    /// column becomes active in ascending order.
    pub fn click_sort_header(&mut self, key: SortKey)
        ensures
            *final(self) == (FilesPanelState {
                sort_key: key,
                sort_reverse: old(self).sort_key == key && !old(self).sort_reverse,
                ..*old(self)
            }),
    {
        if self.sort_key == key {
            self.sort_reverse = !self.sort_reverse;
        } else {
            self.sort_key = key;
            self.sort_reverse = false;
        }
    }
}

} // verus!
