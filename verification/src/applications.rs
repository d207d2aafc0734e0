//! The installed-applications panel: the package list with its filter and
//! search, launcher icons fetched for exactly the packages on screen, the
//! details pane and the package actions.

use vstd::prelude::*;

use crate::logcat::string_views;
use crate::device::{duplicate_target, is_target, same_target, target_view, BridgeError, DeviceTarget};
use crate::text::{
    char_to_uppercase, chars_of, contains, contains_text, lowercase, push_char, string_of, to_lowercase,
    trim, trimmed, uppercase,
};
use vstd::utf8::encode_utf8;

verus! {

/// Which subset of the package list is shown.
#[derive(Clone, Copy, Debug, PartialEq, Eq, Structural)]
pub enum ApplicationFilter {
    ThirdParty,
    System,
    All,
}

impl Default for ApplicationFilter {
    /// Third-party apps: the panel opens on what the user installed.
    fn default() -> (filter: Self)
        ensures
            filter == ApplicationFilter::ThirdParty,
    {
        ApplicationFilter::ThirdParty
    }
}

/// Something the panel can do to one package.
#[derive(Clone, Copy, Debug, PartialEq, Eq, Structural)]
pub enum ApplicationAction {
    Launch,
    ForceStop,
    ClearData,
    Freeze,
    Unfreeze,
    Uninstall,
}

/// Whether the package list looks different after the action: freezing
/// changes an app's enabled state, uninstalling removes it.
pub open spec fn changes_listing(action: ApplicationAction) -> bool {
    action == ApplicationAction::Freeze || action == ApplicationAction::Unfreeze || action
        == ApplicationAction::Uninstall
}

/// Whether the action destroys data and is therefore confirmed first.
pub open spec fn is_destructive(action: ApplicationAction) -> bool {
    action == ApplicationAction::ClearData || action == ApplicationAction::Uninstall
}

impl ApplicationAction {
    /// Whether a completed action calls for reloading the package list.
    pub fn mutates_listing(self) -> (mutates: bool)
        ensures
            mutates == changes_listing(self),
    {
        match self {
            ApplicationAction::Freeze | ApplicationAction::Unfreeze | ApplicationAction::Uninstall => true,
            _ => false,
        }
    }

    /// Whether the action waits for the confirmation dialog.
    pub fn needs_confirmation(self) -> (confirm: bool)
        ensures
            confirm == is_destructive(self),
    {
        match self {
            ApplicationAction::ClearData | ApplicationAction::Uninstall => true,
            _ => false,
        }
    }

    /// The text-table key of the action's button.
    pub fn label_key(self) -> (key: &'static str)
        ensures
            key@ == action_key(self),
    {
        match self {
            ApplicationAction::Launch => "app_open",
            ApplicationAction::ForceStop => "app_force_stop",
            ApplicationAction::ClearData => "app_clear_data",
            ApplicationAction::Freeze => "app_freeze",
            ApplicationAction::Unfreeze => "app_unfreeze",
            ApplicationAction::Uninstall => "app_uninstall",
        }
    }
}

/// The text-table key of each action's button.
pub open spec fn action_key(action: ApplicationAction) -> Seq<char> {
    match action {
        ApplicationAction::Launch => "app_open"@,
        ApplicationAction::ForceStop => "app_force_stop"@,
        ApplicationAction::ClearData => "app_clear_data"@,
        ApplicationAction::Freeze => "app_freeze"@,
        ApplicationAction::Unfreeze => "app_unfreeze"@,
        ApplicationAction::Uninstall => "app_uninstall"@,
    }
}

/// One installed package.
#[derive(Clone, Debug, PartialEq, Eq)]
pub struct ApplicationRecord {
    pub package: String,
    pub system: bool,
    pub disabled: bool,
}

impl View for ApplicationRecord {
    type V = (Seq<char>, bool, bool);

    open spec fn view(&self) -> (Seq<char>, bool, bool) {
        (self.package@, self.system, self.disabled)
    }
}

/// The records of a list, as plain values.
pub open spec fn record_views(records: Seq<ApplicationRecord>) -> Seq<(Seq<char>, bool, bool)> {
    records.map_values(|r: ApplicationRecord| r@)
}

fn copy_record(record: &ApplicationRecord) -> (copy: ApplicationRecord)
    ensures
        copy@ == record@,
{
    ApplicationRecord { package: record.package.clone(), system: record.system, disabled: record.disabled }
}

/// What the details pane shows of one package.
#[derive(Clone, Debug, PartialEq, Eq)]
pub struct ApplicationDetails {
    pub package: String,
    pub version_name: Option<String>,
    pub version_code: Option<u64>,
    pub min_sdk: Option<u32>,
    pub target_sdk: Option<u32>,
    pub first_install_time: Option<String>,
    pub last_update_time: Option<String>,
    pub installer: Option<String>,
    pub apk_path: Option<String>,
    pub permissions: Vec<String>,
}

/// A decoded launcher icon: RGBA pixels, row by row.
#[derive(Clone, Debug, PartialEq, Eq)]
pub struct ApplicationIconData {
    pub width: u32,
    pub height: u32,
    pub rgba: Vec<u8>,
}

/// Launcher icons keyed by package name, at most one per package.
pub struct PackageIcons {
    entries: Vec<(String, ApplicationIconData)>,
}

impl PackageIcons {
    #[verifier::type_invariant]
    spec fn distinct_packages(self) -> bool {
        forall|i: int, j: int|
            0 <= i < j < self.entries@.len() ==> (#[trigger] self.entries@[i]).0@ != (
            #[trigger] self.entries@[j]).0@
    }

    /// The packages that have an icon.
    pub closed spec fn packages(self) -> Set<Seq<char>> {
        Set::new(|p: Seq<char>| exists|i: int| 0 <= i < self.entries@.len() && self.entries@[i].0@ == p)
    }

    /// The icon stored for `package` as width, height and pixels
    /// (meaningful when it has an icon).
    pub closed spec fn icon_view(self, package: Seq<char>) -> (u32, u32, Seq<u8>) {
        let i = choose|i: int| 0 <= i < self.entries@.len() && self.entries@[i].0@ == package;
        (self.entries@[i].1.width, self.entries@[i].1.height, self.entries@[i].1.rgba@)
    }

    /// No icons.
    pub fn new() -> (icons: Self)
        ensures
            icons.packages() == Set::<Seq<char>>::empty(),
    {
        let icons = PackageIcons { entries: Vec::new() };
        assert(icons.packages() =~= Set::<Seq<char>>::empty());
        icons
    }

    fn index_of(&self, package: &str) -> (found: Option<usize>)
        ensures
            match found {
                Some(i) => i < self.entries@.len() && self.entries@[i as int].0@ == package@,
                None => !self.packages().contains(package@),
            },
    {
        let mut i: usize = 0;
        while i < self.entries.len()
            invariant
                i <= self.entries@.len(),
                forall|k: int| 0 <= k < i ==> self.entries@[k].0@ != package@,
            decreases self.entries@.len() - i,
        {
            if string_is(&self.entries[i].0, package) {
                return Some(i);
            }
            i = i + 1;
        }
        None
    }

    /// Whether `package` has an icon.
    pub fn contains_key(&self, package: &str) -> (found: bool)
        ensures
            found == self.packages().contains(package@),
    {
        match self.index_of(package) {
            Some(i) => {
                assert(self.packages().contains(package@)) by {
                    assert(self.entries@[i as int].0@ == package@);
                }
                true
            },
            None => false,
        }
    }

    /// The icon of `package`, if any.
    pub fn get(&self, package: &str) -> (icon: Option<&ApplicationIconData>)
        ensures
            match icon {
                Some(data) => self.packages().contains(package@) && (data.width, data.height, data.rgba@)
                    == self.icon_view(package@),
                None => !self.packages().contains(package@),
            },
    {
        proof {
            use_type_invariant(self);
        }
        match self.index_of(package) {
            Some(i) => {
                proof {
                    assert(self.packages().contains(package@)) by {
                        assert(self.entries@[i as int].0@ == package@);
                    }
                    let k = choose|k: int|
                        0 <= k < self.entries@.len() && self.entries@[k].0@ == package@;
                    if k != i as int {
                        if k < i as int {
                            assert(self.entries@[k].0@ != self.entries@[i as int].0@);
                        } else {
                            assert(self.entries@[i as int].0@ != self.entries@[k].0@);
                        }
                    }
                }
                Some(&self.entries[i].1)
            },
            None => None,
        }
    }

    /// Stores the icon of `package`, replacing an earlier one.
    pub fn insert(&mut self, package: String, icon: ApplicationIconData)
        ensures
            final(self).packages() == old(self).packages().insert(package@),
            final(self).icon_view(package@) == (icon.width, icon.height, icon.rgba@),
            forall|p: Seq<char>|
                p != package@ && old(self).packages().contains(p) ==> #[trigger] final(self).icon_view(p)
                    == old(self).icon_view(p),
    {
        proof {
            use_type_invariant(&*self);
        }
        let ghost key = package@;
        let ghost pixels = (icon.width, icon.height, icon.rgba@);
        match self.index_of(package.as_str()) {
            Some(i) => {
                let ghost before = self.entries@;
                let mut entries: Vec<(String, ApplicationIconData)> = Vec::new();
                std::mem::swap(&mut entries, &mut self.entries);
                entries.set(i, (package, icon));
                self.entries = entries;
                proof {
                    assert(self.entries@[i as int].0@ == key && (self.entries@[i as int].1.width, self.entries@[i as int].1.height, self.entries@[i as int].1.rgba@) == pixels);
                    assert forall|k: int| 0 <= k < self.entries@.len() && k != i as int implies #[trigger] self.entries@[k] == before[k] by {}
                    assert forall|p: Seq<char>| self.packages().contains(p) == old(self).packages().insert(
                        key,
                    ).contains(p) by {
                        if old(self).packages().contains(p) {
                            let k = choose|k: int| 0 <= k < before.len() && before[k].0@ == p;
                            assert(self.entries@[k].0@ == p);
                        }
                        if self.packages().contains(p) {
                            let k = choose|k: int|
                                0 <= k < self.entries@.len() && self.entries@[k].0@ == p;
                            if k != i as int {
                                assert(before[k].0@ == p);
                            }
                        }
                    }
                    assert(self.packages() =~= old(self).packages().insert(key));
                }
            },
            None => {
                let mut entries: Vec<(String, ApplicationIconData)> = Vec::new();
                std::mem::swap(&mut entries, &mut self.entries);
                entries.push((package, icon));
                self.entries = entries;
                proof {
                    let n = self.entries@.len() - 1;
                    assert(self.entries@[n].0@ == key && (self.entries@[n].1.width, self.entries@[n].1.height, self.entries@[n].1.rgba@) == pixels);
                    assert forall|k: int| 0 <= k < n implies #[trigger] self.entries@[k] == old(self).entries@[k] by {}
                    assert forall|p: Seq<char>| self.packages().contains(p) == old(self).packages().insert(
                        key,
                    ).contains(p) by {
                        if old(self).packages().contains(p) {
                            let k = choose|k: int|
                                0 <= k < old(self).entries@.len() && old(self).entries@[k].0@ == p;
                            assert(self.entries@[k].0@ == p);
                        }
                        if p == key {
                            assert(self.entries@[n].0@ == p);
                        }
                    }
                    assert(self.packages() =~= old(self).packages().insert(key));
                }
            },
        }
        proof {
            use_type_invariant(&*self);
            let idx = choose|i: int|
                0 <= i < self.entries@.len() && self.entries@[i].0@ == key && (self.entries@[i].1.width, self.entries@[i].1.height, self.entries@[i].1.rgba@)
                    == pixels;
            let k = choose|k: int| 0 <= k < self.entries@.len() && self.entries@[k].0@ == key;
            if k != idx {
                if k < idx {
                    assert(self.entries@[k].0@ != self.entries@[idx].0@);
                } else {
                    assert(self.entries@[idx].0@ != self.entries@[k].0@);
                }
            }
            assert forall|p: Seq<char>|
                p != key && old(self).packages().contains(p) implies #[trigger] self.icon_view(p)
                    == old(self).icon_view(p) by {
                let ko = choose|k: int| 0 <= k < old(self).entries@.len() && old(self).entries@[k].0@ == p;
                let kn = choose|k: int| 0 <= k < self.entries@.len() && self.entries@[k].0@ == p;
                assert(self.entries@[ko] == old(self).entries@[ko]);
                if kn != ko {
                    if kn < ko {
                        assert(self.entries@[kn].0@ != self.entries@[ko].0@);
                    } else {
                        assert(self.entries@[ko].0@ != self.entries@[kn].0@);
                    }
                }
            }
        }
    }

    /// Drops every icon.
    pub fn clear(&mut self)
        ensures
            final(self).packages() == Set::<Seq<char>>::empty(),
    {
        self.entries = Vec::new();
        assert(self.packages() =~= Set::<Seq<char>>::empty());
    }

    /// Whether no package has an icon.
    pub fn is_empty(&self) -> (empty: bool)
        ensures
            empty == (self.packages() == Set::<Seq<char>>::empty()),
    {
        if self.entries.len() == 0 {
            assert(self.packages() =~= Set::<Seq<char>>::empty());
            true
        } else {
            assert(self.packages().contains(self.entries@[0].0@));
            false
        }
    }
}

/// Whether one of the first `n` strings holds `q`.
pub open spec fn listed(items: Seq<String>, n: int, q: Seq<char>) -> bool {
    exists|k: int| 0 <= k < n && items[k]@ == q
}

/// A set of package names.
pub struct PackageSet {
    items: Vec<String>,
}

impl PackageSet {
    /// The packages in the set.
    pub closed spec fn members(self) -> Set<Seq<char>> {
        Set::new(|p: Seq<char>| exists|i: int| 0 <= i < self.items@.len() && self.items@[i]@ == p)
    }

    /// The empty set.
    pub fn new() -> (set: Self)
        ensures
            set.members() == Set::<Seq<char>>::empty(),
    {
        let set = PackageSet { items: Vec::new() };
        assert(set.members() =~= Set::<Seq<char>>::empty());
        set
    }

    /// Whether `package` is in the set.
    pub fn contains(&self, package: &str) -> (found: bool)
        ensures
            found == self.members().contains(package@),
    {
        let mut i: usize = 0;
        while i < self.items.len()
            invariant
                i <= self.items@.len(),
                forall|k: int| 0 <= k < i ==> self.items@[k]@ != package@,
            decreases self.items@.len() - i,
        {
            if string_is(&self.items[i], package) {
                assert(self.items@[i as int]@ == package@);
                return true;
            }
            i = i + 1;
        }
        false
    }

    /// Adds `package`.
    pub fn insert(&mut self, package: String)
        ensures
            final(self).members() == old(self).members().insert(package@),
    {
        if !self.contains(package.as_str()) {
            let ghost key = package@;
            self.items.push(package);
            proof {
                let n = self.items@.len() - 1;
                assert forall|p: Seq<char>| self.members().contains(p) == old(self).members().insert(
                    key,
                ).contains(p) by {
                    if old(self).members().contains(p) {
                        let k = choose|k: int| 0 <= k < old(self).items@.len() && old(self).items@[k]@ == p;
                        assert(self.items@[k]@ == p);
                    }
                    if p == key {
                        assert(self.items@[n]@ == p);
                    }
                }
            }
        }
        assert(self.members() =~= old(self).members().insert(package@));
    }

    /// Removes `package`.
    pub fn remove(&mut self, package: &str)
        ensures
            final(self).members() == old(self).members().remove(package@),
    {
        let mut kept: Vec<String> = Vec::new();
        let mut i: usize = 0;
        while i < self.items.len()
            invariant
                i <= self.items@.len(),
                *self == *old(self),
                forall|q: Seq<char>|
                    #[trigger] listed(kept@, kept@.len() as int, q) <==> (q != package@ && listed(
                        self.items@,
                        i as int,
                        q,
                    )),
            decreases self.items@.len() - i,
        {
            let ghost before = kept@;
            if !string_is(&self.items[i], package) {
                kept.push(self.items[i].clone());
            }
            proof {
                assert forall|q: Seq<char>|
                    #[trigger] listed(kept@, kept@.len() as int, q) <==> (q != package@ && listed(
                        self.items@,
                        i + 1,
                        q,
                    )) by {
                    if listed(kept@, kept@.len() as int, q) {
                        let k = choose|k: int| 0 <= k < kept@.len() && kept@[k]@ == q;
                        if k < before.len() {
                            assert(before[k]@ == q);
                            assert(listed(before, before.len() as int, q));
                        } else {
                            assert(self.items@[i as int]@ == q);
                        }
                    }
                    if q != package@ && listed(self.items@, i + 1, q) {
                        let k = choose|k: int| 0 <= k < i + 1 && self.items@[k]@ == q;
                        if k < i {
                            assert(listed(self.items@, i as int, q));
                            assert(listed(before, before.len() as int, q));
                            let j = choose|j: int| 0 <= j < before.len() && before[j]@ == q;
                            assert(kept@[j]@ == q);
                        } else {
                            assert(kept@[kept@.len() - 1]@ == q);
                        }
                    }
                }
            }
            i = i + 1;
        }
        self.items = kept;
        assert forall|q: Seq<char>| self.members().contains(q) == old(self).members().remove(
            package@,
        ).contains(q) by {
            assert(self.members().contains(q) == listed(self.items@, self.items@.len() as int, q));
            assert(old(self).members().contains(q) == listed(
                old(self).items@,
                old(self).items@.len() as int,
                q,
            ));
        }
        assert(self.members() =~= old(self).members().remove(package@));
    }

    /// Empties the set.
    pub fn clear(&mut self)
        ensures
            final(self).members() == Set::<Seq<char>>::empty(),
    {
        self.items = Vec::new();
        assert(self.members() =~= Set::<Seq<char>>::empty());
    }

    /// Whether the set is empty.
    pub fn is_empty(&self) -> (empty: bool)
        ensures
            empty == (self.members() == Set::<Seq<char>>::empty()),
    {
        if self.items.len() == 0 {
            assert(self.members() =~= Set::<Seq<char>>::empty());
            true
        } else {
            assert(self.members().contains(self.items@[0]@));
            false
        }
    }
}

/// Index where the last dot-separated segment of `s` starts.
pub open spec fn segment_start(s: Seq<char>) -> int
    decreases s.len(),
{
    if s.len() == 0 {
        0
    } else if s.last() == '.' {
        s.len() as int
    } else {
        segment_start(s.drop_last())
    }
}

/// The last dot-separated segment: `org.mozilla.firefox` -> `firefox`.
pub open spec fn last_segment(s: Seq<char>) -> Seq<char> {
    s.subrange(segment_start(s), s.len() as int)
}

/// The monogram of a tile without an icon: the upper-cased first character
/// of the last segment, or `?` when that segment is empty.
pub open spec fn tile_initial_text(s: Seq<char>) -> Seq<char> {
    if last_segment(s).len() > 0 {
        uppercase(last_segment(s)[0])
    } else {
        "?"@
    }
}

/// `s` cut to at most `max` characters, the last one then being `…`.
pub open spec fn elided(s: Seq<char>, max: nat) -> Seq<char> {
    if s.len() <= max {
        s
    } else if max == 0 {
        seq!['…']
    } else {
        s.take(max - 1).push('…')
    }
}

/// One step of the tile-colour hash (32-bit FNV-style, wrapping).
pub open spec fn hash_step(acc: u32, byte: u8) -> u32 {
    ((acc as int * 16777619 + byte as int) % 0x1_0000_0000) as u32
}

/// The tile-colour hash of a package's UTF-8 bytes.
pub open spec fn package_hash(bytes: Seq<u8>) -> u32
    decreases bytes.len(),
{
    if bytes.len() == 0 {
        2166136261
    } else {
        hash_step(package_hash(bytes.drop_last()), bytes.last())
    }
}

fn segment_start_index(chars: &Vec<char>) -> (start: usize)
    ensures
        start == segment_start(chars@),
        start <= chars@.len(),
{
    let mut start: usize = 0;
    let mut k: usize = 0;
    while k < chars.len()
        invariant
            k <= chars@.len(),
            start == segment_start(chars@.take(k as int)),
            start <= k,
        decreases chars@.len() - k,
    {
        assert(chars@.take(k + 1).drop_last() == chars@.take(k as int));
        if chars[k] == '.' {
            start = k + 1;
        }
        k = k + 1;
    }
    assert(chars@.take(chars@.len() as int) == chars@);
    start
}

/// The short display name of a package: its last dot-segment.
pub fn short_name(package: &str) -> (name: String)
    ensures
        name@ == last_segment(package@),
{
    let chars = chars_of(package);
    let start = segment_start_index(&chars);
    let mut name = String::new();
    let mut k: usize = start;
    while k < chars.len()
        invariant
            start <= k <= chars@.len(),
            start == segment_start(package@),
            chars@ == package@,
            name@ == chars@.subrange(start as int, k as int),
        decreases chars@.len() - k,
    {
        push_char(&mut name, chars[k]);
        k = k + 1;
        assert(name@ =~= chars@.subrange(start as int, k as int));
    }
    name
}

/// The monogram shown until a package's icon arrives.
pub fn tile_initial(package: &str) -> (initial: String)
    ensures
        initial@ == tile_initial_text(package@),
{
    let chars = chars_of(package);
    let start = segment_start_index(&chars);
    if start < chars.len() {
        char_to_uppercase(chars[start])
    } else {
        string_of(chars_of("?").as_slice())
    }
}

/// Cuts `text` to `max_chars` characters, marking the cut with `…`.
pub fn elide(text: &str, max_chars: usize) -> (shown: String)
    ensures
        shown@ == elided(text@, max_chars as nat),
{
    let chars = chars_of(text);
    if chars.len() <= max_chars {
        return string_of(chars.as_slice());
    }
    let keep: usize = if max_chars == 0 {
        0
    } else {
        max_chars - 1
    };
    let mut shown = String::new();
    let mut k: usize = 0;
    while k < keep
        invariant
            k <= keep < chars@.len(),
            chars@ == text@,
            shown@ == chars@.take(k as int),
        decreases keep - k,
    {
        push_char(&mut shown, chars[k]);
        k = k + 1;
        assert(shown@ =~= chars@.take(k as int));
    }
    push_char(&mut shown, '…');
    assert(shown@ =~= elided(text@, max_chars as nat));
    shown
}

/// Where on the colour wheel a package's fallback tile sits, in tenths of a
/// degree: its hash modulo 3600.
pub fn tile_hue(package: &str) -> (hue: u32)
    ensures
        hue == package_hash(encode_utf8(package@)) % 3600,
        hue < 3600,
{
    let bytes = package.as_bytes();
    let mut acc: u32 = 2166136261;
    let mut k: usize = 0;
    while k < bytes.len()
        invariant
            k <= bytes@.len(),
            bytes@ == encode_utf8(package@),
            acc == package_hash(bytes@.take(k as int)),
        decreases bytes@.len() - k,
    {
        assert(bytes@.take(k + 1).drop_last() == bytes@.take(k as int));
        let wide: u64 = (acc as u64) * 16777619 + (bytes[k] as u64);
        acc = (wide % 0x1_0000_0000) as u32;
        k = k + 1;
    }
    assert(bytes@.take(bytes@.len() as int) == bytes@);
    acc % 3600
}

/// An action sent to the device and not yet answered.
#[derive(Clone, Copy, Debug, PartialEq, Eq, Structural)]
pub struct PendingAction {
    pub request_id: u64,
    pub action: ApplicationAction,
}

/// Backend requests of the applications panel.
pub enum ApplicationsCommand {
    LoadApplications(DeviceTarget),
    LoadApplicationIcons { target: DeviceTarget, packages: Vec<String> },
    LoadApplicationDetails { request_id: u64, target: DeviceTarget, package: String },
    RunApplicationAction {
        request_id: u64,
        action: ApplicationAction,
        target: DeviceTarget,
        package: String,
    },
    InstallApk { request_id: u64, target: DeviceTarget, apk_path: String },
}

/// Backend reports the applications panel reacts to.
pub enum ApplicationsEvent {
    ApplicationsLoading(DeviceTarget),
    ApplicationsLoaded { target: DeviceTarget, applications: Vec<ApplicationRecord> },
    ApplicationsFailed { target: DeviceTarget, error: BridgeError },
    ApplicationIconLoaded { target: DeviceTarget, package: String, icon: ApplicationIconData },
    ApplicationDetailsLoading { target: DeviceTarget, package: String },
    ApplicationDetailsLoaded { target: DeviceTarget, details: ApplicationDetails },
    ApplicationDetailsFailed { target: DeviceTarget, package: String, error: BridgeError },
    ApplicationActionCompleted {
        request_id: u64,
        action: ApplicationAction,
        target: DeviceTarget,
        package: String,
    },
    ApplicationActionFailed {
        request_id: u64,
        action: ApplicationAction,
        target: DeviceTarget,
        package: String,
        error: BridgeError,
    },
    ApkInstallFinished { request_id: u64, target: DeviceTarget },
    ApkInstallFailed { request_id: u64, target: DeviceTarget, error: BridgeError },
}

/// Whether the filter shows an app with the given system flag.
pub open spec fn filter_admits(filter: ApplicationFilter, system: bool) -> bool {
    match filter {
        ApplicationFilter::ThirdParty => !system,
        ApplicationFilter::System => system,
        ApplicationFilter::All => true,
    }
}

/// The search box text as it is matched: trimmed and lower-cased.
pub open spec fn search_query(search: Seq<char>) -> Seq<char> {
    lowercase(trim(search))
}

/// Whether a package matches the query: every package matches an empty
/// query, otherwise its lower-cased name must contain the query.
pub open spec fn search_admits(query: Seq<char>, package: Seq<char>) -> bool {
    query.len() == 0 || contains_text(lowercase(package), query)
}

/// Whether a record is shown under the filter and query.
pub open spec fn shows(record: (Seq<char>, bool, bool), filter: ApplicationFilter, query: Seq<char>) -> bool {
    filter_admits(filter, record.1) && search_admits(query, record.0)
}

/// The package list's filters, by the record's fields: Third-party shows
/// the non-system packages, System the system ones, All every one; a
/// non-empty query must occur in the lower-cased package name.
pub proof fn lemma_shows_fields(package: Seq<char>, system: bool, disabled: bool, filter: ApplicationFilter, query: Seq<char>)
    ensures
        shows((package, system, disabled), filter, query) == ((match filter {
            ApplicationFilter::ThirdParty => !system,
            ApplicationFilter::System => system,
            ApplicationFilter::All => true,
        }) && (query.len() == 0 || contains_text(lowercase(package), query))),
{
}

proof fn lemma_shows_fields_all(filter: ApplicationFilter, query: Seq<char>)
    ensures
        forall|r: (Seq<char>, bool, bool)|
            #[trigger] shows(r, filter, query) == ((match filter {
                ApplicationFilter::ThirdParty => !r.1,
                ApplicationFilter::System => r.1,
                ApplicationFilter::All => true,
            }) && (query.len() == 0 || contains_text(lowercase(r.0), query))),
{
    assert forall|r: (Seq<char>, bool, bool)|
        #[trigger] shows(r, filter, query) == ((match filter {
            ApplicationFilter::ThirdParty => !r.1,
            ApplicationFilter::System => r.1,
            ApplicationFilter::All => true,
        }) && (query.len() == 0 || contains_text(lowercase(r.0), query))) by {
        lemma_shows_fields(r.0, r.1, r.2, filter, query);
    }
}

/// The records shown, in list order.
pub open spec fn visible_views(
    applications: Seq<ApplicationRecord>,
    filter: ApplicationFilter,
    search: Seq<char>,
) -> Seq<(Seq<char>, bool, bool)> {
    record_views(applications).filter(|r: (Seq<char>, bool, bool)| shows(r, filter, search_query(search)))
}

/// The shown packages that have no icon and no icon request in flight, in
/// list order.
pub open spec fn missing_icons(
    visible: Seq<(Seq<char>, bool, bool)>,
    icons: Set<Seq<char>>,
    pending: Set<Seq<char>>,
) -> Seq<Seq<char>> {
    visible.map_values(|r: (Seq<char>, bool, bool)| r.0).filter(
        |p: Seq<char>| !icons.contains(p) && !pending.contains(p),
    )
}

/// Whether the selection is present and names the package `p`.
pub open spec fn selection_is(selected: Option<String>, p: Seq<char>) -> bool {
    selected matches Some(s) && s@ == p
}

/// Whether some record of the list is the package `p`.
pub open spec fn has_package(applications: Seq<ApplicationRecord>, p: Seq<char>) -> bool {
    exists|i: int| 0 <= i < applications.len() && applications[i].package@ == p
}

/// The installed-applications panel.
pub struct ApplicationsPanelState {
    pub target: Option<DeviceTarget>,
    pub applications: Vec<ApplicationRecord>,
    pub loading: bool,
    pub filter: ApplicationFilter,
    pub search: String,
    pub selected: Option<String>,
    pub details: Option<ApplicationDetails>,
    pub details_loading: bool,
    pub pending: Option<PendingAction>,
    /// An APK install in flight, by request id.
    pub install: Option<u64>,
    /// A success notice, cleared when the refreshed list arrives.
    pub install_notice: bool,
    /// A destructive action waiting for confirmation.
    pub confirm: Option<ApplicationAction>,
    pub icons: PackageIcons,
    /// Packages whose icon request is in flight.
    pub icon_pending: PackageSet,
}

impl Default for ApplicationsPanelState {
    fn default() -> (state: Self)
        ensures
            state.target is None,
            state.applications@.len() == 0,
            !state.loading,
            state.filter == ApplicationFilter::ThirdParty,
            state.search@.len() == 0,
            state.selected is None,
            state.details is None,
            !state.details_loading,
            state.pending is None,
            state.install is None,
            !state.install_notice,
            state.confirm is None,
            state.icons.packages() == Set::<Seq<char>>::empty(),
            state.icon_pending.members() == Set::<Seq<char>>::empty(),
    {
        ApplicationsPanelState {
            target: None,
            applications: Vec::new(),
            loading: false,
            filter: ApplicationFilter::ThirdParty,
            search: String::new(),
            selected: None,
            details: None,
            details_loading: false,
            pending: None,
            install: None,
            install_notice: false,
            confirm: None,
            icons: PackageIcons::new(),
            icon_pending: PackageSet::new(),
        }
    }
}

fn copy_strings(items: &Vec<String>) -> (copy: Vec<String>)
    ensures
        copy@ == items@,
{
    let mut copy: Vec<String> = Vec::new();
    let mut k: usize = 0;
    while k < items.len()
        invariant
            k <= items@.len(),
            copy@ == items@.take(k as int),
        decreases items@.len() - k,
    {
        copy.push(items[k].clone());
        k = k + 1;
        assert(copy@ =~= items@.take(k as int));
    }
    assert(items@.take(items@.len() as int) =~= items@);
    copy
}

fn copy_option_string(value: &Option<String>) -> (copy: Option<String>)
    ensures
        copy == *value,
{
    match value {
        Some(v) => Some(v.clone()),
        None => None,
    }
}

fn copy_details(details: &ApplicationDetails) -> (copy: ApplicationDetails)
    ensures
        copy.package@ == details.package@,
        copy.version_name == details.version_name,
        copy.version_code == details.version_code,
        copy.min_sdk == details.min_sdk,
        copy.target_sdk == details.target_sdk,
        copy.first_install_time == details.first_install_time,
        copy.last_update_time == details.last_update_time,
        copy.installer == details.installer,
        copy.apk_path == details.apk_path,
        copy.permissions@ == details.permissions@,
{
    ApplicationDetails {
        package: details.package.clone(),
        version_name: copy_option_string(&details.version_name),
        version_code: details.version_code,
        min_sdk: details.min_sdk,
        target_sdk: details.target_sdk,
        first_install_time: copy_option_string(&details.first_install_time),
        last_update_time: copy_option_string(&details.last_update_time),
        installer: copy_option_string(&details.installer),
        apk_path: copy_option_string(&details.apk_path),
        permissions: copy_strings(&details.permissions),
    }
}

fn copy_records(records: &Vec<ApplicationRecord>) -> (copy: Vec<ApplicationRecord>)
    ensures
        record_views(copy@) == record_views(records@),
{
    let mut copy: Vec<ApplicationRecord> = Vec::new();
    let mut k: usize = 0;
    while k < records.len()
        invariant
            k <= records@.len(),
            record_views(copy@) == record_views(records@.take(k as int)),
        decreases records@.len() - k,
    {
        let ghost before = copy@;
        copy.push(copy_record(&records[k]));
        assert(record_views(copy@) =~= record_views(before).push(records@[k as int]@));
        assert(records@.take(k + 1) =~= records@.take(k as int).push(records@[k as int]));
        assert(record_views(records@.take(k + 1)) =~= record_views(records@.take(k as int)).push(
            records@[k as int]@,
        ));
        k = k + 1;
    }
    assert(records@.take(records@.len() as int) =~= records@);
    copy
}

fn copy_bytes(bytes: &Vec<u8>) -> (copy: Vec<u8>)
    ensures
        copy@ == bytes@,
{
    let mut copy: Vec<u8> = Vec::new();
    let mut k: usize = 0;
    while k < bytes.len()
        invariant
            k <= bytes@.len(),
            copy@ == bytes@.take(k as int),
        decreases bytes@.len() - k,
    {
        copy.push(bytes[k]);
        k = k + 1;
        assert(copy@ =~= bytes@.take(k as int));
    }
    assert(bytes@.take(bytes@.len() as int) =~= bytes@);
    copy
}

/// Whether the selection is present and names `package`.
fn selected_is(selected: &Option<String>, package: &String) -> (same: bool)
    ensures
        same == selection_is(*selected, package@),
{
    match selected {
        Some(p) => *p == *package,
        None => false,
    }
}

fn lists_package(applications: &Vec<ApplicationRecord>, package: &String) -> (found: bool)
    ensures
        found == has_package(applications@, package@),
{
    let mut k: usize = 0;
    while k < applications.len()
        invariant
            k <= applications@.len(),
            forall|j: int| 0 <= j < k ==> applications@[j].package@ != package@,
        decreases applications@.len() - k,
    {
        if applications[k].package == *package {
            return true;
        }
        k = k + 1;
    }
    false
}

/// The panel `after` following the device `target` from `before`: the same
/// device changes nothing; another one drops the list, the selection,
/// pending work and every icon, keeping the filter and the search.
pub open spec fn follows_target(
    before: ApplicationsPanelState,
    after: ApplicationsPanelState,
    target: Option<DeviceTarget>,
) -> bool {
    if target_view(before.target) == target_view(target) {
        after == before
    } else {
        &&& after.target == target
        &&& after.applications@.len() == 0
        &&& !after.loading
        &&& after.filter == before.filter
        &&& after.search == before.search
        &&& after.selected is None
        &&& after.details is None
        &&& !after.details_loading
        &&& after.pending is None
        &&& after.install is None
        &&& !after.install_notice
        &&& after.confirm is None
        &&& after.icons.packages() == Set::<Seq<char>>::empty()
        &&& after.icon_pending.members() == Set::<Seq<char>>::empty()
    }
}

impl ApplicationsPanelState {
    /// Follows the selected device: another target drops the list, the
    /// selection, pending work and every icon; the filter and search stay.
    pub fn reset_for(&mut self, target: Option<DeviceTarget>)
        ensures
            follows_target(*old(self), *final(self), target),
    {
        if same_target(&self.target, &target) {
            return;
        }
        self.target = target;
        self.applications = Vec::new();
        self.selected = None;
        self.details = None;
        self.details_loading = false;
        self.pending = None;
        self.install = None;
        self.install_notice = false;
        self.confirm = None;
        self.loading = false;
        self.icons.clear();
        self.icon_pending.clear();
    }

    /// The packages matching the filter and the search, in list order.
    pub fn visible_applications(&self) -> (visible: Vec<ApplicationRecord>)
        ensures
            record_views(visible@) == visible_views(self.applications@, self.filter, self.search@),
            forall|j: int| 0 <= j < visible@.len() ==> (match self.filter {
                    ApplicationFilter::ThirdParty => !(#[trigger] visible@[j]).system,
                    ApplicationFilter::System => visible@[j].system,
                    ApplicationFilter::All => true,
                } && (lowercase(trim(self.search@)).len() == 0 || contains_text(
                    lowercase(visible@[j].package@),
                    lowercase(trim(self.search@)),
                ))),
            forall|i: int| 0 <= i < self.applications@.len() && (match self.filter {
                    ApplicationFilter::ThirdParty => !(#[trigger] self.applications@[i]).system,
                    ApplicationFilter::System => self.applications@[i].system,
                    ApplicationFilter::All => true,
                } && (lowercase(trim(self.search@)).len() == 0 || contains_text(
                    lowercase(self.applications@[i].package@),
                    lowercase(trim(self.search@)),
                ))) ==> exists|j: int| 0 <= j < visible@.len() && visible@[j]@ == self.applications@[i]@,
    {
        let trimmed_search = trimmed(self.search.as_str());
        let query = to_lowercase(trimmed_search.as_str());
        let empty_query = query.as_str().unicode_len() == 0;
        let ghost q = search_query(self.search@);
        let ghost all = record_views(self.applications@);
        let ghost keep = |r: (Seq<char>, bool, bool)| shows(r, self.filter, q);
        let mut visible: Vec<ApplicationRecord> = Vec::new();
        let mut k: usize = 0;
        while k < self.applications.len()
            invariant
                k <= self.applications@.len(),
                all == record_views(self.applications@),
                query@ == q,
                q == search_query(self.search@),
                empty_query == (q.len() == 0),
                keep == (|r: (Seq<char>, bool, bool)| shows(r, self.filter, q)),
                record_views(visible@) == all.take(k as int).filter(keep),
                forall|j: int| 0 <= j < visible@.len() ==> #[trigger] keep(visible@[j]@),
                forall|i: int|
                    0 <= i < k && #[trigger] keep(self.applications@[i]@) ==> exists|j: int|
                        0 <= j < visible@.len() && visible@[j]@ == self.applications@[i]@,
            decreases self.applications@.len() - k,
        {
            let app = &self.applications[k];
            let admitted = match self.filter {
                ApplicationFilter::ThirdParty => !app.system,
                ApplicationFilter::System => app.system,
                ApplicationFilter::All => true,
            };
            let matched = admitted && (empty_query || {
                let name = to_lowercase(app.package.as_str());
                contains(name.as_str(), query.as_str())
            });
            let ghost before = record_views(visible@);
            let ghost before_vec = visible@;
            if matched {
                visible.push(copy_record(app));
                assert(record_views(visible@) =~= before.push(all[k as int]));
            }
            proof {
                assert(all[k as int] == self.applications@[k as int]@);
                assert(matched == keep(self.applications@[k as int]@));
                assert forall|j: int| 0 <= j < visible@.len() implies #[trigger] keep(visible@[j]@) by {
                    if j < before_vec.len() {
                        assert(visible@[j] == before_vec[j]);
                    }
                }
                assert forall|i: int|
                    0 <= i < k + 1 && #[trigger] keep(self.applications@[i]@) implies exists|j: int|
                        0 <= j < visible@.len() && visible@[j]@ == self.applications@[i]@ by {
                    if i < k {
                        let j = choose|j: int| 0 <= j < before_vec.len() && before_vec[j]@ == self.applications@[i]@;
                        assert(visible@[j] == before_vec[j]);
                    } else {
                        assert(visible@[before_vec.len() as int]@ == self.applications@[i]@);
                    }
                }
            }
            proof {
                assert(matched == keep(all[k as int]));
                reveal(Seq::filter);
                assert(all.take(k + 1).drop_last() =~= all.take(k as int));
                assert(all.take(k + 1).last() == all[k as int]);
            }
            k = k + 1;
        }
        assert(all.take(self.applications@.len() as int) =~= all);
        proof {
            assert forall|r: (Seq<char>, bool, bool)| #[trigger] keep(r) == (filter_admits(self.filter, r.1) && search_admits(q, r.0)) by {}
            lemma_shows_fields_all(self.filter, q);
            assert forall|j: int| 0 <= j < visible@.len() implies (match self.filter {
                ApplicationFilter::ThirdParty => !(#[trigger] visible@[j]).system,
                ApplicationFilter::System => visible@[j].system,
                ApplicationFilter::All => true,
            } && (q.len() == 0 || contains_text(lowercase(visible@[j].package@), q))) by {
                assert(keep(visible@[j]@));
                assert(shows(visible@[j]@, self.filter, q));
            }
            assert forall|i: int| 0 <= i < self.applications@.len() && (match self.filter {
                ApplicationFilter::ThirdParty => !(#[trigger] self.applications@[i]).system,
                ApplicationFilter::System => self.applications@[i].system,
                ApplicationFilter::All => true,
            } && (q.len() == 0 || contains_text(lowercase(self.applications@[i].package@), q))) implies exists|j: int|
                0 <= j < visible@.len() && visible@[j]@ == self.applications@[i]@ by {
                assert(shows(self.applications@[i]@, self.filter, q));
                assert(keep(self.applications@[i]@));
            }
        }
        visible
    }

    /// The per-frame icon pass: asks once for the icons of the shown packages
    /// that have none and are not already asked for, and marks them asked.
    /// Afterwards no shown package is missing, so an immediate second pass
    /// asks for nothing.
    pub fn request_visible_icons(&mut self, commands: &mut Vec<ApplicationsCommand>)
        ensures
            ({
                let missing = missing_icons(
                    visible_views(old(self).applications@, old(self).filter, old(self).search@),
                    old(self).icons.packages(),
                    old(self).icon_pending.members(),
                );
                match old(self).target {
                    Some(t) => if missing.len() > 0 {
                        &&& final(commands)@.len() == old(commands)@.len() + 1
                        &&& final(commands)@.take(old(commands)@.len() as int) == old(commands)@
                        &&& final(commands)@.last() matches ApplicationsCommand::LoadApplicationIcons {
                            target,
                            packages,
                        } && target@ == t@ && string_views(packages@) == missing
                        &&& final(self).icon_pending.members() == old(self).icon_pending.members().union(
                            missing.to_set(),
                        )
                        &&& *final(self) == (ApplicationsPanelState {
                            icon_pending: final(self).icon_pending,
                            ..*old(self)
                        })
                    } else {
                        final(commands)@ == old(commands)@ && *final(self) == *old(self)
                    },
                    None => final(commands)@ == old(commands)@ && *final(self) == *old(self),
                }
            }),
            old(self).target is Some ==> missing_icons(
                visible_views(final(self).applications@, final(self).filter, final(self).search@),
                final(self).icons.packages(),
                final(self).icon_pending.members(),
            ).len() == 0,
    {
        let target = match &self.target {
            Some(t) => t.duplicate(),
            None => {
                return;
            },
        };
        let visible = self.visible_applications();
        let ghost shown = visible_views(self.applications@, self.filter, self.search@);
        let ghost packs = shown.map_values(|r: (Seq<char>, bool, bool)| r.0);
        let ghost icons = self.icons.packages();
        let ghost asked = self.icon_pending.members();
        let ghost lacks = |p: Seq<char>| !icons.contains(p) && !asked.contains(p);
        let mut missing: Vec<String> = Vec::new();
        let mut k: usize = 0;
        while k < visible.len()
            invariant
                k <= visible@.len(),
                record_views(visible@) == shown,
                packs == shown.map_values(|r: (Seq<char>, bool, bool)| r.0),
                icons == self.icons.packages(),
                asked == self.icon_pending.members(),
                lacks == (|p: Seq<char>| !icons.contains(p) && !asked.contains(p)),
                string_views(missing@) == packs.take(k as int).filter(lacks),
            decreases visible@.len() - k,
        {
            let package = &visible[k].package;
            assert(packs[k as int] == package@);
            let ghost before = string_views(missing@);
            if !self.icons.contains_key(package.as_str()) && !self.icon_pending.contains(package.as_str()) {
                missing.push(package.clone());
                assert(string_views(missing@) =~= before.push(packs[k as int]));
            }
            proof {
                reveal(Seq::filter);
                assert(packs.take(k + 1).drop_last() =~= packs.take(k as int));
                assert(packs.take(k + 1).last() == packs[k as int]);
            }
            k = k + 1;
        }
        assert(packs.take(visible@.len() as int) =~= packs);
        assert(string_views(missing@) == missing_icons(shown, icons, asked));
        if missing.len() == 0 {
            return;
        }
        let mut j: usize = 0;
        while j < missing.len()
            invariant
                j <= missing@.len(),
                self.icon_pending.members() == asked.union(string_views(missing@).take(j as int).to_set()),
                *self == (ApplicationsPanelState { icon_pending: self.icon_pending, ..*old(self) }),
            decreases missing@.len() - j,
        {
            self.icon_pending.insert(missing[j].clone());
            proof {
                let views = string_views(missing@);
                assert(views.take(j + 1) =~= views.take(j as int).push(views[j as int]));
                let longer = views.take(j + 1);
                let shorter = views.take(j as int);
                assert forall|p: Seq<char>| longer.to_set().contains(p) == shorter.to_set().insert(
                    views[j as int],
                ).contains(p) by {
                    if longer.contains(p) {
                        let i = choose|i: int| 0 <= i < longer.len() && longer[i] == p;
                        if i < j {
                            assert(shorter[i] == p);
                        }
                    }
                    if shorter.contains(p) {
                        let i = choose|i: int| 0 <= i < shorter.len() && shorter[i] == p;
                        assert(longer[i] == p);
                    }
                    if p == views[j as int] {
                        assert(longer[j as int] == p);
                    }
                }
                assert(longer.to_set() =~= shorter.to_set().insert(views[j as int]));
                assert(self.icon_pending.members() =~= asked.union(views.take(j + 1).to_set()));
            }
            j = j + 1;
        }
        proof {
            let views = string_views(missing@);
            assert(views.take(missing@.len() as int) =~= views);
            let after = self.icon_pending.members();
            let gone = |p: Seq<char>| !icons.contains(p) && !after.contains(p);
            packs.filter_lemma(lacks);
            assert forall|i: int| 0 <= i < packs.len() implies !gone(#[trigger] packs[i]) by {
                if lacks(packs[i]) {
                    assert(packs.filter(lacks).contains(packs[i]));
                    assert(views.to_set().contains(packs[i]));
                }
            }
            assert(packs.all(|p: Seq<char>| !gone(p)));
            packs.lemma_all_neg_filter_empty(gone);
        }
        commands.push(ApplicationsCommand::LoadApplicationIcons { target, packages: missing });
    }

    /// The record of the selected package, if it is still listed (the first
    /// one with that name).
    pub fn selected_record(&self) -> (record: Option<&ApplicationRecord>)
        ensures
            match self.selected {
                Some(p) => match record {
                    Some(r) => exists|i: int|
                        0 <= i < self.applications@.len() && self.applications@[i] == *r
                            && r.package@ == p@ && forall|j: int|
                            0 <= j < i ==> self.applications@[j].package@ != p@,
                    None => !has_package(self.applications@, p@),
                },
                None => record is None,
            },
    {
        let selected = match &self.selected {
            Some(p) => p,
            None => {
                return None;
            },
        };
        let mut k: usize = 0;
        while k < self.applications.len()
            invariant
                k <= self.applications@.len(),
                self.selected == Some(*selected),
                forall|j: int| 0 <= j < k ==> self.applications@[j].package@ != selected@,
            decreases self.applications@.len() - k,
        {
            if self.applications[k].package == *selected {
                return Some(&self.applications[k]);
            }
            k = k + 1;
        }
        None
    }

    /// Selecting a tile: a newly selected package drops the old details and
    /// asks for its own under `request_id`; selecting it again does nothing.
    pub fn select(&mut self, package: String, request_id: u64) -> (command: Option<ApplicationsCommand>)
        ensures
            selection_is(old(self).selected, package@) ==> command is None && *final(self)
                == *old(self),
            !selection_is(old(self).selected, package@) ==> {
                &&& *final(self) == (ApplicationsPanelState {
                    selected: final(self).selected,
                    details: None,
                    details_loading: false,
                    ..*old(self)
                })
                &&& final(self).selected matches Some(p) && p@ == package@
                &&& match old(self).target {
                    Some(t) => command matches Some(
                        ApplicationsCommand::LoadApplicationDetails { request_id: id, target, package: asked },
                    ) && id == request_id && target@ == t@ && asked@ == package@,
                    None => command is None,
                }
            },
    {
        if selected_is(&self.selected, &package) {
            return None;
        }
        let asked = package.clone();
        self.selected = Some(package);
        self.details = None;
        self.details_loading = false;
        match &self.target {
            Some(t) => Some(
                ApplicationsCommand::LoadApplicationDetails { request_id, target: t.duplicate(), package: asked },
            ),
            None => None,
        }
    }

    /// The refresh button, enabled with a device and no load under way.
    pub fn refresh(&mut self) -> (command: Option<ApplicationsCommand>)
        ensures
            match old(self).target {
                Some(t) => if !old(self).loading {
                    &&& command matches Some(ApplicationsCommand::LoadApplications(c)) && c@ == t@
                    &&& *final(self) == (ApplicationsPanelState { loading: true, ..*old(self) })
                } else {
                    command is None && *final(self) == *old(self)
                },
                None => command is None && *final(self) == *old(self),
            },
    {
        if self.loading {
            return None;
        }
        match &self.target {
            Some(t) => {
                let current = t.duplicate();
                self.loading = true;
                Some(ApplicationsCommand::LoadApplications(current))
            },
            None => None,
        }
    }

    /// Sends `action` for `package` under `request_id` and remembers it as
    /// the action in flight.
    pub fn push_action(
        &mut self,
        commands: &mut Vec<ApplicationsCommand>,
        target: &DeviceTarget,
        package: &String,
        action: ApplicationAction,
        request_id: u64,
    )
        ensures
            final(commands)@.len() == old(commands)@.len() + 1,
            final(commands)@.take(old(commands)@.len() as int) == old(commands)@,
            final(commands)@.last() matches ApplicationsCommand::RunApplicationAction {
                request_id: id,
                action: sent,
                target: t,
                package: p,
            } && id == request_id && sent == action && t@ == target@ && p@ == package@,
            *final(self) == (ApplicationsPanelState {
                pending: Some(PendingAction { request_id, action }),
                ..*old(self)
            }),
    {
        commands.push(
            ApplicationsCommand::RunApplicationAction {
                request_id,
                action,
                target: target.duplicate(),
                package: package.clone(),
            },
        );
        assert(commands@.take(old(commands)@.len() as int) =~= old(commands)@);
        self.pending = Some(PendingAction { request_id, action });
    }

    /// The confirm button of the confirmation dialog: the waiting destructive
    /// action runs on the selected package and the dialog closes.
    pub fn confirm_action(&mut self, commands: &mut Vec<ApplicationsCommand>, request_id: u64)
        ensures
            match (old(self).confirm, old(self).target, old(self).selected) {
                (Some(action), Some(t), Some(p)) => if is_destructive(action) {
                    &&& final(commands)@.len() == old(commands)@.len() + 1
                    &&& final(commands)@.take(old(commands)@.len() as int) == old(commands)@
                    &&& final(commands)@.last() matches ApplicationsCommand::RunApplicationAction {
                        request_id: id,
                        action: sent,
                        target,
                        package,
                    } && id == request_id && sent == action && target@ == t@ && package@ == p@
                    &&& *final(self) == (ApplicationsPanelState {
                        pending: Some(PendingAction { request_id, action }),
                        confirm: None,
                        ..*old(self)
                    })
                } else {
                    final(commands)@ == old(commands)@ && *final(self) == *old(self)
                },
                _ => final(commands)@ == old(commands)@ && *final(self) == *old(self),
            },
    {
        let action = match self.confirm {
            Some(a) => a,
            None => {
                return;
            },
        };
        if !action.needs_confirmation() {
            return;
        }
        let target = match &self.target {
            Some(t) => t.duplicate(),
            None => {
                return;
            },
        };
        let package = match &self.selected {
            Some(p) => p.clone(),
            None => {
                return;
            },
        };
        self.push_action(commands, &target, &package, action, request_id);
        self.confirm = None;
    }

    /// Starts installing the APK at `apk_path` under `request_id`, when a
    /// device is selected and no install is running.
    pub fn start_install(&mut self, apk_path: String, request_id: u64) -> (command: Option<
        ApplicationsCommand,
    >)
        ensures
            match old(self).target {
                Some(t) => if old(self).install is None {
                    &&& command matches Some(
                        ApplicationsCommand::InstallApk { request_id: id, target, apk_path: path },
                    ) && id == request_id && target@ == t@ && path@ == apk_path@
                    &&& *final(self) == (ApplicationsPanelState {
                        install: Some(request_id),
                        install_notice: false,
                        ..*old(self)
                    })
                } else {
                    command is None && *final(self) == *old(self)
                },
                None => command is None && *final(self) == *old(self),
            },
    {
        if self.install.is_some() {
            return None;
        }
        match &self.target {
            Some(t) => {
                let target = t.duplicate();
                self.install = Some(request_id);
                self.install_notice = false;
                Some(ApplicationsCommand::InstallApk { request_id, target, apk_path })
            },
            None => None,
        }
    }

    /// Applies one backend report. Reports about another device, package or
    /// request leave the panel as it is; a completed action that changes the
    /// list, and a finished install, answer with a reload.
    pub fn handle_event(&mut self, event: &ApplicationsEvent) -> (commands: Vec<ApplicationsCommand>)
        ensures
            match event {
                ApplicationsEvent::ApplicationsLoading(t) => commands@.len() == 0 && if target_view(
                    old(self).target,
                ) == Some(t@) {
                    *final(self) == (ApplicationsPanelState { loading: true, ..*old(self) })
                } else {
                    *final(self) == *old(self)
                },
                ApplicationsEvent::ApplicationsLoaded { target: t, applications } => commands@.len()
                    == 0 && if target_view(old(self).target) == Some(t@) {
                    &&& record_views(final(self).applications@) == record_views(applications@)
                    &&& match old(self).selected {
                        Some(p) => if has_package(applications@, p@) {
                            *final(self) == (ApplicationsPanelState {
                                loading: false,
                                install_notice: false,
                                applications: final(self).applications,
                                ..*old(self)
                            })
                        } else {
                            *final(self) == (ApplicationsPanelState {
                                loading: false,
                                install_notice: false,
                                applications: final(self).applications,
                                selected: None,
                                details: None,
                                details_loading: false,
                                ..*old(self)
                            })
                        },
                        None => *final(self) == (ApplicationsPanelState {
                            loading: false,
                            install_notice: false,
                            applications: final(self).applications,
                            ..*old(self)
                        }),
                    }
                } else {
                    *final(self) == *old(self)
                },
                ApplicationsEvent::ApplicationsFailed { target: t, .. } => commands@.len() == 0
                    && if target_view(old(self).target) == Some(t@) {
                    *final(self) == (ApplicationsPanelState { loading: false, ..*old(self) })
                } else {
                    *final(self) == *old(self)
                },
                ApplicationsEvent::ApplicationIconLoaded { target: t, package, icon } => commands@.len()
                    == 0 && if target_view(old(self).target) == Some(t@) {
                    &&& final(self).icons.packages() == old(self).icons.packages().insert(package@)
                    &&& final(self).icons.icon_view(package@) == (icon.width, icon.height, icon.rgba@)
                    &&& forall|p: Seq<char>|
                        p != package@ && old(self).icons.packages().contains(p)
                            ==> #[trigger] final(self).icons.icon_view(p) == old(self).icons.icon_view(p)
                    &&& final(self).icon_pending.members() == old(self).icon_pending.members().remove(
                        package@,
                    )
                    &&& *final(self) == (ApplicationsPanelState {
                        icons: final(self).icons,
                        icon_pending: final(self).icon_pending,
                        ..*old(self)
                    })
                } else {
                    *final(self) == *old(self)
                },
                ApplicationsEvent::ApplicationDetailsLoading { package, .. } => commands@.len() == 0
                    && if selection_is(old(self).selected, package@) {
                    *final(self) == (ApplicationsPanelState { details_loading: true, ..*old(self) })
                } else {
                    *final(self) == *old(self)
                },
                ApplicationsEvent::ApplicationDetailsLoaded { details, .. } => commands@.len() == 0
                    && if selection_is(old(self).selected, details.package@) {
                    &&& final(self).details matches Some(d) && d.package@ == details.package@
                        && d.version_name == details.version_name && d.version_code
                        == details.version_code && d.min_sdk == details.min_sdk && d.target_sdk
                        == details.target_sdk && d.first_install_time == details.first_install_time
                        && d.last_update_time == details.last_update_time && d.installer
                        == details.installer && d.apk_path == details.apk_path && d.permissions@
                        == details.permissions@
                    &&& *final(self) == (ApplicationsPanelState {
                        details_loading: false,
                        details: final(self).details,
                        ..*old(self)
                    })
                } else {
                    *final(self) == *old(self)
                },
                ApplicationsEvent::ApplicationDetailsFailed { package, .. } => commands@.len() == 0
                    && if selection_is(old(self).selected, package@) {
                    *final(self) == (ApplicationsPanelState {
                        details_loading: false,
                        details: None,
                        ..*old(self)
                    })
                } else {
                    *final(self) == *old(self)
                },
                ApplicationsEvent::ApplicationActionCompleted { request_id, action, .. } => if old(
                    self,
                ).pending matches Some(p) && p.request_id == *request_id {
                    match old(self).target {
                        Some(t) => if changes_listing(*action) {
                            &&& commands@.len() == 1
                            &&& commands@[0] matches ApplicationsCommand::LoadApplications(c)
                                && c@ == t@
                            &&& *final(self) == (ApplicationsPanelState {
                                pending: None,
                                loading: true,
                                ..*old(self)
                            })
                        } else {
                            commands@.len() == 0 && *final(self) == (ApplicationsPanelState {
                                pending: None,
                                ..*old(self)
                            })
                        },
                        None => commands@.len() == 0 && *final(self) == (ApplicationsPanelState {
                            pending: None,
                            ..*old(self)
                        }),
                    }
                } else {
                    commands@.len() == 0 && *final(self) == *old(self)
                },
                ApplicationsEvent::ApplicationActionFailed { request_id, .. } => commands@.len() == 0
                    && if old(self).pending matches Some(p) && p.request_id == *request_id {
                    *final(self) == (ApplicationsPanelState { pending: None, ..*old(self) })
                } else {
                    *final(self) == *old(self)
                },
                ApplicationsEvent::ApkInstallFinished { request_id, target: t } => if old(self).install
                    == Some(*request_id) && target_view(old(self).target) == Some(t@) {
                    &&& commands@.len() == 1
                    &&& commands@[0] matches ApplicationsCommand::LoadApplications(c) && c@ == t@
                    &&& *final(self) == (ApplicationsPanelState {
                        install: None,
                        install_notice: true,
                        loading: true,
                        ..*old(self)
                    })
                } else {
                    commands@.len() == 0 && *final(self) == *old(self)
                },
                ApplicationsEvent::ApkInstallFailed { request_id, .. } => commands@.len() == 0
                    && if old(self).install == Some(*request_id) {
                    *final(self) == (ApplicationsPanelState { install: None, ..*old(self) })
                } else {
                    *final(self) == *old(self)
                },
            },
    {
        let mut commands: Vec<ApplicationsCommand> = Vec::new();
        match event {
            ApplicationsEvent::ApplicationsLoading(t) => {
                if is_target(&self.target, t) {
                    self.loading = true;
                }
            },
            ApplicationsEvent::ApplicationsLoaded { target: t, applications } => {
                if is_target(&self.target, t) {
                    self.loading = false;
                    self.install_notice = false;
                    self.applications = copy_records(applications);
                    let lost = match &self.selected {
                        Some(p) => !lists_package(applications, p),
                        None => false,
                    };
                    if lost {
                        self.selected = None;
                        self.details = None;
                        self.details_loading = false;
                    }
                }
            },
            ApplicationsEvent::ApplicationsFailed { target: t, .. } => {
                if is_target(&self.target, t) {
                    self.loading = false;
                }
            },
            ApplicationsEvent::ApplicationIconLoaded { target: t, package, icon } => {
                if is_target(&self.target, t) {
                    self.icons.insert(package.clone(), ApplicationIconData {
                        width: icon.width,
                        height: icon.height,
                        rgba: copy_bytes(&icon.rgba),
                    });
                    self.icon_pending.remove(package.as_str());
                }
            },
            ApplicationsEvent::ApplicationDetailsLoading { package, .. } => {
                if selected_is(&self.selected, package) {
                    self.details_loading = true;
                }
            },
            ApplicationsEvent::ApplicationDetailsLoaded { details, .. } => {
                if selected_is(&self.selected, &details.package) {
                    self.details_loading = false;
                    self.details = Some(copy_details(details));
                }
            },
            ApplicationsEvent::ApplicationDetailsFailed { package, .. } => {
                if selected_is(&self.selected, package) {
                    self.details_loading = false;
                    self.details = None;
                }
            },
            ApplicationsEvent::ApplicationActionCompleted { request_id, action, .. } => {
                let answered = match self.pending {
                    Some(p) => p.request_id == *request_id,
                    None => false,
                };
                if answered {
                    self.pending = None;
                    if action.mutates_listing() {
                        match &self.target {
                            Some(t) => {
                                let current = t.duplicate();
                                self.loading = true;
                                commands.push(ApplicationsCommand::LoadApplications(current));
                            },
                            None => {},
                        }
                    }
                }
            },
            ApplicationsEvent::ApplicationActionFailed { request_id, .. } => {
                let answered = match self.pending {
                    Some(p) => p.request_id == *request_id,
                    None => false,
                };
                if answered {
                    self.pending = None;
                }
            },
            ApplicationsEvent::ApkInstallFinished { request_id, target: t } => {
                if self.install == Some(*request_id) && is_target(&self.target, t) {
                    self.install = None;
                    self.install_notice = true;
                    match &self.target {
                        Some(current) => {
                            let current = current.duplicate();
                            self.loading = true;
                            commands.push(ApplicationsCommand::LoadApplications(current));
                        },
                        None => {},
                    }
                }
            },
            ApplicationsEvent::ApkInstallFailed { request_id, .. } => {
                if self.install == Some(*request_id) {
                    self.install = None;
                }
            },
        }
        commands
    }
}

/// Whether a string holds exactly the characters of `s`.
fn string_is(a: &String, s: &str) -> (same: bool)
    ensures
        same == (a@ == s@),
{
    let x = chars_of(a.as_str());
    let y = chars_of(s);
    if x.len() != y.len() {
        return false;
    }
    let mut i: usize = 0;
    while i < x.len()
        invariant
            x@ == a@,
            y@ == s@,
            x.len() == y.len(),
            i <= x.len(),
            forall|k: int| 0 <= k < i ==> x@[k] == y@[k],
        decreases x.len() - i,
    {
        if x[i] != y[i] {
            return false;
        }
        i = i + 1;
    }
    assert(x@ =~= y@);
    true
}

} // verus!
