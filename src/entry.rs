//! Library entries, update payloads, and the builder that turns one into the other.
use vstd::prelude::*;
use crate::tags::{all_non_empty, is_normalized_of, normalize_tags, strs};
use crate::text::{copy_opt, non_empty_opt, opt_non_empty, opt_view, trim, trim_str};

verus! {

/// Where an entry stands on this machine.
#[derive(Debug, Clone, Copy, PartialEq, Eq, Structural)]
pub enum InstallStatus {
    NotInstalled,
    Downloading,
    Installed,
    Archived,
}

impl Default for InstallStatus {
    fn default() -> (r: Self)
        ensures
            r == InstallStatus::NotInstalled,
    {
        InstallStatus::NotInstalled
    }
}

/// A UTC instant: whole seconds since the Unix epoch and the nanoseconds past them.
#[derive(Debug, Clone, Copy, PartialEq, Eq, Structural)]
pub struct Timestamp {
    pub secs: i64,
    pub nanos: u32,
}

impl Timestamp {
    /// `self` is not after `other`.
    pub open spec fn spec_le(self, other: Timestamp) -> bool {
        self.secs < other.secs || (self.secs == other.secs && self.nanos <= other.nanos)
    }

    pub fn le(&self, other: &Timestamp) -> (r: bool)
        ensures
            r == self.spec_le(*other),
    {
        self.secs < other.secs || (self.secs == other.secs && self.nanos <= other.nanos)
    }
}

/// One tracked game.
#[derive(Debug, Clone)]
pub struct GameEntry {
    pub id: String,
    pub title: String,
    pub version: Option<String>,
    pub archive_path: Option<String>,
    pub install_path: Option<String>,
    pub executable_path: Option<String>,
    pub repacker: Option<String>,
    pub tags: Vec<String>,
    pub status: InstallStatus,
    pub notes: Option<String>,
    pub checksum: Option<String>,
    pub color: Option<String>,
    pub size_bytes: Option<u64>,
    pub added_at: Timestamp,
    pub updated_at: Timestamp,
}

/// The value of a `GameEntry`, with texts in place of strings.
pub ghost struct EntryView {
    pub id: Seq<char>,
    pub title: Seq<char>,
    pub version: Option<Seq<char>>,
    pub archive_path: Option<Seq<char>>,
    pub install_path: Option<Seq<char>>,
    pub executable_path: Option<Seq<char>>,
    pub repacker: Option<Seq<char>>,
    pub tags: Seq<Seq<char>>,
    pub status: InstallStatus,
    pub notes: Option<Seq<char>>,
    pub checksum: Option<Seq<char>>,
    pub color: Option<Seq<char>>,
    pub size_bytes: Option<u64>,
    pub added_at: Timestamp,
    pub updated_at: Timestamp,
}

impl View for GameEntry {
    type V = EntryView;

    open spec fn view(&self) -> EntryView {
        EntryView {
            id: self.id@,
            title: self.title@,
            version: opt_view(self.version),
            archive_path: opt_view(self.archive_path),
            install_path: opt_view(self.install_path),
            executable_path: opt_view(self.executable_path),
            repacker: opt_view(self.repacker),
            tags: strs(self.tags@),
            status: self.status,
            notes: opt_view(self.notes),
            checksum: opt_view(self.checksum),
            color: opt_view(self.color),
            size_bytes: self.size_bytes,
            added_at: self.added_at,
            updated_at: self.updated_at,
        }
    }
}

/// What a caller hands in to create or replace an entry.
#[derive(Debug, Clone)]
pub struct GamePayload {
    pub title: String,
    pub version: Option<String>,
    pub archive_path: Option<String>,
    pub install_path: Option<String>,
    pub executable_path: Option<String>,
    pub repacker: Option<String>,
    pub tags: Vec<String>,
    pub status: InstallStatus,
    pub notes: Option<String>,
    pub checksum: Option<String>,
    pub color: Option<String>,
    pub size_override: Option<u64>,
}

/// The stored title for a given one: trimmed, or a placeholder where blank.
pub open spec fn title_of(s: Seq<char>) -> Seq<char> {
    if trim(s).len() == 0 {
        "Untitled"@
    } else {
        trim(s)
    }
}

/// The size an entry ends with: the override, else a successful scan, else the old size.
pub open spec fn size_of(size_override: Option<u64>, scanned: Option<u64>, old: Option<u64>) -> Option<u64> {
    match size_override {
        Some(n) => Some(n),
        None => match scanned {
            Some(n) => Some(n),
            None => old,
        },
    }
}

/// The path whose size should be scanned for a payload, if any: none when the size is
/// given, else the archive path, else the install path, each after trimming.
pub open spec fn scan_target_of(p: GamePayload) -> Option<Seq<char>> {
    if p.size_override is Some {
        None
    } else if opt_non_empty(opt_view(p.archive_path)) is Some {
        opt_non_empty(opt_view(p.archive_path))
    } else {
        opt_non_empty(opt_view(p.install_path))
    }
}

/// The fields of `r` that a payload sets: all but id and timestamps, normalised;
/// `old_size` is what the size was before.
pub open spec fn takes_payload(p: GamePayload, scanned: Option<u64>, old_size: Option<u64>, r: EntryView) -> bool {
    &&& r.title == title_of(p.title@)
    &&& r.version == opt_non_empty(opt_view(p.version))
    &&& r.archive_path == opt_non_empty(opt_view(p.archive_path))
    &&& r.install_path == opt_non_empty(opt_view(p.install_path))
    &&& r.executable_path == opt_non_empty(opt_view(p.executable_path))
    &&& r.repacker == opt_non_empty(opt_view(p.repacker))
    &&& is_normalized_of(r.tags, strs(p.tags@))
    &&& all_non_empty(r.tags)
    &&& r.status == p.status
    &&& r.notes == opt_non_empty(opt_view(p.notes))
    &&& r.checksum == opt_non_empty(opt_view(p.checksum))
    &&& r.color == opt_non_empty(opt_view(p.color))
    &&& r.size_bytes == size_of(p.size_override, scanned, old_size)
}

/// `r` is `e` with a payload applied: identity and timestamps kept, the rest from the payload.
pub open spec fn applied(e: EntryView, p: GamePayload, scanned: Option<u64>, r: EntryView) -> bool {
    &&& r.id == e.id
    &&& r.added_at == e.added_at
    &&& r.updated_at == e.updated_at
    &&& takes_payload(p, scanned, e.size_bytes, r)
}

/// Relies on chrono::Utc::now for the current time, taken apart into seconds and nanoseconds.
#[verifier::external_body]
pub(crate) fn now() -> (r: Timestamp) {
    let t = chrono::Utc::now();
    Timestamp { secs: t.timestamp(), nanos: t.timestamp_subsec_nanos() }
}

/// Relies on uuid::Uuid::new_v4 for a random identifier, in its hyphenated text form.
#[verifier::external_body]
pub(crate) fn new_id() -> (r: String)
    ensures
        r@.len() == 36,
{
    uuid::Uuid::new_v4().to_string()
}

impl GameEntry {
    /// A field-for-field copy.
    pub fn copy(&self) -> (r: GameEntry)
        ensures
            r@ == self@,
    {
        let mut tags: Vec<String> = Vec::new();
        let mut i: usize = 0;
        while i < self.tags.len()
            invariant
                i <= self.tags@.len(),
                tags@.len() == i,
                forall|k: int| 0 <= k < i ==> (#[trigger] tags@[k])@ == self.tags@[k]@,
            decreases self.tags@.len() - i,
        {
            tags.push(self.tags[i].clone());
            i = i + 1;
        }
        assert(strs(tags@) == strs(self.tags@));
        GameEntry {
            id: self.id.clone(),
            title: self.title.clone(),
            version: copy_opt(&self.version),
            archive_path: copy_opt(&self.archive_path),
            install_path: copy_opt(&self.install_path),
            executable_path: copy_opt(&self.executable_path),
            repacker: copy_opt(&self.repacker),
            tags,
            status: self.status,
            notes: copy_opt(&self.notes),
            checksum: copy_opt(&self.checksum),
            color: copy_opt(&self.color),
            size_bytes: self.size_bytes,
            added_at: self.added_at,
            updated_at: self.updated_at,
        }
    }

    /// A fresh entry with nothing set but its identity and timestamps.
    pub fn blank(id: String, at: Timestamp) -> (r: GameEntry)
        ensures
            r.id@ == id@,
            r.added_at == at,
            r.updated_at == at,
            r.size_bytes is None,
            r.status == InstallStatus::NotInstalled,
    {
        GameEntry {
            id,
            title: String::new(),
            version: None,
            archive_path: None,
            install_path: None,
            executable_path: None,
            repacker: None,
            tags: Vec::new(),
            status: InstallStatus::default(),
            notes: None,
            checksum: None,
            color: None,
            size_bytes: None,
            added_at: at,
            updated_at: at,
        }
    }
}

/// The path to scan for a payload's size, when the payload does not give it.
pub fn size_scan_target(payload: &GamePayload) -> (r: Option<String>)
    ensures
        opt_view(r) == scan_target_of(*payload),
{
    if payload.size_override.is_some() {
        return None;
    }
    let archive = non_empty_opt(copy_opt(&payload.archive_path));
    if archive.is_some() {
        archive
    } else {
        non_empty_opt(copy_opt(&payload.install_path))
    }
}

/// Replaces every field of `entry` but its id and timestamps with the payload's,
/// normalised; `scanned` is the size found at `size_scan_target(&payload)`, if it was found.
pub fn apply_payload(payload: GamePayload, entry: GameEntry, scanned: Option<u64>) -> (r: GameEntry)
    ensures
        applied(entry@, payload, scanned, r@),
{
    let ghost p = payload;
    let GamePayload {
        title,
        version,
        archive_path,
        install_path,
        executable_path,
        repacker,
        tags,
        status,
        notes,
        checksum,
        color,
        size_override,
    } = payload;
    let mut entry = entry;
    let trimmed = trim_str(title.as_str());
    entry.title = if trimmed.as_str().unicode_len() == 0 {
        String::from_str("Untitled")
    } else {
        trimmed
    };
    entry.version = non_empty_opt(version);
    entry.archive_path = non_empty_opt(archive_path);
    entry.install_path = non_empty_opt(install_path);
    entry.executable_path = non_empty_opt(executable_path);
    entry.repacker = non_empty_opt(repacker);
    entry.tags = normalize_tags(tags);
    entry.status = status;
    entry.notes = non_empty_opt(notes);
    entry.checksum = non_empty_opt(checksum);
    entry.color = non_empty_opt(color);
    match size_override {
        Some(n) => {
            entry.size_bytes = Some(n);
        },
        None => match scanned {
            Some(n) => {
                entry.size_bytes = Some(n);
            },
            None => {},
        },
    }
    entry
}

/// Builds an entry from a payload, on top of an existing entry when one is given,
/// else on a fresh one with a new id and the current time.
pub fn game_from_payload(payload: GamePayload, existing: Option<GameEntry>, scanned: Option<u64>) -> (r: GameEntry)
    ensures
        match existing {
            Some(e) => applied(e@, payload, scanned, r@),
            None => takes_payload(payload, scanned, None, r@) && r.added_at == r.updated_at
                && r.id@.len() == 36,
        },
{
    let base = match existing {
        Some(e) => e,
        None => GameEntry::blank(new_id(), now()),
    };
    apply_payload(payload, base, scanned)
}

} // verus!
