//! The keys that may log in, and how a changed key file takes effect.
use vstd::prelude::*;
use vstd::string::*;

use crate::bytes;
use crate::native_paths;
use crate::text;
use crate::time::{Duration, Instant};
use crate::values;

verus! {

/// The entries of an `authorized_keys` text, in order: for each the text of the
/// error that it cannot be read for, or whether it is free of options together
/// with the encoding of its key, where that has one.
pub uninterp spec fn authorized_keys_entries(text: Seq<char>) -> Seq<
    Result<(bool, Option<Seq<u8>>), Seq<char>>,
>;

/// An entry as it was read: the error in words, or whether it is free of
/// options and the encoding of its key.
pub type KeyEntry = Result<(bool, Option<Vec<u8>>), String>;

/// What an entry says.
pub open spec fn entry_view(entry: KeyEntry) -> Result<(bool, Option<Seq<u8>>), Seq<char>> {
    match entry {
        Ok((plain, Some(key))) => Ok((plain, Some(key@))),
        Ok((plain, None)) => Ok((plain, None)),
        Err(message) => Err(message@),
    }
}

pub open spec fn entry_views(entries: Seq<KeyEntry>) -> Seq<
    Result<(bool, Option<Seq<u8>>), Seq<char>>,
> {
    entries.map_values(|e: KeyEntry| entry_view(e))
}

/// The iterator of `ssh_key::AuthorizedKeys::new` over the whole text: one item
/// for each line that is neither blank nor a comment. Of an entry that it
/// reads, `config_opts().is_empty()` and `public_key().to_bytes()` are kept; of
/// an error, its words. The items depend on the text alone.
#[verifier::external_body]
fn parse_entries(text: &str) -> (r: Vec<KeyEntry>)
    ensures
        entry_views(r@) == authorized_keys_entries(text@),
{
    russh::keys::ssh_key::AuthorizedKeys::new(text).map(
        |entry|
            match entry {
                Ok(entry) => Ok(
                    (entry.config_opts().is_empty(), entry.public_key().to_bytes().ok()),
                ),
                Err(err) => Err(err.to_string()),
            },
    ).collect()
}

/// Why a key file cannot be used.
#[derive(Debug)]
pub enum KeysError {
    /// The file cannot be opened or read.
    Unreadable { path: String },
    /// Nothing can be learnt about the file.
    NoMetadata { path: String },
    /// The file is larger than allowed.
    TooLarge { path: String, max_size: usize },
    /// The file holds more entries than allowed.
    TooManyEntries { max_entries: usize },
    /// An entry cannot be read.
    BadEntry { message: String },
    /// The key of an entry has no encoding.
    BadKey,
    /// Two entries without options hold the same key.
    DuplicateKey,
    /// The offered key has no encoding.
    BadOfferedKey,
}

/// What a `KeysError` says.
pub enum KeysErrorView {
    Unreadable { path: Seq<char> },
    NoMetadata { path: Seq<char> },
    TooLarge { path: Seq<char>, max_size: nat },
    TooManyEntries { max_entries: nat },
    BadEntry { message: Seq<char> },
    BadKey,
    DuplicateKey,
    BadOfferedKey,
}

impl View for KeysError {
    type V = KeysErrorView;

    open spec fn view(&self) -> KeysErrorView {
        match self {
            KeysError::Unreadable { path } => KeysErrorView::Unreadable { path: path@ },
            KeysError::NoMetadata { path } => KeysErrorView::NoMetadata { path: path@ },
            KeysError::TooLarge { path, max_size } => KeysErrorView::TooLarge {
                path: path@,
                max_size: *max_size as nat,
            },
            KeysError::TooManyEntries { max_entries } => KeysErrorView::TooManyEntries {
                max_entries: *max_entries as nat,
            },
            KeysError::BadEntry { message } => KeysErrorView::BadEntry { message: message@ },
            KeysError::BadKey => KeysErrorView::BadKey,
            KeysError::DuplicateKey => KeysErrorView::DuplicateKey,
            KeysError::BadOfferedKey => KeysErrorView::BadOfferedKey,
        }
    }
}

impl KeysErrorView {
    pub open spec fn message(self) -> Seq<char> {
        match self {
            KeysErrorView::Unreadable { path } => "failed to read "@ + native_paths::shown(path),
            KeysErrorView::NoMetadata { path } => "failed to stat "@ + native_paths::shown(path),
            KeysErrorView::TooLarge { path, max_size } => "authorized keys file "@
                + native_paths::shown(path) + " exceeds configured size limit of "@ + text::decimal(max_size) + " bytes"@,
            KeysErrorView::TooManyEntries { max_entries } =>
                "authorized keys file exceeds configured entry limit of "@ + text::decimal(
                max_entries,
            ),
            KeysErrorView::BadEntry { message } => "failed to parse authorized_keys entry: "@
                + message,
            KeysErrorView::BadKey => "failed to serialize authorized public key"@,
            KeysErrorView::DuplicateKey =>
                "authorized keys file contains a duplicate plain key entry"@,
            KeysErrorView::BadOfferedKey => "failed to serialize offered public key"@,
        }
    }
}

impl KeysError {
    /// The error in words.
    pub fn message(&self) -> (r: String)
        ensures
            r@ == self@.message(),
    {
        match self {
            KeysError::Unreadable { path } => native_paths::naming("failed to read ", path.as_str()),
            KeysError::NoMetadata { path } => native_paths::naming("failed to stat ", path.as_str()),
            KeysError::TooLarge { path, max_size } => {
                let mut out = native_paths::naming("authorized keys file ", path.as_str());
                out.append(" exceeds configured size limit of ");
                let number = text::decimal_of(*max_size as u64);
                out.append(number.as_str());
                out.append(" bytes");
                out
            },
            KeysError::TooManyEntries { max_entries } => {
                let number = text::decimal_of(*max_entries as u64);
                values::sentence(
                    "authorized keys file exceeds configured entry limit of ",
                    number.as_str(),
                )
            },
            KeysError::BadEntry { message } => values::sentence(
                "failed to parse authorized_keys entry: ",
                message.as_str(),
            ),
            KeysError::BadKey => String::from_str("failed to serialize authorized public key"),
            KeysError::DuplicateKey => String::from_str(
                "authorized keys file contains a duplicate plain key entry",
            ),
            KeysError::BadOfferedKey => String::from_str("failed to serialize offered public key"),
        }
    }
}

/// What a key file's entries amount to.
pub struct CacheView {
    /// The encodings of the accepted keys, in the order of the file.
    pub keys: Seq<Seq<u8>>,
    /// How many entries were passed over because of their options.
    pub ignored: nat,
}

/// What the first `n` entries amount to; the error is that of the first entry
/// that gives one.
pub open spec fn accepted(
    entries: Seq<Result<(bool, Option<Seq<u8>>), Seq<char>>>,
    n: nat,
    max_entries: nat,
) -> Result<CacheView, KeysErrorView>
    decreases n,
{
    if n == 0 {
        Ok(CacheView { keys: Seq::empty(), ignored: 0 })
    } else {
        match accepted(entries, (n - 1) as nat, max_entries) {
            Err(e) => Err(e),
            Ok(before) => if n > max_entries {
                Err(KeysErrorView::TooManyEntries { max_entries })
            } else {
                match entries[n - 1] {
                    Err(message) => Err(KeysErrorView::BadEntry { message }),
                    Ok((false, _)) => Ok(
                        CacheView { keys: before.keys, ignored: before.ignored + 1 },
                    ),
                    Ok((true, None)) => Err(KeysErrorView::BadKey),
                    Ok((true, Some(key))) => if before.keys.contains(key) {
                        Err(KeysErrorView::DuplicateKey)
                    } else {
                        Ok(CacheView { keys: before.keys.push(key), ignored: before.ignored })
                    },
                }
            },
        }
    }
}

proof fn lemma_accepted_error_stays(
    entries: Seq<Result<(bool, Option<Seq<u8>>), Seq<char>>>,
    m: nat,
    n: nat,
    max_entries: nat,
)
    requires
        m <= n,
        accepted(entries, m, max_entries) is Err,
    ensures
        accepted(entries, n, max_entries) == accepted(entries, m, max_entries),
    decreases n,
{
    if m < n {
        lemma_accepted_error_stays(entries, m, (n - 1) as nat, max_entries);
    }
}

/// The keys of a key file that may log in.
#[derive(Debug)]
pub struct AuthorizedKeysCache {
    accepted_keys: Vec<Vec<u8>>,
    ignored_entries: usize,
}

/// The byte strings of `v`.
pub open spec fn blobs(v: Seq<Vec<u8>>) -> Seq<Seq<u8>> {
    v.map_values(|b: Vec<u8>| b@)
}

impl View for AuthorizedKeysCache {
    type V = CacheView;

    closed spec fn view(&self) -> CacheView {
        CacheView { keys: blobs(self.accepted_keys@), ignored: self.ignored_entries as nat }
    }
}

/// What a result of reading keys stands for.
pub open spec fn cache_outcome(r: Result<AuthorizedKeysCache, KeysError>) -> Result<
    CacheView,
    KeysErrorView,
> {
    match r {
        Ok(cache) => Ok(cache@),
        Err(e) => Err(e@),
    }
}

impl AuthorizedKeysCache {
    pub fn empty() -> (r: Self)
        ensures
            r@ == (CacheView { keys: Seq::empty(), ignored: 0 }),
    {
        let r = AuthorizedKeysCache { accepted_keys: Vec::new(), ignored_entries: 0 };
        assert(r@.keys =~= Seq::<Seq<u8>>::empty());
        r
    }

    /// Takes the keys of entries that have been read.
    pub fn from_entries(entries: Vec<KeyEntry>, max_entries: usize) -> (r: Result<Self, KeysError>)
        ensures
            cache_outcome(r) == accepted(
                entry_views(entries@),
                entries@.len(),
                max_entries as nat,
            ),
    {
        let ghost all = entry_views(entries@);
        let ghost max = max_entries as nat;
        let mut cache = Self::empty();
        let mut i: usize = 0;
        while i < entries.len()
            invariant
                i <= entries@.len(),
                all == entry_views(entries@),
                max == max_entries,
                cache@.ignored <= i,
                Ok::<CacheView, KeysErrorView>(cache@) == accepted(all, i as nat, max),
            decreases entries.len() - i,
        {
            assert(all[i as int] == entry_view(entries@[i as int]));
            let ghost next = accepted(all, (i + 1) as nat, max);
            proof {
                if next is Err {
                    lemma_accepted_error_stays(all, (i + 1) as nat, all.len(), max);
                }
            }
            if i >= max_entries {
                return Err(KeysError::TooManyEntries { max_entries });
            }
            match &entries[i] {
                Err(message) => {
                    return Err(
                        KeysError::BadEntry { message: String::from_str(message.as_str()) },
                    );
                },
                Ok((plain, key)) => {
                    if !*plain {
                        cache.ignored_entries = cache.ignored_entries + 1;
                    } else {
                        match key {
                            None => {
                                return Err(KeysError::BadKey);
                            },
                            Some(key) => {
                                if cache.contains_bytes(key) {
                                    return Err(KeysError::DuplicateKey);
                                }
                                let ghost before = cache@.keys;
                                let copy = bytes::copy_bytes(key);
                                cache.accepted_keys.push(copy);
                                assert(cache@.keys =~= before.push(key@));
                            },
                        }
                    }
                },
            }
            i = i + 1;
        }
        Ok(cache)
    }

    /// Takes the keys of an `authorized_keys` text.
    pub fn from_text(text: &str, max_entries: usize) -> (r: Result<Self, KeysError>)
        ensures
            cache_outcome(r) == accepted(
                authorized_keys_entries(text@),
                authorized_keys_entries(text@).len(),
                max_entries as nat,
            ),
    {
        let entries = parse_entries(text);
        assert(entries@.len() == entry_views(entries@).len());
        Self::from_entries(entries, max_entries)
    }

    /// Whether the key with this encoding may log in.
    pub fn contains_bytes(&self, key: &Vec<u8>) -> (r: bool)
        ensures
            r == self@.keys.contains(key@),
    {
        let ghost keys = self@.keys;
        let mut i: usize = 0;
        while i < self.accepted_keys.len()
            invariant
                i <= self.accepted_keys@.len(),
                keys == blobs(self.accepted_keys@),
                forall|j: int| 0 <= j < i ==> keys[j] != key@,
            decreases self.accepted_keys.len() - i,
        {
            assert(keys[i as int] == self.accepted_keys@[i as int]@);
            if bytes::same_bytes(&self.accepted_keys[i], key) {
                return true;
            }
            i = i + 1;
        }
        false
    }

    /// Whether an offered key, given by its encoding if it has one, may log in.
    pub fn contains(&self, key: &Option<Vec<u8>>) -> (r: Result<bool, KeysError>)
        ensures
            match key {
                Some(key) => r == Ok::<bool, KeysError>(self@.keys.contains(key@)),
                None => r is Err && r->Err_0@ == KeysErrorView::BadOfferedKey,
            },
    {
        match key {
            Some(key) => Ok(self.contains_bytes(key)),
            None => Err(KeysError::BadOfferedKey),
        }
    }

    pub fn ignored_entries(&self) -> (r: usize)
        ensures
            r == self@.ignored,
    {
        self.ignored_entries
    }

    pub fn key_count(&self) -> (r: usize)
        ensures
            r == self@.keys.len(),
    {
        self.accepted_keys.len()
    }
}

/// What tells one version of the key file from another.
#[derive(Clone, Copy, Debug, PartialEq, Eq, Structural)]
pub struct AuthorizedKeysFingerprint {
    /// The time of the last change, in nanoseconds from the Unix epoch, where
    /// the system tells it.
    pub modified: Option<i128>,
    pub len: Option<u64>,
    pub missing: bool,
}

impl AuthorizedKeysFingerprint {
    /// The fingerprint of a file that does not exist.
    pub open spec fn of_missing() -> Self {
        AuthorizedKeysFingerprint { modified: None, len: None, missing: true }
    }

    pub fn missing() -> (r: Self)
        ensures
            r == Self::of_missing(),
    {
        AuthorizedKeysFingerprint { modified: None, len: None, missing: true }
    }

    pub fn from_metadata(modified: Option<i128>, len: u64) -> (r: Self)
        ensures
            r == (AuthorizedKeysFingerprint { modified, len: Some(len), missing: false }),
    {
        AuthorizedKeysFingerprint { modified, len: Some(len), missing: false }
    }
}

/// What came of opening and reading the key file.
#[derive(Debug)]
pub enum KeysFile {
    /// It could not be opened.
    Unopened,
    /// It was opened, but nothing could be learnt about it.
    NoMetadata,
    /// It was opened. The text is there if the file is no larger than allowed
    /// and could be read as text.
    Opened { modified: Option<i128>, len: u64, text: Option<String> },
}

/// What came of asking for the key file's fingerprint.
#[derive(Clone, Copy, Debug, PartialEq, Eq, Structural)]
pub enum KeysStat {
    /// The file is there.
    Present { modified: Option<i128>, len: u64 },
    /// There is no such file.
    NotFound,
    /// The system did not answer.
    Unknown,
}

/// What a reading of the key file amounts to.
pub open spec fn file_outcome(
    file: KeysFile,
    path: Seq<char>,
    max_size: nat,
    max_entries: nat,
) -> Result<(CacheView, AuthorizedKeysFingerprint), KeysErrorView> {
    match file {
        KeysFile::Unopened => Err(KeysErrorView::Unreadable { path }),
        KeysFile::NoMetadata => Err(KeysErrorView::NoMetadata { path }),
        KeysFile::Opened { modified, len, text } => if len > max_size {
            Err(KeysErrorView::TooLarge { path, max_size })
        } else {
            match text {
                None => Err(KeysErrorView::Unreadable { path }),
                Some(text) => {
                    let entries = authorized_keys_entries(text@);
                    match accepted(entries, entries.len(), max_entries) {
                        Err(e) => Err(e),
                        Ok(cache) => Ok(
                            (
                                cache,
                                AuthorizedKeysFingerprint {
                                    modified,
                                    len: Some(len),
                                    missing: false,
                                },
                            ),
                        ),
                    }
                },
            }
        },
    }
}

/// What the result of a reading stands for.
pub open spec fn reading(r: Result<(AuthorizedKeysCache, AuthorizedKeysFingerprint), KeysError>) -> Result<
    (CacheView, AuthorizedKeysFingerprint),
    KeysErrorView,
> {
    match r {
        Ok((cache, fingerprint)) => Ok((cache@, fingerprint)),
        Err(e) => Err(e@),
    }
}

impl AuthorizedKeysCache {
    /// Takes the keys out of a key file that has been read.
    pub fn load(file: KeysFile, path: &str, max_size: usize, max_entries: usize) -> (r: Result<
        (Self, AuthorizedKeysFingerprint),
        KeysError,
    >)
        ensures
            reading(r) == file_outcome(file, path@, max_size as nat, max_entries as nat),
    {
        match file {
            KeysFile::Unopened => Err(KeysError::Unreadable { path: String::from_str(path) }),
            KeysFile::NoMetadata => Err(KeysError::NoMetadata { path: String::from_str(path) }),
            KeysFile::Opened { modified, len, text } => {
                if len > max_size as u64 {
                    return Err(KeysError::TooLarge { path: String::from_str(path), max_size });
                }
                match text {
                    None => Err(KeysError::Unreadable { path: String::from_str(path) }),
                    Some(text) => match Self::from_text(text.as_str(), max_entries) {
                        Err(e) => Err(e),
                        Ok(cache) => Ok(
                            (cache, AuthorizedKeysFingerprint::from_metadata(modified, len)),
                        ),
                    },
                }
            },
        }
    }
}

/// How the last reading of the key file went.
#[derive(Clone, Debug, PartialEq, Eq)]
pub enum AuthorizedKeysReloadStatus {
    Loaded,
    Missing,
    Failed(String),
}

/// What an `AuthorizedKeysReloadStatus` says.
pub enum ReloadStatusView {
    Loaded,
    Missing,
    Failed(Seq<char>),
}

impl View for AuthorizedKeysReloadStatus {
    type V = ReloadStatusView;

    open spec fn view(&self) -> ReloadStatusView {
        match self {
            AuthorizedKeysReloadStatus::Loaded => ReloadStatusView::Loaded,
            AuthorizedKeysReloadStatus::Missing => ReloadStatusView::Missing,
            AuthorizedKeysReloadStatus::Failed(message) => ReloadStatusView::Failed(message@),
        }
    }
}

/// What a reading of a changed key file led to.
#[derive(Clone, Debug, PartialEq, Eq)]
pub enum AuthorizedKeysReloadEvent {
    Loaded { generation: u64, ignored_entries: usize },
    Missing,
    Failed(String),
}

/// What an `AuthorizedKeysReloadEvent` says.
pub enum ReloadEventView {
    Loaded { generation: u64, ignored_entries: nat },
    Missing,
    Failed(Seq<char>),
}

impl View for AuthorizedKeysReloadEvent {
    type V = ReloadEventView;

    open spec fn view(&self) -> ReloadEventView {
        match self {
            AuthorizedKeysReloadEvent::Loaded { generation, ignored_entries } =>
                ReloadEventView::Loaded {
                generation: *generation,
                ignored_entries: *ignored_entries as nat,
            },
            AuthorizedKeysReloadEvent::Missing => ReloadEventView::Missing,
            AuthorizedKeysReloadEvent::Failed(message) => ReloadEventView::Failed(message@),
        }
    }
}

/// A summary of the store.
#[derive(Clone, Debug, PartialEq, Eq)]
pub struct AuthorizedKeysStatus {
    pub generation: u64,
    pub ignored_entries: usize,
    pub last_reload_status: AuthorizedKeysReloadStatus,
}

/// What the store holds.
pub struct StoreView {
    pub path: Seq<char>,
    pub max_size: usize,
    pub max_entries: usize,
    pub reload_interval: Duration,
    /// The keys that may log in.
    pub cache: CacheView,
    /// How many key files have been taken.
    pub generation: u64,
    /// The version of the file that the store is up to date with.
    pub observed: AuthorizedKeysFingerprint,
    /// The version of the file that could not be taken last.
    pub last_failed: Option<AuthorizedKeysFingerprint>,
    pub status: ReloadStatusView,
    /// The clock reading from which on the file is looked at again.
    pub next_check_at: nat,
}

/// The fingerprint that `stat` tells of.
pub open spec fn fingerprint_of(stat: KeysStat) -> Option<AuthorizedKeysFingerprint> {
    match stat {
        KeysStat::Present { modified, len } => Some(
            AuthorizedKeysFingerprint { modified, len: Some(len), missing: false },
        ),
        KeysStat::NotFound => Some(AuthorizedKeysFingerprint::of_missing()),
        KeysStat::Unknown => None,
    }
}

impl StoreView {
    /// The store once the time of the next check has come.
    pub open spec fn checked(self, now: Instant) -> StoreView {
        StoreView { next_check_at: (now.nanos + self.reload_interval.total()) as nat, ..self }
    }

    /// Whether a file with this fingerprint is worth reading: it is neither the
    /// one that was taken last nor the one that failed last.
    pub open spec fn wants(self, current: AuthorizedKeysFingerprint) -> bool {
        current != self.observed && self.last_failed != Some(current)
    }

    /// What a reading of the changed file leads to.
    pub open spec fn reloaded(self, current: AuthorizedKeysFingerprint, file: KeysFile) -> (
        StoreView,
        ReloadEventView,
    ) {
        match file_outcome(file, self.path, self.max_size as nat, self.max_entries as nat) {
            Ok((cache, fingerprint)) => {
                let generation = if self.generation < u64::MAX {
                    (self.generation + 1) as u64
                } else {
                    u64::MAX
                };
                (
                    StoreView {
                        cache,
                        generation,
                        observed: fingerprint,
                        last_failed: None,
                        status: ReloadStatusView::Loaded,
                        ..self
                    },
                    ReloadEventView::Loaded { generation, ignored_entries: cache.ignored },
                )
            },
            Err(e) => if current == AuthorizedKeysFingerprint::of_missing() {
                (
                    StoreView {
                        observed: current,
                        last_failed: None,
                        status: ReloadStatusView::Missing,
                        ..self
                    },
                    ReloadEventView::Missing,
                )
            } else {
                (
                    StoreView {
                        last_failed: Some(current),
                        status: ReloadStatusView::Failed(e.message()),
                        ..self
                    },
                    ReloadEventView::Failed(e.message()),
                )
            },
        }
    }
}

/// The keys that may log in, kept up to date with their file.
pub struct AuthorizedKeysStore {
    path: String,
    max_size: usize,
    max_entries: usize,
    reload_interval: Duration,
    cache: AuthorizedKeysCache,
    generation: u64,
    observed_fingerprint: AuthorizedKeysFingerprint,
    last_failed_reload_fingerprint: Option<AuthorizedKeysFingerprint>,
    last_reload_status: AuthorizedKeysReloadStatus,
    next_reload_check_at: u128,
}

impl View for AuthorizedKeysStore {
    type V = StoreView;

    closed spec fn view(&self) -> StoreView {
        StoreView {
            path: self.path@,
            max_size: self.max_size,
            max_entries: self.max_entries,
            reload_interval: self.reload_interval,
            cache: self.cache@,
            generation: self.generation,
            observed: self.observed_fingerprint,
            last_failed: self.last_failed_reload_fingerprint,
            status: self.last_reload_status@,
            next_check_at: self.next_reload_check_at as nat,
        }
    }
}

impl AuthorizedKeysStore {
    /// Starts from a key file that has been read.
    pub fn load(
        path: String,
        max_size: usize,
        max_entries: usize,
        reload_interval: Duration,
        file: KeysFile,
        now: Instant,
    ) -> (r: Result<Self, KeysError>)
        ensures
            match file_outcome(file, path@, max_size as nat, max_entries as nat) {
                Ok((cache, fingerprint)) => r is Ok && r->Ok_0@ == (StoreView {
                    path: path@,
                    max_size,
                    max_entries,
                    reload_interval,
                    cache,
                    generation: 1,
                    observed: fingerprint,
                    last_failed: None,
                    status: ReloadStatusView::Loaded,
                    next_check_at: (now.nanos + reload_interval.total()) as nat,
                }),
                Err(e) => r is Err && r->Err_0@ == e,
            },
    {
        match AuthorizedKeysCache::load(file, path.as_str(), max_size, max_entries) {
            Err(e) => Err(e),
            Ok((cache, fingerprint)) => Ok(
                AuthorizedKeysStore {
                    path,
                    max_size,
                    max_entries,
                    reload_interval,
                    cache,
                    generation: 1,
                    observed_fingerprint: fingerprint,
                    last_failed_reload_fingerprint: None,
                    last_reload_status: AuthorizedKeysReloadStatus::Loaded,
                    next_reload_check_at: now.after(reload_interval),
                },
            ),
        }
    }

    /// Starts without a key file: nobody may log in.
    pub fn empty_missing(
        path: String,
        max_size: usize,
        max_entries: usize,
        reload_interval: Duration,
        now: Instant,
    ) -> (r: Self)
        ensures
            r@ == (StoreView {
                path: path@,
                max_size,
                max_entries,
                reload_interval,
                cache: CacheView { keys: Seq::empty(), ignored: 0 },
                generation: 0,
                observed: AuthorizedKeysFingerprint::of_missing(),
                last_failed: None,
                status: ReloadStatusView::Missing,
                next_check_at: (now.nanos + reload_interval.total()) as nat,
            }),
    {
        AuthorizedKeysStore {
            path,
            max_size,
            max_entries,
            reload_interval,
            cache: AuthorizedKeysCache::empty(),
            generation: 0,
            observed_fingerprint: AuthorizedKeysFingerprint::missing(),
            last_failed_reload_fingerprint: None,
            last_reload_status: AuthorizedKeysReloadStatus::Missing,
            next_reload_check_at: now.after(reload_interval),
        }
    }

    /// Whether the file is to be looked at now; if so, the next time is set.
    pub fn begin_check(&mut self, now: Instant) -> (r: bool)
        ensures
            r == (now.nanos >= old(self)@.next_check_at),
            final(self)@ == (if r {
                old(self)@.checked(now)
            } else {
                old(self)@
            }),
    {
        if (now.nanos as u128) < self.next_reload_check_at {
            false
        } else {
            self.next_reload_check_at = now.after(self.reload_interval);
            true
        }
    }

    /// Whether a file with this fingerprint is worth reading.
    pub fn wants(&self, current: AuthorizedKeysFingerprint) -> (r: bool)
        ensures
            r == self@.wants(current),
    {
        if current == self.observed_fingerprint {
            return false;
        }
        match self.last_failed_reload_fingerprint {
            Some(failed) => failed != current,
            None => true,
        }
    }

    /// Takes a changed file that has been read, if it can be used.
    pub fn finish_reload(&mut self, current: AuthorizedKeysFingerprint, file: KeysFile) -> (r:
        AuthorizedKeysReloadEvent)
        ensures
            (final(self)@, r@) == old(self)@.reloaded(current, file),
    {
        match AuthorizedKeysCache::load(
            file,
            self.path.as_str(),
            self.max_size,
            self.max_entries,
        ) {
            Ok((cache, fingerprint)) => {
                let ignored_entries = cache.ignored_entries();
                self.cache = cache;
                self.generation = self.generation.saturating_add(1);
                self.observed_fingerprint = fingerprint;
                self.last_failed_reload_fingerprint = None;
                self.last_reload_status = AuthorizedKeysReloadStatus::Loaded;
                AuthorizedKeysReloadEvent::Loaded { generation: self.generation, ignored_entries }
            },
            Err(e) => {
                if current == AuthorizedKeysFingerprint::missing() {
                    self.observed_fingerprint = AuthorizedKeysFingerprint::missing();
                    self.last_failed_reload_fingerprint = None;
                    self.last_reload_status = AuthorizedKeysReloadStatus::Missing;
                    AuthorizedKeysReloadEvent::Missing
                } else {
                    let message = e.message();
                    self.last_failed_reload_fingerprint = Some(current);
                    self.last_reload_status = AuthorizedKeysReloadStatus::Failed(
                        String::from_str(message.as_str()),
                    );
                    AuthorizedKeysReloadEvent::Failed(message)
                }
            },
        }
    }

    /// Looks at the file if the time for it has come, and takes it if it has
    /// changed. `stat` asks the system for its fingerprint, `read` reads it.
    pub fn refresh_if_due<S: FnOnce() -> KeysStat, R: FnOnce() -> KeysFile>(
        &mut self,
        now: Instant,
        stat: S,
        read: R,
    ) -> (r: Result<Option<AuthorizedKeysReloadEvent>, KeysError>)
        requires
            now.nanos >= old(self)@.next_check_at ==> stat.requires(()),
            forall|s: KeysStat|
                now.nanos >= old(self)@.next_check_at && #[trigger] stat.ensures((), s) && (
                fingerprint_of(s) matches Some(current) && old(self)@.checked(now).wants(current))
                    ==> read.requires(()),
        ensures
            now.nanos < old(self)@.next_check_at ==> {
                &&& final(self)@ == old(self)@
                &&& r matches Ok(None)
            },
            now.nanos >= old(self)@.next_check_at ==> exists|s: KeysStat| #[trigger]
                stat.ensures((), s) && {
                    let checked = old(self)@.checked(now);
                    match fingerprint_of(s) {
                        None => final(self)@ == checked && r is Err && r->Err_0@
                            == (KeysErrorView::NoMetadata { path: checked.path }),
                        Some(current) => if checked.wants(current) {
                            exists|file: KeysFile| #[trigger]
                                read.ensures((), file) && {
                                    let (after, event) = checked.reloaded(current, file);
                                    &&& final(self)@ == after
                                    &&& r matches Ok(Some(e)) && e@ == event
                                }
                        } else {
                            final(self)@ == checked && (r matches Ok(None))
                        },
                    }
                },
    {
        if !self.begin_check(now) {
            return Ok(None);
        }
        let current = match stat() {
            KeysStat::Present { modified, len } => AuthorizedKeysFingerprint::from_metadata(
                modified,
                len,
            ),
            KeysStat::NotFound => AuthorizedKeysFingerprint::missing(),
            KeysStat::Unknown => {
                return Err(KeysError::NoMetadata { path: String::from_str(self.path.as_str()) });
            },
        };
        if !self.wants(current) {
            return Ok(None);
        }
        let file = read();
        Ok(Some(self.finish_reload(current, file)))
    }

    /// Whether an offered key, given by its encoding if it has one, may log in.
    pub fn contains(&self, key: &Option<Vec<u8>>) -> (r: Result<bool, KeysError>)
        ensures
            match key {
                Some(key) => r == Ok::<bool, KeysError>(self@.cache.keys.contains(key@)),
                None => r is Err && r->Err_0@ == KeysErrorView::BadOfferedKey,
            },
    {
        self.cache.contains(key)
    }

    pub fn status(&self) -> (r: AuthorizedKeysStatus)
        ensures
            r.generation == self@.generation,
            r.ignored_entries == self@.cache.ignored,
            r.last_reload_status@ == self@.status,
    {
        let last_reload_status = match &self.last_reload_status {
            AuthorizedKeysReloadStatus::Loaded => AuthorizedKeysReloadStatus::Loaded,
            AuthorizedKeysReloadStatus::Missing => AuthorizedKeysReloadStatus::Missing,
            AuthorizedKeysReloadStatus::Failed(message) => AuthorizedKeysReloadStatus::Failed(
                String::from_str(message.as_str()),
            ),
        };
        AuthorizedKeysStatus {
            generation: self.generation,
            ignored_entries: self.cache.ignored_entries(),
            last_reload_status,
        }
    }
}

/// The entries that are free of options.
pub open spec fn is_plain_key(
    entry: Result<(bool, Option<Seq<u8>>), Seq<char>>,
    key: Seq<u8>,
) -> bool {
    entry == Ok::<(bool, Option<Seq<u8>>), Seq<char>>((true, Some(key)))
}

/// The accepted keys are those of the entries without options, all of them, in
/// order and each once; an entry with options never lets its key in.
pub proof fn law_only_plain_entries_are_accepted(
    entries: Seq<Result<(bool, Option<Seq<u8>>), Seq<char>>>,
    n: nat,
    max_entries: nat,
)
    requires
        n <= entries.len(),
    ensures
        accepted(entries, n, max_entries) matches Ok(cache) ==> {
            &&& n <= max_entries || n == 0
            &&& cache.keys.no_duplicates()
            &&& cache.keys.len() + cache.ignored == n
            &&& forall|key: Seq<u8>| #[trigger]
                cache.keys.contains(key) <==> exists|i: int|
                    0 <= i < n && is_plain_key(#[trigger] entries[i], key)
        },
    decreases n,
{
    if n > 0 {
        let m = (n - 1) as nat;
        law_only_plain_entries_are_accepted(entries, m, max_entries);
        if accepted(entries, n, max_entries) is Ok {
            let before = accepted(entries, m, max_entries)->Ok_0;
            let after = accepted(entries, n, max_entries)->Ok_0;
            assert forall|key: Seq<u8>| #[trigger]
                after.keys.contains(key) <==> exists|i: int|
                    0 <= i < n && is_plain_key(#[trigger] entries[i], key) by {
                if after.keys.contains(key) {
                    if before.keys.contains(key) {
                        let i = choose|i: int| 0 <= i < m && is_plain_key(#[trigger] entries[i], key);
                        assert(0 <= i < n && is_plain_key(entries[i], key));
                    } else {
                        assert(is_plain_key(entries[n - 1], key));
                    }
                }
                if exists|i: int| 0 <= i < n && is_plain_key(#[trigger] entries[i], key) {
                    let i = choose|i: int| 0 <= i < n && is_plain_key(#[trigger] entries[i], key);
                    if i < m {
                        assert(before.keys.contains(key));
                        let j = choose|j: int| 0 <= j < before.keys.len() && before.keys[j] == key;
                        assert(after.keys[j] == key);
                    } else {
                        assert(after.keys.last() == key);
                    }
                }
            }
        }
    }
}

/// A key file that cannot be used leaves the keys in force as they were.
pub proof fn law_failed_reload_keeps_keys(
    store: StoreView,
    current: AuthorizedKeysFingerprint,
    file: KeysFile,
)
    requires
        file_outcome(file, store.path, store.max_size as nat, store.max_entries as nat) is Err,
    ensures
        store.reloaded(current, file).0.cache == store.cache,
        store.reloaded(current, file).0.generation == store.generation,
        !(store.reloaded(current, file).1 is Loaded),
{
}

/// After a reading, whatever came of it, the same version of the file is not
/// read again.
pub proof fn law_same_file_is_read_once(
    store: StoreView,
    current: AuthorizedKeysFingerprint,
    file: KeysFile,
)
    requires
        file matches KeysFile::Opened { modified, len, .. } ==> current
            == (AuthorizedKeysFingerprint { modified, len: Some(len), missing: false }),
    ensures
        !store.reloaded(current, file).0.wants(current),
{
}

/// A key file whose time or length is not that of the version in force is read,
/// unless that version has just failed; the version in force is not.
pub proof fn law_changed_file_is_read(store: StoreView, modified: Option<i128>, len: u64)
    ensures
        fingerprint_of(KeysStat::Present { modified, len }) matches Some(current) && {
            &&& store.wants(current) <==> {
                &&& store.observed.missing || store.observed.modified != modified
                    || store.observed.len != Some(len)
                &&& !(store.last_failed matches Some(failed) && !failed.missing
                    && failed.modified == modified && failed.len == Some(len))
            }
        },
{
}

/// A key file that has gone is noticed, unless it was gone before; one that the
/// system says nothing of is not told apart.
pub proof fn law_vanished_file_is_noticed(store: StoreView)
    requires
        store.last_failed is None,
        store.observed.missing ==> store.observed.modified is None && store.observed.len is None,
    ensures
        fingerprint_of(KeysStat::NotFound) matches Some(current) && current.missing
            && store.wants(current) == !store.observed.missing,
        fingerprint_of(KeysStat::Unknown) is None,
{
}

/// Whether a list of entries can be taken: not too many, each of them readable,
/// and the keys without options encoded and all different.
pub open spec fn usable(
    entries: Seq<Result<(bool, Option<Seq<u8>>), Seq<char>>>,
    max_entries: nat,
) -> bool {
    &&& entries.len() <= max_entries
    &&& forall|i: int| 0 <= i < entries.len() ==> (#[trigger] entries[i]) is Ok
    &&& forall|i: int|
        0 <= i < entries.len() && (#[trigger] entries[i])->Ok_0.0 ==> entries[i]->Ok_0.1 is Some
    &&& forall|i: int, j: int|
        0 <= i < j < entries.len() && (#[trigger] entries[i])->Ok_0.0 && (
        #[trigger] entries[j])->Ok_0.0 ==> entries[i] != entries[j]
}

proof fn lemma_usable_is_accepted(
    entries: Seq<Result<(bool, Option<Seq<u8>>), Seq<char>>>,
    n: nat,
    max_entries: nat,
)
    requires
        usable(entries, max_entries),
        n <= entries.len(),
    ensures
        accepted(entries, n, max_entries) is Ok,
    decreases n,
{
    if n > 0 {
        let m = (n - 1) as nat;
        lemma_usable_is_accepted(entries, m, max_entries);
        law_only_plain_entries_are_accepted(entries, m, max_entries);
        let before = accepted(entries, m, max_entries)->Ok_0;
        assert(entries[n - 1] is Ok);
        if entries[n - 1]->Ok_0.0 {
            let key = entries[n - 1]->Ok_0.1->0;
            if before.keys.contains(key) {
                let i = choose|i: int| 0 <= i < m && is_plain_key(#[trigger] entries[i], key);
                assert(entries[i] == entries[n - 1]);
            }
        }
    }
}

proof fn lemma_accepted_is_usable(
    entries: Seq<Result<(bool, Option<Seq<u8>>), Seq<char>>>,
    n: nat,
    max_entries: nat,
)
    requires
        n <= entries.len(),
        accepted(entries, n, max_entries) is Ok,
    ensures
        usable(entries.take(n as int), max_entries),
    decreases n,
{
    let part = entries.take(n as int);
    if n > 0 {
        let m = (n - 1) as nat;
        lemma_accepted_is_usable(entries, m, max_entries);
        law_only_plain_entries_are_accepted(entries, m, max_entries);
        let less = entries.take(m as int);
        let before = accepted(entries, m, max_entries)->Ok_0;
        assert forall|i: int| 0 <= i < n implies (#[trigger] part[i]) is Ok by {
            assert(i < m ==> part[i] == less[i]);
        }
        assert forall|i: int| 0 <= i < n && (#[trigger] part[i])->Ok_0.0 implies part[i]->Ok_0.1
            is Some by {
            assert(i < m ==> part[i] == less[i]);
        }
        assert forall|i: int, j: int|
            0 <= i < j < n && (#[trigger] part[i])->Ok_0.0 && (#[trigger] part[j])->Ok_0.0 implies
            part[i] != part[j] by {
            assert(part[i] == less[i]);
            if j < m {
                assert(part[j] == less[j]);
            } else {
                assert(entries[i] is Ok) by {
                    assert(less[i] is Ok);
                }
                assert(is_plain_key(entries[i], less[i]->Ok_0.1->0));
                assert(before.keys.contains(less[i]->Ok_0.1->0));
            }
        }
    }
}

/// A list of entries is taken if and only if it can be: within the limit, each
/// entry readable, and the keys without options encoded and all different.
pub proof fn law_usable_entries_are_taken(
    entries: Seq<Result<(bool, Option<Seq<u8>>), Seq<char>>>,
    max_entries: nat,
)
    ensures
        accepted(entries, entries.len(), max_entries) is Ok <==> (entries.len() == 0 || usable(
            entries,
            max_entries,
        )),
{
    let n = entries.len();
    assert(entries.take(n as int) =~= entries);
    if usable(entries, max_entries) {
        lemma_usable_is_accepted(entries, n, max_entries);
    }
    if accepted(entries, n, max_entries) is Ok {
        lemma_accepted_is_usable(entries, n, max_entries);
    }
}

/// The first entry that cannot be taken decides what is wrong with a key file:
/// there are too many, it cannot be read, its key has no encoding, or its key
/// has come before.
pub proof fn law_first_bad_entry_is_told(
    entries: Seq<Result<(bool, Option<Seq<u8>>), Seq<char>>>,
    i: nat,
    max_entries: nat,
)
    requires
        i < entries.len(),
        accepted(entries, i, max_entries) is Ok,
        accepted(entries, i + 1, max_entries) is Err,
    ensures
        accepted(entries, entries.len(), max_entries) matches Err(e) && {
            &&& i >= max_entries ==> e == (KeysErrorView::TooManyEntries { max_entries })
            &&& i < max_entries ==> match entries[i as int] {
                Err(message) => e == (KeysErrorView::BadEntry { message }),
                Ok((plain, None)) => plain && e is BadKey,
                Ok((plain, Some(key))) => plain && e is DuplicateKey && exists|j: int|
                    0 <= j < i && #[trigger] entries[j] == entries[i as int],
            }
        },
{
    lemma_accepted_error_stays(entries, i + 1, entries.len(), max_entries);
    law_only_plain_entries_are_accepted(entries, i, max_entries);
    if i < max_entries && entries[i as int] is Ok && entries[i as int]->Ok_0.1 is Some {
        let key = entries[i as int]->Ok_0.1->0;
        let before = accepted(entries, i, max_entries)->Ok_0;
        assert(before.keys.contains(key));
        let j = choose|j: int| 0 <= j < i && is_plain_key(#[trigger] entries[j], key);
        assert(entries[j] == entries[i as int]);
    }
}

/// A changed key file that can be used takes effect: the keys in force are
/// exactly those of its entries without options, it is counted as one more, it
/// is the version that the store is up to date with, and a failure before it is
/// forgotten. Nothing else changes.
pub proof fn law_usable_file_takes_effect(
    store: StoreView,
    current: AuthorizedKeysFingerprint,
    modified: Option<i128>,
    len: u64,
    text: String,
)
    requires
        len <= store.max_size,
        usable(authorized_keys_entries(text@), store.max_entries as nat),
    ensures
        ({
            let entries = authorized_keys_entries(text@);
            let file = KeysFile::Opened { modified, len, text: Some(text) };
            let (after, event) = store.reloaded(current, file);
            &&& forall|key: Seq<u8>| #[trigger]
                after.cache.keys.contains(key) <==> exists|i: int|
                    0 <= i < entries.len() && #[trigger] entries[i] == Ok::<
                        (bool, Option<Seq<u8>>),
                        Seq<char>,
                    >((true, Some(key)))
            &&& after.cache.keys.len() + after.cache.ignored == entries.len()
            &&& store.generation < u64::MAX ==> after.generation == store.generation + 1
            &&& event == (ReloadEventView::Loaded {
                generation: after.generation,
                ignored_entries: after.cache.ignored,
            })
            &&& after.status is Loaded
            &&& after.observed.modified == modified
            &&& after.observed.len == Some(len)
            &&& !after.observed.missing
            &&& after.last_failed is None
            &&& after.path == store.path
            &&& after.max_size == store.max_size
            &&& after.max_entries == store.max_entries
            &&& after.reload_interval == store.reload_interval
            &&& after.next_check_at == store.next_check_at
        }),
{
    let entries = authorized_keys_entries(text@);
    let file = KeysFile::Opened { modified, len, text: Some(text) };
    law_usable_entries_are_taken(entries, store.max_entries as nat);
    law_only_plain_entries_are_accepted(entries, entries.len(), store.max_entries as nat);
    let after = store.reloaded(current, file).0;
    assert forall|key: Seq<u8>| #[trigger]
        after.cache.keys.contains(key) <==> exists|i: int|
            0 <= i < entries.len() && #[trigger] entries[i] == Ok::<
                (bool, Option<Seq<u8>>),
                Seq<char>,
            >((true, Some(key))) by {
        if after.cache.keys.contains(key) {
            let i = choose|i: int| 0 <= i < entries.len() && is_plain_key(#[trigger] entries[i], key);
            assert(entries[i] == Ok::<(bool, Option<Seq<u8>>), Seq<char>>((true, Some(key))));
        }
        if exists|i: int|
            0 <= i < entries.len() && #[trigger] entries[i] == Ok::<
                (bool, Option<Seq<u8>>),
                Seq<char>,
            >((true, Some(key))) {
            let i = choose|i: int|
                0 <= i < entries.len() && #[trigger] entries[i] == Ok::<
                    (bool, Option<Seq<u8>>),
                    Seq<char>,
                >((true, Some(key)));
            assert(is_plain_key(entries[i], key));
        }
    }
}

/// A key file that cannot be used is told apart by why: it is not there, or
/// this version of it failed. Either way the keys in force stay; a file that is
/// not there is what the store is then up to date with, a version that failed is
/// remembered and the one in force is not forgotten.
pub proof fn law_unusable_file_is_remembered(
    store: StoreView,
    current: AuthorizedKeysFingerprint,
    file: KeysFile,
)
    requires
        file_outcome(file, store.path, store.max_size as nat, store.max_entries as nat) is Err,
        current.missing ==> current.modified is None && current.len is None,
    ensures
        ({
            let (after, event) = store.reloaded(current, file);
            &&& after.cache == store.cache
            &&& after.generation == store.generation
            &&& after.next_check_at == store.next_check_at
            &&& current.missing ==> event is Missing && after.status is Missing
                && after.observed.missing && after.last_failed is None
            &&& !current.missing ==> event is Failed && after.status is Failed
                && after.observed == store.observed && after.last_failed == Some(current)
        }),
{
}

/// A key file is refused for the first of these that holds: it cannot be opened,
/// nothing can be learnt of it, it is larger than allowed, its text cannot be
/// read; a file of the allowed size is not too large.
pub proof fn law_unreadable_file_is_refused(
    file: KeysFile,
    path: Seq<char>,
    max_size: nat,
    max_entries: nat,
)
    ensures
        ({
            let outcome = file_outcome(file, path, max_size, max_entries);
            &&& file is Unopened ==> outcome is Err && outcome->Err_0 == (
            KeysErrorView::Unreadable { path })
            &&& file is NoMetadata ==> outcome is Err && outcome->Err_0 == (
            KeysErrorView::NoMetadata { path })
            &&& file matches KeysFile::Opened { len, text, .. } ==> {
                &&& len > max_size <==> outcome == Err::<
                    (CacheView, AuthorizedKeysFingerprint),
                    KeysErrorView,
                >(KeysErrorView::TooLarge { path, max_size })
                &&& len <= max_size && text is None ==> outcome is Err && outcome->Err_0 == (
                KeysErrorView::Unreadable { path })
                &&& len <= max_size && text is Some && usable(
                    authorized_keys_entries(text->0@),
                    max_entries,
                ) ==> outcome is Ok
            }
        }),
{
    if file is Opened {
        let text = file->text;
        if text is Some {
            let entries = authorized_keys_entries(text->0@);
            law_usable_entries_are_taken(entries, max_entries);
            if accepted(entries, entries.len(), max_entries) is Err {
                lemma_entry_errors(entries, entries.len(), max_entries);
            }
        }
    }
}

proof fn lemma_entry_errors(
    entries: Seq<Result<(bool, Option<Seq<u8>>), Seq<char>>>,
    n: nat,
    max_entries: nat,
)
    ensures
        accepted(entries, n, max_entries) matches Err(e) ==> !(e is TooLarge),
    decreases n,
{
    if n > 0 {
        lemma_entry_errors(entries, (n - 1) as nat, max_entries);
    }
}

/// The key file is looked at when its time has come and not before, and the
/// next time lies one interval behind it.
pub proof fn law_file_is_looked_at_in_intervals(
    store: &mut AuthorizedKeysStore,
    now: Instant,
    due: bool,
)
    requires
        call_ensures(AuthorizedKeysStore::begin_check, (store, now), due),
    ensures
        due <==> old(store)@.next_check_at <= now.nanos,
        due ==> final(store)@.next_check_at == now.nanos
            + old(store)@.reload_interval.secs * 1_000_000_000
            + old(store)@.reload_interval.nanos,
        !due ==> final(store)@.next_check_at == old(store)@.next_check_at,
        final(store)@.cache == old(store)@.cache,
        final(store)@.observed == old(store)@.observed,
        final(store)@.last_failed == old(store)@.last_failed,
        final(store)@.generation == old(store)@.generation,
{
}

/// A key logs in if it is in force, and only then.
pub proof fn law_only_keys_in_force_are_known(
    store: &AuthorizedKeysStore,
    key: &Option<Vec<u8>>,
    known: Result<bool, KeysError>,
)
    requires
        call_ensures(AuthorizedKeysStore::contains, (store, key), known),
    ensures
        key matches Some(key) ==> (known matches Ok(b) && (b <==> exists|i: int|
            0 <= i < store@.cache.keys.len() && #[trigger] store@.cache.keys[i] == key@)),
        key is None ==> known is Err,
{
}

/// A store that starts without a key file lets nobody in, and takes the file
/// once there is one.
pub proof fn law_store_without_file_lets_nobody_in(
    path: String,
    max_size: usize,
    max_entries: usize,
    reload_interval: Duration,
    now: Instant,
    store: AuthorizedKeysStore,
    modified: Option<i128>,
    len: u64,
)
    requires
        call_ensures(
            AuthorizedKeysStore::empty_missing,
            (path, max_size, max_entries, reload_interval, now),
            store,
        ),
    ensures
        store@.cache.keys.len() == 0,
        store@.generation == 0,
        store@.path == path@,
        store@.max_size == max_size,
        store@.max_entries == max_entries,
        store@.next_check_at == now.nanos + reload_interval.secs * 1_000_000_000
            + reload_interval.nanos,
        store@.wants(fingerprint_of(KeysStat::Present { modified, len })->0),
        !store@.wants(fingerprint_of(KeysStat::NotFound)->0),
{
}

/// When the key file is looked at and is there in another version than the one
/// that the store is up to date with, by its time or by its length, and that
/// version has not failed before, it is read; if it can be used, the keys in
/// force are then exactly those of its entries without options, and it is
/// counted as one more.
pub proof fn law_due_look_takes_a_changed_file<
    S: FnOnce() -> KeysStat,
    R: FnOnce() -> KeysFile,
>(
    store: &mut AuthorizedKeysStore,
    now: Instant,
    stat: S,
    read: R,
    r: Result<Option<AuthorizedKeysReloadEvent>, KeysError>,
    modified: Option<i128>,
    len: u64,
    text: String,
)
    requires
        call_ensures(AuthorizedKeysStore::refresh_if_due::<S, R>, (store, now, stat, read), r),
        old(store)@.next_check_at <= now.nanos,
        forall|s: KeysStat| #[trigger]
            stat.ensures((), s) ==> s == (KeysStat::Present { modified, len }),
        forall|f: KeysFile| #[trigger]
            read.ensures((), f) ==> f == (KeysFile::Opened { modified, len, text: Some(text) }),
        old(store)@.observed.missing || old(store)@.observed.modified != modified || old(store)@.observed.len != Some(len),
        old(store)@.last_failed is None || old(store)@.last_failed->0.modified != modified || old(store)@.last_failed->0.len != Some(len),
        len <= old(store)@.max_size,
        usable(authorized_keys_entries(text@), old(store)@.max_entries as nat),
        old(store)@.generation < u64::MAX,
    ensures
        r is Ok && r->Ok_0 is Some && r->Ok_0->0@ is Loaded,
        ({
            let entries = authorized_keys_entries(text@);
            forall|key: Seq<u8>| #[trigger]
                final(store)@.cache.keys.contains(key) <==> exists|i: int|
                    0 <= i < entries.len() && #[trigger] entries[i] == Ok::<
                        (bool, Option<Seq<u8>>),
                        Seq<char>,
                    >((true, Some(key)))
        }),
        final(store)@.generation == old(store)@.generation + 1,
        final(store)@.observed.modified == modified,
        final(store)@.observed.len == Some(len),
        final(store)@.next_check_at == now.nanos + old(store)@.reload_interval.secs * 1_000_000_000
            + old(store)@.reload_interval.nanos,
{
    let current = AuthorizedKeysFingerprint { modified, len: Some(len), missing: false };
    let checked = old(store)@.checked(now);
    assert(fingerprint_of(KeysStat::Present { modified, len }) == Some(current));
    assert(checked.wants(current));
    law_usable_file_takes_effect(checked, current, modified, len, text);
}

/// The key file is not read before its time, nor in the version that the store
/// is up to date with, nor in the one that failed last; the keys in force stay.
pub proof fn law_same_version_is_left_alone<S: FnOnce() -> KeysStat, R: FnOnce() -> KeysFile>(
    store: &mut AuthorizedKeysStore,
    now: Instant,
    stat: S,
    read: R,
    r: Result<Option<AuthorizedKeysReloadEvent>, KeysError>,
    modified: Option<i128>,
    len: u64,
)
    requires
        call_ensures(AuthorizedKeysStore::refresh_if_due::<S, R>, (store, now, stat, read), r),
        forall|s: KeysStat| #[trigger]
            stat.ensures((), s) ==> s == (KeysStat::Present { modified, len }),
        ({
            let same = AuthorizedKeysFingerprint { modified, len: Some(len), missing: false };
            now.nanos < old(store)@.next_check_at || old(store)@.observed == same || old(store)@.last_failed == Some(same)
        }),
    ensures
        r is Ok && r->Ok_0 is None,
        final(store)@.cache == old(store)@.cache,
        final(store)@.generation == old(store)@.generation,
        final(store)@.observed == old(store)@.observed,
        final(store)@.last_failed == old(store)@.last_failed,
{
}

/// The status tells of the reading that is in force.
pub proof fn law_status_tells_of_the_last_reading(
    store: &AuthorizedKeysStore,
    status: AuthorizedKeysStatus,
    cache: &AuthorizedKeysCache,
    count: usize,
    ignored: usize,
)
    requires
        call_ensures(AuthorizedKeysStore::status, (store,), status),
        call_ensures(AuthorizedKeysCache::key_count, (cache,), count),
        call_ensures(AuthorizedKeysCache::ignored_entries, (cache,), ignored),
    ensures
        status.generation == store@.generation,
        status.ignored_entries == store@.cache.ignored,
        status.last_reload_status@ == store@.status,
        count == cache@.keys.len(),
        ignored == cache@.ignored,
{
}

/// What is wrong with the key file is told in words that name the file, the limit
/// or the entry.
pub proof fn law_key_file_errors_are_told_in_words(e: KeysError, words: String)
    requires
        call_ensures(KeysError::message, (&e,), words),
    ensures
        e is Unreadable <==> e@ is Unreadable,
        e is NoMetadata <==> e@ is NoMetadata,
        e is TooLarge <==> e@ is TooLarge,
        e is TooManyEntries <==> e@ is TooManyEntries,
        e is BadEntry <==> e@ is BadEntry,
        e is BadKey <==> e@ is BadKey,
        e is DuplicateKey <==> e@ is DuplicateKey,
        e is BadOfferedKey <==> e@ is BadOfferedKey,
        words@ == (match e@ {
            KeysErrorView::Unreadable { path } => "failed to read "@ + native_paths::shown(path),
            KeysErrorView::NoMetadata { path } => "failed to stat "@ + native_paths::shown(path),
            KeysErrorView::TooLarge { path, max_size } => "authorized keys file "@
                + native_paths::shown(path) + " exceeds configured size limit of "@ + text::decimal(max_size) + " bytes"@,
            KeysErrorView::TooManyEntries { max_entries } =>
                "authorized keys file exceeds configured entry limit of "@ + text::decimal(
                max_entries,
            ),
            KeysErrorView::BadEntry { message } => "failed to parse authorized_keys entry: "@
                + message,
            KeysErrorView::BadKey => "failed to serialize authorized public key"@,
            KeysErrorView::DuplicateKey =>
                "authorized keys file contains a duplicate plain key entry"@,
            KeysErrorView::BadOfferedKey => "failed to serialize offered public key"@,
        }),
{
}

/// A key that was read is known to the reading that holds it, and no other is; a
/// file that is told by its time and length is there, and a missing one is not.
pub proof fn law_reading_knows_its_keys(
    empty: AuthorizedKeysCache,
    cache: &AuthorizedKeysCache,
    key: &Vec<u8>,
    known: bool,
    offered: &Option<Vec<u8>>,
    answer: Result<bool, KeysError>,
    modified: Option<i128>,
    len: u64,
    seen: AuthorizedKeysFingerprint,
    missing: AuthorizedKeysFingerprint,
)
    requires
        call_ensures(AuthorizedKeysCache::empty, (), empty),
        call_ensures(AuthorizedKeysCache::contains_bytes, (cache, key), known),
        call_ensures(AuthorizedKeysCache::contains, (cache, offered), answer),
        call_ensures(AuthorizedKeysFingerprint::from_metadata, (modified, len), seen),
        call_ensures(AuthorizedKeysFingerprint::missing, (), missing),
    ensures
        empty@.keys.len() == 0 && empty@.ignored == 0,
        known <==> exists|i: int| 0 <= i < cache@.keys.len() && #[trigger] cache@.keys[i] == key@,
        *offered matches Some(k) ==> answer is Ok && (answer->Ok_0 <==> exists|i: int|
            0 <= i < cache@.keys.len() && #[trigger] cache@.keys[i] == k@),
        *offered is None ==> answer is Err && answer->Err_0 is BadOfferedKey,
        seen.modified == modified && seen.len == Some(len) && !seen.missing,
        missing.modified is None && missing.len is None && missing.missing,
{
}

/// A store that starts with a key file that can be used holds exactly the keys
/// of its entries without options, as the first reading.
pub proof fn law_store_starts_with_the_file(
    path: String,
    max_size: usize,
    max_entries: usize,
    reload_interval: Duration,
    modified: Option<i128>,
    len: u64,
    text: String,
    now: Instant,
    r: Result<AuthorizedKeysStore, KeysError>,
)
    requires
        call_ensures(
            AuthorizedKeysStore::load,
            (
                path,
                max_size,
                max_entries,
                reload_interval,
                KeysFile::Opened { modified, len, text: Some(text) },
                now,
            ),
            r,
        ),
        len <= max_size,
        usable(authorized_keys_entries(text@), max_entries as nat),
    ensures
        r is Ok,
        ({
            let entries = authorized_keys_entries(text@);
            let store = r->Ok_0@;
            &&& forall|key: Seq<u8>| #[trigger]
                store.cache.keys.contains(key) <==> exists|i: int|
                    0 <= i < entries.len() && #[trigger] entries[i] == Ok::<
                        (bool, Option<Seq<u8>>),
                        Seq<char>,
                    >((true, Some(key)))
            &&& store.generation == 1
            &&& store.path == path@
            &&& store.max_size == max_size
            &&& store.max_entries == max_entries
            &&& store.reload_interval == reload_interval
            &&& store.observed.modified == modified
            &&& store.observed.len == Some(len)
            &&& !store.observed.missing
            &&& store.last_failed is None
            &&& store.status is Loaded
            &&& store.next_check_at == now.nanos + reload_interval.secs * 1_000_000_000
                + reload_interval.nanos
        }),
{
    let file = KeysFile::Opened { modified, len, text: Some(text) };
    let any = r->Ok_0@;
    let blank = StoreView { path: path@, max_size, max_entries, ..any };
    law_unreadable_file_is_refused(file, path@, max_size as nat, max_entries as nat);
    law_usable_file_takes_effect(
        blank,
        AuthorizedKeysFingerprint { modified, len: Some(len), missing: false },
        modified,
        len,
        text,
    );
}

/// A reading that fails is told of in the words of what was wrong with the file,
/// both when it happens and when it is asked for later.
pub proof fn law_failed_reading_is_told_in_words(
    store: &mut AuthorizedKeysStore,
    current: AuthorizedKeysFingerprint,
    file: KeysFile,
    event: AuthorizedKeysReloadEvent,
    path: &str,
    read: Result<(AuthorizedKeysCache, AuthorizedKeysFingerprint), KeysError>,
    words: String,
    after: &AuthorizedKeysStore,
    status: AuthorizedKeysStatus,
)
    requires
        call_ensures(AuthorizedKeysStore::finish_reload, (store, current, file), event),
        !current.missing,
        path@ == old(store)@.path,
        call_ensures(
            AuthorizedKeysCache::load,
            (file, path, old(store)@.max_size, old(store)@.max_entries),
            read,
        ),
        read is Err,
        call_ensures(KeysError::message, (&read->Err_0,), words),
        after@ == final(store)@,
        call_ensures(AuthorizedKeysStore::status, (after,), status),
    ensures
        event@ == ReloadEventView::Failed(words@),
        status.last_reload_status@ == ReloadStatusView::Failed(words@),
        status.generation == old(store)@.generation,
{
}

} // verus!
