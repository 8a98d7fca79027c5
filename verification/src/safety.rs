//! The two-tier playlist safety model.
//!
//! Every playlist visible to this app falls into exactly one of two tiers:
//!
//! * **Session** — created *by this app during the current process lifetime*.
//!   Contents may be edited (add / remove / reorder / rename) and the
//!   playlist may be deleted without confirmation.
//! * **Protected** — everything else: the user's longstanding playlists AND
//!   playlists this app created in any *previous* run. Contents are
//!   read-only; the single permitted destructive action is deletion through
//!   the guarded confirmation flow (the user must type the exact word
//!   `delete`).
//!
//! The registry is in-memory only: a fresh [`SafetyPolicy`] knows no session
//! playlists, so everything from an earlier run is protected. Mutation
//! rights are proof tokens ([`EditGrant`], [`DeleteGrant`]) whose fields are
//! private to this module; the only mints are the `authorize_*` and
//! `confirm_guarded_delete` methods below, and a grant carries the id it was
//! minted for.
//!
//! The abstract state of a policy is a [`PolicyModel`]: a map from session
//! playlist ids to their last known names plus the armed guarded deletion,
//! if any. Every method's contract is stated over that model, and the laws
//! at the end of this file relate the operations to each other.

use vstd::prelude::*;

use crate::order::{
    is_permutation, is_stable_sorted_order, key_view, ord_lt, stable_sort_order, text_lt,
};
use crate::text::{chars_of, owned, push_str, str_eq};

verus! {

/// A Spotify playlist id (the base-62 id, not the full URI).
#[derive(Clone, PartialEq, Eq, Hash, Debug)]
pub struct PlaylistId(pub String);

impl View for PlaylistId {
    type V = Seq<char>;

    open spec fn view(&self) -> Seq<char> {
        self.0@
    }
}

impl PlaylistId {
    pub fn as_str(&self) -> (s: &str)
        ensures
            s@ == self@,
    {
        self.0.as_str()
    }

    /// Text form of the id (what `Display` prints in the app).
    pub fn display(&self) -> (s: String)
        ensures
            s@ == self@,
    {
        self.0.clone()
    }

    /// A copy of this id.
    pub fn duplicate(&self) -> (r: PlaylistId)
        ensures
            r@ == self@,
    {
        PlaylistId(self.0.clone())
    }

    /// Id equality (character-wise).
    pub fn same_as(&self, other: &PlaylistId) -> (b: bool)
        ensures
            b == (self@ == other@),
    {
        self.0 == other.0
    }
}

/// The exact confirmation text required by the guarded deletion flow.
/// Comparison is byte-exact: case-sensitive, no trimming.
pub const DELETE_CONFIRMATION_WORD: &'static str = "delete";

/// The characters of [`DELETE_CONFIRMATION_WORD`].
pub open spec fn delete_word() -> Seq<char> {
    seq!['d', 'e', 'l', 'e', 't', 'e']
}

#[derive(Clone, Copy, PartialEq, Eq, Debug, Structural)]
pub enum Tier {
    /// Created by this app during the current process lifetime.
    Session,
    /// Everything else. Contents read-only; deletion only via guarded flow.
    Protected,
}

impl Tier {
    pub fn label(self) -> (s: &'static str)
        ensures
            self == Tier::Session ==> s@ == "session"@,
            self == Tier::Protected ==> s@ == "protected"@,
    {
        match self {
            Tier::Session => "session",
            Tier::Protected => "protected",
        }
    }
}

#[derive(Clone, PartialEq, Eq, Debug)]
pub enum SafetyError {
    /// A content/details edit of a protected playlist was refused.
    ProtectedContentEdit { id: PlaylistId, name: String },
    /// A free deletion of a protected playlist was refused.
    GuardedConfirmationRequired { id: PlaylistId, name: String },
    /// A guarded confirmation arrived while nothing was armed.
    NoPendingDeletion,
    /// A guarded confirmation named a different playlist than the armed one.
    PendingDeletionMismatch { pending_name: String },
    /// The typed confirmation was not exactly the confirmation word.
    ConfirmationMismatch,
}

/// Proof that editing the contents/details of the playlist in `id` is
/// permitted (i.e. it is a session playlist). Only [`SafetyPolicy`] can mint
/// one.
#[derive(Debug, PartialEq, Eq)]
pub struct EditGrant {
    id: PlaylistId,
}

impl View for EditGrant {
    type V = Seq<char>;

    closed spec fn view(&self) -> Seq<char> {
        self.id@
    }
}

impl EditGrant {
    pub fn id(&self) -> (r: &PlaylistId)
        ensures
            r@ == self@,
    {
        &self.id
    }
}

/// Proof that deleting the playlist in `id` is permitted — either because it
/// is a session playlist, or because the guarded confirmation flow completed
/// with the exact confirmation word. Only [`SafetyPolicy`] can mint one.
#[derive(Debug, PartialEq, Eq)]
pub struct DeleteGrant {
    id: PlaylistId,
    name: String,
}

impl View for DeleteGrant {
    type V = (Seq<char>, Seq<char>);

    closed spec fn view(&self) -> (Seq<char>, Seq<char>) {
        (self.id@, self.name@)
    }
}

impl DeleteGrant {
    pub fn id(&self) -> (r: &PlaylistId)
        ensures
            r@ == self@.0,
    {
        &self.id
    }

    pub fn name(&self) -> (r: &str)
        ensures
            r@ == self@.1,
    {
        self.name.as_str()
    }
}

/// A guarded deletion that has been armed but not yet confirmed.
#[derive(Clone, Debug, PartialEq, Eq)]
pub struct PendingDeletion {
    pub id: PlaylistId,
    pub name: String,
}

impl View for PendingDeletion {
    type V = (Seq<char>, Seq<char>);

    open spec fn view(&self) -> (Seq<char>, Seq<char>) {
        (self.id@, self.name@)
    }
}

impl PendingDeletion {
    pub fn duplicate(&self) -> (r: PendingDeletion)
        ensures
            r@ == self@,
    {
        PendingDeletion { id: self.id.duplicate(), name: self.name.clone() }
    }
}

/// The abstract state of a [`SafetyPolicy`].
pub ghost struct PolicyModel {
    /// Session playlists: id → last known name.
    pub session: Map<Seq<char>, Seq<char>>,
    /// The armed guarded deletion (id, name), if any.
    pub pending: Option<(Seq<char>, Seq<char>)>,
}

impl PolicyModel {
    /// The state of a policy at the start of a session.
    pub open spec fn fresh() -> PolicyModel {
        PolicyModel { session: Map::empty(), pending: None }
    }

    pub open spec fn tier(self, id: Seq<char>) -> Tier {
        if self.session.dom().contains(id) {
            Tier::Session
        } else {
            Tier::Protected
        }
    }

    /// After recording that this app created `id` named `name`.
    pub open spec fn created(self, id: Seq<char>, name: Seq<char>) -> PolicyModel {
        PolicyModel { session: self.session.insert(id, name), pending: self.pending }
    }

    /// After recording that `id` was deleted: it leaves the registry, and an
    /// armed deletion of it is disarmed.
    pub open spec fn deleted(self, id: Seq<char>) -> PolicyModel {
        PolicyModel {
            session: self.session.remove(id),
            pending: match self.pending {
                Some(p) => if p.0 == id {
                    None
                } else {
                    Some(p)
                },
                None => None,
            },
        }
    }

    /// After a rename: only a registered id gets the new name.
    pub open spec fn renamed(self, id: Seq<char>, name: Seq<char>) -> PolicyModel {
        if self.session.dom().contains(id) {
            PolicyModel { session: self.session.insert(id, name), pending: self.pending }
        } else {
            self
        }
    }

    /// After arming the guarded deletion for `id` (replacing any other).
    pub open spec fn armed(self, id: Seq<char>, name: Seq<char>) -> PolicyModel {
        PolicyModel { session: self.session, pending: Some((id, name)) }
    }

    /// After the armed deletion is consumed or cancelled.
    pub open spec fn disarmed(self) -> PolicyModel {
        PolicyModel { session: self.session, pending: None }
    }

    /// Would a guarded confirmation of `id` with `typed` succeed?
    pub open spec fn confirmation_accepted(self, id: Seq<char>, typed: Seq<char>) -> bool {
        match self.pending {
            Some(p) => p.0 == id && typed == delete_word(),
            None => false,
        }
    }
}

/// The entries `s` hold pairwise distinct ids.
pub open spec fn ids_unique(s: Seq<(PlaylistId, String)>) -> bool {
    forall|i: int, j: int| 0 <= i < j < s.len() ==> s[i].0@ != s[j].0@
}

/// The registry entries `s` read as a map from id to name.
pub open spec fn entries_map(s: Seq<(PlaylistId, String)>) -> Map<Seq<char>, Seq<char>> {
    Map::new(
        |k: Seq<char>| exists|i: int| 0 <= i < s.len() && s[i].0@ == k,
        |k: Seq<char>| s[choose|i: int| 0 <= i < s.len() && s[i].0@ == k].1@,
    )
}

/// With distinct ids, entry `i` is what the map holds for its id.
proof fn lemma_entry_in_map(s: Seq<(PlaylistId, String)>, i: int)
    requires
        ids_unique(s),
        0 <= i < s.len(),
    ensures
        entries_map(s).dom().contains(s[i].0@),
        entries_map(s)[s[i].0@] == s[i].1@,
{
    let k = s[i].0@;
    assert(exists|j: int| 0 <= j < s.len() && s[j].0@ == k);
    let j = choose|j: int| 0 <= j < s.len() && s[j].0@ == k;
    if j != i {
        if j < i {
            assert(s[j].0@ != s[i].0@);
        } else {
            assert(s[i].0@ != s[j].0@);
        }
    }
}

/// The authority on playlist tiers and mutation rights for one app session.
pub struct SafetyPolicy {
    /// Playlists created by this process: (id, last known name), ids distinct.
    session_created: Vec<(PlaylistId, String)>,
    /// At most one guarded deletion may be armed at a time.
    pending_delete: Option<PendingDeletion>,
}

impl View for SafetyPolicy {
    type V = PolicyModel;

    closed spec fn view(&self) -> PolicyModel {
        PolicyModel {
            session: entries_map(self.session_created@),
            pending: match self.pending_delete {
                Some(p) => Some(p@),
                None => None,
            },
        }
    }
}

impl SafetyPolicy {
    #[verifier::type_invariant]
    closed spec fn wf(self) -> bool {
        ids_unique(self.session_created@)
    }

    pub fn new() -> (p: SafetyPolicy)
        ensures
            p@ == PolicyModel::fresh(),
    {
        let p = SafetyPolicy { session_created: Vec::new(), pending_delete: None };
        proof {
            assert(entries_map(p.session_created@) =~= Map::empty());
        }
        p
    }

    /// Position of `id` in the registry, if registered.
    fn find(&self, id: &PlaylistId) -> (r: Option<usize>)
        ensures
            match r {
                Some(i) => i < self.session_created@.len() && self.session_created@[i as int].0@
                    == id@,
                None => forall|j: int|
                    0 <= j < self.session_created@.len() ==> self.session_created@[j].0@
                        != id@,
            },
    {
        let mut i: usize = 0;
        while i < self.session_created.len()
            invariant
                i <= self.session_created@.len(),
                forall|j: int| 0 <= j < i ==> self.session_created@[j].0@ != id@,
            decreases self.session_created@.len() - i,
        {
            if self.session_created[i].0.same_as(id) {
                return Some(i);
            }
            i += 1;
        }
        None
    }

    /// Record that this app just created `id`. This is the ONLY way a
    /// playlist becomes a session playlist.
    pub fn note_created(&mut self, id: PlaylistId, name: &str)
        ensures
            final(self)@ == old(self)@.created(id@, name@),
    {
        proof {
            use_type_invariant(&*self);
        }
        let ghost old_entries = self.session_created@;
        let found = self.find(&id);
        let mut entries: Vec<(PlaylistId, String)> = Vec::new();
        std::mem::swap(&mut entries, &mut self.session_created);
        let ghost k = id@;
        let ghost v = name@;
        match found {
            Some(i) => {
                entries.set(i, (id, owned(name)));
                proof {
                    assert(ids_unique(entries@));
                    assert(entries_map(entries@) =~= entries_map(old_entries).insert(k, v)) by {
                        assert forall|key: Seq<char>| #[trigger]
                            entries_map(entries@).dom().contains(key)
                                == entries_map(old_entries).insert(k, v).dom().contains(key) by {
                            if entries_map(old_entries).dom().contains(key) {
                                let j = choose|j: int|
                                    0 <= j < old_entries.len() && old_entries[j].0@ == key;
                                assert(entries@[j].0@ == key);
                            }
                            if entries_map(entries@).dom().contains(key) {
                                let j = choose|j: int|
                                    0 <= j < entries@.len() && entries@[j].0@ == key;
                                if j != i {
                                    assert(old_entries[j].0@ == key);
                                }
                            }
                        }
                        assert forall|key: Seq<char>|
                            entries_map(entries@).dom().contains(key) implies #[trigger] entries_map(
                                entries@,
                            )[key] == entries_map(old_entries).insert(k, v)[key] by {
                            let j = choose|j: int|
                                0 <= j < entries@.len() && entries@[j].0@ == key;
                            lemma_entry_in_map(entries@, j);
                            if j != i {
                                lemma_entry_in_map(old_entries, j);
                            }
                        }
                    }
                }
            },
            None => {
                entries.push((id, owned(name)));
                proof {
                    assert(ids_unique(entries@));
                    assert(entries_map(entries@) =~= entries_map(old_entries).insert(k, v)) by {
                        let n = old_entries.len() as int;
                        assert forall|key: Seq<char>| #[trigger]
                            entries_map(entries@).dom().contains(key)
                                == entries_map(old_entries).insert(k, v).dom().contains(key) by {
                            if entries_map(old_entries).dom().contains(key) {
                                let j = choose|j: int|
                                    0 <= j < old_entries.len() && old_entries[j].0@ == key;
                                assert(entries@[j].0@ == key);
                            }
                            if key == k {
                                assert(entries@[n].0@ == key);
                            }
                            if entries_map(entries@).dom().contains(key) {
                                let j = choose|j: int|
                                    0 <= j < entries@.len() && entries@[j].0@ == key;
                                if j != n {
                                    assert(old_entries[j].0@ == key);
                                }
                            }
                        }
                        assert forall|key: Seq<char>|
                            entries_map(entries@).dom().contains(key) implies #[trigger] entries_map(
                                entries@,
                            )[key] == entries_map(old_entries).insert(k, v)[key] by {
                            let j = choose|j: int|
                                0 <= j < entries@.len() && entries@[j].0@ == key;
                            lemma_entry_in_map(entries@, j);
                            if j != n {
                                lemma_entry_in_map(old_entries, j);
                            }
                        }
                    }
                }
            },
        }
        self.session_created = entries;
    }

    /// Tier of `id`. Anything this policy did not record a creation for —
    /// including every playlist from previous sessions — is `Protected`.
    pub fn tier(&self, id: &PlaylistId) -> (t: Tier)
        ensures
            t == self@.tier(id@),
    {
        proof {
            use_type_invariant(self);
        }
        match self.find(id) {
            Some(i) => {
                proof {
                    lemma_entry_in_map(self.session_created@, i as int);
                }
                Tier::Session
            },
            None => Tier::Protected,
        }
    }

    pub fn is_session(&self, id: &PlaylistId) -> (b: bool)
        ensures
            b == (self@.tier(id@) == Tier::Session),
    {
        match self.tier(id) {
            Tier::Session => true,
            Tier::Protected => false,
        }
    }
}


impl SafetyPolicy {
    /// Record that `id` no longer exists (was deleted through this app).
    pub fn note_deleted(&mut self, id: &PlaylistId)
        ensures
            final(self)@ == old(self)@.deleted(id@),
    {
        proof {
            use_type_invariant(&*self);
        }
        let ghost old_entries = self.session_created@;
        let found = self.find(id);
        let mut entries: Vec<(PlaylistId, String)> = Vec::new();
        std::mem::swap(&mut entries, &mut self.session_created);
        let ghost k = id@;
        match found {
            Some(i) => {
                entries.remove(i);
                proof {
                    assert(entries@ == old_entries.remove(i as int));
                    assert forall|a: int, b: int|
                        0 <= a < b < entries@.len() implies entries@[a].0@ != entries@[b].0@ by {
                        if a < i && b < i {
                        } else if a < i {
                            assert(entries@[b] == old_entries[b + 1]);
                        } else {
                            assert(entries@[a] == old_entries[a + 1]);
                            assert(entries@[b] == old_entries[b + 1]);
                        }
                    }
                    assert(entries_map(entries@) =~= entries_map(old_entries).remove(k)) by {
                        assert forall|key: Seq<char>| #[trigger]
                            entries_map(entries@).dom().contains(key)
                                == entries_map(old_entries).remove(k).dom().contains(key) by {
                            if entries_map(old_entries).dom().contains(key) && key != k {
                                let j = choose|j: int|
                                    0 <= j < old_entries.len() && old_entries[j].0@ == key;
                                if j < i {
                                    assert(entries@[j].0@ == key);
                                } else {
                                    assert(j != i);
                                    assert(entries@[j - 1].0@ == key);
                                }
                            }
                            if entries_map(entries@).dom().contains(key) {
                                let j = choose|j: int|
                                    0 <= j < entries@.len() && entries@[j].0@ == key;
                                if j < i {
                                    assert(old_entries[j].0@ == key);
                                    assert(j != i);
                                } else {
                                    assert(old_entries[j + 1].0@ == key);
                                }
                            }
                        }
                        assert forall|key: Seq<char>|
                            entries_map(entries@).dom().contains(key) implies #[trigger] entries_map(
                                entries@,
                            )[key] == entries_map(old_entries).remove(k)[key] by {
                            let j = choose|j: int|
                                0 <= j < entries@.len() && entries@[j].0@ == key;
                            lemma_entry_in_map(entries@, j);
                            if j < i {
                                lemma_entry_in_map(old_entries, j);
                            } else {
                                lemma_entry_in_map(old_entries, j + 1);
                            }
                        }
                    }
                }
            },
            None => {
                proof {
                    assert(entries_map(entries@) =~= entries_map(old_entries).remove(k));
                }
            },
        }
        self.session_created = entries;
        let disarm = match &self.pending_delete {
            Some(p) => p.id.same_as(id),
            None => false,
        };
        if disarm {
            self.pending_delete = None;
        }
    }

    /// Keep the display name fresh after a rename (session playlists only;
    /// renaming an unknown id is a no-op, not an implicit registration).
    pub fn note_renamed(&mut self, id: &PlaylistId, new_name: &str)
        ensures
            final(self)@ == old(self)@.renamed(id@, new_name@),
    {
        proof {
            use_type_invariant(&*self);
        }
        let found = self.find(id);
        match found {
            Some(i) => {
                proof {
                    lemma_entry_in_map(self.session_created@, i as int);
                }
                self.note_created(id.duplicate(), new_name);
            },
            None => {
                proof {
                    if entries_map(self.session_created@).dom().contains(id@) {
                        let j = choose|j: int|
                            0 <= j < self.session_created@.len() && self.session_created@[j].0@
                                == id@;
                        assert(self.session_created@[j].0@ != id@);
                    }
                }
            },
        }
    }

    /// Snapshot of the playlists created this session (id, name), ordered
    /// by name.
    pub fn session_playlists(&self) -> (v: Vec<(PlaylistId, String)>)
        ensures
            lists_registry(v@, self@.session),
            sorted_by_name(v@),
    {
        proof {
            use_type_invariant(self);
        }
        let n = self.session_created.len();
        let mut keys: Vec<(u64, Vec<char>)> = Vec::new();
        let mut i: usize = 0;
        while i < n
            invariant
                n == self.session_created@.len(),
                i <= n,
                keys@.len() == i,
                forall|j: int|
                    0 <= j < i ==> (#[trigger] keys@[j]).0 == 0 && keys@[j].1@
                        == self.session_created@[j].1@,
            decreases n - i,
        {
            keys.push((0, chars_of(self.session_created[i].1.as_str())));
            i += 1;
        }
        let perm = stable_sort_order(&keys, false);
        let mut out: Vec<(PlaylistId, String)> = Vec::new();
        let mut k: usize = 0;
        while k < perm.len()
            invariant
                n == self.session_created@.len(),
                is_stable_sorted_order(keys@, false, perm@),
                keys@.len() == n,
                forall|j: int|
                    0 <= j < n ==> (#[trigger] keys@[j]).0 == 0 && keys@[j].1@
                        == self.session_created@[j].1@,
                k <= perm@.len(),
                out@.len() == k,
                forall|j: int|
                    0 <= j < k ==> (#[trigger] out@[j]).0@ == self.session_created@[perm@[j] as int].0@
                        && out@[j].1@ == self.session_created@[perm@[j] as int].1@,
            decreases perm@.len() - k,
        {
            let e = &self.session_created[perm[k]];
            out.push((e.0.duplicate(), e.1.clone()));
            k += 1;
        }
        proof {
            let s = self.session_created@;
            assert forall|a: int| 0 <= a < out@.len() implies self@.session.dom().contains(
                #[trigger] out@[a].0@,
            ) && self@.session[out@[a].0@] == out@[a].1@ by {
                lemma_entry_in_map(s, perm@[a] as int);
            }
            assert forall|key: Seq<char>| #[trigger]
                self@.session.dom().contains(key) implies exists|a: int|
                0 <= a < out@.len() && out@[a].0@ == key by {
                let j = choose|j: int| 0 <= j < s.len() && s[j].0@ == key;
                lemma_permutation_covers(perm@, n as nat, j);
                let a = choose|a: int| 0 <= a < perm@.len() && perm@[a] == j;
                assert(out@[a].0@ == key);
            }
            assert forall|a: int, b: int| 0 <= a < b < out@.len() implies out@[a].0@
                != out@[b].0@ by {
                assert(perm@[a] != perm@[b]);
                if perm@[a] < perm@[b] {
                    assert(s[perm@[a] as int].0@ != s[perm@[b] as int].0@);
                } else {
                    assert(s[perm@[b] as int].0@ != s[perm@[a] as int].0@);
                }
            }
            assert forall|a: int, b: int| 0 <= a < b < out@.len() implies !text_lt(
                out@[b].1@,
                out@[a].1@,
            ) by {
                assert(!ord_lt(
                    false,
                    key_view(keys@, perm@[b] as int),
                    key_view(keys@, perm@[a] as int),
                ));
            }
        }
        out
    }

    /// Mint an [`EditGrant`] for a content/details mutation of `id`.
    /// Fails for anything that is not a session playlist.
    pub fn authorize_content_edit(&self, id: &PlaylistId, display_name: &str) -> (r: Result<
        EditGrant,
        SafetyError,
    >)
        ensures
            match r {
                Ok(g) => self@.tier(id@) == Tier::Session && g@ == id@,
                Err(e) => self@.tier(id@) == Tier::Protected && match e {
                    SafetyError::ProtectedContentEdit { id: eid, name } => eid@ == id@ && name@
                        == display_name@,
                    _ => false,
                },
            },
    {
        match self.tier(id) {
            Tier::Session => Ok(EditGrant { id: id.duplicate() }),
            Tier::Protected => Err(
                SafetyError::ProtectedContentEdit { id: id.duplicate(), name: owned(display_name) },
            ),
        }
    }

    /// Mint a [`DeleteGrant`] for a *session* playlist (no confirmation
    /// needed); the grant carries the registry's name for it. For protected
    /// playlists this fails and the caller must run the guarded flow instead.
    pub fn authorize_session_delete(&self, id: &PlaylistId, display_name: &str) -> (r: Result<
        DeleteGrant,
        SafetyError,
    >)
        ensures
            match r {
                Ok(g) => self@.tier(id@) == Tier::Session && g@ == (id@, self@.session[id@]),
                Err(e) => self@.tier(id@) == Tier::Protected && match e {
                    SafetyError::GuardedConfirmationRequired { id: eid, name } => eid@ == id@
                        && name@ == display_name@,
                    _ => false,
                },
            },
    {
        proof {
            use_type_invariant(self);
        }
        match self.find(id) {
            Some(i) => {
                proof {
                    lemma_entry_in_map(self.session_created@, i as int);
                }
                Ok(DeleteGrant { id: id.duplicate(), name: self.session_created[i].1.clone() })
            },
            None => {
                proof {
                    if self@.session.dom().contains(id@) {
                        let j = choose|j: int|
                            0 <= j < self.session_created@.len() && self.session_created@[j].0@
                                == id@;
                        assert(self.session_created@[j].0@ != id@);
                    }
                }
                Err(
                    SafetyError::GuardedConfirmationRequired {
                        id: id.duplicate(),
                        name: owned(display_name),
                    },
                )
            },
        }
    }

    /// Arm the guarded deletion flow for `id`. Replaces any previously armed
    /// deletion (only one can be pending). Returns the pending record whose
    /// `name` must be displayed prominently to the user before confirmation.
    pub fn begin_guarded_delete(&mut self, id: PlaylistId, name: &str) -> (p: PendingDeletion)
        ensures
            final(self)@ == old(self)@.armed(id@, name@),
            p@ == (id@, name@),
    {
        proof {
            use_type_invariant(&*self);
        }
        let pending = PendingDeletion { id, name: owned(name) };
        self.pending_delete = Some(pending.duplicate());
        pending
    }

    /// The armed guarded deletion, if any.
    pub fn pending_delete(&self) -> (r: Option<&PendingDeletion>)
        ensures
            match r {
                Some(p) => self@.pending == Some(p@),
                None => self@.pending is None,
            },
    {
        match &self.pending_delete {
            Some(p) => Some(p),
            None => None,
        }
    }

    /// Cancel any armed guarded deletion. Returns true if one was armed.
    pub fn cancel_pending_delete(&mut self) -> (b: bool)
        ensures
            final(self)@ == old(self)@.disarmed(),
            b == old(self)@.pending is Some,
    {
        proof {
            use_type_invariant(&*self);
        }
        let was = self.pending_delete.is_some();
        self.pending_delete = None;
        was
    }

    /// Confirm the armed guarded deletion.
    ///
    /// Succeeds only when a deletion is armed, it is armed for exactly `id`,
    /// and `typed` is byte-for-byte [`DELETE_CONFIRMATION_WORD`]. Every
    /// outcome consumes the armed record: after a failure the flow must be
    /// restarted from scratch. The grant is bound to the armed id and name.
    pub fn confirm_guarded_delete(&mut self, id: &PlaylistId, typed: &str) -> (r: Result<
        DeleteGrant,
        SafetyError,
    >)
        ensures
            final(self)@ == old(self)@.disarmed(),
            (r is Ok) == old(self)@.confirmation_accepted(id@, typed@),
            match old(self)@.pending {
                None => r == Err::<DeleteGrant, SafetyError>(SafetyError::NoPendingDeletion),
                Some(p) => if p.0 != id@ {
                    match r {
                        Err(SafetyError::PendingDeletionMismatch { pending_name }) => pending_name@
                            == p.1,
                        _ => false,
                    }
                } else if typed@ != delete_word() {
                    r == Err::<DeleteGrant, SafetyError>(SafetyError::ConfirmationMismatch)
                } else {
                    match r {
                        Ok(g) => g@ == p,
                        _ => false,
                    }
                },
            },
    {
        proof {
            use_type_invariant(&*self);
        }
        let mut taken: Option<PendingDeletion> = None;
        std::mem::swap(&mut taken, &mut self.pending_delete);
        let pending = match taken {
            Some(p) => p,
            None => {
                return Err(SafetyError::NoPendingDeletion);
            },
        };
        if !pending.id.same_as(id) {
            return Err(SafetyError::PendingDeletionMismatch { pending_name: pending.name });
        }
        proof {
            reveal_strlit("delete");
            assert("delete"@ =~= delete_word());
        }
        if !str_eq(typed, "delete") {
            return Err(SafetyError::ConfirmationMismatch);
        }
        Ok(DeleteGrant { id: pending.id, name: pending.name })
    }
}

/// `out` lists exactly the registry `m`: each entry with its registered
/// name, each registered id once.
pub open spec fn lists_registry(
    out: Seq<(PlaylistId, String)>,
    m: Map<Seq<char>, Seq<char>>,
) -> bool {
    &&& forall|a: int|
        0 <= a < out.len() ==> m.dom().contains(#[trigger] out[a].0@) && m[out[a].0@]
            == out[a].1@
    &&& forall|key: Seq<char>| #[trigger]
        m.dom().contains(key) ==> exists|a: int| 0 <= a < out.len() && out[a].0@ == key
    &&& forall|a: int, b: int| 0 <= a < b < out.len() ==> out[a].0@ != out[b].0@
}

/// `out` is ordered by name.
pub open spec fn sorted_by_name(out: Seq<(PlaylistId, String)>) -> bool {
    forall|a: int, b: int| 0 <= a < b < out.len() ==> !text_lt(out[b].1@, out[a].1@)
}

/// A permutation of `0..n` holds every index below `n`.
pub proof fn lemma_permutation_covers(perm: Seq<usize>, n: nat, j: int)
    requires
        is_permutation(perm, n),
        0 <= j < n,
    ensures
        exists|a: int| 0 <= a < perm.len() && perm[a] == j,
{
    // The values of `perm` are distinct and below `n`; there are `n` of
    // them, so by counting, every index occurs.
    let vals = perm.map_values(|x: usize| x as int);
    assert(vals.no_duplicates()) by {
        assert forall|a: int, b: int| 0 <= a < vals.len() && 0 <= b < vals.len() && a != b implies vals[a]
            != vals[b] by {
            if a < b {
                assert(perm[a] != perm[b]);
            } else {
                assert(perm[b] != perm[a]);
            }
        }
    }
    vals.unique_seq_to_set();
    let range = Set::new(|x: int| 0 <= x < n);
    assert(vals.to_set().subset_of(range));
    vstd::set_lib::lemma_int_range(0, n as int);
    assert(range =~= vstd::set_lib::set_int_range(0, n as int));
    if !vals.to_set().contains(j) {
        vstd::set_lib::lemma_len_subset(vals.to_set(), range.remove(j));
        assert(range.remove(j).len() == n - 1);
        assert(false);
    }
    let a = choose|a: int| 0 <= a < vals.len() && vals[a] == j;
    assert(perm[a] == j);
}

/// The user-facing text of a refusal.
pub open spec fn safety_message(e: SafetyError) -> Seq<char> {
    match e {
        SafetyError::ProtectedContentEdit { name, .. } => "'"@ + name@
            + "' is a protected playlist; its contents are read-only. Write the result to a new playlist instead."@,
        SafetyError::GuardedConfirmationRequired { name, .. } => "'"@ + name@
            + "' is a protected playlist; deleting it requires the guarded confirmation flow (type 'delete')."@,
        SafetyError::NoPendingDeletion => "no guarded deletion is pending; nothing was deleted"@,
        SafetyError::PendingDeletionMismatch { pending_name } =>
            "the pending guarded deletion is for '"@ + pending_name@
            + "', not the requested playlist; the deletion was cancelled"@,
        SafetyError::ConfirmationMismatch =>
            "confirmation text did not exactly match 'delete'; the deletion was cancelled"@,
    }
}

impl SafetyError {
    /// The user-facing text of this refusal (what `Display` shows in the app).
    pub fn message(&self) -> (s: String)
        ensures
            s@ == safety_message(*self),
    {
        match self {
            SafetyError::ProtectedContentEdit { name, .. } => {
                let mut s = owned("'");
                push_str(&mut s, name.as_str());
                push_str(
                    &mut s,
                    "' is a protected playlist; its contents are read-only. Write the result to a new playlist instead.",
                );
                s
            },
            SafetyError::GuardedConfirmationRequired { name, .. } => {
                let mut s = owned("'");
                push_str(&mut s, name.as_str());
                push_str(
                    &mut s,
                    "' is a protected playlist; deleting it requires the guarded confirmation flow (type 'delete').",
                );
                s
            },
            SafetyError::NoPendingDeletion => owned(
                "no guarded deletion is pending; nothing was deleted",
            ),
            SafetyError::PendingDeletionMismatch { pending_name } => {
                let mut s = owned("the pending guarded deletion is for '");
                push_str(&mut s, pending_name.as_str());
                push_str(&mut s, "', not the requested playlist; the deletion was cancelled");
                s
            },
            SafetyError::ConfirmationMismatch => owned(
                "confirmation text did not exactly match 'delete'; the deletion was cancelled",
            ),
        }
    }
}

// ---------------------------------------------------------------------
// Laws of the safety model
// ---------------------------------------------------------------------

/// A fresh session (the registry is never persisted) treats every playlist,
/// including those an earlier run created, as protected, and has nothing
/// armed.
pub proof fn law_fresh_session_protects_everything(id: Seq<char>)
    ensures
        PolicyModel::fresh().tier(id) == Tier::Protected,
        PolicyModel::fresh().pending is None,
{
}

/// Recording a creation makes that playlist a session playlist, and leaves
/// every other playlist's tier unchanged.
pub proof fn law_creation_makes_session(m: PolicyModel, id: Seq<char>, name: Seq<char>, other: Seq<char>)
    ensures
        m.created(id, name).tier(id) == Tier::Session,
        other != id ==> m.created(id, name).tier(other) == m.tier(other),
{
}

/// Creation is the only way into the session tier: deleting, renaming,
/// arming and disarming never turn a protected playlist into a session one.
pub proof fn law_only_creation_promotes(
    m: PolicyModel,
    id: Seq<char>,
    name: Seq<char>,
    x: Seq<char>,
)
    requires
        m.tier(x) == Tier::Protected,
    ensures
        m.deleted(id).tier(x) == Tier::Protected,
        m.renamed(id, name).tier(x) == Tier::Protected,
        m.armed(id, name).tier(x) == Tier::Protected,
        m.disarmed().tier(x) == Tier::Protected,
{
}

/// A deleted playlist leaves the session tier; the guarded flow armed for it
/// is disarmed.
pub proof fn law_deleted_is_protected(m: PolicyModel, id: Seq<char>)
    ensures
        m.deleted(id).tier(id) == Tier::Protected,
        !m.deleted(id).confirmation_accepted(id, delete_word()),
{
}

/// Renaming never changes any tier, and a rename of an unregistered id is a
/// no-op.
pub proof fn law_rename_keeps_tiers(m: PolicyModel, id: Seq<char>, name: Seq<char>, x: Seq<char>)
    ensures
        m.renamed(id, name).tier(x) == m.tier(x),
        m.tier(id) == Tier::Protected ==> m.renamed(id, name) == m,
        m.tier(id) == Tier::Session ==> m.renamed(id, name).session[id] == name,
{
}

/// A confirmation is accepted only for the armed playlist and only with the
/// exact confirmation word; once the flow is disarmed (by any confirmation
/// attempt or a cancel) nothing is accepted until it is armed again.
pub proof fn law_confirmation_bound_to_armed(m: PolicyModel, id: Seq<char>, typed: Seq<char>)
    ensures
        m.confirmation_accepted(id, typed) ==> typed == delete_word() && m.pending is Some
            && m.pending.unwrap().0 == id,
        !m.disarmed().confirmation_accepted(id, typed),
{
}

/// Arming twice keeps only the latest target: the earlier one can no longer
/// be confirmed.
pub proof fn law_arming_replaces(
    m: PolicyModel,
    first: Seq<char>,
    first_name: Seq<char>,
    second: Seq<char>,
    second_name: Seq<char>,
)
    ensures
        m.armed(first, first_name).armed(second, second_name) == m.armed(second, second_name),
        first != second ==> !m.armed(first, first_name).armed(
            second,
            second_name,
        ).confirmation_accepted(first, delete_word()),
        m.armed(second, second_name).confirmation_accepted(second, delete_word()),
{
}

/// Arming and disarming the guarded flow never touch the registry.
pub proof fn law_guarded_flow_keeps_registry(m: PolicyModel, id: Seq<char>, name: Seq<char>)
    ensures
        m.armed(id, name).session == m.session,
        m.disarmed().session == m.session,
{
}
} // verus!
