//! The session of each project root: what was open and selected when the
//! application was left.
use crate::text::{append_chars, append_str, blank, decimal, digits_of, from_chars, is_blank, to_chars};
use vstd::prelude::*;
use vstd::string::StringExecFns;

verus! {

/// The version of the session store that this library reads and writes.
pub const SESSION_VERSION: u32 = 1;

#[derive(Debug, Clone)]
pub struct SessionState {
    pub active_project_id: String,
    pub sidebar_width: u16,
    pub sidebar_visible: bool,
    pub selection_id: Option<String>,
    pub current_request_id: Option<String>,
    pub expanded: Vec<String>,
    pub request_tab: String,
    pub response_tab: String,
}

/// The sessions by project root. A root that is entered twice keeps its
/// last session.
#[derive(Debug, Clone)]
pub struct SessionStore {
    pub version: u32,
    pub sessions: Vec<(String, SessionState)>,
}

impl Default for SessionStore {
    fn default() -> (s: SessionStore)
        ensures
            s.version == SESSION_VERSION,
            s.sessions@.len() == 0,
    {
        SessionStore { version: SESSION_VERSION, sessions: Vec::new() }
    }
}

/// The index of the last session entered under `key`.
pub open spec fn last_entry(sessions: Seq<(String, SessionState)>, key: Seq<char>) -> Option<int>
    decreases sessions.len(),
{
    if sessions.len() == 0 {
        None
    } else if sessions.last().0@ == key {
        Some(sessions.len() - 1)
    } else {
        last_entry(sessions.drop_last(), key)
    }
}

/// The last entry lies within the sessions and stands under the key.
pub proof fn lemma_last_entry(sessions: Seq<(String, SessionState)>, key: Seq<char>)
    ensures
        match last_entry(sessions, key) {
            Some(i) => 0 <= i < sessions.len() && sessions[i].0@ == key,
            None => forall|k: int| 0 <= k < sessions.len() ==> (#[trigger] sessions[k]).0@ != key,
        },
    decreases sessions.len(),
{
    if sessions.len() > 0 && sessions.last().0@ != key {
        lemma_last_entry(sessions.drop_last(), key);
        if last_entry(sessions, key) is None {
            assert forall|k: int| 0 <= k < sessions.len() implies (#[trigger] sessions[k]).0@
                != key by {
                if k < sessions.len() - 1 {
                    assert(sessions.drop_last()[k] == sessions[k]);
                }
            }
        }
    }
}

/// The complaint about a store of another version.
pub open spec fn version_message(version: u32) -> Seq<char> {
    "Unsupported session store version: "@ + digits_of(version as nat)
}

impl SessionStore {
    /// The index of the last session entered under `key`.
    pub fn find(&self, key: &str) -> (r: Option<usize>)
        ensures
            match r {
                Some(i) => last_entry(self.sessions@, key@) == Some(i as int) && i
                    < self.sessions@.len(),
                None => last_entry(self.sessions@, key@) is None,
            },
    {
        let wanted = String::from_str(key);
        let mut i: usize = self.sessions.len();
        proof {
            assert(self.sessions@.take(i as int) =~= self.sessions@);
        }
        while i > 0
            invariant
                i <= self.sessions.len(),
                wanted@ == key@,
                last_entry(self.sessions@, key@) == last_entry(self.sessions@.take(i as int), key@),
            decreases i,
        {
            proof {
                assert(self.sessions@.take(i as int).drop_last() =~= self.sessions@.take(i - 1));
            }
            i -= 1;
            if self.sessions[i].0 == wanted {
                return Some(i);
            }
        }
        None
    }

    /// Whether the store is of the version that this library reads; the
    /// complaint if it is not.
    pub fn check_version(&self) -> (r: Result<(), String>)
        ensures
            r is Ok <==> self.version == SESSION_VERSION,
            r is Err ==> r->Err_0@ == version_message(self.version),
    {
        if self.version != SESSION_VERSION {
            let mut m: Vec<char> = Vec::new();
            append_str(&mut m, "Unsupported session store version: ");
            let digits = decimal(self.version as u128);
            append_chars(&mut m, &digits);
            return Err(from_chars(&m));
        }
        Ok(())
    }
}

/// What reading the file of the session store gave.
#[derive(Debug, Clone)]
pub enum StoreRead {
    /// There is no such file.
    Absent,
    /// The file could not be read, and why.
    Unreadable(String),
    /// The file holds no session store, and why.
    Unparsable(String),
    /// The store that the file holds.
    Read(SessionStore),
}

/// The complaint about what was read, where no store can be had from it:
/// the file could not be read, holds something else, or holds a store of
/// another version.
pub open spec fn load_error(read: StoreRead) -> Option<Seq<char>> {
    match read {
        StoreRead::Absent => None,
        StoreRead::Unreadable(why) => Some("Failed to read session store: "@ + why@),
        StoreRead::Unparsable(why) => Some("Failed to parse session store: "@ + why@),
        StoreRead::Read(store) => if store.version == SESSION_VERSION {
            None
        } else {
            Some(version_message(store.version))
        },
    }
}

/// The sessions that were read: none where there is no file.
pub open spec fn loaded_sessions(read: StoreRead) -> Seq<(String, SessionState)> {
    match read {
        StoreRead::Read(store) => store.sessions@,
        _ => Seq::empty(),
    }
}

/// The session of the root `key`: the last one entered under it.
pub open spec fn session_of(sessions: Seq<(String, SessionState)>, key: Seq<char>) -> Option<
    SessionState,
> {
    match last_entry(sessions, key) {
        Some(i) => Some(sessions[i].1),
        None => None,
    }
}

/// `message` with `why` behind it.
fn complaint(message: &str, why: &String) -> (r: String)
    ensures
        r@ == message@ + why@,
{
    let mut m: Vec<char> = Vec::new();
    append_str(&mut m, message);
    let rest = to_chars(why.as_str());
    append_chars(&mut m, &rest);
    from_chars(&m)
}

/// The session store from what was read of its file: an empty store of this
/// version where there is no file, the store that was read where it is of
/// this version, else the complaint.
pub fn load_sessions(read: StoreRead) -> (r: Result<SessionStore, String>)
    ensures
        match load_error(read) {
            Some(m) => r is Err && r->Err_0@ == m,
            None => r is Ok && r->Ok_0.version == SESSION_VERSION && r->Ok_0.sessions@
                == loaded_sessions(read),
        },
{
    match read {
        StoreRead::Absent => Ok(SessionStore::default()),
        StoreRead::Unreadable(why) => Err(complaint("Failed to read session store: ", &why)),
        StoreRead::Unparsable(why) => Err(complaint("Failed to parse session store: ", &why)),
        StoreRead::Read(store) => match store.check_version() {
            Ok(()) => Ok(store),
            Err(e) => Err(e),
        },
    }
}

/// The session of the root `root_key` in the store that was read. A blank
/// key has none, whatever was read; else a store that cannot be had is an
/// error.
pub fn load_session_for_root(read: StoreRead, root_key: &str) -> (r: Result<
    Option<SessionState>,
    String,
>)
    ensures
        is_blank(root_key@) ==> r == Ok::<Option<SessionState>, String>(None),
        !is_blank(root_key@) ==> match load_error(read) {
            Some(m) => r is Err && r->Err_0@ == m,
            None => r == Ok::<Option<SessionState>, String>(
                session_of(loaded_sessions(read), root_key@),
            ),
        },
{
    let key = to_chars(root_key);
    if blank(&key) {
        return Ok(None);
    }
    let store = match load_sessions(read) {
        Ok(store) => store,
        Err(e) => {
            return Err(e);
        },
    };
    match store.find(root_key) {
        Some(i) => {
            let mut sessions = store.sessions;
            let entry = sessions.remove(i);
            Ok(Some(entry.1))
        },
        None => Ok(None),
    }
}

/// The store to write after `session` was entered under `root_key` in the
/// store that was read: it is of this version, holds `session` for
/// `root_key` and for every other root what was read. A blank key is
/// refused, and so is a store that cannot be had: nothing is to be written
/// then.
pub fn save_session_for_root(read: StoreRead, root_key: &str, session: SessionState) -> (r: Result<
    SessionStore,
    String,
>)
    ensures
        is_blank(root_key@) ==> r is Err && r->Err_0@ == "Session root key is empty"@,
        !is_blank(root_key@) ==> match load_error(read) {
            Some(m) => r is Err && r->Err_0@ == m,
            None => {
                &&& r is Ok
                &&& r->Ok_0.version == SESSION_VERSION
                &&& r->Ok_0.sessions@.drop_last() == loaded_sessions(read)
                &&& r->Ok_0.sessions@.len() == loaded_sessions(read).len() + 1
                &&& r->Ok_0.sessions@.last().0@ == root_key@
                &&& r->Ok_0.sessions@.last().1 == session
                &&& session_of(r->Ok_0.sessions@, root_key@) == Some(session)
                &&& forall|other: Seq<char>|
                    other != root_key@ ==> #[trigger] session_of(r->Ok_0.sessions@, other)
                        == session_of(loaded_sessions(read), other)
            },
        },
{
    let key = to_chars(root_key);
    if blank(&key) {
        return Err(String::from_str("Session root key is empty"));
    }
    let mut store = match load_sessions(read) {
        Ok(store) => store,
        Err(e) => {
            return Err(e);
        },
    };
    store.version = SESSION_VERSION;
    store.sessions.push((String::from_str(root_key), session));
    proof {
        let before = loaded_sessions(read);
        let after = store.sessions@;
        assert(after.drop_last() =~= before);
        assert(last_entry(after, root_key@) == Some(after.len() - 1));
        assert forall|other: Seq<char>| other != root_key@ implies #[trigger] session_of(
            after,
            other,
        ) == session_of(before, other) by {
            assert(last_entry(after, other) == last_entry(before, other));
            if last_entry(before, other) is Some {
                lemma_last_entry(before, other);
            }
        }
    }
    Ok(store)
}

} // verus!
