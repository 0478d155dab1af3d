//! Conversation bookkeeping on the list of stored conversations: adding,
//! replacing and removing messages, removing conversations, and the naming,
//! ordering and pruning of backup files.
//!
//! The functions here work on the list that the caller has read from the
//! conversations file; reading and writing the file stays with the caller.

use vstd::prelude::*;
use crate::data::types::{
    BackupInfo, ConversationMessage, ConversationMessageUpdate, ConversationSession,
};
use crate::text::{push_str, str_eq, starts_with_str, to_owned_string};

verus! {

/// Why a conversation operation was refused.
#[derive(Debug)]
pub enum StoreError {
    /// The conversations file is not there.
    FileMissing,
    /// No conversation has this id.
    SessionNotFound(String),
    /// The conversation has no message with this id.
    MessageNotFound(String),
    /// No conversation with this id could be deleted.
    ConversationNotFound(String),
    /// A message without a type.
    EmptyMessageType(String),
    /// A message without a source.
    EmptyMessageSource(String),
    /// A backup kind other than `chat` or `conversation`.
    InvalidBackupType(String),
}

/// The text the store reports for an error.
pub open spec fn store_error_text(e: StoreError) -> Seq<char> {
    match e {
        StoreError::FileMissing => "Conversations file does not exist"@,
        StoreError::SessionNotFound(id) => "Session "@ + id@ + " not found"@,
        StoreError::MessageNotFound(id) => "Message "@ + id@ + " not found"@,
        StoreError::ConversationNotFound(id) => "Conversation with ID "@ + id@ + " not found"@,
        StoreError::EmptyMessageType(id) => "Message type is empty for message "@ + id@,
        StoreError::EmptyMessageSource(id) => "Message source is empty for message "@ + id@,
        StoreError::InvalidBackupType(t) => "Invalid backup type: "@ + t@,
    }
}

fn concat2(a: &str, b: &str) -> (s: String)
    ensures
        s@ == a@ + b@,
{
    let mut s = to_owned_string(a);
    push_str(&mut s, b);
    s
}

fn concat3(a: &str, b: &str, c: &str) -> (s: String)
    ensures
        s@ == a@ + b@ + c@,
{
    let mut s = to_owned_string(a);
    push_str(&mut s, b);
    push_str(&mut s, c);
    s
}

impl StoreError {
    /// The message reported for this error.
    pub fn message(&self) -> (s: String)
        ensures
            s@ == store_error_text(*self),
    {
        match self {
            StoreError::FileMissing => to_owned_string("Conversations file does not exist"),
            StoreError::SessionNotFound(id) => concat3("Session ", id.as_str(), " not found"),
            StoreError::MessageNotFound(id) => concat3("Message ", id.as_str(), " not found"),
            StoreError::ConversationNotFound(id) => concat3(
                "Conversation with ID ",
                id.as_str(),
                " not found",
            ),
            StoreError::EmptyMessageType(id) => concat2("Message type is empty for message ", id.as_str()),
            StoreError::EmptyMessageSource(id) => concat2("Message source is empty for message ", id.as_str()),
            StoreError::InvalidBackupType(t) => concat2("Invalid backup type: ", t.as_str()),
        }
    }
}

// ---------------------------------------------------------------------------
// Model
// ---------------------------------------------------------------------------

/// Whether some conversation has id `id`.
pub open spec fn has_session(cs: Seq<ConversationSession>, id: Seq<char>) -> bool {
    exists|i: int| 0 <= i < cs.len() && (#[trigger] cs[i]).id@ == id
}

/// Whether `i` is the first position of a conversation with id `id`.
pub open spec fn is_first_session(cs: Seq<ConversationSession>, id: Seq<char>, i: int) -> bool {
    &&& 0 <= i < cs.len()
    &&& cs[i].id@ == id
    &&& forall|k: int| 0 <= k < i ==> (#[trigger] cs[k]).id@ != id
}

/// The first position of a conversation with id `id` (`-1` where there is none).
pub open spec fn first_session(cs: Seq<ConversationSession>, id: Seq<char>) -> int {
    if exists|i: int| is_first_session(cs, id, i) {
        choose|i: int| is_first_session(cs, id, i)
    } else {
        -1
    }
}

/// Whether some message has id `id`.
pub open spec fn has_message(ms: Seq<ConversationMessage>, id: Seq<char>) -> bool {
    exists|j: int| 0 <= j < ms.len() && (#[trigger] ms[j]).id@ == id
}

/// Whether `j` is the first position of a message with id `id`.
pub open spec fn is_first_message(ms: Seq<ConversationMessage>, id: Seq<char>, j: int) -> bool {
    &&& 0 <= j < ms.len()
    &&& ms[j].id@ == id
    &&& forall|k: int| 0 <= k < j ==> (#[trigger] ms[k]).id@ != id
}

/// The first position of a message with id `id` (`-1` where there is none).
pub open spec fn first_message(ms: Seq<ConversationMessage>, id: Seq<char>) -> int {
    if exists|j: int| is_first_message(ms, id, j) {
        choose|j: int| is_first_message(ms, id, j)
    } else {
        -1
    }
}

/// Whether two conversations agree on everything but their messages.
pub open spec fn same_but_messages(a: ConversationSession, b: ConversationSession) -> bool {
    &&& a.id == b.id
    &&& a.name == b.name
    &&& a.start_time == b.start_time
    &&& a.end_time == b.end_time
    &&& a.is_active == b.is_active
    &&& a.insights@ == b.insights@
}

/// `after` is `before` with the messages of the conversation at `i` replaced by `ms`.
pub open spec fn replaced_messages(
    before: Seq<ConversationSession>,
    after: Seq<ConversationSession>,
    i: int,
    ms: Seq<ConversationMessage>,
) -> bool {
    &&& 0 <= i < before.len()
    &&& after == before.update(i, after[i])
    &&& same_but_messages(after[i], before[i])
    &&& after[i].messages@ == ms
}

/// The messages after adding each of `batch` in turn, skipping one whose id is
/// already there (also one added earlier in the same batch).
pub open spec fn append_new(ms: Seq<ConversationMessage>, batch: Seq<ConversationMessage>) -> Seq<
    ConversationMessage,
>
    decreases batch.len(),
{
    if batch.len() == 0 {
        ms
    } else {
        let prev = append_new(ms, batch.drop_last());
        if has_message(prev, batch.last().id@) {
            prev
        } else {
            prev.push(batch.last())
        }
    }
}

/// `new_m` is `old_m` with the fields that `u` carries replaced.
pub open spec fn applied_update(
    old_m: ConversationMessage,
    u: ConversationMessageUpdate,
    new_m: ConversationMessage,
) -> bool {
    &&& new_m.content == (match u.content {
        Some(c) => c,
        None => old_m.content,
    })
    &&& new_m.confidence_bits == (match u.confidence_bits {
        Some(b) => Some(b),
        None => old_m.confidence_bits,
    })
    &&& new_m.timestamp == (match u.timestamp {
        Some(t) => t,
        None => old_m.timestamp,
    })
    &&& new_m.id == old_m.id
    &&& new_m.message_type == old_m.message_type
    &&& new_m.source == old_m.source
    &&& new_m.is_preview == old_m.is_preview
    &&& new_m.is_typing == old_m.is_typing
    &&& new_m.persistence_state == old_m.persistence_state
    &&& new_m.retry_count == old_m.retry_count
    &&& new_m.last_save_attempt == old_m.last_save_attempt
    &&& new_m.save_error == old_m.save_error
}

/// The messages without those whose id is `id`.
pub open spec fn without_message(ms: Seq<ConversationMessage>, id: Seq<char>) -> Seq<
    ConversationMessage,
> {
    ms.filter(|m: ConversationMessage| m.id@ != id)
}

/// The conversations without those whose id is `id`.
pub open spec fn without_session(cs: Seq<ConversationSession>, id: Seq<char>) -> Seq<
    ConversationSession,
> {
    cs.filter(|s: ConversationSession| s.id@ != id)
}

/// Whether no two messages share an id.
pub open spec fn unique_message_ids(ms: Seq<ConversationMessage>) -> bool {
    forall|a: int, b: int|
        0 <= a < b < ms.len() ==> (#[trigger] ms[a]).id@ != (#[trigger] ms[b]).id@
}

proof fn lemma_first_session(cs: Seq<ConversationSession>, id: Seq<char>, i: int)
    requires
        is_first_session(cs, id, i),
    ensures
        first_session(cs, id) == i,
        has_session(cs, id),
{
    let c = choose|j: int| is_first_session(cs, id, j);
    assert(is_first_session(cs, id, c));
    if c < i {
        assert(cs[c].id@ != id);
    }
    if i < c {
        assert(cs[i].id@ != id);
    }
}

proof fn lemma_first_message(ms: Seq<ConversationMessage>, id: Seq<char>, j: int)
    requires
        is_first_message(ms, id, j),
    ensures
        first_message(ms, id) == j,
        has_message(ms, id),
{
    let c = choose|k: int| is_first_message(ms, id, k);
    assert(is_first_message(ms, id, c));
    if c < j {
        assert(ms[c].id@ != id);
    }
    if j < c {
        assert(ms[j].id@ != id);
    }
}

// ---------------------------------------------------------------------------
// Lookup
// ---------------------------------------------------------------------------

/// The position of the first conversation with id `id`.
pub fn find_session(cs: &Vec<ConversationSession>, id: &str) -> (r: Option<usize>)
    ensures
        match r {
            Some(i) => is_first_session(cs@, id@, i as int) && first_session(cs@, id@) == i,
            None => !has_session(cs@, id@) && first_session(cs@, id@) == -1,
        },
{
    let mut i: usize = 0;
    while i < cs.len()
        invariant
            i <= cs.len(),
            forall|k: int| 0 <= k < i ==> (#[trigger] cs@[k]).id@ != id@,
        decreases cs.len() - i,
    {
        if str_eq(cs[i].id.as_str(), id) {
            proof {
                lemma_first_session(cs@, id@, i as int);
            }
            return Some(i);
        }
        i = i + 1;
    }
    proof {
        if exists|j: int| is_first_session(cs@, id@, j) {
            let j = choose|j: int| is_first_session(cs@, id@, j);
            assert(cs@[j].id@ != id@);
        }
    }
    None
}

/// The position of the first message with id `id`.
pub fn find_message(ms: &Vec<ConversationMessage>, id: &str) -> (r: Option<usize>)
    ensures
        match r {
            Some(j) => is_first_message(ms@, id@, j as int) && first_message(ms@, id@) == j,
            None => !has_message(ms@, id@) && first_message(ms@, id@) == -1,
        },
{
    let mut j: usize = 0;
    while j < ms.len()
        invariant
            j <= ms.len(),
            forall|k: int| 0 <= k < j ==> (#[trigger] ms@[k]).id@ != id@,
        decreases ms.len() - j,
    {
        if str_eq(ms[j].id.as_str(), id) {
            proof {
                lemma_first_message(ms@, id@, j as int);
            }
            return Some(j);
        }
        j = j + 1;
    }
    proof {
        if exists|k: int| is_first_message(ms@, id@, k) {
            let k = choose|k: int| is_first_message(ms@, id@, k);
            assert(ms@[k].id@ != id@);
        }
    }
    None
}

// ---------------------------------------------------------------------------
// Messages
// ---------------------------------------------------------------------------

/// Refuses a message without a type or without a source.
pub fn validate_conversation_message(m: &ConversationMessage) -> (r: Result<(), StoreError>)
    ensures
        m.message_type@.len() == 0 ==> (r matches Err(StoreError::EmptyMessageType(id))
            && id@ == m.id@),
        m.message_type@.len() > 0 && m.source@.len() == 0 ==> (r matches Err(
            StoreError::EmptyMessageSource(id),
        ) && id@ == m.id@),
        r is Ok <==> m.message_type@.len() > 0 && m.source@.len() > 0,
{
    if m.message_type.as_str().unicode_len() == 0 {
        return Err(StoreError::EmptyMessageType(to_owned_string(m.id.as_str())));
    }
    if m.source.as_str().unicode_len() == 0 {
        return Err(StoreError::EmptyMessageSource(to_owned_string(m.id.as_str())));
    }
    Ok(())
}

/// Adds `message` to the first conversation with id `session_id`, unless that
/// conversation already holds a message with the same id. Returns whether the
/// message was added.
pub fn save_conversation_message(
    cs: &mut Vec<ConversationSession>,
    session_id: &str,
    message: ConversationMessage,
) -> (r: Result<bool, StoreError>)
    ensures
        r is Ok <==> has_session(old(cs)@, session_id@),
        r matches Err(e) ==> e matches StoreError::SessionNotFound(id) && id@ == session_id@
            && final(cs)@ == old(cs)@,
        r matches Ok(added) ==> {
            let i = first_session(old(cs)@, session_id@);
            let ms = old(cs)@[i].messages@;
            &&& added == !has_message(ms, message.id@)
            &&& replaced_messages(
                old(cs)@,
                final(cs)@,
                i,
                if added {
                    ms.push(message)
                } else {
                    ms
                },
            )
        },
{
    let found = find_session(cs, session_id);
    match found {
        None => Err(StoreError::SessionNotFound(to_owned_string(session_id))),
        Some(i) => {
            let ghost before = cs@;
            if find_message(&cs[i].messages, message.id.as_str()).is_some() {
                assert(cs@ == before.update(i as int, cs@[i as int]));
                return Ok(false);
            }
            let mut s = cs.remove(i);
            s.messages.push(message);
            cs.insert(i, s);
            assert(cs@ =~= before.update(i as int, cs@[i as int]));
            Ok(true)
        },
    }
}

/// Adds each message of `messages`, in order, to the first conversation with id
/// `session_id`, skipping a message whose id that conversation already holds.
pub fn batch_save_conversation_messages(
    cs: &mut Vec<ConversationSession>,
    session_id: &str,
    messages: Vec<ConversationMessage>,
) -> (r: Result<(), StoreError>)
    ensures
        r is Ok <==> has_session(old(cs)@, session_id@),
        r matches Err(e) ==> e matches StoreError::SessionNotFound(id) && id@ == session_id@
            && final(cs)@ == old(cs)@,
        r is Ok ==> {
            let i = first_session(old(cs)@, session_id@);
            replaced_messages(
                old(cs)@,
                final(cs)@,
                i,
                append_new(old(cs)@[i].messages@, messages@),
            )
        },
{
    let found = find_session(cs, session_id);
    match found {
        None => Err(StoreError::SessionNotFound(to_owned_string(session_id))),
        Some(i) => {
            let ghost before = cs@;
            let ghost batch = messages@;
            let mut s = cs.remove(i);
            let ghost orig = s.messages@;
            let mut rest = messages;
            let n: usize = rest.len();
            assert(batch.len() == n);
            let mut k: usize = 0;
            while rest.len() > 0
                invariant
                    k <= batch.len() <= usize::MAX,
                    rest@ == batch.skip(k as int),
                    s.messages@ == append_new(orig, batch.take(k as int)),
                    same_but_messages(s, before[i as int]),
                decreases rest.len(),
            {
                let m = rest.remove(0);
                assert(batch.take(k + 1).drop_last() =~= batch.take(k as int));
                assert(batch.take(k + 1).last() == m);
                let dup = find_message(&s.messages, m.id.as_str());
                if dup.is_none() {
                    s.messages.push(m);
                }
                assert(rest@ =~= batch.skip(k + 1));
                k = k + 1;
            }
            assert(batch.take(k as int) =~= batch);
            cs.insert(i, s);
            assert(cs@ =~= before.update(i as int, cs@[i as int]));
            Ok(())
        },
    }
}

/// Replaces the fields that `updates` carries in the first message with id
/// `message_id` of the first conversation with id `session_id`.
pub fn update_conversation_message(
    cs: &mut Vec<ConversationSession>,
    session_id: &str,
    message_id: &str,
    updates: ConversationMessageUpdate,
) -> (r: Result<(), StoreError>)
    ensures
        !has_session(old(cs)@, session_id@) ==> (r matches Err(StoreError::SessionNotFound(id))
            && id@ == session_id@),
        has_session(old(cs)@, session_id@) && !has_message(
            old(cs)@[first_session(old(cs)@, session_id@)].messages@,
            message_id@,
        ) ==> (r matches Err(StoreError::MessageNotFound(id)) && id@ == message_id@),
        r is Err ==> final(cs)@ == old(cs)@,
        r is Ok ==> {
            let i = first_session(old(cs)@, session_id@);
            let ms = old(cs)@[i].messages@;
            let j = first_message(ms, message_id@);
            &&& has_session(old(cs)@, session_id@)
            &&& has_message(ms, message_id@)
            &&& replaced_messages(old(cs)@, final(cs)@, i, ms.update(j, final(cs)@[i].messages@[j]))
            &&& applied_update(ms[j], updates, final(cs)@[i].messages@[j])
        },
{
    let found = find_session(cs, session_id);
    let i = match found {
        None => {
            return Err(StoreError::SessionNotFound(to_owned_string(session_id)));
        },
        Some(i) => i,
    };
    let j = match find_message(&cs[i].messages, message_id) {
        None => {
            return Err(StoreError::MessageNotFound(to_owned_string(message_id)));
        },
        Some(j) => j,
    };
    let ghost before = cs@;
    let mut s = cs.remove(i);
    let ghost ms = s.messages@;
    let mut m = s.messages.remove(j);
    let ghost old_m = m;
    if let Some(c) = updates.content {
        m.content = c;
    }
    if let Some(b) = updates.confidence_bits {
        m.confidence_bits = Some(b);
    }
    if let Some(t) = updates.timestamp {
        m.timestamp = t;
    }
    assert(applied_update(old_m, updates, m));
    s.messages.insert(j, m);
    assert(s.messages@ =~= ms.update(j as int, m));
    cs.insert(i, s);
    assert(cs@ =~= before.update(i as int, cs@[i as int]));
    Ok(())
}

/// Removes every message with id `message_id` from the first conversation with
/// id `session_id`.
pub fn delete_conversation_message(
    cs: &mut Vec<ConversationSession>,
    session_id: &str,
    message_id: &str,
) -> (r: Result<(), StoreError>)
    ensures
        !has_session(old(cs)@, session_id@) ==> (r matches Err(StoreError::SessionNotFound(id))
            && id@ == session_id@),
        has_session(old(cs)@, session_id@) && !has_message(
            old(cs)@[first_session(old(cs)@, session_id@)].messages@,
            message_id@,
        ) ==> (r matches Err(StoreError::MessageNotFound(id)) && id@ == message_id@),
        r is Err ==> final(cs)@ == old(cs)@,
        r is Ok ==> {
            let i = first_session(old(cs)@, session_id@);
            let ms = old(cs)@[i].messages@;
            &&& has_session(old(cs)@, session_id@)
            &&& has_message(ms, message_id@)
            &&& replaced_messages(old(cs)@, final(cs)@, i, without_message(ms, message_id@))
        },
{
    let found = find_session(cs, session_id);
    let i = match found {
        None => {
            return Err(StoreError::SessionNotFound(to_owned_string(session_id)));
        },
        Some(i) => i,
    };
    if find_message(&cs[i].messages, message_id).is_none() {
        return Err(StoreError::MessageNotFound(to_owned_string(message_id)));
    }
    let ghost before = cs@;
    let mut s = cs.remove(i);
    let ghost ms = s.messages@;
    let ghost f = |m: ConversationMessage| m.id@ != message_id@;
    let mut rest: Vec<ConversationMessage> = Vec::new();
    std::mem::swap(&mut rest, &mut s.messages);
    let n: usize = rest.len();
    assert(ms.len() == n);
    let mut k: usize = 0;
    while rest.len() > 0
        invariant
            k <= ms.len() <= usize::MAX,
            f == (|m: ConversationMessage| m.id@ != message_id@),
            rest@ == ms.skip(k as int),
            s.messages@ == ms.take(k as int).filter(f),
            same_but_messages(s, before[i as int]),
        decreases rest.len(),
    {
        let m = rest.remove(0);
        proof {
            reveal_with_fuel(Seq::filter, 1);
            assert(ms.take(k + 1).drop_last() =~= ms.take(k as int));
            assert(ms.take(k + 1).last() == m);
        }
        let same = str_eq(m.id.as_str(), message_id);
        if !same {
            let ghost prev = s.messages@;
            s.messages.push(m);
            assert(f(m));
            assert(s.messages@ =~= prev.push(m));
        } else {
            assert(!f(m));
        }
        assert(s.messages@ == ms.take(k + 1).filter(f));
        assert(rest@ =~= ms.skip(k + 1));
        k = k + 1;
    }
    assert(ms.take(k as int) =~= ms);
    cs.insert(i, s);
    assert(cs@ =~= before.update(i as int, cs@[i as int]));
    Ok(())
}

/// Removes every conversation with id `conversation_id`.
pub fn delete_conversation(cs: &mut Vec<ConversationSession>, conversation_id: &str) -> (r: Result<
    (),
    StoreError,
>)
    ensures
        r is Ok <==> has_session(old(cs)@, conversation_id@),
        r matches Err(e) ==> e matches StoreError::ConversationNotFound(id) && id@
            == conversation_id@ && final(cs)@ == old(cs)@,
        r is Ok ==> final(cs)@ == without_session(old(cs)@, conversation_id@),
{
    if find_session(cs, conversation_id).is_none() {
        return Err(StoreError::ConversationNotFound(to_owned_string(conversation_id)));
    }
    let ghost orig = cs@;
    let ghost f = |s: ConversationSession| s.id@ != conversation_id@;
    let mut rest: Vec<ConversationSession> = Vec::new();
    std::mem::swap(&mut rest, cs);
    let n: usize = rest.len();
    assert(orig.len() == n);
    let mut k: usize = 0;
    while rest.len() > 0
        invariant
            k <= orig.len() <= usize::MAX,
            f == (|s: ConversationSession| s.id@ != conversation_id@),
            rest@ == orig.skip(k as int),
            cs@ == orig.take(k as int).filter(f),
        decreases rest.len(),
    {
        let s = rest.remove(0);
        proof {
            reveal_with_fuel(Seq::filter, 1);
            assert(orig.take(k + 1).drop_last() =~= orig.take(k as int));
            assert(orig.take(k + 1).last() == s);
        }
        let same = str_eq(s.id.as_str(), conversation_id);
        if !same {
            let ghost prev = cs@;
            cs.push(s);
            assert(f(s));
            assert(cs@ =~= prev.push(s));
        } else {
            assert(!f(s));
        }
        assert(cs@ == orig.take(k + 1).filter(f));
        assert(rest@ =~= orig.skip(k + 1));
        k = k + 1;
    }
    assert(orig.take(k as int) =~= orig);
    Ok(())
}

// ---------------------------------------------------------------------------
// Backups
// ---------------------------------------------------------------------------

/// The store a backup belongs to.
#[derive(Debug, Clone, Copy, PartialEq, Eq, Structural)]
pub enum BackupKind {
    Chat,
    Conversation,
}

/// The kind of backup a file name denotes: `chat` for names that begin with
/// `chat_`, else `conversation` for names that begin with `conversation_`.
pub open spec fn backup_type_spec(name: Seq<char>) -> Option<Seq<char>> {
    if "chat_"@.is_prefix_of(name) {
        Some("chat"@)
    } else if "conversation_"@.is_prefix_of(name) {
        Some("conversation"@)
    } else {
        None
    }
}

/// The kind of backup a file name denotes, or `None` for another file.
pub fn backup_type_of(filename: &str) -> (r: Option<String>)
    ensures
        match r {
            Some(t) => backup_type_spec(filename@) == Some(t@),
            None => backup_type_spec(filename@) is None,
        },
{
    if starts_with_str(filename, "chat_") {
        Some(to_owned_string("chat"))
    } else if starts_with_str(filename, "conversation_") {
        Some(to_owned_string("conversation"))
    } else {
        None
    }
}

/// The store that a restore of the given backup kind writes to.
pub fn restore_target(backup_type: &str) -> (r: Result<BackupKind, StoreError>)
    ensures
        backup_type@ == "chat"@ ==> r == Ok::<BackupKind, StoreError>(BackupKind::Chat),
        backup_type@ == "conversation"@ ==> r == Ok::<BackupKind, StoreError>(
            BackupKind::Conversation,
        ),
        backup_type@ != "chat"@ && backup_type@ != "conversation"@ ==> (r matches Err(
            StoreError::InvalidBackupType(t),
        ) && t@ == backup_type@),
{
    proof {
        reveal_strlit("chat");
        reveal_strlit("conversation");
        assert("chat"@.len() == 4);
        assert("conversation"@.len() == 12);
    }
    if str_eq(backup_type, "chat") {
        assert(backup_type@ != "conversation"@);
        Ok(BackupKind::Chat)
    } else if str_eq(backup_type, "conversation") {
        assert(backup_type@ != "chat"@);
        Ok(BackupKind::Conversation)
    } else {
        Err(StoreError::InvalidBackupType(to_owned_string(backup_type)))
    }
}

/// The file name of a backup: the prefix, `_`, the time stamp and `.json`.
pub fn backup_file_name(prefix: &str, stamp: &str) -> (s: String)
    ensures
        s@ == prefix@ + "_"@ + stamp@ + ".json"@,
{
    let mut s = concat3(prefix, "_", stamp);
    push_str(&mut s, ".json");
    s
}

/// Whether the backups are ordered newest first.
pub open spec fn newest_first(v: Seq<BackupInfo>) -> bool {
    forall|a: int, b: int| 0 <= a < b < v.len() ==> (#[trigger] v[a]).modified >= (#[trigger] v[
        b]).modified
}

/// The backups of `v` modified at `m`, in their order in `v`.
pub open spec fn same_age(v: Seq<BackupInfo>, m: i64) -> Seq<BackupInfo> {
    v.filter(|b: BackupInfo| b.modified == m)
}

proof fn lemma_none_of_age(v: Seq<BackupInfo>, m: i64)
    requires
        forall|i: int| 0 <= i < v.len() ==> (#[trigger] v[i]).modified != m,
    ensures
        same_age(v, m) == Seq::<BackupInfo>::empty(),
    decreases v.len(),
{
    reveal_with_fuel(Seq::filter, 1);
    if v.len() > 0 {
        lemma_none_of_age(v.drop_last(), m);
        assert(v.last() == v[v.len() - 1]);
    }
    assert(same_age(v, m) =~= Seq::<BackupInfo>::empty());
}

/// The backups ordered newest first; backups of the same age keep their order.
pub fn sort_backups_newest_first(v: Vec<BackupInfo>) -> (r: Vec<BackupInfo>)
    ensures
        newest_first(r@),
        r@.to_multiset() == v@.to_multiset(),
        forall|m: i64| #[trigger] same_age(r@, m) == same_age(v@, m),
{
    let ghost orig = v@;
    let mut rest = v;
    let n: usize = rest.len();
    let mut r: Vec<BackupInfo> = Vec::new();
    let mut k: usize = 0;
    assert(r@ =~= orig.take(0));
    while rest.len() > 0
        invariant
            k <= orig.len() == n,
            rest@ == orig.skip(k as int),
            newest_first(r@),
            r@.to_multiset() == orig.take(k as int).to_multiset(),
            r@.len() == k,
            forall|m: i64| #[trigger] same_age(r@, m) == same_age(orig.take(k as int), m),
        decreases rest.len(),
    {
        let x = rest.remove(0);
        let mut p: usize = 0;
        while p < r.len() && r[p].modified >= x.modified
            invariant
                p <= r.len(),
                forall|q: int| 0 <= q < p ==> (#[trigger] r@[q]).modified >= x.modified,
            decreases r.len() - p,
        {
            p = p + 1;
        }
        let ghost before = r@;
        proof {
            assert(p < r.len() ==> before[p as int].modified < x.modified);
        }
        r.insert(p, x);
        proof {
            assert(r@ == before.insert(p as int, x));
            assert(before.insert(p as int, x) =~= before.take(p as int).push(x) + before.skip(
                p as int,
            ));
            vstd::seq_lib::lemma_multiset_commutative(before.take(p as int).push(x), before.skip(
                p as int,
            ));
            vstd::seq_lib::lemma_multiset_commutative(before.take(p as int), before.skip(p as int));
            assert(before.take(p as int) + before.skip(p as int) =~= before);
            before.take(p as int).to_multiset_ensures();
            orig.take(k as int).to_multiset_ensures();
            assert(orig.take(k + 1) =~= orig.take(k as int).push(x));
            assert forall|a: int, b: int| 0 <= a < b < r@.len() implies (#[trigger] r@[a]).modified
                >= (#[trigger] r@[b]).modified by {
                if a < p && b == p {
                } else if a < p && b > p {
                    assert(r@[b] == before[b - 1]);
                    assert(before[a].modified >= before[b - 1].modified);
                } else if a == p && b > p {
                    assert(r@[b] == before[b - 1]);
                    assert(before[p as int].modified >= before[b - 1].modified);
                } else if a > p {
                    assert(r@[a] == before[a - 1]);
                    assert(r@[b] == before[b - 1]);
                }
            }
            let lo = before.take(p as int);
            let hi = before.skip(p as int);
            assert forall|m: i64| #[trigger] same_age(r@, m) == same_age(orig.take(k + 1), m) by {
                let f = |b: BackupInfo| b.modified == m;
                reveal_with_fuel(Seq::filter, 1);
                Seq::filter_distributes_over_add(lo.push(x), hi, f);
                Seq::filter_distributes_over_add(lo, hi, f);
                assert(lo.push(x).drop_last() =~= lo);
                assert(same_age(orig.take(k as int), m) == same_age(before, m));
                assert(orig.take(k + 1).drop_last() =~= orig.take(k as int));
                if x.modified == m {
                    assert forall|i: int| 0 <= i < hi.len() implies (#[trigger] hi[i]).modified != m by {
                        assert(hi[i] == before[p + i]);
                        if i > 0 {
                            assert(before[p as int].modified >= before[p + i].modified);
                        }
                    }
                    lemma_none_of_age(hi, m);
                    assert(same_age(before, m) =~= same_age(lo, m));
                } else {
                    assert(same_age(lo.push(x), m) =~= same_age(lo, m));
                }
            }
        }
        assert(rest@ =~= orig.skip(k + 1));
        k = k + 1;
    }
    assert(orig.take(k as int) =~= orig);
    r
}

/// The backups whose file name begins with `prefix`.
pub open spec fn backups_with_prefix(v: Seq<BackupInfo>, prefix: Seq<char>) -> Seq<BackupInfo> {
    v.filter(|b: BackupInfo| prefix.is_prefix_of(b.filename@))
}

/// The backups with names beginning with `prefix` that fall outside the `keep`
/// newest: `removed` holds as many of them as exceed `keep`, and none of them is
/// newer than any backup that stays.
pub open spec fn prune_selection(
    v: Seq<BackupInfo>,
    prefix: Seq<char>,
    keep: nat,
    removed: Seq<BackupInfo>,
) -> bool {
    let cands = backups_with_prefix(v, prefix);
    let kept = cands.to_multiset().sub(removed.to_multiset());
    &&& removed.len() == if cands.len() > keep {
        cands.len() - keep
    } else {
        0
    }
    &&& removed.to_multiset().subset_of(cands.to_multiset())
    &&& forall|a: BackupInfo, b: BackupInfo|
        removed.to_multiset().count(a) > 0 && #[trigger] kept.count(b) > 0 ==> #[trigger] a.modified
            <= b.modified
}

/// The backups to delete so that only the `keep` newest of those whose name
/// begins with `prefix` remain.
pub fn backups_to_remove(v: Vec<BackupInfo>, prefix: &str, keep: usize) -> (r: Vec<BackupInfo>)
    ensures
        prune_selection(v@, prefix@, keep as nat, r@),
{
    let ghost orig = v@;
    let ghost f = |b: BackupInfo| prefix@.is_prefix_of(b.filename@);
    let mut rest = v;
    let n: usize = rest.len();
    let mut cands: Vec<BackupInfo> = Vec::new();
    let mut k: usize = 0;
    while rest.len() > 0
        invariant
            k <= orig.len() == n,
            f == (|b: BackupInfo| prefix@.is_prefix_of(b.filename@)),
            rest@ == orig.skip(k as int),
            cands@ == orig.take(k as int).filter(f),
        decreases rest.len(),
    {
        let b = rest.remove(0);
        proof {
            reveal_with_fuel(Seq::filter, 1);
            assert(orig.take(k + 1).drop_last() =~= orig.take(k as int));
            assert(orig.take(k + 1).last() == b);
        }
        if starts_with_str(b.filename.as_str(), prefix) {
            let ghost prev = cands@;
            cands.push(b);
            assert(cands@ =~= prev.push(b));
        }
        assert(cands@ == orig.take(k + 1).filter(f));
        assert(rest@ =~= orig.skip(k + 1));
        k = k + 1;
    }
    assert(orig.take(k as int) =~= orig);
    let ghost cs = cands@;
    let mut sorted = sort_backups_newest_first(cands);
    let ghost s = sorted@;
    let mut removed: Vec<BackupInfo> = Vec::new();
    if sorted.len() > keep {
        let mut rem = sorted.split_off(keep);
        std::mem::swap(&mut removed, &mut rem);
    }
    proof {
        let kp = if s.len() > keep { keep as int } else { s.len() as int };
        assert(removed@ =~= s.skip(kp));
        assert(s.take(kp) + s.skip(kp) =~= s);
        vstd::seq_lib::lemma_multiset_commutative(s.take(kp), s.skip(kp));
        let kept = cs.to_multiset().sub(removed@.to_multiset());
        assert(kept =~= s.take(kp).to_multiset());
        s.take(kp).to_multiset_ensures();
        s.skip(kp).to_multiset_ensures();
        assert forall|a: BackupInfo, b: BackupInfo|
            removed@.to_multiset().count(a) > 0 && #[trigger] kept.count(b) > 0 implies #[trigger] a.modified
            <= b.modified by {
            assert(s.skip(kp).contains(a));
            assert(s.take(kp).contains(b));
            let ia = choose|ia: int| 0 <= ia < s.skip(kp).len() && s.skip(kp)[ia] == a;
            let ib = choose|ib: int| 0 <= ib < s.take(kp).len() && s.take(kp)[ib] == b;
            assert(s[ib] == b);
            assert(s[kp + ia] == a);
        }
        assert(cs.to_multiset() == s.to_multiset());
        cs.to_multiset_ensures();
        s.to_multiset_ensures();
        assert(removed@.len() == if cs.len() > keep { cs.len() - keep } else { 0 });
        assert(removed@.to_multiset().subset_of(cs.to_multiset()));
    }
    removed
}

// ---------------------------------------------------------------------------
// Laws
// ---------------------------------------------------------------------------

/// A message that was saved is found in its conversation afterwards, whether it
/// was added or an equal id was already there.
pub proof fn law_saved_message_is_found(ms: Seq<ConversationMessage>, m: ConversationMessage)
    ensures
        has_message(
            if has_message(ms, m.id@) {
                ms
            } else {
                ms.push(m)
            },
            m.id@,
        ),
{
    if !has_message(ms, m.id@) {
        assert(ms.push(m)[ms.len() as int] == m);
    }
}

/// Saving keeps the message ids of a conversation distinct.
pub proof fn law_save_keeps_ids_unique(ms: Seq<ConversationMessage>, m: ConversationMessage)
    requires
        unique_message_ids(ms),
    ensures
        unique_message_ids(
            if has_message(ms, m.id@) {
                ms
            } else {
                ms.push(m)
            },
        ),
{
    if !has_message(ms, m.id@) {
        let r = ms.push(m);
        assert forall|a: int, b: int| 0 <= a < b < r.len() implies (#[trigger] r[a]).id@ != (
        #[trigger] r[b]).id@ by {
            if b == ms.len() {
                assert(ms[a] == r[a]);
            }
        }
    }
}

/// Saving a batch keeps the message ids of a conversation distinct.
pub proof fn law_batch_save_keeps_ids_unique(
    ms: Seq<ConversationMessage>,
    batch: Seq<ConversationMessage>,
)
    requires
        unique_message_ids(ms),
    ensures
        unique_message_ids(append_new(ms, batch)),
    decreases batch.len(),
{
    if batch.len() > 0 {
        law_batch_save_keeps_ids_unique(ms, batch.drop_last());
        law_save_keeps_ids_unique(append_new(ms, batch.drop_last()), batch.last());
    }
}

/// After a batch is saved, every message of the batch has its id in the conversation.
pub proof fn law_batch_save_finds_every_message(
    ms: Seq<ConversationMessage>,
    batch: Seq<ConversationMessage>,
)
    ensures
        forall|k: int| 0 <= k < batch.len() ==> has_message(append_new(ms, batch), (
        #[trigger] batch[k]).id@),
        forall|j: int| 0 <= j < ms.len() ==> has_message(append_new(ms, batch), (
        #[trigger] ms[j]).id@),
    decreases batch.len(),
{
    if batch.len() > 0 {
        let prev = append_new(ms, batch.drop_last());
        law_batch_save_finds_every_message(ms, batch.drop_last());
        law_saved_message_is_found(prev, batch.last());
        let now = append_new(ms, batch);
        assert forall|q: int| 0 <= q < prev.len() implies now[q] == prev[q] by {}
        assert forall|k: int| 0 <= k < batch.len() implies has_message(now, (
        #[trigger] batch[k]).id@) by {
            if k < batch.len() - 1 {
                assert(batch.drop_last()[k] == batch[k]);
                assert(has_message(prev, batch[k].id@));
                let j = choose|j: int| 0 <= j < prev.len() && (#[trigger] prev[j]).id@
                    == batch[k].id@;
                assert(now[j] == prev[j]);
            }
        }
        assert forall|j: int| 0 <= j < ms.len() implies has_message(now, (#[trigger] ms[j]).id@) by {
            assert(has_message(prev, ms[j].id@));
            let q = choose|q: int| 0 <= q < prev.len() && (#[trigger] prev[q]).id@ == ms[j].id@;
            assert(now[q] == prev[q]);
        }
    }
}

/// Adding a batch whose ids are all present already changes nothing.
proof fn lemma_append_present(ms: Seq<ConversationMessage>, batch: Seq<ConversationMessage>)
    requires
        forall|k: int| 0 <= k < batch.len() ==> has_message(ms, (#[trigger] batch[k]).id@),
    ensures
        append_new(ms, batch) == ms,
    decreases batch.len(),
{
    if batch.len() > 0 {
        let front = batch.drop_last();
        assert forall|k: int| 0 <= k < front.len() implies has_message(ms, (#[trigger] front[k]).id@) by {
            assert(front[k] == batch[k]);
        }
        lemma_append_present(ms, front);
        assert(has_message(ms, batch[batch.len() - 1].id@));
    }
}

/// Saving the same batch a second time adds nothing.
pub proof fn law_batch_save_twice_is_once(ms: Seq<ConversationMessage>, batch: Seq<ConversationMessage>)
    ensures
        append_new(append_new(ms, batch), batch) == append_new(ms, batch),
{
    law_batch_save_finds_every_message(ms, batch);
    lemma_append_present(append_new(ms, batch), batch);
}

/// Where some conversation has id `id`, a first one has.
proof fn lemma_has_first_session(cs: Seq<ConversationSession>, id: Seq<char>, j: int)
    requires
        0 <= j < cs.len(),
        cs[j].id@ == id,
    ensures
        is_first_session(cs, id, first_session(cs, id)),
    decreases j,
{
    if exists|k: int| 0 <= k < j && (#[trigger] cs[k]).id@ == id {
        let k = choose|k: int| 0 <= k < j && (#[trigger] cs[k]).id@ == id;
        lemma_has_first_session(cs, id, k);
    } else {
        assert(is_first_session(cs, id, j));
        lemma_first_session(cs, id, j);
    }
}

/// Whether two lists of conversations hold the same conversations with the
/// same messages, in the same order.
pub open spec fn same_conversations(a: Seq<ConversationSession>, b: Seq<ConversationSession>) -> bool {
    &&& a.len() == b.len()
    &&& forall|k: int|
        0 <= k < a.len() ==> same_but_messages(#[trigger] a[k], b[k]) && a[k].messages@ == b[k].messages@
}

/// Repeating a batch save on the conversations that the first one left
/// changes nothing: the second call adds no message.
pub proof fn law_batch_save_repeat_changes_nothing(
    before: Seq<ConversationSession>,
    mid: Seq<ConversationSession>,
    after: Seq<ConversationSession>,
    id: Seq<char>,
    batch: Seq<ConversationMessage>,
)
    requires
        has_session(before, id),
        replaced_messages(
            before,
            mid,
            first_session(before, id),
            append_new(before[first_session(before, id)].messages@, batch),
        ),
        replaced_messages(
            mid,
            after,
            first_session(mid, id),
            append_new(mid[first_session(mid, id)].messages@, batch),
        ),
    ensures
        same_conversations(after, mid),
{
    let j = choose|j: int| 0 <= j < before.len() && (#[trigger] before[j]).id@ == id;
    lemma_has_first_session(before, id, j);
    let i = first_session(before, id);
    assert forall|k: int| 0 <= k < i implies (#[trigger] mid[k]).id@ != id by {
        assert(mid[k] == before[k]);
    }
    assert(is_first_session(mid, id, i));
    lemma_first_session(mid, id, i);
    law_batch_save_twice_is_once(before[i].messages@, batch);
    assert forall|k: int| 0 <= k < after.len() implies same_but_messages(#[trigger] after[k], mid[k])
        && after[k].messages@ == mid[k].messages@ by {
        if k != i {
            assert(after[k] == mid[k]);
        }
    }
}

/// After a message is deleted, no message with its id remains.
pub proof fn law_deleted_message_is_gone(ms: Seq<ConversationMessage>, id: Seq<char>)
    ensures
        !has_message(without_message(ms, id), id),
{
    let f = |m: ConversationMessage| m.id@ != id;
    if has_message(without_message(ms, id), id) {
        let j = choose|j: int| 0 <= j < ms.filter(f).len() && (#[trigger] ms.filter(f)[j]).id@
            == id;
        ms.lemma_filter_pred(f, j);
    }
}

/// After a conversation is deleted, no conversation with its id remains.
pub proof fn law_deleted_conversation_is_gone(cs: Seq<ConversationSession>, id: Seq<char>)
    ensures
        !has_session(without_session(cs, id), id),
{
    let f = |s: ConversationSession| s.id@ != id;
    if has_session(without_session(cs, id), id) {
        let i = choose|i: int| 0 <= i < cs.filter(f).len() && (#[trigger] cs.filter(f)[i]).id@
            == id;
        cs.lemma_filter_pred(f, i);
    }
}

/// Pruning leaves `keep` backups of the prefix, or all of them where there are fewer.
pub proof fn law_prune_keeps_the_newest(
    v: Seq<BackupInfo>,
    prefix: Seq<char>,
    keep: nat,
    removed: Seq<BackupInfo>,
)
    requires
        prune_selection(v, prefix, keep, removed),
    ensures
        ({
            let cands = backups_with_prefix(v, prefix);
            cands.to_multiset().sub(removed.to_multiset()).len() == if cands.len() > keep {
                keep
            } else {
                cands.len()
            }
        }),
{
    let cands = backups_with_prefix(v, prefix);
    cands.to_multiset_ensures();
    removed.to_multiset_ensures();
    broadcast use vstd::multiset::group_multiset_axioms;

}

} // verus!
