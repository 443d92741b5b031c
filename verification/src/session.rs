use vstd::prelude::*;

use crate::capture::{data_url, data_url_string};
use crate::models::{clone_opt_string, opt_str};
use crate::names::{new_uuid_string, sanitize_file_name, spec_sanitize_file_name};
use crate::text::{chars_of, chars_start_with, decimal, decimal_chars, owned, push_str, string_from_chars, trim, trim_chars};
use crate::transfer::{build_qr_svg, spec_build_qr_svg};
use crate::update::AppError;
use crate::lan::{escape_header_value, spec_escape_header_value};
use crate::url::{escape_url_component, spec_escape_url_component};

verus! {

/// How long a transfer session stays open without activity, in milliseconds.
pub const IDLE_SESSION_TIMEOUT_MS: u64 = 300_000;

/// How long after its last request a phone still counts as connected, in milliseconds.
pub const ACTIVE_DEVICE_WINDOW_MS: u64 = 15_000;

/// One message of the transfer chat.
pub struct LanTransferMessage {
    pub id: String,
    pub sender: String,
    pub kind: String,
    pub text: Option<String>,
    pub file_name: Option<String>,
    pub mime_type: Option<String>,
    pub size: Option<usize>,
    pub image_data_url: Option<String>,
    pub download_url: Option<String>,
    pub local_path: Option<String>,
    pub created_at: u64,
    pub status: String,
}

/// A message as the front end and the phone receive it.
pub struct LanTransferMessageDto {
    pub id: String,
    pub sender: String,
    pub kind: String,
    pub text: Option<String>,
    pub file_name: Option<String>,
    pub mime_type: Option<String>,
    pub size: Option<usize>,
    pub image_data_url: Option<String>,
    pub download_url: Option<String>,
    pub has_local_file: bool,
    pub created_at: u64,
    pub status: String,
}

/// The last event of a transfer session.
pub struct LanReceiverStatus {
    pub kind: String,
    pub message: String,
    pub received_kind: Option<String>,
}

/// A running transfer session; times are milliseconds since the Unix epoch.
pub struct LanSession {
    pub url: String,
    pub qr_svg: String,
    pub ip: String,
    pub port: u16,
    pub token: String,
    pub expires_at: Option<u64>,
    pub last_status: Option<LanReceiverStatus>,
    pub last_phone_seen: Option<u64>,
    pub last_activity: u64,
    pub messages: Vec<LanTransferMessage>,
    pub files: Vec<(String, LanTransferFile)>,
}

/// A file that the computer offers to the phone.
pub struct LanTransferFile {
    pub file_name: String,
    pub mime_type: String,
    pub bytes: Vec<u8>,
}

/// The state of the transfer feature as the front end sees it.
pub struct LanReceiverStateDto {
    pub running: bool,
    pub url: Option<String>,
    pub qr_svg: Option<String>,
    pub ip: Option<String>,
    pub port: Option<u16>,
    pub token: Option<String>,
    pub expires_at: Option<u64>,
    pub last_status: Option<LanReceiverStatus>,
    pub connected_devices: usize,
    pub messages: Vec<LanTransferMessageDto>,
}

/// The download link handed to the phone: links that already carry a query are kept, others
/// get the session token appended.
pub open spec fn spec_download_url(url: Option<Seq<char>>, token: Seq<char>) -> Option<Seq<char>> {
    match url {
        Some(u) => if u.contains('?') {
            Some(u)
        } else {
            Some(u + "?token="@ + spec_escape_url_component(token))
        },
        None => None,
    }
}

fn contains_question_mark(s: &str) -> (r: bool)
    ensures
        r == s@.contains('?'),
{
    let v = chars_of(s);
    for i in 0..v.len()
        invariant
            v@ == s@,
            forall|k: int| 0 <= k < i ==> v@[k] != '?',
    {
        if v[i] == '?' {
            assert(v@[i as int] == '?');
            return true;
        }
    }
    false
}

fn clone_status(s: &LanReceiverStatus) -> (r: LanReceiverStatus)
    ensures
        r.kind@ == s.kind@,
        r.message@ == s.message@,
        opt_str(r.received_kind) == opt_str(s.received_kind),
{
    LanReceiverStatus {
        kind: s.kind.clone(),
        message: s.message.clone(),
        received_kind: clone_opt_string(&s.received_kind),
    }
}

/// A message as the phone and the front end see it: the same fields, the download link with
/// the token, and whether a stored file exists in place of its path.
pub open spec fn dto_of(d: LanTransferMessageDto, m: LanTransferMessage, token: Seq<char>) -> bool {
    &&& d.id@ == m.id@
    &&& d.sender@ == m.sender@
    &&& d.kind@ == m.kind@
    &&& opt_str(d.text) == opt_str(m.text)
    &&& opt_str(d.file_name) == opt_str(m.file_name)
    &&& opt_str(d.mime_type) == opt_str(m.mime_type)
    &&& d.size == m.size
    &&& opt_str(d.image_data_url) == opt_str(m.image_data_url)
    &&& opt_str(d.download_url) == spec_download_url(opt_str(m.download_url), token)
    &&& d.has_local_file == m.local_path is Some
    &&& d.created_at == m.created_at
    &&& d.status@ == m.status@
}

/// The message as the phone and the front end see it.
pub fn message_to_dto(message: &LanTransferMessage, token: &str) -> (r: LanTransferMessageDto)
    ensures
        dto_of(r, *message, token@),
{
    let download_url = match &message.download_url {
        Some(url) => {
            if contains_question_mark(url.as_str()) {
                Some(url.clone())
            } else {
                let mut v = chars_of(url.as_str());
                push_str(&mut v, "?token=");
                let t = escape_url_component(token);
                push_str(&mut v, t.as_str());
                Some(string_from_chars(&v))
            }
        },
        None => None,
    };
    LanTransferMessageDto {
        id: message.id.clone(),
        sender: message.sender.clone(),
        kind: message.kind.clone(),
        text: clone_opt_string(&message.text),
        file_name: clone_opt_string(&message.file_name),
        mime_type: clone_opt_string(&message.mime_type),
        size: message.size,
        image_data_url: clone_opt_string(&message.image_data_url),
        download_url,
        has_local_file: message.local_path.is_some(),
        created_at: message.created_at,
        status: message.status.clone(),
    }
}

/// One when a phone made a request within the last fifteen seconds, else zero; a time of the
/// phone that lies ahead of `now` counts as no phone.
pub open spec fn spec_connected_devices(last_phone_seen: Option<u64>, now: u64) -> nat {
    match last_phone_seen {
        Some(seen) => if seen <= now && now - seen <= ACTIVE_DEVICE_WINDOW_MS {
            1
        } else {
            0
        },
        None => 0,
    }
}

/// How many phones count as connected to the session.
pub fn connected_devices(session: &LanSession, now: u64) -> (r: usize)
    ensures
        r == spec_connected_devices(session.last_phone_seen, now),
{
    match session.last_phone_seen {
        Some(seen) => if seen <= now && now - seen <= ACTIVE_DEVICE_WINDOW_MS {
            1
        } else {
            0
        },
        None => 0,
    }
}

/// The messages of a session as the front end sees them.
fn messages_to_dto(messages: &Vec<LanTransferMessage>, token: &str) -> (r: Vec<LanTransferMessageDto>)
    ensures
        r@.len() == messages@.len(),
        forall|k: int| 0 <= k < r@.len() ==> dto_of(#[trigger] r@[k], messages@[k], token@),
{
    let mut out: Vec<LanTransferMessageDto> = Vec::new();
    for i in 0..messages.len()
        invariant
            out@.len() == i,
            forall|k: int| 0 <= k < i ==> dto_of(#[trigger] out@[k], messages@[k], token@),
    {
        out.push(message_to_dto(&messages[i], token));
    }
    out
}

/// The state shown to the front end: everything of the running session, or a stopped state.
pub fn receiver_state_dto(session: Option<&LanSession>, now: u64) -> (r: LanReceiverStateDto)
    ensures
        r.running == session is Some,
        session is None ==> r.url is None && r.qr_svg is None && r.ip is None && r.port is None
            && r.token is None && r.expires_at is None && r.last_status is None
            && r.connected_devices == 0 && r.messages@.len() == 0,
        session matches Some(s) ==> {
            &&& opt_str(r.url) == Some(s.url@)
            &&& opt_str(r.qr_svg) == Some(s.qr_svg@)
            &&& opt_str(r.ip) == Some(s.ip@)
            &&& r.port == Some(s.port)
            &&& opt_str(r.token) == Some(s.token@)
            &&& r.expires_at == s.expires_at
            &&& match (r.last_status, s.last_status) {
                (Some(a), Some(b)) => a.kind@ == b.kind@ && a.message@ == b.message@ && opt_str(
                    a.received_kind,
                ) == opt_str(b.received_kind),
                (None, None) => true,
                _ => false,
            }
            &&& r.connected_devices == spec_connected_devices(s.last_phone_seen, now)
            &&& r.messages@.len() == s.messages@.len()
            &&& forall|k: int| 0 <= k < r.messages@.len() ==> dto_of(#[trigger] r.messages@[k], s.messages@[k], s.token@)
        },
{
    match session {
        None => LanReceiverStateDto {
            running: false,
            url: None,
            qr_svg: None,
            ip: None,
            port: None,
            token: None,
            expires_at: None,
            last_status: None,
            connected_devices: 0,
            messages: Vec::new(),
        },
        Some(s) => LanReceiverStateDto {
            running: true,
            url: Some(s.url.clone()),
            qr_svg: Some(s.qr_svg.clone()),
            ip: Some(s.ip.clone()),
            port: Some(s.port),
            token: Some(s.token.clone()),
            expires_at: s.expires_at,
            last_status: match &s.last_status {
                Some(st) => Some(clone_status(st)),
                None => None,
            },
            connected_devices: connected_devices(s, now),
            messages: messages_to_dto(&s.messages, s.token.as_str()),
        },
    }
}

impl LanSession {
    /// Whether the session has run out: it has an expiry time that is not after `now`.
    pub open spec fn spec_expired(&self, now: u64) -> bool {
        match self.expires_at {
            Some(e) => e <= now,
            None => false,
        }
    }

    /// Whether the session has run out at `now`.
    pub fn is_expired(&self, now: u64) -> (r: bool)
        ensures
            r == self.spec_expired(now),
    {
        match self.expires_at {
            Some(e) => e <= now,
            None => false,
        }
    }

    /// Whether a request carries the token of this session.
    pub fn token_matches(&self, token: &str) -> (r: bool)
        ensures
            r == (self.token@ == token@),
    {
        crate::text::str_equal(self.token.as_str(), token)
    }

    /// Adds a message to the chat; the session counts as active now and runs for another five
    /// minutes.
    pub fn push_message(&mut self, message: LanTransferMessage, now: u64)
        requires
            now <= u64::MAX - IDLE_SESSION_TIMEOUT_MS,
        ensures
            final(self).messages@ == old(self).messages@.push(message),
            final(self).last_activity == now,
            final(self).expires_at == Some((now + IDLE_SESSION_TIMEOUT_MS) as u64),
            final(self).token@ == old(self).token@,
            final(self).last_phone_seen == old(self).last_phone_seen,
            final(self).files@ == old(self).files@,
            final(self).url == old(self).url && final(self).qr_svg == old(self).qr_svg,
            final(self).ip == old(self).ip && final(self).port == old(self).port,
            final(self).last_status == old(self).last_status,
    {
        self.last_activity = now;
        self.expires_at = Some(now + IDLE_SESSION_TIMEOUT_MS);
        self.messages.push(message);
    }

    /// Records that the phone made a request now.
    pub fn mark_phone_seen(&mut self, now: u64)
        ensures
            *final(self) == (LanSession { last_phone_seen: Some(now), ..*old(self) }),
    {
        self.last_phone_seen = Some(now);
    }

    /// Records the last event of the session.
    pub fn set_status(&mut self, status: LanReceiverStatus)
        ensures
            *final(self) == (LanSession { last_status: Some(status), ..*old(self) }),
    {
        self.last_status = Some(status);
    }

    /// The stored path of the file of the first message with the identifier; nothing when no
    /// message has it or that message has no stored file.
    pub fn message_local_path(&self, id: &str) -> (r: Option<String>)
        ensures
            opt_str(r) == spec_message_local_path(self.messages@, id@),
    {
        let mut i: usize = 0;
        while i < self.messages.len()
            invariant
                i <= self.messages.len(),
                first_message_index(self.messages@, id@) == first_message_index_from(
                    self.messages@,
                    id@,
                    i as int,
                ),
            decreases self.messages.len() - i,
        {
            if crate::text::str_equal(self.messages[i].id.as_str(), id) {
                return clone_opt_string(&self.messages[i].local_path);
            }
            i += 1;
        }
        None
    }

    /// The file offered under an identifier.
    pub fn file(&self, id: &str) -> (r: Option<&LanTransferFile>)
        ensures
            match r {
                Some(f) => spec_file_lookup(self.files@, id@) == Some(file_view(f)),
                None => spec_file_lookup(self.files@, id@) is None,
            },
    {
        let mut i: usize = 0;
        while i < self.files.len()
            invariant
                i <= self.files.len(),
                first_file_index(self.files@, id@) == first_file_index_from(self.files@, id@, i as int),
            decreases self.files.len() - i,
        {
            if crate::text::str_equal(self.files[i].0.as_str(), id) {
                return Some(&self.files[i].1);
            }
            i += 1;
        }
        None
    }

    /// Offers a file under an identifier, in place of one offered under it before.
    pub fn insert_file(&mut self, id: String, file: LanTransferFile)
        ensures
            final(self).files@.len() >= old(self).files@.len(),
            spec_file_lookup(final(self).files@, id@) == Some(file_view(&file)),
            forall|other: Seq<char>|
                other != id@ ==> spec_file_lookup(final(self).files@, other) == spec_file_lookup(
                    old(self).files@,
                    other,
                ),
            final(self).messages@ == old(self).messages@,
            final(self).token@ == old(self).token@,
            final(self).expires_at == old(self).expires_at,
            final(self).url == old(self).url && final(self).qr_svg == old(self).qr_svg,
            final(self).ip == old(self).ip && final(self).port == old(self).port,
            final(self).last_status == old(self).last_status,
            final(self).last_phone_seen == old(self).last_phone_seen,
            final(self).last_activity == old(self).last_activity,
    {
        let mut i: usize = 0;
        let ghost fv = file_view(&file);
        while i < self.files.len()
            invariant
                i <= self.files.len(),
                self.files@ == old(self).files@,
                self.messages@ == old(self).messages@,
                self.token@ == old(self).token@,
                self.expires_at == old(self).expires_at,
                self.url == old(self).url && self.qr_svg == old(self).qr_svg,
                self.ip == old(self).ip && self.port == old(self).port,
                self.last_status == old(self).last_status,
                self.last_phone_seen == old(self).last_phone_seen,
                self.last_activity == old(self).last_activity,
                first_file_index(self.files@, id@) == first_file_index_from(self.files@, id@, i as int),
            decreases self.files.len() - i,
        {
            if crate::text::str_equal(self.files[i].0.as_str(), id.as_str()) {
                let ghost before = self.files@;
                self.files.set(i, (id, file));
                proof {
                    assert forall|other: Seq<char>| other != before[i as int].0@ implies
                        spec_file_lookup(self.files@, other) == spec_file_lookup(before, other) by {
                        lemma_lookup_update(before, i as int, self.files@, other);
                    }
                    lemma_first_file_index_at(self.files@, before[i as int].0@, i as int, before);
                }
                return;
            }
            i += 1;
        }
        let ghost before = self.files@;
        self.files.push((id, file));
        proof {
            lemma_lookup_push(before, self.files@);
        }
    }
}

/// Where the first message with an identifier stands, from position `k` on; -1 when none.
pub open spec fn first_message_index_from(msgs: Seq<LanTransferMessage>, id: Seq<char>, k: int) -> int
    decreases msgs.len() - k,
{
    if k < 0 || k >= msgs.len() {
        -1
    } else if msgs[k].id@ == id {
        k
    } else {
        first_message_index_from(msgs, id, k + 1)
    }
}

/// Where the first message with an identifier stands; -1 when none.
pub open spec fn first_message_index(msgs: Seq<LanTransferMessage>, id: Seq<char>) -> int {
    first_message_index_from(msgs, id, 0)
}

/// The stored path of the file of the first message with an identifier.
pub open spec fn spec_message_local_path(msgs: Seq<LanTransferMessage>, id: Seq<char>) -> Option<Seq<char>> {
    let k = first_message_index(msgs, id);
    if k < 0 {
        None
    } else {
        opt_str(msgs[k].local_path)
    }
}

/// A file as values: name, type, bytes.
pub open spec fn file_view(f: &LanTransferFile) -> (Seq<char>, Seq<char>, Seq<u8>) {
    (f.file_name@, f.mime_type@, f.bytes@)
}

/// Where the first file with an identifier stands, from position `k` on; -1 when none.
pub open spec fn first_file_index_from(files: Seq<(String, LanTransferFile)>, id: Seq<char>, k: int) -> int
    decreases files.len() - k,
{
    if k < 0 || k >= files.len() {
        -1
    } else if files[k].0@ == id {
        k
    } else {
        first_file_index_from(files, id, k + 1)
    }
}

/// Where the first file with an identifier stands; -1 when none.
pub open spec fn first_file_index(files: Seq<(String, LanTransferFile)>, id: Seq<char>) -> int {
    first_file_index_from(files, id, 0)
}

/// The file offered under an identifier.
pub open spec fn spec_file_lookup(files: Seq<(String, LanTransferFile)>, id: Seq<char>) -> Option<(Seq<char>, Seq<char>, Seq<u8>)> {
    let k = first_file_index(files, id);
    if k < 0 {
        None
    } else {
        Some(file_view(&files[k].1))
    }
}

proof fn lemma_first_file_index_range(files: Seq<(String, LanTransferFile)>, id: Seq<char>, k: int)
    requires
        0 <= k,
    ensures
        ({
            let r = first_file_index_from(files, id, k);
            r == -1 || (k <= r < files.len() && files[r].0@ == id && forall|j: int|
                k <= j < r ==> files[j].0@ != id)
        }),
        first_file_index_from(files, id, k) == -1 ==> forall|j: int|
            k <= j < files.len() ==> files[j].0@ != id,
    decreases files.len() - k,
{
    if k < files.len() && files[k].0@ != id {
        lemma_first_file_index_range(files, id, k + 1);
    }
}

/// Two lists whose identifiers agree up to their lengths find the same first position.
proof fn lemma_first_file_index_same_ids(a: Seq<(String, LanTransferFile)>, b: Seq<(String, LanTransferFile)>, id: Seq<char>, k: int)
    requires
        0 <= k,
        a.len() == b.len(),
        forall|j: int| 0 <= j < a.len() ==> a[j].0@ == b[j].0@,
    ensures
        first_file_index_from(a, id, k) == first_file_index_from(b, id, k),
    decreases a.len() - k,
{
    if k < a.len() {
        lemma_first_file_index_same_ids(a, b, id, k + 1);
    }
}

proof fn lemma_first_file_index_at(after: Seq<(String, LanTransferFile)>, id: Seq<char>, i: int, before: Seq<(String, LanTransferFile)>)
    requires
        0 <= i < before.len(),
        after.len() == before.len(),
        forall|j: int| 0 <= j < before.len() ==> after[j].0@ == before[j].0@,
        first_file_index(before, id) == i,
    ensures
        first_file_index(after, id) == i,
{
    lemma_first_file_index_same_ids(after, before, id, 0);
}

proof fn lemma_lookup_update(before: Seq<(String, LanTransferFile)>, i: int, after: Seq<(String, LanTransferFile)>, other: Seq<char>)
    requires
        0 <= i < before.len(),
        after.len() == before.len(),
        forall|j: int| 0 <= j < before.len() && j != i ==> after[j] == before[j],
        after[i].0@ == before[i].0@,
        other != before[i].0@,
    ensures
        spec_file_lookup(after, other) == spec_file_lookup(before, other),
{
    assert forall|j: int| 0 <= j < after.len() implies after[j].0@ == before[j].0@ by {}
    lemma_first_file_index_same_ids(after, before, other, 0);
    lemma_first_file_index_range(before, other, 0);
}

proof fn lemma_lookup_push(before: Seq<(String, LanTransferFile)>, after: Seq<(String, LanTransferFile)>)
    requires
        after.len() == before.len() + 1,
        forall|j: int| 0 <= j < before.len() ==> after[j] == before[j],
        first_file_index(before, after[before.len() as int].0@) == -1,
    ensures
        spec_file_lookup(after, after[before.len() as int].0@) == Some(file_view(&after[before.len() as int].1)),
        forall|other: Seq<char>|
            other != after[before.len() as int].0@ ==> spec_file_lookup(after, other) == spec_file_lookup(before, other),
{
    let id = after[before.len() as int].0@;
    lemma_first_file_index_range(before, id, 0);
    lemma_first_file_index_range(after, id, 0);
    assert forall|other: Seq<char>| other != id implies spec_file_lookup(after, other) == spec_file_lookup(before, other) by {
        lemma_first_file_index_range(before, other, 0);
        lemma_first_file_index_range(after, other, 0);
    }
}

/// A session that has just been given a message stays open for five minutes and shows the
/// message last; the messages before it are kept.
pub proof fn law_push_message_keeps_session_open(before: LanSession, after: LanSession, message: LanTransferMessage, now: u64)
    requires
        now <= u64::MAX - IDLE_SESSION_TIMEOUT_MS,
        after.messages@ == before.messages@.push(message),
        after.expires_at == Some((now + IDLE_SESSION_TIMEOUT_MS) as u64),
    ensures
        forall|t: u64| now <= t < now + IDLE_SESSION_TIMEOUT_MS ==> !after.spec_expired(t),
        after.spec_expired((now + IDLE_SESSION_TIMEOUT_MS) as u64),
        after.messages@.last() == message,
        after.messages@.subrange(0, before.messages@.len() as int) == before.messages@,
{
    assert(after.messages@.subrange(0, before.messages@.len() as int) =~= before.messages@);
}


/// The largest upload or file that a session takes, in bytes.
pub const UPLOAD_HARD_LIMIT: usize = 134_217_728;

/// Adds a message to the running session; refused when no session runs.
pub fn push_message(slot: &mut Option<LanSession>, message: LanTransferMessage, now: u64) -> (r: Result<(), AppError>)
    requires
        now <= u64::MAX - IDLE_SESSION_TIMEOUT_MS,
    ensures
        r is Err <==> *old(slot) is None,
        r matches Err(e) ==> e.spec_message() == "lan_transfer_not_running"@,
        *old(slot) is None ==> *final(slot) is None,
        *old(slot) matches Some(s) ==> *final(slot) matches Some(t) && t.messages@ == s.messages@.push(message)
            && t.expires_at == Some((now + IDLE_SESSION_TIMEOUT_MS) as u64) && t.last_activity == now
            && t.token@ == s.token@,
{
    match slot {
        Some(s) => {
            s.push_message(message, now);
            Ok(())
        },
        None => Err(AppError::Message(owned("lan_transfer_not_running"))),
    }
}

/// Ends the session when it has run out; says whether it did.
pub fn cleanup_expired_session(slot: &mut Option<LanSession>, now: u64) -> (r: bool)
    ensures
        r == (*old(slot) matches Some(s) && s.spec_expired(now)),
        r ==> *final(slot) is None,
        !r ==> *final(slot) == *old(slot),
{
    let expired = match slot {
        Some(s) => s.is_expired(now),
        None => false,
    };
    if expired {
        *slot = None;
    }
    expired
}

/// The text message that the computer sends: the text without surrounding whitespace.
pub open spec fn desktop_text_message_ok(m: LanTransferMessage, text: Seq<char>, now: u64) -> bool {
    &&& m.sender@ == "desktop"@
    &&& m.kind@ == "text"@
    &&& opt_str(m.text) == Some(trim(text))
    &&& m.file_name is None && m.mime_type is None && m.size is None
    &&& m.image_data_url is None && m.download_url is None && m.local_path is None
    &&& m.created_at == now
    &&& m.status@ == "sent"@
}

/// The message for a text that the computer sends, under the given identifier; refused when
/// only whitespace is left.
pub fn desktop_text_message(text: &str, id: String, now: u64) -> (r: Result<LanTransferMessage, AppError>)
    ensures
        r is Err <==> trim(text@).len() == 0,
        r matches Err(e) ==> e.spec_message() == "empty_payload"@,
        r matches Ok(m) ==> desktop_text_message_ok(m, text@, now) && m.id@ == id@,
{
    let v = chars_of(text);
    let t = trim_chars(&v);
    if t.len() == 0 {
        return Err(AppError::Message(owned("empty_payload")));
    }
    Ok(LanTransferMessage {
        id,
        sender: owned("desktop"),
        kind: owned("text"),
        text: Some(string_from_chars(&t)),
        file_name: None,
        mime_type: None,
        size: None,
        image_data_url: None,
        download_url: None,
        local_path: None,
        created_at: now,
        status: owned("sent"),
    })
}

/// Sends a text from the computer to the phone, under a new random identifier.
pub fn send_desktop_text(slot: &mut Option<LanSession>, text: &str, now: u64) -> (r: Result<(), AppError>)
    requires
        now <= u64::MAX - IDLE_SESSION_TIMEOUT_MS,
    ensures
        trim(text@).len() == 0 ==> (r matches Err(e) && e.spec_message() == "empty_payload"@ && *final(slot) == *old(slot)),
        trim(text@).len() > 0 && *old(slot) is None ==> (r matches Err(e) && e.spec_message() == "lan_transfer_not_running"@ && *final(slot) is None),
        trim(text@).len() > 0 && *old(slot) is Some ==> r is Ok,
        r is Ok ==> (*old(slot) matches Some(s) && *final(slot) matches Some(t) && t.messages@.len() == s.messages@.len() + 1
            && t.messages@.drop_last() == s.messages@ && desktop_text_message_ok(t.messages@.last(), text@, now)
            && crate::names::is_uuid_v4_text(t.messages@.last().id@)),
{
    let message = match desktop_text_message(text, new_uuid_string(), now) {
        Ok(m) => m,
        Err(e) => return Err(e),
    };
    let r = push_message(slot, message, now);
    proof {
        if *slot is Some && *old(slot) is Some {
            assert(slot->0.messages@.drop_last() =~= old(slot)->0.messages@);
        }
    }
    r
}

/// Files of these MIME types are offered as images, with a preview.
pub open spec fn is_image_mime(m: Seq<char>) -> bool {
    m.len() >= 6 && m.take(6) == "image/"@
}

/// The MIME type of a file that the computer sends: the given one without surrounding
/// whitespace, or `application/octet-stream` when none is left.
pub open spec fn desktop_mime(mime: Option<Seq<char>>) -> Seq<char> {
    match mime {
        Some(m) if trim(m).len() > 0 => trim(m),
        _ => "application/octet-stream"@,
    }
}

/// The file and the message with which the computer offers a file to the phone.
pub open spec fn desktop_file_ok(
    f: (Seq<char>, Seq<char>, Seq<u8>),
    m: LanTransferMessage,
    file_name: Seq<char>,
    mime_type: Option<Seq<char>>,
    bytes: Seq<u8>,
    file_id: Seq<char>,
    local_path: Option<Seq<char>>,
    now: u64,
) -> bool {
    let name = spec_sanitize_file_name(file_name);
    let mime = desktop_mime(mime_type);
    &&& f == (name, mime, bytes)
    &&& m.sender@ == "desktop"@
    &&& m.kind@ == (if is_image_mime(mime) { "image"@ } else { "file"@ })
    &&& m.text is None
    &&& opt_str(m.file_name) == Some(name)
    &&& opt_str(m.mime_type) == Some(mime)
    &&& m.size == Some(bytes.len() as usize)
    &&& opt_str(m.image_data_url) == (if is_image_mime(mime) { Some(data_url(mime, bytes)) } else { None })
    &&& opt_str(m.download_url) == Some("/api/files/"@ + file_id)
    &&& opt_str(m.local_path) == local_path
    &&& m.created_at == now
    &&& m.status@ == "sent"@
}

fn desktop_mime_string(mime_type: Option<String>) -> (r: String)
    ensures
        r@ == desktop_mime(opt_str(mime_type)),
{
    match mime_type {
        Some(m) => {
            let v = chars_of(m.as_str());
            let t = trim_chars(&v);
            if t.len() > 0 {
                string_from_chars(&t)
            } else {
                owned("application/octet-stream")
            }
        },
        None => owned("application/octet-stream"),
    }
}

fn copy_bytes(b: &Vec<u8>) -> (r: Vec<u8>)
    ensures
        r@ == b@,
{
    crate::models::clone_bytes(b)
}

/// The file and the message with which the computer offers a file, under the given
/// identifiers; refused when it is empty or larger than the upload limit.
pub fn desktop_file_entry(
    file_name: &str,
    mime_type: Option<String>,
    bytes: Vec<u8>,
    file_id: &str,
    message_id: String,
    local_path: Option<String>,
    now: u64,
) -> (r: Result<(LanTransferFile, LanTransferMessage), AppError>)
    ensures
        r is Err <==> (bytes@.len() == 0 || bytes@.len() > UPLOAD_HARD_LIMIT),
        r matches Err(e) ==> e.spec_message() == (if bytes@.len() == 0 {
            "empty_payload"@
        } else {
            "request body too large"@
        }),
        r matches Ok((f, m)) ==> desktop_file_ok(file_view(&f), m, file_name@, opt_str(mime_type), bytes@, file_id@, opt_str(local_path), now)
            && m.id@ == message_id@,
{
    if bytes.len() == 0 {
        return Err(AppError::Message(owned("empty_payload")));
    }
    if bytes.len() > UPLOAD_HARD_LIMIT {
        return Err(AppError::Message(owned("request body too large")));
    }
    let safe_name = sanitize_file_name(file_name);
    let mime = desktop_mime_string(mime_type);
    let mv = chars_of(mime.as_str());
    proof {
        reveal_strlit("image/");
    }
    let image = chars_start_with(&mv, "image/");
    assert(image == is_image_mime(mime@));
    let image_data_url = if image {
        Some(data_url_string(mime.as_str(), bytes.as_slice()))
    } else {
        None
    };
    let mut url: Vec<char> = Vec::new();
    push_str(&mut url, "/api/files/");
    push_str(&mut url, file_id);
    let size = bytes.len();
    let message = LanTransferMessage {
        id: message_id,
        sender: owned("desktop"),
        kind: if image {
            owned("image")
        } else {
            owned("file")
        },
        text: None,
        file_name: Some(safe_name.clone()),
        mime_type: Some(mime.clone()),
        size: Some(size),
        image_data_url,
        download_url: Some(string_from_chars(&url)),
        local_path,
        created_at: now,
        status: owned("sent"),
    };
    let file = LanTransferFile { file_name: safe_name, mime_type: mime, bytes: copy_bytes(&bytes) };
    Ok((file, message))
}

/// Offers a file from the computer to the phone under new random identifiers: the session
/// keeps its bytes for download and the chat shows it.
pub fn send_desktop_file(
    slot: &mut Option<LanSession>,
    file_name: &str,
    mime_type: Option<String>,
    bytes: Vec<u8>,
    local_path: Option<String>,
    now: u64,
) -> (r: Result<(), AppError>)
    requires
        now <= u64::MAX - IDLE_SESSION_TIMEOUT_MS,
    ensures
        bytes@.len() == 0 ==> (r matches Err(e) && e.spec_message() == "empty_payload"@),
        bytes@.len() > UPLOAD_HARD_LIMIT ==> (r matches Err(e) && e.spec_message() == "request body too large"@),
        0 < bytes@.len() <= UPLOAD_HARD_LIMIT && *old(slot) is None ==> (r matches Err(e) && e.spec_message() == "lan_transfer_not_running"@),
        0 < bytes@.len() <= UPLOAD_HARD_LIMIT && *old(slot) is Some ==> r is Ok,
        r is Err ==> *final(slot) == *old(slot),
        r is Ok ==> (*old(slot) matches Some(s) && *final(slot) matches Some(t) && t.messages@.len() == s.messages@.len() + 1
            && t.messages@.drop_last() == s.messages@ && t.token@ == s.token@
            && exists|fid: Seq<char>| crate::names::is_uuid_v4_text(fid) && ((#[trigger] spec_file_lookup(t.files@, fid)) matches Some(fv)
                && desktop_file_ok(fv, t.messages@.last(), file_name@, opt_str(mime_type), bytes@, fid, opt_str(local_path), now))),
{
    if slot.is_none() {
        if bytes.len() == 0 {
            return Err(AppError::Message(owned("empty_payload")));
        }
        if bytes.len() > UPLOAD_HARD_LIMIT {
            return Err(AppError::Message(owned("request body too large")));
        }
        return Err(AppError::Message(owned("lan_transfer_not_running")));
    }
    let file_id = new_uuid_string();
    let (file, message) = match desktop_file_entry(file_name, mime_type, bytes, file_id.as_str(), new_uuid_string(), local_path, now) {
        Ok(p) => p,
        Err(e) => return Err(e),
    };
    let ghost fid = file_id@;
    let ghost fv = file_view(&file);
    match slot {
        Some(s) => {
            s.insert_file(file_id, file);
            s.push_message(message, now);
            proof {
                assert(s.messages@.drop_last() =~= old(slot)->0.messages@);
                assert(spec_file_lookup(s.files@, fid) == Some(fv));
                assert(desktop_file_ok(fv, s.messages@.last(), file_name@, opt_str(mime_type), bytes@, fid, opt_str(local_path), now));
            }
        },
        None => {},
    }
    Ok(())
}


/// The identifier chosen by the phone, or a new random one.
pub fn message_id_or_new(id: Option<String>) -> (r: String)
    ensures
        id matches Some(i) ==> r@ == i@,
        id is None ==> crate::names::is_uuid_v4_text(r@),
{
    match id {
        Some(i) => i,
        None => new_uuid_string(),
    }
}

/// The message that records content received from the phone and put on the clipboard; an
/// image is announced as PNG.
pub fn phone_capture_message(
    received_kind: &str,
    text: Option<String>,
    image_data_url: Option<String>,
    size: Option<usize>,
    id: String,
    now: u64,
) -> (r: LanTransferMessage)
    ensures
        r.id@ == id@,
        r.sender@ == "phone"@,
        r.kind@ == received_kind@,
        opt_str(r.text) == opt_str(text),
        r.file_name is None,
        opt_str(r.mime_type) == (if received_kind@ == "image"@ { Some("image/png"@) } else { None }),
        r.size == size,
        opt_str(r.image_data_url) == opt_str(image_data_url),
        r.download_url is None && r.local_path is None,
        r.created_at == now,
        r.status@ == "copied"@,
{
    LanTransferMessage {
        id,
        sender: owned("phone"),
        kind: owned(received_kind),
        text,
        file_name: None,
        mime_type: if crate::text::str_equal(received_kind, "image") {
            Some(owned("image/png"))
        } else {
            None
        },
        size,
        image_data_url,
        download_url: None,
        local_path: None,
        created_at: now,
        status: owned("copied"),
    }
}

/// The message that records a file received from the phone and saved at a path.
pub fn phone_file_message(safe_name: String, mime_type: &str, size: usize, path: String, id: String, now: u64) -> (r: LanTransferMessage)
    ensures
        r.id@ == id@,
        r.sender@ == "phone"@,
        r.kind@ == "file"@,
        opt_str(r.text) == Some(path@),
        opt_str(r.file_name) == Some(safe_name@),
        opt_str(r.mime_type) == Some(mime_type@),
        r.size == Some(size),
        r.image_data_url is None && r.download_url is None,
        opt_str(r.local_path) == Some(path@),
        r.created_at == now,
        r.status@ == "saved"@,
{
    LanTransferMessage {
        id,
        sender: owned("phone"),
        kind: owned("file"),
        text: Some(path.clone()),
        file_name: Some(safe_name),
        mime_type: Some(owned(mime_type)),
        size: Some(size),
        image_data_url: None,
        download_url: None,
        local_path: Some(path),
        created_at: now,
        status: owned("saved"),
    }
}

/// The status after content from the phone was put on the clipboard.
pub fn received_status(received_kind: &str) -> (r: LanReceiverStatus)
    ensures
        r.kind@ == "success"@ && r.message@ == "received"@ && opt_str(r.received_kind) == Some(received_kind@),
{
    LanReceiverStatus { kind: owned("success"), message: owned("received"), received_kind: Some(owned(received_kind)) }
}

/// The status after a file from the phone was saved.
pub fn received_file_status() -> (r: LanReceiverStatus)
    ensures
        r.kind@ == "success"@ && r.message@ == "received_file"@ && opt_str(r.received_kind) == Some("file"@),
{
    LanReceiverStatus { kind: owned("success"), message: owned("received_file"), received_kind: Some(owned("file")) }
}

/// The status while an image from the phone is converted.
pub fn processing_image_status() -> (r: LanReceiverStatus)
    ensures
        r.kind@ == "processing"@ && r.message@ == "processing_image"@ && opt_str(r.received_kind) == Some("image"@),
{
    LanReceiverStatus { kind: owned("processing"), message: owned("processing_image"), received_kind: Some(owned("image")) }
}

/// The status after a refused request or a failed upload, with the error's text.
pub fn error_status(message: &str) -> (r: LanReceiverStatus)
    ensures
        r.kind@ == "error"@ && r.message@ == message@ && r.received_kind is None,
{
    LanReceiverStatus { kind: owned("error"), message: owned(message), received_kind: None }
}

/// The status after the listener failed: `listener_error: ` and its text.
pub fn listener_error_status(error: &str) -> (r: LanReceiverStatus)
    ensures
        r.kind@ == "error"@ && r.message@ == "listener_error: "@ + error@ && r.received_kind is None,
{
    let mut v: Vec<char> = Vec::new();
    push_str(&mut v, "listener_error: ");
    push_str(&mut v, error);
    LanReceiverStatus { kind: owned("error"), message: string_from_chars(&v), received_kind: None }
}

/// The headers with which a file of the session is downloaded: its type, an attachment under
/// its name (backslashes and quotes made `_`), and no caching.
pub fn file_download_headers(file: &LanTransferFile) -> (r: Vec<(String, String)>)
    ensures
        r@.len() == 3,
        r@[0].0@ == "Content-Type"@ && r@[0].1@ == file.mime_type@,
        r@[1].0@ == "Content-Disposition"@ && r@[1].1@ == "attachment; filename=\""@
            + spec_escape_header_value(file.file_name@) + "\""@,
        r@[2].0@ == "Cache-Control"@ && r@[2].1@ == "no-store"@,
{
    let mut d: Vec<char> = Vec::new();
    push_str(&mut d, "attachment; filename=\"");
    let e = escape_header_value(file.file_name.as_str());
    push_str(&mut d, e.as_str());
    push_str(&mut d, "\"");
    let mut out: Vec<(String, String)> = Vec::new();
    out.push((owned("Content-Type"), file.mime_type.clone()));
    out.push((owned("Content-Disposition"), string_from_chars(&d)));
    out.push((owned("Cache-Control"), owned("no-store")));
    out
}


/// The address of a session: `http://<ip>:<port>/?token=<token>`.
pub open spec fn session_url(ip: Seq<char>, port: u16, token: Seq<char>) -> Seq<char> {
    "http://"@ + ip + ":"@ + decimal(port as nat) + "/?token="@ + token
}

/// The address on which the phone reaches the computer: the LAN address found, else the
/// loopback address.
pub open spec fn session_ip(found: Option<Seq<char>>) -> Seq<char> {
    match found {
        Some(ip) => ip,
        None => "127.0.0.1"@,
    }
}

/// A new session on the given port with the given token, started at `now`: its address, the
/// QR code of it, no messages, files or status, and five minutes to live; refused when the
/// address does not fit a QR code.
pub fn session_with_token(found_ip: Option<String>, port: u16, token: String, now: u64) -> (r: Result<LanSession, AppError>)
    requires
        now <= u64::MAX - IDLE_SESSION_TIMEOUT_MS,
    ensures
        match r {
            Ok(s) => {
                let url = session_url(session_ip(opt_str(found_ip)), port, token@);
                &&& s.url@ == url
                &&& spec_build_qr_svg(url) == Ok::<Seq<char>, Seq<char>>(s.qr_svg@)
                &&& s.ip@ == session_ip(opt_str(found_ip))
                &&& s.port == port
                &&& s.token@ == token@
                &&& s.expires_at == Some((now + IDLE_SESSION_TIMEOUT_MS) as u64)
                &&& s.last_status is None && s.last_phone_seen is None
                &&& s.last_activity == now
                &&& s.messages@.len() == 0 && s.files@.len() == 0
            },
            Err(e) => spec_build_qr_svg(session_url(session_ip(opt_str(found_ip)), port, token@))
                == Err::<Seq<char>, Seq<char>>(e.spec_message()),
        },
{
    let ip = match found_ip {
        Some(ip) => ip,
        None => owned("127.0.0.1"),
    };
    let mut url: Vec<char> = Vec::new();
    push_str(&mut url, "http://");
    push_str(&mut url, ip.as_str());
    push_str(&mut url, ":");
    let digits = decimal_chars(port as u64);
    crate::text::push_chars(&mut url, &digits);
    push_str(&mut url, "/?token=");
    push_str(&mut url, token.as_str());
    let url = string_from_chars(&url);
    let qr_svg = match build_qr_svg(url.as_str()) {
        Ok(svg) => svg,
        Err(e) => return Err(e),
    };
    Ok(LanSession {
        url,
        qr_svg,
        ip,
        port,
        token,
        expires_at: Some(now + IDLE_SESSION_TIMEOUT_MS),
        last_status: None,
        last_phone_seen: None,
        last_activity: now,
        messages: Vec::new(),
        files: Vec::new(),
    })
}

/// Starts a session under a new random token of 36 characters: it succeeds with the session
/// of `session_with_token` for that token, and fails only when the QR encoder refuses the
/// address with that token; so it succeeds whenever the encoder takes the address with every
/// token of that length.
pub fn start_session(found_ip: Option<String>, port: u16, now: u64) -> (r: Result<LanSession, AppError>)
    requires
        now <= u64::MAX - IDLE_SESSION_TIMEOUT_MS,
    ensures
        r matches Ok(s) ==> {
            let url = session_url(session_ip(opt_str(found_ip)), port, s.token@);
            &&& crate::names::is_uuid_v4_text(s.token@)
            &&& s.url@ == url
            &&& spec_build_qr_svg(url) == Ok::<Seq<char>, Seq<char>>(s.qr_svg@)
            &&& s.ip@ == session_ip(opt_str(found_ip))
            &&& s.port == port
            &&& s.expires_at == Some((now + IDLE_SESSION_TIMEOUT_MS) as u64)
            &&& s.last_status is None && s.last_phone_seen is None
            &&& s.last_activity == now
            &&& s.messages@.len() == 0 && s.files@.len() == 0
        },
        r matches Err(e) ==> exists|t: Seq<char>|
            crate::names::is_uuid_v4_text(t) && #[trigger] spec_build_qr_svg(session_url(session_ip(opt_str(found_ip)), port, t))
                == Err::<Seq<char>, Seq<char>>(e.spec_message()),
        (forall|t: Seq<char>|
            crate::names::is_uuid_v4_text(t) ==> (#[trigger] spec_build_qr_svg(session_url(session_ip(opt_str(found_ip)), port, t))) is Ok)
            ==> r is Ok,
{
    let token = new_uuid_string();
    let ghost t = token@;
    let ghost ip = session_ip(opt_str(found_ip));
    let r = session_with_token(found_ip, port, token, now);
    proof {
        if r is Err {
            assert(spec_build_qr_svg(session_url(ip, port, t)) is Err);
        }
    }
    r
}

} // verus!
