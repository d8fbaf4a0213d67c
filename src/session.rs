//! Transfer sessions: negotiation of a multi-file upload, per-file tokens,
//! validation of uploads and downloads, cancellation and expiry.
use vstd::prelude::*;
use crate::device::{DeviceInfoV2, DeviceView};
use crate::error::ApiError;
use crate::files::FileMetadata;
use crate::keyed::{
    Keyed, keyed_map, unique_keys, lemma_keyed_map_at, lemma_keyed_map_dom, lemma_keyed_map_push,
    lemma_keyed_map_update, lemma_keyed_map_remove,
};
use crate::outside::fresh_id;
use crate::text::{basename, is_plain_component, str_eq};

verus! {

/// Sessions older than this many seconds are expired by default.
pub const DEFAULT_SESSION_TTL: u64 = 600;

#[derive(Clone, Copy, Debug, PartialEq, Eq, Structural)]
pub enum SessionStatus {
    Preparing,
    Transferring,
    Completed,
    Cancelled,
    Expired,
}

/// A session in one of these states takes no further uploads or downloads.
pub open spec fn is_terminal(s: SessionStatus) -> bool {
    s == SessionStatus::Completed || s == SessionStatus::Cancelled || s == SessionStatus::Expired
}

/// One file of a session, with its token and whether it has arrived.
#[derive(Clone, Debug)]
pub struct SessionFile {
    pub meta: FileMetadata,
    pub token: String,
    pub received: bool,
}

impl Keyed for SessionFile {
    open spec fn key(&self) -> Seq<char> {
        self.meta.id@
    }
}

/// One multi-file upload in flight.
#[derive(Clone, Debug)]
pub struct TransferSession {
    pub session_id: String,
    pub device_info: DeviceInfoV2,
    pub files: Vec<SessionFile>,
    pub created_at: u64,
    pub status: SessionStatus,
}

pub struct SessionView {
    pub id: Seq<char>,
    pub sender: DeviceView,
    pub files: Seq<SessionFile>,
    pub created_at: u64,
    pub status: SessionStatus,
}

impl View for TransferSession {
    type V = SessionView;

    open spec fn view(&self) -> SessionView {
        SessionView {
            id: self.session_id@,
            sender: self.device_info@,
            files: self.files@,
            created_at: self.created_at,
            status: self.status,
        }
    }
}

impl Keyed for TransferSession {
    open spec fn key(&self) -> Seq<char> {
        self.session_id@
    }
}

/// The files of a session by id.
pub open spec fn files_map(files: Seq<SessionFile>) -> Map<Seq<char>, FileMetadata> {
    keyed_map(files).map_values(|f: SessionFile| f.meta)
}

/// The token of each file of a session, by file id.
pub open spec fn tokens_map(files: Seq<SessionFile>) -> Map<Seq<char>, Seq<char>> {
    keyed_map(files).map_values(|f: SessionFile| f.token@)
}

/// The ids of the files that have arrived.
pub open spec fn received_ids(files: Seq<SessionFile>) -> Set<Seq<char>> {
    keyed_map(files).dom().filter(|k: Seq<char>| keyed_map(files)[k].received)
}

pub open spec fn all_received(files: Seq<SessionFile>) -> bool {
    forall|i: int| 0 <= i < files.len() ==> (#[trigger] files[i]).received
}

pub open spec fn none_received(files: Seq<SessionFile>) -> bool {
    forall|i: int| 0 <= i < files.len() ==> !(#[trigger] files[i]).received
}

/// A live session: files with distinct ids and safe names, and a status
/// that follows what has arrived.
pub open spec fn session_wf(v: SessionView) -> bool {
    &&& unique_keys(v.files)
    &&& v.files.len() > 0
    &&& forall|i: int| 0 <= i < v.files.len() ==> is_plain_component(basename((#[trigger] v.files[i]).meta.file_name@))
    &&& (v.status == SessionStatus::Preparing || v.status == SessionStatus::Transferring || v.status
        == SessionStatus::Completed)
    &&& (v.status == SessionStatus::Completed <==> all_received(v.files))
    &&& (v.status == SessionStatus::Preparing ==> none_received(v.files))
}

/// The files of a session once `file_id` has arrived.
pub open spec fn mark_received(files: Seq<SessionFile>, file_id: Seq<char>) -> Seq<SessionFile> {
    files.map_values(|f: SessionFile| if f.meta.id@ == file_id { SessionFile { received: true, ..f } } else { f })
}

/// A session once the upload of `file_id` has been stored: the file counts as
/// received, and the session is completed when every file has arrived.
pub open spec fn finish(v: SessionView, file_id: Seq<char>) -> SessionView {
    SessionView {
        files: mark_received(v.files, file_id),
        status: if all_received(mark_received(v.files, file_id)) {
            SessionStatus::Completed
        } else {
            SessionStatus::Transferring
        },
        ..v
    }
}

/// A session after each file of `order` has been uploaded, in that order.
pub open spec fn finish_all(v: SessionView, order: Seq<Seq<char>>) -> SessionView
    decreases order.len(),
{
    if order.len() == 0 {
        v
    } else {
        finish(finish_all(v, order.drop_last()), order.last())
    }
}

/// The files of a new session: each described file with its token, none
/// received yet.
pub open spec fn new_files(metas: Seq<FileMetadata>, tokens: Seq<String>) -> Seq<SessionFile> {
    Seq::new(metas.len(), |i: int| SessionFile { meta: metas[i], token: tokens[i], received: false })
}

/// The error, if any, that an upload or download naming `session_id`,
/// `file_id` and `token` meets, checked in this order.
pub open spec fn access_error(
    m: Map<Seq<char>, SessionView>,
    session_id: Seq<char>,
    file_id: Seq<char>,
    token: Seq<char>,
) -> Option<ApiError> {
    if !m.contains_key(session_id) || is_terminal(m[session_id].status) {
        Some(ApiError::SessionNotFound)
    } else if !files_map(m[session_id].files).contains_key(file_id) {
        Some(ApiError::InvalidParameters)
    } else if tokens_map(m[session_id].files)[file_id] != token {
        Some(ApiError::InvalidToken)
    } else {
        None
    }
}

/// A prepare-upload that was accepted: who sent it and when.
#[derive(Clone, Debug)]
pub struct RequestRecord {
    pub fingerprint: String,
    pub at: u64,
}

/// Whether a logged request counts, at `now`, against sender `fingerprint`
/// in a rate window of `window` seconds.
pub open spec fn is_recent(r: RequestRecord, fingerprint: Seq<char>, now: u64, window: u64) -> bool {
    r.fingerprint@ == fingerprint && now < r.at + window
}

/// How many logged requests count against `fingerprint` at `now`.
pub open spec fn recent_requests(log: Seq<RequestRecord>, fingerprint: Seq<char>, now: u64, window: u64) -> nat
    decreases log.len(),
{
    if log.len() == 0 {
        0
    } else {
        recent_requests(log.drop_last(), fingerprint, now, window) + if is_recent(
            log.last(),
            fingerprint,
            now,
            window,
        ) {
            1nat
        } else {
            0nat
        }
    }
}

/// Why a prepare-upload is refused whatever session id it would get, if it
/// is, checked in this order: no files, files that share an id or whose name
/// has no last component to save under, a PIN that does not match the
/// configured one, and too many recent requests from the sender.
pub open spec fn admission_error(
    m: SessionManager,
    request: PrepareUploadRequest,
    pin: Option<Seq<char>>,
    now: u64,
) -> Option<ApiError> {
    if request.files@.len() == 0 {
        Some(ApiError::InvalidParameters)
    } else if !unique_keys(request.files@) || exists|i: int|
        0 <= i < request.files@.len() && !is_plain_component(basename((#[trigger] request.files@[i]).file_name@)) {
        Some(ApiError::InvalidParameters)
    } else if m.pin_view().is_some() && pin != m.pin_view() {
        Some(ApiError::InvalidPin)
    } else if recent_requests(m.log(), request.info.fingerprint@, now, m.window()) >= m.max_requests() {
        Some(ApiError::TooManyRequests)
    } else {
        None
    }
}

/// Why a prepare-upload under `session_id` is refused, if it is: the checks
/// of `admission_error`, then a session id that is already in use.
pub open spec fn prepare_error(
    m: SessionManager,
    request: PrepareUploadRequest,
    pin: Option<Seq<char>>,
    now: u64,
    session_id: Seq<char>,
) -> Option<ApiError> {
    if admission_error(m, request, pin, now).is_some() {
        admission_error(m, request, pin, now)
    } else if m@.contains_key(session_id) {
        Some(ApiError::Unknown)
    } else {
        None
    }
}

/// A prepare-upload request: the sender's record and the files it offers.
#[derive(Clone, Debug)]
pub struct PrepareUploadRequest {
    pub info: DeviceInfoV2,
    pub files: Vec<FileMetadata>,
}

/// The answer to an accepted prepare-upload: the session id, and the token
/// of each file by file id.
#[derive(Clone, Debug)]
pub struct PrepareUploadResponse {
    pub session_id: String,
    pub files: Vec<(String, String)>,
}

/// Where an accepted upload or download goes: the file's name within the
/// download directory, and the content type the sender gave.
#[derive(Clone, Debug)]
pub struct FileTarget {
    pub file_name: String,
    pub file_type: String,
}

/// The sessions of this peer, with the rules that admit new ones.
pub struct SessionManager {
    sessions: Vec<TransferSession>,
    pin: Option<String>,
    ttl: u64,
    max_requests: u64,
    window: u64,
    requests: Vec<RequestRecord>,
}

/// Whether a session is past its time to live at `now`.
pub open spec fn is_expired(v: SessionView, now: u64, ttl: u64) -> bool {
    v.created_at + ttl < now
}

impl View for SessionManager {
    type V = Map<Seq<char>, SessionView>;

    closed spec fn view(&self) -> Map<Seq<char>, SessionView> {
        keyed_map(self.sessions@).map_values(|s: TransferSession| s@)
    }
}

impl SessionManager {
    pub closed spec fn pin_view(&self) -> Option<Seq<char>> {
        crate::device::opt_view(self.pin)
    }

    pub closed spec fn ttl(&self) -> u64 {
        self.ttl
    }

    pub closed spec fn max_requests(&self) -> u64 {
        self.max_requests
    }

    pub closed spec fn window(&self) -> u64 {
        self.window
    }

    /// The accepted prepare-uploads still remembered for rate limiting.
    pub closed spec fn log(&self) -> Seq<RequestRecord> {
        self.requests@
    }

    /// The settings are those of `o`.
    pub open spec fn same_settings(&self, o: SessionManager) -> bool {
        &&& self.pin_view() == o.pin_view()
        &&& self.ttl() == o.ttl()
        &&& self.max_requests() == o.max_requests()
        &&& self.window() == o.window()
    }

    pub closed spec fn wf(&self) -> bool {
        &&& unique_keys(self.sessions@)
        &&& forall|i: int| 0 <= i < self.sessions@.len() ==> session_wf((#[trigger] self.sessions@[i])@)
    }

    /// Every live session is well formed.
    pub proof fn lemma_sessions_wf(&self)
        requires
            self.wf(),
        ensures
            forall|k: Seq<char>| #[trigger] self@.contains_key(k) ==> session_wf(self@[k]) && self@[k].id == k,
    {
        assert forall|k: Seq<char>| #[trigger] self@.contains_key(k) implies session_wf(self@[k]) && self@[k].id == k by {
            lemma_keyed_map_dom(self.sessions@, k);
            let i = choose|i: int| 0 <= i < self.sessions@.len() && #[trigger] self.sessions@[i].key() == k;
            lemma_keyed_map_at(self.sessions@, i);
        }
    }

    /// A manager with no sessions. `pin`, when given, must accompany every
    /// prepare-upload; sessions live `ttl` seconds; a sender may have at most
    /// `max_requests` prepare-uploads accepted in any `window` seconds.
    pub fn new(pin: Option<String>, ttl: u64, max_requests: u64, window: u64) -> (r: SessionManager)
        ensures
            r.wf(),
            r@ == Map::<Seq<char>, SessionView>::empty(),
            r.pin_view() == crate::device::opt_view(pin),
            r.ttl() == ttl,
            r.max_requests() == max_requests,
            r.window() == window,
            r.log() == Seq::<RequestRecord>::empty(),
    {
        let r = SessionManager { sessions: Vec::new(), pin, ttl, max_requests, window, requests: Vec::new() };
        assert(r@ =~= Map::<Seq<char>, SessionView>::empty());
        r
    }

    fn position(&self, session_id: &str) -> (r: Option<usize>)
        requires
            self.wf(),
        ensures
            match r {
                Some(i) => i < self.sessions@.len() && self.sessions@[i as int].key() == session_id@,
                None => !self@.contains_key(session_id@),
            },
    {
        let mut i: usize = 0;
        while i < self.sessions.len()
            invariant
                i <= self.sessions@.len(),
                forall|j: int| 0 <= j < i ==> #[trigger] self.sessions@[j].key() != session_id@,
            decreases self.sessions@.len() - i,
        {
            if str_eq(self.sessions[i].session_id.as_str(), session_id) {
                return Some(i);
            }
            i += 1;
        }
        proof {
            lemma_keyed_map_dom(self.sessions@, session_id@);
        }
        None
    }

    fn accepts_pin(&self, pin: &Option<String>) -> (r: bool)
        ensures
            r == !(self.pin_view().is_some() && crate::device::opt_view(*pin) != self.pin_view()),
    {
        match &self.pin {
            None => true,
            Some(p) => match pin {
                Some(q) => str_eq(p.as_str(), q.as_str()),
                None => false,
            },
        }
    }

    fn count_recent(&self, fingerprint: &str, now: u64) -> (r: usize)
        ensures
            r == recent_requests(self.log(), fingerprint@, now, self.window()),
    {
        let mut count: usize = 0;
        let mut i: usize = 0;
        while i < self.requests.len()
            invariant
                i <= self.requests@.len(),
                count <= i,
                count == recent_requests(self.requests@.take(i as int), fingerprint@, now, self.window),
            decreases self.requests@.len() - i,
        {
            let rec = &self.requests[i];
            let recent = if rec.at > now {
                true
            } else {
                now - rec.at < self.window
            };
            proof {
                assert(self.requests@.take(i + 1).drop_last() =~= self.requests@.take(i as int));
            }
            if recent && str_eq(rec.fingerprint.as_str(), fingerprint) {
                count += 1;
            }
            i += 1;
        }
        assert(self.requests@.take(i as int) =~= self.requests@);
        count
    }

    /// Opens a session for `request` under the given session id and file
    /// tokens, the i-th token for the i-th file, at time `now`. The checks of
    /// `prepare_error` come first; when one fails nothing changes. Otherwise
    /// the session is stored as preparing, with no file received, the request
    /// is logged for rate limiting, and the token of each file is returned.
    pub fn handle_prepare_upload_with(
        &mut self,
        request: PrepareUploadRequest,
        pin: Option<String>,
        now: u64,
        session_id: String,
        tokens: Vec<String>,
    ) -> (r: Result<PrepareUploadResponse, ApiError>)
        requires
            old(self).wf(),
            tokens@.len() == request.files@.len(),
        ensures
            final(self).wf(),
            final(self).same_settings(*old(self)),
            prepare_error(*old(self), request, crate::device::opt_view(pin), now, session_id@).is_some() ==> {
                &&& r == Err::<PrepareUploadResponse, ApiError>(
                    prepare_error(*old(self), request, crate::device::opt_view(pin), now, session_id@).unwrap(),
                )
                &&& final(self)@ == old(self)@
                &&& final(self).log() == old(self).log()
            },
            prepare_error(*old(self), request, crate::device::opt_view(pin), now, session_id@).is_none() ==> {
                let resp = r.unwrap();
                &&& r.is_ok()
                &&& resp.session_id@ == session_id@
                &&& final(self)@ == old(self)@.insert(
                    session_id@,
                    SessionView {
                        id: session_id@,
                        sender: request.info@,
                        files: new_files(request.files@, tokens@),
                        created_at: now,
                        status: SessionStatus::Preparing,
                    },
                )
                &&& resp.files@.len() == request.files@.len()
                &&& forall|i: int|
                    0 <= i < resp.files@.len() ==> (#[trigger] resp.files@[i]).0@ == request.files@[i].id@
                        && resp.files@[i].1@ == tokens@[i]@
                &&& final(self).log() == old(self).log().push(
                    RequestRecord { fingerprint: request.info.fingerprint, at: now },
                )
            },
    {
        let ghost req = request;
        let PrepareUploadRequest { info, files } = request;
        if files.len() == 0 {
            return Err(ApiError::InvalidParameters);
        }
        if !distinct_ids(&files) || !safe_names(&files) {
            return Err(ApiError::InvalidParameters);
        }
        if !self.accepts_pin(&pin) {
            return Err(ApiError::InvalidPin);
        }
        let count = self.count_recent(info.fingerprint.as_str(), now);
        if count as u64 >= self.max_requests {
            return Err(ApiError::TooManyRequests);
        }
        match self.position(session_id.as_str()) {
            Some(i) => {
                proof {
                    lemma_keyed_map_at(self.sessions@, i as int);
                }
                return Err(ApiError::Unknown);
            },
            None => {},
        }
        let ghost metas0 = files@;
        let ghost toks0 = tokens@;
        let mut metas = files;
        let mut toks = tokens;
        let mut out: Vec<SessionFile> = Vec::new();
        let mut pairs: Vec<(String, String)> = Vec::new();
        let n = metas.len();
        let mut k: usize = 0;
        while k < n
            invariant
                n == metas0.len(),
                toks0.len() == n,
                k <= n,
                metas@ == metas0.subrange(k as int, n as int),
                toks@ == toks0.subrange(k as int, n as int),
                out@.len() == k,
                pairs@.len() == k,
                forall|a: int|
                    0 <= a < k ==> #[trigger] out@[a] == (SessionFile { meta: metas0[a], token: toks0[a], received: false }),
                forall|a: int| 0 <= a < k ==> (#[trigger] pairs@[a]).0@ == metas0[a].id@ && pairs@[a].1@ == toks0[a]@,
            decreases n - k,
        {
            let m = metas.remove(0);
            let t = toks.remove(0);
            assert(m == metas0[k as int]);
            assert(t == toks0[k as int]);
            pairs.push((m.id.clone(), t.clone()));
            out.push(SessionFile { meta: m, token: t, received: false });
            k += 1;
            assert(metas@ =~= metas0.subrange(k as int, n as int));
            assert(toks@ =~= toks0.subrange(k as int, n as int));
        }
        assert(out@ =~= new_files(metas0, toks0));
        let fingerprint = info.fingerprint.clone();
        let answered_id = session_id.clone();
        let session = TransferSession {
            session_id,
            device_info: info,
            files: out,
            created_at: now,
            status: SessionStatus::Preparing,
        };
        proof {
            assert forall|a: int, b: int|
                0 <= a < session.files@.len() && 0 <= b < session.files@.len() && a != b implies #[trigger] session.files@[a].key()
                != #[trigger] session.files@[b].key() by {
                assert(metas0[a].key() != metas0[b].key());
            }
            assert(!session.files@[0].received);
            assert forall|a: int| 0 <= a < session.files@.len() implies is_plain_component(
                basename((#[trigger] session.files@[a]).meta.file_name@),
            ) by {
                assert(session.files@[a].meta == metas0[a]);
            }
            assert(session_wf(session@));
            lemma_keyed_map_push(self.sessions@, session);
        }
        let ghost old_sessions = self.sessions@;
        self.sessions.push(session);
        self.requests.push(RequestRecord { fingerprint, at: now });
        proof {
            assert forall|a: int| 0 <= a < self.sessions@.len() implies session_wf((#[trigger] self.sessions@[a])@) by {
                if a < old_sessions.len() {
                    assert(self.sessions@[a] == old_sessions[a]);
                }
            }
            assert(self@ =~= old(self)@.insert(session@.id, session@));
        }
        Ok(PrepareUploadResponse { session_id: answered_id, files: pairs })
    }

    /// Opens a session for `request` at time `now`, under a freshly drawn
    /// session id and freshly drawn file tokens. It is refused as
    /// `admission_error` says; past those checks it fails only if the drawn
    /// session id is already in use (`Unknown`), which needs a live session
    /// under an id of that shape, and then nothing changes.
    pub fn handle_prepare_upload(&mut self, request: PrepareUploadRequest, pin: Option<String>, now: u64) -> (r: Result<
        PrepareUploadResponse,
        ApiError,
    >)
        requires
            old(self).wf(),
        ensures
            final(self).wf(),
            final(self).same_settings(*old(self)),
            admission_error(*old(self), request, crate::device::opt_view(pin), now).is_some() ==> {
                &&& r == Err::<PrepareUploadResponse, ApiError>(
                    admission_error(*old(self), request, crate::device::opt_view(pin), now).unwrap(),
                )
                &&& final(self)@ == old(self)@
            },
            admission_error(*old(self), request, crate::device::opt_view(pin), now).is_none() && r.is_err() ==> {
                &&& r == Err::<PrepareUploadResponse, ApiError>(ApiError::Unknown)
                &&& final(self)@ == old(self)@
                &&& exists|k: Seq<char>| #[trigger] old(self)@.contains_key(k) && k.len() == 36
            },
            r.is_ok() ==> {
                let resp = r.unwrap();
                let v = final(self)@[resp.session_id@];
                &&& admission_error(*old(self), request, crate::device::opt_view(pin), now).is_none()
                &&& !old(self)@.contains_key(resp.session_id@)
                &&& final(self)@ == old(self)@.insert(resp.session_id@, v)
                &&& v.id == resp.session_id@
                &&& v.sender == request.info@
                &&& v.created_at == now
                &&& v.status == SessionStatus::Preparing
                &&& v.files.len() == request.files@.len()
                &&& resp.files@.len() == request.files@.len()
                &&& forall|i: int|
                    0 <= i < v.files.len() ==> {
                        &&& (#[trigger] v.files[i]).meta == request.files@[i]
                        &&& !v.files[i].received
                        &&& v.files[i].token@ == resp.files@[i].1@
                        &&& resp.files@[i].0@ == request.files@[i].id@
                    }
            },
    {
        let session_id = fresh_id();
        let mut tokens: Vec<String> = Vec::new();
        let mut i: usize = 0;
        while i < request.files.len()
            invariant
                i <= request.files@.len(),
                tokens@.len() == i,
            decreases request.files@.len() - i,
        {
            tokens.push(fresh_id());
            i += 1;
        }
        let ghost ts = tokens@;
        let ghost sid = session_id@;
        let ghost pin_view = crate::device::opt_view(pin);
        let ghost before = *self;
        let r = self.handle_prepare_upload_with(request, pin, now, session_id, tokens);
        proof {
            if r.is_err() && admission_error(before, request, pin_view, now).is_none() {
                assert(before@.contains_key(sid));
            }
            if r.is_ok() {
                assert(self@[sid] == (SessionView {
                    id: sid,
                    sender: request.info@,
                    files: new_files(request.files@, ts),
                    created_at: now,
                    status: SessionStatus::Preparing,
                }));
            }
        }
        r
    }

    /// Drops every session past its time to live at `now` (it expires), and
    /// forgets logged requests too old to count against anyone from `now` on.
    pub fn reap(&mut self, now: u64)
        requires
            old(self).wf(),
        ensures
            final(self).wf(),
            final(self).same_settings(*old(self)),
            forall|k: Seq<char>|
                #[trigger] final(self)@.contains_key(k) <==> old(self)@.contains_key(k) && !is_expired(
                    old(self)@[k],
                    now,
                    old(self).ttl(),
                ),
            forall|k: Seq<char>| #[trigger] final(self)@.contains_key(k) ==> final(self)@[k] == old(self)@[k],
            forall|fp: Seq<char>, t: u64|
                t >= now ==> #[trigger] recent_requests(final(self).log(), fp, t, old(self).window())
                    == recent_requests(old(self).log(), fp, t, old(self).window()),
            forall|i: int| 0 <= i < final(self).log().len() ==> now < (#[trigger] final(self).log()[i]).at + old(self).window(),
    {
        let mut pending: Vec<TransferSession> = Vec::new();
        std::mem::swap(&mut self.sessions, &mut pending);
        let ghost orig = pending@;
        let mut kept: Vec<TransferSession> = Vec::new();
        let n = pending.len();
        let mut i: usize = 0;
        assert(orig.take(0) =~= Seq::<TransferSession>::empty());
        while i < n
            invariant
                n == orig.len(),
                i <= n,
                pending@ == orig.subrange(i as int, n as int),
                orig == old(self).sessions@,
                unique_keys(orig),
                forall|a: int| 0 <= a < orig.len() ==> session_wf((#[trigger] orig[a])@),
                unique_keys(kept@),
                forall|a: int| 0 <= a < kept@.len() ==> session_wf((#[trigger] kept@[a])@),
                forall|k: Seq<char>|
                    #[trigger] keyed_map(kept@).contains_key(k) <==> (keyed_map(orig.take(i as int)).contains_key(k)
                        && !is_expired(keyed_map(orig.take(i as int))[k]@, now, self.ttl)),
                forall|k: Seq<char>|
                    #[trigger] keyed_map(kept@).contains_key(k) ==> keyed_map(kept@)[k] == keyed_map(
                        orig.take(i as int),
                    )[k],
                self.ttl == old(self).ttl,
            decreases n - i,
        {
            let s = pending.remove(0);
            let ghost prefix = orig.take(i as int);
            proof {
                assert(s == orig[i as int]);
                assert(orig.take(i + 1).drop_last() =~= prefix);
                lemma_keyed_map_dom(prefix, s.key());
                if keyed_map(prefix).contains_key(s.key()) {
                    let j = choose|j: int| 0 <= j < prefix.len() && #[trigger] prefix[j].key() == s.key();
                    assert(orig[j].key() == orig[i as int].key());
                }
                assert(keyed_map(orig.take(i + 1)) == keyed_map(prefix).insert(s.key(), s));
            }
            let expired = now > s.created_at && now - s.created_at > self.ttl;
            if !expired {
                proof {
                    lemma_keyed_map_push(kept@, s);
                }
                let ghost before = kept@;
                kept.push(s);
                proof {
                    assert forall|a: int| 0 <= a < kept@.len() implies session_wf((#[trigger] kept@[a])@) by {
                        if a < before.len() {
                            assert(kept@[a] == before[a]);
                        }
                    }
                }
            }
            i += 1;
            assert(pending@ =~= orig.subrange(i as int, n as int));
        }
        assert(orig.take(n as int) =~= orig);
        self.sessions = kept;
        proof {
            assert forall|k: Seq<char>| #[trigger] self@.contains_key(k) <==> old(self)@.contains_key(k)
                && !is_expired(old(self)@[k], now, old(self).ttl()) by {}
        }
        self.prune_requests(now);
    }

    fn prune_requests(&mut self, now: u64)
        ensures
            final(self).sessions == old(self).sessions,
            final(self).same_settings(*old(self)),
            forall|fp: Seq<char>, t: u64|
                t >= now ==> #[trigger] recent_requests(final(self).log(), fp, t, old(self).window())
                    == recent_requests(old(self).log(), fp, t, old(self).window()),
            forall|i: int| 0 <= i < final(self).log().len() ==> now < (#[trigger] final(self).log()[i]).at + old(self).window(),
    {
        let mut pending: Vec<RequestRecord> = Vec::new();
        std::mem::swap(&mut self.requests, &mut pending);
        let ghost orig = pending@;
        let mut kept: Vec<RequestRecord> = Vec::new();
        let n = pending.len();
        let mut i: usize = 0;
        assert(orig.take(0) =~= Seq::<RequestRecord>::empty());
        while i < n
            invariant
                n == orig.len(),
                i <= n,
                pending@ == orig.subrange(i as int, n as int),
                orig == old(self).requests@,
                self.window == old(self).window,
                forall|fp: Seq<char>, t: u64|
                    t >= now ==> #[trigger] recent_requests(kept@, fp, t, self.window) == recent_requests(
                        orig.take(i as int),
                        fp,
                        t,
                        self.window,
                    ),
                forall|a: int| 0 <= a < kept@.len() ==> now < (#[trigger] kept@[a]).at + self.window,
            decreases n - i,
        {
            let rec = pending.remove(0);
            let ghost prefix = orig.take(i as int);
            let ghost before = kept@;
            proof {
                assert(rec == orig[i as int]);
                assert(orig.take(i + 1).drop_last() =~= prefix);
            }
            let recent = if rec.at > now {
                true
            } else {
                now - rec.at < self.window
            };
            if recent {
                kept.push(rec);
                proof {
                    assert(kept@.drop_last() =~= before);
                }
            }
            proof {
                assert forall|fp: Seq<char>, t: u64| t >= now implies #[trigger] recent_requests(kept@, fp, t, self.window)
                    == recent_requests(orig.take(i + 1), fp, t, self.window) by {
                    assert(recent_requests(before, fp, t, self.window) == recent_requests(prefix, fp, t, self.window));
                }
            }
            i += 1;
            assert(pending@ =~= orig.subrange(i as int, n as int));
        }
        assert(orig.take(n as int) =~= orig);
        self.requests = kept;
    }

    /// Finds the session and file an upload or download names, checking
    /// them in the order of `access_error`.
    fn locate(&self, session_id: &str, file_id: &str, token: &str) -> (r: Result<(usize, usize), ApiError>)
        requires
            self.wf(),
        ensures
            access_error(self@, session_id@, file_id@, token@).is_some() ==> r == Err::<(usize, usize), ApiError>(
                access_error(self@, session_id@, file_id@, token@).unwrap(),
            ),
            access_error(self@, session_id@, file_id@, token@).is_none() ==> r.is_ok() && {
                let (i, j) = r.unwrap();
                &&& i < self.sessions@.len()
                &&& self.sessions@[i as int].key() == session_id@
                &&& self@[session_id@] == self.sessions@[i as int]@
                &&& j < self.sessions@[i as int].files@.len()
                &&& self.sessions@[i as int].files@[j as int].key() == file_id@
                &&& files_map(self@[session_id@].files)[file_id@] == self.sessions@[i as int].files@[j as int].meta
            },
    {
        let i = match self.position(session_id) {
            Some(i) => i,
            None => return Err(ApiError::SessionNotFound),
        };
        proof {
            lemma_keyed_map_at(self.sessions@, i as int);
            assert(self@[session_id@] == self.sessions@[i as int]@);
        }
        let session = &self.sessions[i];
        if let SessionStatus::Completed = session.status {
            return Err(ApiError::SessionNotFound);
        }
        let j = match file_position(&session.files, file_id) {
            Some(j) => j,
            None => return Err(ApiError::InvalidParameters),
        };
        proof {
            lemma_keyed_map_at(session.files@, j as int);
        }
        if !str_eq(session.files[j].token.as_str(), token) {
            return Err(ApiError::InvalidToken);
        }
        Ok((i, j))
    }

    /// Checks an upload of `file_id` into `session_id` under `token`. When
    /// it is admitted the session is transferring and the name to store the
    /// body under is returned: the last component of the file's name, which
    /// names an entry inside the download directory. Nothing changes when it
    /// is refused.
    pub fn handle_upload(&mut self, session_id: &str, file_id: &str, token: &str) -> (r: Result<String, ApiError>)
        requires
            old(self).wf(),
        ensures
            final(self).wf(),
            final(self).same_settings(*old(self)),
            final(self).log() == old(self).log(),
            access_error(old(self)@, session_id@, file_id@, token@).is_some() ==> {
                &&& r == Err::<String, ApiError>(access_error(old(self)@, session_id@, file_id@, token@).unwrap())
                &&& final(self)@ == old(self)@
            },
            access_error(old(self)@, session_id@, file_id@, token@).is_none() ==> {
                let v = old(self)@[session_id@];
                &&& r.is_ok()
                &&& r.unwrap()@ == basename(files_map(v.files)[file_id@].file_name@)
                &&& is_plain_component(r.unwrap()@)
                &&& final(self)@ == old(self)@.insert(
                    session_id@,
                    SessionView { status: SessionStatus::Transferring, ..v },
                )
            },
    {
        let (i, j) = match self.locate(session_id, file_id, token) {
            Ok(p) => p,
            Err(e) => return Err(e),
        };
        let name = crate::text::base_name(self.sessions[i].files[j].meta.file_name.as_str());
        let ghost old_sessions = self.sessions@;
        let mut session = self.sessions.remove(i);
        session.status = SessionStatus::Transferring;
        proof {
            assert(session_wf(session@));
            lemma_keyed_map_update(old_sessions, i as int, session);
        }
        self.sessions.insert(i, session);
        proof {
            assert(self.sessions@ =~= old_sessions.update(i as int, session));
            assert forall|k: int| 0 <= k < self.sessions@.len() implies session_wf((#[trigger] self.sessions@[k])@) by {
                if k != i {
                    assert(self.sessions@[k] == old_sessions[k]);
                }
            }
            assert(self@ =~= old(self)@.insert(session_id@, SessionView { status: SessionStatus::Transferring, ..old(self)@[session_id@] }));
        }
        Ok(name)
    }

    /// Records that the body of `file_id` in `session_id` has been stored.
    /// The file counts as received, and the session completes when every
    /// file has arrived; storing a file again changes nothing. Returns the
    /// session's new status.
    pub fn complete_upload(&mut self, session_id: &str, file_id: &str) -> (r: Result<SessionStatus, ApiError>)
        requires
            old(self).wf(),
        ensures
            final(self).wf(),
            final(self).same_settings(*old(self)),
            final(self).log() == old(self).log(),
            !old(self)@.contains_key(session_id@) ==> {
                &&& r == Err::<SessionStatus, ApiError>(ApiError::SessionNotFound)
                &&& final(self)@ == old(self)@
            },
            old(self)@.contains_key(session_id@) && !files_map(old(self)@[session_id@].files).contains_key(file_id@)
                ==> {
                &&& r == Err::<SessionStatus, ApiError>(ApiError::InvalidParameters)
                &&& final(self)@ == old(self)@
            },
            old(self)@.contains_key(session_id@) && files_map(old(self)@[session_id@].files).contains_key(file_id@)
                ==> {
                let after = finish(old(self)@[session_id@], file_id@);
                &&& r == Ok::<SessionStatus, ApiError>(after.status)
                &&& final(self)@ == old(self)@.insert(session_id@, after)
            },
    {
        let i = match self.position(session_id) {
            Some(i) => i,
            None => return Err(ApiError::SessionNotFound),
        };
        proof {
            lemma_keyed_map_at(self.sessions@, i as int);
        }
        let j = match file_position(&self.sessions[i].files, file_id) {
            Some(j) => j,
            None => return Err(ApiError::InvalidParameters),
        };
        proof {
            lemma_keyed_map_at(self.sessions@[i as int].files@, j as int);
        }
        let ghost old_sessions = self.sessions@;
        let ghost v = old_sessions[i as int]@;
        let mut session = self.sessions.remove(i);
        assert(session@ == v);
        let ghost old_files = session.files@;
        let mut file = session.files.remove(j);
        file.received = true;
        session.files.insert(j, file);
        proof {
            assert(session.files@ =~= mark_received(old_files, file_id@)) by {
                assert forall|k: int| 0 <= k < old_files.len() implies session.files@[k] == mark_received(
                    old_files,
                    file_id@,
                )[k] by {
                    if k != j {
                        assert(old_files[k].key() != old_files[j as int].key());
                    }
                }
            }
            lemma_keyed_map_update(old_files, j as int, file);
            assert(session.files@ =~= old_files.update(j as int, file));
        }
        let all = all_files_received(&session.files);
        if all {
            session.status = SessionStatus::Completed;
        } else {
            session.status = SessionStatus::Transferring;
        }
        let status = session.status;
        proof {
            assert(session@ == finish(v, file_id@));
            assert forall|k: int| 0 <= k < session.files@.len() implies is_plain_component(
                basename((#[trigger] session.files@[k]).meta.file_name@),
            ) by {
                assert(session.files@[k].meta == old_files[k].meta);
            }
            assert(session_wf(session@));
            lemma_keyed_map_update(old_sessions, i as int, session);
        }
        self.sessions.insert(i, session);
        proof {
            assert(self.sessions@ =~= old_sessions.update(i as int, session));
            assert forall|k: int| 0 <= k < self.sessions@.len() implies session_wf((#[trigger] self.sessions@[k])@) by {
                if k != i {
                    assert(self.sessions@[k] == old_sessions[k]);
                }
            }
            assert(self@ =~= old(self)@.insert(session_id@, finish(v, file_id@)));
        }
        Ok(status)
    }

    /// Checks a download of `file_id` from `session_id` under `token`, in the
    /// same order as an upload, and gives the name the file is stored under
    /// and its content type.
    pub fn handle_download(&self, session_id: &str, file_id: &str, token: &str) -> (r: Result<FileTarget, ApiError>)
        requires
            self.wf(),
        ensures
            access_error(self@, session_id@, file_id@, token@).is_some() ==> r
                == Err::<FileTarget, ApiError>(access_error(self@, session_id@, file_id@, token@).unwrap()),
            access_error(self@, session_id@, file_id@, token@).is_none() ==> {
                let meta = files_map(self@[session_id@].files)[file_id@];
                &&& r.is_ok()
                &&& r.unwrap().file_name@ == basename(meta.file_name@)
                &&& is_plain_component(r.unwrap().file_name@)
                &&& r.unwrap().file_type@ == meta.file_type@
            },
    {
        let (i, j) = match self.locate(session_id, file_id, token) {
            Ok(p) => p,
            Err(e) => return Err(e),
        };
        let meta = &self.sessions[i].files[j].meta;
        Ok(FileTarget { file_name: crate::text::base_name(meta.file_name.as_str()), file_type: meta.file_type.clone() })
    }

    /// Cancels a session: it is removed. Cancelling an unknown session
    /// succeeds and changes nothing.
    pub fn handle_cancel(&mut self, session_id: &str)
        requires
            old(self).wf(),
        ensures
            final(self).wf(),
            final(self).same_settings(*old(self)),
            final(self).log() == old(self).log(),
            final(self)@ == old(self)@.remove(session_id@),
    {
        match self.position(session_id) {
            Some(i) => {
                let ghost old_sessions = self.sessions@;
                proof {
                    lemma_keyed_map_remove(old_sessions, i as int);
                }
                self.sessions.remove(i);
                proof {
                    assert forall|k: int| 0 <= k < self.sessions@.len() implies session_wf(
                        (#[trigger] self.sessions@[k])@,
                    ) by {
                        if k < i {
                            assert(self.sessions@[k] == old_sessions[k]);
                        } else {
                            assert(self.sessions@[k] == old_sessions[k + 1]);
                        }
                    }
                    assert(self@ =~= old(self)@.remove(session_id@));
                }
            },
            None => {
                assert(self@ =~= old(self)@.remove(session_id@));
            },
        }
    }

    /// The live sessions, each id once.
    pub fn sessions(&self) -> (r: &Vec<TransferSession>)
        requires
            self.wf(),
        ensures
            unique_keys(r@),
            keyed_map(r@).map_values(|s: TransferSession| s@) == self@,
    {
        &self.sessions
    }
}

fn distinct_ids(files: &Vec<FileMetadata>) -> (r: bool)
    ensures
        r == unique_keys(files@),
{
    let mut i: usize = 0;
    while i < files.len()
        invariant
            i <= files@.len(),
            forall|a: int, b: int| 0 <= a < i && 0 <= b < i && a != b ==> #[trigger] files@[a].key() != #[trigger] files@[b].key(),
        decreases files@.len() - i,
    {
        let mut j: usize = 0;
        while j < i
            invariant
                i < files@.len(),
                j <= i,
                forall|b: int| 0 <= b < j ==> #[trigger] files@[b].key() != files@[i as int].key(),
            decreases i - j,
        {
            if str_eq(files[i].id.as_str(), files[j].id.as_str()) {
                assert(files@[i as int].key() == files@[j as int].key());
                return false;
            }
            j += 1;
        }
        i += 1;
    }
    true
}

fn safe_names(files: &Vec<FileMetadata>) -> (r: bool)
    ensures
        r == forall|i: int| 0 <= i < files@.len() ==> is_plain_component(basename((#[trigger] files@[i]).file_name@)),
{
    let mut i: usize = 0;
    while i < files.len()
        invariant
            i <= files@.len(),
            forall|a: int| 0 <= a < i ==> is_plain_component(basename((#[trigger] files@[a]).file_name@)),
        decreases files@.len() - i,
    {
        let name = crate::text::base_name(files[i].file_name.as_str());
        if !crate::text::is_plain_name(name.as_str()) {
            return false;
        }
        i += 1;
    }
    true
}

fn file_position(files: &Vec<SessionFile>, file_id: &str) -> (r: Option<usize>)
    requires
        unique_keys(files@),
    ensures
        match r {
            Some(j) => j < files@.len() && files@[j as int].key() == file_id@,
            None => !files_map(files@).contains_key(file_id@),
        },
{
    let mut j: usize = 0;
    while j < files.len()
        invariant
            j <= files@.len(),
            forall|a: int| 0 <= a < j ==> #[trigger] files@[a].key() != file_id@,
        decreases files@.len() - j,
    {
        if str_eq(files[j].meta.id.as_str(), file_id) {
            return Some(j);
        }
        j += 1;
    }
    proof {
        lemma_keyed_map_dom(files@, file_id@);
    }
    None
}

fn all_files_received(files: &Vec<SessionFile>) -> (r: bool)
    ensures
        r == all_received(files@),
{
    let mut j: usize = 0;
    while j < files.len()
        invariant
            j <= files@.len(),
            forall|a: int| 0 <= a < j ==> (#[trigger] files@[a]).received,
        decreases files@.len() - j,
    {
        if !files[j].received {
            return false;
        }
        j += 1;
    }
    true
}

/// Every file of a session has a token, and every token belongs to a file.
pub proof fn lemma_tokens_match_files(v: SessionView)
    ensures
        tokens_map(v.files).dom() == files_map(v.files).dom(),
        received_ids(v.files).subset_of(files_map(v.files).dom()),
{
}

/// Cancelling a session twice does what cancelling it once does.
pub proof fn lemma_cancel_twice(m: Map<Seq<char>, SessionView>, session_id: Seq<char>)
    ensures
        m.remove(session_id).remove(session_id) == m.remove(session_id),
        !m.remove(session_id).contains_key(session_id),
{
    assert(m.remove(session_id).remove(session_id) =~= m.remove(session_id));
}

pub proof fn lemma_mark_received_at(files: Seq<SessionFile>, file_id: Seq<char>, i: int)
    requires
        0 <= i < files.len(),
    ensures
        mark_received(files, file_id).len() == files.len(),
        mark_received(files, file_id)[i].meta == files[i].meta,
        mark_received(files, file_id)[i].token == files[i].token,
        mark_received(files, file_id)[i].received == (files[i].received || files[i].meta.id@ == file_id),
{
}

/// Storing the same file twice marks it received once: the second time
/// changes nothing.
pub proof fn lemma_finish_twice(v: SessionView, file_id: Seq<char>)
    ensures
        finish(finish(v, file_id), file_id) == finish(v, file_id),
{
    let once = mark_received(v.files, file_id);
    assert(mark_received(once, file_id) =~= once);
}

proof fn lemma_finish_all_files(v: SessionView, order: Seq<Seq<char>>)
    ensures
        finish_all(v, order).files.len() == v.files.len(),
        finish_all(v, order).id == v.id,
        finish_all(v, order).created_at == v.created_at,
        forall|i: int|
            0 <= i < v.files.len() ==> {
                &&& (#[trigger] finish_all(v, order).files[i]).meta == v.files[i].meta
                &&& finish_all(v, order).files[i].token == v.files[i].token
                &&& finish_all(v, order).files[i].received == (v.files[i].received || order.contains(
                    v.files[i].meta.id@,
                ))
            },
    decreases order.len(),
{
    if order.len() > 0 {
        let p = order.drop_last();
        lemma_finish_all_files(v, p);
        assert forall|i: int| 0 <= i < v.files.len() implies {
            &&& (#[trigger] finish_all(v, order).files[i]).meta == v.files[i].meta
            &&& finish_all(v, order).files[i].token == v.files[i].token
            &&& finish_all(v, order).files[i].received == (v.files[i].received || order.contains(
                v.files[i].meta.id@,
            ))
        } by {
            let prev = finish_all(v, p);
            lemma_mark_received_at(prev.files, order.last(), i);
            let id = v.files[i].meta.id@;
            if p.contains(id) {
                let j = choose|j: int| 0 <= j < p.len() && p[j] == id;
                assert(order[j] == id);
            }
            if order.contains(id) {
                let j = choose|j: int| 0 <= j < order.len() && order[j] == id;
                if j < order.len() - 1 {
                    assert(p[j] == id);
                }
            }
        }
    }
}

/// Uploading every file of a fresh session once, in any order, completes the
/// session exactly once: after the last upload and at no step before it.
pub proof fn lemma_uploads_complete_once(v: SessionView, order: Seq<Seq<char>>, k: int)
    requires
        session_wf(v),
        v.status == SessionStatus::Preparing,
        order.no_duplicates(),
        order.len() == v.files.len(),
        forall|i: int| 0 <= i < order.len() ==> files_map(v.files).contains_key(#[trigger] order[i]),
        0 <= k <= order.len(),
    ensures
        (finish_all(v, order.take(k)).status == SessionStatus::Completed) <==> (k == order.len()),
{
    let o = order.take(k);
    let after = finish_all(v, o);
    lemma_finish_all_files(v, o);
    if k == order.len() {
        assert(o =~= order);
        // every file id is in the order: the order covers as many distinct ids as there are files
        assert forall|i: int| 0 <= i < v.files.len() implies (#[trigger] after.files[i]).received by {
            lemma_order_covers(v, order, i);
        }
        if k == 0 {
            assert(false);
        }
    } else {
        let id = order[k];
        lemma_keyed_map_dom(v.files, id);
        let j = choose|j: int| 0 <= j < v.files.len() && #[trigger] v.files[j].key() == id;
        assert(!o.contains(id)) by {
            if o.contains(id) {
                let a = choose|a: int| 0 <= a < o.len() && o[a] == id;
                assert(order[a] == order[k]);
            }
        }
        assert(!v.files[j].received);
        assert(!after.files[j].received);
        if k > 0 {
            assert(o.drop_last() =~= order.take(k - 1));
        }
    }
}

proof fn lemma_order_covers(v: SessionView, order: Seq<Seq<char>>, i: int)
    requires
        session_wf(v),
        order.no_duplicates(),
        order.len() == v.files.len(),
        forall|a: int| 0 <= a < order.len() ==> files_map(v.files).contains_key(#[trigger] order[a]),
        0 <= i < v.files.len(),
    ensures
        order.contains(v.files[i].meta.id@),
{
    let ids = order.to_set();
    let keys = keyed_map(v.files).dom();
    order.unique_seq_to_set();
    assert(ids.subset_of(keys)) by {
        assert forall|x: Seq<char>| ids.contains(x) implies keys.contains(x) by {
            let a = choose|a: int| 0 <= a < order.len() && order[a] == x;
            assert(files_map(v.files).contains_key(order[a]));
        }
    }
    lemma_keys_len(v.files);
    vstd::set_lib::lemma_subset_equality(ids, keys);
    lemma_keyed_map_at(v.files, i);
    assert(keys.contains(v.files[i].meta.id@));
    assert(ids.contains(v.files[i].meta.id@));
}

proof fn lemma_keys_len(s: Seq<SessionFile>)
    requires
        unique_keys(s),
    ensures
        keyed_map(s).dom().finite(),
        keyed_map(s).dom().len() == s.len(),
    decreases s.len(),
{
    if s.len() > 0 {
        crate::keyed::lemma_unique_drop_last(s);
        lemma_keys_len(s.drop_last());
        lemma_keyed_map_dom(s.drop_last(), s.last().key());
        if keyed_map(s.drop_last()).contains_key(s.last().key()) {
            let j = choose|j: int| 0 <= j < s.drop_last().len() && #[trigger] s.drop_last()[j].key() == s.last().key();
            assert(s[j] == s.drop_last()[j]);
        }
        assert(keyed_map(s).dom() =~= keyed_map(s.drop_last()).dom().insert(s.last().key()));
    }
}

} // verus!
