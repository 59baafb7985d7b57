use vstd::prelude::*;
use crate::text::{chars_of, string_of};

verus! {

/// A pending request to write `text` to the next tag, for slot `tray_id`.
#[derive(Debug)]
pub struct WriteTagRequest {
    pub text: String,
    pub tray_id: usize,
}

#[derive(Debug, Clone, Copy, PartialEq, Eq, Structural)]
pub enum Failure {
    TagWriteFailure,
    TagReadFailure,
}

/// The events a tag operation reports to observers.
#[derive(Debug)]
pub enum Status {
    FoundTagNowReading,
    FoundTagNowWriting,
    WriteSuccess(usize),
    ReadSuccess(String),
    Failure(Failure),
}

/// What the polling loop is to do with a detected tag.
#[derive(Debug)]
pub enum TagAction {
    /// The same tag again within the debounce window.
    Ignore,
    /// Read the tag; report `FoundTagNowReading` first.
    Read,
    /// Write the request's text to the tag; report `FoundTagNowWriting` first.
    Write(WriteTagRequest),
}

/// The debounce window, in milliseconds.
pub const DEBOUNCE_MS: u64 = 500;

/// The tag orchestrator's state: the single-slot pending write request, and the
/// last tag seen with the time it was last handled.
#[derive(Debug)]
pub struct SpoolTag {
    pub pending: Option<WriteTagRequest>,
    pub previous_tag: Option<Vec<u8>>,
    pub previous_tag_scan_time: u64,
}

pub struct SpoolTagModel {
    pub pending: Option<(Seq<char>, usize)>,
    pub previous_tag: Option<Seq<u8>>,
    pub previous_tag_scan_time: u64,
}

impl View for SpoolTag {
    type V = SpoolTagModel;

    open spec fn view(&self) -> SpoolTagModel {
        SpoolTagModel {
            pending: match self.pending {
                Some(w) => Some((w.text@, w.tray_id)),
                None => None,
            },
            previous_tag: match self.previous_tag {
                Some(t) => Some(t@),
                None => None,
            },
            previous_tag_scan_time: self.previous_tag_scan_time,
        }
    }
}

pub enum ActionModel {
    Ignore,
    Read,
    Write(Seq<char>, usize),
}

pub open spec fn action_view(a: TagAction) -> ActionModel {
    match a {
        TagAction::Ignore => ActionModel::Ignore,
        TagAction::Read => ActionModel::Read,
        TagAction::Write(w) => ActionModel::Write(w.text@, w.tray_id),
    }
}

/// Milliseconds from `then` to `now`, zero when `now` is earlier.
pub open spec fn elapsed(then: u64, now: u64) -> int {
    if now >= then {
        now - then
    } else {
        0
    }
}

/// A detection of `uid` at `now` is a repeat of the previous tag within the window.
pub open spec fn is_repeat(s: SpoolTagModel, uid: Seq<u8>, now: u64) -> bool {
    s.previous_tag == Some(uid) && elapsed(s.previous_tag_scan_time, now) < DEBOUNCE_MS
}

/// The state and action after a tag `uid` is detected at `now`.
pub open spec fn detected(s: SpoolTagModel, uid: Seq<u8>, now: u64) -> (SpoolTagModel, ActionModel) {
    if is_repeat(s, uid, now) {
        (SpoolTagModel { previous_tag_scan_time: now, ..s }, ActionModel::Ignore)
    } else {
        (
            SpoolTagModel { pending: None, previous_tag: Some(uid), ..s },
            match s.pending {
                Some((text, tray_id)) => ActionModel::Write(text, tray_id),
                None => ActionModel::Read,
            },
        )
    }
}

/// The state after an operation on the tag ended at `now`.
pub open spec fn finished(s: SpoolTagModel, now: u64) -> SpoolTagModel {
    SpoolTagModel { previous_tag_scan_time: now, ..s }
}

fn same_bytes(a: &Vec<u8>, b: &Vec<u8>) -> (r: bool)
    ensures
        r == (a@ == b@),
{
    if a.len() != b.len() {
        return false;
    }
    let mut i: usize = 0;
    while i < a.len()
        invariant
            a.len() == b.len(),
            0 <= i <= a.len(),
            forall|j: int| 0 <= j < i ==> a@[j] == b@[j],
        decreases a.len() - i,
    {
        if a[i] != b[i] {
            return false;
        }
        i = i + 1;
    }
    assert(a@ =~= b@);
    true
}

fn copy_bytes(a: &Vec<u8>) -> (r: Vec<u8>)
    ensures
        r@ == a@,
{
    let mut r: Vec<u8> = Vec::new();
    let mut i: usize = 0;
    while i < a.len()
        invariant
            0 <= i <= a.len(),
            r@ == a@.take(i as int),
        decreases a.len() - i,
    {
        r.push(a[i]);
        i = i + 1;
        assert(r@ =~= a@.take(i as int));
    }
    assert(a@.take(a.len() as int) =~= a@);
    r
}

impl SpoolTag {
    pub fn new() -> (r: Self)
        ensures
            r@.pending is None,
            r@.previous_tag is None,
            r@.previous_tag_scan_time == 0,
    {
        SpoolTag { pending: None, previous_tag: None, previous_tag_scan_time: 0 }
    }

    /// Sets the pending write request, replacing one not yet consumed.
    pub fn write_tag(&mut self, text: &str, tray_id: usize)
        ensures
            final(self)@ == (SpoolTagModel { pending: Some((text@, tray_id)), ..old(self)@ }),
    {
        self.pending = Some(WriteTagRequest { text: String::from_str(text), tray_id });
    }

    /// Drops the pending write request; an operation already started is not affected.
    pub fn cancel_operation(&mut self)
        ensures
            final(self)@ == (SpoolTagModel { pending: None, ..old(self)@ }),
    {
        self.pending = None;
    }

    /// A tag with id `uid` was detected at `now` (milliseconds). A repeat of the
    /// previous tag within the debounce window is ignored; otherwise the pending
    /// write request is consumed, or the tag is read.
    pub fn on_tag_detected(&mut self, uid: &Vec<u8>, now: u64) -> (r: TagAction)
        ensures
            (final(self)@, action_view(r)) == detected(old(self)@, uid@, now),
    {
        let repeat = match &self.previous_tag {
            Some(p) => same_bytes(p, uid) && (if now >= self.previous_tag_scan_time {
                now - self.previous_tag_scan_time
            } else {
                0
            }) < DEBOUNCE_MS,
            None => false,
        };
        if repeat {
            self.previous_tag_scan_time = now;
            return TagAction::Ignore;
        }
        self.previous_tag = Some(copy_bytes(uid));
        let pending = self.pending.take();
        match pending {
            Some(w) => TagAction::Write(w),
            None => TagAction::Read,
        }
    }

    /// The operation started on the last tag ended at `now`.
    pub fn on_operation_done(&mut self, now: u64)
        ensures
            final(self)@ == finished(old(self)@, now),
    {
        self.previous_tag_scan_time = now;
    }

    /// Polling timed out without a tag: the next tag is treated as a new one.
    pub fn on_poll_timeout(&mut self)
        ensures
            final(self)@ == (SpoolTagModel { previous_tag: None, ..old(self)@ }),
    {
        self.previous_tag = None;
    }

    /// Polling failed: the pending request, if any, is consumed and reported as failed.
    pub fn on_poll_error(&mut self) -> (r: Status)
        ensures
            final(self)@ == (SpoolTagModel { pending: None, ..old(self)@ }),
            old(self)@.pending is Some ==> r == Status::Failure(Failure::TagWriteFailure),
            old(self)@.pending is None ==> r == Status::Failure(Failure::TagReadFailure),
    {
        match self.pending.take() {
            Some(_) => Status::Failure(Failure::TagWriteFailure),
            None => Status::Failure(Failure::TagReadFailure),
        }
    }
}

/// The status reported when an operation starts.
pub fn start_status(a: &TagAction) -> (r: Option<Status>)
    ensures
        a is Ignore ==> r is None,
        a is Read ==> r == Some(Status::FoundTagNowReading),
        a is Write ==> r == Some(Status::FoundTagNowWriting),
{
    match a {
        TagAction::Ignore => None,
        TagAction::Read => Some(Status::FoundTagNowReading),
        TagAction::Write(_) => Some(Status::FoundTagNowWriting),
    }
}

/// The status that ends a write for slot `tray_id`.
pub fn write_result_status(ok: bool, tray_id: usize) -> (r: Status)
    ensures
        ok ==> r == Status::WriteSuccess(tray_id),
        !ok ==> r == Status::Failure(Failure::TagWriteFailure),
{
    if ok {
        Status::WriteSuccess(tray_id)
    } else {
        Status::Failure(Failure::TagWriteFailure)
    }
}

/// The status that ends a read.
pub fn read_result_status(text: Option<String>) -> (r: Status)
    ensures
        text matches Some(t) ==> r matches Status::ReadSuccess(x) && x == t,
        text is None ==> r == Status::Failure(Failure::TagReadFailure),
{
    match text {
        Some(t) => Status::ReadSuccess(t),
        None => Status::Failure(Failure::TagReadFailure),
    }
}

/// The character of a 6-bit value in the URL-safe base64 alphabet:
/// `A`-`Z`, `a`-`z`, `0`-`9`, `-`, `_`.
pub open spec fn url_safe_char(v: u8) -> char {
    if v < 26 {
        ((v + 65) as u32) as char
    } else if v < 52 {
        ((v - 26 + 97) as u32) as char
    } else if v < 62 {
        ((v - 52 + 48) as u32) as char
    } else if v == 62 {
        '-'
    } else {
        '_'
    }
}

/// The padded URL-safe base64 text of `b`: each group of three bytes as four
/// characters of six bits each, a last group of one or two bytes padded with `=`.
pub open spec fn base64_url_text(b: Seq<u8>) -> Seq<char>
    decreases b.len(),
{
    if b.len() == 0 {
        Seq::empty()
    } else if b.len() == 1 {
        seq![url_safe_char(b[0] >> 2), url_safe_char((b[0] & 3) << 4), '=', '=']
    } else if b.len() == 2 {
        seq![
            url_safe_char(b[0] >> 2),
            url_safe_char(((b[0] & 3) << 4) | (b[1] >> 4)),
            url_safe_char((b[1] & 15) << 2),
            '=',
        ]
    } else {
        seq![
            url_safe_char(b[0] >> 2),
            url_safe_char(((b[0] & 3) << 4) | (b[1] >> 4)),
            url_safe_char(((b[1] & 15) << 2) | (b[2] >> 6)),
            url_safe_char(b[2] & 63),
        ] + base64_url_text(b.skip(3))
    }
}

/// Relies on base64's `Engine::encode` with the `URL_SAFE` engine: the padded URL-safe
/// base64 text of the bytes.
#[verifier::external_body]
fn base64_url(b: &Vec<u8>) -> (r: String)
    ensures
        r@ == base64_url_text(b@),
{
    base64::Engine::encode(&base64::engine::general_purpose::URL_SAFE, b)
}

/// `s` without its trailing `=` padding.
pub open spec fn trim_padding(s: Seq<char>) -> Seq<char>
    decreases s.len(),
{
    if s.len() > 0 && s.last() == '=' {
        trim_padding(s.drop_last())
    } else {
        s
    }
}

/// `s` with every occurrence of `p` (non-empty), scanning left to right, replaced by `r`.
pub open spec fn replace_all(s: Seq<char>, p: Seq<char>, r: Seq<char>) -> Seq<char>
    decreases s.len(),
{
    if s.len() == 0 || p.len() == 0 {
        s
    } else if s.len() >= p.len() && s.take(p.len() as int) == p {
        r + replace_all(s.skip(p.len() as int), p, r)
    } else {
        seq![s[0]] + replace_all(s.drop_first(), p, r)
    }
}

fn occurs_at(s: &Vec<char>, i: usize, p: &Vec<char>) -> (r: bool)
    requires
        i <= s.len(),
    ensures
        r == (s.len() - i >= p.len() && s@.skip(i as int).take(p.len() as int) == p@),
{
    if s.len() - i < p.len() {
        return false;
    }
    let mut j: usize = 0;
    while j < p.len()
        invariant
            i <= s.len(),
            s.len() - i >= p.len(),
            0 <= j <= p.len(),
            forall|k: int| 0 <= k < j ==> s@[i + k] == p@[k],
        decreases p.len() - j,
    {
        if s[i + j] != p[j] {
            assert(s@.skip(i as int).take(p.len() as int)[j as int] != p@[j as int]);
            return false;
        }
        j = j + 1;
    }
    assert(s@.skip(i as int).take(p.len() as int) =~= p@);
    true
}

/// The tag text to write: `text` with the id placeholder replaced by the tag's
/// base64 id `encoded_uid`, padding removed.
pub fn tag_text_with_id(text: &str, encoded_uid: &str) -> (r: String)
    ensures
        r@ == replace_all(text@, "$tag-id$"@, trim_padding(encoded_uid@)),
{
    let u = chars_of(encoded_uid);
    let mut n: usize = u.len();
    assert(u@.take(n as int) =~= u@);
    while n > 0 && u[n - 1] == '='
        invariant
            0 <= n <= u.len(),
            trim_padding(u@) == trim_padding(u@.take(n as int)),
        decreases n,
    {
        assert(u@.take(n as int).drop_last() =~= u@.take(n - 1));
        n = n - 1;
    }
    let id = crate::text::sub_chars(&u, 0, n);
    let p = chars_of(crate::descriptor::TAG_PLACEHOLDER);
    proof {
        reveal_strlit("$tag-id$");
    }
    let s = chars_of(text);
    let mut out: Vec<char> = Vec::new();
    let mut i: usize = 0;
    assert(s@.skip(0) =~= s@);
    while i < s.len()
        invariant
            0 <= i <= s.len(),
            p@ == "$tag-id$"@,
            p@.len() == 8,
            id@ == trim_padding(u@),
            out@ + replace_all(s@.skip(i as int), p@, id@) == replace_all(s@, p@, id@),
        decreases s.len() - i,
    {
        let ghost before = out@;
        let ghost rest = s@.skip(i as int);
        if occurs_at(&s, i, &p) {
            assert(rest.skip(8) =~= s@.skip(i + 8));
            let mut k: usize = 0;
            while k < id.len()
                invariant
                    0 <= k <= id.len(),
                    out@ == before + id@.take(k as int),
                decreases id.len() - k,
            {
                out.push(id[k]);
                k = k + 1;
                assert(out@ =~= before + id@.take(k as int));
            }
            assert(id@.take(id.len() as int) =~= id@);
            i = i + 8;
        } else {
            assert(rest.drop_first() =~= s@.skip(i + 1));
            out.push(s[i]);
            i = i + 1;
        }
        assert(out@ + replace_all(s@.skip(i as int), p@, id@) =~= before + replace_all(rest, p@, id@));
    }
    assert(out@ =~= out@ + replace_all(s@.skip(i as int), p@, id@));
    string_of(&out)
}

/// The tag text to write for the tag with id bytes `uid`.
pub fn tag_text_for_uid(text: &str, uid: &Vec<u8>) -> (r: String)
    ensures
        r@ == replace_all(text@, "$tag-id$"@, trim_padding(base64_url_text(uid@))),
{
    let encoded = base64_url(uid);
    tag_text_with_id(text, encoded.as_str())
}

/// Debounce: after a tag is handled at `t1`, the same tag detected at `t2 >= t1` is
/// ignored exactly when fewer than 500 ms have passed; a different tag never is.
pub proof fn lemma_debounce(s: SpoolTagModel, uid: Seq<u8>, t0: u64, t1: u64, t2: u64, other: Seq<u8>)
    requires
        t2 >= t1,
        !is_repeat(s, uid, t0),
        other != uid,
    ensures
        ({
            let s1 = finished(detected(s, uid, t0).0, t1);
            &&& !(detected(s, uid, t0).1 is Ignore)
            &&& (detected(s1, uid, t2).1 is Ignore <==> t2 - t1 < 500)
            &&& !(detected(s1, other, t2).1 is Ignore)
        }),
{
}

} // verus!
