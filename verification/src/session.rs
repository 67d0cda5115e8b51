//! Agent sessions: their identifiers, their lifecycle and their listing.

use vstd::prelude::*;
use crate::types::{KbError, KbErrorView, opt_view, opt_str_view};
use crate::config::{spec_join, spec_kb_dir, get_kb_dir, join_path};
use crate::digest::{sha256, sha256_of};
use crate::text::push_char;

verus! {

/// A moment in UTC: seconds since the Unix epoch and the nanoseconds within that second
/// (above a billion during a leap second). Moments are ordered by seconds, then nanoseconds.
#[derive(Clone, Copy, Debug, PartialEq, Eq, Structural)]
pub struct Timestamp {
    pub secs: i64,
    pub nanos: u32,
}

/// Whether `a` is strictly earlier than `b`.
pub open spec fn ts_before(a: Timestamp, b: Timestamp) -> bool {
    a.secs < b.secs || (a.secs == b.secs && a.nanos < b.nanos)
}

/// Whether `a` is strictly earlier than `b`.
pub fn is_before(a: Timestamp, b: Timestamp) -> (res: bool)
    ensures
        res == ts_before(a, b),
{
    a.secs < b.secs || (a.secs == b.secs && a.nanos < b.nanos)
}

/// One working session of an agent.
pub struct Session {
    pub id: String,
    pub label: Option<String>,
    pub started_at: Timestamp,
    pub ended_at: Option<Timestamp>,
}

pub struct SessionView {
    pub id: Seq<char>,
    pub label: Option<Seq<char>>,
    pub started_at: Timestamp,
    pub ended_at: Option<Timestamp>,
}

impl View for Session {
    type V = SessionView;

    open spec fn view(&self) -> SessionView {
        SessionView { id: self.id@, label: opt_view(self.label), started_at: self.started_at, ended_at: self.ended_at }
    }
}

/// `<cwd>/.kb/sessions`
pub open spec fn spec_sessions_dir(cwd: Seq<char>) -> Seq<char> {
    spec_join(spec_kb_dir(cwd), "sessions"@)
}

/// `<cwd>/.kb/sessions/<id>.json`
pub open spec fn spec_session_path(cwd: Seq<char>, id: Seq<char>) -> Seq<char> {
    spec_join(spec_sessions_dir(cwd), id + ".json"@)
}

/// The directory that holds one file per session.
pub fn sessions_dir(cwd: &str) -> (res: String)
    ensures
        res@ == spec_sessions_dir(cwd@),
{
    let kb = get_kb_dir(cwd);
    join_path(kb.as_str(), "sessions")
}

/// The file of the session `id`.
pub fn session_path(cwd: &str, id: &str) -> (res: String)
    ensures
        res@ == spec_session_path(cwd@, id@),
{
    let dir = sessions_dir(cwd);
    let file = id.to_owned().concat(".json");
    join_path(dir.as_str(), file.as_str())
}

/// The eight bytes of `x`, least significant first.
pub open spec fn le_bytes(x: u64) -> Seq<u8> {
    seq![
        (x & 0xff) as u8,
        ((x >> 8u64) & 0xff) as u8,
        ((x >> 16u64) & 0xff) as u8,
        ((x >> 24u64) & 0xff) as u8,
        ((x >> 32u64) & 0xff) as u8,
        ((x >> 40u64) & 0xff) as u8,
        ((x >> 48u64) & 0xff) as u8,
        ((x >> 56u64) & 0xff) as u8,
    ]
}

/// Appends the eight bytes of `x`, least significant first.
fn push_le_bytes(out: &mut Vec<u8>, x: u64)
    ensures
        final(out)@ == old(out)@ + le_bytes(x),
{
    out.push((x & 0xff) as u8);
    out.push(((x >> 8u64) & 0xff) as u8);
    out.push(((x >> 16u64) & 0xff) as u8);
    out.push(((x >> 24u64) & 0xff) as u8);
    out.push(((x >> 32u64) & 0xff) as u8);
    out.push(((x >> 40u64) & 0xff) as u8);
    out.push(((x >> 48u64) & 0xff) as u8);
    out.push(((x >> 56u64) & 0xff) as u8);
    assert(final(out)@ =~= old(out)@ + le_bytes(x));
}

/// The lower-case hexadecimal digit of `n`, for `n` below 16.
pub open spec fn hex_digit(n: u8) -> char {
    if n < 10 {
        ((n + 48) as u8) as char
    } else {
        ((n + 87) as u8) as char
    }
}

/// The two lower-case hexadecimal digits of `b`.
pub open spec fn hex_byte(b: u8) -> Seq<char> {
    seq![hex_digit(b / 16), hex_digit(b % 16)]
}

/// The identifier of a session started at `now_nanos` (nanoseconds since the epoch) with
/// the random value `random`: `kb-` and the hexadecimal form of the first three bytes of
/// the SHA-256 digest of both values' little-endian bytes.
pub open spec fn spec_session_id(now_nanos: i64, random: u64) -> Seq<char> {
    spec_id_from_digest(sha256_of(le_bytes(now_nanos as u64) + le_bytes(random)))
}

/// The identifier made from a digest: `kb-` and the hexadecimal form of its first three
/// bytes.
pub open spec fn spec_id_from_digest(digest: Seq<u8>) -> Seq<char> {
    "kb-"@ + hex_byte(digest[0]) + hex_byte(digest[1]) + hex_byte(digest[2])
}

fn push_hex_digit(s: &mut String, n: u8)
    requires
        n < 16,
    ensures
        final(s)@ == old(s)@.push(hex_digit(n)),
{
    if n < 10 {
        push_char(s, (n + 48) as char);
    } else {
        push_char(s, (n + 87) as char);
    }
}

/// Builds a session identifier (see `spec_session_id`).
pub fn generate_session_id(now_nanos: i64, random: u64) -> (res: String)
    ensures
        res@ == spec_session_id(now_nanos, random),
{
    let mut bytes: Vec<u8> = Vec::new();
    push_le_bytes(&mut bytes, now_nanos as u64);
    push_le_bytes(&mut bytes, random);
    assert(bytes@ =~= le_bytes(now_nanos as u64) + le_bytes(random));
    let digest = sha256(bytes.as_slice());
    session_id_from_digest(&digest)
}

/// Writes a session identifier from a digest (see `spec_id_from_digest`).
pub fn session_id_from_digest(digest: &Vec<u8>) -> (res: String)
    requires
        digest@.len() >= 3,
    ensures
        res@ == spec_id_from_digest(digest@),
{
    let mut id = "kb-".to_owned();
    let mut k: usize = 0;
    while k < 3
        invariant
            digest@.len() >= 3,
            k <= 3,
            id@ == "kb-"@ + (if k == 0 { seq![] } else if k == 1 { hex_byte(digest@[0]) } else if k == 2 {
                hex_byte(digest@[0]) + hex_byte(digest@[1])
            } else {
                hex_byte(digest@[0]) + hex_byte(digest@[1]) + hex_byte(digest@[2])
            }),
        decreases 3 - k,
    {
        let b = digest[k];
        push_hex_digit(&mut id, b / 16);
        push_hex_digit(&mut id, b % 16);
        k = k + 1;
    }
    assert(id@ =~= spec_id_from_digest(digest@));
    id
}

/// Mixes a process id and a clock reading into a pseudo-random value:
/// `pid * 6364136223846793005 + ts`, both modulo 2^64.
pub fn rand_bytes(pid: u64, ts: u64) -> (res: u64)
    ensures
        res == (pid * 6364136223846793005 + ts) % 0x1_0000_0000_0000_0000,
{
    let m = pid.wrapping_mul(6364136223846793005);
    let r = m.wrapping_add(ts);
    r
}


/// A new session: the given identifier, label and start, not ended.
pub fn new_session(id: String, label: Option<&str>, started_at: Timestamp) -> (res: Session)
    ensures
        res.id == id,
        opt_view(res.label) == opt_str_view(label),
        res.started_at == started_at,
        res.ended_at is None,
{
    let label = match label {
        Some(l) => Some(l.to_owned()),
        None => None,
    };
    Session { id, label, started_at, ended_at: None }
}

/// The message given when a session that has ended is resumed or ended again.
pub open spec fn already_ended_message(id: Seq<char>) -> Seq<char> {
    "Session \""@ + id + "\" has already ended"@
}

fn already_ended(id: &str) -> (res: KbError)
    ensures
        res@ == KbErrorView::ValidationError(already_ended_message(id@)),
{
    let msg = "Session \"".to_owned().concat(id).concat("\" has already ended");
    KbError::ValidationError(msg)
}

/// What resuming the session `id`, found as `session`, gives: the session itself while it
/// has not ended, else an error.
pub open spec fn spec_resume_session(id: Seq<char>, session: SessionView) -> Result<SessionView, KbErrorView> {
    if session.ended_at is Some {
        Err(KbErrorView::ValidationError(already_ended_message(id)))
    } else {
        Ok(session)
    }
}

/// Resumes the session `id`, found as `session`.
pub fn resume_session(id: &str, session: Session) -> (res: Result<Session, KbError>)
    ensures
        match res {
            Ok(s) => spec_resume_session(id@, session@) == Ok::<SessionView, KbErrorView>(s@),
            Err(e) => spec_resume_session(id@, session@) == Err::<SessionView, KbErrorView>(e@),
        },
{
    if session.ended_at.is_some() {
        return Err(already_ended(id));
    }
    Ok(session)
}

/// What ending the session `id`, found as `session`, at `now` gives: the session with its
/// end set to `now` while it has not ended, else an error.
pub open spec fn spec_end_session(id: Seq<char>, session: SessionView, now: Timestamp) -> Result<SessionView, KbErrorView> {
    if session.ended_at is Some {
        Err(KbErrorView::ValidationError(already_ended_message(id)))
    } else {
        Ok(SessionView { ended_at: Some(now), ..session })
    }
}

/// Ends the session `id`, found as `session`, at `now`; the caller stores the result.
pub fn end_session(id: &str, session: Session, now: Timestamp) -> (res: Result<Session, KbError>)
    ensures
        match res {
            Ok(s) => spec_end_session(id@, session@, now) == Ok::<SessionView, KbErrorView>(s@),
            Err(e) => spec_end_session(id@, session@, now) == Err::<SessionView, KbErrorView>(e@),
        },
{
    if session.ended_at.is_some() {
        return Err(already_ended(id));
    }
    let mut session = session;
    session.ended_at = Some(now);
    Ok(session)
}

/// Why a session file gave no session.
pub enum SessionReadFailure {
    /// There is no file for the session.
    Missing,
    /// The file could not be read.
    Unreadable(String),
    /// The file is not a session in JSON.
    Malformed(String),
}

/// Looks up the session `id` from what reading its file gave: a missing file means an
/// unknown session.
pub fn get_session(id: &str, read: Result<Session, SessionReadFailure>) -> (res: Result<Session, KbError>)
    ensures
        match read {
            Ok(s) => res matches Ok(r) && r@ == s@,
            Err(SessionReadFailure::Missing) => res matches Err(e) && e@ == KbErrorView::RecordNotFound(id@),
            Err(SessionReadFailure::Unreadable(m)) => res matches Err(e) && e@ == KbErrorView::Io(m@),
            Err(SessionReadFailure::Malformed(m)) => res matches Err(e) && e@ == KbErrorView::Json(m@),
        },
{
    match read {
        Ok(s) => Ok(s),
        Err(SessionReadFailure::Missing) => Err(KbError::RecordNotFound(id.to_owned())),
        Err(SessionReadFailure::Unreadable(m)) => Err(KbError::Io(m)),
        Err(SessionReadFailure::Malformed(m)) => Err(KbError::Json(m)),
    }
}

/// Whether sessions run from the most recently started to the least.
pub open spec fn newest_first(s: Seq<SessionView>) -> bool {
    forall|i: int, j: int| 0 <= i < j < s.len() ==> !ts_before(#[trigger] s[i].started_at, #[trigger] s[j].started_at)
}

/// The sessions of `s` that started at `t`, in their order in `s`.
pub open spec fn started_at(s: Seq<SessionView>, t: Timestamp) -> Seq<SessionView>
    decreases s.len(),
{
    if s.len() == 0 {
        seq![]
    } else {
        let rest = started_at(s.drop_last(), t);
        if s.last().started_at == t { rest.push(s.last()) } else { rest }
    }
}

/// `sorted` is `s` ordered from the most recently started session to the least, sessions
/// that started at the same moment keeping their order.
pub open spec fn is_stable_newest_first(sorted: Seq<SessionView>, s: Seq<SessionView>) -> bool {
    &&& newest_first(sorted)
    &&& forall|t: Timestamp| #[trigger] started_at(sorted, t) == started_at(s, t)
}

pub open spec fn sessions_view(v: Vec<Session>) -> Seq<SessionView> {
    v@.map_values(|s: Session| s@)
}

proof fn lemma_started_at_concat(a: Seq<SessionView>, b: Seq<SessionView>, t: Timestamp)
    ensures
        started_at(a + b, t) == started_at(a, t) + started_at(b, t),
    decreases b.len(),
{
    if b.len() == 0 {
        assert(a + b =~= a);
        assert(started_at(a, t) + seq![] =~= started_at(a, t));
    } else {
        assert((a + b).drop_last() =~= a + b.drop_last());
        lemma_started_at_concat(a, b.drop_last(), t);
        if b.last().started_at == t {
            assert(started_at(a, t) + started_at(b.drop_last(), t).push(b.last())
                =~= (started_at(a, t) + started_at(b.drop_last(), t)).push(b.last()));
        }
    }
}

proof fn lemma_started_at_none(s: Seq<SessionView>, t: Timestamp)
    requires
        forall|i: int| 0 <= i < s.len() ==> (#[trigger] s[i]).started_at != t,
    ensures
        started_at(s, t) == Seq::<SessionView>::empty(),
    decreases s.len(),
{
    if s.len() > 0 {
        lemma_started_at_none(s.drop_last(), t);
    }
}

proof fn lemma_started_at_single(x: SessionView, t: Timestamp)
    ensures
        started_at(seq![x], t) == (if x.started_at == t { seq![x] } else { Seq::<SessionView>::empty() }),
{
    assert(seq![x].drop_last() =~= Seq::<SessionView>::empty());
    assert(started_at(Seq::<SessionView>::empty(), t) =~= Seq::<SessionView>::empty());
    if x.started_at == t {
        assert(Seq::<SessionView>::empty().push(x) =~= seq![x]);
    }
}

/// Orders sessions from the most recently started to the least; sessions that started at
/// the same moment keep their order.
pub fn list_sessions(sessions: Vec<Session>) -> (res: Vec<Session>)
    ensures
        is_stable_newest_first(sessions_view(res), sessions_view(sessions)),
        res@.len() == sessions@.len(),
{
    let ghost input = sessions_view(sessions);
    let mut rest = sessions;
    let mut res: Vec<Session> = Vec::new();
    let n = rest.len();
    let mut i: usize = 0;
    while i < n
        invariant
            n == input.len(),
            i <= n,
            sessions_view(rest) == input.skip(i as int),
            res@.len() == i,
            newest_first(sessions_view(res)),
            forall|t: Timestamp| #[trigger] started_at(sessions_view(res), t) == started_at(input.take(i as int), t),
        decreases n - i,
    {
        let ghost old_res = sessions_view(res);
        let ghost old_rest = rest@;
        assert(sessions_view(rest).len() == rest@.len());
        assert(sessions_view(rest)[0] == old_rest[0]@);
        let ghost old_view = sessions_view(rest);
        let x = rest.remove(0);
        assert(x@ == input[i as int]);
        assert forall|k: int| 0 <= k < sessions_view(rest).len() implies sessions_view(rest)[k] == input.skip(i + 1)[k] by {
            assert(rest@[k] == old_rest[k + 1]);
            assert(old_view[k + 1] == old_rest[k + 1]@);
            assert(old_view[k + 1] == input.skip(i as int)[k + 1]);
        }
        assert(sessions_view(rest) =~= input.skip(i + 1));
        let mut p: usize = 0;
        while p < res.len() && !is_before(res[p].started_at, x.started_at)
            invariant
                old_res == sessions_view(res),
                p <= res@.len(),
                forall|j: int| 0 <= j < p ==> !ts_before(#[trigger] old_res[j].started_at, x.started_at),
            decreases res@.len() - p,
        {
            p = p + 1;
        }
        proof {
            // Every session from `p` on started strictly before `x`.
            assert forall|m: int| p <= m < old_res.len() implies ts_before(#[trigger] old_res[m].started_at, x.started_at) by {
                assert(ts_before(old_res[p as int].started_at, x.started_at));
                if m > p {
                    assert(!ts_before(old_res[p as int].started_at, old_res[m].started_at));
                }
            }
        }
        let ghost xv = x@;
        res.insert(p, x);
        let ghost new_res = sessions_view(res);
        assert(new_res =~= old_res.take(p as int) + seq![xv] + old_res.skip(p as int));
        proof {
            assert forall|a: int, b: int| 0 <= a < b < new_res.len() implies !ts_before(#[trigger] new_res[a].started_at, #[trigger] new_res[b].started_at) by {
                if b < p {
                    assert(new_res[a] == old_res[a] && new_res[b] == old_res[b]);
                } else if b == p {
                    assert(new_res[a] == old_res[a]);
                } else if a < p {
                    assert(new_res[a] == old_res[a] && new_res[b] == old_res[b - 1]);
                } else if a == p {
                    assert(new_res[b] == old_res[b - 1]);
                    assert(ts_before(old_res[b - 1].started_at, xv.started_at));
                } else {
                    assert(new_res[a] == old_res[a - 1] && new_res[b] == old_res[b - 1]);
                }
            }
            assert(input.take(i + 1).drop_last() =~= input.take(i as int));
            assert(input.take(i + 1).last() == xv);
            assert(old_res.take(p as int) + old_res.skip(p as int) =~= old_res);
            assert forall|t: Timestamp| #[trigger] started_at(new_res, t) == started_at(input.take(i + 1), t) by {
                lemma_started_at_concat(old_res.take(p as int) + seq![xv], old_res.skip(p as int), t);
                lemma_started_at_concat(old_res.take(p as int), seq![xv], t);
                lemma_started_at_concat(old_res.take(p as int), old_res.skip(p as int), t);
                lemma_started_at_single(xv, t);
                if xv.started_at == t {
                    assert forall|m: int| 0 <= m < old_res.skip(p as int).len() implies (#[trigger] old_res.skip(p as int)[m]).started_at != t by {
                        assert(old_res.skip(p as int)[m] == old_res[p + m]);
                    }
                    lemma_started_at_none(old_res.skip(p as int), t);
                    assert(started_at(old_res.take(p as int), t) + seq![xv] + Seq::<SessionView>::empty()
                        =~= (started_at(old_res.take(p as int), t) + Seq::<SessionView>::empty()).push(xv));
                } else {
                    assert(started_at(old_res.take(p as int), t) + Seq::<SessionView>::empty() + started_at(old_res.skip(p as int), t)
                        =~= started_at(old_res.take(p as int), t) + started_at(old_res.skip(p as int), t));
                }
            }
        }
        i = i + 1;
    }
    assert(input.take(n as int) =~= input);
    res
}


/// A session that has been ended cannot be resumed, nor ended again.
pub proof fn law_ended_session_is_final(id: Seq<char>, session: SessionView, now: Timestamp, later: Timestamp)
    ensures
        spec_end_session(id, session, now) matches Ok(ended) ==> {
            &&& spec_resume_session(id, ended) is Err
            &&& spec_end_session(id, ended, later) is Err
        },
{
}

/// Ending a session keeps its identifier, label and start, and sets its end to the
/// moment given; resuming one that has not ended gives it back unchanged.
pub proof fn law_session_lifecycle(id: Seq<char>, session: SessionView, now: Timestamp)
    requires
        session.ended_at is None,
    ensures
        spec_resume_session(id, session) == Ok::<SessionView, KbErrorView>(session),
        spec_end_session(id, session, now) matches Ok(ended) && ended.id == session.id
            && ended.label == session.label && ended.started_at == session.started_at
            && ended.ended_at == Some(now),
{
}

/// A session identifier is `kb-` followed by six lower-case hexadecimal digits.
pub proof fn law_session_id_shape(now_nanos: i64, random: u64)
    ensures
        spec_session_id(now_nanos, random).len() == 9,
        spec_session_id(now_nanos, random).subrange(0, 3) == "kb-"@,
        forall|k: int| 3 <= k < 9 ==> {
            let c = #[trigger] spec_session_id(now_nanos, random)[k];
            ('0' <= c <= '9') || ('a' <= c <= 'f')
        },
{
    reveal_strlit("kb-");
    let digest = sha256_of(le_bytes(now_nanos as u64) + le_bytes(random));
    let id = spec_session_id(now_nanos, random);
    assert(id.subrange(0, 3) =~= "kb-"@);
    assert forall|k: int| 3 <= k < 9 implies {
        let c = #[trigger] id[k];
        ('0' <= c <= '9') || ('a' <= c <= 'f')
    } by {
        let j = (k - 3) / 2;
        let b = digest[j];
        assert(0 <= b / 16 < 16 && 0 <= b % 16 < 16);
        if (k - 3) % 2 == 0 {
            assert(id[k] == hex_digit(b / 16));
        } else {
            assert(id[k] == hex_digit(b % 16));
        }
    }
}

proof fn lemma_started_at_member(s: Seq<SessionView>, t: Timestamp, x: SessionView)
    ensures
        started_at(s, t).contains(x) <==> (s.contains(x) && x.started_at == t),
    decreases s.len(),
{
    if s.len() > 0 {
        lemma_started_at_member(s.drop_last(), t, x);
        let rest = started_at(s.drop_last(), t);
        if s.drop_last().contains(x) {
            let j = choose|j: int| 0 <= j < s.drop_last().len() && s.drop_last()[j] == x;
            assert(s[j] == x);
        }
        if s.contains(x) {
            let j = choose|j: int| 0 <= j < s.len() && s[j] == x;
            if j < s.len() - 1 {
                assert(s.drop_last()[j] == x);
            }
        }
        if s.last().started_at == t {
            assert(rest.push(s.last())[rest.len() as int] == s.last());
            if rest.push(s.last()).contains(x) {
                let j = choose|j: int| 0 <= j < rest.push(s.last()).len() && rest.push(s.last())[j] == x;
                if j < rest.len() {
                    assert(rest[j] == x);
                }
            }
            if rest.contains(x) {
                let j = choose|j: int| 0 <= j < rest.len() && rest[j] == x;
                assert(rest.push(s.last())[j] == x);
            }
        }
    }
}

/// Listing sessions loses none and adds none: a session is listed exactly when it was
/// among those read; and the listing runs from the newest to the oldest.
pub proof fn law_listing_complete(sorted: Seq<SessionView>, s: Seq<SessionView>, x: SessionView)
    requires
        is_stable_newest_first(sorted, s),
    ensures
        sorted.contains(x) <==> s.contains(x),
        forall|i: int, j: int| 0 <= i < j < sorted.len() ==> !ts_before(#[trigger] sorted[i].started_at, #[trigger] sorted[j].started_at),
{
    lemma_started_at_member(sorted, x.started_at, x);
    lemma_started_at_member(s, x.started_at, x);
    assert(started_at(sorted, x.started_at) == started_at(s, x.started_at));
}

} // verus!
