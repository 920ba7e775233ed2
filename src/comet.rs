//! The correlated request/response channel to the overlay client: one
//! connection generation at a time, a tag per request, and the routing of each
//! reply to the one request that it answers.
use vstd::prelude::*;
use crate::text::str_eq;
use crate::random::{is_token, random_token, random_token_retrying, DRAW_ATTEMPTS, STATE_BYTES, TAG_BYTES};

verus! {

/// The tag of one outbound request. The close tag carries no value and stands
/// for "the connection went away", never for a reply.
pub struct MessageTag {
    value: String,
    close: bool,
}

impl View for MessageTag {
    type V = (Seq<char>, bool);

    closed spec fn view(&self) -> (Seq<char>, bool) {
        (self.value@, self.close)
    }
}

impl MessageTag {
    /// A fresh random request tag, drawing again after a failed draw, up to
    /// `DRAW_ATTEMPTS` draws; `None` only once every draw failed.
    pub fn new(rng: &ring::rand::SystemRandom) -> (r: Option<MessageTag>)
        ensures
            r matches Some(t) ==> !t@.1 && is_token(t@.0, TAG_BYTES as nat),
    {
        match random_token_retrying(rng, TAG_BYTES, DRAW_ATTEMPTS) {
            Some(value) => Some(MessageTag { value, close: false }),
            None => None,
        }
    }

    /// A request tag holding `value`.
    pub fn from_value(value: String) -> (r: MessageTag)
        ensures
            r@ == (value@, false),
    {
        MessageTag { value, close: false }
    }

    /// The reserved close tag.
    pub fn close() -> (r: MessageTag)
        ensures
            r@ == (Seq::<char>::empty(), true),
    {
        MessageTag { value: String::new(), close: true }
    }

    pub fn clone(&self) -> (r: MessageTag)
        ensures
            r@ == self@,
    {
        MessageTag { value: self.value.clone(), close: self.close }
    }

    pub fn is_close(&self) -> (r: bool)
        ensures
            r == self@.1,
    {
        self.close
    }

    /// The tag's text, as it is written on the wire.
    pub fn as_str(&self) -> (r: &str)
        ensures
            r@ == self@.0,
    {
        self.value.as_str()
    }

    /// Whether two tags name the same request: neither is the close tag and
    /// their texts agree.
    pub fn same_request(&self, other: &MessageTag) -> (r: bool)
        ensures
            r == (!self@.1 && !other@.1 && self@.0 == other@.0),
    {
        !self.close && !other.close && str_eq(self.value.as_str(), other.value.as_str())
    }
}

/// What a reply carries.
#[derive(Clone, Debug)]
pub enum ResponseData {
    Success,
    Data { payload: String },
    Error { is_internal: bool, message: String },
}

/// One reply read off the wire: the connection token it was sent under, the
/// tag of the request it answers, and its data.
pub struct Response {
    pub state: String,
    pub tag: MessageTag,
    pub data: ResponseData,
}

/// The header of an outbound request: the connection token and the tag under
/// which it is sent.
pub struct Outbound {
    pub state: String,
    pub tag: MessageTag,
}

/// A request that is still waiting for its reply.
pub struct PendingWaiter {
    pub state: String,
    pub tag: MessageTag,
}

/// How one waiting request ended: with the reply's data, or with `None` when
/// its connection was superseded or closed.
pub struct Resolution {
    pub tag: MessageTag,
    pub data: Option<ResponseData>,
}

pub open spec fn resolution_view(r: Resolution) -> (Seq<char>, Option<ResponseData>) {
    (r.tag@.0, r.data)
}

pub open spec fn resolutions_view(rs: Seq<Resolution>) -> Seq<(Seq<char>, Option<ResponseData>)> {
    rs.map_values(|r: Resolution| resolution_view(r))
}

/// Why a request could not be sent.
#[derive(PartialEq, Eq, Structural)]
pub enum SendError {
    /// No client is attached.
    NoClient,
    /// The close tag cannot name a request.
    ReservedTag,
    /// A request with this tag is already waiting.
    DuplicateTag,
    /// The random source gave no fresh tag.
    NoRandom,
}

/// The state of the channel: the current connection token, if a client is
/// attached, and the (token, tag) pair of each request still waiting.
pub ghost struct ChannelModel {
    pub current: Option<Seq<char>>,
    pub pending: Seq<(Seq<char>, Seq<char>)>,
}

pub open spec fn has_tag(p: Seq<(Seq<char>, Seq<char>)>, t: Seq<char>) -> bool {
    exists|i: int| 0 <= i < p.len() && #[trigger] p[i].1 == t
}

pub open spec fn tag_index(p: Seq<(Seq<char>, Seq<char>)>, t: Seq<char>) -> int {
    choose|i: int| 0 <= i < p.len() && #[trigger] p[i].1 == t
}

/// Every waiter belongs to the current connection, and no two share a tag.
pub open spec fn model_wf(m: ChannelModel) -> bool {
    &&& m.current is None ==> m.pending.len() == 0
    &&& forall|i: int| 0 <= i < m.pending.len() ==> Some(#[trigger] m.pending[i].0) == m.current
    &&& forall|i: int, j: int|
        0 <= i < j < m.pending.len() ==> #[trigger] m.pending[i].1 != #[trigger] m.pending[j].1
}

/// Every waiter ends with `None`.
pub open spec fn all_closed(p: Seq<(Seq<char>, Seq<char>)>) -> Seq<(Seq<char>, Option<ResponseData>)> {
    p.map_values(|w: (Seq<char>, Seq<char>)| (w.1, None::<ResponseData>))
}

/// A client attaches under the token `state`; every request of the previous
/// connection ends with `None`.
pub open spec fn attach_spec(m: ChannelModel, state: Seq<char>) -> (ChannelModel, Seq<(Seq<char>, Option<ResponseData>)>) {
    (ChannelModel { current: Some(state), pending: Seq::empty() }, all_closed(m.pending))
}

/// The client went away; every waiting request ends with `None`.
pub open spec fn detach_spec(m: ChannelModel) -> (ChannelModel, Seq<(Seq<char>, Option<ResponseData>)>) {
    (ChannelModel { current: None, pending: Seq::empty() }, all_closed(m.pending))
}

/// A request goes out under the tag `tag`.
pub open spec fn send_spec(m: ChannelModel, tag: (Seq<char>, bool)) -> (ChannelModel, Result<(Seq<char>, Seq<char>), SendError>) {
    match m.current {
        None => (m, Err(SendError::NoClient)),
        Some(s) => if tag.1 {
            (m, Err(SendError::ReservedTag))
        } else if has_tag(m.pending, tag.0) {
            (m, Err(SendError::DuplicateTag))
        } else {
            (ChannelModel { current: m.current, pending: m.pending.push((s, tag.0)) }, Ok((s, tag.0)))
        },
    }
}

/// A reply arrives. One under another token than the current one ends
/// nothing; a close tag under the current token ends every waiter with
/// `None`; otherwise the waiter with the reply's tag, if any, ends with the
/// reply's data.
pub open spec fn deliver_spec(m: ChannelModel, state: Seq<char>, tag: (Seq<char>, bool), data: ResponseData) -> (ChannelModel, Seq<(Seq<char>, Option<ResponseData>)>) {
    if m.current != Some(state) {
        (m, Seq::empty())
    } else if tag.1 {
        (ChannelModel { current: m.current, pending: Seq::empty() }, all_closed(m.pending))
    } else if has_tag(m.pending, tag.0) {
        (
            ChannelModel { current: m.current, pending: m.pending.remove(tag_index(m.pending, tag.0)) },
            seq![(tag.0, Some(data))],
        )
    } else {
        (m, Seq::empty())
    }
}

/// Sending keeps the channel well formed.
pub proof fn lemma_send_keeps_wf(m: ChannelModel, tag: (Seq<char>, bool))
    requires
        model_wf(m),
    ensures
        model_wf(send_spec(m, tag).0),
{
    let m2 = send_spec(m, tag).0;
    if send_spec(m, tag).1 is Ok {
        let s = m.current.unwrap();
        assert(m2.pending == m.pending.push((s, tag.0)));
        assert forall|i: int, j: int|
            0 <= i < j < m2.pending.len() implies #[trigger] m2.pending[i].1 != #[trigger] m2.pending[j].1 by {
            if j == m.pending.len() {
                assert(m2.pending[i] == m.pending[i]);
                if m.pending[i].1 == tag.0 {
                    assert(has_tag(m.pending, tag.0));
                }
            } else {
                assert(m2.pending[i] == m.pending[i]);
                assert(m2.pending[j] == m.pending[j]);
            }
        }
        assert forall|i: int| 0 <= i < m2.pending.len() implies Some(#[trigger] m2.pending[i].0) == m2.current by {
            if i < m.pending.len() {
                assert(m2.pending[i] == m.pending[i]);
            }
        }
    }
}

/// Two requests sent with distinct tags against the same connection: a reply
/// carrying either tag ends that request, with the reply's data, and no other;
/// the other request keeps waiting.
pub proof fn lemma_reply_reaches_own_caller(
    m: ChannelModel,
    t1: Seq<char>,
    t2: Seq<char>,
    tag: Seq<char>,
    data: ResponseData,
)
    requires
        model_wf(m),
        m.current is Some,
        t1 != t2,
        !has_tag(m.pending, t1),
        !has_tag(m.pending, t2),
        tag == t1 || tag == t2,
    ensures
        ({
            let m1 = send_spec(m, (t1, false));
            let m2 = send_spec(m1.0, (t2, false));
            let d = deliver_spec(m2.0, m.current.unwrap(), (tag, false), data);
            let other = if tag == t1 { t2 } else { t1 };
            &&& m1.1 == Ok::<_, SendError>((m.current.unwrap(), t1))
            &&& m2.1 == Ok::<_, SendError>((m.current.unwrap(), t2))
            &&& d.1 == seq![(tag, Some(data))]
            &&& !has_tag(d.0.pending, tag)
            &&& has_tag(d.0.pending, other)
        }),
{
    let s = m.current.unwrap();
    let m1 = send_spec(m, (t1, false)).0;
    lemma_send_keeps_wf(m, (t1, false));
    assert(m1.pending == m.pending.push((s, t1)));
    assert(!has_tag(m1.pending, t2)) by {
        if has_tag(m1.pending, t2) {
            let j = choose|j: int| 0 <= j < m1.pending.len() && #[trigger] m1.pending[j].1 == t2;
            if j < m.pending.len() {
                assert(m.pending[j] == m1.pending[j]);
            }
        }
    }
    let m2 = send_spec(m1, (t2, false)).0;
    lemma_send_keeps_wf(m1, (t2, false));
    assert(m2.pending == m1.pending.push((s, t2)));
    let n = m.pending.len() as int;
    let (ti, oi) = if tag == t1 { (n, n + 1) } else { (n + 1, n) };
    assert(m2.pending[ti].1 == tag);
    assert(has_tag(m2.pending, tag));
    let k = tag_index(m2.pending, tag);
    assert(k == ti) by {
        if k < ti {
            assert(m2.pending[k].1 != m2.pending[ti].1);
        } else if k > ti {
            assert(m2.pending[ti].1 != m2.pending[k].1);
        }
    }
    let remaining = m2.pending.remove(k);
    let other = if tag == t1 { t2 } else { t1 };
    let oj = if oi < ti { oi } else { oi - 1 };
    assert(m2.pending[oi].1 == other);
    assert(remaining[oj] == m2.pending[oi]);
    assert(0 <= oj < remaining.len() && remaining[oj].1 == other);
    assert(has_tag(remaining, other));
    assert(!has_tag(remaining, tag)) by {
        if has_tag(remaining, tag) {
            let j = choose|j: int| 0 <= j < remaining.len() && #[trigger] remaining[j].1 == tag;
            if j < k {
                assert(remaining[j] == m2.pending[j]);
                assert(m2.pending[j].1 != m2.pending[k].1);
            } else {
                assert(remaining[j] == m2.pending[j + 1]);
                assert(m2.pending[k].1 != m2.pending[j + 1].1);
            }
        }
    }
}

/// A send that is refused leaves the channel as it was: no request waits,
/// so no reply can ever reach its caller.
pub proof fn lemma_refused_send_changes_nothing(m: ChannelModel, tag: (Seq<char>, bool))
    ensures
        send_spec(m, tag).1 is Err ==> send_spec(m, tag).0 == m,
{
}

/// Superseding the connection ends every request pending against the old
/// token with `None`, however many there are, and leaves none waiting. A reply
/// that still arrives under an old token ends nothing, and a request sent
/// afterwards goes out under the new token.
pub proof fn lemma_supersede_flushes(m: ChannelModel, state: Seq<char>)
    requires
        model_wf(m),
    ensures
        ({
            let (m2, rs) = attach_spec(m, state);
            &&& rs.len() == m.pending.len()
            &&& forall|i: int| 0 <= i < m.pending.len() ==> #[trigger] rs[i] == (m.pending[i].1, None::<ResponseData>)
            &&& m2.pending.len() == 0
            &&& model_wf(m2)
            &&& forall|old_state: Seq<char>, tag: (Seq<char>, bool), data: ResponseData| old_state != state
                ==> #[trigger] deliver_spec(m2, old_state, tag, data) == (m2, Seq::<(Seq<char>, Option<ResponseData>)>::empty())
            &&& forall|t: Seq<char>| #[trigger] send_spec(m2, (t, false)).1 == Ok::<_, SendError>((state, t))
        }),
{
    let m2 = attach_spec(m, state).0;
    assert forall|t: Seq<char>| #[trigger] send_spec(m2, (t, false)).1 == Ok::<_, SendError>((state, t)) by {
        assert(!has_tag(m2.pending, t));
    }
}

/// A fresh random connection token, from a single draw of the random
/// source; `None` when that draw failed.
pub fn create_state(rng: &ring::rand::SystemRandom) -> (r: Option<String>)
    ensures
        r matches Some(t) ==> is_token(t@, STATE_BYTES as nat),
{
    random_token(rng, STATE_BYTES)
}

/// A short name for a connection in logs: the token's first four
/// characters, then `..`.
pub fn short_state(state: &str) -> (r: String)
    ensures
        r@ == state@.subrange(0, if state@.len() < 4 { state@.len() as int } else { 4 }) + ".."@,
{
    let cs = crate::text::to_chars(state);
    let n = if cs.len() < 4 { cs.len() } else { 4 };
    let mut r = crate::text::string_of(&cs, 0, n);
    r.append("..");
    r
}

/// The server side of the channel: which client is attached and which
/// requests wait for a reply.
pub struct Correlator {
    state: Option<String>,
    pending: Vec<PendingWaiter>,
}

impl View for Correlator {
    type V = ChannelModel;

    closed spec fn view(&self) -> ChannelModel {
        ChannelModel {
            current: match self.state {
                Some(s) => Some(s@),
                None => None,
            },
            pending: self.pending@.map_values(|w: PendingWaiter| (w.state@, w.tag@.0)),
        }
    }
}

impl Correlator {
    pub closed spec fn tags_open(&self) -> bool {
        forall|i: int| 0 <= i < self.pending@.len() ==> !(#[trigger] self.pending@[i]).tag@.1
    }

    pub open spec fn wf(&self) -> bool {
        model_wf(self@) && self.tags_open()
    }

    /// No client attached, nothing waiting.
    pub fn new() -> (r: Correlator)
        ensures
            r.wf(),
            r@.current is None,
            r@.pending.len() == 0,
    {
        let r = Correlator { state: None, pending: Vec::new() };
        assert(r@.pending =~= Seq::<(Seq<char>, Seq<char>)>::empty());
        r
    }

    /// Whether a client is attached.
    pub fn has_client(&self) -> (r: bool)
        ensures
            r == self@.current is Some,
    {
        self.state.is_some()
    }

    /// The current connection token.
    pub fn current_state(&self) -> (r: Option<&String>)
        ensures
            match r {
                Some(s) => self@.current == Some(s@),
                None => self@.current is None,
            },
    {
        match &self.state {
            Some(s) => Some(s),
            None => None,
        }
    }

    /// Ends every waiting request with `None` and forgets them.
    fn flush(&mut self) -> (r: Vec<Resolution>)
        requires
            old(self).wf(),
        ensures
            resolutions_view(r@) == all_closed(old(self)@.pending),
            final(self).state == old(self).state,
            final(self).pending@.len() == 0,
    {
        let mut r: Vec<Resolution> = Vec::new();
        let mut i: usize = 0;
        while i < self.pending.len()
            invariant
                i <= self.pending@.len(),
                r@.len() == i,
                resolutions_view(r@) == all_closed(self@.pending).subrange(0, i as int),
            decreases self.pending@.len() - i,
        {
            let tag = self.pending[i].tag.clone();
            assert(self@.pending[i as int].1 == tag@.0);
            let ghost before = r@;
            r.push(Resolution { tag, data: None });
            assert(r@ == before.push(r@[i as int]));
            assert(resolution_view(r@[i as int]) == all_closed(self@.pending)[i as int]);
            assert(resolutions_view(r@) =~= all_closed(self@.pending).subrange(0, i + 1));
            i = i + 1;
        }
        assert(all_closed(self@.pending).subrange(0, i as int) =~= all_closed(self@.pending));
        self.pending = Vec::new();
        r
    }

    /// A new client attaches under the token `state`, superseding the current
    /// one: every request sent against the old token ends with `None`.
    pub fn attach(&mut self, state: String) -> (r: Vec<Resolution>)
        requires
            old(self).wf(),
        ensures
            final(self).wf(),
            (final(self)@, resolutions_view(r@)) == attach_spec(old(self)@, state@),
    {
        let r = self.flush();
        self.state = Some(state);
        assert(self@.pending =~= Seq::<(Seq<char>, Seq<char>)>::empty());
        r
    }

    /// The client's connection closed: every waiting request ends with
    /// `None`, and no client is attached.
    pub fn detach(&mut self) -> (r: Vec<Resolution>)
        requires
            old(self).wf(),
        ensures
            final(self).wf(),
            (final(self)@, resolutions_view(r@)) == detach_spec(old(self)@),
    {
        let r = self.flush();
        self.state = None;
        assert(self@.pending =~= Seq::<(Seq<char>, Seq<char>)>::empty());
        r
    }

    /// The connection registered under `state` closed: when it is still the
    /// current one, every waiting request ends with `None` and no client is
    /// attached; when another client has superseded it, nothing changes.
    pub fn detach_if_current(&mut self, state: &str) -> (r: Vec<Resolution>)
        requires
            old(self).wf(),
        ensures
            final(self).wf(),
            old(self)@.current == Some(state@) ==> (final(self)@, resolutions_view(r@)) == detach_spec(old(self)@),
            old(self)@.current != Some(state@) ==> final(self)@ == old(self)@ && r@.len() == 0,
    {
        let current = match &self.state {
            Some(s) => str_eq(s.as_str(), state),
            None => false,
        };
        if current {
            self.detach()
        } else {
            Vec::new()
        }
    }

    /// The position of the waiter whose tag text is `tag`.
    fn find(&self, tag: &MessageTag) -> (r: Option<usize>)
        requires
            self.wf(),
        ensures
            match r {
                Some(k) => k < self@.pending.len() && self@.pending[k as int].1 == tag@.0,
                None => !has_tag(self@.pending, tag@.0),
            },
    {
        let mut k: usize = 0;
        while k < self.pending.len()
            invariant
                k <= self@.pending.len(),
                forall|j: int| 0 <= j < k ==> self@.pending[j].1 != tag@.0,
            decreases self@.pending.len() - k,
        {
            if str_eq(self.pending[k].tag.as_str(), tag.as_str()) {
                return Some(k);
            }
            k = k + 1;
        }
        None
    }

    /// Registers a request under `tag` against the current connection and
    /// hands back the header to send it with.
    pub fn begin_send(&mut self, tag: MessageTag) -> (r: Result<Outbound, SendError>)
        requires
            old(self).wf(),
        ensures
            final(self).wf(),
            final(self)@ == send_spec(old(self)@, tag@).0,
            match r {
                Ok(o) => send_spec(old(self)@, tag@).1 == Ok::<_, SendError>((o.state@, o.tag@.0)) && !o.tag@.1,
                Err(e) => send_spec(old(self)@, tag@).1 == Err::<(Seq<char>, Seq<char>), _>(e),
            },
    {
        let state = match &self.state {
            None => return Err(SendError::NoClient),
            Some(s) => s.clone(),
        };
        if tag.is_close() {
            return Err(SendError::ReservedTag);
        }
        if self.find(&tag).is_some() {
            return Err(SendError::DuplicateTag);
        }
        let ghost before = self@;
        self.pending.push(PendingWaiter { state: state.clone(), tag: tag.clone() });
        assert(self@.pending =~= before.pending.push((state@, tag@.0)));
        assert forall|i: int, j: int|
            0 <= i < j < self@.pending.len() implies #[trigger] self@.pending[i].1 != #[trigger] self@.pending[j].1 by {
            if j == self@.pending.len() - 1 {
                assert(before.pending[i].1 == self@.pending[i].1);
            } else {
                assert(before.pending[i].1 == self@.pending[i].1);
                assert(before.pending[j].1 == self@.pending[j].1);
            }
        }
        assert(self.tags_open()) by {
            assert forall|i: int| 0 <= i < self.pending@.len() implies !(#[trigger] self.pending@[i]).tag@.1 by {
                if i < before.pending.len() {
                    assert(self.pending@[i] == old(self).pending@[i]);
                }
            }
        }
        Ok(Outbound { state, tag })
    }

    /// Registers a request under a fresh random tag against the current
    /// connection, drawing another tag when one is already waiting, up to
    /// `DRAW_ATTEMPTS` tags. On failure nothing changes.
    pub fn begin_send_fresh(&mut self, rng: &ring::rand::SystemRandom) -> (r: Result<Outbound, SendError>)
        requires
            old(self).wf(),
        ensures
            final(self).wf(),
            old(self)@.current is None <==> r == Err::<Outbound, _>(SendError::NoClient),
            !(r matches Err(SendError::ReservedTag)),
            match r {
                Ok(o) => !o.tag@.1 && final(self)@ == send_spec(old(self)@, o.tag@).0
                    && send_spec(old(self)@, o.tag@).1 == Ok::<_, SendError>((o.state@, o.tag@.0)),
                Err(_) => final(self)@ == old(self)@,
            },
    {
        if self.state.is_none() {
            return Err(SendError::NoClient);
        }
        let mut tries: usize = 0;
        while tries < DRAW_ATTEMPTS
            invariant
                self.wf(),
                self@ == old(self)@,
                self@.current is Some,
                tries <= DRAW_ATTEMPTS,
            decreases DRAW_ATTEMPTS - tries,
        {
            let tag = match MessageTag::new(rng) {
                Some(t) => t,
                None => return Err(SendError::NoRandom),
            };
            let ghost t = tag@;
            match self.begin_send(tag) {
                Ok(o) => {
                    return Ok(o);
                },
                Err(e) => {
                    assert(send_spec(old(self)@, t).0 == old(self)@);
                },
            }
            tries = tries + 1;
        }
        Err(SendError::DuplicateTag)
    }

    /// Routes one reply: see `deliver_spec`.
    pub fn deliver(&mut self, response: Response) -> (r: Vec<Resolution>)
        requires
            old(self).wf(),
        ensures
            final(self).wf(),
            (final(self)@, resolutions_view(r@)) == deliver_spec(
                old(self)@,
                response.state@,
                response.tag@,
                response.data,
            ),
    {
        let current = match &self.state {
            None => return Vec::new(),
            Some(s) => str_eq(s.as_str(), response.state.as_str()),
        };
        if !current {
            return Vec::new();
        }
        if response.tag.is_close() {
            let r = self.flush();
            assert(self@.pending =~= Seq::<(Seq<char>, Seq<char>)>::empty());
            return r;
        }
        match self.find(&response.tag) {
            None => Vec::new(),
            Some(k) => {
                let ghost before = self@;
                proof {
                    let t = tag_index(before.pending, response.tag@.0);
                    assert(has_tag(before.pending, response.tag@.0));
                    assert(before.pending[t].1 == response.tag@.0);
                    if t != k as int {
                        if t < k as int {
                            assert(before.pending[t].1 != before.pending[k as int].1);
                        } else {
                            assert(before.pending[k as int].1 != before.pending[t].1);
                        }
                    }
                }
                let w = self.pending.remove(k);
                assert(self@.pending =~= before.pending.remove(k as int));
                assert forall|i: int, j: int|
                    0 <= i < j < self@.pending.len() implies #[trigger] self@.pending[i].1 != #[trigger] self@.pending[j].1 by {
                    if i < k {
                        if j < k {
                            assert(self@.pending[j] == before.pending[j]);
                        } else {
                            assert(self@.pending[j] == before.pending[j + 1]);
                        }
                        assert(self@.pending[i] == before.pending[i]);
                    } else {
                        assert(self@.pending[i] == before.pending[i + 1]);
                        assert(self@.pending[j] == before.pending[j + 1]);
                    }
                }
                assert(self.tags_open()) by {
                    assert forall|i: int| 0 <= i < self.pending@.len() implies !(#[trigger] self.pending@[i]).tag@.1 by {
                        if i < k {
                            assert(self.pending@[i] == old(self).pending@[i]);
                        } else {
                            assert(self.pending@[i] == old(self).pending@[i + 1]);
                        }
                    }
                }
                let mut r: Vec<Resolution> = Vec::new();
                r.push(Resolution { tag: w.tag, data: Some(response.data) });
                assert(resolutions_view(r@) =~= seq![(response.tag@.0, Some(response.data))]);
                r
            },
        }
    }
}

} // verus!
