//! Asking a freshly attached overlay client which capabilities it has, and
//! initialising each of them before the session counts as usable.
use vstd::prelude::*;
use crate::comet::ResponseData;
use crate::text::str_eq;

verus! {

/// A capability of the overlay client.
#[derive(PartialEq, Eq, Structural, Clone, Copy, Debug, Hash)]
pub enum Feature {
    Chat,
}

/// The strings of `s` read as a JSON array of strings; `None` for any other
/// text.
pub uninterp spec fn json_string_list(s: Seq<char>) -> Option<Seq<Seq<char>>>;

/// Relies on `serde_json::from_str::<Vec<String>>`: the strings of a JSON
/// array of strings, `None` when the text is not one.
#[verifier::external_body]
fn parse_string_list(s: &str) -> (r: Option<Vec<String>>)
    ensures
        r.deep_view() == json_string_list(s@),
{
    serde_json::from_str::<Vec<String>>(s).ok()
}

pub open spec fn features_view(r: Option<Vec<Feature>>) -> Option<Seq<Feature>> {
    match r {
        Some(v) => Some(v@),
        None => None,
    }
}

pub open spec fn feature_named(name: Seq<char>) -> Option<Feature> {
    if name == "chat"@ {
        Some(Feature::Chat)
    } else {
        None
    }
}

/// The set of capabilities that `names` lists, without repeats; `None` when
/// a name is not a known capability.
pub open spec fn features_from_names(names: Seq<Seq<char>>) -> Option<Seq<Feature>> {
    if forall|i: int| 0 <= i < names.len() ==> (#[trigger] feature_named(names[i])) is Some {
        if exists|i: int| 0 <= i < names.len() && #[trigger] names[i] == "chat"@ {
            Some(seq![Feature::Chat])
        } else {
            Some(Seq::empty())
        }
    } else {
        None
    }
}

/// The capabilities that a list of names stands for: see
/// `features_from_names`.
pub fn features_from_list(names: &Vec<String>) -> (r: Option<Vec<Feature>>)
    ensures
        features_view(r) == features_from_names(names.deep_view()),
{
    let mut chat = false;
    let mut i: usize = 0;
    let ghost dv = names.deep_view();
    assert(dv.len() == names@.len());
    while i < names.len()
        invariant
            dv == names.deep_view(),
            dv.len() == names@.len(),
            i <= names@.len(),
            forall|j: int| 0 <= j < i ==> (#[trigger] feature_named(dv[j])) is Some,
            chat == exists|j: int| 0 <= j < i && #[trigger] dv[j] == "chat"@,
        decreases names@.len() - i,
    {
        assert(dv[i as int] == names@[i as int]@);
        if str_eq(names[i].as_str(), "chat") {
            chat = true;
        } else {
            assert(feature_named(dv[i as int]) is None);
            return None;
        }
        i = i + 1;
    }
    let mut r: Vec<Feature> = Vec::new();
    if chat {
        r.push(Feature::Chat);
    }
    assert(r@ =~= features_from_names(dv).unwrap());
    Some(r)
}

/// The capabilities listed in the JSON text `payload`.
pub fn parse_features(payload: &str) -> (r: Option<Vec<Feature>>)
    ensures
        features_view(r) == match json_string_list(payload@) {
            Some(names) => features_from_names(names),
            None => None,
        },
{
    match parse_string_list(payload) {
        Some(names) => features_from_list(&names),
        None => None,
    }
}

fn copy_features(v: &Vec<Feature>) -> (r: Vec<Feature>)
    ensures
        r@ == v@,
{
    let mut r: Vec<Feature> = Vec::new();
    let mut i: usize = 0;
    while i < v.len()
        invariant
            i <= v@.len(),
            r@ == v@.subrange(0, i as int),
        decreases v@.len() - i,
    {
        r.push(v[i]);
        assert(r@ =~= v@.subrange(0, i + 1));
        i = i + 1;
    }
    assert(r@ =~= v@);
    r
}

/// The capabilities that a reply to the capability request lists.
pub open spec fn negotiated_features(payload: Seq<char>) -> Option<Seq<Feature>> {
    match json_string_list(payload) {
        Some(names) => features_from_names(names),
        None => None,
    }
}

/// A request of the negotiation.
pub enum FeatureRequest {
    /// Which capabilities does the client have?
    Features,
    /// Initialise the chat capability for this streamer.
    ChatSetEmotes { username: String },
}

/// What the caller does next.
pub enum NegotiationStep {
    /// Send this request and hand its reply to `on_reply`.
    Send(FeatureRequest),
    /// Every capability is initialised: record this set.
    Finish(Vec<Feature>),
    /// The negotiation failed with this message; record nothing.
    Fail(String),
    /// The client went away; record nothing.
    Abandon,
}

/// Where the negotiation stands.
#[derive(PartialEq, Eq, Structural, Clone, Copy)]
pub enum NegotiationPhase {
    AwaitingFeatures,
    Initializing,
    Over,
}

/// The negotiation with one client.
pub struct FeatureNegotiator {
    streamer_username: String,
    phase: NegotiationPhase,
    features: Vec<Feature>,
    next: usize,
}

pub open spec fn unexpected_reply() -> Seq<char> {
    "Unexpected reply"@
}

pub open spec fn bad_feature_list() -> Seq<char> {
    "Invalid feature list"@
}

impl FeatureNegotiator {
    pub closed spec fn phase_of(&self) -> NegotiationPhase {
        self.phase
    }

    /// The capabilities found, while they are being initialised.
    pub closed spec fn features_of(&self) -> Seq<Feature> {
        self.features@
    }

    /// How many of them are initialised.
    pub closed spec fn initialised(&self) -> nat {
        self.next as nat
    }

    pub closed spec fn username(&self) -> Seq<char> {
        self.streamer_username@
    }

    pub closed spec fn wf(&self) -> bool {
        self.phase == NegotiationPhase::Initializing ==> self.next < self.features@.len()
    }

    /// A negotiation for the streamer `streamer_username`, and its first
    /// request: which capabilities the client has.
    pub fn start(streamer_username: String) -> (r: (FeatureNegotiator, NegotiationStep))
        ensures
            r.0.wf(),
            r.0.phase_of() == NegotiationPhase::AwaitingFeatures,
            r.0.username() == streamer_username@,
            r.1 matches NegotiationStep::Send(FeatureRequest::Features),
    {
        (
            FeatureNegotiator {
                streamer_username,
                phase: NegotiationPhase::AwaitingFeatures,
                features: Vec::new(),
                next: 0,
            },
            NegotiationStep::Send(FeatureRequest::Features),
        )
    }

    fn init_request(&self, f: Feature) -> (r: FeatureRequest)
        ensures
            r matches FeatureRequest::ChatSetEmotes { username } && username@ == self.username(),
    {
        match f {
            Feature::Chat => FeatureRequest::ChatSetEmotes { username: self.streamer_username.clone() },
        }
    }

    /// Takes the reply to the last request sent; `None` when the client
    /// went away first. After the capability list, each capability found is
    /// initialised in turn; a reply of the wrong kind, a list that does not
    /// parse and an error reply end the negotiation in failure.
    pub fn on_reply(&mut self, reply: Option<ResponseData>) -> (r: NegotiationStep)
        requires
            old(self).wf(),
        ensures
            final(self).wf(),
            final(self).username() == old(self).username(),
            old(self).phase_of() == NegotiationPhase::Over ==> r is Abandon,
            reply is None ==> r is Abandon && final(self).phase_of() == NegotiationPhase::Over,
            old(self).phase_of() == NegotiationPhase::AwaitingFeatures ==> match reply {
                None => true,
                Some(ResponseData::Data { payload }) => match negotiated_features(payload@) {
                    None => r matches NegotiationStep::Fail(m) && m@ == bad_feature_list(),
                    Some(fs) => if fs.len() == 0 {
                        r matches NegotiationStep::Finish(v) && v@ == fs
                    } else {
                        &&& final(self).phase_of() == NegotiationPhase::Initializing
                        &&& final(self).features_of() == fs
                        &&& final(self).initialised() == 0
                        &&& r matches NegotiationStep::Send(FeatureRequest::ChatSetEmotes { username })
                        &&& username@ == old(self).username()
                    },
                },
                Some(_) => r matches NegotiationStep::Fail(m) && m@ == unexpected_reply(),
            },
            old(self).phase_of() == NegotiationPhase::Initializing ==> match reply {
                None => true,
                Some(ResponseData::Success) => if old(self).initialised() + 1 == old(self).features_of().len() {
                    r matches NegotiationStep::Finish(v) && v@ == old(self).features_of()
                } else {
                    &&& final(self).phase_of() == NegotiationPhase::Initializing
                    &&& final(self).features_of() == old(self).features_of()
                    &&& final(self).initialised() == old(self).initialised() + 1
                    &&& r matches NegotiationStep::Send(FeatureRequest::ChatSetEmotes { username })
                    &&& username@ == old(self).username()
                },
                Some(ResponseData::Error { is_internal, message }) => r == NegotiationStep::Fail(message),
                Some(ResponseData::Data { .. }) => r matches NegotiationStep::Fail(m) && m@ == unexpected_reply(),
            },
            (r is Finish || r is Fail || r is Abandon) ==> final(self).phase_of() == NegotiationPhase::Over,
    {
        let reply = match reply {
            None => {
                self.phase = NegotiationPhase::Over;
                return NegotiationStep::Abandon;
            },
            Some(d) => d,
        };
        match self.phase {
            NegotiationPhase::Over => NegotiationStep::Abandon,
            NegotiationPhase::AwaitingFeatures => {
                self.phase = NegotiationPhase::Over;
                match reply {
                    ResponseData::Data { payload } => match parse_features(payload.as_str()) {
                        None => NegotiationStep::Fail(String::from_str("Invalid feature list")),
                        Some(fs) => {
                            if fs.len() == 0 {
                                NegotiationStep::Finish(fs)
                            } else {
                                let req = self.init_request(fs[0]);
                                self.features = fs;
                                self.next = 0;
                                self.phase = NegotiationPhase::Initializing;
                                NegotiationStep::Send(req)
                            }
                        },
                    },
                    _ => NegotiationStep::Fail(String::from_str("Unexpected reply")),
                }
            },
            NegotiationPhase::Initializing => {
                match reply {
                    ResponseData::Success => {
                        let n = self.features.len();
                        if self.next + 1 == n {
                            self.phase = NegotiationPhase::Over;
                            NegotiationStep::Finish(copy_features(&self.features))
                        } else {
                            self.next = self.next + 1;
                            let req = self.init_request(self.features[self.next]);
                            NegotiationStep::Send(req)
                        }
                    },
                    ResponseData::Error { is_internal, message } => {
                        self.phase = NegotiationPhase::Over;
                        NegotiationStep::Fail(message)
                    },
                    ResponseData::Data { .. } => {
                        self.phase = NegotiationPhase::Over;
                        NegotiationStep::Fail(String::from_str("Unexpected reply"))
                    },
                }
            },
        }
    }
}

} // verus!
