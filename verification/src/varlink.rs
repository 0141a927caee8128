//! The Varlink wire protocol: NUL-terminated JSON frames, method dispatch,
//! interface descriptions and the errors the service answers with.
use vstd::prelude::*;
use vstd::string::*;
use crate::error::RouterError;
use crate::text::{has_prefix, owned, str_eq, strip_prefix};

verus! {

/// Terminates every Varlink message on the wire.
pub const FRAME_TERMINATOR: u8 = 0;

/// The frame carrying one serialized message.
pub open spec fn frame_spec(payload: Seq<u8>) -> Seq<u8> {
    payload.push(FRAME_TERMINATOR)
}

/// Frames a serialized message.
pub fn frame(payload: &[u8]) -> (f: Vec<u8>)
    ensures
        f@ == frame_spec(payload@),
{
    let mut f: Vec<u8> = Vec::new();
    let mut i: usize = 0;
    while i < payload.len()
        invariant
            i <= payload@.len(),
            f@ == payload@.take(i as int),
        decreases payload.len() - i,
    {
        f.push(payload[i]);
        i = i + 1;
        assert(f@ =~= payload@.take(i as int));
    }
    f.push(FRAME_TERMINATOR);
    assert(payload@.take(payload@.len() as int) =~= payload@);
    f
}

/// A message's bytes with one trailing terminator, if any, removed.
pub open spec fn strip_terminator_spec(bytes: Seq<u8>) -> Seq<u8> {
    if bytes.len() > 0 && bytes.last() == FRAME_TERMINATOR {
        bytes.drop_last()
    } else {
        bytes
    }
}

pub fn strip_terminator(bytes: &[u8]) -> (r: Vec<u8>)
    ensures
        r@ == strip_terminator_spec(bytes@),
{
    let n = bytes.len();
    let end = if n > 0 && bytes[n - 1] == FRAME_TERMINATOR { n - 1 } else { n };
    let mut r: Vec<u8> = Vec::new();
    let mut i: usize = 0;
    while i < end
        invariant
            end <= n == bytes@.len(),
            i <= end,
            r@ == bytes@.take(i as int),
        decreases end - i,
    {
        r.push(bytes[i]);
        i = i + 1;
        assert(r@ =~= bytes@.take(i as int));
    }
    assert(r@ =~= strip_terminator_spec(bytes@));
    r
}

/// The messages completed by a byte stream, and the bytes of the message
/// still open. A terminator closes the open message; terminators with no
/// message before them are skipped.
pub open spec fn frames_of(bytes: Seq<u8>) -> (Seq<Seq<u8>>, Seq<u8>)
    decreases bytes.len(),
{
    if bytes.len() == 0 {
        (Seq::empty(), Seq::empty())
    } else {
        let (done, open) = frames_of(bytes.drop_last());
        if bytes.last() == FRAME_TERMINATOR {
            if open.len() > 0 {
                (done.push(open), Seq::empty())
            } else {
                (done, Seq::empty())
            }
        } else {
            (done, open.push(bytes.last()))
        }
    }
}

/// Splits a byte stream into Varlink messages as it arrives.
pub struct FrameReader {
    pub open: Vec<u8>,
}

impl FrameReader {
    /// The open message holds no terminator.
    pub open spec fn wf(&self) -> bool {
        free_of_terminator(self.open@)
    }

    pub fn new() -> (r: Self)
        ensures
            r.open@.len() == 0,
            r.wf(),
    {
        FrameReader { open: Vec::new() }
    }

    /// Feeds one byte; a terminator after a non-empty message hands the
    /// message out.
    pub fn push_byte(&mut self, b: u8) -> (r: Option<Vec<u8>>)
        requires
            old(self).wf(),
        ensures
            final(self).wf(),
            ({
                let (done, open) = frames_of(old(self).open@.push(b));
                &&& final(self).open@ == open
                &&& match r {
                    Some(m) => done == seq![m@],
                    None => done.len() == 0,
                }
            }),
    {
        proof {
            lemma_frames_of_open(old(self).open@);
            assert(old(self).open@.push(b).drop_last() =~= old(self).open@);
        }
        if b == FRAME_TERMINATOR {
            if self.open.len() > 0 {
                let mut m: Vec<u8> = Vec::new();
                std::mem::swap(&mut m, &mut self.open);
                assert(Seq::<Seq<u8>>::empty().push(m@) =~= seq![m@]);
                Some(m)
            } else {
                None
            }
        } else {
            self.open.push(b);
            None
        }
    }
}

pub open spec fn free_of_terminator(p: Seq<u8>) -> bool {
    forall|i: int| 0 <= i < p.len() ==> #[trigger] p[i] != FRAME_TERMINATOR
}

/// Bytes without a terminator only extend the open message.
proof fn lemma_frames_of_open(p: Seq<u8>)
    requires
        free_of_terminator(p),
    ensures
        frames_of(p) == (Seq::<Seq<u8>>::empty(), p),
    decreases p.len(),
{
    if p.len() > 0 {
        lemma_frames_of_open(p.drop_last());
        assert(p.drop_last().push(p.last()) =~= p);
    } else {
        assert(p =~= Seq::<u8>::empty());
    }
}

proof fn lemma_frames_of_append_open(x: Seq<u8>, p: Seq<u8>)
    requires
        free_of_terminator(p),
    ensures
        frames_of(x + p) == (frames_of(x).0, frames_of(x).1 + p),
    decreases p.len(),
{
    if p.len() == 0 {
        assert(x + p =~= x);
        assert(frames_of(x).1 + p =~= frames_of(x).1);
    } else {
        lemma_frames_of_append_open(x, p.drop_last());
        assert((x + p).drop_last() =~= x + p.drop_last());
        assert((x + p).last() == p.last());
        assert(frames_of(x).1 + p.drop_last() + seq![p.last()] =~= frames_of(x).1 + p);
        assert((frames_of(x).1 + p.drop_last()).push(p.last()) =~= frames_of(x).1 + p);
    }
}

/// Every non-empty message free of terminators.
pub open spec fn well_formed_messages(ms: Seq<Seq<u8>>) -> bool {
    forall|k: int| 0 <= k < ms.len() ==> #[trigger] ms[k].len() > 0 && free_of_terminator(ms[k])
}

/// The bytes that a sequence of messages puts on the wire.
pub open spec fn wire(ms: Seq<Seq<u8>>) -> Seq<u8>
    decreases ms.len(),
{
    if ms.len() == 0 {
        Seq::empty()
    } else {
        wire(ms.drop_last()) + frame_spec(ms.last())
    }
}

/// Reading back what was framed gives the same messages, in order, with
/// nothing left open: framing and the reader are inverse.
pub proof fn law_frames_round_trip(ms: Seq<Seq<u8>>)
    requires
        well_formed_messages(ms),
    ensures
        frames_of(wire(ms)) == (ms, Seq::<u8>::empty()),
    decreases ms.len(),
{
    if ms.len() > 0 {
        let init = ms.drop_last();
        let p = ms.last();
        assert(well_formed_messages(init)) by {
            assert forall|k: int| 0 <= k < init.len() implies #[trigger] init[k].len() > 0
                && free_of_terminator(init[k]) by {
                assert(init[k] == ms[k]);
            }
        }
        law_frames_round_trip(init);
        assert(ms[ms.len() - 1] == p);
        lemma_frames_of_append_open(wire(init), p);
        let w = wire(ms);
        assert(w =~= (wire(init) + p).push(FRAME_TERMINATOR));
        assert(w.drop_last() =~= wire(init) + p);
        assert(frames_of(wire(init)).1 + p =~= p);
        assert(init.push(p) =~= ms);
    } else {
        assert(wire(ms) =~= Seq::<u8>::empty());
        assert(ms =~= Seq::<Seq<u8>>::empty());
    }
}

/// One byte fed to a reader whose open message is that of a stream's history
/// extends the stream's messages by exactly what `FrameReader::push_byte`
/// hands out for that byte: a reader fed a stream byte by byte hands out
/// `frames_of` of the stream.
pub proof fn law_reader_follows_stream(history: Seq<u8>, b: u8)
    requires
        free_of_terminator(frames_of(history).1),
    ensures
        frames_of(history.push(b)).0 == frames_of(history).0 + frames_of(frames_of(history).1.push(b)).0,
        frames_of(history.push(b)).1 == frames_of(frames_of(history).1.push(b)).1,
{
    let open = frames_of(history).1;
    lemma_frames_of_open(open);
    assert(history.push(b).drop_last() =~= history);
    assert(open.push(b).drop_last() =~= open);
    if b == FRAME_TERMINATOR && open.len() > 0 {
        assert(frames_of(history).0.push(open) =~= frames_of(history).0 + Seq::<Seq<u8>>::empty().push(open));
    } else {
        assert(frames_of(history).0 =~= frames_of(history).0 + Seq::<Seq<u8>>::empty());
    }
}

/// Stripping the terminator from a frame gives back the message.
pub proof fn law_strip_undoes_frame(p: Seq<u8>)
    ensures
        strip_terminator_spec(frame_spec(p)) == p,
{
    assert(frame_spec(p).drop_last() =~= p);
}

/// Methods of `io.syntrop.Router1`.
#[derive(Clone, Copy, PartialEq, Eq, Structural, Debug)]
pub enum Router1Method {
    GetStatus,
    ListProviders,
    ListModels,
    RouteRequest,
    TestProvider,
}

/// How the service answers a method name.
#[derive(Clone, Copy, PartialEq, Eq, Structural, Debug)]
pub enum VarlinkMethod {
    GetInfo,
    GetInterfaceDescription,
    Router1(Router1Method),
    NotFound,
}

pub open spec fn router1_method_spec(sub: Seq<char>) -> Option<Router1Method> {
    if sub == "GetStatus"@ {
        Some(Router1Method::GetStatus)
    } else if sub == "ListProviders"@ {
        Some(Router1Method::ListProviders)
    } else if sub == "ListModels"@ {
        Some(Router1Method::ListModels)
    } else if sub == "RouteRequest"@ {
        Some(Router1Method::RouteRequest)
    } else if sub == "TestProvider"@ {
        Some(Router1Method::TestProvider)
    } else {
        None
    }
}

pub open spec fn classify_method_spec(m: Seq<char>) -> VarlinkMethod {
    if m == "org.varlink.service.GetInfo"@ {
        VarlinkMethod::GetInfo
    } else if m == "org.varlink.service.GetInterfaceDescription"@ {
        VarlinkMethod::GetInterfaceDescription
    } else if has_prefix(m, "io.syntrop.Router1."@) {
        match router1_method_spec(m.subrange("io.syntrop.Router1."@.len() as int, m.len() as int)) {
            Some(r) => VarlinkMethod::Router1(r),
            None => VarlinkMethod::NotFound,
        }
    } else {
        VarlinkMethod::NotFound
    }
}

/// Dispatches a method name.
pub fn classify_method(method: &str) -> (r: VarlinkMethod)
    ensures
        r == classify_method_spec(method@),
{
    if str_eq(method, "org.varlink.service.GetInfo") {
        VarlinkMethod::GetInfo
    } else if str_eq(method, "org.varlink.service.GetInterfaceDescription") {
        VarlinkMethod::GetInterfaceDescription
    } else {
        match strip_prefix(method, "io.syntrop.Router1.") {
            Some(sub) => {
                let s = sub.as_str();
                if str_eq(s, "GetStatus") {
                    VarlinkMethod::Router1(Router1Method::GetStatus)
                } else if str_eq(s, "ListProviders") {
                    VarlinkMethod::Router1(Router1Method::ListProviders)
                } else if str_eq(s, "ListModels") {
                    VarlinkMethod::Router1(Router1Method::ListModels)
                } else if str_eq(s, "RouteRequest") {
                    VarlinkMethod::Router1(Router1Method::RouteRequest)
                } else if str_eq(s, "TestProvider") {
                    VarlinkMethod::Router1(Router1Method::TestProvider)
                } else {
                    VarlinkMethod::NotFound
                }
            },
            None => VarlinkMethod::NotFound,
        }
    }
}

/// An error reply: the error's qualified name and the one parameter it carries.
#[derive(Debug)]
pub struct VarlinkFault {
    pub error: String,
    pub parameter_key: String,
    pub parameter_value: String,
}

pub fn fault(error: &str, key: &str, value: &str) -> (f: VarlinkFault)
    ensures
        f.error@ == error@,
        f.parameter_key@ == key@,
        f.parameter_value@ == value@,
{
    VarlinkFault { error: owned(error), parameter_key: owned(key), parameter_value: owned(value) }
}

/// The reply for a method the service does not implement.
pub fn method_not_found(method: &str) -> (f: VarlinkFault)
    ensures
        f.error@ == "org.varlink.service.MethodNotFound"@,
        f.parameter_key@ == "method"@,
        f.parameter_value@ == method@,
{
    fault("org.varlink.service.MethodNotFound", "method", method)
}

/// The reply for a missing or malformed parameter.
pub fn invalid_parameter(param: &str) -> (f: VarlinkFault)
    ensures
        f.error@ == "org.varlink.service.InvalidParameter"@,
        f.parameter_key@ == "parameter"@,
        f.parameter_value@ == param@,
{
    fault("org.varlink.service.InvalidParameter", "parameter", param)
}

pub open spec fn org_varlink_service_idl_spec() -> Seq<char> {
    "interface org.varlink.service\n\nmethod GetInfo() -> (\n  vendor: string,\n  product: string,\n  version: string,\n  url: string,\n  interfaces: []string\n)\n\nmethod GetInterfaceDescription(interface: string) -> (description: string)\n\nerror InterfaceNotFound(interface: string)\nerror MethodNotFound(method: string)\nerror MethodNotImplemented(method: string)\nerror InvalidParameter(parameter: string)\n"@
}

pub open spec fn router1_idl_spec() -> Seq<char> {
    "interface io.syntrop.Router1\n\ntype ProviderInfo (\n  id: string,\n  name: string,\n  kind: string,\n  base_url: string,\n  tier: string,\n  is_healthy: bool,\n  weight: float,\n  models: []string,\n  total_requests: int,\n  total_errors: int,\n  last_latency_ms: float\n)\n\ntype ScoredCandidateInfo (\n  provider_id: string,\n  model_name: string,\n  total_score: float,\n  speed_score: float,\n  cost_score: float,\n  capability_score: float,\n  estimated_cost: float,\n  reason: string\n)\n\nmethod GetStatus() -> (\n  status: string,\n  version: string,\n  uptime_seconds: int,\n  total_requests: int,\n  active_requests: int,\n  providers_count: int,\n  healthy_providers_count: int,\n  psi_level: string,\n  psi_memory_some: float\n)\n\nmethod ListProviders() -> (\n  providers: []ProviderInfo\n)\n\nmethod ListModels() -> (\n  models: []string\n)\n\nmethod RouteRequest(\n  model: ?string,\n  tier: ?string,\n  estimated_tokens: ?int,\n  require_stream: ?bool\n) -> (\n  candidates: []ScoredCandidateInfo\n)\n\nmethod TestProvider(\n  provider_id: string\n) -> (\n  provider_id: string,\n  healthy: bool,\n  latency_ms: float,\n  error: ?string\n)\n"@
}

/// The description of an interface the service implements; an unknown name
/// is `InterfaceNotFound`, a missing one `InvalidParameter`.
pub fn interface_description(interface: Option<&str>) -> (r: Result<String, VarlinkFault>)
    ensures
        match interface {
            Some(name) => if name@ == "org.varlink.service"@ {
                r matches Ok(d) && d@ == org_varlink_service_idl_spec()
            } else if name@ == "io.syntrop.Router1"@ {
                r matches Ok(d) && d@ == router1_idl_spec()
            } else {
                r matches Err(f) && f.error@ == "org.varlink.service.InterfaceNotFound"@
                    && f.parameter_key@ == "interface"@ && f.parameter_value@ == name@
            },
            None => r matches Err(f) && f.error@ == "org.varlink.service.InvalidParameter"@
                && f.parameter_key@ == "parameter"@ && f.parameter_value@ == "interface"@,
        },
{
    match interface {
        Some(name) => {
            if str_eq(name, "org.varlink.service") {
                Ok(String::from_str("interface org.varlink.service\n\nmethod GetInfo() -> (\n  vendor: string,\n  product: string,\n  version: string,\n  url: string,\n  interfaces: []string\n)\n\nmethod GetInterfaceDescription(interface: string) -> (description: string)\n\nerror InterfaceNotFound(interface: string)\nerror MethodNotFound(method: string)\nerror MethodNotImplemented(method: string)\nerror InvalidParameter(parameter: string)\n"))
            } else if str_eq(name, "io.syntrop.Router1") {
                Ok(String::from_str("interface io.syntrop.Router1\n\ntype ProviderInfo (\n  id: string,\n  name: string,\n  kind: string,\n  base_url: string,\n  tier: string,\n  is_healthy: bool,\n  weight: float,\n  models: []string,\n  total_requests: int,\n  total_errors: int,\n  last_latency_ms: float\n)\n\ntype ScoredCandidateInfo (\n  provider_id: string,\n  model_name: string,\n  total_score: float,\n  speed_score: float,\n  cost_score: float,\n  capability_score: float,\n  estimated_cost: float,\n  reason: string\n)\n\nmethod GetStatus() -> (\n  status: string,\n  version: string,\n  uptime_seconds: int,\n  total_requests: int,\n  active_requests: int,\n  providers_count: int,\n  healthy_providers_count: int,\n  psi_level: string,\n  psi_memory_some: float\n)\n\nmethod ListProviders() -> (\n  providers: []ProviderInfo\n)\n\nmethod ListModels() -> (\n  models: []string\n)\n\nmethod RouteRequest(\n  model: ?string,\n  tier: ?string,\n  estimated_tokens: ?int,\n  require_stream: ?bool\n) -> (\n  candidates: []ScoredCandidateInfo\n)\n\nmethod TestProvider(\n  provider_id: string\n) -> (\n  provider_id: string,\n  healthy: bool,\n  latency_ms: float,\n  error: ?string\n)\n"))
            } else {
                Err(fault("org.varlink.service.InterfaceNotFound", "interface", name))
            }
        },
        None => Err(invalid_parameter("interface")),
    }
}

/// What `org.varlink.service.GetInfo` reports.
pub struct ServiceInfo {
    pub vendor: String,
    pub product: String,
    pub version: String,
    pub url: String,
    pub interfaces: Vec<String>,
}

pub fn service_info() -> (i: ServiceInfo)
    ensures
        i.vendor@ == "syntropd"@,
        i.product@ == "routerd"@,
        i.version@ == "0.3.0"@,
        i.url@ == "https://github.com/syntropd/routerd"@,
        i.interfaces@.len() == 2,
        i.interfaces@[0]@ == "org.varlink.service"@,
        i.interfaces@[1]@ == "io.syntrop.Router1"@,
{
    let mut interfaces: Vec<String> = Vec::new();
    interfaces.push(String::from_str("org.varlink.service"));
    interfaces.push(String::from_str("io.syntrop.Router1"));
    ServiceInfo {
        vendor: String::from_str("syntropd"),
        product: String::from_str("routerd"),
        version: String::from_str("0.3.0"),
        url: String::from_str("https://github.com/syntropd/routerd"),
        interfaces,
    }
}

} // verus!
