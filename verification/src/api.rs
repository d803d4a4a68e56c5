//! The calls of the plugin protocol, as far as they are decisions.
//!
//! A call arrives as a name and a JSON payload. The payload is read into a
//! request, or refused where a field that the call needs is missing or is
//! no string. A request is served in two parts, like every operation of
//! the registry. What is sent back is a status and a body; the body of a
//! successful join is the caller's to write, from the join descriptor.

use crate::error::TopologyError;
use crate::host::OsCommand;
use crate::host::OsCommandView;
use crate::json::json_member;
use crate::json::read_member;
use crate::json::Member;
use crate::json::MemberView;
use crate::manager::NetworkManager;
use crate::mesh::JoinResponseView;
use crate::network::JoinResponse;
use crate::options::parsed_options;
use crate::registry::RegistryView;
use vstd::prelude::*;

verus! {

/// The calls that the driver answers.
#[derive(Clone, Copy, Debug, PartialEq, Eq, Structural)]
pub enum Call {
    Activate,
    GetCapabilities,
    CreateNetwork,
    DeleteNetwork,
    CreateEndpoint,
    DeleteEndpoint,
    EndpointOperInfo,
    Join,
    Leave,
    DiscoverNew,
    DiscoverDelete,
}

/// Why a payload was turned away before anything was done.
#[derive(Clone, Copy, Debug, PartialEq, Eq, Structural)]
pub enum Refusal {
    /// The payload is no JSON.
    UnreadablePayload,
    /// The network identifier is missing or is no string.
    InvalidNetwork,
    /// The network or the endpoint identifier is missing or is no string.
    InvalidIds,
    /// The network identifier, the endpoint identifier or the sandbox key
    /// is missing or is no string.
    InvalidJoin,
}

/// What a call asks of the registry.
#[derive(Debug)]
pub enum Request {
    /// Nothing: the call is answered without the registry.
    Nothing,
    CreateNetwork { uid: String, options: String },
    DeleteNetwork { uid: String },
    CreateEndpoint { nuid: String, epuid: String },
    DeleteEndpoint { nuid: String, epuid: String },
    Join { nuid: String, epuid: String, sbox: String, options: String },
    Leave { nuid: String, epuid: String },
}

/// The mathematical value of a [`Request`].
pub enum RequestView {
    Nothing,
    CreateNetwork { uid: Seq<char>, options: Seq<char> },
    DeleteNetwork { uid: Seq<char> },
    CreateEndpoint { nuid: Seq<char>, epuid: Seq<char> },
    DeleteEndpoint { nuid: Seq<char>, epuid: Seq<char> },
    Join { nuid: Seq<char>, epuid: Seq<char>, sbox: Seq<char>, options: Seq<char> },
    Leave { nuid: Seq<char>, epuid: Seq<char> },
}

impl View for Request {
    type V = RequestView;

    open spec fn view(&self) -> RequestView {
        match self {
            Request::Nothing => RequestView::Nothing,
            Request::CreateNetwork { uid, options } => RequestView::CreateNetwork {
                uid: uid@,
                options: options@,
            },
            Request::DeleteNetwork { uid } => RequestView::DeleteNetwork { uid: uid@ },
            Request::CreateEndpoint { nuid, epuid } => RequestView::CreateEndpoint {
                nuid: nuid@,
                epuid: epuid@,
            },
            Request::DeleteEndpoint { nuid, epuid } => RequestView::DeleteEndpoint {
                nuid: nuid@,
                epuid: epuid@,
            },
            Request::Join { nuid, epuid, sbox, options } => RequestView::Join {
                nuid: nuid@,
                epuid: epuid@,
                sbox: sbox@,
                options: options@,
            },
            Request::Leave { nuid, epuid } => RequestView::Leave { nuid: nuid@, epuid: epuid@ },
        }
    }
}

/// What is sent back to the caller.
#[derive(Debug)]
pub struct Reply {
    /// The status of the answer, as the transport numbers it.
    pub status: u16,
    /// The JSON text of the answer.
    pub body: String,
}

/// The status of an answer to a call that was carried out or needed
/// nothing.
pub const STATUS_OK: u16 = 200;

/// The status of an answer to a payload that was turned away.
pub const STATUS_BAD_REQUEST: u16 = 400;

/// The status of an answer to a request that named something unknown.
pub const STATUS_NOT_FOUND: u16 = 404;

/// The status of an answer to a request that the host failed.
pub const STATUS_HOST_FAILED: u16 = 500;

/// The key of the network identifier.
pub open spec fn network_key() -> Seq<char> {
    "NetworkID"@
}

/// The key of the endpoint identifier.
pub open spec fn endpoint_key() -> Seq<char> {
    "EndpointID"@
}

/// The key of the sandbox key.
pub open spec fn sandbox_key() -> Seq<char> {
    "SandboxKey"@
}

/// The key of the settings.
pub open spec fn options_key() -> Seq<char> {
    "Options"@
}

/// The key under which the settings of a new network hold the driver's
/// own.
pub open spec fn generic_key() -> Seq<char> {
    "com.docker.network.generic"@
}

/// The settings text of a request to create a network: what the settings
/// of the payload hold under the key for the driver's own.
pub open spec fn create_options(payload: Seq<char>) -> Seq<char> {
    match json_member(payload, options_key()) {
        MemberView::Other(settings) => json_member(settings, generic_key()).text(),
        _ => "null"@,
    }
}

/// The settings text of a request to join.
pub open spec fn join_options(payload: Seq<char>) -> Seq<char> {
    json_member(payload, options_key()).text()
}

/// The settings text that a call carries: that of the request for a call
/// to create a network or to join, none for any other call.
pub open spec fn options_for(call: Call, payload: Seq<char>) -> Seq<char> {
    match call {
        Call::CreateNetwork => create_options(payload),
        Call::Join => join_options(payload),
        _ => Seq::empty(),
    }
}

/// Whether a call asks something of the registry.
pub open spec fn touches_registry(call: Call) -> bool {
    call == Call::CreateNetwork || call == Call::DeleteNetwork || call == Call::CreateEndpoint
        || call == Call::DeleteEndpoint || call == Call::Join || call == Call::Leave
}

/// The request that a call stands for, given what its payload holds under
/// the three keys and the settings text that it carries, or why the
/// payload is turned away. A call that touches the registry needs a
/// readable payload with its identifiers as strings; the other calls need
/// nothing.
pub open spec fn request_of(
    call: Call,
    network: MemberView,
    endpoint: Option<Seq<char>>,
    sandbox: Option<Seq<char>>,
    options: Seq<char>,
) -> Result<RequestView, Refusal> {
    let nuid = network.string();
    match call {
        Call::CreateNetwork | Call::DeleteNetwork => {
            if network is Unreadable {
                Err(Refusal::UnreadablePayload)
            } else if nuid is None {
                Err(Refusal::InvalidNetwork)
            } else if call == Call::CreateNetwork {
                Ok(RequestView::CreateNetwork { uid: nuid.unwrap(), options })
            } else {
                Ok(RequestView::DeleteNetwork { uid: nuid.unwrap() })
            }
        },
        Call::CreateEndpoint | Call::DeleteEndpoint | Call::Leave => {
            if network is Unreadable {
                Err(Refusal::UnreadablePayload)
            } else if nuid is None || endpoint is None {
                Err(Refusal::InvalidIds)
            } else if call == Call::CreateEndpoint {
                Ok(RequestView::CreateEndpoint { nuid: nuid.unwrap(), epuid: endpoint.unwrap() })
            } else if call == Call::DeleteEndpoint {
                Ok(RequestView::DeleteEndpoint { nuid: nuid.unwrap(), epuid: endpoint.unwrap() })
            } else {
                Ok(RequestView::Leave { nuid: nuid.unwrap(), epuid: endpoint.unwrap() })
            }
        },
        Call::Join => {
            if network is Unreadable {
                Err(Refusal::UnreadablePayload)
            } else if nuid is None || endpoint is None || sandbox is None {
                Err(Refusal::InvalidJoin)
            } else {
                Ok(
                    RequestView::Join {
                        nuid: nuid.unwrap(),
                        epuid: endpoint.unwrap(),
                        sbox: sandbox.unwrap(),
                        options,
                    },
                )
            }
        },
        _ => Ok(RequestView::Nothing),
    }
}

/// The request that a call and its payload stand for, or why the payload
/// is turned away.
pub open spec fn decoded(call: Call, payload: Seq<char>) -> Result<RequestView, Refusal> {
    request_of(
        call,
        json_member(payload, network_key()),
        json_member(payload, endpoint_key()).string(),
        json_member(payload, sandbox_key()).string(),
        options_for(call, payload),
    )
}

/// The commands that serving a request asks of a host whose interfaces
/// are `ifcs`.
pub open spec fn request_commands(reg: RegistryView, req: RequestView, ifcs: Seq<Seq<char>>) -> Seq<
    OsCommandView,
> {
    match req {
        RequestView::Nothing => Seq::empty(),
        RequestView::CreateNetwork { uid, options } => crate::registry::create_commands(
            reg,
            uid,
            parsed_options(options),
            ifcs,
        ),
        RequestView::DeleteNetwork { uid } => crate::registry::delete_commands(reg, uid),
        RequestView::CreateEndpoint { nuid, epuid } => crate::registry::endpoint_create_commands(
            reg,
            nuid,
            epuid,
            ifcs,
        ),
        RequestView::DeleteEndpoint { nuid, epuid } => crate::registry::endpoint_delete_commands(
            reg,
            nuid,
            epuid,
        ),
        RequestView::Join { nuid, epuid, sbox, options } => crate::registry::attach_commands(
            reg,
            nuid,
            epuid,
        ),
        RequestView::Leave { nuid, epuid } => crate::registry::detach_commands(reg, nuid, epuid),
    }
}

/// The registry after a request was served and the host confirmed the
/// first `done` of its commands.
pub open spec fn served(
    reg: RegistryView,
    req: RequestView,
    ifcs: Seq<Seq<char>>,
    done: nat,
) -> RegistryView {
    match req {
        RequestView::Nothing => reg,
        RequestView::CreateNetwork { uid, options } => crate::registry::created(
            reg,
            uid,
            parsed_options(options),
            ifcs,
            done,
        ),
        RequestView::DeleteNetwork { uid } => reg.remove(uid),
        RequestView::CreateEndpoint { nuid, epuid } => crate::registry::endpoint_created(
            reg,
            nuid,
            epuid,
            ifcs,
            done,
        ),
        RequestView::DeleteEndpoint { nuid, epuid } => crate::registry::endpoint_deleted(
            reg,
            nuid,
            epuid,
        ),
        RequestView::Join { nuid, epuid, sbox, options } => crate::registry::attached(
            reg,
            nuid,
            epuid,
            done,
        ),
        RequestView::Leave { nuid, epuid } => crate::registry::detached(reg, nuid, epuid, done),
    }
}

/// What serving a request returns: the join descriptor for a join, nothing
/// for any other request, or the error.
pub open spec fn serve_result(
    reg: RegistryView,
    req: RequestView,
    ifcs: Seq<Seq<char>>,
    done: nat,
) -> Result<Option<JoinResponseView>, TopologyError> {
    match req {
        RequestView::Nothing => Ok(None),
        RequestView::CreateNetwork { uid, options } => without_join(
            crate::registry::outcome(
                done,
                crate::registry::create_commands(reg, uid, parsed_options(options), ifcs).len(),
            ),
        ),
        RequestView::DeleteNetwork { uid } => without_join(
            crate::registry::delete_result(reg, uid, done),
        ),
        RequestView::CreateEndpoint { nuid, epuid } => without_join(
            crate::registry::endpoint_create_result(reg, nuid, epuid, ifcs, done),
        ),
        RequestView::DeleteEndpoint { nuid, epuid } => without_join(
            crate::registry::endpoint_delete_result(reg, nuid, epuid, done),
        ),
        RequestView::Join { nuid, epuid, sbox, options } => match crate::registry::attach_result(
            reg,
            nuid,
            epuid,
            options,
            done,
        ) {
            Ok(join) => Ok(Some(join)),
            Err(e) => Err(e),
        },
        RequestView::Leave { nuid, epuid } => without_join(
            crate::registry::detach_result(reg, nuid, epuid, done),
        ),
    }
}

/// The result of a request that has no join descriptor to give.
pub open spec fn without_join(r: Result<(), TopologyError>) -> Result<
    Option<JoinResponseView>,
    TopologyError,
> {
    match r {
        Ok(()) => Ok(None),
        Err(e) => Err(e),
    }
}

/// The message that goes with a refusal.
pub open spec fn refusal_message(refusal: Refusal) -> Seq<char> {
    match refusal {
        Refusal::UnreadablePayload => "{\"Err\":\"Unable to parse JSON payload\"}"@,
        Refusal::InvalidNetwork => "{\"Err\":\"Invalid network ID\"}"@,
        Refusal::InvalidIds => "{\"Err\":\"Invalid network ID or endpoint ID\"}"@,
        Refusal::InvalidJoin => "{\"Err\":\"Invalid network ID, endpoint ID, or sandbox key\"}"@,
    }
}

/// The status that goes with an error.
pub open spec fn error_status(e: TopologyError) -> u16 {
    if e.is_not_found() {
        STATUS_NOT_FOUND
    } else {
        STATUS_HOST_FAILED
    }
}

/// The message that goes with an error.
pub open spec fn error_message(e: TopologyError) -> Seq<char> {
    match e {
        TopologyError::NetworkNotFound => "{\"Err\":\"Unknown network\"}"@,
        TopologyError::EndpointNotFound => "{\"Err\":\"Unknown endpoint\"}"@,
        TopologyError::CommandFailed { .. } => "{\"Err\":\"Host command failed\"}"@,
    }
}

/// The body that answers a call that was carried out, or needed nothing,
/// and has no join descriptor to give.
pub open spec fn plain_body(call: Call) -> Seq<char> {
    match call {
        Call::Activate => "{\"Implements\":[\"NetworkDriver\"]}"@,
        Call::GetCapabilities => "{\"Scope\":\"local\",\"ConnectivityScope\":\"local\"}"@,
        _ => "{}"@,
    }
}

/// Tells the calls that ask something of the registry from the others.
pub fn touches_the_registry(call: Call) -> (r: bool)
    ensures
        r == touches_registry(call),
{
    match call {
        Call::CreateNetwork | Call::DeleteNetwork => true,
        Call::CreateEndpoint | Call::DeleteEndpoint => true,
        Call::Join | Call::Leave => true,
        _ => false,
    }
}

/// Puts a request together from what the payload of a call holds, or
/// turns the payload away.
pub fn request_from(
    call: Call,
    network: Member,
    endpoint: Option<String>,
    sandbox: Option<String>,
    options: String,
) -> (r: Result<Request, Refusal>)
    ensures
        match r {
            Ok(req) => request_of(
                call,
                network@,
                endpoint.deep_view(),
                sandbox.deep_view(),
                options@,
            ) == Ok::<RequestView, Refusal>(req@),
            Err(refusal) => request_of(
                call,
                network@,
                endpoint.deep_view(),
                sandbox.deep_view(),
                options@,
            ) == Err::<RequestView, Refusal>(refusal),
        },
{
    if !touches_the_registry(call) {
        return Ok(Request::Nothing);
    }
    let nuid = match network {
        Member::Unreadable => {
            return Err(Refusal::UnreadablePayload);
        },
        Member::Text(s) => Some(s),
        _ => None,
    };
    match call {
        Call::CreateNetwork => match nuid {
            Some(uid) => Ok(Request::CreateNetwork { uid, options }),
            None => Err(Refusal::InvalidNetwork),
        },
        Call::DeleteNetwork => match nuid {
            Some(uid) => Ok(Request::DeleteNetwork { uid }),
            None => Err(Refusal::InvalidNetwork),
        },
        Call::Join => match (nuid, endpoint, sandbox) {
            (Some(nuid), Some(epuid), Some(sbox)) => Ok(
                Request::Join { nuid, epuid, sbox, options },
            ),
            _ => Err(Refusal::InvalidJoin),
        },
        _ => match (nuid, endpoint) {
            (Some(nuid), Some(epuid)) => match call {
                Call::CreateEndpoint => Ok(Request::CreateEndpoint { nuid, epuid }),
                Call::DeleteEndpoint => Ok(Request::DeleteEndpoint { nuid, epuid }),
                _ => Ok(Request::Leave { nuid, epuid }),
            },
            _ => Err(Refusal::InvalidIds),
        },
    }
}

/// Reads the settings text that a call carries out of its payload.
pub fn options_of(call: Call, payload: &String) -> (r: String)
    ensures
        r@ == options_for(call, payload@),
{
    match call {
        Call::CreateNetwork => match read_member(payload.as_str(), "Options") {
            Member::Other(settings) => read_member(
                settings.as_str(),
                "com.docker.network.generic",
            ).text(),
            _ => "null".to_owned(),
        },
        Call::Join => read_member(payload.as_str(), "Options").text(),
        _ => String::new(),
    }
}

/// Reads the payload of a call into a request. The payload of a call that
/// asks nothing of the registry is not looked at.
pub fn decode(call: Call, payload: &String) -> (r: Result<Request, Refusal>)
    ensures
        match r {
            Ok(req) => decoded(call, payload@) == Ok::<RequestView, Refusal>(req@),
            Err(refusal) => decoded(call, payload@) == Err::<RequestView, Refusal>(refusal),
        },
{
    if !touches_the_registry(call) {
        return Ok(Request::Nothing);
    }
    let network = read_member(payload.as_str(), "NetworkID");
    let endpoint = read_member(payload.as_str(), "EndpointID").string();
    let sandbox = read_member(payload.as_str(), "SandboxKey").string();
    let options = options_of(call, payload);
    request_from(call, network, endpoint, sandbox, options)
}

/// Lists what the host has to do for a request.
pub fn plan(mgr: &NetworkManager, req: &Request, ifcs: &Vec<String>) -> (r: Vec<OsCommand>)
    ensures
        r.deep_view() == request_commands(mgr@, req@, ifcs.deep_view()),
{
    match req {
        Request::Nothing => {
            let r: Vec<OsCommand> = Vec::new();
            assert(r.deep_view() =~= Seq::empty());
            r
        },
        Request::CreateNetwork { uid, options } => mgr.network_create_commands(uid, options, ifcs),
        Request::DeleteNetwork { uid } => mgr.network_delete_commands(uid),
        Request::CreateEndpoint { nuid, epuid } => mgr.endpoint_create_commands(nuid, epuid, ifcs),
        Request::DeleteEndpoint { nuid, epuid } => mgr.endpoint_delete_commands(nuid, epuid),
        Request::Join { nuid, epuid, sbox, options } => mgr.endpoint_attach_commands(nuid, epuid),
        Request::Leave { nuid, epuid } => mgr.endpoint_detach_commands(nuid, epuid),
    }
}

/// Serves a request. `done` is the number of commands of [`plan`] that
/// the host confirmed.
pub fn apply(mgr: &mut NetworkManager, req: Request, ifcs: &Vec<String>, done: usize) -> (r: Result<
    Option<JoinResponse>,
    TopologyError,
>)
    ensures
        final(mgr)@ == served(old(mgr)@, req@, ifcs.deep_view(), done as nat),
        match r {
            Ok(Some(join)) => serve_result(old(mgr)@, req@, ifcs.deep_view(), done as nat) == Ok::<
                Option<JoinResponseView>,
                TopologyError,
            >(Some(join@)),
            Ok(None) => serve_result(old(mgr)@, req@, ifcs.deep_view(), done as nat) == Ok::<
                Option<JoinResponseView>,
                TopologyError,
            >(None),
            Err(e) => serve_result(old(mgr)@, req@, ifcs.deep_view(), done as nat) == Err::<
                Option<JoinResponseView>,
                TopologyError,
            >(e),
        },
{
    let plain = match req {
        Request::Nothing => Ok(()),
        Request::CreateNetwork { uid, options } => mgr.network_create(uid, options, ifcs, done),
        Request::DeleteNetwork { uid } => mgr.network_delete(uid, done),
        Request::CreateEndpoint { nuid, epuid } => mgr.endpoint_create(nuid, epuid, ifcs, done),
        Request::DeleteEndpoint { nuid, epuid } => mgr.endpoint_delete(nuid, epuid, done),
        Request::Join { nuid, epuid, sbox, options } => {
            return match mgr.endpoint_attach(nuid, epuid, sbox, options, done) {
                Ok(join) => Ok(Some(join)),
                Err(e) => Err(e),
            };
        },
        Request::Leave { nuid, epuid } => mgr.endpoint_detach(nuid, epuid, done),
    };
    match plain {
        Ok(()) => Ok(None),
        Err(e) => Err(e),
    }
}

/// Answers a payload that was turned away.
pub fn refusal_reply(refusal: Refusal) -> (r: Reply)
    ensures
        r.status == STATUS_BAD_REQUEST,
        r.body@ == refusal_message(refusal),
{
    let body = match refusal {
        Refusal::UnreadablePayload => "{\"Err\":\"Unable to parse JSON payload\"}",
        Refusal::InvalidNetwork => "{\"Err\":\"Invalid network ID\"}",
        Refusal::InvalidIds => "{\"Err\":\"Invalid network ID or endpoint ID\"}",
        Refusal::InvalidJoin => "{\"Err\":\"Invalid network ID, endpoint ID, or sandbox key\"}",
    };
    Reply { status: STATUS_BAD_REQUEST, body: body.to_owned() }
}

/// Answers a request that ended in an error.
pub fn error_reply(e: TopologyError) -> (r: Reply)
    ensures
        r.status == error_status(e),
        r.body@ == error_message(e),
{
    let status = if e.not_found() {
        STATUS_NOT_FOUND
    } else {
        STATUS_HOST_FAILED
    };
    let body = match e {
        TopologyError::NetworkNotFound => "{\"Err\":\"Unknown network\"}",
        TopologyError::EndpointNotFound => "{\"Err\":\"Unknown endpoint\"}",
        TopologyError::CommandFailed { .. } => "{\"Err\":\"Host command failed\"}",
    };
    Reply { status, body: body.to_owned() }
}

/// Answers a call that was carried out, or needed nothing, and has no join
/// descriptor to give.
pub fn plain_reply(call: Call) -> (r: Reply)
    ensures
        r.status == STATUS_OK,
        r.body@ == plain_body(call),
{
    let body = match call {
        Call::Activate => "{\"Implements\":[\"NetworkDriver\"]}",
        Call::GetCapabilities => "{\"Scope\":\"local\",\"ConnectivityScope\":\"local\"}",
        _ => "{}",
    };
    Reply { status: STATUS_OK, body: body.to_owned() }
}

} // verus!
