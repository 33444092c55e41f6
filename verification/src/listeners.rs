use vstd::prelude::*;
use vstd::string::{StrSliceExecFns, StringExecFns};
use crate::server::Server;
use crate::text::str_eq;

verus! {

/// What kind of failure a listener reports.
#[derive(Clone, Copy, Debug, PartialEq, Eq, Structural)]
pub enum ListenerErrorKind {
    /// The target names a transport that is known but not offered.
    Unsupported,
    /// The target is no socket address and no URL with a known scheme.
    InvalidInput,
    /// The URL names no host.
    NoHost,
    /// The listener was bound before, or is asked to accept before it was bound.
    OutOfOrder,
}

/// A failure to set up a listener.
#[derive(Debug)]
pub struct ListenerError {
    pub kind: ListenerErrorKind,
    pub message: String,
}

/// What a [`ListenerError`] holds, as plain values.
pub struct ListenerErrorView {
    pub kind: ListenerErrorKind,
    pub message: Seq<char>,
}

impl View for ListenerError {
    type V = ListenerErrorView;

    open spec fn view(&self) -> ListenerErrorView {
        ListenerErrorView { kind: self.kind, message: self.message@ }
    }
}

/// The transport of a listener.
#[derive(Clone, Copy, Debug, PartialEq, Eq, Structural)]
pub enum Transport {
    Tcp,
}

/// What a URL holds of a listen target, as plain values.
#[derive(Debug)]
pub struct ParsedUrl {
    pub scheme: String,
    pub host: Option<String>,
    /// The port that the URL spells out.
    pub port: Option<u16>,
}

/// What a [`ParsedUrl`] holds, as plain values.
pub struct UrlView {
    pub scheme: Seq<char>,
    pub host: Option<Seq<char>>,
    pub port: Option<u16>,
}

impl View for ParsedUrl {
    type V = UrlView;

    open spec fn view(&self) -> UrlView {
        UrlView {
            scheme: self.scheme@,
            host: match self.host {
                Some(h) => Some(h@),
                None => None,
            },
            port: self.port,
        }
    }
}

/// What `Url::parse` makes of a text, as the scheme, the host and the explicit port of the
/// URL, or `None` where the text is no URL.
pub uninterp spec fn parsed_url(text: Seq<char>) -> Option<UrlView>;

/// `Url::parse`, with the scheme, the host and the explicit port of the URL as plain
/// values: `None` where the crate reports a parse error.
#[verifier::external_body]
fn parse_url(text: &str) -> (url: Option<ParsedUrl>)
    ensures
        url is Some <==> parsed_url(text@) is Some,
        url matches Some(u) ==> parsed_url(text@) == Some(u@),
{
    let u = http_types::Url::parse(text).ok()?;
    Some(ParsedUrl { scheme: u.scheme().to_string(), host: u.host_str().map(String::from), port: u.port() })
}

/// Where a listener listens: a host, by name or by address, and a port.
#[derive(Debug)]
pub struct ListenTarget {
    pub host: String,
    pub port: u16,
}

/// What a [`ListenTarget`] holds, as plain values.
pub struct ListenTargetView {
    pub host: Seq<char>,
    pub port: u16,
}

impl View for ListenTarget {
    type V = ListenTargetView;

    open spec fn view(&self) -> ListenTargetView {
        ListenTargetView { host: self.host@, port: self.port }
    }
}

/// The transport that a URL scheme selects: `tcp` and `http` select TCP; `tls`, `ssl` and
/// `https` are known but not offered; every other scheme is refused.
pub open spec fn scheme_transport(scheme: Seq<char>) -> std::result::Result<
    Transport,
    ListenerErrorView,
> {
    if scheme == "tcp"@ || scheme == "http"@ {
        Ok(Transport::Tcp)
    } else if scheme == "tls"@ || scheme == "ssl"@ || scheme == "https"@ {
        Err(
            ListenerErrorView {
                kind: ListenerErrorKind::Unsupported,
                message: "parsing TLS listeners not supported yet"@,
            },
        )
    } else {
        Err(
            ListenerErrorView {
                kind: ListenerErrorKind::InvalidInput,
                message: "unrecognized url scheme"@,
            },
        )
    }
}

/// The transport that a URL scheme selects.
pub fn transport_for(scheme: &str) -> (r: std::result::Result<Transport, ListenerError>)
    ensures
        r is Ok <==> scheme_transport(scheme@) is Ok,
        r matches Ok(t) ==> scheme_transport(scheme@) == Ok::<Transport, ListenerErrorView>(t),
        r matches Err(e) ==> scheme_transport(scheme@) == Err::<Transport, ListenerErrorView>(e@),
{
    if str_eq(scheme, "tcp") || str_eq(scheme, "http") {
        Ok(Transport::Tcp)
    } else if str_eq(scheme, "tls") || str_eq(scheme, "ssl") || str_eq(scheme, "https") {
        Err(
            ListenerError {
                kind: ListenerErrorKind::Unsupported,
                message: "parsing TLS listeners not supported yet".to_owned(),
            },
        )
    } else {
        Err(
            ListenerError {
                kind: ListenerErrorKind::InvalidInput,
                message: "unrecognized url scheme".to_owned(),
            },
        )
    }
}

/// A host as it is resolved: an address of version 6, which a URL writes between `[` and
/// `]`, without the two brackets; every other host as it is.
pub open spec fn unbracketed(host: Seq<char>) -> Seq<char> {
    if host.len() >= 2 && host[0] == '[' && host.last() == ']' {
        host.subrange(1, host.len() - 1)
    } else {
        host
    }
}

/// The host as it is resolved.
pub fn without_brackets(host: &str) -> (h: String)
    ensures
        h@ == unbracketed(host@),
{
    let n = host.unicode_len();
    if n >= 2 && host.get_char(0) == '[' && host.get_char(n - 1) == ']' {
        host.substring_char(1, n - 1).to_owned()
    } else {
        host.to_owned()
    }
}

/// Where the listener for a URL listens: the host of the URL, as it is resolved, and its
/// port, or port 80 where the URL spells out none. A URL whose scheme does not select TCP
/// gives the failure of the scheme, and one without a host is refused.
pub open spec fn url_target(url: UrlView) -> std::result::Result<
    ListenTargetView,
    ListenerErrorView,
> {
    match scheme_transport(url.scheme) {
        Err(e) => Err(e),
        Ok(_) => match url.host {
            None => Err(
                ListenerErrorView {
                    kind: ListenerErrorKind::NoHost,
                    message: "No host name in the URL"@,
                },
            ),
            Some(host) => Ok(
                ListenTargetView {
                    host: unbracketed(host),
                    port: match url.port {
                        Some(p) => p,
                        None => 80,
                    },
                },
            ),
        },
    }
}

/// Where the listener for a URL listens.
pub fn url_to_listener(url: &ParsedUrl) -> (r: std::result::Result<ListenTarget, ListenerError>)
    ensures
        r is Ok <==> url_target(url@) is Ok,
        r matches Ok(t) ==> url_target(url@) == Ok::<ListenTargetView, ListenerErrorView>(t@),
        r matches Err(e) ==> url_target(url@) == Err::<ListenTargetView, ListenerErrorView>(e@),
{
    match transport_for(url.scheme.as_str()) {
        Err(e) => Err(e),
        Ok(_) => match &url.host {
            None => Err(
                ListenerError {
                    kind: ListenerErrorKind::NoHost,
                    message: "No host name in the URL".to_owned(),
                },
            ),
            Some(host) => Ok(
                ListenTarget {
                    host: without_brackets(host.as_str()),
                    port: match url.port {
                        Some(p) => p,
                        None => 80,
                    },
                },
            ),
        },
    }
}

/// The text of the failure for a target that is no URL.
pub open spec fn unparsable_message(target: Seq<char>) -> Seq<char> {
    "unable to parse listener from `"@ + target + "`"@
}

/// Where the listener for a target that is no literal socket address listens: what the
/// target says as a URL; a target that is no URL is refused.
pub open spec fn str_target(target: Seq<char>) -> std::result::Result<
    ListenTargetView,
    ListenerErrorView,
> {
    match parsed_url(target) {
        Some(url) => url_target(url),
        None => Err(
            ListenerErrorView {
                kind: ListenerErrorKind::InvalidInput,
                message: unparsable_message(target),
            },
        ),
    }
}

/// What becomes of a text that was or was not read as a URL.
pub fn parsed_to_listener(target: &str, url: Option<ParsedUrl>) -> (r: std::result::Result<
    ListenTarget,
    ListenerError,
>)
    ensures
        url matches Some(u) ==> {
            &&& r is Ok <==> url_target(u@) is Ok
            &&& r matches Ok(t) ==> url_target(u@) == Ok::<ListenTargetView, ListenerErrorView>(t@)
            &&& r matches Err(e) ==> url_target(u@) == Err::<ListenTargetView, ListenerErrorView>(
                e@,
            )
        },
        url is None ==> r is Err && r->Err_0@ == (ListenerErrorView {
            kind: ListenerErrorKind::InvalidInput,
            message: unparsable_message(target@),
        }),
{
    match url {
        Some(u) => url_to_listener(&u),
        None => {
            let mut message = "unable to parse listener from `".to_owned();
            message.append(target);
            message.append("`");
            Err(ListenerError { kind: ListenerErrorKind::InvalidInput, message })
        },
    }
}

/// Where the listener for a target that is no literal socket address listens.
pub fn str_to_listener(target: &str) -> (r: std::result::Result<ListenTarget, ListenerError>)
    ensures
        r is Ok <==> str_target(target@) is Ok,
        r matches Ok(t) ==> str_target(target@) == Ok::<ListenTargetView, ListenerErrorView>(t@),
        r matches Err(e) ==> str_target(target@) == Err::<ListenTargetView, ListenerErrorView>(
            e@,
        ),
{
    let url = parse_url(target);
    parsed_to_listener(target, url)
}

/// A URL with the scheme `tls`, `ssl` or `https` gives no listener: the failure says that
/// the transport is not supported, whatever the host and the port are.
pub proof fn lemma_tls_is_refused(url: UrlView)
    requires
        url.scheme == "tls"@ || url.scheme == "ssl"@ || url.scheme == "https"@,
    ensures
        url_target(url) is Err,
        url_target(url)->Err_0.kind == ListenerErrorKind::Unsupported,
{
    reveal_strlit("tls");
    reveal_strlit("ssl");
    reveal_strlit("https");
    reveal_strlit("tcp");
    reveal_strlit("http");
    if url.scheme == "tls"@ || url.scheme == "ssl"@ {
        assert(url.scheme.len() == 3);
        assert(url.scheme[1] != 'c');
    } else {
        assert(url.scheme.len() == 5);
    }
}

/// Why an attempt to accept a connection failed.
#[derive(Clone, Copy, Debug, PartialEq, Eq, Structural)]
pub enum AcceptErrorKind {
    ConnectionRefused,
    ConnectionAborted,
    ConnectionReset,
    /// Every other failure, such as the exhaustion of a resource.
    Other,
}

/// Whether a failure to accept concerns one connection only: the peer refused, aborted or
/// reset it.
pub open spec fn transient(kind: AcceptErrorKind) -> bool {
    kind != AcceptErrorKind::Other
}

/// Whether a failure to accept concerns one connection only.
pub fn is_transient_error(kind: AcceptErrorKind) -> (b: bool)
    ensures
        b == transient(kind),
{
    match kind {
        AcceptErrorKind::ConnectionRefused => true,
        AcceptErrorKind::ConnectionAborted => true,
        AcceptErrorKind::ConnectionReset => true,
        AcceptErrorKind::Other => false,
    }
}

/// What an attempt to accept a connection brought.
#[derive(Clone, Copy, Debug, PartialEq, Eq, Structural)]
pub enum AcceptEvent {
    /// A connection.
    Connection,
    /// A failure.
    Failed(AcceptErrorKind),
    /// The end of the incoming connections.
    Closed,
}

/// What the accept loop does after an attempt.
#[derive(Clone, Copy, Debug, PartialEq, Eq, Structural)]
pub enum AcceptAction {
    /// Hand the connection to a task of its own, and accept again at once.
    Serve,
    /// Accept again at once.
    Retry,
    /// Wait for the given time, then accept again.
    Backoff { millis: u64 },
    /// Leave the loop.
    Stop,
}

/// The time to wait after a failure that is not transient, in milliseconds.
pub const BACKOFF_MILLIS: u64 = 500;

/// What the accept loop does after an attempt: a connection is served; a transient failure
/// is passed over without a delay; every other failure is followed by the fixed delay; and
/// the loop ends only when the incoming connections end.
pub open spec fn action_for(event: AcceptEvent) -> AcceptAction {
    match event {
        AcceptEvent::Connection => AcceptAction::Serve,
        AcceptEvent::Failed(kind) => if transient(kind) {
            AcceptAction::Retry
        } else {
            AcceptAction::Backoff { millis: BACKOFF_MILLIS }
        },
        AcceptEvent::Closed => AcceptAction::Stop,
    }
}

/// Decides what the accept loop does after an attempt.
pub fn on_accept(event: AcceptEvent) -> (action: AcceptAction)
    ensures
        action == action_for(event),
{
    match event {
        AcceptEvent::Connection => AcceptAction::Serve,
        AcceptEvent::Failed(kind) => if is_transient_error(kind) {
            AcceptAction::Retry
        } else {
            AcceptAction::Backoff { millis: BACKOFF_MILLIS }
        },
        AcceptEvent::Closed => AcceptAction::Stop,
    }
}

/// The actions of the accept loop for a run of attempts.
pub open spec fn actions_for(events: Seq<AcceptEvent>) -> Seq<AcceptAction> {
    Seq::new(events.len(), |i: int| action_for(events[i]))
}

/// How many of the failures in a run of attempts are not transient.
pub open spec fn grave_failures(events: Seq<AcceptEvent>) -> nat
    decreases events.len(),
{
    if events.len() == 0 {
        0
    } else {
        grave_failures(events.drop_last()) + if events.last() matches AcceptEvent::Failed(kind)
            && !transient(kind) {
            1nat
        } else {
            0nat
        }
    }
}

/// How many of the actions are delays.
pub open spec fn delays(actions: Seq<AcceptAction>) -> nat
    decreases actions.len(),
{
    if actions.len() == 0 {
        0
    } else {
        delays(actions.drop_last()) + if actions.last() is Backoff {
            1nat
        } else {
            0nat
        }
    }
}

/// However many transient failures follow one another, the accept loop goes on at once
/// after each: it neither stops nor waits.
pub proof fn lemma_transient_failures_never_stop_the_loop(events: Seq<AcceptEvent>)
    requires
        forall|i: int|
            0 <= i < events.len() ==> ((#[trigger] events[i]) matches AcceptEvent::Failed(kind)
                && transient(kind)),
    ensures
        forall|i: int|
            0 <= i < events.len() ==> (#[trigger] actions_for(events)[i]) == AcceptAction::Retry,
        delays(actions_for(events)) == 0,
    decreases events.len(),
{
    if events.len() > 0 {
        lemma_transient_failures_never_stop_the_loop(events.drop_last());
        assert(actions_for(events).drop_last() =~= actions_for(events.drop_last()));
        assert(actions_for(events).last() == action_for(events.last()));
        assert forall|i: int| 0 <= i < events.len() implies (#[trigger] actions_for(events)[i])
            == AcceptAction::Retry by {
            assert(events[i] is Failed);
        }
    }
}

/// Each failure that is not transient is followed by one delay of the fixed length, and
/// nothing else is: the loop waits as often as such failures occur.
pub proof fn lemma_one_delay_for_each_grave_failure(events: Seq<AcceptEvent>)
    ensures
        delays(actions_for(events)) == grave_failures(events),
        forall|i: int|
            0 <= i < events.len() ==> ((#[trigger] actions_for(events)[i]) is Backoff <==> (
            events[i] matches AcceptEvent::Failed(kind) && !transient(kind))),
        forall|i: int|
            0 <= i < events.len() && (#[trigger] actions_for(events)[i]) is Backoff
                ==> actions_for(events)[i] == (AcceptAction::Backoff { millis: 500 }),
    decreases events.len(),
{
    if events.len() > 0 {
        lemma_one_delay_for_each_grave_failure(events.drop_last());
        assert(actions_for(events).drop_last() =~= actions_for(events.drop_last()));
        assert(actions_for(events).last() == action_for(events.last()));
    }
}

/// An address of the internet protocol.
#[derive(Clone, Copy, Debug, PartialEq, Eq)]
pub enum IpAddress {
    V4([u8; 4]),
    V6([u16; 8]),
}

/// An address and a port.
#[derive(Clone, Copy, Debug, PartialEq, Eq)]
pub struct SocketAddress {
    pub ip: IpAddress,
    pub port: u16,
}

/// The value with its two bytes in the other order.
pub open spec fn swapped16(x: u16) -> u16 {
    ((x & 0xff) << 8) | (x >> 8)
}

/// The value with its four bytes in the opposite order.
pub open spec fn swapped32(x: u32) -> u32 {
    ((x & 0xff) << 24) | ((x & 0xff00) << 8) | ((x >> 8) & 0xff00) | (x >> 24)
}

/// The 16-bit value whose bytes in memory, on this machine, are those of `x` with the most
/// significant first: `x` itself on a machine that stores the most significant byte first,
/// and `x` with its bytes swapped on one that stores it last.
pub open spec fn network_order16(x: u16) -> u16 {
    if vstd::endian::endianness() is Big {
        x
    } else {
        swapped16(x)
    }
}

/// The 32-bit value whose bytes in memory, on this machine, are those of `x` with the most
/// significant first.
pub open spec fn network_order32(x: u32) -> u32 {
    if vstd::endian::endianness() is Big {
        x
    } else {
        swapped32(x)
    }
}

/// `u16::to_be`: the value whose bytes in memory are those of `x` with the most significant
/// first. On a machine that stores the most significant byte first this is `x` itself; on
/// one that stores it last, it is `x` with its bytes swapped.
#[verifier::external_body]
fn to_be16(x: u16) -> (r: u16)
    ensures
        r == network_order16(x),
{
    x.to_be()
}

/// `u32::to_be`: as `u16::to_be`, for four bytes.
#[verifier::external_body]
fn to_be32(x: u32) -> (r: u32)
    ensures
        r == network_order32(x),
{
    x.to_be()
}

/// A 16-bit value in network byte order: the value whose bytes in memory are those of
/// `hostshort`, the most significant first.
pub fn htons(hostshort: u16) -> (r: u16)
    ensures
        r == network_order16(hostshort),
{
    to_be16(hostshort)
}

/// A 32-bit value in network byte order: the value whose bytes in memory are those of
/// `hostlong`, the most significant first.
pub fn htonl(hostlong: u32) -> (r: u32)
    ensures
        r == network_order32(hostlong),
{
    to_be32(hostlong)
}

/// How many connections may wait to be accepted.
pub const BACKLOG: i32 = 5;

/// How the listening socket for one address is set up: a stream socket for the address and
/// the port, with address reuse and port reuse switched on before it is bound, so that a
/// second listener can share the address.
#[derive(Debug)]
pub struct SocketPlan {
    /// The address that the socket is bound to.
    pub ip: IpAddress,
    /// The port, in network byte order.
    pub port: u16,
    /// An address of version 4 as one number in network byte order; 0 for version 6.
    pub address: u32,
    pub reuse_address: bool,
    pub reuse_port: bool,
    pub backlog: i32,
}

/// An address of version 4 as one number, its first part the most significant.
pub open spec fn v4_number(parts: [u8; 4]) -> u32 {
    (parts[0] as u32 * 16777216 + parts[1] as u32 * 65536 + parts[2] as u32 * 256
        + parts[3] as u32) as u32
}

/// The plan of the listening socket for an address.
pub open spec fn plan_for(target: SocketAddress) -> SocketPlan {
    SocketPlan {
        ip: target.ip,
        port: network_order16(target.port),
        address: match target.ip {
            IpAddress::V4(parts) => network_order32(v4_number(parts)),
            IpAddress::V6(_) => 0,
        },
        reuse_address: true,
        reuse_port: true,
        backlog: BACKLOG,
    }
}

/// The plans of the listening sockets for a list of addresses, in the order of the list.
pub open spec fn plans_for(targets: Seq<SocketAddress>) -> Seq<SocketPlan> {
    Seq::new(targets.len(), |i: int| plan_for(targets[i]))
}

/// The plan of the listening socket for an address.
pub fn plan_of(target: &SocketAddress) -> (plan: SocketPlan)
    ensures
        plan == plan_for(*target),
{
    let address = match target.ip {
        IpAddress::V4(parts) => {
            let a: u32 = parts[0] as u32;
            let b: u32 = parts[1] as u32;
            let c: u32 = parts[2] as u32;
            let d: u32 = parts[3] as u32;
            htonl(a * 16777216 + b * 65536 + c * 256 + d)
        },
        IpAddress::V6(_) => 0,
    };
    SocketPlan {
        ip: target.ip,
        port: htons(target.port),
        address,
        reuse_address: true,
        reuse_port: true,
        backlog: BACKLOG,
    }
}

/// A listener for TCP connections: first bound to a server, then accepting for it.
pub struct TcpListener {
    addrs: Option<Vec<SocketAddress>>,
    bound: bool,
    server: Option<Server>,
}

impl TcpListener {
    /// The addresses that the listener was made for, until it is bound.
    pub closed spec fn addrs(&self) -> Option<Seq<SocketAddress>> {
        match self.addrs {
            Some(a) => Some(a@),
            None => None,
        }
    }

    /// Whether the listening socket is open.
    pub closed spec fn is_bound(&self) -> bool {
        self.bound
    }

    /// The server that the listener serves, from `bind` until `accept`.
    pub closed spec fn server(&self) -> Option<Server> {
        self.server
    }

    /// A listener for the addresses, not yet bound.
    pub fn from_addrs(addrs: Vec<SocketAddress>) -> (l: TcpListener)
        ensures
            l.addrs() == Some(addrs@),
            !l.is_bound(),
            l.server() is None,
    {
        TcpListener { addrs: Some(addrs), bound: false, server: None }
    }

    /// Binds the listener to a server. Where the socket is not open yet, the result is the
    /// plans by which it is opened: one for each address that the listener was made for, in
    /// their order, each with both reuse options on; the socket of the first plan that can
    /// be carried out is the socket of the listener. A listener that is bound already keeps
    /// its socket and serves the new server. A listener without an address is refused, and
    /// so is one whose socket was planned before and never opened.
    pub fn bind(&mut self, server: Server) -> (r: std::result::Result<
        Option<Vec<SocketPlan>>,
        ListenerError,
    >)
        ensures
            final(self).is_bound() == old(self).is_bound(),
            final(self).server() == Some(server),
            final(self).addrs() == if old(self).is_bound() {
                old(self).addrs()
            } else {
                None
            },
            r is Ok <==> old(self).is_bound() || (old(self).addrs() matches Some(targets)
                && targets.len() > 0),
            old(self).is_bound() ==> r == Ok::<Option<Vec<SocketPlan>>, ListenerError>(None),
            !old(self).is_bound() && r is Ok ==> (r matches Ok(Some(plans)) && plans@
                == plans_for(old(self).addrs()->0)),
            !old(self).is_bound() && old(self).addrs() is None ==> (r matches Err(e) && e@ == (
            ListenerErrorView {
                kind: ListenerErrorKind::OutOfOrder,
                message: "`bind` should only be called once"@,
            })),
            !old(self).is_bound() && old(self).addrs() == Some(Seq::<SocketAddress>::empty())
                ==> (r matches Err(e) && e@ == (ListenerErrorView {
                kind: ListenerErrorKind::InvalidInput,
                message: "could not resolve to any addresses"@,
            })),
    {
        self.server = Some(server);
        if self.bound {
            return Ok(None);
        }
        let targets = match self.addrs.take() {
            None => {
                return Err(
                    ListenerError {
                        kind: ListenerErrorKind::OutOfOrder,
                        message: "`bind` should only be called once".to_owned(),
                    },
                );
            },
            Some(targets) => targets,
        };
        if targets.len() == 0 {
            assert(targets@ =~= Seq::<SocketAddress>::empty());
            return Err(
                ListenerError {
                    kind: ListenerErrorKind::InvalidInput,
                    message: "could not resolve to any addresses".to_owned(),
                },
            );
        }
        let mut plans: Vec<SocketPlan> = Vec::new();
        let mut i: usize = 0;
        while i < targets.len()
            invariant
                i <= targets.len(),
                plans@ == plans_for(targets@.take(i as int)),
            decreases targets.len() - i,
        {
            plans.push(plan_of(&targets[i]));
            assert(plans_for(targets@.take(i + 1)) =~= plans_for(targets@.take(i as int)).push(
                plan_for(targets@[i as int]),
            ));
            i += 1;
        }
        assert(targets@.take(i as int) =~= targets@);
        Ok(Some(plans))
    }

    /// Records that the socket of one of the plans is open and listening.
    pub fn opened(&mut self)
        ensures
            final(self).is_bound(),
            final(self).server() == old(self).server(),
            final(self).addrs() == old(self).addrs(),
    {
        self.bound = true;
    }

    /// Starts to accept: gives the server that every connection is served with. A listener
    /// that is not bound to a server and a socket is refused and stays as it is.
    pub fn accept(&mut self) -> (r: std::result::Result<Server, ListenerError>)
        ensures
            final(self).is_bound() == old(self).is_bound(),
            final(self).addrs() == old(self).addrs(),
            r is Ok <==> old(self).is_bound() && old(self).server() is Some,
            r matches Ok(s) ==> old(self).server() == Some(s) && final(self).server() is None,
            r matches Err(e) ==> e.kind == ListenerErrorKind::OutOfOrder && final(self).server()
                == old(self).server(),
    {
        if !self.bound || self.server.is_none() {
            return Err(
                ListenerError {
                    kind: ListenerErrorKind::OutOfOrder,
                    message: "`Listener::bind` must be called before `Listener::accept`".to_owned(),
                },
            );
        }
        match self.server.take() {
            Some(server) => Ok(server),
            None => Err(
                ListenerError {
                    kind: ListenerErrorKind::OutOfOrder,
                    message: "`Listener::bind` must be called before `Listener::accept`".to_owned(),
                },
            ),
        }
    }
}

/// A listener that was made from a listen target.
pub enum ParsedListener {
    Tcp(TcpListener),
}

} // verus!
