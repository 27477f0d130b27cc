//! The cached control-plane client: two independently refreshable snapshot
//! slots over an immutable socket address.
//!
//! The transport that actually reaches the remote engine is a collaborator
//! outside this module: a refresh takes the transport's outcome — a response
//! document or a transport error — as an argument and applies it to the
//! cache. On success the slot of that one domain is replaced wholesale; on
//! failure every slot keeps its previous value and the error is handed back.
//! Reads return the current snapshot of one slot and never touch the network.

use vstd::prelude::*;

verus! {

/// The cached result of the most recent successful refresh of one domain:
/// either nothing fetched yet, or the response document as fetched.
#[derive(Debug)]
pub enum Snapshot {
    /// No successful refresh has happened yet.
    Empty,
    /// The response document of the most recent successful refresh.
    Data(String),
}

impl View for Snapshot {
    type V = Option<Seq<char>>;

    open spec fn view(&self) -> Option<Seq<char>> {
        match self {
            Snapshot::Empty => None,
            Snapshot::Data(doc) => Some(doc@),
        }
    }
}

impl Snapshot {
    /// An identical copy of the snapshot.
    pub fn duplicate(&self) -> (r: Snapshot)
        ensures
            r@ == self@,
    {
        match self {
            Snapshot::Empty => Snapshot::Empty,
            Snapshot::Data(doc) => Snapshot::Data(doc.clone()),
        }
    }

    /// Whether the snapshot is the empty value.
    pub fn is_empty(&self) -> (r: bool)
        ensures
            r == (self@ is None),
    {
        match self {
            Snapshot::Empty => true,
            Snapshot::Data(_) => false,
        }
    }
}

impl PartialEq for Snapshot {
    fn eq(&self, other: &Snapshot) -> (r: bool) {
        match (self, other) {
            (Snapshot::Empty, Snapshot::Empty) => true,
            (Snapshot::Data(a), Snapshot::Data(b)) => *a == *b,
            _ => false,
        }
    }
}

impl vstd::std_specs::cmp::PartialEqSpecImpl for Snapshot {
    open spec fn obeys_eq_spec() -> bool {
        true
    }

    open spec fn eq_spec(&self, other: &Snapshot) -> bool {
        self@ == other@
    }
}

/// Why a refresh could not reach, or could not use, the remote engine.
#[derive(Clone, Copy, Debug, PartialEq, Eq, Structural)]
pub enum TransportError {
    /// The engine could not be reached.
    ConnectionRefused,
    /// The engine did not answer in time.
    Timeout,
    /// The engine answered with something that is not a response document.
    MalformedResponse,
}

/// The abstract state of a cached client: the socket address and, per domain,
/// the document of the last successful refresh, if any.
pub ghost struct ClientView {
    /// The remote engine's socket address.
    pub address: Seq<char>,
    /// The cached proxy-node listing.
    pub proxies: Option<Seq<char>>,
    /// The cached provider-group listing.
    pub provider_proxies: Option<Seq<char>>,
}

/// The transport's outcome with the response document taken abstractly.
pub open spec fn response_view(response: Result<String, TransportError>) -> Result<
    Seq<char>,
    TransportError,
> {
    match response {
        Ok(doc) => Ok(doc@),
        Err(e) => Err(e),
    }
}

/// The state after a proxies refresh whose transport outcome was `response`:
/// on success only the proxies slot changes, to the fetched document; on
/// failure nothing changes.
pub open spec fn refreshed_proxies(v: ClientView, response: Result<Seq<char>, TransportError>) -> ClientView {
    match response {
        Ok(doc) => ClientView { proxies: Some(doc), ..v },
        Err(_) => v,
    }
}

/// The state after a provider-proxies refresh whose transport outcome was
/// `response`: the mirror image of `refreshed_proxies`.
pub open spec fn refreshed_provider_proxies(
    v: ClientView,
    response: Result<Seq<char>, TransportError>,
) -> ClientView {
    match response {
        Ok(doc) => ClientView { provider_proxies: Some(doc), ..v },
        Err(_) => v,
    }
}

/// A client holding a cached view of a remote proxy engine's state: an
/// immutable socket address and one snapshot slot per domain.
#[derive(Debug)]
pub struct CachedControlClient {
    address: String,
    proxies: Snapshot,
    provider_proxies: Snapshot,
}

impl View for CachedControlClient {
    type V = ClientView;

    closed spec fn view(&self) -> ClientView {
        ClientView {
            address: self.address@,
            proxies: self.proxies@,
            provider_proxies: self.provider_proxies@,
        }
    }
}

impl CachedControlClient {
    /// A fresh client for the engine at `address`: no network activity, both
    /// snapshot slots start empty.
    pub fn new(address: String) -> (r: CachedControlClient)
        ensures
            r@.address == address@,
            r@.proxies is None,
            r@.provider_proxies is None,
    {
        CachedControlClient { address, proxies: Snapshot::Empty, provider_proxies: Snapshot::Empty }
    }

    /// The socket address this client was constructed with.
    pub fn address(&self) -> (r: &str)
        ensures
            r@ == self@.address,
    {
        self.address.as_str()
    }

    /// Apply the outcome of a proxies refresh. On `Ok` the proxies snapshot
    /// is replaced wholesale by the fetched document; on `Err` the cache is
    /// untouched and the transport error is handed back. The provider-proxies
    /// snapshot and the address are never affected.
    pub fn refresh_proxies(&mut self, response: Result<String, TransportError>) -> (r: Result<
        (),
        TransportError,
    >)
        ensures
            final(self)@ == refreshed_proxies(old(self)@, response_view(response)),
            r is Ok <==> response is Ok,
            response matches Err(e) ==> r == Err::<(), TransportError>(e),
    {
        match response {
            Ok(doc) => {
                self.proxies = Snapshot::Data(doc);
                Ok(())
            },
            Err(e) => Err(e),
        }
    }

    /// Apply the outcome of a provider-proxies refresh: the mirror image of
    /// `refresh_proxies`, touching only the provider-proxies snapshot.
    pub fn refresh_provider_proxies(&mut self, response: Result<String, TransportError>) -> (r:
        Result<(), TransportError>)
        ensures
            final(self)@ == refreshed_provider_proxies(old(self)@, response_view(response)),
            r is Ok <==> response is Ok,
            response matches Err(e) ==> r == Err::<(), TransportError>(e),
    {
        match response {
            Ok(doc) => {
                self.provider_proxies = Snapshot::Data(doc);
                Ok(())
            },
            Err(e) => Err(e),
        }
    }

    /// The current proxies snapshot, whole: the empty value before the first
    /// successful refresh, afterwards exactly the document that refresh
    /// stored. Never touches the network.
    pub fn get_proxies_snapshot(&self) -> (r: Snapshot)
        ensures
            r@ == self@.proxies,
    {
        self.proxies.duplicate()
    }

    /// The current provider-proxies snapshot, whole: the mirror image of
    /// `get_proxies_snapshot`.
    pub fn get_provider_proxies_snapshot(&self) -> (r: Snapshot)
        ensures
            r@ == self@.provider_proxies,
    {
        self.provider_proxies.duplicate()
    }
}

/// Refreshes of the two domains are independent: applied in either order,
/// the two transport outcomes leave the client in the same state, so neither
/// refresh contaminates the other's slot.
pub proof fn lemma_refresh_domains_commute(
    v: ClientView,
    pr: Result<Seq<char>, TransportError>,
    qr: Result<Seq<char>, TransportError>,
)
    ensures
        refreshed_provider_proxies(refreshed_proxies(v, pr), qr) == refreshed_proxies(
            refreshed_provider_proxies(v, qr),
            pr,
        ),
{
}

/// After a successful refresh of one domain the cache holds the fetched
/// document in that domain's slot, and the other domain's slot and the
/// address are unchanged.
pub proof fn lemma_successful_refresh_stores(v: ClientView, doc: Seq<char>)
    ensures
        refreshed_proxies(v, Ok(doc)).proxies == Some(doc),
        refreshed_proxies(v, Ok(doc)).provider_proxies == v.provider_proxies,
        refreshed_proxies(v, Ok(doc)).address == v.address,
        refreshed_provider_proxies(v, Ok(doc)).provider_proxies == Some(doc),
        refreshed_provider_proxies(v, Ok(doc)).proxies == v.proxies,
        refreshed_provider_proxies(v, Ok(doc)).address == v.address,
{
}

/// A failed refresh of either domain leaves the whole client state exactly
/// as it was.
pub proof fn lemma_failed_refresh_is_noop(v: ClientView, e: TransportError)
    ensures
        refreshed_proxies(v, Err(e)) == v,
        refreshed_provider_proxies(v, Err(e)) == v,
{
}

/// A refresh of one domain never changes the other domain's snapshot or the
/// address, whatever its outcome.
pub proof fn lemma_refresh_frame(v: ClientView, response: Result<Seq<char>, TransportError>)
    ensures
        refreshed_proxies(v, response).provider_proxies == v.provider_proxies,
        refreshed_proxies(v, response).address == v.address,
        refreshed_provider_proxies(v, response).proxies == v.proxies,
        refreshed_provider_proxies(v, response).address == v.address,
{
}

} // verus!
