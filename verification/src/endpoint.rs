//! The identities and addresses of endpoints.

use vstd::prelude::*;

use crate::collections::StrSet;
use crate::hex;
use crate::hex::hex_string;
use crate::order;
use crate::order::keys_before;
use crate::text;

verus! {

// ---------------------------------------------------------------------------
// Keys
// ---------------------------------------------------------------------------

/// The endpoint id that a text writes, as Iroh reads it, or what Iroh says of
/// the text.
pub uninterp spec fn endpoint_id_read(text: Seq<char>) -> Result<Seq<u8>, Seq<char>>;

/// The secret key that a text writes, as Iroh reads it, or what Iroh says of
/// the text.
pub uninterp spec fn secret_key_read(text: Seq<char>) -> Result<Seq<u8>, Seq<char>>;

/// The public key of a secret key.
pub uninterp spec fn public_key_of(secret: Seq<u8>) -> Seq<u8>;

/// The relay URL that a text writes, in the form in which Iroh prints it, or
/// what Iroh says of the text.
pub uninterp spec fn relay_url_read(text: Seq<char>) -> Result<Seq<char>, Seq<char>>;

/// The endpoint id that a text writes, where it writes one.
pub open spec fn endpoint_id_of_text(text: Seq<char>) -> Option<Seq<u8>> {
    match endpoint_id_read(text) {
        Ok(id) => Some(id),
        Err(_) => None,
    }
}

/// The relay URL that a text writes, where it writes one.
pub open spec fn relay_url_of_text(text: Seq<char>) -> Option<Seq<char>> {
    match relay_url_read(text) {
        Ok(url) => Some(url),
        Err(_) => None,
    }
}

/// Whether bytes are the public key of an endpoint: their hexadecimal digits
/// write it.
pub open spec fn is_endpoint_key(bytes: Seq<u8>) -> bool {
    endpoint_id_of_text(hex::hex_text(bytes)) == Some(bytes)
}

pub open spec fn optional_bytes(r: Option<[u8; 32]>) -> Option<Seq<u8>> {
    match r {
        Some(bytes) => Some(bytes@),
        None => None,
    }
}

/// The view of a key that was read, or of what is said instead.
pub open spec fn read_bytes(r: Result<[u8; 32], String>) -> Result<Seq<u8>, Seq<char>> {
    match r {
        Ok(bytes) => Ok(bytes@),
        Err(why) => Err(why@),
    }
}

/// The view of a text that was read, or of what is said instead.
pub open spec fn read_text(r: Result<String, String>) -> Result<Seq<char>, Seq<char>> {
    match r {
        Ok(text) => Ok(text@),
        Err(why) => Err(why@),
    }
}

/// `iroh::EndpointId::from_str`: the key that a text writes in hexadecimal or
/// base 32, where it is one, and otherwise what the error says. Both are named;
/// an id that was read is also what its own hexadecimal digits write.
#[verifier::external_body]
fn read_endpoint_id(s: &str) -> (r: Result<[u8; 32], String>)
    ensures
        read_bytes(r) == endpoint_id_read(s@),
        r matches Ok(bytes) ==> is_endpoint_key(bytes@),
{
    s.parse::<iroh::EndpointId>().map(|id| *id.as_bytes()).map_err(|e| e.to_string())
}

/// `iroh::EndpointId::from_bytes`: succeeds for the bytes of a public key, and
/// these are the bytes that their hexadecimal digits write.
#[verifier::external_body]
fn accepts_key_bytes(bytes: &[u8; 32]) -> (r: bool)
    ensures
        r == is_endpoint_key(bytes@),
{
    iroh::EndpointId::from_bytes(bytes).is_ok()
}

/// `iroh::SecretKey::public`: the public key of a secret key. Which one it is
/// is named; it is always the key of an endpoint.
#[verifier::external_body]
fn derive_public_key(secret: &[u8; 32]) -> (r: [u8; 32])
    ensures
        r@ == public_key_of(secret@),
        is_endpoint_key(r@),
{
    *iroh::SecretKey::from_bytes(secret).public().as_bytes()
}

/// `iroh::SecretKey::from_str`: the secret key that a text writes, where it is
/// one, and otherwise what the error says. Both are named.
#[verifier::external_body]
pub(crate) fn read_secret_key(s: &str) -> (r: Result<[u8; 32], String>)
    ensures
        read_bytes(r) == secret_key_read(s@),
{
    s.parse::<iroh::SecretKey>().map(|key| key.to_bytes()).map_err(|e| e.to_string())
}

/// `iroh::SecretKey::generate`: a secret key by chance. Nothing is said of it.
#[verifier::external_body]
pub(crate) fn generate_secret() -> (r: [u8; 32])
{
    iroh::SecretKey::generate().to_bytes()
}

/// `iroh::RelayUrl::from_str`: the URL that a text writes, where it is one, in
/// the form in which it is printed, and otherwise what the error says. Both are
/// named.
#[verifier::external_body]
fn read_relay_url(s: &str) -> (r: Result<String, String>)
    ensures
        read_text(r) == relay_url_read(s@),
{
    s.parse::<iroh::RelayUrl>().map(|url| url.to_string()).map_err(|e| e.to_string())
}

/// The relay URL that a text writes, where it writes one, and otherwise what is
/// wrong with it.
pub fn parse_relay_url(s: &str) -> (r: Result<String, String>)
    ensures
        read_text(r) == relay_url_read(s@),
{
    read_relay_url(s)
}

/// The identity of an endpoint: its public key. The view is the key's bytes.
#[derive(Debug, Clone, Copy, PartialEq, Eq)]
pub struct EndpointId {
    bytes: [u8; 32],
}

impl View for EndpointId {
    type V = Seq<u8>;

    closed spec fn view(&self) -> Seq<u8> {
        self.bytes@
    }
}

/// The view of an optional identity.
pub open spec fn optional_id(r: Option<EndpointId>) -> Option<Seq<u8>> {
    match r {
        Some(id) => Some(id@),
        None => None,
    }
}

/// The view of an identity that was read, or of what is said instead.
pub open spec fn read_id(r: Result<EndpointId, String>) -> Result<Seq<u8>, Seq<char>> {
    match r {
        Ok(id) => Ok(id@),
        Err(why) => Err(why@),
    }
}

pub fn same_bytes(a: &[u8], b: &[u8]) -> (r: bool)
    ensures
        r == (a@ == b@),
{
    if a.len() != b.len() {
        return false;
    }
    let mut i: usize = 0;
    while i < a.len()
        invariant
            i <= a.len(),
            a.len() == b.len(),
            forall|j: int| 0 <= j < i ==> a@[j] == b@[j],
        decreases a.len() - i,
    {
        if a[i] != b[i] {
            assert(a@[i as int] != b@[i as int]);
            return false;
        }
        i = i + 1;
    }
    assert(a@ =~= b@);
    true
}

impl EndpointId {
    /// An identity is a public key.
    #[verifier::type_invariant]
    spec fn is_key(&self) -> bool {
        is_endpoint_key(self.bytes@)
    }

    /// The identity with these key bytes, where they are a public key.
    pub fn from_bytes(bytes: [u8; 32]) -> (r: Option<Self>)
        ensures
            match r {
                Some(id) => id@ == bytes@ && is_endpoint_key(bytes@),
                None => !is_endpoint_key(bytes@),
            },
    {
        if accepts_key_bytes(&bytes) {
            Some(EndpointId { bytes })
        } else {
            None
        }
    }

    pub fn as_bytes(&self) -> (r: &[u8; 32])
        ensures
            r@ == self@,
            r@.len() == 32,
            is_endpoint_key(self@),
    {
        proof {
            use_type_invariant(self);
        }
        &self.bytes
    }

    /// The identity that a text writes, where it writes one, and otherwise what
    /// is wrong with it.
    pub fn parse(s: &str) -> (r: Result<Self, String>)
        ensures
            read_id(r) == endpoint_id_read(s@),
            r matches Ok(id) ==> is_endpoint_key(id@),
    {
        match read_endpoint_id(s) {
            Ok(bytes) => Ok(EndpointId { bytes }),
            Err(why) => Err(why),
        }
    }

    /// The identity of the endpoint that holds a secret key.
    pub fn of_secret(secret: &[u8; 32]) -> (id: Self)
        ensures
            id@ == public_key_of(secret@),
            is_endpoint_key(id@),
    {
        EndpointId { bytes: derive_public_key(secret) }
    }

    /// The identity in hexadecimal.
    pub fn to_text(&self) -> (r: String)
        ensures
            r@ == hex::hex_text(self@),
    {
        hex_string(&self.bytes)
    }

    pub fn same(&self, other: &EndpointId) -> (r: bool)
        ensures
            r == (self@ == other@),
    {
        same_bytes(&self.bytes, &other.bytes)
    }
}

// ---------------------------------------------------------------------------
// Addresses
// ---------------------------------------------------------------------------

/// An IP address and a port.
#[derive(Debug, Clone, Copy, PartialEq, Eq)]
pub enum SocketAddr {
    V4 { octets: [u8; 4], port: u16 },
    V6 { bytes: [u8; 16], port: u16, flowinfo: u32, scope_id: u32 },
}

/// The view of a socket address.
pub enum SocketAddrView {
    V4 { octets: Seq<u8>, port: u16 },
    V6 { bytes: Seq<u8>, port: u16, flowinfo: u32, scope_id: u32 },
}

impl View for SocketAddr {
    type V = SocketAddrView;

    open spec fn view(&self) -> SocketAddrView {
        match *self {
            SocketAddr::V4 { octets, port } => SocketAddrView::V4 { octets: octets@, port },
            SocketAddr::V6 { bytes, port, flowinfo, scope_id } => SocketAddrView::V6 {
                bytes: bytes@,
                port,
                flowinfo,
                scope_id,
            },
        }
    }
}

pub open spec fn addr_views(list: Seq<SocketAddr>) -> Seq<SocketAddrView> {
    Seq::new(list.len(), |i: int| list[i]@)
}

/// An address of its own length.
pub open spec fn is_addr(addr: SocketAddrView) -> bool {
    match addr {
        SocketAddrView::V4 { octets, .. } => octets.len() == 4,
        SocketAddrView::V6 { bytes, .. } => bytes.len() == 16,
    }
}

pub open spec fn byte_ints(s: Seq<u8>) -> Seq<int> {
    Seq::new(s.len(), |i: int| s[i] as int)
}

/// What addresses are ordered by: the kind, the address, the port, and what
/// else there is.
pub open spec fn addr_key(addr: SocketAddrView) -> Seq<int> {
    match addr {
        SocketAddrView::V4 { octets, port } => seq![4int] + byte_ints(octets) + seq![port as int],
        SocketAddrView::V6 { bytes, port, flowinfo, scope_id } => seq![6int] + byte_ints(bytes)
            + seq![port as int, flowinfo as int, scope_id as int],
    }
}

pub open spec fn addr_before(a: SocketAddrView, b: SocketAddrView) -> bool {
    order::before(addr_key(a), addr_key(b))
}

/// Addresses in ascending order, none of them twice.
pub open spec fn addrs_ascending(list: Seq<SocketAddrView>) -> bool {
    forall|i: int, j: int|
        0 <= i < j < list.len() ==> addr_before(#[trigger] list[i], #[trigger] list[j])
}

proof fn lemma_addr_key_injective(a: SocketAddrView, b: SocketAddrView)
    requires
        is_addr(a),
        is_addr(b),
        addr_key(a) == addr_key(b),
    ensures
        a == b,
{
    let x = addr_key(a);
    let y = addr_key(b);
    assert(x[0] == y[0]);
    match (a, b) {
        (
            SocketAddrView::V4 { octets: o, port: p },
            SocketAddrView::V4 { octets: q, port: r },
        ) => {
            assert forall|i: int| 0 <= i < 4 implies o[i] == q[i] by {
                assert(x[i + 1] == y[i + 1]);
            }
            assert(o =~= q);
            assert(x[5] == y[5]);
        },
        (
            SocketAddrView::V6 { bytes: o, port: p, .. },
            SocketAddrView::V6 { bytes: q, port: r, .. },
        ) => {
            assert forall|i: int| 0 <= i < 16 implies o[i] == q[i] by {
                assert(x[i + 1] == y[i + 1]);
            }
            assert(o =~= q);
            assert(x[17] == y[17] && x[18] == y[18] && x[19] == y[19]);
        },
        _ => {},
    }
}

proof fn lemma_addr_before(a: SocketAddrView, b: SocketAddrView, c: SocketAddrView)
    requires
        is_addr(a),
        is_addr(b),
    ensures
        !addr_before(a, a),
        addr_before(a, b) ==> !addr_before(b, a) && a != b,
        addr_before(a, b) && addr_before(b, c) ==> addr_before(a, c),
        a == b || addr_before(a, b) || addr_before(b, a),
{
    order::lemma_before_strict(addr_key(a), addr_key(b), addr_key(c));
    order::lemma_before_total(addr_key(a), addr_key(b));
    if addr_key(a) == addr_key(b) {
        lemma_addr_key_injective(a, b);
    }
}

fn push_bytes(key: &mut Vec<u64>, bytes: &[u8])
    ensures
        order::ints(final(key)@) == order::ints(old(key)@) + byte_ints(bytes@),
{
    let ghost earlier = order::ints(key@);
    let mut i: usize = 0;
    assert(order::ints(key@) =~= earlier + byte_ints(bytes@).take(0));
    while i < bytes.len()
        invariant
            i <= bytes.len(),
            order::ints(key@) == earlier + byte_ints(bytes@).take(i as int),
        decreases bytes.len() - i,
    {
        let ghost so_far = order::ints(key@);
        key.push(bytes[i] as u64);
        assert(order::ints(key@) =~= so_far.push(bytes@[i as int] as int));
        assert(order::ints(key@) =~= earlier + byte_ints(bytes@).take(i + 1));
        i = i + 1;
    }
    assert(byte_ints(bytes@).take(i as int) =~= byte_ints(bytes@));
}

fn key_of(addr: &SocketAddr) -> (key: Vec<u64>)
    ensures
        order::ints(key@) == addr_key(addr@),
{
    let mut key: Vec<u64> = Vec::new();
    match addr {
        SocketAddr::V4 { octets, port } => {
            key.push(4);
            assert(order::ints(key@) =~= seq![4int]);
            push_bytes(&mut key, octets);
            key.push(*port as u64);
        },
        SocketAddr::V6 { bytes, port, flowinfo, scope_id } => {
            key.push(6);
            assert(order::ints(key@) =~= seq![6int]);
            push_bytes(&mut key, bytes);
            key.push(*port as u64);
            key.push(*flowinfo as u64);
            key.push(*scope_id as u64);
        },
    }
    assert(order::ints(key@) =~= addr_key(addr@));
    key
}

fn addr_comes_before(a: &SocketAddr, b: &SocketAddr) -> (r: bool)
    ensures
        r == addr_before(a@, b@),
{
    let x: Vec<u64> = key_of(a);
    let y: Vec<u64> = key_of(b);
    keys_before(x.as_slice(), y.as_slice())
}

/// A list with an address at its place, where it is not there yet.
pub open spec fn with_addr(list: Seq<SocketAddrView>, addr: SocketAddrView) -> Seq<SocketAddrView>
    decreases list.len(),
{
    if list.len() == 0 || addr_before(list.last(), addr) {
        list.push(addr)
    } else if list.last() == addr {
        list
    } else {
        with_addr(list.drop_last(), addr).push(list.last())
    }
}

/// Adding an address keeps a list ascending and adds just that address.
pub proof fn lemma_with_addr(list: Seq<SocketAddrView>, addr: SocketAddrView)
    requires
        addrs_ascending(list),
        forall|i: int| 0 <= i < list.len() ==> is_addr(#[trigger] list[i]),
        is_addr(addr),
    ensures
        addrs_ascending(with_addr(list, addr)),
        forall|i: int|
            0 <= i < with_addr(list, addr).len() ==> is_addr(#[trigger] with_addr(list, addr)[i]),
        with_addr(list, addr).to_set() == list.to_set().insert(addr),
    decreases list.len(),
{
    let longer = with_addr(list, addr);
    if list.len() == 0 || addr_before(list.last(), addr) {
        assert forall|i: int, j: int| 0 <= i < j < longer.len() implies addr_before(
            #[trigger] longer[i],
            #[trigger] longer[j],
        ) by {
            if j == list.len() && i < list.len() - 1 {
                assert(addr_before(list[i], list[list.len() - 1]));
                lemma_addr_before(list[i], list.last(), addr);
            }
        }
        lemma_push_to_set(list, addr);
    } else if list.last() == addr {
        assert(list.to_set().insert(addr) =~= list.to_set()) by {
            assert(list[list.len() - 1] == addr);
        }
    } else {
        let shorter = list.drop_last();
        lemma_addr_before(list.last(), addr, addr);
        lemma_with_addr(shorter, addr);
        let inner = with_addr(shorter, addr);
        assert forall|x: SocketAddrView| inner.contains(x) implies addr_before(x, list.last()) by {
            assert(inner.to_set().contains(x));
            if x != addr {
                assert(shorter.to_set().contains(x));
                let k = choose|k: int| 0 <= k < shorter.len() && shorter[k] == x;
                assert(list[k] == x);
                assert(addr_before(list[k], list[list.len() - 1]));
            }
        }
        assert forall|i: int, j: int| 0 <= i < j < longer.len() implies addr_before(
            #[trigger] longer[i],
            #[trigger] longer[j],
        ) by {
            if j == inner.len() {
                assert(inner.contains(inner[i]));
            }
        }
        lemma_push_to_set(inner, list.last());
        lemma_push_to_set(shorter, list.last());
        assert(shorter.push(list.last()) =~= list);
        assert(longer.to_set() =~= list.to_set().insert(addr));
    }
}

proof fn lemma_push_to_set(list: Seq<SocketAddrView>, addr: SocketAddrView)
    ensures
        list.push(addr).to_set() == list.to_set().insert(addr),
{
    let longer = list.push(addr);
    assert forall|x: SocketAddrView| longer.contains(x) == (list.contains(x) || x == addr) by {
        assert(longer[list.len() as int] == addr);
        if list.contains(x) {
            let i = choose|i: int| 0 <= i < list.len() && list[i] == x;
            assert(longer[i] == x);
        }
        if longer.contains(x) {
            let i = choose|i: int| 0 <= i < longer.len() && longer[i] == x;
            if i < list.len() {
                assert(list[i] == x);
            }
        }
    }
    assert(longer.to_set() =~= list.to_set().insert(addr));
}

/// Where an endpoint can be reached.
#[derive(Debug)]
pub struct EndpointAddr {
    id: EndpointId,
    relay_urls: StrSet,
    direct_addrs: Vec<SocketAddr>,
}

/// The view of an endpoint address: relay URLs and direct addresses in
/// ascending order.
pub struct EndpointAddrView {
    pub id: Seq<u8>,
    pub relay_urls: Seq<Seq<char>>,
    pub direct_addrs: Seq<SocketAddrView>,
}

impl View for EndpointAddr {
    type V = EndpointAddrView;

    closed spec fn view(&self) -> EndpointAddrView {
        EndpointAddrView {
            id: self.id@,
            relay_urls: self.relay_urls@,
            direct_addrs: addr_views(self.direct_addrs@),
        }
    }
}

impl EndpointAddrView {
    /// What holds of the address of any endpoint.
    pub open spec fn well_formed(self) -> bool {
        &&& self.id.len() == 32
        &&& order::ascending(self.relay_urls)
        &&& addrs_ascending(self.direct_addrs)
        &&& forall|i: int|
            0 <= i < self.direct_addrs.len() ==> is_addr(#[trigger] self.direct_addrs[i])
    }
}

impl EndpointAddr {
    #[verifier::type_invariant]
    pub closed spec fn well_formed(&self) -> bool {
        &&& addrs_ascending(addr_views(self.direct_addrs@))
    }

    /// An address that says nothing but who the endpoint is.
    pub fn new(id: EndpointId) -> (addr: Self)
        ensures
            addr@ == (EndpointAddrView {
                id: id@,
                relay_urls: Seq::empty(),
                direct_addrs: Seq::empty(),
            }),
    {
        let direct_addrs: Vec<SocketAddr> = Vec::new();
        assert(addr_views(direct_addrs@) =~= Seq::<SocketAddrView>::empty());
        EndpointAddr { id, relay_urls: StrSet::new(), direct_addrs }
    }

    pub fn id(&self) -> (r: EndpointId)
        ensures
            r@ == self@.id,
    {
        self.id
    }

    proof fn lemma_well_formed_ids(&self)
        ensures
            self@.id.len() == 32,
            forall|i: int|
                0 <= i < self@.direct_addrs.len() ==> is_addr(#[trigger] self@.direct_addrs[i]),
    {
        assert forall|i: int| 0 <= i < self@.direct_addrs.len() implies is_addr(
            #[trigger] self@.direct_addrs[i],
        ) by {
            assert(self@.direct_addrs[i] == self.direct_addrs@[i]@);
        }
    }

    pub fn relay_urls(&self) -> (r: &Vec<String>)
        ensures
            text::texts(r@) == self@.relay_urls,
            order::ascending(self@.relay_urls),
    {
        self.relay_urls.items()
    }

    pub fn ip_addrs(&self) -> (r: &Vec<SocketAddr>)
        ensures
            addr_views(r@) == self@.direct_addrs,
            addrs_ascending(self@.direct_addrs),
    {
        proof {
            use_type_invariant(self);
        }
        &self.direct_addrs
    }

    /// The address with one more relay URL.
    pub fn with_relay_url(self, relay_url: String) -> (r: Self)
        ensures
            r@.id == self@.id,
            r@.direct_addrs == self@.direct_addrs,
            r@.relay_urls.to_set() == self@.relay_urls.to_set().insert(relay_url@),
            order::ascending(r@.relay_urls),
            self@.relay_urls.len() == 0 ==> r@.relay_urls == seq![relay_url@],
    {
        proof {
            use_type_invariant(&self);
        }
        let EndpointAddr { id, mut relay_urls, direct_addrs } = self;
        let ghost before = relay_urls@;
        let ghost url = relay_url@;
        let _ = relay_urls.insert(relay_url);
        proof {
            if before.len() == 0 {
                lemma_only_element(before, relay_urls@, url);
            }
        }
        EndpointAddr { id, relay_urls, direct_addrs }
    }

    /// The address with one more direct address.
    pub fn with_ip_addr(self, addr: SocketAddr) -> (r: Self)
        ensures
            r@.id == self@.id,
            r@.relay_urls == self@.relay_urls,
            r@.direct_addrs == with_addr(self@.direct_addrs, addr@),
    {
        proof {
            use_type_invariant(&self);
            self.lemma_well_formed_ids();
        }
        let EndpointAddr { id, relay_urls, mut direct_addrs } = self;
        let ghost list = addr_views(direct_addrs@);
        proof {
            lemma_with_addr(list, addr@);
        }
        insert_addr(&mut direct_addrs, addr);
        EndpointAddr { id, relay_urls, direct_addrs }
    }
}

impl Clone for EndpointAddr {
    fn clone(&self) -> (r: Self)
        ensures
            r@ == self@,
    {
        proof {
            use_type_invariant(self);
        }
        let urls: &Vec<String> = self.relay_urls.items();
        let mut relay_urls: StrSet = StrSet::new();
        relay_urls.extend(urls.as_slice());
        let mut direct_addrs: Vec<SocketAddr> = Vec::new();
        let mut i: usize = 0;
        while i < self.direct_addrs.len()
            invariant
                i <= self.direct_addrs@.len(),
                direct_addrs@ == self.direct_addrs@.take(i as int),
            decreases self.direct_addrs@.len() - i,
        {
            direct_addrs.push(self.direct_addrs[i]);
            i = i + 1;
        }
        proof {
            assert(direct_addrs@ =~= self.direct_addrs@);
            assert(Seq::<Seq<char>>::empty().to_set() + self.relay_urls@.to_set()
                =~= self.relay_urls@.to_set());
            lemma_same_ascending(relay_urls@, self.relay_urls@);
        }
        EndpointAddr { id: self.id, relay_urls, direct_addrs }
    }
}

/// An ascending list with one element.
proof fn lemma_only_element(before: Seq<Seq<char>>, after: Seq<Seq<char>>, item: Seq<char>)
    requires
        before.len() == 0,
        after.to_set() == before.to_set().insert(item),
        order::ascending(after),
    ensures
        after == seq![item],
{
    assert(order::ascending(seq![item]));
    assert(before.to_set().insert(item) =~= seq![item].to_set()) by {
        assert(seq![item][0] == item);
    }
    lemma_same_ascending(after, seq![item]);
}

/// Two ascending lists of the same texts are the same list.
pub proof fn lemma_same_ascending(a: Seq<Seq<char>>, b: Seq<Seq<char>>)
    requires
        order::ascending(a),
        order::ascending(b),
        a.to_set() == b.to_set(),
    ensures
        a == b,
    decreases a.len(),
{
    if a.len() == 0 {
        if b.len() > 0 {
            assert(b.to_set().contains(b[0]));
            assert(a.contains(b[0]));
        }
        assert(a =~= b);
    } else if b.len() == 0 {
        assert(a.to_set().contains(a[0]));
        assert(b.contains(a[0]));
    } else {
        let x = a.last();
        let y = b.last();
        assert(a.to_set().contains(x) && b.to_set().contains(y));
        let i = choose|i: int| 0 <= i < b.len() && b[i] == x;
        let j = choose|j: int| 0 <= j < a.len() && a[j] == y;
        order::lemma_text_before(x, y, x);
        if x != y {
            assert(order::text_before(b[i], b[b.len() - 1]));
            assert(order::text_before(a[j], a[a.len() - 1]));
        }
        let c = a.drop_last();
        let d = b.drop_last();
        assert forall|t: Seq<char>| c.contains(t) == d.contains(t) by {
            if c.contains(t) {
                let k = choose|k: int| 0 <= k < c.len() && c[k] == t;
                assert(order::text_before(a[k], a[a.len() - 1]));
                order::lemma_text_before(t, x, x);
                assert(a[k] == t);
                assert(b.to_set().contains(t));
                let m = choose|m: int| 0 <= m < b.len() && b[m] == t;
                assert(d[m] == t);
            }
            if d.contains(t) {
                let k = choose|k: int| 0 <= k < d.len() && d[k] == t;
                assert(order::text_before(b[k], b[b.len() - 1]));
                order::lemma_text_before(t, y, y);
                assert(b[k] == t);
                assert(a.to_set().contains(t));
                let m = choose|m: int| 0 <= m < a.len() && a[m] == t;
                assert(c[m] == t);
            }
        }
        assert(c.to_set() =~= d.to_set());
        lemma_same_ascending(c, d);
        assert(a =~= c.push(x));
        assert(b =~= d.push(y));
    }
}

fn insert_addr(list: &mut Vec<SocketAddr>, addr: SocketAddr)
    ensures
        addr_views(final(list)@) == with_addr(addr_views(old(list)@), addr@),
    decreases old(list)@.len(),
{
    let ghost before = addr_views(list@);
    let n: usize = list.len();
    if n == 0 || addr_comes_before(&list[n - 1], &addr) {
        list.push(addr);
        assert(addr_views(list@) =~= before.push(addr@));
        return;
    }
    let last: SocketAddr = list[n - 1];
    if same_addr(&last, &addr) {
        return;
    }
    let _ = list.pop();
    assert(addr_views(list@) =~= before.drop_last());
    insert_addr(list, addr);
    let ghost inner = addr_views(list@);
    list.push(last);
    assert(addr_views(list@) =~= inner.push(last@));
}

fn same_addr(a: &SocketAddr, b: &SocketAddr) -> (r: bool)
    ensures
        r == (a@ == b@),
{
    match (a, b) {
        (
            SocketAddr::V4 { octets: x, port: p },
            SocketAddr::V4 { octets: y, port: q },
        ) => same_bytes(x, y) && *p == *q,
        (
            SocketAddr::V6 { bytes: x, port: p, flowinfo: f, scope_id: s },
            SocketAddr::V6 { bytes: y, port: q, flowinfo: g, scope_id: t },
        ) => same_bytes(x, y) && *p == *q && *f == *g && *s == *t,
        _ => false,
    }
}

/// An address that is added is there, together with all that were there and no
/// other, and the list stays in order.
pub proof fn law_added_addresses_are_kept(
    list: Seq<SocketAddrView>,
    addr: SocketAddrView,
    other: SocketAddrView,
)
    requires
        addrs_ascending(list),
        forall|i: int| 0 <= i < list.len() ==> is_addr(#[trigger] list[i]),
        is_addr(addr),
    ensures
        with_addr(list, addr).contains(addr),
        with_addr(list, addr).contains(other) == (list.contains(other) || other == addr),
        with_addr(with_addr(list, addr), addr).to_set() == with_addr(list, addr).to_set(),
{
    lemma_with_addr(list, addr);
    lemma_with_addr(with_addr(list, addr), addr);
    let longer = with_addr(list, addr);
    assert(longer.to_set().contains(addr));
    assert(longer.to_set().contains(other) == list.to_set().insert(addr).contains(other));
    assert(with_addr(longer, addr).to_set() =~= longer.to_set());
}

/// Addresses of four bytes come before those of sixteen. Of two that have the
/// same bytes, the one with the smaller port comes first.
pub proof fn law_addresses_are_in_order(
    octets: Seq<u8>,
    bytes: Seq<u8>,
    port: u16,
    other: u16,
    flowinfo: u32,
    scope_id: u32,
)
    requires
        octets.len() == 4,
    ensures
        addr_before(
            SocketAddrView::V4 { octets, port },
            SocketAddrView::V6 { bytes, port: other, flowinfo, scope_id },
        ),
        addr_before(
            SocketAddrView::V4 { octets, port },
            SocketAddrView::V4 { octets, port: other },
        ) == (port < other),
{
    let a = addr_key(SocketAddrView::V4 { octets, port });
    let b = addr_key(SocketAddrView::V6 { bytes, port: other, flowinfo, scope_id });
    let c = addr_key(SocketAddrView::V4 { octets, port: other });
    assert(a[0] == 4 && b[0] == 6);
    assert(a.take(0) =~= b.take(0));
    order::law_first_difference_decides(a, b, 0);
    assert(a.take(5) =~= c.take(5));
    if port == other {
        assert(a =~= c);
        order::lemma_before_strict(a, a, a);
    } else {
        order::law_first_difference_decides(a, c, 5);
    }
}

} // verus!
