use vstd::prelude::*;

verus! {

/// Scheme of a request target, as far as connection reuse cares.
#[derive(Clone, Copy, Debug, PartialEq, Eq, Hash, Structural)]
pub enum Scheme {
    /// Plain TCP.
    Plain,
    /// TLS over TCP.
    Encrypted,
    /// A local (Unix domain) socket.
    Local,
}

/// Where a request goes: its scheme, its authority (`host[:port]`) and its
/// path. The path only matters for local-socket targets.
pub struct Target {
    pub scheme: Scheme,
    pub authority: Vec<u8>,
    pub path: Vec<u8>,
}

/// The mathematical value of a [`Target`].
pub ghost struct TargetModel {
    pub scheme: Scheme,
    pub authority: Seq<u8>,
    pub path: Seq<u8>,
}

impl View for Target {
    type V = TargetModel;

    open spec fn view(&self) -> TargetModel {
        TargetModel { scheme: self.scheme, authority: self.authority@, path: self.path@ }
    }
}

/// ASCII lower case of one byte; other bytes stay as they are.
pub open spec fn lower_byte(b: u8) -> u8 {
    if 65 <= b <= 90 {
        (b + 32) as u8
    } else {
        b
    }
}

/// ASCII lower case of a byte string.
pub open spec fn ascii_lower(s: Seq<u8>) -> Seq<u8> {
    s.map_values(|b: u8| lower_byte(b))
}

/// An authority (`host[:port]`), held in ASCII lower case: authorities
/// that differ only in case are the same authority.
#[derive(Debug, Clone, Hash)]
pub struct Authority {
    bytes: Vec<u8>,
}

impl View for Authority {
    type V = Seq<u8>;

    closed spec fn view(&self) -> Seq<u8> {
        self.bytes@
    }
}

impl Authority {
    /// The authority written as `raw`, in any case.
    pub fn new(raw: &Vec<u8>) -> (r: Authority)
        ensures
            r@ == ascii_lower(raw@),
    {
        let mut bytes: Vec<u8> = Vec::new();
        let mut i: usize = 0;
        while i < raw.len()
            invariant
                i <= raw.len(),
                bytes@.len() == i,
                forall|j: int| 0 <= j < i ==> bytes@[j] == lower_byte(#[trigger] raw@[j]),
            decreases raw.len() - i,
        {
            let b = raw[i];
            let l = if 65 <= b && b <= 90 {
                b + 32
            } else {
                b
            };
            bytes.push(l);
            i = i + 1;
        }
        assert(bytes@ =~= ascii_lower(raw@));
        Authority { bytes }
    }

    /// The authority's bytes, in lower case.
    pub fn as_bytes(&self) -> (r: &Vec<u8>)
        ensures
            r@ == self@,
    {
        &self.bytes
    }

    /// A copy of the authority.
    pub fn duplicate(&self) -> (r: Authority)
        ensures
            r@ == self@,
    {
        Authority { bytes: clone_bytes(&self.bytes) }
    }

    /// Whether two authorities are the same.
    pub fn same_as(&self, other: &Authority) -> (r: bool)
        ensures
            r == (self@ == other@),
    {
        bytes_equal(&self.bytes, &other.bytes)
    }
}

impl PartialEq for Authority {
    fn eq(&self, other: &Authority) -> (r: bool) {
        self.same_as(other)
    }
}

impl vstd::std_specs::cmp::PartialEqSpecImpl for Authority {
    open spec fn obeys_eq_spec() -> bool {
        true
    }

    open spec fn eq_spec(&self, other: &Authority) -> bool {
        self@ == other@
    }
}

impl Eq for Authority {
}

/// Authority of a local-socket target together with its exact path.
#[derive(Debug, Clone, Hash)]
pub struct AuthorityWithPath {
    authority: Authority,
    path_and_query: Vec<u8>,
}

impl View for AuthorityWithPath {
    type V = (Seq<u8>, Seq<u8>);

    closed spec fn view(&self) -> (Seq<u8>, Seq<u8>) {
        (self.authority@, self.path_and_query@)
    }
}

impl AuthorityWithPath {
    /// The authority, in any case, with a path that is kept byte for byte.
    pub fn new(authority: &Vec<u8>, path_and_query: &Vec<u8>) -> (r: AuthorityWithPath)
        ensures
            r@ == (ascii_lower(authority@), path_and_query@),
    {
        AuthorityWithPath { authority: Authority::new(authority), path_and_query: clone_bytes(path_and_query) }
    }

    pub fn authority(&self) -> (r: &Authority)
        ensures
            r@ == self@.0,
    {
        &self.authority
    }

    pub fn path_and_query(&self) -> (r: &Vec<u8>)
        ensures
            r@ == self@.1,
    {
        &self.path_and_query
    }

    /// A copy.
    pub fn duplicate(&self) -> (r: AuthorityWithPath)
        ensures
            r@ == self@,
    {
        AuthorityWithPath { authority: self.authority.duplicate(), path_and_query: clone_bytes(&self.path_and_query) }
    }
}

/// The key under which idle connections are pooled.
#[derive(Debug, Clone, Hash)]
pub enum ConnectionKey {
    /// A TCP target, plain or encrypted, by its authority.
    Regular(Scheme, Authority),
    /// A local-socket target: authority and path.
    Unix(AuthorityWithPath),
}

/// The mathematical value of a [`ConnectionKey`].
pub ghost enum KeyModel {
    Regular(Scheme, Seq<u8>),
    Unix(Seq<u8>, Seq<u8>),
}

impl View for ConnectionKey {
    type V = KeyModel;

    open spec fn view(&self) -> KeyModel {
        match self {
            ConnectionKey::Regular(s, a) => KeyModel::Regular(*s, a@),
            ConnectionKey::Unix(ap) => KeyModel::Unix(ap@.0, ap@.1),
        }
    }
}

/// The key that a target is pooled under.
pub open spec fn key_spec(t: TargetModel) -> KeyModel {
    match t.scheme {
        Scheme::Local => KeyModel::Unix(ascii_lower(t.authority), t.path),
        _ => KeyModel::Regular(t.scheme, ascii_lower(t.authority)),
    }
}

/// Two targets denote the same endpoint: same scheme, the same authority
/// but for ASCII case and, for local sockets, the same path byte for byte.
pub open spec fn same_target(a: TargetModel, b: TargetModel) -> bool {
    &&& a.scheme == b.scheme
    &&& ascii_lower(a.authority) == ascii_lower(b.authority)
    &&& (a.scheme == Scheme::Local ==> a.path == b.path)
}

/// Two targets share a pool key exactly when they denote the same endpoint.
pub proof fn lemma_key_identity(a: TargetModel, b: TargetModel)
    ensures
        (key_spec(a) == key_spec(b)) <==> same_target(a, b),
{
}

fn clone_bytes(v: &Vec<u8>) -> (r: Vec<u8>)
    ensures
        r@ == v@,
{
    let mut r: Vec<u8> = Vec::new();
    let mut i: usize = 0;
    while i < v.len()
        invariant
            i <= v.len(),
            r@ == v@.subrange(0, i as int),
        decreases v.len() - i,
    {
        r.push(v[i]);
        i = i + 1;
        assert(r@ =~= v@.subrange(0, i as int));
    }
    assert(r@ =~= v@);
    r
}

/// Byte-wise equality of two byte strings.
pub fn bytes_equal(a: &Vec<u8>, b: &Vec<u8>) -> (r: bool)
    ensures
        r == (a@ == b@),
{
    if a.len() != b.len() {
        return false;
    }
    let mut i: usize = 0;
    while i < a.len()
        invariant
            i <= a.len(),
            a.len() == b.len(),
            a@.subrange(0, i as int) == b@.subrange(0, i as int),
        decreases a.len() - i,
    {
        if a[i] != b[i] {
            assert(a@[i as int] != b@[i as int]);
            return false;
        }
        assert(a@.subrange(0, i + 1) =~= a@.subrange(0, i as int).push(a@[i as int]));
        assert(b@.subrange(0, i + 1) =~= b@.subrange(0, i as int).push(b@[i as int]));
        i = i + 1;
    }
    assert(a@ =~= a@.subrange(0, a.len() as int));
    assert(b@ =~= b@.subrange(0, b.len() as int));
    true
}

/// Computes the pool key of a target.
pub fn key_for(t: &Target) -> (r: ConnectionKey)
    ensures
        r@ == key_spec(t@),
{
    match t.scheme {
        Scheme::Local => ConnectionKey::Unix(AuthorityWithPath::new(&t.authority, &t.path)),
        _ => ConnectionKey::Regular(t.scheme, Authority::new(&t.authority)),
    }
}

impl ConnectionKey {
    /// Whether two keys are equal.
    pub fn same_as(&self, other: &ConnectionKey) -> (r: bool)
        ensures
            r == (self@ == other@),
    {
        match (self, other) {
            (ConnectionKey::Regular(s1, a1), ConnectionKey::Regular(s2, a2)) => {
                *s1 == *s2 && a1.same_as(a2)
            },
            (ConnectionKey::Unix(p1), ConnectionKey::Unix(p2)) => {
                p1.authority.same_as(&p2.authority) && bytes_equal(
                    &p1.path_and_query,
                    &p2.path_and_query,
                )
            },
            _ => false,
        }
    }

    /// A copy of the key.
    pub fn duplicate(&self) -> (r: ConnectionKey)
        ensures
            r@ == self@,
    {
        match self {
            ConnectionKey::Regular(s, a) => ConnectionKey::Regular(*s, a.duplicate()),
            ConnectionKey::Unix(p) => ConnectionKey::Unix(p.duplicate()),
        }
    }
}

impl PartialEq for ConnectionKey {
    fn eq(&self, other: &ConnectionKey) -> (r: bool) {
        self.same_as(other)
    }
}

impl vstd::std_specs::cmp::PartialEqSpecImpl for ConnectionKey {
    open spec fn obeys_eq_spec() -> bool {
        true
    }

    open spec fn eq_spec(&self, other: &ConnectionKey) -> bool {
        self@ == other@
    }
}

impl Eq for ConnectionKey {
}

impl PartialEq for AuthorityWithPath {
    fn eq(&self, other: &AuthorityWithPath) -> (r: bool) {
        self.authority.same_as(&other.authority) && bytes_equal(
            &self.path_and_query,
            &other.path_and_query,
        )
    }
}

impl vstd::std_specs::cmp::PartialEqSpecImpl for AuthorityWithPath {
    open spec fn obeys_eq_spec() -> bool {
        true
    }

    open spec fn eq_spec(&self, other: &AuthorityWithPath) -> bool {
        self@ == other@
    }
}

impl Eq for AuthorityWithPath {
}

/// Failure of a byte-stream operation on a transport.
#[derive(Clone, Copy, Debug, PartialEq, Eq, Structural)]
pub enum TransportError {
    /// The transport is a multiplexed handle, which has no byte stream.
    Unsupported,
}

/// A pooled transport. Each variant carries the handle under which the
/// runtime layer owns the underlying stream.
#[derive(Clone, Copy, Debug, PartialEq, Eq, Hash, Structural)]
pub enum Connection {
    Tcp(u64),
    Tls(u64),
    Unix(u64),
    /// A multiplexed (HTTP/2) sender handle.
    H2(u64),
}

impl Connection {
    /// The runtime handle of the underlying stream.
    pub open spec fn handle_spec(&self) -> u64 {
        match self {
            Connection::Tcp(h) => *h,
            Connection::Tls(h) => *h,
            Connection::Unix(h) => *h,
            Connection::H2(h) => *h,
        }
    }

    pub fn handle(&self) -> (r: u64)
        ensures
            r == self.handle_spec(),
    {
        match self {
            Connection::Tcp(h) => *h,
            Connection::Tls(h) => *h,
            Connection::Unix(h) => *h,
            Connection::H2(h) => *h,
        }
    }

    /// Admits a byte-stream operation (read, write, vectored write, flush,
    /// shutdown). A multiplexed handle refuses every one of them.
    pub fn byte_stream(&self) -> (r: Result<u64, TransportError>)
        ensures
            match self {
                Connection::H2(_) => r == Err::<u64, TransportError>(TransportError::Unsupported),
                _ => r == Ok::<u64, TransportError>(self.handle_spec()),
            },
    {
        match self {
            Connection::H2(_) => Err(TransportError::Unsupported),
            _ => Ok(self.handle()),
        }
    }
}

} // verus!
