use vstd::prelude::*;
use crate::connection::{Connection, ConnectionKey, KeyModel};

verus! {

/// Index of the most recently returned idle entry under `k`, or -1.
pub open spec fn last_key_index(s: Seq<(KeyModel, Connection)>, k: KeyModel) -> int
    decreases s.len(),
{
    if s.len() == 0 {
        -1
    } else if s.last().0 == k {
        s.len() - 1
    } else {
        last_key_index(s.drop_last(), k)
    }
}

/// Some idle entry carries the stream handle `h`.
pub open spec fn holds_handle(s: Seq<(KeyModel, Connection)>, h: u64) -> bool {
    exists|i: int| 0 <= i < s.len() && (#[trigger] s[i]).1.handle_spec() == h
}

/// No stream handle is idle twice.
pub open spec fn handles_distinct(s: Seq<(KeyModel, Connection)>) -> bool {
    forall|i: int, j: int|
        0 <= i < j < s.len() ==> (#[trigger] s[i]).1.handle_spec() != (#[trigger] s[j]).1.handle_spec()
}

/// The entries of a pool after `c` was returned under `k`.
pub open spec fn returned(s: Seq<(KeyModel, Connection)>, k: KeyModel, c: Connection) -> Seq<
    (KeyModel, Connection),
> {
    s.push((k, c))
}

/// `last_key_index` names an entry under `k` after which no entry is under
/// `k`, and is -1 exactly when no entry is under `k`.
pub proof fn lemma_last_key_index_bounds(s: Seq<(KeyModel, Connection)>, k: KeyModel)
    ensures
        -1 <= last_key_index(s, k) < s.len(),
        last_key_index(s, k) >= 0 ==> s[last_key_index(s, k)].0 == k,
        last_key_index(s, k) == -1 <==> (forall|i: int| 0 <= i < s.len() ==> (#[trigger] s[i]).0 != k),
        forall|j: int| last_key_index(s, k) < j < s.len() ==> (#[trigger] s[j]).0 != k,
    decreases s.len(),
{
    if s.len() > 0 {
        if s.last().0 == k {
            assert(s[s.len() - 1].0 == k);
        } else {
            let t = s.drop_last();
            lemma_last_key_index_bounds(t, k);
            assert forall|i: int| 0 <= i < t.len() implies s[i] == #[trigger] t[i] by {}
            if last_key_index(s, k) >= 0 {
                assert(s[last_key_index(s, k)] == t[last_key_index(s, k)]);
            } else {
                assert forall|i: int| 0 <= i < s.len() implies (#[trigger] s[i]).0 != k by {
                    if i < t.len() {
                        assert(s[i] == t[i]);
                    }
                }
            }
            assert forall|j: int| last_key_index(s, k) < j < s.len() implies (#[trigger] s[j]).0 != k by {
                if j < t.len() {
                    assert(s[j] == t[j]);
                }
            }
        }
    }
}

/// Returning a transport that is idle nowhere keeps the pool exclusive.
pub proof fn lemma_returned_distinct(s: Seq<(KeyModel, Connection)>, k: KeyModel, c: Connection)
    requires
        handles_distinct(s),
        !holds_handle(s, c.handle_spec()),
    ensures
        handles_distinct(returned(s, k, c)),
{
    let r = returned(s, k, c);
    assert forall|a: int, b: int| 0 <= a < b < r.len() implies
        (#[trigger] r[a]).1.handle_spec() != (#[trigger] r[b]).1.handle_spec() by {
        assert(r[a] == s[a]);
        if b < s.len() {
            assert(r[b] == s[b]);
        }
    }
}

/// Returning a transport that is idle nowhere (one just leased, say) and
/// then leasing under the same key hands that very transport back, and the
/// idle entries are again what they were before the return: in particular
/// none is left under the key if none was there before.
pub proof fn lemma_return_then_lease(s: Seq<(KeyModel, Connection)>, k: KeyModel, c: Connection)
    requires
        handles_distinct(s),
        !holds_handle(s, c.handle_spec()),
    ensures
        handles_distinct(returned(s, k, c)),
        last_key_index(returned(s, k, c), k) == s.len(),
        returned(s, k, c)[s.len() as int].1 == c,
        returned(s, k, c).remove(s.len() as int) == s,
        last_key_index(s, k) == -1 ==> last_key_index(returned(s, k, c).remove(s.len() as int), k)
            == -1,
{
    lemma_returned_distinct(s, k, c);
    assert(returned(s, k, c).drop_last() =~= s);
    assert(returned(s, k, c).remove(s.len() as int) =~= s);
}

/// Two distinct transports returned under one key come back in reverse
/// order: the later one first, then the earlier one, and the idle entries
/// are then what they were before both returns.
pub proof fn lemma_two_returns_lease_in_reverse(
    s: Seq<(KeyModel, Connection)>,
    k: KeyModel,
    c1: Connection,
    c2: Connection,
)
    requires
        handles_distinct(s),
        !holds_handle(s, c1.handle_spec()),
        !holds_handle(s, c2.handle_spec()),
        c1.handle_spec() != c2.handle_spec(),
    ensures
        ({
            let s1 = returned(s, k, c1);
            let s2 = returned(s1, k, c2);
            &&& handles_distinct(s2)
            &&& last_key_index(s2, k) == s1.len()
            &&& s2[s1.len() as int].1 == c2
            &&& s2.remove(s1.len() as int) == s1
            &&& last_key_index(s1, k) == s.len()
            &&& s1[s.len() as int].1 == c1
            &&& s1.remove(s.len() as int) == s
        }),
{
    let s1 = returned(s, k, c1);
    lemma_return_then_lease(s, k, c1);
    if holds_handle(s1, c2.handle_spec()) {
        let w = choose|w: int| 0 <= w < s1.len() && (#[trigger] s1[w]).1.handle_spec() == c2.handle_spec();
        if w < s.len() {
            assert(s1[w] == s[w]);
        }
    }
    lemma_return_then_lease(s1, k, c2);
}

/// A transport leased out of an exclusive pool is idle nowhere while it is
/// lent, and returning it, under any key, leaves it idle exactly once.
pub proof fn lemma_lease_then_return_exclusive(s: Seq<(KeyModel, Connection)>, k: KeyModel, k2: KeyModel)
    requires
        handles_distinct(s),
        last_key_index(s, k) >= 0,
    ensures
        ({
            let i = last_key_index(s, k);
            let c = s[i].1;
            let rest = s.remove(i);
            &&& handles_distinct(rest)
            &&& !holds_handle(rest, c.handle_spec())
            &&& handles_distinct(returned(rest, k2, c))
        }),
{
    lemma_last_key_index_bounds(s, k);
    let i = last_key_index(s, k);
    let c = s[i].1;
    let rest = s.remove(i);
    assert forall|a: int, b: int| 0 <= a < b < rest.len() implies
        (#[trigger] rest[a]).1.handle_spec() != (#[trigger] rest[b]).1.handle_spec() by {
        let a2 = if a < i { a } else { a + 1 };
        let b2 = if b < i { b } else { b + 1 };
        assert(rest[a] == s[a2]);
        assert(rest[b] == s[b2]);
    }
    if holds_handle(rest, c.handle_spec()) {
        let w = choose|w: int| 0 <= w < rest.len() && (#[trigger] rest[w]).1.handle_spec() == c.handle_spec();
        let w2 = if w < i { w } else { w + 1 };
        assert(rest[w] == s[w2]);
    }
    lemma_returned_distinct(rest, k2, c);
}

/// Idle transports, each under the key of the target it reaches, in the
/// order in which they were returned.
pub struct Pool {
    entries: Vec<(ConnectionKey, Connection)>,
}

impl View for Pool {
    type V = Seq<(KeyModel, Connection)>;

    closed spec fn view(&self) -> Seq<(KeyModel, Connection)> {
        self.entries@.map_values(|e: (ConnectionKey, Connection)| (e.0@, e.1))
    }
}

impl Pool {
    /// A transport is idle at most once, so it can be neither in two idle
    /// sets nor idle and lent out at the same time.
    pub open spec fn wf(&self) -> bool {
        handles_distinct(self@)
    }

    /// An empty pool.
    pub fn new() -> (r: Pool)
        ensures
            r@ == Seq::<(KeyModel, Connection)>::empty(),
            r.wf(),
    {
        Pool { entries: Vec::new() }
    }

    /// Number of idle transports over all keys.
    pub fn len(&self) -> (r: usize)
        ensures
            r == self@.len(),
    {
        self.entries.len()
    }

    /// Whether some transport is idle under `key`.
    pub fn has_idle(&self, key: &ConnectionKey) -> (r: bool)
        ensures
            r == (last_key_index(self@, key@) >= 0),
    {
        let mut i: usize = 0;
        while i < self.entries.len()
            invariant
                i <= self.entries.len(),
                self@.len() == self.entries@.len(),
                forall|j: int| 0 <= j < i ==> (#[trigger] self@[j]).0 != key@,
            decreases self.entries.len() - i,
        {
            assert(self@[i as int] == (self.entries@[i as int].0@, self.entries@[i as int].1));
            if self.entries[i].0.same_as(key) {
                proof {
                    lemma_last_key_index_bounds(self@, key@);
                }
                return true;
            }
            i = i + 1;
        }
        proof {
            lemma_last_key_index_bounds(self@, key@);
        }
        false
    }

    /// Whether a transport with stream handle `h` is idle.
    pub fn holds(&self, h: u64) -> (r: bool)
        ensures
            r == holds_handle(self@, h),
    {
        let mut i: usize = 0;
        while i < self.entries.len()
            invariant
                i <= self.entries.len(),
                self@.len() == self.entries@.len(),
                forall|j: int| 0 <= j < i ==> (#[trigger] self@[j]).1.handle_spec() != h,
            decreases self.entries.len() - i,
        {
            assert(self@[i as int] == (self.entries@[i as int].0@, self.entries@[i as int].1));
            if self.entries[i].1.handle() == h {
                assert(self@[i as int].1.handle_spec() == h);
                return true;
            }
            i = i + 1;
        }
        false
    }

    /// Takes the most recently returned idle transport under `key`, if any.
    /// `None` tells the caller to establish a fresh transport.
    pub fn lease(&mut self, key: &ConnectionKey) -> (r: Option<Connection>)
        requires
            old(self).wf(),
        ensures
            final(self).wf(),
            match r {
                Some(c) => {
                    let i = last_key_index(old(self)@, key@);
                    &&& 0 <= i < old(self)@.len()
                    &&& c == old(self)@[i].1
                    &&& final(self)@ == old(self)@.remove(i)
                    &&& !holds_handle(final(self)@, c.handle_spec())
                },
                None => last_key_index(old(self)@, key@) == -1 && final(self)@ == old(self)@,
            },
    {
        let ghost s = self@;
        let mut i: usize = self.entries.len();
        while i > 0
            invariant
                i <= self.entries.len(),
                self@ == s,
                s == old(self)@,
                handles_distinct(s),
                s.len() == self.entries@.len(),
                forall|j: int| i <= j < s.len() ==> (#[trigger] s[j]).0 != key@,
            decreases i,
        {
            assert(s[i - 1] == (self.entries@[i - 1].0@, self.entries@[i - 1].1));
            if self.entries[i - 1].0.same_as(key) {
                let ghost idx = (i - 1) as int;
                proof {
                    lemma_last_key_index_bounds(s, key@);
                    assert(s[idx].0 == key@);
                    let lki = last_key_index(s, key@);
                    if lki < idx {
                        assert(s[idx].0 != key@);
                    }
                    if lki > idx {
                        assert(s[lki].0 == key@);
                    }
                }
                let e = self.entries.remove(i - 1);
                proof {
                    assert(self@ =~= s.remove(idx));
                    assert forall|a: int, b: int| 0 <= a < b < self@.len() implies
                        (#[trigger] self@[a]).1.handle_spec() != (#[trigger] self@[b]).1.handle_spec() by {
                        let a2 = if a < idx { a } else { a + 1 };
                        let b2 = if b < idx { b } else { b + 1 };
                        assert(self@[a] == s[a2]);
                        assert(self@[b] == s[b2]);
                    }
                    if holds_handle(self@, e.1.handle_spec()) {
                        let w = choose|w: int| 0 <= w < self@.len() && (#[trigger] self@[w]).1.handle_spec() == e.1.handle_spec();
                        let w2 = if w < idx { w } else { w + 1 };
                        assert(self@[w] == s[w2]);
                        assert(s[idx].1 == e.1);
                    }
                }
                return Some(e.1);
            }
            i = i - 1;
        }
        proof {
            lemma_last_key_index_bounds(s, key@);
        }
        None
    }

    /// Puts a transport back as idle under `key`. A transport that is idle
    /// already is refused and handed back.
    pub fn return_idle(&mut self, key: ConnectionKey, conn: Connection) -> (r: Result<(), Connection>)
        requires
            old(self).wf(),
        ensures
            final(self).wf(),
            r is Ok <==> !holds_handle(old(self)@, conn.handle_spec()),
            r is Ok ==> final(self)@ == returned(old(self)@, key@, conn),
            r is Err ==> final(self)@ == old(self)@ && r == Err::<(), Connection>(conn),
    {
        if self.holds(conn.handle()) {
            return Err(conn);
        }
        let ghost s = self@;
        let ghost k = key@;
        self.entries.push((key, conn));
        proof {
            assert(self@ =~= returned(s, k, conn));
            lemma_returned_distinct(s, k, conn);
        }
        Ok(())
    }
}

/// A transport lent out of the pool, with the key it goes back under and
/// whether it must be closed rather than returned.
pub struct Conn {
    pub key: ConnectionKey,
    pub conn: Connection,
    pub destroy: bool,
}

impl Conn {
    pub open spec fn destroy_spec(&self) -> bool {
        self.destroy
    }

    /// A freshly lent transport, to be returned when released.
    pub fn new(key: ConnectionKey, conn: Connection) -> (r: Conn)
        ensures
            r.key@ == key@,
            r.conn == conn,
            !r.destroy_spec(),
    {
        Conn { key, conn, destroy: false }
    }

    /// Marks the transport to be closed instead of returned.
    pub fn destroy_on_drop(&mut self)
        ensures
            final(self).destroy_spec(),
            final(self).key@ == old(self).key@,
            final(self).conn == old(self).conn,
    {
        self.destroy = true;
    }

    /// Whether the transport is marked to be closed.
    pub fn is_destroy_on_drop(&self) -> (r: bool)
        ensures
            r == self.destroy_spec(),
    {
        self.destroy
    }
}

impl Pool {
    /// Ends a lease. The transport goes back under its key unless it was
    /// marked to be closed or is idle already; then it is handed back to be
    /// closed and the pool is unchanged.
    pub fn release(&mut self, c: Conn) -> (r: Option<Connection>)
        requires
            old(self).wf(),
        ensures
            final(self).wf(),
            (c.destroy_spec() || holds_handle(old(self)@, c.conn.handle_spec())) ==> (r == Some(
                c.conn,
            ) && final(self)@ == old(self)@),
            !(c.destroy_spec() || holds_handle(old(self)@, c.conn.handle_spec())) ==> (r is None
                && final(self)@ == returned(old(self)@, c.key@, c.conn)),
    {
        if c.destroy {
            return Some(c.conn);
        }
        match self.return_idle(c.key, c.conn) {
            Ok(()) => None,
            Err(conn) => Some(conn),
        }
    }
}

} // verus!
