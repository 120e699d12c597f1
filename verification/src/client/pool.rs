//! Connections of a client to one peer.
use vstd::prelude::*;

use crate::client::Scheme;
use crate::connection::{view, Connection};

verus! {

/// Limits of a pool, and the parameters of its connections.
#[derive(Debug, Copy, Clone, PartialEq, Eq, Structural)]
pub struct ClientBuilder {
    pub minconn: usize,
    pub maxconn: usize,
    /// Milliseconds that a connection may take to be established
    pub conn_timeout: u32,
    /// Seconds that a connection is used for, or zero
    pub conn_lifetime: u16,
    /// Milliseconds that a connection may take to be closed
    pub disconnect_timeout: u32,
    pub max_streams: u32,
    pub skip_unknown_streams: bool,
    pub scheme: Scheme,
}

impl ClientBuilder {
    pub fn new() -> (r: ClientBuilder)
        ensures
            r == (ClientBuilder {
                minconn: 1,
                maxconn: 16,
                conn_timeout: 1_000,
                conn_lifetime: 0,
                disconnect_timeout: 15_000,
                max_streams: 100,
                skip_unknown_streams: false,
                scheme: Scheme::Http,
            }),
    {
        ClientBuilder {
            minconn: 1,
            maxconn: 16,
            conn_timeout: 1_000,
            conn_lifetime: 0,
            disconnect_timeout: 15_000,
            max_streams: 100,
            skip_unknown_streams: false,
            scheme: Scheme::Http,
        }
    }

    /// Set client's connection scheme
    pub fn scheme(self, scheme: Scheme) -> (r: ClientBuilder)
        ensures
            r == (ClientBuilder { scheme, ..self }),
    {
        let mut b = self;
        b.scheme = scheme;
        b
    }

    /// Set total number of simultaneous streams per connection.
    ///
    /// If limit is 0, the connector uses "MAX_CONCURRENT_STREAMS" config from connection
    /// settings.
    /// The default limit size is 100.
    pub fn max_streams(self, limit: u32) -> (r: ClientBuilder)
        ensures
            r == (ClientBuilder { max_streams: limit, ..self }),
    {
        let mut b = self;
        b.max_streams = limit;
        b
    }

    /// Do not return error for frames for unknown streams.
    ///
    /// This includes pending resets, data and window update frames.
    pub fn skip_unknown_streams(self) -> (r: ClientBuilder)
        ensures
            r == (ClientBuilder { skip_unknown_streams: true, ..self }),
    {
        let mut b = self;
        b.skip_unknown_streams = true;
        b
    }

    /// Set max lifetime period for connection, in seconds.
    ///
    /// Connection lifetime is max lifetime of any opened connection
    /// until it is closed regardless of keep-alive period.
    ///
    /// Default lifetime period is not set.
    pub fn lifetime(self, dur: u16) -> (r: ClientBuilder)
        ensures
            r == (ClientBuilder { conn_lifetime: dur, ..self }),
    {
        let mut b = self;
        b.conn_lifetime = dur;
        b
    }

    /// Sets the minimum concurrent connections.
    ///
    /// By default min connections is set to a 1.
    pub fn minconn(self, num: usize) -> (r: ClientBuilder)
        ensures
            r == (ClientBuilder { minconn: num, ..self }),
    {
        let mut b = self;
        b.minconn = num;
        b
    }

    /// Sets the maximum concurrent connections.
    ///
    /// By default max connections is set to a 16.
    pub fn maxconn(self, num: usize) -> (r: ClientBuilder)
        ensures
            r == (ClientBuilder { maxconn: num, ..self }),
    {
        let mut b = self;
        b.maxconn = num;
        b
    }

    /// Finish configuration process and create connections pool.
    pub fn build(self) -> (r: Client)
        ensures
            r@ == (ClientView {
                config: self,
                connecting: false,
                connections: Seq::empty(),
                total_connections: 0,
                connect_errors: 0,
                waiters: Seq::empty(),
            }),
    {
        Client {
            config: self,
            connecting: false,
            connections: Vec::new(),
            total_connections: 0,
            connect_errors: 0,
            waiters: Vec::new(),
        }
    }
}

/// What a pool looks at in a connection.
#[derive(Debug, Copy, Clone, PartialEq, Eq, Structural)]
pub struct ClientStat {
    pub closed: bool,
    pub disconnecting: bool,
    /// Seconds since the connection was established
    pub age: u32,
    pub max_streams: Option<u32>,
    pub active_streams: u32,
    pub ready: bool,
}

impl ClientStat {
    pub fn of(con: &Connection, age: u32) -> (r: ClientStat)
        ensures
            r == (ClientStat {
                closed: con@.state.closed,
                disconnecting: !con@.state.closed && con@.state.flags.disconnect_when_ready,
                age,
                max_streams: con@.state.local_max_concurrent_streams,
                active_streams: con@.state.active_local_streams,
                ready: con@.can_create(),
            }),
    {
        ClientStat {
            closed: con.is_closed(),
            disconnecting: con.is_disconnecting(),
            age,
            max_streams: con.max_streams(),
            active_streams: con.active_streams(),
            ready: con.can_create_new_stream(),
        }
    }

    /// The lifetime of the connection is over, where there is one.
    pub open spec fn expired(self, lifetime: u16) -> bool {
        lifetime != 0 && self.age >= lifetime
    }

    /// The connection is to be closed gracefully.
    pub open spec fn leaves(self, lifetime: u16) -> bool {
        !self.closed && (self.disconnecting || self.expired(lifetime))
    }

    /// The connection can be used.
    pub open spec fn usable(self, lifetime: u16) -> bool {
        !self.closed && !self.leaves(lifetime)
    }

    /// The number of simultaneous streams: what the peer has set, and no more
    /// than the limit of the pool, unless that is 0.
    pub open spec fn limit(self, max_streams: u32) -> u32 {
        match self.max_streams {
            Some(max) => if max_streams == 0 || max < max_streams {
                max
            } else {
                max_streams
            },
            None => max_streams,
        }
    }

    /// No more than half of the streams are in use.
    pub open spec fn relaxed(self, max_streams: u32) -> bool {
        self.active_streams <= self.limit(max_streams) / 2
    }

    /// One more stream is within the limits.
    pub open spec fn accepts(self, max_streams: u32) -> bool {
        self.ready && (max_streams == 0 || self.active_streams < max_streams)
    }
}

/// Manages http client network connectivity.
#[derive(Debug)]
pub struct Client {
    pub config: ClientBuilder,
    /// A connection is being established
    pub connecting: bool,
    /// The keys of the connections, oldest first
    pub connections: Vec<u64>,
    pub total_connections: usize,
    pub connect_errors: usize,
    /// The keys of the tasks that wait for a connection
    pub waiters: Vec<u64>,
}

#[verifier::ext_equal]
pub struct ClientView {
    pub config: ClientBuilder,
    pub connecting: bool,
    pub connections: Seq<u64>,
    pub total_connections: usize,
    pub connect_errors: usize,
    pub waiters: Seq<u64>,
}

impl View for Client {
    type V = ClientView;

    open spec fn view(&self) -> ClientView {
        ClientView {
            config: self.config,
            connecting: self.connecting,
            connections: self.connections@,
            total_connections: self.total_connections,
            connect_errors: self.connect_errors,
            waiters: self.waiters@,
        }
    }
}

/// The keys of the connections of which `keep` holds, in their order.
pub open spec fn select(
    keys: Seq<u64>,
    stats: Seq<ClientStat>,
    keep: spec_fn(ClientStat) -> bool,
) -> Seq<u64>
    decreases keys.len(),
{
    if keys.len() == 0 {
        Seq::empty()
    } else {
        let n = keys.len() - 1;
        let rest = select(keys.drop_last(), stats, keep);
        if keep(stats[n]) {
            rest.push(keys[n])
        } else {
            rest
        }
    }
}

impl ClientView {
    /// The connections that can be used.
    pub open spec fn usable(self, stats: Seq<ClientStat>) -> Seq<u64> {
        let life = self.config.conn_lifetime;
        select(self.connections, stats, |s: ClientStat| s.usable(life))
    }

    /// The connections that are to be closed gracefully.
    pub open spec fn leaving(self, stats: Seq<ClientStat>) -> Seq<u64> {
        let life = self.config.conn_lifetime;
        select(self.connections, stats, |s: ClientStat| s.leaves(life))
    }

    /// The usable connections with no more than half of their streams in use.
    pub open spec fn relaxed(self, stats: Seq<ClientStat>) -> Seq<u64> {
        let life = self.config.conn_lifetime;
        let max = self.config.max_streams;
        select(self.connections, stats, |s: ClientStat| s.usable(life) && s.relaxed(max))
    }

    /// The usable connections that accept one more stream.
    pub open spec fn available(self, stats: Seq<ClientStat>) -> Seq<u64> {
        let life = self.config.conn_lifetime;
        let max = self.config.max_streams;
        select(self.connections, stats, |s: ClientStat| s.usable(life) && s.accepts(max))
    }

    /// Which connection is used next, where one of the available ones is drawn by
    /// lot: the first one with no more than half of its streams in use, or else
    /// the one that was drawn. No connection is used until there are enough.
    pub open spec fn chosen(self, stats: Seq<ClientStat>, lot: int) -> Option<u64> {
        if self.usable(stats).len() < self.config.minconn {
            None
        } else if self.relaxed(stats).len() > 0 {
            Some(self.relaxed(stats)[0])
        } else if self.available(stats).len() > 0 {
            Some(self.available(stats)[lot])
        } else {
            None
        }
    }

    /// One more connection may be established.
    pub open spec fn may_connect(self, num: int) -> bool {
        !self.connecting && (num < self.config.maxconn || num < self.config.minconn)
    }
}

/// `nanorand::Rng::generate_range` of a new `nanorand::WyRand`: some number below
/// `n`. Which one is left to chance.
#[verifier::external_body]
fn random_below(n: usize) -> (r: usize)
    requires
        n > 0,
    ensures
        r < n,
{
    nanorand::Rng::generate_range(&mut nanorand::WyRand::new(), 0_usize..n)
}

/// The connection that a pool has chosen.
#[derive(Debug)]
pub struct Picked {
    pub client: Option<u64>,
    /// The number of usable connections
    pub num: usize,
    /// The connections that are to be closed gracefully
    pub leaving: Vec<u64>,
}

/// What a task has to do for a connection.
#[derive(Debug, Copy, Clone, PartialEq, Eq, Structural)]
pub enum ConnectStep {
    /// Establish a connection, and go on with `connected`.
    Create,
    /// Wait until the task is notified.
    Wait,
}

impl Client {
    fn is_leaving(&self, stat: &ClientStat) -> (r: bool)
        ensures
            r == stat.leaves(self@.config.conn_lifetime),
    {
        let life: u16 = self.config.conn_lifetime;
        !stat.closed && (stat.disconnecting || (life != 0 && stat.age >= life as u32))
    }

    fn is_relaxed(&self, stat: &ClientStat) -> (r: bool)
        ensures
            r == stat.relaxed(self@.config.max_streams),
    {
        let limit: u32 = self.config.max_streams;
        let max: u32 = match stat.max_streams {
            Some(max) => if limit == 0 || max < limit {
                max
            } else {
                limit
            },
            None => limit,
        };
        stat.active_streams <= max / 2
    }

    fn is_open(&self, stat: &ClientStat) -> (r: bool)
        ensures
            r == stat.accepts(self@.config.max_streams),
    {
        let limit: u32 = self.config.max_streams;
        stat.ready && (limit == 0 || stat.active_streams < limit)
    }

    /// Drops the connections that cannot be used any more, and chooses one of the
    /// others by the lot `lot`.
    pub fn choose_client(&mut self, stats: &Vec<ClientStat>, lot: usize) -> (r: Picked)
        requires
            stats@.len() == old(self)@.connections.len(),
            old(self)@.available(stats@).len() > 0 ==> lot < old(self)@.available(stats@).len(),
        ensures
            final(self)@ == (ClientView {
                connections: old(self)@.usable(stats@),
                ..old(self)@
            }),
            r.client == old(self)@.chosen(stats@, lot as int),
            r.num == old(self)@.usable(stats@).len(),
            r.leaving@ == old(self)@.leaving(stats@),
    {
        let ghost before = self@;
        let ghost life = self@.config.conn_lifetime;
        let ghost max = self@.config.max_streams;
        let ghost is_usable = |s: ClientStat| s.usable(life);
        let ghost is_leaving = |s: ClientStat| s.leaves(life);
        let ghost is_free = |s: ClientStat| s.usable(life) && s.relaxed(max);
        let ghost is_ready = |s: ClientStat| s.usable(life) && s.accepts(max);
        let mut usable: Vec<u64> = Vec::new();
        let mut leaving: Vec<u64> = Vec::new();
        let mut relaxed: Vec<u64> = Vec::new();
        let mut available: Vec<u64> = Vec::new();
        let mut i: usize = 0;
        assert(before.connections.take(0) =~= Seq::<u64>::empty());
        while i < self.connections.len()
            invariant
                i <= self@.connections.len(),
                stats@.len() == self@.connections.len(),
                self@ == before,
                life == self@.config.conn_lifetime,
                max == self@.config.max_streams,
                is_usable == |s: ClientStat| s.usable(life),
                is_leaving == |s: ClientStat| s.leaves(life),
                is_free == |s: ClientStat| s.usable(life) && s.relaxed(max),
                is_ready == |s: ClientStat| s.usable(life) && s.accepts(max),
                usable@ == select(before.connections.take(i as int), stats@, is_usable),
                leaving@ == select(before.connections.take(i as int), stats@, is_leaving),
                relaxed@ == select(before.connections.take(i as int), stats@, is_free),
                available@ == select(before.connections.take(i as int), stats@, is_ready),
            decreases self@.connections.len() - i,
        {
            let key: u64 = self.connections[i];
            let stat = stats[i];
            assert(before.connections.take(i + 1).drop_last() =~= before.connections.take(
                i as int,
            ));
            if !stat.closed {
                if self.is_leaving(&stat) {
                    leaving.push(key);
                } else {
                    usable.push(key);
                    // connections with less than 50% capacity usage
                    if self.is_relaxed(&stat) {
                        relaxed.push(key);
                    }
                    if self.is_open(&stat) {
                        available.push(key);
                    }
                }
            }
            i = i + 1;
        }
        assert(before.connections.take(i as int) =~= before.connections);
        let num: usize = usable.len();
        let client: Option<u64> = if num < self.config.minconn {
            // create new connection
            None
        } else if relaxed.len() > 0 {
            Some(relaxed[0])
        } else if available.len() > 0 {
            Some(available[lot])
        } else {
            None
        };
        self.connections = usable;
        Picked { client, num, leaving }
    }

    fn count_available(&self, stats: &Vec<ClientStat>) -> (r: usize)
        requires
            stats@.len() == self@.connections.len(),
        ensures
            r == self@.available(stats@).len(),
    {
        let ghost life = self@.config.conn_lifetime;
        let ghost max = self@.config.max_streams;
        let ghost is_ready = |s: ClientStat| s.usable(life) && s.accepts(max);
        let mut n: usize = 0;
        let mut i: usize = 0;
        assert(self@.connections.take(0) =~= Seq::<u64>::empty());
        while i < self.connections.len()
            invariant
                i <= self@.connections.len(),
                stats@.len() == self@.connections.len(),
                life == self@.config.conn_lifetime,
                max == self@.config.max_streams,
                is_ready == |s: ClientStat| s.usable(life) && s.accepts(max),
                n == select(self@.connections.take(i as int), stats@, is_ready).len(),
                n <= i,
            decreases self@.connections.len() - i,
        {
            assert(self@.connections.take(i + 1).drop_last() =~= self@.connections.take(
                i as int,
            ));
            let stat = stats[i];
            if !stat.closed && !self.is_leaving(&stat) && self.is_open(&stat) {
                n = n + 1;
            }
            i = i + 1;
        }
        assert(self@.connections.take(i as int) =~= self@.connections);
        n
    }

    /// Drops the connections that cannot be used any more, and chooses one of the
    /// others: the first one with no more than half of its streams in use, or
    /// else any one that accepts a stream.
    pub fn get_client(&mut self, stats: &Vec<ClientStat>) -> (r: Picked)
        requires
            stats@.len() == old(self)@.connections.len(),
        ensures
            final(self)@ == (ClientView {
                connections: old(self)@.usable(stats@),
                ..old(self)@
            }),
            r.num == old(self)@.usable(stats@).len(),
            r.leaving@ == old(self)@.leaving(stats@),
            exists|lot: int|
                (old(self)@.available(stats@).len() > 0 ==> 0 <= lot < old(self)@.available(
                    stats@,
                ).len()) && r.client == #[trigger] old(self)@.chosen(stats@, lot),
    {
        let n: usize = self.count_available(stats);
        let lot: usize = if n > 0 {
            random_below(n)
        } else {
            0
        };
        self.choose_client(stats, lot)
    }

    /// What a task has to do that found `num` connections and none to use.
    pub fn connect(&mut self, num: usize, waiter: u64) -> (r: ConnectStep)
        ensures
            if old(self)@.may_connect(num as int) {
                r == ConnectStep::Create && final(self)@ == (ClientView {
                    connecting: true,
                    ..old(self)@
                })
            } else {
                r == ConnectStep::Wait && final(self)@ == (ClientView {
                    waiters: old(self)@.waiters.push(waiter),
                    ..old(self)@
                })
            },
    {
        // can create new connection
        if !self.connecting && (num < self.config.maxconn || num < self.config.minconn) {
            // create new connection
            self.connecting = true;
            ConnectStep::Create
        } else {
            // wait for available connection
            self.waiters.push(waiter);
            ConnectStep::Wait
        }
    }

    /// A connection has been established, or has not. Returns the tasks that are
    /// to be woken up: all that wait.
    pub fn connected(&mut self, result: Result<u64, ()>) -> (r: Vec<u64>)
        requires
            old(self)@.total_connections < usize::MAX,
            old(self)@.connect_errors < usize::MAX,
        ensures
            r@ == old(self)@.waiters,
            final(self)@ == match result {
                Ok(key) => ClientView {
                    connecting: false,
                    connections: old(self)@.connections.push(key),
                    total_connections: (old(self)@.total_connections + 1) as usize,
                    waiters: Seq::empty(),
                    ..old(self)@
                },
                Err(_) => ClientView {
                    connecting: false,
                    connect_errors: (old(self)@.connect_errors + 1) as usize,
                    waiters: Seq::empty(),
                    ..old(self)@
                },
            },
    {
        match result {
            Ok(key) => {
                self.connections.push(key);
                self.total_connections = self.total_connections + 1;
            },
            Err(_) => {
                self.connect_errors = self.connect_errors + 1;
            },
        }
        self.connecting = false;
        let mut waiters: Vec<u64> = Vec::new();
        std::mem::swap(&mut waiters, &mut self.waiters);
        waiters
    }

    /// Notify one active waiter
    pub fn notify(&mut self) -> (r: Option<u64>)
        ensures
            if old(self)@.waiters.len() > 0 {
                r == Some(old(self)@.waiters[0]) && final(self)@ == (ClientView {
                    waiters: old(self)@.waiters.skip(1),
                    ..old(self)@
                })
            } else {
                r is None && final(self)@ == old(self)@
            },
    {
        if self.waiters.len() > 0 {
            let waiter: u64 = self.waiters.remove(0);
            assert(self.waiters@ =~= old(self)@.waiters.skip(1));
            Some(waiter)
        } else {
            None
        }
    }

    /// A task does not wait any more.
    pub fn cancel(&mut self, waiter: u64)
        ensures
            final(self)@ == (ClientView {
                waiters: view::waiters_without(old(self)@.waiters, waiter),
                ..old(self)@
            }),
    {
        let mut rest: Vec<u64> = Vec::new();
        let mut i: usize = 0;
        assert(self.waiters@.take(0) =~= Seq::<u64>::empty());
        while i < self.waiters.len()
            invariant
                i <= self.waiters@.len(),
                rest@ == view::waiters_without(self.waiters@.take(i as int), waiter),
            decreases self.waiters@.len() - i,
        {
            assert(self.waiters@.take(i + 1).drop_last() =~= self.waiters@.take(i as int));
            if self.waiters[i] != waiter {
                rest.push(self.waiters[i]);
            }
            i = i + 1;
        }
        assert(self.waiters@.take(i as int) =~= self.waiters@);
        self.waiters = rest;
    }

    /// Adds a task that waits until the pool is ready.
    pub fn wait(&mut self, waiter: u64)
        ensures
            final(self)@ == (ClientView {
                waiters: old(self)@.waiters.push(waiter),
                ..old(self)@
            }),
    {
        self.waiters.push(waiter);
    }

    /// Check if client is allowed to send new request
    ///
    /// Readiness depends on number of opened streams and max concurrency setting
    pub fn is_ready(&self, stats: &Vec<ClientStat>) -> (r: bool)
        ensures
            r == ((exists|i: int|
                0 <= i < stats@.len() && (#[trigger] stats@[i]).accepts(
                    self@.config.max_streams,
                )) || (!self@.connecting && self@.connections.len() < self@.config.maxconn)),
    {
        let mut i: usize = 0;
        while i < stats.len()
            invariant
                i <= stats@.len(),
                forall|k: int|
                    0 <= k < i ==> !(#[trigger] stats@[k]).accepts(self@.config.max_streams),
            decreases stats@.len() - i,
        {
            if self.is_open(&stats[i]) {
                return true;
            }
            i = i + 1;
        }
        !self.connecting && self.connections.len() < self.config.maxconn
    }

    pub fn stat_active_connections(&self) -> (r: usize)
        ensures
            r == self@.connections.len(),
    {
        self.connections.len()
    }

    pub fn stat_total_connections(&self) -> (r: usize)
        ensures
            r == self@.total_connections,
    {
        self.total_connections
    }

    pub fn stat_connect_errors(&self) -> (r: usize)
        ensures
            r == self@.connect_errors,
    {
        self.connect_errors
    }
}

// ===== Laws =====

/// The connection that is used next is one that can be used: it is neither closed
/// nor about to be nor past its lifetime, it is within the limit of streams, and there are as many
/// connections as the pool is to have.
pub proof fn chosen_is_usable(pool: ClientView, stats: Seq<ClientStat>, lot: int)
    requires
        stats.len() == pool.connections.len(),
        pool.available(stats).len() > 0 ==> 0 <= lot < pool.available(stats).len(),
    ensures
        pool.chosen(stats, lot) matches Some(key) ==> exists|i: int|
            0 <= i < stats.len() && #[trigger] pool.connections[i] == key && stats[i].usable(
                pool.config.conn_lifetime,
            ) && (
            stats[i].relaxed(pool.config.max_streams) || stats[i].ready) && (
            pool.config.max_streams > 0 ==> stats[i].active_streams < pool.config.max_streams),
        pool.chosen(stats, lot) is Some ==> pool.usable(stats).len() >= pool.config.minconn,
{
    let life = pool.config.conn_lifetime;
    let max = pool.config.max_streams;
    if pool.relaxed(stats).len() > 0 {
        selected(pool.connections, stats, |s: ClientStat| s.usable(life) && s.relaxed(max), 0);
    }
    if pool.available(stats).len() > 0 {
        selected(pool.connections, stats, |s: ClientStat| s.usable(life) && s.accepts(max), lot);
    }
}

/// A selected key is the key of a connection of which `keep` holds.
proof fn selected(
    keys: Seq<u64>,
    stats: Seq<ClientStat>,
    keep: spec_fn(ClientStat) -> bool,
    k: int,
)
    requires
        keys.len() <= stats.len(),
        0 <= k < select(keys, stats, keep).len(),
    ensures
        exists|i: int|
            0 <= i < keys.len() && #[trigger] keys[i] == select(keys, stats, keep)[k] && keep(
                stats[i],
            ),
    decreases keys.len(),
{
    let n = keys.len() - 1;
    let init = keys.drop_last();
    let prev = select(init, stats, keep);
    let next = select(keys, stats, keep);
    if k < prev.len() {
        selected(init, stats, keep, k);
        let i = choose|i: int|
            0 <= i < init.len() && #[trigger] init[i] == prev[k] && keep(stats[i]);
        assert(keys[i] == next[k]);
    } else {
        assert(keys[n] == next[k]);
    }
}

/// A connection of which `keep` holds is selected, and the first one of them is the first
/// that is selected.
proof fn selects_all(
    keys: Seq<u64>,
    stats: Seq<ClientStat>,
    keep: spec_fn(ClientStat) -> bool,
    i: int,
)
    requires
        keys.len() <= stats.len(),
        0 <= i < keys.len(),
        keep(stats[i]),
    ensures
        select(keys, stats, keep).len() > 0,
        (forall|j: int| 0 <= j < i ==> !keep(#[trigger] stats[j])) ==> select(
            keys,
            stats,
            keep,
        )[0] == keys[i],
    decreases keys.len(),
{
    let n = keys.len() - 1;
    let init = keys.drop_last();
    if i < n {
        selects_all(init, stats, keep, i);
    } else if forall|j: int| 0 <= j < i ==> !keep(#[trigger] stats[j]) {
        selects_none(init, stats, keep);
    }
}

proof fn selects_none(keys: Seq<u64>, stats: Seq<ClientStat>, keep: spec_fn(ClientStat) -> bool)
    requires
        keys.len() <= stats.len(),
        forall|j: int| 0 <= j < keys.len() ==> !keep(#[trigger] stats[j]),
    ensures
        select(keys, stats, keep).len() == 0,
    decreases keys.len(),
{
    if keys.len() > 0 {
        selects_none(keys.drop_last(), stats, keep);
        assert(!keep(stats[keys.len() - 1]));
    }
}

/// A connection that can still be used: it is open, is not about to be closed, and is
/// younger than connections may get.
pub open spec fn in_use(stat: ClientStat, lifetime: u16) -> bool {
    !stat.closed && !stat.disconnecting && (lifetime == 0 || stat.age < lifetime)
}

/// The first connection in use that is at most half full is chosen, if enough of them
/// are in use.
pub proof fn relaxed_is_chosen(pool: ClientView, stats: Seq<ClientStat>, lot: int, i: int)
    requires
        stats.len() == pool.connections.len(),
        pool.usable(stats).len() >= pool.config.minconn,
        0 <= i < stats.len(),
        in_use(stats[i], pool.config.conn_lifetime),
        stats[i].max_streams is None,
        2 * stats[i].active_streams <= pool.config.max_streams,
        forall|j: int|
            0 <= j < i ==> !(in_use(#[trigger] stats[j], pool.config.conn_lifetime)
                && stats[j].relaxed(pool.config.max_streams)),
    ensures
        pool.chosen(stats, lot) == Some(pool.connections[i]),
{
    let life = pool.config.conn_lifetime;
    let max = pool.config.max_streams;
    selects_all(
        pool.connections,
        stats,
        |s: ClientStat| s.usable(life) && s.relaxed(max),
        i,
    );
}

/// As long as a connection in use takes one more stream, and enough of them are in use,
/// a request gets a connection.
pub proof fn available_is_chosen(pool: ClientView, stats: Seq<ClientStat>, lot: int, i: int)
    requires
        stats.len() == pool.connections.len(),
        pool.usable(stats).len() >= pool.config.minconn,
        0 <= i < stats.len(),
        in_use(stats[i], pool.config.conn_lifetime),
        stats[i].ready,
        pool.config.max_streams == 0 || stats[i].active_streams < pool.config.max_streams,
    ensures
        pool.chosen(stats, lot) is Some,
{
    let life = pool.config.conn_lifetime;
    let max = pool.config.max_streams;
    selects_all(
        pool.connections,
        stats,
        |s: ClientStat| s.usable(life) && s.accepts(max),
        i,
    );
}

/// With fewer connections in use than there are to be, or with none that takes a stream,
/// a request gets none.
pub proof fn none_is_chosen(pool: ClientView, stats: Seq<ClientStat>, lot: int)
    requires
        stats.len() == pool.connections.len(),
        pool.usable(stats).len() < pool.config.minconn || forall|i: int|
            0 <= i < stats.len() ==> !in_use(#[trigger] stats[i], pool.config.conn_lifetime) || (
            !stats[i].relaxed(pool.config.max_streams) && (!stats[i].ready || (
            pool.config.max_streams > 0 && stats[i].active_streams >= pool.config.max_streams))),
    ensures
        pool.chosen(stats, lot) is None,
{
    let life = pool.config.conn_lifetime;
    let max = pool.config.max_streams;
    if pool.usable(stats).len() >= pool.config.minconn {
        selects_none(
            pool.connections,
            stats,
            |s: ClientStat| s.usable(life) && s.relaxed(max),
        );
        selects_none(
            pool.connections,
            stats,
            |s: ClientStat| s.usable(life) && s.accepts(max),
        );
    }
}

/// A connection that is open and old, or about to be closed, leaves the pool; the others
/// do not.
pub proof fn old_connections_leave(stat: ClientStat, lifetime: u16)
    ensures
        stat.leaves(lifetime) <==> !stat.closed && !in_use(stat, lifetime),
        stat.usable(lifetime) <==> in_use(stat, lifetime),
{
}

/// A connection is half full by the smaller of the two limits on its streams.
pub proof fn half_of_the_smaller_limit(stat: ClientStat, max: u32, max_streams: u32)
    requires
        max_streams > 0,
    ensures
        stat.max_streams == Some(max) ==> (stat.relaxed(max_streams) <==> stat.active_streams
            <= max / 2 && stat.active_streams <= max_streams / 2),
        stat.max_streams is None ==> (stat.relaxed(max_streams) <==> stat.active_streams
            <= max_streams / 2),
        stat.max_streams == Some(max) ==> (stat.relaxed(0) <==> stat.active_streams <= max / 2),
{
}

} // verus!
