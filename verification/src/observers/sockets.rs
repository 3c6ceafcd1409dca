use std::collections::HashMap;
use vstd::prelude::*;

use crate::strings::{
    append_strings, contains_string, lemma_push_contains, lemma_push_no_duplicates, nested_view, push_unique_string, strings_view,
};

verus! {

broadcast use vstd::std_specs::hash::group_hash_axioms;

/// A socket takes new symbols only while it observes fewer than this many.
pub const MAX_SYMBOLS_PER_SOCKET: usize = 100;

/// A socket takes new symbols only while it runs fewer than this many streams.
pub const MAX_STREAMS_PER_SOCKET: usize = 10;

/// The number of symbols sent in one subscription request.
pub const SYMBOLS_PER_REQUEST: usize = 10;

/// What the observer knows of one of its book ticker sockets.
#[derive(Debug, Clone)]
pub struct SocketLoad {
    /// The symbols that the socket observes.
    pub symbols: Vec<String>,
    /// The number of streams that the socket runs.
    pub streams: usize,
}

impl SocketLoad {
    pub open spec fn symbols_view(&self) -> Seq<Seq<char>> {
        strings_view(self.symbols@)
    }

    /// Whether the socket observes `symbol`.
    pub fn has_symbol(&self, symbol: &String) -> (found: bool)
        ensures
            found == self.symbols_view().contains(symbol@),
    {
        contains_string(&self.symbols, symbol)
    }

    /// The number of symbols that the socket observes.
    pub fn len(&self) -> (n: usize)
        ensures
            n == self.symbols@.len(),
    {
        self.symbols.len()
    }

    /// The number of streams that the socket runs.
    pub fn len_socket(&self) -> (n: usize)
        ensures
            n == self.streams,
    {
        self.streams
    }
}

/// Whether some socket of the table observes `symbol`.
pub open spec fn observed(table: Map<usize, SocketLoad>, symbol: Seq<char>) -> bool {
    exists|k: usize| #[trigger] table.contains_key(k) && table[k].symbols_view().contains(symbol)
}

/// The predicate of being observed by some socket of the table.
pub open spec fn observed_by(table: Map<usize, SocketLoad>) -> spec_fn(Seq<char>) -> bool {
    |s: Seq<char>| observed(table, s)
}

/// The key of the socket that new symbols go to: the one keyed by the number
/// of sockets less one, provided that it exists and has room left.
pub open spec fn socket_with_room(table: Map<usize, SocketLoad>) -> Option<usize> {
    let last: usize = if table.len() < 1 {
        0
    } else {
        (table.len() - 1) as usize
    };
    if table.contains_key(last) && table[last].symbols@.len() < MAX_SYMBOLS_PER_SOCKET
        && table[last].streams < MAX_STREAMS_PER_SOCKET {
        Some(last)
    } else {
        None
    }
}

/// Whether the socket still observes some symbol.
pub open spec fn in_use(load: SocketLoad) -> bool {
    load.symbols@.len() > 0
}

/// A socket is in use exactly when it observes at least one symbol, whatever
/// its load.
pub proof fn lemma_in_use_iff_observes_something(load: SocketLoad)
    ensures
        in_use(load) <==> load.symbols@.len() > 0,
{
}

/// A symbol counts as observed exactly when some socket of the table holds
/// it, whatever that socket's load.
pub proof fn lemma_observed_iff_held(table: Map<usize, SocketLoad>, symbol: Seq<char>, k: usize)
    ensures
        table.contains_key(k) && strings_view(table[k].symbols@).contains(symbol) ==> observed(
            table,
            symbol,
        ),
        observed(table, symbol) ==> exists|j: usize| #[trigger]
            table.contains_key(j) && strings_view(table[j].symbols@).contains(symbol),
{
    if table.contains_key(k) && strings_view(table[k].symbols@).contains(symbol) {
        assert(table.contains_key(k) && table[k].symbols_view().contains(symbol));
    }
}

/// The table without the sockets that observe nothing.
pub open spec fn used_sockets(table: Map<usize, SocketLoad>) -> Map<usize, SocketLoad> {
    table.restrict(Set::new(|k: usize| table.contains_key(k) && in_use(table[k])))
}

/// After dropping the idle sockets, every socket left observes some symbol,
/// and every socket that observed some symbol is left as it was.
pub proof fn lemma_used_sockets_in_use(table: Map<usize, SocketLoad>, k: usize)
    ensures
        used_sockets(table).contains_key(k) ==> in_use(used_sockets(table)[k]),
        table.contains_key(k) && in_use(table[k]) ==> used_sockets(table).contains_key(k)
            && used_sockets(table)[k] == table[k],
{
}

/// Where a subscription request goes.
#[derive(Debug, Clone, Copy, PartialEq, Eq, Structural)]
pub enum SubscriptionTarget {
    /// The existing socket with this key.
    Existing(usize),
    /// A new socket, to be stored under this key.
    New(usize),
}

/// Splits a sequence into consecutive pieces of `SYMBOLS_PER_REQUEST`
/// elements; the last piece holds what is left.
pub open spec fn chunked<A>(s: Seq<A>) -> Seq<Seq<A>>
    decreases s.len(),
{
    if s.len() == 0 {
        Seq::empty()
    } else {
        let k: int = if s.len() <= SYMBOLS_PER_REQUEST {
            s.len() as int
        } else {
            SYMBOLS_PER_REQUEST as int
        };
        seq![s.take(k)] + chunked(s.skip(k))
    }
}

/// Splitting into requests loses, repeats and reorders nothing, and every
/// request holds between one and `SYMBOLS_PER_REQUEST` symbols.
pub proof fn lemma_chunked_covers<A>(s: Seq<A>)
    ensures
        chunked(s).flatten() == s,
        chunked(s).len() == (s.len() + SYMBOLS_PER_REQUEST - 1) / (SYMBOLS_PER_REQUEST as int),
        forall|i: int|
            0 <= i < chunked(s).len() ==> 0 < #[trigger] chunked(s)[i].len()
                <= SYMBOLS_PER_REQUEST,
    decreases s.len(),
{
    if s.len() > 0 {
        let k: int = if s.len() <= SYMBOLS_PER_REQUEST {
            s.len() as int
        } else {
            SYMBOLS_PER_REQUEST as int
        };
        lemma_chunked_covers(s.skip(k));
        let c = chunked(s);
        assert(c.first() == s.take(k));
        assert(c.drop_first() == chunked(s.skip(k)));
        assert(s.take(k) + s.skip(k) == s);
        assert forall|i: int| 0 <= i < c.len() implies 0 < #[trigger] c[i].len()
            <= SYMBOLS_PER_REQUEST by {
            if i > 0 {
                assert(c[i] == chunked(s.skip(k))[i - 1]);
            }
        }
    }
}

/// Where a subscription request goes, as `SocketTable::subscription_target` decides.
pub open spec fn subscription_target_spec(table: Map<usize, SocketLoad>) -> SubscriptionTarget {
    match socket_with_room(table) {
        Some(k) => SubscriptionTarget::Existing(k),
        None => SubscriptionTarget::New(table.len() as usize),
    }
}

/// The key of the socket that a subscription request goes to.
pub open spec fn target_key(target: SubscriptionTarget) -> usize {
    match target {
        SubscriptionTarget::Existing(k) => k,
        SubscriptionTarget::New(k) => k,
    }
}

/// The table `after` is `before` once the symbols `chunk` were subscribed
/// through the socket at `target`, which then runs `streams` streams: an
/// existing socket observes its symbols and then the chunk; a new socket,
/// stored under its key in place of what was there, observes the chunk; the
/// other sockets are left as they were.
pub open spec fn subscribed(
    before: Map<usize, SocketLoad>,
    after: Map<usize, SocketLoad>,
    target: SubscriptionTarget,
    chunk: Seq<Seq<char>>,
    streams: usize,
) -> bool {
    let k = target_key(target);
    let kept: Seq<Seq<char>> = if target is Existing && before.contains_key(k) {
        before[k].symbols_view()
    } else {
        Seq::empty()
    };
    &&& after.dom() == before.dom().insert(k)
    &&& after[k].symbols_view() == kept + chunk
    &&& after[k].streams == streams
    &&& forall|j: usize| j != k && #[trigger] before.contains_key(j) ==> after[j] == before[j]
}

/// The sockets are keyed by 0 up to `n`, excluded.
pub open spec fn keys_are_indices(table: Map<usize, SocketLoad>, n: nat) -> bool {
    forall|k: usize| #[trigger] table.contains_key(k) <==> (k as nat) < n
}

/// A finite set of the keys below `n` has `n` elements.
proof fn lemma_index_set_len(s: Set<usize>, n: nat)
    requires
        s.finite(),
        n <= usize::MAX,
        forall|k: usize| #[trigger] s.contains(k) <==> (k as nat) < n,
    ensures
        s.len() == n,
    decreases n,
{
    if n == 0 {
        assert(s =~= Set::empty());
    } else {
        let m = (n - 1) as usize;
        assert(s.contains(m));
        lemma_index_set_len(s.remove(m), (n - 1) as nat);
    }
}

/// While the sockets are keyed by 0 up to their count, a subscription step
/// keeps them so: a socket with room keeps its key, a new socket is keyed by
/// the old count, and every socket keeps its key and the symbols it observed.
pub proof fn lemma_subscription_keeps_keys(
    before: Map<usize, SocketLoad>,
    after: Map<usize, SocketLoad>,
    chunk: Seq<Seq<char>>,
    streams: usize,
    n: nat,
)
    requires
        before.dom().finite(),
        n <= usize::MAX,
        keys_are_indices(before, n),
        subscribed(before, after, subscription_target_spec(before), chunk, streams),
    ensures
        subscription_target_spec(before) is New ==> target_key(subscription_target_spec(before))
            == n && keys_are_indices(after, n + 1),
        subscription_target_spec(before) is Existing ==> keys_are_indices(after, n),
        forall|k: usize| #[trigger]
            before.contains_key(k) ==> after.contains_key(k) && before[k].symbols_view().is_prefix_of(
                after[k].symbols_view(),
            ),
{
    lemma_index_set_len(before.dom(), n);
    let t = subscription_target_spec(before);
    let key = target_key(t);
    assert forall|k: usize| #[trigger]
        before.contains_key(k) implies after.contains_key(k) && before[k].symbols_view().is_prefix_of(
        after[k].symbols_view(),
    ) by {
        assert(after.dom().contains(k));
        if k == key {
            assert(t is Existing);
            let a = after[k].symbols_view();
            let b = before[k].symbols_view();
            assert(a == b + chunk);
            assert(a.subrange(0, b.len() as int) =~= b);
        }
    }
    if t is New {
        assert forall|k: usize| #[trigger] after.contains_key(k) <==> (k as nat) < n + 1 by {
            assert(after.dom().contains(k) <==> (before.dom().contains(k) || k == key));
        }
    } else {
        assert forall|k: usize| #[trigger] after.contains_key(k) <==> (k as nat) < n by {
            assert(after.dom().contains(k) <==> (before.dom().contains(k) || k == key));
        }
    }
}

/// `tables` are the socket tables along a run of subscription steps: step
/// `i` subscribes `chunks[i]` where `subscription_target_spec` sends it, and
/// the socket then runs `streams[i]` streams.
pub open spec fn subscription_run(
    tables: Seq<Map<usize, SocketLoad>>,
    chunks: Seq<Seq<Seq<char>>>,
    streams: Seq<usize>,
) -> bool {
    &&& tables.len() == chunks.len() + 1
    &&& streams.len() == chunks.len()
    &&& forall|i: int|
        0 <= i < chunks.len() ==> #[trigger] subscribed(
            tables[i],
            tables[i + 1],
            subscription_target_spec(tables[i]),
            chunks[i],
            streams[i],
        )
}

/// A whole subscription keeps the sockets keyed by 0 up to their count:
/// every socket keeps its key and the symbols it observed, and the new
/// sockets take the next keys.
pub proof fn lemma_subscription_run_keeps_keys(
    tables: Seq<Map<usize, SocketLoad>>,
    chunks: Seq<Seq<Seq<char>>>,
    streams: Seq<usize>,
    n: nat,
)
    requires
        subscription_run(tables, chunks, streams),
        tables[0].dom().finite(),
        n + chunks.len() <= usize::MAX,
        keys_are_indices(tables[0], n),
    ensures
        tables.last().dom().finite(),
        exists|m: nat| n <= m <= n + chunks.len() && #[trigger] keys_are_indices(tables.last(), m),
        forall|k: usize| #[trigger]
            tables[0].contains_key(k) ==> tables.last().contains_key(k)
                && tables[0][k].symbols_view().is_prefix_of(tables.last()[k].symbols_view()),
    decreases chunks.len(),
{
    if chunks.len() > 0 {
        let c = chunks.len() - 1;
        let tables0 = tables.drop_last();
        let chunks0 = chunks.drop_last();
        let streams0 = streams.drop_last();
        assert forall|i: int| 0 <= i < chunks0.len() implies #[trigger] subscribed(
            tables0[i],
            tables0[i + 1],
            subscription_target_spec(tables0[i]),
            chunks0[i],
            streams0[i],
        ) by {
            assert(subscribed(
                tables[i],
                tables[i + 1],
                subscription_target_spec(tables[i]),
                chunks[i],
                streams[i],
            ));
        }
        lemma_subscription_run_keeps_keys(tables0, chunks0, streams0, n);
        let mid = tables[c];
        assert(tables0.last() == mid);
        let m = choose|m: nat| n <= m <= n + chunks0.len() && #[trigger] keys_are_indices(mid, m);
        assert(subscribed(
            tables[c],
            tables[c + 1],
            subscription_target_spec(tables[c]),
            chunks[c],
            streams[c],
        ));
        lemma_subscription_keeps_keys(mid, tables.last(), chunks[c], streams[c], m);
        assert(tables.last().dom() == mid.dom().insert(target_key(subscription_target_spec(mid))));
        if subscription_target_spec(mid) is New {
            assert(keys_are_indices(tables.last(), m + 1));
        } else {
            assert(keys_are_indices(tables.last(), m));
        }
        assert forall|k: usize| #[trigger] tables[0].contains_key(k) implies tables.last().contains_key(k)
            && tables[0][k].symbols_view().is_prefix_of(tables.last()[k].symbols_view()) by {
            assert(tables0[0] == tables[0]);
            let a = tables[0][k].symbols_view();
            let b = mid[k].symbols_view();
            let d = tables.last()[k].symbols_view();
            assert(a.is_prefix_of(b));
            assert(mid.contains_key(k));
            assert(b.is_prefix_of(d));
            assert(d.subrange(0, a.len() as int) =~= b.subrange(0, a.len() as int));
        }
    }
}

/// The sockets of a trade observer, by key, with what each observes.
pub struct SocketTable {
    sockets: HashMap<usize, SocketLoad>,
    keys: Vec<usize>,
}

impl View for SocketTable {
    type V = Map<usize, SocketLoad>;

    closed spec fn view(&self) -> Map<usize, SocketLoad> {
        self.sockets@
    }
}

impl SocketTable {
    /// The table keeps, beside the map, the list of its keys.
    pub closed spec fn wf(&self) -> bool {
        &&& self.keys@.no_duplicates()
        &&& forall|k: usize| #[trigger] self.keys@.contains(k) <==> self.sockets@.contains_key(k)
    }

    /// A table without sockets.
    pub fn new() -> (table: Self)
        ensures
            table.wf(),
            table@ == Map::<usize, SocketLoad>::empty(),
    {
        SocketTable { sockets: HashMap::new(), keys: Vec::new() }
    }

    /// The number of sockets.
    pub fn len(&self) -> (n: usize)
        ensures
            n == self@.len(),
    {
        self.sockets.len()
    }

    /// Stores `load` under `key`, in place of what was there.
    pub fn insert(&mut self, key: usize, load: SocketLoad)
        requires
            old(self).wf(),
        ensures
            final(self).wf(),
            final(self)@ == old(self)@.insert(key, load),
    {
        let ghost before = self.keys@;
        let replaced = self.sockets.insert(key, load);
        if replaced.is_none() {
            assert(!before.contains(key));
            self.keys.push(key);
            proof {
                lemma_push_contains(before, key);
                lemma_push_no_duplicates(before, key);
            }
        } else {
            assert(before.contains(key));
        }
    }

    /// The socket that new symbols go to, where it has room.
    pub fn get_socket(&self) -> (key: Option<usize>)
        ensures
            key == socket_with_room(self@),
            ({
                let last: int = if self@.len() == 0 {
                    0
                } else {
                    self@.len() - 1
                };
                &&& key matches Some(k) ==> k == last && self@.contains_key(k)
                    && self@[k].symbols@.len() < 100 && self@[k].streams < 10
                &&& key is None ==> forall|k: usize|
                    k == last && #[trigger] self@.contains_key(k) ==> self@[k].symbols@.len() >= 100
                        || self@[k].streams >= 10
            }),
    {
        let n = self.sockets.len();
        let last: usize = if n < 1 {
            0
        } else {
            n - 1
        };
        match self.sockets.get(&last) {
            Some(load) => {
                if load.len() < MAX_SYMBOLS_PER_SOCKET && load.len_socket() < MAX_STREAMS_PER_SOCKET {
                    return Some(last);
                }
            },
            None => {},
        }
        None
    }

    /// Where the next subscription request goes: the socket with room, or a
    /// new socket stored under the number of sockets.
    pub fn subscription_target(&self) -> (target: SubscriptionTarget)
        ensures
            target == subscription_target_spec(self@),
            target is New ==> target == SubscriptionTarget::New(self@.len() as usize),
            target matches SubscriptionTarget::Existing(k) ==> self@.contains_key(k)
                && self@[k].symbols@.len() < 100 && self@[k].streams < 10,
    {
        match self.get_socket() {
            Some(k) => SubscriptionTarget::Existing(k),
            None => SubscriptionTarget::New(self.len()),
        }
    }

    /// Records that the symbols `chunk` were subscribed through the socket at
    /// `target`, which now runs `streams` streams.
    pub fn record_subscription(&mut self, target: SubscriptionTarget, chunk: &Vec<String>, streams: usize)
        requires
            old(self).wf(),
        ensures
            final(self).wf(),
            subscribed(old(self)@, final(self)@, target, strings_view(chunk@), streams),
            ({
                let k = match target {
                    SubscriptionTarget::Existing(k) => k,
                    SubscriptionTarget::New(k) => k,
                };
                &&& final(self)@.contains_key(k)
                &&& final(self)@[k].streams == streams
                &&& strings_view(final(self)@[k].symbols@) == (if target is Existing && old(
                    self,
                )@.contains_key(k) {
                    strings_view(old(self)@[k].symbols@)
                } else {
                    Seq::empty()
                }) + strings_view(chunk@)
                &&& forall|j: usize|
                    j != k ==> (#[trigger] final(self)@.contains_key(j) <==> old(self)@.contains_key(j))
                &&& forall|j: usize|
                    j != k && #[trigger] old(self)@.contains_key(j) ==> final(self)@[j] == old(
                        self,
                    )@[j]
            }),
    {
        let key = match target {
            SubscriptionTarget::Existing(k) => k,
            SubscriptionTarget::New(k) => k,
        };
        let mut symbols: Vec<String> = Vec::new();
        match target {
            SubscriptionTarget::Existing(_) => match self.sockets.get(&key) {
                Some(load) => append_strings(&mut symbols, &load.symbols),
                None => {},
            },
            SubscriptionTarget::New(_) => {},
        }
        append_strings(&mut symbols, chunk);
        let ghost before = self@;
        self.insert(key, SocketLoad { symbols, streams });
        assert(self@.dom() =~= before.dom().insert(key));
    }

    /// Whether some socket observes `symbol`.
    pub fn is_observed(&self, symbol: &String) -> (found: bool)
        requires
            self.wf(),
        ensures
            found == observed(self@, symbol@),
            found <==> exists|k: usize| #[trigger]
                self@.contains_key(k) && strings_view(self@[k].symbols@).contains(symbol@),
    {
        for i in 0..self.keys.len()
            invariant
                self.wf(),
                forall|j: int|
                    0 <= j < i ==> !(#[trigger] self.sockets@[self.keys@[j]]).symbols_view().contains(
                        symbol@,
                    ),
        {
            let k = self.keys[i];
            assert(self.keys@.contains(k));
            match self.sockets.get(&k) {
                Some(load) => {
                    if load.has_symbol(symbol) {
                        assert(self@.contains_key(k) && strings_view(self@[k].symbols@).contains(
                            symbol@,
                        ));
                        return true;
                    }
                },
                None => {},
            }
        }
        proof {
            if observed(self@, symbol@) {
                let k = choose|k: usize| #[trigger]
                    self@.contains_key(k) && self@[k].symbols_view().contains(symbol@);
                assert(self.keys@.contains(k));
                let j = choose|j: int| 0 <= j < self.keys@.len() && self.keys@[j] == k;
                assert(!self.sockets@[self.keys@[j]].symbols_view().contains(symbol@));
            }
        }
        false
    }

    /// The requested symbols that no socket observes yet, each once.
    pub fn not_subscribed(&self, symbols: &Vec<String>) -> (fresh: Vec<String>)
        requires
            self.wf(),
        ensures
            strings_view(fresh@).no_duplicates(),
            forall|s: Seq<char>| #[trigger]
                strings_view(fresh@).contains(s) <==> (strings_view(symbols@).contains(s)
                    && !observed(self@, s)),
    {
        let mut fresh: Vec<String> = Vec::new();
        for i in 0..symbols.len()
            invariant
                self.wf(),
                strings_view(fresh@).no_duplicates(),
                forall|s: Seq<char>| #[trigger]
                    strings_view(fresh@).contains(s) <==> (strings_view(symbols@).subrange(
                        0,
                        i as int,
                    ).contains(s) && !observed(self@, s)),
        {
            proof {
                crate::strings::lemma_prefix_step(strings_view(symbols@), i as int);
            }
            if !self.is_observed(&symbols[i]) {
                push_unique_string(&mut fresh, symbols[i].clone());
            }
        }
        assert(strings_view(symbols@).subrange(0, symbols@.len() as int) == strings_view(symbols@));
        fresh
    }

    /// The requested symbols that some socket observes, in request order.
    pub fn subscribed_among(&self, symbols: &Vec<String>) -> (held: Vec<String>)
        requires
            self.wf(),
        ensures
            strings_view(held@) == strings_view(symbols@).filter(observed_by(self@)),
    {
        let ghost pred = observed_by(self@);
        let mut held: Vec<String> = Vec::new();
        for i in 0..symbols.len()
            invariant
                self.wf(),
                pred == observed_by(self@),
                strings_view(held@) == strings_view(symbols@).take(i as int).filter(pred),
        {
            let ghost sv = strings_view(symbols@);
            assert(sv.take(i + 1).drop_last() == sv.take(i as int));
            assert(sv.take(i + 1).last() == symbols@[i as int]@);
            let ghost before = held@;
            let ghost x = symbols@[i as int]@;
            assert(sv.take(i + 1) == sv.take(i as int).push(x));
            proof {
                sv.take(i as int).lemma_filter_push(x, pred);
            }
            assert(sv.take(i + 1).filter(pred) == if pred(x) {
                sv.take(i as int).filter(pred).push(x)
            } else {
                sv.take(i as int).filter(pred)
            });
            if self.is_observed(&symbols[i]) {
                held.push(symbols[i].clone());
                assert(strings_view(held@) == strings_view(before).push(x));
            } else {
                assert(!pred(x));
            }
        }
        assert(strings_view(symbols@).take(symbols@.len() as int) == strings_view(symbols@));
        held
    }

    /// Drops the sockets that observe nothing and returns their keys. The
    /// keys of the sockets left keep their gaps; a later `New` target, keyed
    /// by the number of sockets, may then fall on the key of a live socket
    /// and replace it.
    pub fn retain_used(&mut self) -> (removed: Vec<usize>)
        requires
            old(self).wf(),
        ensures
            final(self).wf(),
            final(self)@ == used_sockets(old(self)@),
            removed@.no_duplicates(),
            forall|k: usize| #[trigger]
                removed@.contains(k) <==> (old(self)@.contains_key(k) && !in_use(old(self)@[k])),
            forall|k: usize| #[trigger]
                removed@.contains(k) <==> (old(self)@.contains_key(k) && old(self)@[k].symbols@.len()
                    == 0),
            forall|k: usize| #[trigger]
                final(self)@.contains_key(k) <==> (old(self)@.contains_key(k) && old(
                    self,
                )@[k].symbols@.len() > 0),
            forall|k: usize| #[trigger]
                final(self)@.contains_key(k) ==> final(self)@[k] == old(self)@[k],
    {
        let ghost table = self.sockets@;
        let ghost keys = self.keys@;
        let mut kept: Vec<usize> = Vec::new();
        let mut removed: Vec<usize> = Vec::new();
        let n = self.keys.len();
        for i in 0..n
            invariant
                n == self.keys@.len(),
                self.keys@ == keys,
                keys.no_duplicates(),
                forall|k: usize| #[trigger] keys.contains(k) <==> table.contains_key(k),
                kept@.no_duplicates(),
                removed@.no_duplicates(),
                forall|k: usize| #[trigger]
                    kept@.contains(k) <==> (keys.take(i as int).contains(k) && in_use(table[k])),
                forall|k: usize| #[trigger]
                    removed@.contains(k) <==> (keys.take(i as int).contains(k) && !in_use(
                        table[k],
                    )),
                forall|k: usize| #[trigger]
                    self.sockets@.contains_key(k) <==> (table.contains_key(k) && !(keys.take(
                        i as int,
                    ).contains(k) && !in_use(table[k]))),
                forall|k: usize| #[trigger]
                    self.sockets@.contains_key(k) ==> self.sockets@[k] == table[k],
        {
            let k = self.keys[i];
            assert(keys.take(i + 1) == keys.take(i as int).push(k));
            proof {
                lemma_push_contains(keys.take(i as int), k);
                lemma_push_contains(kept@, k);
                lemma_push_contains(removed@, k);
                assert(!keys.take(i as int).contains(k)) by {
                    if keys.take(i as int).contains(k) {
                        let j = choose|j: int| 0 <= j < i && keys.take(i as int)[j] == k;
                        assert(keys[j] == keys[i as int]);
                    }
                }
            }
            assert(keys.contains(k));
            let unused = match self.sockets.get(&k) {
                Some(load) => load.len() == 0,
                None => false,
            };
            proof {
                assert(!kept@.contains(k));
                assert(!removed@.contains(k));
            }
            if unused {
                self.sockets.remove(&k);
                proof {
                    lemma_push_no_duplicates(removed@, k);
                }
                removed.push(k);
            } else {
                proof {
                    lemma_push_no_duplicates(kept@, k);
                }
                kept.push(k);
            }
        }
        assert(keys.take(n as int) == keys);
        self.keys = kept;
        assert(self.sockets@ =~= used_sockets(table));
        removed
    }

    /// The subscription requests for the requested symbols: every requested
    /// symbol that no socket observes goes into exactly one request, and each
    /// request holds between one and `SYMBOLS_PER_REQUEST` symbols.
    pub fn subscription_plan(&self, symbols: &Vec<String>) -> (plan: Vec<Vec<String>>)
        requires
            self.wf(),
        ensures
            nested_view(plan@).flatten().no_duplicates(),
            forall|s: Seq<char>| #[trigger]
                nested_view(plan@).flatten().contains(s) <==> (strings_view(symbols@).contains(s)
                    && !observed(self@, s)),
            forall|i: int|
                0 <= i < plan@.len() ==> 0 < #[trigger] plan@[i]@.len() <= SYMBOLS_PER_REQUEST,
            nested_view(plan@) == chunked(nested_view(plan@).flatten()),
            plan@.len() == (nested_view(plan@).flatten().len() + SYMBOLS_PER_REQUEST - 1) / (
            SYMBOLS_PER_REQUEST as int),
    {
        let fresh = self.not_subscribed(symbols);
        let plan = SocketTable::requests(&fresh);
        proof {
            lemma_chunked_covers(strings_view(fresh@));
            assert forall|i: int| 0 <= i < plan@.len() implies 0 < #[trigger] plan@[i]@.len()
                <= SYMBOLS_PER_REQUEST by {
                assert(nested_view(plan@)[i] == strings_view(plan@[i]@));
            }
        }
        plan
    }

    /// Splits symbols into subscription requests of `SYMBOLS_PER_REQUEST`
    /// symbols each, in order; the last request holds what is left.
    pub fn requests(symbols: &Vec<String>) -> (chunks: Vec<Vec<String>>)
        ensures
            nested_view(chunks@) == chunked(strings_view(symbols@)),
    {
        let ghost sv = strings_view(symbols@);
        let n = symbols.len();
        let mut chunks: Vec<Vec<String>> = Vec::new();
        let mut pos: usize = 0;
        assert(sv.subrange(0, n as int) == sv);
        while pos < n
            invariant
                n == symbols@.len(),
                sv == strings_view(symbols@),
                pos <= n,
                nested_view(chunks@) + chunked(sv.subrange(pos as int, n as int)) == chunked(sv),
            decreases n - pos,
        {
            let end: usize = if n - pos > SYMBOLS_PER_REQUEST {
                pos + SYMBOLS_PER_REQUEST
            } else {
                n
            };
            let mut chunk: Vec<String> = Vec::new();
            for j in pos..end
                invariant
                    n == symbols@.len(),
                    sv == strings_view(symbols@),
                    pos <= j <= end <= n,
                    strings_view(chunk@) == sv.subrange(pos as int, j as int),
            {
                let ghost before = chunk@;
                chunk.push(symbols[j].clone());
                assert(strings_view(chunk@) == strings_view(before).push(symbols@[j as int]@));
                assert(sv.subrange(pos as int, j + 1) == sv.subrange(pos as int, j as int).push(
                    sv[j as int],
                ));
            }
            let ghost rest = sv.subrange(pos as int, n as int);
            let ghost before = chunks@;
            assert(rest.take(end - pos) == sv.subrange(pos as int, end as int));
            assert(rest.skip(end - pos) == sv.subrange(end as int, n as int));
            chunks.push(chunk);
            assert(nested_view(chunks@) == nested_view(before).push(sv.subrange(pos as int, end as int)));
            assert(chunked(rest) == seq![rest.take(end - pos)] + chunked(rest.skip(end - pos)));
            assert(nested_view(chunks@) + chunked(sv.subrange(end as int, n as int))
                == nested_view(before) + chunked(rest));
            pos = end;
        }
        assert(chunked(sv.subrange(n as int, n as int)) == Seq::<Seq<Seq<char>>>::empty());
        assert(nested_view(chunks@) + Seq::<Seq<Seq<char>>>::empty() == nested_view(chunks@));
        chunks
    }
}

} // verus!
