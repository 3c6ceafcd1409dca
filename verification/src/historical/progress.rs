use vstd::prelude::*;

verus! {

/// A progress report of a kline download, as the exchange sends it.
#[derive(Debug)]
pub struct HistChartProg {
    pub symbol: String,
    pub num_symbols: i64,
    pub cur_symbol_num: i64,
    pub num_objects: i64,
    pub cur_object_num: i64,
}

/// The mathematical value of a progress report.
pub struct ProgView {
    pub symbol: Seq<char>,
    pub num_symbols: int,
    pub cur_symbol_num: int,
    pub num_objects: int,
    pub cur_object_num: int,
}

impl View for HistChartProg {
    type V = ProgView;

    open spec fn view(&self) -> ProgView {
        ProgView {
            symbol: self.symbol@,
            num_symbols: self.num_symbols as int,
            cur_symbol_num: self.cur_symbol_num as int,
            num_objects: self.num_objects as int,
            cur_object_num: self.cur_object_num as int,
        }
    }
}

impl HistChartProg {
    /// A copy of the report.
    pub fn snapshot(&self) -> (copy: Self)
        ensures
            copy@ == self@,
    {
        HistChartProg {
            symbol: self.symbol.clone(),
            num_symbols: self.num_symbols,
            cur_symbol_num: self.cur_symbol_num,
            num_objects: self.num_objects,
            cur_object_num: self.cur_object_num,
        }
    }
}

/// The state of a kline download that is broadcast to the listeners.
#[derive(Debug)]
pub enum KlineFetchStatus {
    /// The download goes on; the report holds the totals so far of a symbol.
    WIP(HistChartProg),
    /// The download is over.
    Completed,
}

/// Adds a report to the totals: the first report of a symbol is taken as it
/// is; a later one adds its current symbol and object numbers to the totals.
pub open spec fn record_progress(totals: Map<Seq<char>, ProgView>, p: ProgView) -> Map<
    Seq<char>,
    ProgView,
> {
    if totals.contains_key(p.symbol) {
        let t = totals[p.symbol];
        totals.insert(
            p.symbol,
            ProgView {
                cur_symbol_num: t.cur_symbol_num + p.cur_symbol_num,
                cur_object_num: t.cur_object_num + p.cur_object_num,
                ..t
            },
        )
    } else {
        totals.insert(p.symbol, p)
    }
}

/// The totals after the reports `ps`, received in order, starting from nothing.
pub open spec fn record_all(ps: Seq<ProgView>) -> Map<Seq<char>, ProgView>
    decreases ps.len(),
{
    if ps.len() == 0 {
        Map::empty()
    } else {
        record_progress(record_all(ps.drop_last()), ps.last())
    }
}

/// Whether adding `p` to the totals keeps every number within `i64`.
pub open spec fn fits(totals: Map<Seq<char>, ProgView>, p: ProgView) -> bool {
    totals.contains_key(p.symbol) ==> {
        &&& i64::MIN <= totals[p.symbol].cur_symbol_num + p.cur_symbol_num <= i64::MAX
        &&& i64::MIN <= totals[p.symbol].cur_object_num + p.cur_object_num <= i64::MAX
    }
}

/// The sum of the current symbol numbers of the reports about `symbol`.
pub open spec fn sum_symbol_nums(ps: Seq<ProgView>, symbol: Seq<char>) -> int
    decreases ps.len(),
{
    if ps.len() == 0 {
        0
    } else {
        sum_symbol_nums(ps.drop_last(), symbol) + if ps.last().symbol == symbol {
            ps.last().cur_symbol_num
        } else {
            0
        }
    }
}

/// The sum of the current object numbers of the reports about `symbol`.
pub open spec fn sum_object_nums(ps: Seq<ProgView>, symbol: Seq<char>) -> int
    decreases ps.len(),
{
    if ps.len() == 0 {
        0
    } else {
        sum_object_nums(ps.drop_last(), symbol) + if ps.last().symbol == symbol {
            ps.last().cur_object_num
        } else {
            0
        }
    }
}

/// Whether some report is about `symbol`.
pub open spec fn reported(ps: Seq<ProgView>, symbol: Seq<char>) -> bool {
    exists|i: int| 0 <= i < ps.len() && #[trigger] ps[i].symbol == symbol
}

/// The index of the first report about `symbol`.
pub open spec fn first_report(ps: Seq<ProgView>, symbol: Seq<char>) -> int
    decreases ps.len(),
{
    if ps.len() == 0 {
        0
    } else if reported(ps.drop_last(), symbol) {
        first_report(ps.drop_last(), symbol)
    } else {
        ps.len() - 1
    }
}

/// After any run of reports, a symbol has totals exactly when it was
/// reported; its current numbers are the sums over its reports, and its
/// overall numbers are those of its first report.
pub proof fn lemma_totals_are_sums(ps: Seq<ProgView>, symbol: Seq<char>)
    ensures
        record_all(ps).contains_key(symbol) <==> reported(ps, symbol),
        reported(ps, symbol) ==> {
            let t = record_all(ps)[symbol];
            let f = first_report(ps, symbol);
            &&& 0 <= f < ps.len()
            &&& ps[f].symbol == symbol
            &&& t.symbol == symbol
            &&& t.cur_symbol_num == sum_symbol_nums(ps, symbol)
            &&& t.cur_object_num == sum_object_nums(ps, symbol)
            &&& t.num_symbols == ps[f].num_symbols
            &&& t.num_objects == ps[f].num_objects
        },
    decreases ps.len(),
{
    if ps.len() > 0 {
        let init = ps.drop_last();
        let p = ps.last();
        lemma_totals_are_sums(init, symbol);
        if reported(init, symbol) {
            let i = choose|i: int| 0 <= i < init.len() && #[trigger] init[i].symbol == symbol;
            assert(ps[i].symbol == symbol);
            let f = first_report(init, symbol);
            assert(ps[f] == init[f]);
        } else {
            if p.symbol == symbol {
                assert(ps[ps.len() - 1].symbol == symbol);
                assert(sum_symbol_nums(init, symbol) == 0) by {
                    lemma_unreported_sums_zero(init, symbol);
                }
                assert(sum_object_nums(init, symbol) == 0) by {
                    lemma_unreported_sums_zero(init, symbol);
                }
            } else {
                if reported(ps, symbol) {
                    let i = choose|i: int| 0 <= i < ps.len() && #[trigger] ps[i].symbol == symbol;
                    assert(init[i].symbol == symbol);
                }
            }
        }
    }
}

/// A symbol that nobody reported sums to nothing.
proof fn lemma_unreported_sums_zero(ps: Seq<ProgView>, symbol: Seq<char>)
    requires
        !reported(ps, symbol),
    ensures
        sum_symbol_nums(ps, symbol) == 0,
        sum_object_nums(ps, symbol) == 0,
    decreases ps.len(),
{
    if ps.len() > 0 {
        assert(!reported(ps.drop_last(), symbol)) by {
            if reported(ps.drop_last(), symbol) {
                let i = choose|i: int|
                    0 <= i < ps.drop_last().len() && #[trigger] ps.drop_last()[i].symbol == symbol;
                assert(ps[i].symbol == symbol);
            }
        }
        assert(ps[ps.len() - 1].symbol != symbol);
        lemma_unreported_sums_zero(ps.drop_last(), symbol);
    }
}

/// The totals of the progress reports of a download, per symbol.
pub struct ProgressAggregator {
    progs: Vec<HistChartProg>,
    totals: Ghost<Map<Seq<char>, ProgView>>,
}

impl View for ProgressAggregator {
    type V = Map<Seq<char>, ProgView>;

    closed spec fn view(&self) -> Map<Seq<char>, ProgView> {
        self.totals@
    }
}

impl ProgressAggregator {
    /// Every symbol has one entry, and the entries are the totals.
    pub closed spec fn wf(&self) -> bool {
        &&& forall|i: int, j: int|
            0 <= i < j < self.progs@.len() ==> self.progs@[i].symbol@ != self.progs@[j].symbol@
        &&& forall|i: int|
            0 <= i < self.progs@.len() ==> #[trigger] self.totals@.contains_key(self.progs@[i].symbol@)
                && self.totals@[self.progs@[i].symbol@] == self.progs@[i]@
        &&& forall|s: Seq<char>| #[trigger]
            self.totals@.contains_key(s) ==> exists|i: int|
                0 <= i < self.progs@.len() && #[trigger] self.progs@[i].symbol@ == s
    }

    /// An aggregator that has received nothing.
    pub fn new() -> (aggregator: Self)
        ensures
            aggregator.wf(),
            aggregator@ == Map::<Seq<char>, ProgView>::empty(),
    {
        ProgressAggregator { progs: Vec::new(), totals: Ghost(Map::empty()) }
    }

    /// The index of the entry of `symbol`, where there is one.
    fn find(&self, symbol: &String) -> (index: Option<usize>)
        requires
            self.wf(),
        ensures
            match index {
                Some(i) => i < self.progs@.len() && self.progs@[i as int].symbol@ == symbol@
                    && self@.contains_key(symbol@) && self@[symbol@] == self.progs@[i as int]@,
                None => !self@.contains_key(symbol@),
            },
    {
        for i in 0..self.progs.len()
            invariant
                self.wf(),
                forall|j: int| 0 <= j < i ==> self.progs@[j].symbol@ != symbol@,
        {
            if self.progs[i].symbol == *symbol {
                assert(self.totals@.contains_key(self.progs@[i as int].symbol@));
                return Some(i);
            }
        }
        None
    }

    /// Whether the report `p` can be added without leaving `i64`.
    pub fn fits(&self, p: &HistChartProg) -> (ok: bool)
        requires
            self.wf(),
        ensures
            ok == fits(self@, p@),
    {
        match self.find(&p.symbol) {
            None => true,
            Some(i) => {
                let t = &self.progs[i];
                let s = t.cur_symbol_num.checked_add(p.cur_symbol_num);
                let o = t.cur_object_num.checked_add(p.cur_object_num);
                s.is_some() && o.is_some()
            },
        }
    }

    /// Adds the report `p` to the totals, and returns the status to
    /// broadcast: the totals so far of the symbol of `p`.
    pub fn record(&mut self, p: HistChartProg) -> (status: KlineFetchStatus)
        requires
            old(self).wf(),
            fits(old(self)@, p@),
        ensures
            final(self).wf(),
            final(self)@ == record_progress(old(self)@, p@),
            status matches KlineFetchStatus::WIP(t) && t@ == final(self)@[p@.symbol],
    {
        let ghost pv = p@;
        match self.find(&p.symbol) {
            None => {
                assert forall|j: int| 0 <= j < self.progs@.len() implies self.progs@[j].symbol@
                    != pv.symbol by {
                    assert(self.totals@.contains_key(self.progs@[j].symbol@));
                }
                let status = KlineFetchStatus::WIP(p.snapshot());
                self.progs.push(p);
                self.totals = Ghost(self.totals@.insert(pv.symbol, pv));
                assert forall|j: int| 0 <= j < self.progs@.len() implies #[trigger]
                    self.totals@.contains_key(self.progs@[j].symbol@)
                    && self.totals@[self.progs@[j].symbol@] == self.progs@[j]@ by {
                    if j < old(self).progs@.len() {
                        assert(old(self).totals@.contains_key(old(self).progs@[j].symbol@));
                    }
                }
                assert forall|s: Seq<char>| #[trigger]
                    self.totals@.contains_key(s) implies exists|i: int|
                    0 <= i < self.progs@.len() && #[trigger] self.progs@[i].symbol@ == s by {
                    if s == pv.symbol {
                        assert(self.progs@[self.progs@.len() - 1].symbol@ == s);
                    } else {
                        let i = choose|i: int|
                            0 <= i < old(self).progs@.len() && #[trigger] old(self).progs@[i].symbol@
                                == s;
                        assert(self.progs@[i].symbol@ == s);
                    }
                }
                status
            },
            Some(i) => {
                let t = &self.progs[i];
                let updated = HistChartProg {
                    symbol: t.symbol.clone(),
                    num_symbols: t.num_symbols,
                    cur_symbol_num: t.cur_symbol_num + p.cur_symbol_num,
                    num_objects: t.num_objects,
                    cur_object_num: t.cur_object_num + p.cur_object_num,
                };
                let status = KlineFetchStatus::WIP(updated.snapshot());
                let ghost uv = updated@;
                self.progs.set(i, updated);
                self.totals = Ghost(self.totals@.insert(pv.symbol, uv));
                assert forall|j: int| 0 <= j < self.progs@.len() implies #[trigger]
                    self.totals@.contains_key(self.progs@[j].symbol@)
                    && self.totals@[self.progs@[j].symbol@] == self.progs@[j]@ by {
                    if j != i {
                        assert(old(self).totals@.contains_key(old(self).progs@[j].symbol@));
                    }
                }
                assert forall|s: Seq<char>| #[trigger]
                    self.totals@.contains_key(s) implies exists|j: int|
                    0 <= j < self.progs@.len() && #[trigger] self.progs@[j].symbol@ == s by {
                    if s == pv.symbol {
                        assert(self.progs@[i as int].symbol@ == s);
                    } else {
                        let j = choose|j: int|
                            0 <= j < old(self).progs@.len() && #[trigger] old(self).progs@[j].symbol@
                                == s;
                        assert(self.progs@[j].symbol@ == s);
                    }
                }
                status
            },
        }
    }
}

/// Runs the history downloads of one exchange and broadcasts their progress.
pub struct ExchangeManager<T> {
    /// The name of the exchange.
    pub name: String,
    /// The exchange that downloads the history.
    pub exchange: T,
}

impl<T> ExchangeManager<T> {
    /// A manager of `exchange` under the name `name`.
    pub fn new(name: String, exchange: T) -> (manager: Self)
        ensures
            manager.name == name,
            manager.exchange == exchange,
    {
        ExchangeManager { name, exchange }
    }

    /// The channel on which the manager broadcasts the download progress.
    pub fn progress_channel(&self) -> (channel: String)
        ensures
            channel@ == self.name@ + ".kline.progress"@,
    {
        progress_channel(self.name.as_str())
    }
}

/// The status that closes a download.
pub fn completed() -> (status: KlineFetchStatus)
    ensures
        status matches KlineFetchStatus::Completed,
{
    KlineFetchStatus::Completed
}

/// The channel on which the download progress of the exchange `name` is
/// broadcast and subscribed to.
pub fn progress_channel(name: &str) -> (channel: String)
    ensures
        channel@ == name@ + ".kline.progress"@,
{
    let channel = name.to_owned();
    channel.concat(".kline.progress")
}

} // verus!
