//! The store of per-token series: one append-only sequence of market data
//! points for each token symbol.
use vstd::prelude::*;

verus! {

/// One observation of a token's market: a caller-supplied timestamp in
/// seconds and price, volume and liquidity as counts of the smallest unit.
#[derive(Clone, Copy, Debug, PartialEq, Eq, Structural)]
pub struct MarketData {
    pub timestamp: u64,
    pub price: u64,
    pub volume: u64,
    pub liquidity: u64,
}

struct TokenSeries {
    token: String,
    points: Vec<MarketData>,
}

/// Holds the series of every token that data was added for.  A series is
/// created by the first point added for its token and is never removed.
pub struct AnalyticsEngine {
    series: Vec<TokenSeries>,
}

impl AnalyticsEngine {
    /// No two series share a token.
    pub closed spec fn wf(&self) -> bool {
        forall|i: int, j: int|
            0 <= i < j < self.series@.len() ==> (#[trigger] self.series@[i]).token@
                != (#[trigger] self.series@[j]).token@
    }

    spec fn slot_of(&self, t: Seq<char>, i: int) -> bool {
        0 <= i < self.series@.len() && self.series@[i].token@ == t
    }

    spec fn has(&self, t: Seq<char>) -> bool {
        exists|i: int| self.slot_of(t, i)
    }

    spec fn points_of(&self, t: Seq<char>) -> Seq<MarketData> {
        self.series@[choose|i: int| self.slot_of(t, i)].points@
    }

    proof fn lemma_slot_unique(&self, t: Seq<char>, i: int)
        requires
            self.wf(),
            self.slot_of(t, i),
        ensures
            self.has(t),
            self.points_of(t) == self.series@[i].points@,
    {
        let k = choose|k: int| self.slot_of(t, k);
        if k < i {
            assert(self.series@[k].token@ != self.series@[i].token@);
        } else if i < k {
            assert(self.series@[i].token@ != self.series@[k].token@);
        }
    }

    /// A new engine holds no series.
    pub fn new() -> (r: AnalyticsEngine)
        ensures
            r.wf(),
            r@ == Map::<Seq<char>, Seq<MarketData>>::empty(),
    {
        let r = AnalyticsEngine { series: Vec::new() };
        assert(r@ =~= Map::<Seq<char>, Seq<MarketData>>::empty());
        r
    }

    /// Position of the series of `token`, if there is one.
    fn slot(&self, token: &str) -> (r: Option<usize>)
        requires
            self.wf(),
        ensures
            r matches Some(i) ==> self.slot_of(token@, i as int),
            r is None ==> !self.has(token@),
    {
        let key: String = token.to_owned();
        let n: usize = self.series.len();
        let mut i: usize = 0;
        while i < n
            invariant
                n == self.series@.len(),
                key@ == token@,
                i <= n,
                forall|j: int| 0 <= j < i ==> !self.slot_of(token@, j),
            decreases n - i,
        {
            if self.series[i].token == key {
                return Some(i);
            }
            i = i + 1;
        }
        None
    }

    /// The series of `token`, if any point was added for it.
    pub fn series(&self, token: &str) -> (r: Option<&Vec<MarketData>>)
        requires
            self.wf(),
        ensures
            r matches Some(v) ==> self@.contains_key(token@) && v@ == self@[token@],
            r is None ==> !self@.contains_key(token@),
    {
        match self.slot(token) {
            Some(i) => {
                proof {
                    self.lemma_slot_unique(token@, i as int);
                }
                Some(&self.series[i].points)
            },
            None => None,
        }
    }

    /// Appends a point to the series of `token`, creating the series when
    /// this is the token's first point.
    pub fn add_market_data(
        &mut self,
        token: &str,
        timestamp: u64,
        price: u64,
        volume: u64,
        liquidity: u64,
    )
        requires
            old(self).wf(),
        ensures
            final(self).wf(),
            final(self)@ == old(self)@.insert(
                token@,
                (if old(self)@.contains_key(token@) {
                    old(self)@[token@]
                } else {
                    Seq::empty()
                }).push(MarketData { timestamp, price, volume, liquidity }),
            ),
    {
        let point = MarketData { timestamp, price, volume, liquidity };
        let ghost pre = *self;
        match self.slot(token) {
            Some(k) => {
                self.series[k].points.push(point);
                proof {
                    pre.lemma_slot_unique(token@, k as int);
                    assert forall|i: int| 0 <= i < self.series@.len() && i != k implies
                        #[trigger] self.series@[i] == pre.series@[i] by {}
                    assert(self.slot_of(token@, k as int));
                    self.lemma_slot_unique(token@, k as int);
                    assert forall|t: Seq<char>| #![auto] t != token@ implies self.has(t) == pre.has(t)
                        && (pre.has(t) ==> self.points_of(t) == pre.points_of(t)) by {
                        if pre.has(t) {
                            let j = choose|j: int| pre.slot_of(t, j);
                            pre.lemma_slot_unique(t, j);
                            assert(self.slot_of(t, j));
                            self.lemma_slot_unique(t, j);
                        }
                        if self.has(t) {
                            let j = choose|j: int| self.slot_of(t, j);
                            assert(pre.slot_of(t, j));
                        }
                    }
                    assert(self@ =~= pre@.insert(token@, pre@[token@].push(point)));
                }
            },
            None => {
                let key: String = token.to_owned();
                let mut points: Vec<MarketData> = Vec::new();
                points.push(point);
                self.series.push(TokenSeries { token: key, points });
                proof {
                    let k = pre.series@.len() as int;
                    assert forall|i: int| 0 <= i < k implies #[trigger] self.series@[i] == pre.series@[i]
                        && self.series@[i].token@ != token@ by {
                        assert(!pre.slot_of(token@, i));
                    }
                    assert(self.wf());
                    assert(self.slot_of(token@, k));
                    self.lemma_slot_unique(token@, k);
                    assert(points@ =~= Seq::<MarketData>::empty().push(point));
                    assert forall|t: Seq<char>| #![auto] t != token@ implies self.has(t) == pre.has(t)
                        && (pre.has(t) ==> self.points_of(t) == pre.points_of(t)) by {
                        if pre.has(t) {
                            let j = choose|j: int| pre.slot_of(t, j);
                            pre.lemma_slot_unique(t, j);
                            assert(self.slot_of(t, j));
                            self.lemma_slot_unique(t, j);
                        }
                        if self.has(t) {
                            let j = choose|j: int| self.slot_of(t, j);
                            assert(j != k);
                            assert(pre.slot_of(t, j));
                        }
                    }
                    assert(self@ =~= pre@.insert(token@, Seq::empty().push(point)));
                }
            },
        }
    }
}

impl View for AnalyticsEngine {
    type V = Map<Seq<char>, Seq<MarketData>>;

    /// Each token with a series, mapped to its points in the order added.
    closed spec fn view(&self) -> Map<Seq<char>, Seq<MarketData>> {
        Map::new(|t: Seq<char>| self.has(t), |t: Seq<char>| self.points_of(t))
    }
}

} // verus!
