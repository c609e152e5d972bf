//! The chain registry: the mutable mapping from currency to chain
//! configuration, with unique keys, write-once entries, and replay of the
//! persisted record list.

use vstd::prelude::*;
use crate::types::{Currency, EvmConfig, EvmConfigV, RegisterError};

verus! {

/// Mathematical value of one registry entry.
pub open spec fn entry_view(e: (Currency, EvmConfig)) -> (Currency, EvmConfigV) {
    (e.0, e.1@)
}

/// Folds a sequence of entries into a map, front first.
pub open spec fn ext_map(
    m: Map<Currency, EvmConfigV>,
    s: Seq<(Currency, EvmConfigV)>,
) -> Map<Currency, EvmConfigV>
    decreases s.len(),
{
    if s.len() == 0 {
        m
    } else {
        ext_map(m.insert(s[0].0, s[0].1), s.drop_first())
    }
}

/// What one registration does to the registry map: refused on an unknown
/// ticker or an already-present currency, otherwise inserted.
pub open spec fn spec_register(
    m: Map<Currency, EvmConfigV>,
    cfg: EvmConfigV,
) -> (Map<Currency, EvmConfigV>, Result<Currency, RegisterError>) {
    match Currency::from_str_spec(cfg.ticker) {
        None => (m, Err(RegisterError::UnknownCurrency)),
        Some(c) => if m.contains_key(c) {
            (m, Err(RegisterError::AlreadyRegistered))
        } else {
            (m.insert(c, cfg), Ok(c))
        },
    }
}

/// Replays a record list through [`spec_register`], starting from `m`.
pub open spec fn replay_from(
    m: Map<Currency, EvmConfigV>,
    rs: Seq<EvmConfigV>,
) -> Result<Map<Currency, EvmConfigV>, RegisterError>
    decreases rs.len(),
{
    if rs.len() == 0 {
        Ok(m)
    } else {
        match Currency::from_str_spec(rs[0].ticker) {
            None => Err(RegisterError::UnknownCurrency),
            Some(c) => if m.contains_key(c) {
                Err(RegisterError::AlreadyRegistered)
            } else {
                replay_from(m.insert(c, rs[0]), rs.drop_first())
            },
        }
    }
}

/// Replays a record list from the empty registry.
pub open spec fn replay(rs: Seq<EvmConfigV>) -> Result<
    Map<Currency, EvmConfigV>,
    RegisterError,
> {
    replay_from(Map::empty(), rs)
}

/// The mapping from currency to chain configuration; the single source of
/// truth for which chains are servable.
pub struct ChainRegistry {
    entries: Vec<(Currency, EvmConfig)>,
}

impl ChainRegistry {
    /// The entries as a sequence of mathematical values, in insertion order.
    pub closed spec fn entries_view(self) -> Seq<(Currency, EvmConfigV)> {
        self.entries@.map_values(|e: (Currency, EvmConfig)| entry_view(e))
    }

    /// The record list this registry persists: its configurations in
    /// insertion order.
    pub open spec fn records_view(self) -> Seq<EvmConfigV> {
        self.entries_view().map_values(|e: (Currency, EvmConfigV)| e.1)
    }

    /// The registry as a map from currency to configuration.
    pub open spec fn as_map(self) -> Map<Currency, EvmConfigV> {
        ext_map(Map::empty(), self.entries_view())
    }

    /// Well-formedness: currencies are pairwise distinct, and each entry is
    /// keyed by the currency its own ticker names.
    pub open spec fn wf(self) -> bool {
        &&& forall|i: int, j: int|
            0 <= i < j < self.entries_view().len() ==> (#[trigger] self.entries_view()[i]).0 != (
            #[trigger] self.entries_view()[j]).0
        &&& forall|i: int|
            0 <= i < self.entries_view().len() ==> Currency::from_str_spec(
                (#[trigger] self.entries_view()[i]).1.ticker,
            ) == Some(self.entries_view()[i].0)
    }

    /// Creates an empty registry.
    pub fn new() -> (r: ChainRegistry)
        ensures
            r.wf(),
            r.as_map() == Map::<Currency, EvmConfigV>::empty(),
            r.entries_view() == Seq::<(Currency, EvmConfigV)>::empty(),
    {
        let r = ChainRegistry { entries: Vec::new() };
        proof {
            assert(r.entries_view() =~= Seq::<(Currency, EvmConfigV)>::empty());
        }
        r
    }

    /// Read-only lookup of the configuration registered for `c`.
    pub fn get(&self, c: Currency) -> (r: Option<&EvmConfig>)
        requires
            self.wf(),
        ensures
            match r {
                Some(cfg) => self.as_map().contains_key(c) && cfg@ == self.as_map()[c],
                None => !self.as_map().contains_key(c),
            },
    {
        let n = self.entries.len();
        let mut i: usize = 0;
        while i < n
            invariant
                self.wf(),
                n == self.entries@.len(),
                0 <= i <= n,
                forall|j: int| 0 <= j < i ==> (#[trigger] self.entries_view()[j]).0 != c,
            decreases n - i,
        {
            let e = &self.entries[i];
            if e.0 == c {
                proof {
                    lemma_ext_map_index(Map::empty(), self.entries_view(), i as int);
                }
                return Some(&e.1);
            }
            i = i + 1;
        }
        proof {
            lemma_ext_map_absent(Map::empty(), self.entries_view(), c);
        }
        None
    }

    /// Registers a configuration under the currency its ticker names.
    /// Fails on an unknown ticker or an already-registered currency, and
    /// then leaves the registry unchanged.
    pub fn register(&mut self, cfg: EvmConfig) -> (r: Result<Currency, RegisterError>)
        requires
            old(self).wf(),
        ensures
            final(self).wf(),
            (final(self).as_map(), r) == spec_register(old(self).as_map(), cfg@),
            r is Ok ==> final(self).entries_view() == old(self).entries_view().push(
                (r->Ok_0, cfg@),
            ),
            r is Err ==> final(self).entries_view() == old(self).entries_view(),
    {
        let c = match Currency::from_str(cfg.ticker.as_str()) {
            Some(c) => c,
            None => {
                return Err(RegisterError::UnknownCurrency);
            },
        };
        if self.contains(c) {
            return Err(RegisterError::AlreadyRegistered);
        }
        proof {
            assert forall|j: int|
                0 <= j < self.entries_view().len() implies (#[trigger] self.entries_view()[j]).0
                != c by {
                if self.entries_view()[j].0 == c {
                    lemma_ext_map_index(Map::empty(), self.entries_view(), j);
                }
            }
            lemma_ext_map_push(Map::empty(), self.entries_view(), (c, cfg@));
        }
        self.entries.push((c, cfg));
        proof {
            assert(self.entries_view() =~= old(self).entries_view().push((c, cfg@)));
        }
        Ok(c)
    }

    /// Whether a configuration is registered for `c`.
    pub fn contains(&self, c: Currency) -> (r: bool)
        requires
            self.wf(),
        ensures
            r == self.as_map().contains_key(c),
    {
        let mut i: usize = 0;
        let n = self.entries.len();
        while i < n
            invariant
                self.wf(),
                n == self.entries@.len(),
                0 <= i <= n,
                forall|j: int| 0 <= j < i ==> (#[trigger] self.entries_view()[j]).0 != c,
            decreases n - i,
        {
            if self.entries[i].0 == c {
                proof {
                    lemma_ext_map_index(Map::empty(), self.entries_view(), i as int);
                }
                return true;
            }
            i = i + 1;
        }
        proof {
            lemma_ext_map_absent(Map::empty(), self.entries_view(), c);
        }
        false
    }

    /// A snapshot of all current entries, in insertion order.
    pub fn list(&self) -> (r: Vec<(Currency, EvmConfig)>)
        ensures
            r@.map_values(|e: (Currency, EvmConfig)| entry_view(e)) == self.entries_view(),
    {
        let mut out: Vec<(Currency, EvmConfig)> = Vec::new();
        let n = self.entries.len();
        let mut i: usize = 0;
        while i < n
            invariant
                n == self.entries@.len(),
                0 <= i <= n,
                out@.len() == i,
                forall|j: int|
                    0 <= j < i ==> entry_view(#[trigger] out@[j]) == self.entries_view()[j],
            decreases n - i,
        {
            let e = &self.entries[i];
            out.push((e.0, e.1.duplicate()));
            i = i + 1;
        }
        proof {
            assert(out@.map_values(|e: (Currency, EvmConfig)| entry_view(e))
                =~= self.entries_view());
        }
        out
    }

    /// The number of registered chains.
    pub fn len(&self) -> (r: usize)
        ensures
            r == self.entries_view().len(),
    {
        self.entries.len()
    }

    /// The record list to persist: the registered configurations in
    /// insertion order.
    pub fn to_records(&self) -> (r: Vec<EvmConfig>)
        ensures
            r@.map_values(|c: EvmConfig| c@) == self.records_view(),
    {
        let mut out: Vec<EvmConfig> = Vec::new();
        let n = self.entries.len();
        let mut i: usize = 0;
        while i < n
            invariant
                n == self.entries@.len(),
                0 <= i <= n,
                out@.len() == i,
                forall|j: int| 0 <= j < i ==> (#[trigger] out@[j])@ == self.entries_view()[j].1,
            decreases n - i,
        {
            out.push(self.entries[i].1.duplicate());
            i = i + 1;
        }
        proof {
            assert(out@.map_values(|c: EvmConfig| c@) =~= self.records_view());
        }
        out
    }

    /// Rebuilds a registry by replaying a persisted record list; fails as
    /// the first refused registration would.
    pub fn from_records(records: Vec<EvmConfig>) -> (r: Result<ChainRegistry, RegisterError>)
        ensures
            match r {
                Ok(reg) => reg.wf() && replay(records@.map_values(|c: EvmConfig| c@)) == Ok::<
                    _,
                    RegisterError,
                >(reg.as_map()),
                Err(e) => replay(records@.map_values(|c: EvmConfig| c@)) == Err::<
                    Map<Currency, EvmConfigV>,
                    RegisterError,
                >(e),
            },
    {
        let ghost rs = records@.map_values(|c: EvmConfig| c@);
        let mut reg = ChainRegistry::new();
        let n = records.len();
        let mut i: usize = 0;
        while i < n
            invariant
                reg.wf(),
                n == records@.len(),
                rs == records@.map_values(|c: EvmConfig| c@),
                0 <= i <= n,
                replay(rs.take(i as int)) == Ok::<_, RegisterError>(reg.as_map()),
            decreases n - i,
        {
            proof {
                lemma_replay_push(rs.take(i as int), rs[i as int], reg.as_map());
                assert(rs.take(i as int).push(rs[i as int]) =~= rs.take(i as int + 1));
            }
            match reg.register(records[i].duplicate()) {
                Ok(_) => {},
                Err(e) => {
                    proof {
                        lemma_replay_prefix_err(rs, i as int + 1);
                    }
                    return Err(e);
                },
            }
            i = i + 1;
        }
        proof {
            assert(rs.take(n as int) =~= rs);
        }
        Ok(reg)
    }
}

/// Folding past an absent key neither adds it nor changes its value.
proof fn lemma_ext_map_absent(
    m: Map<Currency, EvmConfigV>,
    s: Seq<(Currency, EvmConfigV)>,
    c: Currency,
)
    requires
        forall|j: int| 0 <= j < s.len() ==> (#[trigger] s[j]).0 != c,
    ensures
        ext_map(m, s).contains_key(c) == m.contains_key(c),
        m.contains_key(c) ==> ext_map(m, s)[c] == m[c],
    decreases s.len(),
{
    if s.len() == 0 {
    } else {
        lemma_ext_map_absent(m.insert(s[0].0, s[0].1), s.drop_first(), c);
    }
}

/// In a registry with pairwise-distinct keys, the folded map holds each
/// entry under its own key.
proof fn lemma_ext_map_index(m: Map<Currency, EvmConfigV>, s: Seq<(Currency, EvmConfigV)>, i: int)
    requires
        0 <= i < s.len(),
        forall|p: int, q: int| 0 <= p < q < s.len() ==> (#[trigger] s[p]).0 != (#[trigger] s[q]).0,
    ensures
        ext_map(m, s).contains_key(s[i].0),
        ext_map(m, s)[s[i].0] == s[i].1,
    decreases s.len(),
{
    if i == 0 {
        lemma_ext_map_absent(m.insert(s[0].0, s[0].1), s.drop_first(), s[0].0);
    } else {
        lemma_ext_map_index(m.insert(s[0].0, s[0].1), s.drop_first(), i - 1);
    }
}

/// Appending an entry to the fold is one more insertion.
proof fn lemma_ext_map_push(
    m: Map<Currency, EvmConfigV>,
    s: Seq<(Currency, EvmConfigV)>,
    e: (Currency, EvmConfigV),
)
    ensures
        ext_map(m, s.push(e)) == ext_map(m, s).insert(e.0, e.1),
    decreases s.len(),
{
    reveal_with_fuel(ext_map, 3);
    if s.len() == 0 {
        assert(s.push(e)[0] == e);
        assert(s.push(e).drop_first() =~= Seq::<(Currency, EvmConfigV)>::empty());
    } else {
        assert(s.push(e)[0] == s[0]);
        assert(s.push(e).drop_first() =~= s.drop_first().push(e));
        lemma_ext_map_push(m.insert(s[0].0, s[0].1), s.drop_first(), e);
    }
}

/// Replaying one more record applies one more registration.
proof fn lemma_replay_push(rs: Seq<EvmConfigV>, e: EvmConfigV, m: Map<Currency, EvmConfigV>)
    requires
        replay(rs) == Ok::<_, RegisterError>(m),
    ensures
        ({
            let (m2, r) = spec_register(m, e);
            replay(rs.push(e)) == (match r {
                Ok(_) => Ok::<Map<Currency, EvmConfigV>, RegisterError>(m2),
                Err(err) => Err::<Map<Currency, EvmConfigV>, RegisterError>(err),
            })
        }),
{
    lemma_replay_from_push(Map::empty(), rs, e);
}

/// Helper for [`lemma_replay_push`], generalized over the accumulator.
proof fn lemma_replay_from_push(
    m0: Map<Currency, EvmConfigV>,
    rs: Seq<EvmConfigV>,
    e: EvmConfigV,
)
    requires
        replay_from(m0, rs) is Ok,
    ensures
        ({
            let m = replay_from(m0, rs)->Ok_0;
            let (m2, r) = spec_register(m, e);
            replay_from(m0, rs.push(e)) == (match r {
                Ok(_) => Ok::<Map<Currency, EvmConfigV>, RegisterError>(m2),
                Err(err) => Err::<Map<Currency, EvmConfigV>, RegisterError>(err),
            })
        }),
    decreases rs.len(),
{
    reveal_with_fuel(replay_from, 3);
    if rs.len() == 0 {
        assert(rs.push(e)[0] == e);
        assert(rs.push(e).drop_first() =~= Seq::<EvmConfigV>::empty());
        assert(replay_from(m0, rs) == Ok::<_, RegisterError>(m0));
    } else {
        assert(rs.push(e)[0] == rs[0]);
        assert(rs.push(e).drop_first() =~= rs.drop_first().push(e));
        match Currency::from_str_spec(rs[0].ticker) {
            None => {
                assert(replay_from(m0, rs) is Err);
            },
            Some(c) => {
                if m0.contains_key(c) {
                    assert(replay_from(m0, rs) is Err);
                } else {
                    lemma_replay_from_push(m0.insert(c, rs[0]), rs.drop_first(), e);
                }
            },
        }
    }
}

/// A replay that fails on some prefix fails on the whole list the same way.
proof fn lemma_replay_prefix_err(rs: Seq<EvmConfigV>, i: int)
    requires
        0 <= i <= rs.len(),
        replay(rs.take(i)) is Err,
    ensures
        replay(rs) == replay(rs.take(i)),
{
    lemma_replay_from_prefix_err(Map::empty(), rs, i);
}

/// Helper for [`lemma_replay_prefix_err`], generalized over the accumulator.
proof fn lemma_replay_from_prefix_err(m: Map<Currency, EvmConfigV>, rs: Seq<EvmConfigV>, i: int)
    requires
        0 <= i <= rs.len(),
        replay_from(m, rs.take(i)) is Err,
    ensures
        replay_from(m, rs) == replay_from(m, rs.take(i)),
    decreases rs.len(),
{
    if rs.len() == 0 {
    } else if i == 0 {
    } else {
        assert(rs.take(i)[0] == rs[0]);
        match Currency::from_str_spec(rs[0].ticker) {
            None => {},
            Some(c) => {
                if m.contains_key(c) {
                } else {
                    assert(rs.take(i).drop_first() =~= rs.drop_first().take(i - 1));
                    lemma_replay_from_prefix_err(m.insert(c, rs[0]), rs.drop_first(), i - 1);
                }
            },
        }
    }
}

/// Registering a fresh currency succeeds, and a lookup then finds exactly
/// the registered configuration.
pub proof fn lemma_register_then_get(m: Map<Currency, EvmConfigV>, cfg: EvmConfigV, c: Currency)
    requires
        Currency::from_str_spec(cfg.ticker) == Some(c),
        !m.contains_key(c),
    ensures
        spec_register(m, cfg) == (m.insert(c, cfg), Ok::<Currency, RegisterError>(c)),
        m.insert(c, cfg)[c] == cfg,
        m.insert(c, cfg).contains_key(c),
{
}

/// A second registration for an already-registered currency is refused and
/// changes nothing: the first configuration stays in place.
pub proof fn lemma_reregister_rejected(
    m: Map<Currency, EvmConfigV>,
    cfg: EvmConfigV,
    cfg2: EvmConfigV,
    c: Currency,
)
    requires
        Currency::from_str_spec(cfg.ticker) == Some(c),
        Currency::from_str_spec(cfg2.ticker) == Some(c),
        !m.contains_key(c),
    ensures
        ({
            let (m1, r1) = spec_register(m, cfg);
            let (m2, r2) = spec_register(m1, cfg2);
            r1 == Ok::<Currency, RegisterError>(c) && r2 == Err::<Currency, RegisterError>(
                RegisterError::AlreadyRegistered,
            ) && m2 == m1 && m1[c] == cfg
        }),
{
}

/// Round trip of persistence: replaying the record list a well-formed
/// registry persists rebuilds exactly that registry's map.
pub proof fn lemma_persist_round_trip(reg: ChainRegistry)
    requires
        reg.wf(),
    ensures
        replay(reg.records_view()) == Ok::<Map<Currency, EvmConfigV>, RegisterError>(reg.as_map()),
{
    lemma_replay_entries(Map::empty(), reg.entries_view());
}

/// Helper for [`lemma_persist_round_trip`]: replaying the configurations of
/// a unique-keyed, ticker-consistent entry list, none of whose keys is in
/// the accumulator, folds them all in.
proof fn lemma_replay_entries(m: Map<Currency, EvmConfigV>, s: Seq<(Currency, EvmConfigV)>)
    requires
        forall|p: int, q: int| 0 <= p < q < s.len() ==> (#[trigger] s[p]).0 != (#[trigger] s[q]).0,
        forall|i: int|
            0 <= i < s.len() ==> Currency::from_str_spec((#[trigger] s[i]).1.ticker) == Some(
                s[i].0,
            ),
        forall|i: int| 0 <= i < s.len() ==> !m.contains_key((#[trigger] s[i]).0),
    ensures
        replay_from(m, s.map_values(|e: (Currency, EvmConfigV)| e.1)) == Ok::<
            Map<Currency, EvmConfigV>,
            RegisterError,
        >(ext_map(m, s)),
    decreases s.len(),
{
    let cs = s.map_values(|e: (Currency, EvmConfigV)| e.1);
    if s.len() == 0 {
    } else {
        assert(cs[0] == s[0].1);
        let c = s[0].0;
        assert(Currency::from_str_spec(cs[0].ticker) == Some(c));
        assert(cs.drop_first() =~= s.drop_first().map_values(|e: (Currency, EvmConfigV)| e.1));
        lemma_replay_entries(m.insert(c, s[0].1), s.drop_first());
    }
}

} // verus!
