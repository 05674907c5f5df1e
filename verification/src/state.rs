use crate::error::ContractError;
use crate::order::{
    key_lt, lemma_key_connex, lemma_key_irrefl, lemma_key_trans, lemma_lex_connex,
    lemma_lex_irrefl, lemma_lex_trans, lex_lt, str_lt,
};
use vstd::prelude::*;

verus! {

/// The single configuration record: the timeout, in seconds, applied when
/// a transfer request names none of its own.
#[derive(Clone, Copy)]
pub struct Config {
    pub default_timeout: u64,
}

/// The two escrow counters of one (channel, denomination) pair.
#[derive(Clone, Copy)]
pub struct ChannelState {
    /// Value escrowed and not yet released by a confirmed failure or
    /// timeout; never exceeds `total_sent`.
    pub outstanding: u128,
    /// Everything ever escrowed over this pair; never decreases.
    pub total_sent: u128,
}

/// One escrow ledger row, keyed by channel identity and denomination key.
pub struct LedgerEntry {
    pub channel: String,
    pub denom: String,
    pub state: ChannelState,
}

/// The gateway's whole persistent state, passed explicitly into every
/// operation: configuration, registered channels, the allow-list of token
/// ledgers, and the escrow ledger.
pub struct State {
    pub config: Config,
    /// Registered channel identities, ascending.
    pub channels: Vec<String>,
    /// Validated ledger-contract addresses trusted to originate transfers.
    pub allow_list: Vec<String>,
    /// Escrow rows, ascending by (channel, denomination) key.
    pub ledger: Vec<LedgerEntry>,
}

/// Whether a ledger row carries the given (channel, denomination) key.
pub open spec fn entry_matches(e: LedgerEntry, c: Seq<char>, d: Seq<char>) -> bool {
    e.channel@ == c && e.denom@ == d
}

/// The counters stored under a key, if any row carries it.
pub open spec fn lookup(s: Seq<LedgerEntry>, c: Seq<char>, d: Seq<char>) -> Option<ChannelState>
    decreases s.len(),
{
    if s.len() == 0 {
        None
    } else if entry_matches(s[0], c, d) {
        Some(s[0].state)
    } else {
        lookup(s.skip(1), c, d)
    }
}

/// The counters under a key, defaulting to zero: entries are created
/// lazily on first use.
pub open spec fn entry_or_zero(s: Seq<LedgerEntry>, c: Seq<char>, d: Seq<char>) -> ChannelState {
    match lookup(s, c, d) {
        Some(v) => v,
        None => ChannelState { outstanding: 0, total_sent: 0 },
    }
}

/// Both counters bumped by one escrowed quantity.
pub open spec fn entry_after(e: ChannelState, a: u128) -> ChannelState {
    ChannelState {
        outstanding: (e.outstanding + a) as u128,
        total_sent: (e.total_sent + a) as u128,
    }
}

/// Whether bumping the counters under a key stays within 128 bits.
pub open spec fn increase_fits(s: Seq<LedgerEntry>, c: Seq<char>, d: Seq<char>, a: u128) -> bool {
    entry_or_zero(s, c, d).outstanding + a <= u128::MAX && entry_or_zero(s, c, d).total_sent + a
        <= u128::MAX
}

/// Rows are strictly ascending by (channel, denomination) key, so every
/// key appears at most once.
pub open spec fn ledger_sorted(s: Seq<LedgerEntry>) -> bool {
    forall|i: int, j: int|
        0 <= i < j < s.len() ==> key_lt(
            #[trigger] s[i].channel@,
            s[i].denom@,
            #[trigger] s[j].channel@,
            s[j].denom@,
        )
}

/// Every row keeps `outstanding` within `total_sent`.
pub open spec fn ledger_entries_ok(s: Seq<LedgerEntry>) -> bool {
    forall|i: int| 0 <= i < s.len() ==> (#[trigger] s[i].state).outstanding <= s[i].state.total_sent
}

/// The escrow ledger's invariant.
pub open spec fn ledger_ok(s: Seq<LedgerEntry>) -> bool {
    ledger_sorted(s) && ledger_entries_ok(s)
}

/// Strings strictly ascending, so each appears at most once.
pub open spec fn strings_sorted(s: Seq<String>) -> bool {
    forall|i: int, j: int| 0 <= i < j < s.len() ==> lex_lt(#[trigger] s[i]@, #[trigger] s[j]@)
}

/// Membership of a string, by content.
pub open spec fn contains_str(s: Seq<String>, x: Seq<char>) -> bool {
    exists|i: int| 0 <= i < s.len() && (#[trigger] s[i])@ == x
}

impl State {
    /// The state invariant every operation preserves.
    pub open spec fn wf(self) -> bool {
        ledger_ok(self.ledger@) && strings_sorted(self.channels@)
    }

    /// Whether a channel identity is registered.
    pub open spec fn spec_has_channel(self, id: Seq<char>) -> bool {
        contains_str(self.channels@, id)
    }

    /// Whether a ledger-contract address is on the allow-list.
    pub open spec fn spec_allowed(self, addr: Seq<char>) -> bool {
        contains_str(self.allow_list@, addr)
    }
}

/// A key either matched by an entry or strictly ordered against it.
pub open spec fn first_match(s: Seq<LedgerEntry>, c: Seq<char>, d: Seq<char>, i: int) -> bool {
    &&& 0 <= i < s.len()
    &&& entry_matches(s[i], c, d)
    &&& forall|k: int| 0 <= k < i ==> !entry_matches(#[trigger] s[k], c, d)
}

/// A key's first matching row decides the lookup.
pub proof fn lemma_lookup_at(s: Seq<LedgerEntry>, c: Seq<char>, d: Seq<char>, i: int)
    requires
        first_match(s, c, d, i),
    ensures
        lookup(s, c, d) == Some(s[i].state),
    decreases i,
{
    if i > 0 {
        assert(first_match(s.skip(1), c, d, i - 1)) by {
            assert(s.skip(1)[i - 1] == s[i]);
            assert forall|k: int| 0 <= k < i - 1 implies !entry_matches(
                #[trigger] s.skip(1)[k],
                c,
                d,
            ) by {
                assert(s.skip(1)[k] == s[k + 1]);
            }
        }
        lemma_lookup_at(s.skip(1), c, d, i - 1);
    }
}

/// A key matched by no row looks up to nothing.
pub proof fn lemma_lookup_none(s: Seq<LedgerEntry>, c: Seq<char>, d: Seq<char>)
    requires
        forall|k: int| 0 <= k < s.len() ==> !entry_matches(#[trigger] s[k], c, d),
    ensures
        lookup(s, c, d) == None::<ChannelState>,
    decreases s.len(),
{
    if s.len() > 0 {
        assert forall|k: int| 0 <= k < s.skip(1).len() implies !entry_matches(
            #[trigger] s.skip(1)[k],
            c,
            d,
        ) by {
            assert(s.skip(1)[k] == s[k + 1]);
        }
        lemma_lookup_none(s.skip(1), c, d);
    }
}

/// Replacing a row with one of the same key leaves every other key's
/// lookup unchanged.
pub proof fn lemma_lookup_update_frame(
    s: Seq<LedgerEntry>,
    i: int,
    e: LedgerEntry,
    c: Seq<char>,
    d: Seq<char>,
)
    requires
        0 <= i < s.len(),
        e.channel@ == s[i].channel@,
        e.denom@ == s[i].denom@,
        !(c == e.channel@ && d == e.denom@),
    ensures
        lookup(s.update(i, e), c, d) == lookup(s, c, d),
    decreases i,
{
    let t = s.update(i, e);
    if i == 0 {
        assert(!entry_matches(t[0], c, d));
        assert(!entry_matches(s[0], c, d));
        assert(t.skip(1) =~= s.skip(1));
    } else {
        assert(t[0] == s[0]);
        if !entry_matches(s[0], c, d) {
            assert(t.skip(1) =~= s.skip(1).update(i - 1, e));
            lemma_lookup_update_frame(s.skip(1), i - 1, e, c, d);
        }
    }
}

/// Inserting a row of a fresh key leaves every other key's lookup
/// unchanged.
pub proof fn lemma_lookup_insert_frame(
    s: Seq<LedgerEntry>,
    i: int,
    e: LedgerEntry,
    c: Seq<char>,
    d: Seq<char>,
)
    requires
        0 <= i <= s.len(),
        !(c == e.channel@ && d == e.denom@),
    ensures
        lookup(s.insert(i, e), c, d) == lookup(s, c, d),
    decreases i,
{
    let t = s.insert(i, e);
    s.insert_ensures(i, e);
    if i == 0 {
        assert(!entry_matches(t[0], c, d));
        assert(t.skip(1) =~= s);
    } else {
        assert(t[0] == s[0]);
        if !entry_matches(s[0], c, d) {
            assert(t.skip(1) =~= s.skip(1).insert(i - 1, e)) by {
                s.skip(1).insert_ensures(i - 1, e);
            }
            lemma_lookup_insert_frame(s.skip(1), i - 1, e, c, d);
        }
    }
}

/// Compares two ledger keys in the ledger's ascending order.
fn key_lt_exec(c1: &String, d1: &String, c2: &String, d2: &String) -> (r: bool)
    ensures
        r == key_lt(c1@, d1@, c2@, d2@),
{
    if str_lt(c1.as_str(), c2.as_str()) {
        true
    } else if *c1 == *c2 {
        str_lt(d1.as_str(), d2.as_str())
    } else {
        false
    }
}

/// Loads-or-defaults the row under (channel, denomination), adds `amount`
/// to both counters with overflow-checked 128-bit addition, and persists
/// the result; the caller escrows value optimistically before the packet
/// is emitted. On overflow the ledger is untouched.
pub fn increase_channel_balance(
    ledger: &mut Vec<LedgerEntry>,
    channel: &String,
    denom: &String,
    amount: u128,
) -> (r: Result<(), ContractError>)
    requires
        ledger_ok(old(ledger)@),
    ensures
        ledger_ok(final(ledger)@),
        match r {
            Ok(()) => {
                &&& increase_fits(old(ledger)@, channel@, denom@, amount)
                &&& lookup(final(ledger)@, channel@, denom@) == Some(
                    entry_after(entry_or_zero(old(ledger)@, channel@, denom@), amount),
                )
                &&& forall|c2: Seq<char>, d2: Seq<char>|
                    !(c2 == channel@ && d2 == denom@) ==> #[trigger] lookup(final(ledger)@, c2, d2)
                        == lookup(old(ledger)@, c2, d2)
            },
            Err(e) => {
                &&& e == ContractError::Overflow
                &&& !increase_fits(old(ledger)@, channel@, denom@, amount)
                &&& *final(ledger) == *old(ledger)
            },
        },
{
    let ghost s0 = ledger@;
    let n = ledger.len();
    let mut i: usize = 0;
    loop
        invariant
            i <= n,
            n == ledger@.len(),
            ledger@ == s0,
            forall|k: int|
                0 <= k < i ==> key_lt(
                    (#[trigger] ledger@[k]).channel@,
                    ledger@[k].denom@,
                    channel@,
                    denom@,
                ),
        ensures
            i <= n,
            ledger@ == s0,
            forall|k: int|
                0 <= k < i ==> key_lt(
                    (#[trigger] ledger@[k]).channel@,
                    ledger@[k].denom@,
                    channel@,
                    denom@,
                ),
            i < n ==> !key_lt(ledger@[i as int].channel@, ledger@[i as int].denom@, channel@, denom@),
        decreases n - i,
    {
        if i >= n {
            break;
        }
        let e = &ledger[i];
        if !key_lt_exec(&e.channel, &e.denom, channel, denom) {
            break;
        }
        i = i + 1;
    }
    proof {
        assert forall|k: int| 0 <= k < i implies !entry_matches(#[trigger] s0[k], channel@, denom@) by {
            if entry_matches(s0[k], channel@, denom@) {
                lemma_key_irrefl(channel@, denom@);
            }
        }
    }
    let mut found = false;
    if i < n {
        let e = &ledger[i];
        found = e.channel == *channel && e.denom == *denom;
    }
    if found {
        proof {
            lemma_lookup_at(s0, channel@, denom@, i as int);
        }
        let o = ledger[i].state.outstanding;
        let t = ledger[i].state.total_sent;
        if amount > u128::MAX - o || amount > u128::MAX - t {
            return Err(ContractError::Overflow);
        }
        let e2 = LedgerEntry {
            channel: channel.clone(),
            denom: denom.clone(),
            state: ChannelState { outstanding: o + amount, total_sent: t + amount },
        };
        proof {
            lemma_lookup_at(s0.update(i as int, e2), channel@, denom@, i as int);
            assert forall|c2: Seq<char>, d2: Seq<char>|
                !(c2 == channel@ && d2 == denom@) implies #[trigger] lookup(
                s0.update(i as int, e2),
                c2,
                d2,
            ) == lookup(s0, c2, d2) by {
                lemma_lookup_update_frame(s0, i as int, e2, c2, d2);
            }
        }
        ledger.set(i, e2);
        Ok(())
    } else {
        proof {
            if i < n {
                lemma_key_connex(s0[i as int].channel@, s0[i as int].denom@, channel@, denom@);
            }
            assert forall|k: int| 0 <= k < n implies !entry_matches(
                #[trigger] s0[k],
                channel@,
                denom@,
            ) by {
                if k >= i {
                    assert(key_lt(channel@, denom@, s0[i as int].channel@, s0[i as int].denom@));
                    if k > i {
                        lemma_key_trans(
                            channel@,
                            denom@,
                            s0[i as int].channel@,
                            s0[i as int].denom@,
                            s0[k].channel@,
                            s0[k].denom@,
                        );
                    }
                    if entry_matches(s0[k], channel@, denom@) {
                        lemma_key_irrefl(channel@, denom@);
                    }
                }
            }
            lemma_lookup_none(s0, channel@, denom@);
        }
        let e2 = LedgerEntry {
            channel: channel.clone(),
            denom: denom.clone(),
            state: ChannelState { outstanding: amount, total_sent: amount },
        };
        proof {
            s0.insert_ensures(i as int, e2);
            let s1 = s0.insert(i as int, e2);
            assert(first_match(s1, channel@, denom@, i as int));
            lemma_lookup_at(s1, channel@, denom@, i as int);
            assert forall|c2: Seq<char>, d2: Seq<char>|
                !(c2 == channel@ && d2 == denom@) implies #[trigger] lookup(s1, c2, d2) == lookup(
                s0,
                c2,
                d2,
            ) by {
                lemma_lookup_insert_frame(s0, i as int, e2, c2, d2);
            }
            assert(ledger_sorted(s1)) by {
                assert forall|x: int, y: int| 0 <= x < y < s1.len() implies key_lt(
                    s1[x].channel@,
                    s1[x].denom@,
                    s1[y].channel@,
                    s1[y].denom@,
                ) by {
                    if y < i {
                    } else if x < i && y == i {
                    } else if x == i {
                        lemma_key_trans_from_target(s0, i as int, y - 1, channel@, denom@);
                    } else if x < i && y > i {
                        assert(s1[x] == s0[x]);
                        assert(s1[y] == s0[y - 1]);
                    } else {
                        assert(s1[x] == s0[x - 1]);
                        assert(s1[y] == s0[y - 1]);
                    }
                }
            }
        }
        ledger.insert(i, e2);
        Ok(())
    }
}

/// The compensating decrement, invoked by the acknowledgement/timeout
/// collaborator once the remote side rejected or never confirmed a
/// packet: releases `amount` from `outstanding`, leaving `total_sent` as
/// it is. It can neither drive `outstanding` below zero nor touch any
/// other row, so the ledger invariant survives every call site.
pub fn decrease_channel_balance(
    ledger: &mut Vec<LedgerEntry>,
    channel: &String,
    denom: &String,
    amount: u128,
) -> (r: Result<(), ContractError>)
    requires
        ledger_ok(old(ledger)@),
    ensures
        ledger_ok(final(ledger)@),
        match r {
            Ok(()) => {
                &&& lookup(old(ledger)@, channel@, denom@) matches Some(v)
                    && v.outstanding >= amount && lookup(final(ledger)@, channel@, denom@) == Some(
                    ChannelState {
                        outstanding: (v.outstanding - amount) as u128,
                        total_sent: v.total_sent,
                    },
                )
                &&& forall|c2: Seq<char>, d2: Seq<char>|
                    !(c2 == channel@ && d2 == denom@) ==> #[trigger] lookup(final(ledger)@, c2, d2)
                        == lookup(old(ledger)@, c2, d2)
            },
            Err(e) => {
                &&& *final(ledger) == *old(ledger)
                &&& match lookup(old(ledger)@, channel@, denom@) {
                    None => e == (ContractError::NoSuchChannelState {
                        id: *channel,
                        denom: *denom,
                    }),
                    Some(v) => v.outstanding < amount && e == ContractError::InsufficientFunds,
                }
            },
        },
{
    let ghost s0 = ledger@;
    let n = ledger.len();
    let mut i: usize = 0;
    loop
        invariant
            i <= n,
            n == ledger@.len(),
            ledger@ == s0,
            forall|k: int|
                0 <= k < i ==> key_lt(
                    (#[trigger] ledger@[k]).channel@,
                    ledger@[k].denom@,
                    channel@,
                    denom@,
                ),
        ensures
            i <= n,
            ledger@ == s0,
            forall|k: int|
                0 <= k < i ==> key_lt(
                    (#[trigger] ledger@[k]).channel@,
                    ledger@[k].denom@,
                    channel@,
                    denom@,
                ),
            i < n ==> !key_lt(ledger@[i as int].channel@, ledger@[i as int].denom@, channel@, denom@),
        decreases n - i,
    {
        if i >= n {
            break;
        }
        let e = &ledger[i];
        if !key_lt_exec(&e.channel, &e.denom, channel, denom) {
            break;
        }
        i = i + 1;
    }
    let mut found = false;
    if i < n {
        let e = &ledger[i];
        found = e.channel == *channel && e.denom == *denom;
    }
    if found {
        proof {
            assert forall|k: int| 0 <= k < i implies !entry_matches(
                #[trigger] s0[k],
                channel@,
                denom@,
            ) by {
                if entry_matches(s0[k], channel@, denom@) {
                    lemma_key_irrefl(channel@, denom@);
                }
            }
            lemma_lookup_at(s0, channel@, denom@, i as int);
        }
        let o = ledger[i].state.outstanding;
        let t = ledger[i].state.total_sent;
        if o < amount {
            return Err(ContractError::InsufficientFunds);
        }
        let e2 = LedgerEntry {
            channel: channel.clone(),
            denom: denom.clone(),
            state: ChannelState { outstanding: o - amount, total_sent: t },
        };
        proof {
            lemma_lookup_at(s0.update(i as int, e2), channel@, denom@, i as int);
            assert forall|c2: Seq<char>, d2: Seq<char>|
                !(c2 == channel@ && d2 == denom@) implies #[trigger] lookup(
                s0.update(i as int, e2),
                c2,
                d2,
            ) == lookup(s0, c2, d2) by {
                lemma_lookup_update_frame(s0, i as int, e2, c2, d2);
            }
        }
        ledger.set(i, e2);
        Ok(())
    } else {
        proof {
            lemma_no_match_past(s0, i as int, channel@, denom@);
            lemma_lookup_none(s0, channel@, denom@);
        }
        Err(ContractError::NoSuchChannelState { id: channel.clone(), denom: denom.clone() })
    }
}

/// When the search for a key rested at `i` with everything before it
/// strictly below the key, and row `i` (if any) neither below nor equal,
/// no row matches the key at all.
proof fn lemma_no_match_past(s: Seq<LedgerEntry>, i: int, c: Seq<char>, d: Seq<char>)
    requires
        ledger_sorted(s),
        0 <= i <= s.len(),
        forall|k: int| 0 <= k < i ==> key_lt((#[trigger] s[k]).channel@, s[k].denom@, c, d),
        i < s.len() ==> !key_lt(s[i].channel@, s[i].denom@, c, d),
        i < s.len() ==> !entry_matches(s[i], c, d),
    ensures
        forall|k: int| 0 <= k < s.len() ==> !entry_matches(#[trigger] s[k], c, d),
{
    if i < s.len() {
        lemma_key_connex(s[i].channel@, s[i].denom@, c, d);
    }
    assert forall|k: int| 0 <= k < s.len() implies !entry_matches(#[trigger] s[k], c, d) by {
        if k < i {
            if entry_matches(s[k], c, d) {
                lemma_key_irrefl(c, d);
            }
        } else {
            assert(key_lt(c, d, s[i].channel@, s[i].denom@));
            if k > i {
                lemma_key_trans(c, d, s[i].channel@, s[i].denom@, s[k].channel@, s[k].denom@);
            }
            if entry_matches(s[k], c, d) {
                lemma_key_irrefl(c, d);
            }
        }
    }
}

/// Whether the list holds a string of this content.
pub fn contains_string(list: &Vec<String>, x: &String) -> (r: bool)
    ensures
        r == contains_str(list@, x@),
{
    let n = list.len();
    let mut i: usize = 0;
    while i < n
        invariant
            i <= n,
            n == list@.len(),
            forall|k: int| 0 <= k < i ==> (#[trigger] list@[k])@ != x@,
        decreases n - i,
    {
        if list[i] == *x {
            return true;
        }
        i = i + 1;
    }
    false
}

/// Registers a channel identity with the channel registry. The list stays
/// ascending, and registering an identity twice is a no-op, so membership
/// is exactly "was ever registered".
pub fn register_channel(state: &mut State, id: String)
    requires
        old(state).wf(),
    ensures
        final(state).wf(),
        final(state).config == old(state).config,
        final(state).allow_list == old(state).allow_list,
        final(state).ledger == old(state).ledger,
        forall|x: Seq<char>|
            #[trigger] contains_str(final(state).channels@, x) == (contains_str(
                old(state).channels@,
                x,
            ) || x == id@),
        old(state).spec_has_channel(id@) ==> final(state).channels@ == old(state).channels@,
{
    let ghost s0 = state.channels@;
    let n = state.channels.len();
    let mut i: usize = 0;
    loop
        invariant
            i <= n,
            n == state.channels@.len(),
            state.channels@ == s0,
            forall|k: int| 0 <= k < i ==> lex_lt((#[trigger] state.channels@[k])@, id@),
        ensures
            i <= n,
            state.channels@ == s0,
            forall|k: int| 0 <= k < i ==> lex_lt((#[trigger] state.channels@[k])@, id@),
            i < n ==> !lex_lt(state.channels@[i as int]@, id@),
        decreases n - i,
    {
        if i >= n {
            break;
        }
        if !str_lt(state.channels[i].as_str(), id.as_str()) {
            break;
        }
        i = i + 1;
    }
    let mut present = false;
    if i < n {
        present = state.channels[i] == id;
    }
    if present {
        proof {
            assert(contains_str(s0, id@)) by {
                assert(s0[i as int]@ == id@);
            }
            assert forall|x: Seq<char>|
                #[trigger] contains_str(s0, x) == (contains_str(s0, x) || x == id@) by {
                if x == id@ {
                    assert(s0[i as int]@ == x);
                }
            }
        }
        return ;
    }
    proof {
        if i < n {
            lemma_lex_connex(s0[i as int]@, id@);
            assert(lex_lt(id@, s0[i as int]@));
        }
        let s1 = s0.insert(i as int, id);
        s0.insert_ensures(i as int, id);
        assert(strings_sorted(s1)) by {
            assert forall|x: int, y: int| 0 <= x < y < s1.len() implies lex_lt(s1[x]@, s1[y]@) by {
                if y < i {
                } else if x < i && y == i {
                } else if x == i {
                    assert(s1[y] == s0[y - 1]);
                    if y - 1 > i {
                        lemma_lex_trans(id@, s0[i as int]@, s0[y - 1]@);
                    }
                } else if x < i && y > i {
                    assert(s1[x] == s0[x]);
                    assert(s1[y] == s0[y - 1]);
                } else {
                    assert(s1[x] == s0[x - 1]);
                    assert(s1[y] == s0[y - 1]);
                }
            }
        }
        assert forall|x: Seq<char>|
            #[trigger] contains_str(s1, x) == (contains_str(s0, x) || x == id@) by {
            if contains_str(s1, x) {
                let j = choose|j: int| 0 <= j < s1.len() && (#[trigger] s1[j])@ == x;
                if j < i {
                    assert(s0[j]@ == x);
                } else if j > i {
                    assert(s0[j - 1]@ == x);
                }
            }
            if contains_str(s0, x) {
                let j = choose|j: int| 0 <= j < s0.len() && (#[trigger] s0[j])@ == x;
                if j < i {
                    assert(s1[j]@ == x);
                } else {
                    assert(s1[j + 1]@ == x);
                }
            }
            if x == id@ {
                assert(s1[i as int]@ == x);
            }
        }
        if old(state).spec_has_channel(id@) {
            let j = choose|j: int| 0 <= j < s0.len() && (#[trigger] s0[j])@ == id@;
            if j < i {
                lemma_lex_irrefl(id@);
            } else if j == i {
            } else {
                assert(lex_lt(s0[i as int]@, s0[j]@));
                lemma_lex_trans(id@, s0[i as int]@, s0[j]@);
                lemma_lex_irrefl(id@);
            }
        }
    }
    state.channels.insert(i, id);
}

/// The zero row a key starts from before its first transfer.
pub open spec fn zero_entry() -> ChannelState {
    ChannelState { outstanding: 0, total_sent: 0 }
}

/// The sum of a run of escrowed quantities.
pub open spec fn sum(amts: Seq<u128>) -> int
    decreases amts.len(),
{
    if amts.len() == 0 {
        0
    } else {
        sum(amts.drop_last()) + amts.last()
    }
}

/// The counters after a run of escrow increases on one key, oldest first.
pub open spec fn apply_increases(e: ChannelState, amts: Seq<u128>) -> ChannelState
    decreases amts.len(),
{
    if amts.len() == 0 {
        e
    } else {
        entry_after(apply_increases(e, amts.drop_last()), amts.last())
    }
}

/// A sum of quantities is never negative.
pub proof fn lemma_sum_nonneg(amts: Seq<u128>)
    ensures
        sum(amts) >= 0,
    decreases amts.len(),
{
    if amts.len() > 0 {
        lemma_sum_nonneg(amts.drop_last());
    }
}

/// A prefix never sums to more than the whole run.
pub proof fn lemma_sum_take(amts: Seq<u128>, k: int)
    requires
        0 <= k <= amts.len(),
    ensures
        sum(amts.take(k)) <= sum(amts),
    decreases amts.len(),
{
    if k == amts.len() {
        assert(amts.take(k) =~= amts);
    } else {
        assert(amts.take(k) =~= amts.drop_last().take(k));
        lemma_sum_take(amts.drop_last(), k);
    }
}

/// Running increases adds the run's sum to both counters, exactly, as long
/// as the whole run fits in 128 bits.
pub proof fn lemma_apply_increases_sums(e: ChannelState, amts: Seq<u128>)
    requires
        e.outstanding <= e.total_sent,
        e.total_sent + sum(amts) <= u128::MAX,
    ensures
        apply_increases(e, amts).total_sent == e.total_sent + sum(amts),
        apply_increases(e, amts).outstanding == e.outstanding + sum(amts),
    decreases amts.len(),
{
    lemma_sum_nonneg(amts);
    if amts.len() > 0 {
        lemma_sum_nonneg(amts.drop_last());
        lemma_apply_increases_sums(e, amts.drop_last());
    }
}

/// Law (ledger monotonicity): over any run of increases on one key,
/// starting from the lazily-created zero row, `total_sent` ends as the sum
/// of all the amounts, and `outstanding` stays within `total_sent` after
/// every prefix of the run.
pub proof fn lemma_ledger_monotonic(amts: Seq<u128>)
    requires
        sum(amts) <= u128::MAX,
    ensures
        apply_increases(zero_entry(), amts).total_sent == sum(amts),
        forall|k: int|
            0 <= k <= amts.len() ==> (#[trigger] apply_increases(
                zero_entry(),
                amts.take(k),
            )).outstanding <= apply_increases(zero_entry(), amts.take(k)).total_sent,
{
    lemma_apply_increases_sums(zero_entry(), amts);
    assert forall|k: int|
        0 <= k <= amts.len() implies (#[trigger] apply_increases(
        zero_entry(),
        amts.take(k),
    )).outstanding <= apply_increases(zero_entry(), amts.take(k)).total_sent by {
        lemma_sum_take(amts, k);
        lemma_sum_nonneg(amts.take(k));
        lemma_apply_increases_sums(zero_entry(), amts.take(k));
    }
}

/// From the loop's resting point: the new key is strictly below every row
/// at or past it.
proof fn lemma_key_trans_from_target(
    s: Seq<LedgerEntry>,
    i: int,
    k: int,
    c: Seq<char>,
    d: Seq<char>,
)
    requires
        ledger_sorted(s),
        0 <= i <= k < s.len(),
        key_lt(c, d, s[i].channel@, s[i].denom@),
    ensures
        key_lt(c, d, s[k].channel@, s[k].denom@),
{
    if k > i {
        lemma_key_trans(c, d, s[i].channel@, s[i].denom@, s[k].channel@, s[k].denom@);
    }
}

} // verus!
