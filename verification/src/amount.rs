use vstd::prelude::*;

verus! {

/// A payment in the chain-native unit of account.
#[derive(Debug, PartialEq, Eq)]
pub struct Coin {
    pub denom: String,
    pub amount: u128,
}

/// A quantity of a token tracked by an external ledger contract,
/// identified by that contract's address.
#[derive(Debug, PartialEq, Eq)]
pub struct Cw20Coin {
    pub address: String,
    pub amount: u128,
}

/// The dual-asset amount: either a native unit of account or an
/// externally-ledgered token, under one denomination/quantity interface.
#[derive(Debug, PartialEq, Eq)]
pub enum Amount {
    Native(Coin),
    Cw20(Cw20Coin),
}

/// The prefix that marks a denomination key as an externally-ledgered
/// token; the rest of the key is the ledger contract's address.
pub open spec fn cw20_prefix() -> Seq<char> {
    "cw20:"@
}

/// A denomination key decodes to the ledgered variant exactly when it
/// carries the `cw20:` prefix.
pub open spec fn is_cw20_key(d: Seq<char>) -> bool {
    d.len() >= 5 && d.subrange(0, 5) == cw20_prefix()
}

/// The name inside a denomination key: the ledger address behind the
/// prefix, or the native denomination itself.
pub open spec fn parsed_name(d: Seq<char>) -> Seq<char> {
    if is_cw20_key(d) {
        d.skip(5)
    } else {
        d
    }
}

/// Encodes a variant tag and a name back into the single key namespace.
pub open spec fn denom_key_of(cw20: bool, name: Seq<char>) -> Seq<char> {
    if cw20 {
        cw20_prefix() + name
    } else {
        name
    }
}

/// Law: decoding any denomination key and re-encoding the parts yields the
/// key back unchanged, so the key namespace is lossless.
pub proof fn lemma_key_round_trip(d: Seq<char>)
    ensures
        denom_key_of(is_cw20_key(d), parsed_name(d)) == d,
{
    if is_cw20_key(d) {
        assert(denom_key_of(true, parsed_name(d)) =~= d) by {
            assert forall|i: int| 0 <= i < d.len() implies (cw20_prefix() + d.skip(5))[i] == d[i] by {
                if i < 5 {
                    assert(d.subrange(0, 5)[i] == d[i]);
                }
            }
        }
    }
}

/// Law: encoding a variant tag and a name and then decoding recovers both,
/// provided a native name does not itself carry the ledgered prefix.
pub proof fn lemma_key_encode_round_trip(cw20: bool, name: Seq<char>)
    requires
        !cw20 ==> !is_cw20_key(name),
    ensures
        is_cw20_key(denom_key_of(cw20, name)) == cw20,
        parsed_name(denom_key_of(cw20, name)) == name,
{
    reveal_strlit("cw20:");
    if cw20 {
        let k = cw20_prefix() + name;
        assert(k.subrange(0, 5) =~= cw20_prefix());
        assert(k.skip(5) =~= name);
    }
}

/// Decides whether a string carries the `cw20:` key prefix.
fn starts_with_cw20_prefix(s: &str) -> (b: bool)
    ensures
        b == is_cw20_key(s@),
{
    proof {
        reveal_strlit("cw20:");
    }
    let n = s.unicode_len();
    if n < 5 {
        return false;
    }
    let b = s.get_char(0) == 'c' && s.get_char(1) == 'w' && s.get_char(2) == '2' && s.get_char(3)
        == '0' && s.get_char(4) == ':';
    proof {
        if b {
            assert(s@.subrange(0, 5) =~= cw20_prefix());
        } else {
            if is_cw20_key(s@) {
                assert forall|i: int| 0 <= i < 5 implies s@[i] == cw20_prefix()[i] by {
                    assert(s@.subrange(0, 5)[i] == s@[i]);
                }
                assert(false);
            }
        }
    }
    b
}

impl Amount {
    /// The quantity, whichever variant carries it.
    pub open spec fn spec_amount(&self) -> u128 {
        match self {
            Amount::Native(c) => c.amount,
            Amount::Cw20(c) => c.amount,
        }
    }

    /// Whether this is the externally-ledgered variant.
    pub open spec fn spec_is_cw20(&self) -> bool {
        match self {
            Amount::Native(_) => false,
            Amount::Cw20(_) => true,
        }
    }

    /// The bare name: the native denomination or the ledger address.
    pub open spec fn spec_name(&self) -> Seq<char> {
        match self {
            Amount::Native(c) => c.denom@,
            Amount::Cw20(c) => c.address@,
        }
    }

    /// The denomination key under which this amount is ledgered.
    pub open spec fn spec_denom(&self) -> Seq<char> {
        denom_key_of(self.spec_is_cw20(), self.spec_name())
    }

    /// The canonical decoder of persisted denomination keys: a key with the
    /// `cw20:` prefix yields the ledgered variant over the rest of the key,
    /// anything else the native variant over the whole key.
    pub fn from_parts(denom: String, amount: u128) -> (r: Amount)
        ensures
            r.spec_amount() == amount,
            r.spec_is_cw20() == is_cw20_key(denom@),
            r.spec_name() == parsed_name(denom@),
            r.spec_denom() == denom@,
    {
        proof {
            lemma_key_round_trip(denom@);
        }
        if starts_with_cw20_prefix(denom.as_str()) {
            let n = denom.as_str().unicode_len();
            let address = denom.as_str().substring_char(5, n).to_owned();
            Amount::Cw20(Cw20Coin { address, amount })
        } else {
            Amount::Native(Coin { denom, amount })
        }
    }

    /// The quantity.
    pub fn amount(&self) -> (r: u128)
        ensures
            r == self.spec_amount(),
    {
        match self {
            Amount::Native(c) => c.amount,
            Amount::Cw20(c) => c.amount,
        }
    }

    /// The denomination key, inverse of [`Amount::from_parts`].
    pub fn denom(&self) -> (r: String)
        ensures
            r@ == self.spec_denom(),
    {
        match self {
            Amount::Native(c) => c.denom.clone(),
            Amount::Cw20(c) => {
                let mut out = String::from_str("cw20:");
                out.append(c.address.as_str());
                out
            },
        }
    }

    /// True exactly when the quantity is zero.
    pub fn is_empty(&self) -> (r: bool)
        ensures
            r == (self.spec_amount() == 0),
    {
        match self {
            Amount::Native(c) => c.amount == 0,
            Amount::Cw20(c) => c.amount == 0,
        }
    }
}

} // verus!
