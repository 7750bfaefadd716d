use vstd::prelude::*;

verus! {

/// A Bitcoin transaction id, as its 32 raw bytes.
#[derive(Clone, Copy, Debug)]
pub struct Txid {
    pub bytes: [u8; 32],
}

impl View for Txid {
    type V = Seq<u8>;

    open spec fn view(&self) -> Seq<u8> {
        self.bytes@
    }
}

impl Txid {
    /// Whether two ids hold the same bytes.
    pub fn same(&self, other: &Txid) -> (r: bool)
        ensures
            r == (self@ == other@),
    {
        let mut i: usize = 0;
        while i < 32
            invariant
                0 <= i <= 32,
                self@.len() == 32,
                other@.len() == 32,
                forall|j: int| 0 <= j < i ==> self@[j] == other@[j],
            decreases 32 - i,
        {
            if self.bytes[i] != other.bytes[i] {
                return false;
            }
            i = i + 1;
        }
        assert(self@ =~= other@);
        true
    }
}

/// A reference to a transaction output: the transaction and the output's index.
#[derive(Clone, Copy, Debug)]
pub struct OutPoint {
    pub txid: Txid,
    pub vout: u32,
}

impl View for OutPoint {
    type V = (Seq<u8>, u32);

    open spec fn view(&self) -> (Seq<u8>, u32) {
        (self.txid@, self.vout)
    }
}

impl OutPoint {
    /// Whether two outpoints name the same output.
    pub fn same(&self, other: &OutPoint) -> (r: bool)
        ensures
            r == (self@ == other@),
    {
        self.vout == other.vout && self.txid.same(&other.txid)
    }
}

/// An unspent output: where it is and how many satoshis it holds.
#[derive(Clone, Copy, Debug)]
pub struct Utxo {
    pub outpoint: OutPoint,
    pub sats: u64,
}

/// The id of a coin: the bitcoin itself, or a rune etched at `block:tx`.
#[derive(Clone, Copy, Debug, PartialEq, Eq, Structural)]
pub struct CoinId {
    pub block: u64,
    pub tx: u32,
}

impl CoinId {
    pub open spec fn spec_btc() -> CoinId {
        CoinId { block: 0, tx: 0 }
    }

    /// The id that stands for bitcoin.
    pub fn btc() -> (r: CoinId)
        ensures
            r == CoinId::spec_btc(),
    {
        CoinId { block: 0, tx: 0 }
    }

    pub fn rune(block: u64, tx: u32) -> (r: CoinId)
        ensures
            r == (CoinId { block, tx }),
    {
        CoinId { block, tx }
    }

    pub fn is_btc(&self) -> (r: bool)
        ensures
            r == (*self == CoinId::spec_btc()),
    {
        self.block == 0 && self.tx == 0
    }
}

/// An amount of one coin.
#[derive(Clone, Copy, Debug, PartialEq, Eq, Structural)]
pub struct CoinBalance {
    pub id: CoinId,
    pub value: u128,
}

/// A coin that an intent declares the pool receives, and from whom.
#[derive(Clone, Debug)]
pub struct InputCoin {
    pub coin: CoinBalance,
    pub from: String,
}

/// A coin that an intent declares the pool pays out, and to whom.
#[derive(Clone, Debug)]
pub struct OutputCoin {
    pub coin: CoinBalance,
    pub to: String,
}

/// What the text `txid:vout` denotes as an outpoint (the id's bytes and the index),
/// or `None` where the text is not an outpoint.
pub uninterp spec fn outpoint_from_text(s: Seq<char>) -> Option<(Seq<u8>, u32)>;

/// Relies on `ree_types::Utxo::try_from`, which splits the text at `:` and parses
/// the transaction id and the output index; it fails where either part is missing
/// or malformed.
#[verifier::external_body]
pub(crate) fn parse_outpoint(s: &String) -> (r: Option<OutPoint>)
    ensures
        r is None <==> outpoint_from_text(s@) is None,
        r matches Some(o) ==> outpoint_from_text(s@) == Some(o@),
{
    match ree_types::Utxo::try_from(s, ree_types::CoinBalances::new(), 0) {
        Ok(u) => Some(OutPoint { txid: Txid { bytes: *AsRef::<[u8; 32]>::as_ref(&u.txid) }, vout: u.vout }),
        Err(_) => None,
    }
}

} // verus!
