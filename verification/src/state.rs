//! The execution context: facts about the transaction and the block, and
//! the table of contracts, with the mathematical view of each.

use vstd::prelude::*;

use crate::table::{
    is_first, lemma_lookup_absent, lemma_lookup_first, lemma_push_absent, lemma_remove_first,
    lemma_update_first, lookup, position,
};
use crate::word::Word;

verus! {

/// A word as it stands in the structured description of a context.
#[derive(Debug, Clone, Copy, PartialEq, Eq, Structural, Hash)]
pub struct SerializedU256 {
    pub value: Word,
}

impl View for SerializedU256 {
    type V = Word;

    open spec fn view(&self) -> Word {
        self.value
    }
}

impl Default for SerializedU256 {
    fn default() -> (r: SerializedU256)
        ensures
            r.value == Word::from_nat(0),
    {
        SerializedU256 { value: Word::zero() }
    }
}

impl From<Word> for SerializedU256 {
    fn from(value: Word) -> (r: SerializedU256) {
        SerializedU256 { value }
    }
}

impl vstd::std_specs::convert::FromSpecImpl<Word> for SerializedU256 {
    open spec fn obeys_from_spec() -> bool {
        true
    }

    open spec fn from_spec(value: Word) -> SerializedU256 {
        SerializedU256 { value }
    }
}

impl From<SerializedU256> for Word {
    fn from(value: SerializedU256) -> (r: Word) {
        value.value
    }
}

impl vstd::std_specs::convert::FromSpecImpl<SerializedU256> for Word {
    open spec fn obeys_from_spec() -> bool {
        true
    }

    open spec fn from_spec(value: SerializedU256) -> Word {
        value.value
    }
}

/// A byte string as it stands in the structured description of a context.
#[derive(Debug, Clone, PartialEq, Eq, Hash)]
pub struct SerializedBytes {
    pub value: Vec<u8>,
}

impl View for SerializedBytes {
    type V = Seq<u8>;

    open spec fn view(&self) -> Seq<u8> {
        self.value@
    }
}

impl SerializedBytes {
    /// The number of bytes.
    pub fn len(&self) -> (r: usize)
        ensures
            r == self@.len(),
    {
        self.value.len()
    }
}

impl Default for SerializedBytes {
    fn default() -> (r: SerializedBytes)
        ensures
            r@ == Seq::<u8>::empty(),
    {
        SerializedBytes { value: Vec::new() }
    }
}

impl From<Vec<u8>> for SerializedBytes {
    fn from(value: Vec<u8>) -> (r: SerializedBytes) {
        SerializedBytes { value }
    }
}

impl vstd::std_specs::convert::FromSpecImpl<Vec<u8>> for SerializedBytes {
    open spec fn obeys_from_spec() -> bool {
        true
    }

    open spec fn from_spec(value: Vec<u8>) -> SerializedBytes {
        SerializedBytes { value }
    }
}

impl From<SerializedBytes> for Vec<u8> {
    fn from(value: SerializedBytes) -> (r: Vec<u8>) {
        value.value
    }
}

impl vstd::std_specs::convert::FromSpecImpl<SerializedBytes> for Vec<u8> {
    open spec fn obeys_from_spec() -> bool {
        true
    }

    open spec fn from_spec(value: SerializedBytes) -> Vec<u8> {
        value.value
    }
}

/// The word behind an optional fact.
pub open spec fn fact(f: Option<SerializedU256>) -> Option<Word> {
    match f {
        Some(w) => Some(w.value),
        None => None,
    }
}

/// The bytes behind an optional byte string.
pub open spec fn bytes_view(b: Option<SerializedBytes>) -> Option<Seq<u8>> {
    match b {
        Some(v) => Some(v@),
        None => None,
    }
}

/// Facts about the transaction; each may be absent.
#[derive(Debug, Clone)]
pub struct TxData {
    pub to: Option<SerializedU256>,
    pub from: Option<SerializedU256>,
    pub origin: Option<SerializedU256>,
    pub gasprice: Option<SerializedU256>,
    pub value: Option<SerializedU256>,
    pub data: Option<SerializedBytes>,
}

/// What `TxData` holds, as mathematical values.
pub struct TxView {
    pub to: Option<Word>,
    pub from: Option<Word>,
    pub origin: Option<Word>,
    pub gasprice: Option<Word>,
    pub value: Option<Word>,
    pub data: Option<Seq<u8>>,
}

impl View for TxData {
    type V = TxView;

    open spec fn view(&self) -> TxView {
        TxView {
            to: fact(self.to),
            from: fact(self.from),
            origin: fact(self.origin),
            gasprice: fact(self.gasprice),
            value: fact(self.value),
            data: bytes_view(self.data),
        }
    }
}

impl Default for TxData {
    fn default() -> (r: TxData)
        ensures
            r@ == (TxView {
                to: None,
                from: None,
                origin: None,
                gasprice: None,
                value: None,
                data: None,
            }),
    {
        TxData { to: None, from: None, origin: None, gasprice: None, value: None, data: None }
    }
}

/// Facts about the block; each may be absent.
#[derive(Debug, Clone, Copy)]
pub struct BlockData {
    pub basefee: Option<SerializedU256>,
    pub coinbase: Option<SerializedU256>,
    pub timestamp: Option<SerializedU256>,
    pub number: Option<SerializedU256>,
    pub difficulty: Option<SerializedU256>,
    pub gaslimit: Option<SerializedU256>,
    pub chainid: Option<SerializedU256>,
}

impl Default for BlockData {
    fn default() -> (r: BlockData)
        ensures
            r == (BlockData {
                basefee: None,
                coinbase: None,
                timestamp: None,
                number: None,
                difficulty: None,
                gaslimit: None,
                chainid: None,
            }),
    {
        BlockData {
            basefee: None,
            coinbase: None,
            timestamp: None,
            number: None,
            difficulty: None,
            gaslimit: None,
            chainid: None,
        }
    }
}

/// The code of a contract; the bytes may be absent.
#[derive(Debug, Clone)]
pub struct ContractsStateDataEntryCode {
    pub bin: Option<SerializedBytes>,
}

impl View for ContractsStateDataEntryCode {
    type V = Option<Seq<u8>>;

    open spec fn view(&self) -> Option<Seq<u8>> {
        bytes_view(self.bin)
    }
}

impl ContractsStateDataEntryCode {
    /// The length of the code; zero where the bytes are absent.
    pub fn len(&self) -> (r: usize)
        ensures
            r == (match self@ {
                Some(b) => b.len(),
                None => 0,
            }),
    {
        match &self.bin {
            Some(b) => b.len(),
            None => 0,
        }
    }
}

impl Default for ContractsStateDataEntryCode {
    fn default() -> (r: ContractsStateDataEntryCode)
        ensures
            r@ is None,
    {
        ContractsStateDataEntryCode { bin: None }
    }
}

/// What the table holds of one contract.
#[derive(Debug, Clone)]
pub struct ContractsStateDataEntry {
    pub balance: Option<SerializedU256>,
    pub code: Option<ContractsStateDataEntryCode>,
}

/// What `ContractsStateDataEntry` holds, as mathematical values. The code is
/// absent (`None`), present without bytes (`Some(None)`) or present with
/// bytes.
pub struct EntryView {
    pub balance: Option<Word>,
    pub code: Option<Option<Seq<u8>>>,
}

impl EntryView {
    /// The balance; zero where none is recorded.
    pub open spec fn balance_or_zero(self) -> Word {
        match self.balance {
            Some(b) => b,
            None => Word::from_nat(0),
        }
    }

    /// The code bytes; empty where none are recorded.
    pub open spec fn code_or_empty(self) -> Seq<u8> {
        match self.code {
            Some(Some(b)) => b,
            _ => Seq::empty(),
        }
    }
}

impl View for ContractsStateDataEntry {
    type V = EntryView;

    open spec fn view(&self) -> EntryView {
        EntryView {
            balance: fact(self.balance),
            code: match self.code {
                Some(c) => Some(c@),
                None => None,
            },
        }
    }
}

impl Default for ContractsStateDataEntry {
    fn default() -> (r: ContractsStateDataEntry)
        ensures
            r@ == (EntryView { balance: None, code: None }),
    {
        ContractsStateDataEntry { balance: None, code: None }
    }
}

/// The table of contracts, from address to entry.
#[derive(Debug, Clone)]
pub struct ContractsStateData {
    entries: Vec<(Word, ContractsStateDataEntry)>,
}

/// The map that a list of pairs of address and entry stands for.
pub closed spec fn entry_map(s: Seq<(Word, ContractsStateDataEntry)>) -> Map<Word, EntryView> {
    Map::new(|k: Word| lookup(s, k) is Some, |k: Word| lookup(s, k).unwrap()@)
}

impl View for ContractsStateData {
    type V = Map<Word, EntryView>;

    closed spec fn view(&self) -> Map<Word, EntryView> {
        entry_map(self.entries@)
    }
}

impl ContractsStateData {
    /// A table without entries.
    pub fn new() -> (r: ContractsStateData)
        ensures
            r@ == Map::<Word, EntryView>::empty(),
    {
        let r = ContractsStateData { entries: Vec::new() };
        proof {
            assert forall|k: Word| lookup(r.entries@, k) is None by {
                lemma_lookup_absent(r.entries@, k);
            }
            assert(r@ =~= Map::<Word, EntryView>::empty());
        }
        r
    }

    /// The entry of `key`, if the table holds one.
    pub fn get(&self, key: &SerializedU256) -> (r: Option<&ContractsStateDataEntry>)
        ensures
            match r {
                Some(e) => self@.dom().contains(key.value) && self@[key.value] == e@,
                None => !self@.dom().contains(key.value),
            },
    {
        match position(&self.entries, &key.value) {
            Some(i) => {
                proof {
                    lemma_lookup_first(self.entries@, key.value, i as int);
                }
                Some(&self.entries[i].1)
            },
            None => None,
        }
    }

    /// Puts `entry` under `key`, in place of what was there.
    pub fn insert(&mut self, key: SerializedU256, entry: ContractsStateDataEntry)
        ensures
            final(self)@ == old(self)@.insert(key.value, entry@),
    {
        let ghost before = self.entries@;
        match position(&self.entries, &key.value) {
            Some(i) => {
                proof {
                    lemma_update_first(before, key.value, i as int, entry);
                }
                self.entries.set(i, (key.value, entry));
            },
            None => {
                proof {
                    lemma_push_absent(before, key.value, entry);
                }
                self.entries.push((key.value, entry));
            },
        }
        proof {
            let after = self.entries@;
            assert(crate::table::as_map(after) == crate::table::as_map(before).insert(
                key.value,
                entry,
            ));
            assert forall|k: Word| lookup(after, k) == (if k == key.value {
                Some(entry)
            } else {
                lookup(before, k)
            }) by {
                assert(crate::table::as_map(after).dom().contains(k) == (lookup(after, k) is Some));
                assert(crate::table::as_map(before).dom().contains(k) == (lookup(before, k)
                    is Some));
                if lookup(after, k) is Some {
                    assert(crate::table::as_map(after)[k] == lookup(after, k).unwrap());
                }
                if lookup(before, k) is Some {
                    assert(crate::table::as_map(before)[k] == lookup(before, k).unwrap());
                }
            }
            assert(entry_map(after) =~= entry_map(before).insert(key.value, entry@));
        }
    }

    /// Takes the entry of `key` out of the table and returns it.
    pub fn remove(&mut self, key: &SerializedU256) -> (r: Option<ContractsStateDataEntry>)
        ensures
            final(self)@ == old(self)@.remove(key.value),
            match r {
                Some(e) => old(self)@.dom().contains(key.value) && old(self)@[key.value] == e@,
                None => !old(self)@.dom().contains(key.value),
            },
    {
        let ghost before = self.entries@;
        let mut out: Option<ContractsStateDataEntry> = None;
        let mut found: Option<usize> = position(&self.entries, &key.value);
        while found.is_some()
            invariant
                forall|q: Word|
                    q != key.value ==> lookup(self.entries@, q) == #[trigger] lookup(before, q),
                match found {
                    Some(i) => is_first(self.entries@, key.value, i as int),
                    None => lookup(self.entries@, key.value) is None,
                },
                match out {
                    Some(e) => lookup(before, key.value) is Some && lookup(
                        before,
                        key.value,
                    ).unwrap()@ == e@,
                    None => self.entries@ == before,
                },
            decreases self.entries.len(),
        {
            let i: usize = found.unwrap();
            proof {
                lemma_remove_first(self.entries@, key.value, i as int);
                lemma_lookup_first(self.entries@, key.value, i as int);
            }
            let pair = self.entries.remove(i);
            if out.is_none() {
                out = Some(pair.1);
            }
            found = position(&self.entries, &key.value);
        }
        proof {
            assert(entry_map(self.entries@) =~= entry_map(before).remove(key.value));
        }
        out
    }
}

/// The whole execution context.
#[derive(Debug, Clone)]
pub struct BlockchainState {
    pub tx: TxData,
    pub block: BlockData,
    pub contracts_state: ContractsStateData,
}

/// What `BlockchainState` holds, as mathematical values.
pub struct ChainView {
    pub tx: TxView,
    pub block: BlockData,
    pub contracts: Map<Word, EntryView>,
}

impl View for BlockchainState {
    type V = ChainView;

    open spec fn view(&self) -> ChainView {
        ChainView { tx: self.tx@, block: self.block, contracts: self.contracts_state@ }
    }
}

} // verus!
