use vstd::prelude::*;

verus! {

/// A transaction as the indexer keeps it: hex strings, with `to` absent for a
/// contract creation and the transferred value kept as decimal text.
#[derive(Debug, Clone)]
pub struct Transaction {
    pub hash: String,
    pub from: String,
    pub to: Option<String>,
    pub value: String,
}

/// A block and its transactions in on-chain order.
#[derive(Debug, Clone)]
pub struct Block {
    pub number: u64,
    pub hash: String,
    pub transactions: Vec<Transaction>,
    pub timestamp: u64,
}

/// The mathematical content of a transaction.
pub struct TxView {
    pub hash: Seq<char>,
    pub from: Seq<char>,
    pub to: Option<Seq<char>>,
    pub value: Seq<char>,
}

/// The mathematical content of a block.
pub struct BlockView {
    pub number: u64,
    pub hash: Seq<char>,
    pub timestamp: u64,
    pub transactions: Seq<TxView>,
}

pub open spec fn opt_str_view(o: Option<String>) -> Option<Seq<char>> {
    match o {
        Some(s) => Some(s@),
        None => None,
    }
}

impl View for Transaction {
    type V = TxView;

    open spec fn view(&self) -> TxView {
        TxView { hash: self.hash@, from: self.from@, to: opt_str_view(self.to), value: self.value@ }
    }
}

impl View for Block {
    type V = BlockView;

    open spec fn view(&self) -> BlockView {
        BlockView {
            number: self.number,
            hash: self.hash@,
            timestamp: self.timestamp,
            transactions: self.transactions@.map_values(|t: Transaction| t@),
        }
    }
}

/// The views of a sequence of blocks.
pub open spec fn blocks_view(bs: Seq<Block>) -> Seq<BlockView> {
    bs.map_values(|b: Block| b@)
}

/// Copies an optional string, keeping its content.
pub fn clone_opt_string(o: &Option<String>) -> (r: Option<String>)
    ensures
        opt_str_view(r) == opt_str_view(*o),
{
    match o {
        Some(s) => Some(s.clone()),
        None => None,
    }
}

} // verus!
