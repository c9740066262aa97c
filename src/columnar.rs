use vstd::prelude::*;
use crate::blocks::{Block, BlockView, Transaction, TxView, blocks_view, clone_opt_string, opt_str_view};

verus! {

/// A batch of blocks stored field by field: one column per block field, and
/// the nested transaction list as an offset column over four flat transaction
/// columns. Block `i` owns the transactions at positions
/// `tx_offsets[i] .. tx_offsets[i + 1]`; an absent `to` is a null entry.
pub struct ColumnarBatch {
    pub number: Vec<u64>,
    pub hash: Vec<String>,
    pub timestamp: Vec<u64>,
    pub tx_offsets: Vec<usize>,
    pub tx_hash: Vec<String>,
    pub tx_from: Vec<String>,
    pub tx_to: Vec<Option<String>>,
    pub tx_value: Vec<String>,
}

impl ColumnarBatch {
    /// Number of blocks (rows) in the batch.
    pub open spec fn rows(&self) -> nat {
        self.number@.len()
    }

    /// Number of transactions over all rows.
    pub open spec fn tx_rows(&self) -> nat {
        self.tx_hash@.len()
    }

    /// The columns agree in length and the offsets are a non-decreasing
    /// partition of the transaction columns.
    pub open spec fn wf(&self) -> bool {
        &&& self.hash@.len() == self.rows()
        &&& self.timestamp@.len() == self.rows()
        &&& self.tx_offsets@.len() == self.rows() + 1
        &&& self.tx_offsets@[0] == 0
        &&& self.tx_offsets@[self.rows() as int] == self.tx_rows()
        &&& forall|i: int|
            0 <= i < self.rows() ==> #[trigger] self.tx_offsets@[i] <= self.tx_offsets@[i + 1]
        &&& self.tx_from@.len() == self.tx_rows()
        &&& self.tx_to@.len() == self.tx_rows()
        &&& self.tx_value@.len() == self.tx_rows()
    }

    /// The transaction stored at flat position `k`.
    pub open spec fn tx_at(&self, k: int) -> TxView {
        TxView {
            hash: self.tx_hash@[k]@,
            from: self.tx_from@[k]@,
            to: opt_str_view(self.tx_to@[k]),
            value: self.tx_value@[k]@,
        }
    }

    /// The block stored in row `i`.
    pub open spec fn row(&self, i: int) -> BlockView {
        let lo = self.tx_offsets@[i] as int;
        let hi = self.tx_offsets@[i + 1] as int;
        BlockView {
            number: self.number@[i],
            hash: self.hash@[i]@,
            timestamp: self.timestamp@[i],
            transactions: Seq::new((hi - lo) as nat, |j: int| self.tx_at(lo + j)),
        }
    }

    /// The blocks that the batch holds, in row order.
    pub open spec fn decoded(&self) -> Seq<BlockView> {
        Seq::new(self.rows(), |i: int| self.row(i))
    }
}

/// The batch holds exactly the blocks `bs`, in order.
pub open spec fn encodes(c: ColumnarBatch, bs: Seq<BlockView>) -> bool {
    c.wf() && c.decoded() == bs
}

/// Builds the columnar batch of `blocks`, appending column values block by
/// block and, for each block, its transactions in order.
pub fn encode(blocks: &Vec<Block>) -> (r: ColumnarBatch)
    ensures
        encodes(r, blocks_view(blocks@)),
{
    let mut c = ColumnarBatch {
        number: Vec::new(),
        hash: Vec::new(),
        timestamp: Vec::new(),
        tx_offsets: Vec::new(),
        tx_hash: Vec::new(),
        tx_from: Vec::new(),
        tx_to: Vec::new(),
        tx_value: Vec::new(),
    };
    c.tx_offsets.push(0);
    let n = blocks.len();
    let mut i: usize = 0;
    while i < n
        invariant
            n == blocks@.len(),
            i <= n,
            c.rows() == i,
            c.wf(),
            forall|k: int| 0 <= k < i ==> #[trigger] c.row(k) == blocks@[k]@,
        decreases n - i,
    {
        let b = &blocks[i];
        let ghost prev = c;
        let ghost start = c.tx_rows();
        let m = b.transactions.len();
        let mut j: usize = 0;
        while j < m
            invariant
                m == b.transactions@.len(),
                j <= m,
                prev.wf(),
                prev.rows() == i,
                start == prev.tx_rows(),
                c.number@ == prev.number@,
                c.hash@ == prev.hash@,
                c.timestamp@ == prev.timestamp@,
                c.tx_offsets@ == prev.tx_offsets@,
                c.tx_rows() == start + j,
                c.tx_from@.len() == c.tx_rows(),
                c.tx_to@.len() == c.tx_rows(),
                c.tx_value@.len() == c.tx_rows(),
                forall|k: int| 0 <= k < start ==> #[trigger] c.tx_at(k) == prev.tx_at(k),
                forall|k: int| 0 <= k < j ==> #[trigger] c.tx_at(start + k) == b.transactions@[k]@,
            decreases m - j,
        {
            let t = &b.transactions[j];
            let ghost before = c;
            c.tx_hash.push(t.hash.clone());
            c.tx_from.push(t.from.clone());
            c.tx_to.push(clone_opt_string(&t.to));
            c.tx_value.push(t.value.clone());
            proof {
                assert forall|k: int| 0 <= k < start + j implies #[trigger] c.tx_at(k) == before.tx_at(k) by {
                    assert(c.tx_hash@[k] == before.tx_hash@[k]);
                    assert(c.tx_from@[k] == before.tx_from@[k]);
                    assert(c.tx_to@[k] == before.tx_to@[k]);
                    assert(c.tx_value@[k] == before.tx_value@[k]);
                }
                assert(c.tx_at(start + j) == t@);
                assert forall|k: int| 0 <= k < j + 1 implies #[trigger] c.tx_at(start + k) == b.transactions@[k]@ by {
                    if k < j {
                        assert(c.tx_at(start + k) == before.tx_at(start + k));
                    }
                }
            }
            j = j + 1;
        }
        let ghost mid = c;
        c.number.push(b.number);
        c.hash.push(b.hash.clone());
        c.timestamp.push(b.timestamp);
        let end = c.tx_hash.len();
        c.tx_offsets.push(end);
        proof {
            assert forall|k: int| 0 <= k < i + 1 implies #[trigger] c.row(k) == blocks@[k]@ by {
                if k < i {
                    assert(prev.row(k) == blocks@[k]@);
                    assert(c.tx_offsets@[k] == prev.tx_offsets@[k]);
                    assert(c.tx_offsets@[k + 1] == prev.tx_offsets@[k + 1]);
                    assert(prev.tx_offsets@[k + 1] <= prev.tx_offsets@[i as int]) by {
                        lemma_offsets_monotone(prev, k + 1, i as int);
                    }
                    let lo = prev.tx_offsets@[k] as int;
                    let hi = prev.tx_offsets@[k + 1] as int;
                    assert(prev.tx_offsets@[i as int] == start);
                    assert forall|x: int| 0 <= x < hi - lo implies #[trigger] c.tx_at(lo + x) == prev.tx_at(lo + x) by {
                        assert(mid.tx_at(lo + x) == prev.tx_at(lo + x));
                    }
                    assert(c.row(k).transactions =~= prev.row(k).transactions);
                    assert(c.row(k) == prev.row(k));
                } else {
                    assert(c.tx_offsets@[k] == start);
                    assert forall|x: int| 0 <= x < b.transactions@.len() implies #[trigger] c.tx_at(start + x) == b.transactions@[x]@ by {
                        assert(mid.tx_at(start + x) == b.transactions@[x]@);
                    }
                    assert(c.row(k).transactions =~= b@.transactions);
                }
            }
        }
        i = i + 1;
    }
    proof {
        assert(c.decoded() =~= blocks_view(blocks@));
    }
    c
}

impl ColumnarBatch {
    /// Checks the column lengths and the offset column.
    pub fn is_well_formed(&self) -> (r: bool)
        ensures
            r == self.wf(),
    {
        let n = self.number.len();
        let t = self.tx_hash.len();
        if self.hash.len() != n || self.timestamp.len() != n || self.tx_from.len() != t
            || self.tx_to.len() != t || self.tx_value.len() != t {
            return false;
        }
        if self.tx_offsets.len() == 0 || self.tx_offsets.len() - 1 != n || self.tx_offsets[0] != 0 || self.tx_offsets[n] != t {
            return false;
        }
        let mut i: usize = 0;
        while i < n
            invariant
                n == self.rows(),
                self.tx_offsets@.len() == n + 1,
                i <= n,
                forall|k: int| 0 <= k < i ==> #[trigger] self.tx_offsets@[k] <= self.tx_offsets@[k + 1],
            decreases n - i,
        {
            if self.tx_offsets[i] > self.tx_offsets[i + 1] {
                return false;
            }
            i = i + 1;
        }
        true
    }

    /// The transactions at flat positions `lo .. hi`, rebuilt as records.
    fn transactions_between(&self, lo: usize, hi: usize) -> (r: Vec<Transaction>)
        requires
            self.wf(),
            lo <= hi <= self.tx_rows(),
        ensures
            r@.map_values(|t: Transaction| t@) == Seq::new((hi - lo) as nat, |j: int| self.tx_at(lo + j)),
    {
        let mut r: Vec<Transaction> = Vec::new();
        let mut k: usize = lo;
        while k < hi
            invariant
                self.wf(),
                lo <= k <= hi <= self.tx_rows(),
                r@.len() == k - lo,
                forall|j: int| 0 <= j < k - lo ==> #[trigger] r@[j]@ == self.tx_at(lo + j),
            decreases hi - k,
        {
            r.push(Transaction {
                hash: self.tx_hash[k].clone(),
                from: self.tx_from[k].clone(),
                to: clone_opt_string(&self.tx_to[k]),
                value: self.tx_value[k].clone(),
            });
            k = k + 1;
        }
        proof {
            assert(r@.map_values(|t: Transaction| t@) =~= Seq::new((hi - lo) as nat, |j: int| self.tx_at(lo + j)));
        }
        r
    }

    /// Reads the blocks back out of the batch, in row order; `None` when the
    /// columns do not form a batch.
    pub fn decode(&self) -> (r: Option<Vec<Block>>)
        ensures
            r is Some <==> self.wf(),
            r matches Some(bs) ==> blocks_view(bs@) == self.decoded(),
    {
        if !self.is_well_formed() {
            return None;
        }
        let n = self.number.len();
        let mut out: Vec<Block> = Vec::new();
        let mut i: usize = 0;
        while i < n
            invariant
                self.wf(),
                n == self.rows(),
                i <= n,
                out@.len() == i,
                forall|k: int| 0 <= k < i ==> #[trigger] out@[k]@ == self.row(k),
            decreases n - i,
        {
            proof {
                lemma_offsets_monotone(*self, i + 1, n as int);
            }
            let txs = self.transactions_between(self.tx_offsets[i], self.tx_offsets[i + 1]);
            let b = Block {
                number: self.number[i],
                hash: self.hash[i].clone(),
                transactions: txs,
                timestamp: self.timestamp[i],
            };
            out.push(b);
            proof {
                assert(out@[i as int]@ == self.row(i as int));
            }
            i = i + 1;
        }
        proof {
            assert(blocks_view(out@) =~= self.decoded());
        }
        Some(out)
    }
}

/// Round trip: a batch encoded from some blocks is well formed and decodes
/// back to exactly those blocks, field by field, an absent recipient staying
/// absent.
pub proof fn lemma_round_trip(blocks: Seq<Block>, c: ColumnarBatch)
    requires
        encodes(c, blocks_view(blocks)),
    ensures
        c.wf(),
        c.decoded() == blocks_view(blocks),
        c.decoded().len() == blocks.len(),
        forall|i: int| 0 <= i < blocks.len() ==> {
            &&& (#[trigger] c.row(i)).number == blocks[i].number
            &&& c.row(i).hash == blocks[i].hash@
            &&& c.row(i).timestamp == blocks[i].timestamp
            &&& c.row(i).transactions.len() == blocks[i].transactions@.len()
            &&& forall|j: int| 0 <= j < blocks[i].transactions@.len() ==> {
                &&& (#[trigger] c.row(i).transactions[j]).hash == blocks[i].transactions@[j].hash@
                &&& c.row(i).transactions[j].from == blocks[i].transactions@[j].from@
                &&& c.row(i).transactions[j].value == blocks[i].transactions@[j].value@
                &&& (c.row(i).transactions[j].to is None <==> blocks[i].transactions@[j].to is None)
                &&& c.row(i).transactions[j].to == opt_str_view(blocks[i].transactions@[j].to)
            }
        },
{
    assert(c.decoded().len() == c.rows());
    assert(blocks_view(blocks).len() == blocks.len());
    assert forall|i: int| 0 <= i < blocks.len() implies #[trigger] c.row(i) == blocks[i]@ by {
        assert(blocks_view(blocks)[i] == blocks[i]@);
        assert(c.decoded()[i] == blocks_view(blocks)[i]);
        assert(c.decoded()[i] == c.row(i));
    }
    assert forall|i: int, j: int| 0 <= i < blocks.len() && 0 <= j < blocks[i].transactions@.len()
        implies #[trigger] c.row(i).transactions[j] == blocks[i].transactions@[j]@ by {
        assert(c.row(i) == blocks[i]@);
    }
}

/// Offsets never decrease.
proof fn lemma_offsets_monotone(c: ColumnarBatch, a: int, b: int)
    requires
        c.tx_offsets@.len() == c.rows() + 1,
        forall|i: int|
            0 <= i < c.rows() ==> #[trigger] c.tx_offsets@[i] <= c.tx_offsets@[i + 1],
        0 <= a <= b <= c.rows(),
    ensures
        c.tx_offsets@[a] <= c.tx_offsets@[b],
    decreases b - a,
{
    if a < b {
        lemma_offsets_monotone(c, a, b - 1);
        assert(c.tx_offsets@[b - 1] <= c.tx_offsets@[b]);
    }
}

} // verus!
