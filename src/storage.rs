use vstd::prelude::*;
use crate::blocks::{Block, BlockView, blocks_view};
use crate::columnar::{ColumnarBatch, encode, encodes};
use crate::config::Config;
use crate::error::IndexerError;
use crate::naming::{choose_path, file_base, file_suffix, is_output_path, join_path, lemma_path_injective, utc_now};

verus! {

/// One encoded batch to be written as a unit, with the path of the file to
/// open first when no output file is open.
pub struct WriteRequest {
    pub batch: ColumnarBatch,
    pub open_file: Option<String>,
}

/// What a rotation asks for: the pending batch to write into the current file
/// (opening one first where needed), then the path of the fresh file that
/// replaces it.
pub struct Rotation {
    pub flush: Option<WriteRequest>,
    pub next_file: String,
}

/// The writer's state as mathematics: the pending blocks, the flush
/// threshold, the path of the open output file, if any, and how many batches
/// that file holds.
pub struct StorageModel {
    pub pending: Seq<BlockView>,
    pub batch_size: nat,
    pub open_file: Option<Seq<char>>,
    pub batches_in_file: nat,
}

/// The most blocks that can be pending: the threshold, and one block when the
/// threshold is zero (each block is then written on its own).
pub open spec fn batch_limit(m: StorageModel) -> nat {
    if m.batch_size == 0 { 1 } else { m.batch_size }
}

/// Accepting block `b`: it joins the pending batch, and when the batch has
/// reached the threshold the whole pending batch is due for writing.
pub open spec fn accept_spec(m: StorageModel, b: BlockView) -> (StorageModel, Option<Seq<BlockView>>) {
    let p = m.pending.push(b);
    (StorageModel { pending: p, ..m }, if p.len() >= m.batch_size { Some(p) } else { None })
}

/// The pending batch has been written, into the file `opened` when one was
/// opened for it, else into the open file: the batch is cleared and that
/// file holds one more batch.
pub open spec fn written_spec(m: StorageModel, opened: Option<Seq<char>>) -> StorageModel {
    match opened {
        Some(p) => StorageModel { pending: Seq::empty(), open_file: Some(p), batches_in_file: 1, ..m },
        None => StorageModel { pending: Seq::empty(), batches_in_file: m.batches_in_file + 1, ..m },
    }
}

/// A rotation to the fresh file `next`: the batch it flushes, if any, and the
/// state once the old file is closed and `next` is open and empty.
pub open spec fn rotate_spec(m: StorageModel, next: Seq<char>) -> (Option<Seq<BlockView>>, StorageModel) {
    (
        if m.pending.len() == 0 { None } else { Some(m.pending) },
        StorageModel { pending: Seq::empty(), open_file: Some(next), batches_in_file: 0, ..m },
    )
}

/// The request writes exactly `bs`, opening a fresh file in `dir` exactly
/// when no file is open.
pub open spec fn requests(req: WriteRequest, bs: Seq<BlockView>, dir: Seq<char>, open_file: Option<Seq<char>>) -> bool {
    &&& encodes(req.batch, bs)
    &&& (req.open_file is Some <==> open_file is None)
    &&& (req.open_file matches Some(p) ==> is_output_path(dir, p@))
}

/// Accepting the blocks `bs` one after another with threshold `t`, starting
/// from the pending blocks `p`, each batch that falls due being written
/// before the next block: the blocks left pending and the batches written, in
/// order.
pub open spec fn feed(t: nat, p: Seq<BlockView>, bs: Seq<BlockView>) -> (Seq<BlockView>, Seq<Seq<BlockView>>)
    decreases bs.len(),
{
    if bs.len() == 0 {
        (p, Seq::empty())
    } else {
        let (p1, out) = feed(t, p, bs.drop_last());
        let p2 = p1.push(bs.last());
        if p2.len() >= t {
            (Seq::empty(), out.push(p2))
        } else {
            (p2, out)
        }
    }
}

proof fn lemma_feed_below_threshold(t: nat, bs: Seq<BlockView>, k: int)
    requires
        0 <= k < t,
        k <= bs.len(),
    ensures
        feed(t, Seq::empty(), bs.take(k)) == (bs.take(k), Seq::<Seq<BlockView>>::empty()),
    decreases k,
{
    if k == 0 {
        assert(bs.take(0) =~= Seq::<BlockView>::empty());
    } else {
        lemma_feed_below_threshold(t, bs, k - 1);
        assert(bs.take(k).drop_last() =~= bs.take(k - 1));
        assert(bs.take(k - 1).push(bs.take(k).last()) =~= bs.take(k));
    }
}

/// With flush threshold `T`, accepting `T - 1` blocks into an empty writer
/// writes no batch, and accepting the `T`-th writes exactly one batch that
/// holds all `T` blocks in the order they were accepted.
pub proof fn lemma_batch_threshold(bs: Seq<BlockView>)
    requires
        bs.len() > 0,
    ensures
        feed(bs.len(), Seq::empty(), bs.take(bs.len() - 1)).1.len() == 0,
        feed(bs.len(), Seq::empty(), bs).1 == seq![bs],
        feed(bs.len(), Seq::empty(), bs).0.len() == 0,
{
    let t = bs.len() as int;
    lemma_feed_below_threshold(bs.len(), bs, t - 1);
    assert(bs.drop_last() =~= bs.take(t - 1));
    assert(bs.take(t - 1).push(bs.last()) =~= bs);
    assert(feed(bs.len(), Seq::empty(), bs).1 =~= seq![bs]);
}

/// `feed` is what the writer does: from the state reached by feeding `bs`,
/// a call of `store_block` with `b` (whose state is the first part of
/// `accept_spec`), followed by `batch_written` when it returned a batch,
/// leaves exactly the pending blocks and written batches of feeding
/// `bs` and then `b`.
pub proof fn lemma_feed_extends(m: StorageModel, bs: Seq<BlockView>, b: BlockView)
    requires
        m.pending == feed(m.batch_size, Seq::empty(), bs).0,
    ensures
        accept_spec(m, b).1 matches Some(batch) ==> feed(m.batch_size, Seq::empty(), bs.push(b)) == (
            written_spec(accept_spec(m, b).0, None).pending,
            feed(m.batch_size, Seq::empty(), bs).1.push(batch),
        ),
        accept_spec(m, b).1 is None ==> feed(m.batch_size, Seq::empty(), bs.push(b)) == (
            accept_spec(m, b).0.pending,
            feed(m.batch_size, Seq::empty(), bs).1,
        ),
{
    assert(bs.push(b).drop_last() =~= bs);
}

/// Rotating to `next` with `K` pending blocks, fewer than the threshold,
/// flushes exactly one batch of those `K` blocks before the file is closed,
/// and the fresh file starts empty with nothing pending.
pub proof fn lemma_rotation_preserves_data(m: StorageModel, next: Seq<char>)
    requires
        0 < m.pending.len() < m.batch_size,
    ensures
        rotate_spec(m, next).0 == Some(m.pending),
        rotate_spec(m, next).1.pending.len() == 0,
        rotate_spec(m, next).1.batches_in_file == 0,
        rotate_spec(m, next).1.open_file == Some(next),
{
}

/// Buffers accepted blocks and decides when a batch is written and when
/// files are opened and closed. The writing itself is done by the caller,
/// which reports each completed write back. Files named within one second
/// are numbered, so that no name repeats while the clock moves forward.
pub struct StorageManager {
    data_dir: String,
    current_batch: Vec<Block>,
    batch_size: usize,
    current_file: Option<String>,
    batches_in_file: u64,
    last_base: String,
    name_seq: u64,
    named: Ghost<Set<Seq<char>>>,
}

pub open spec fn opt_path_view(o: Option<String>) -> Option<Seq<char>> {
    match o {
        Some(s) => Some(s@),
        None => None,
    }
}

impl View for StorageManager {
    type V = StorageModel;

    closed spec fn view(&self) -> StorageModel {
        StorageModel {
            pending: blocks_view(self.current_batch@),
            batch_size: self.batch_size as nat,
            open_file: opt_path_view(self.current_file),
            batches_in_file: self.batches_in_file as nat,
        }
    }
}

impl StorageManager {
    pub closed spec fn dir(&self) -> Seq<char> {
        self.data_dir@
    }

    /// The stamp text of the last file named.
    pub closed spec fn last_base(&self) -> Seq<char> {
        self.last_base@
    }

    /// The paths named under the stamp text of the last file named, since the
    /// writer came to that stamp.
    pub closed spec fn named_in_second(&self) -> Set<Seq<char>> {
        self.named@
    }

    /// Every path named in the current second has a number up to the last
    /// one used.
    pub closed spec fn naming_wf(&self) -> bool {
        forall|j: nat|
            #[trigger] self.named@.contains(join_path(self.data_dir@, self.last_base@ + file_suffix(j)))
                ==> j <= self.name_seq
    }

    /// The pending batch never exceeds its limit, and file numbering is
    /// consistent.
    pub open spec fn wf(&self) -> bool {
        &&& self@.pending.len() <= batch_limit(self@)
        &&& self.naming_wf()
    }

    /// A writer for `config`: files go to its data directory and a batch is
    /// written every `blocks_in_memory` blocks (every block when that is
    /// zero). Nothing is pending and no file is open.
    pub fn new(config: &Config) -> (r: Result<StorageManager, IndexerError>)
        ensures
            r matches Ok(s) && s.wf() && s@.pending.len() == 0
                && s@.batch_size == config.blocks_in_memory && s@.open_file is None
                && s@.batches_in_file == 0 && s.dir() == config.data_dir@,
    {
        Ok(StorageManager {
            data_dir: config.data_dir.clone(),
            current_batch: Vec::new(),
            batch_size: config.blocks_in_memory,
            current_file: None,
            batches_in_file: 0,
            last_base: String::new(),
            name_seq: 0,
            named: Ghost(Set::empty()),
        })
    }

    /// Whether a block can be accepted before the pending batch is written.
    pub fn has_room(&self) -> (r: bool)
        ensures
            r == (self@.pending.len() < batch_limit(self@)),
    {
        self.current_batch.len() < self.batch_size || self.current_batch.len() == 0
    }

    /// The pending blocks.
    pub fn pending(&self) -> (r: &Vec<Block>)
        ensures
            blocks_view(r@) == self@.pending,
    {
        &self.current_batch
    }

    /// Whether an output file is open.
    pub fn has_open_file(&self) -> (r: bool)
        ensures
            r == self@.open_file is Some,
    {
        self.current_file.is_some()
    }

    /// The path of the open output file.
    pub fn open_file(&self) -> (r: &Option<String>)
        ensures
            opt_path_view(*r) == self@.open_file,
    {
        &self.current_file
    }

    /// Number of batches written to the open file.
    pub fn batches_in_file(&self) -> (r: u64)
        ensures
            r as nat == self@.batches_in_file,
    {
        self.batches_in_file
    }

    /// A fresh output path stamped with the current time, different from
    /// `avoid` and, when named in the same second as the last file, from
    /// every path named in that second; an error when the clock cannot be
    /// read or no number is left in the second.
    fn fresh_path(&mut self, avoid: &Option<String>) -> (r: Result<String, IndexerError>)
        requires
            old(self).wf(),
        ensures
            final(self).wf(),
            final(self)@ == old(self)@,
            final(self).dir() == old(self).dir(),
            r is Err ==> final(self).last_base() == old(self).last_base()
                && final(self).named_in_second() == old(self).named_in_second(),
            r matches Ok(p) ==> {
                &&& is_output_path(old(self).dir(), p@)
                &&& (opt_path_view(*avoid) matches Some(a) ==> p@ != a)
                &&& final(self).named_in_second().contains(p@)
                &&& (final(self).last_base() == old(self).last_base()
                    ==> !old(self).named_in_second().contains(p@))
                &&& (final(self).last_base() == old(self).last_base()
                    ==> final(self).named_in_second() == old(self).named_in_second().insert(p@))
            },
            r matches Err(e) ==> e is StorageError,
    {
        let t = match utc_now() {
            Some(t) => t,
            None => {
                return Err(IndexerError::StorageError(String::from_str("the system clock cannot be read")));
            },
        };
        let (path, base, k) = match choose_path(self.data_dir.as_str(), t, &self.last_base, self.name_seq, avoid) {
            Ok(c) => c,
            Err(e) => {
                return Err(e);
            },
        };
        let ghost dir = self.data_dir@;
        let ghost old_named = self.named@;
        let ghost old_seq = self.name_seq;
        let ghost same = base@ == self.last_base@;
        proof {
            assert(join_path(dir, file_base(t) + file_suffix(k as nat)) == path@);
            if same {
                assert(k > old_seq);
                if old_named.contains(path@) {
                    assert(old_named.contains(join_path(dir, self.last_base@ + file_suffix(k as nat))));
                }
                self.named = Ghost(old_named.insert(path@));
            } else {
                self.named = Ghost(Set::empty().insert(path@));
            }
        }
        self.last_base = base;
        self.name_seq = k;
        proof {
            assert forall|j: nat|
                #[trigger] self.named@.contains(join_path(self.data_dir@, self.last_base@ + file_suffix(j)))
                    implies j <= self.name_seq by {
                let q = join_path(self.data_dir@, self.last_base@ + file_suffix(j));
                if q == path@ {
                    lemma_path_injective(dir, base@, j, k as nat);
                } else {
                    assert(same && old_named.contains(q));
                }
            }
        }
        Ok(path)
    }

    /// Appends `block` to the pending batch. When the batch reaches the
    /// threshold, returns the request that writes it; the batch stays pending
    /// until `batch_written` reports the write. An error when a file must be
    /// opened for the batch and the clock cannot be read.
    pub fn store_block(&mut self, block: Block) -> (r: Result<Option<WriteRequest>, IndexerError>)
        requires
            old(self).wf(),
            old(self)@.pending.len() < batch_limit(old(self)@),
        ensures
            final(self).wf(),
            final(self)@ == accept_spec(old(self)@, block@).0,
            final(self).dir() == old(self).dir(),
            accept_spec(old(self)@, block@).1 is None ==> r matches Ok(None),
            accept_spec(old(self)@, block@).1 is Some ==> !(r matches Ok(None)),
            accept_spec(old(self)@, block@).1 is Some && old(self)@.open_file is Some ==> r matches Ok(Some(_)),
            r matches Ok(Some(req)) ==> accept_spec(old(self)@, block@).1 matches Some(bs)
                && requests(req, bs, old(self).dir(), old(self)@.open_file),
            r matches Err(e) ==> e is StorageError && old(self)@.open_file is None
                && accept_spec(old(self)@, block@).1 is Some,
    {
        self.current_batch.push(block);
        proof {
            assert(blocks_view(self.current_batch@) =~= blocks_view(old(self).current_batch@).push(block@));
        }
        if self.current_batch.len() >= self.batch_size {
            self.flush_batch()
        } else {
            Ok(None)
        }
    }

    /// The request that writes the pending batch, or `None` when nothing is
    /// pending. An error when a file must be opened and the clock cannot be
    /// read.
    pub fn flush_batch(&mut self) -> (r: Result<Option<WriteRequest>, IndexerError>)
        requires
            old(self).wf(),
        ensures
            final(self).wf(),
            final(self)@ == old(self)@,
            final(self).dir() == old(self).dir(),
            old(self)@.pending.len() == 0 <==> r matches Ok(None),
            r matches Ok(Some(req)) ==> requests(req, old(self)@.pending, old(self).dir(), old(self)@.open_file),
            (match r {
                Ok(f) => opened_none(f),
                Err(_) => false,
            }) ==> final(self).last_base() == old(self).last_base()
                && final(self).named_in_second() == old(self).named_in_second(),
            r matches Err(e) ==> e is StorageError && old(self)@.open_file is None,
    {
        if self.current_batch.len() == 0 {
            return Ok(None);
        }
        let batch = encode(&self.current_batch);
        let open_file = if self.current_file.is_some() {
            None
        } else {
            match self.fresh_path(&None) {
                Ok(p) => Some(p),
                Err(e) => {
                    return Err(e);
                },
            }
        };
        Ok(Some(WriteRequest { batch, open_file }))
    }

    /// Records that the pending batch was written, into the file `opened`
    /// when the request opened one: the batch is cleared and that file holds
    /// one more batch.
    pub fn batch_written(&mut self, opened: Option<String>)
        requires
            old(self).wf(),
        ensures
            final(self).wf(),
            final(self)@ == (StorageModel {
                batches_in_file: if opened is None && old(self)@.batches_in_file == u64::MAX {
                    u64::MAX as nat
                } else {
                    written_spec(old(self)@, opt_path_view(opened)).batches_in_file
                },
                ..written_spec(old(self)@, opt_path_view(opened))
            }),
            final(self).dir() == old(self).dir(),
    {
        self.current_batch.clear();
        match opened {
            Some(p) => {
                self.current_file = Some(p);
                self.batches_in_file = 1;
            },
            None => {
                if self.batches_in_file < u64::MAX {
                    self.batches_in_file = self.batches_in_file + 1;
                }
            },
        }
        proof {
            assert(blocks_view(self.current_batch@) =~= Seq::<BlockView>::empty());
        }
    }

    /// Plans a rotation: the pending batch is flushed first, so that no
    /// accepted block is lost, then the current file is closed and a fresh
    /// one opened. The fresh file's path differs from that of the open file
    /// and from that of a file opened for the flush. An error when the clock
    /// cannot be read.
    pub fn rotate_file(&mut self) -> (r: Result<Rotation, IndexerError>)
        requires
            old(self).wf(),
        ensures
            final(self).wf(),
            final(self)@ == old(self)@,
            final(self).dir() == old(self).dir(),
            r matches Ok(rot) ==> {
                &&& (rot.flush is Some <==> old(self)@.pending.len() > 0)
                &&& (rot.flush matches Some(req) ==> requests(
                    req,
                    old(self)@.pending,
                    old(self).dir(),
                    old(self)@.open_file,
                ))
                &&& is_output_path(old(self).dir(), rot.next_file@)
                &&& (old(self)@.open_file matches Some(p) ==> rot.next_file@ != p)
                &&& (rot.flush matches Some(req) ==> (req.open_file matches Some(f) ==> rot.next_file@ != f@))
                &&& final(self).named_in_second().contains(rot.next_file@)
                &&& (opened_none(rot.flush) && final(self).last_base() == old(self).last_base()
                    ==> !old(self).named_in_second().contains(rot.next_file@))
            },
            r matches Err(e) ==> e is StorageError,
    {
        let flush = match self.flush_batch() {
            Ok(f) => f,
            Err(e) => {
                return Err(e);
            },
        };
        let avoid = match &flush {
            Some(req) => match &req.open_file {
                Some(f) => Some(f.clone()),
                None => clone_path(&self.current_file),
            },
            None => clone_path(&self.current_file),
        };
        let next_file = match self.fresh_path(&avoid) {
            Ok(p) => p,
            Err(e) => {
                return Err(e);
            },
        };
        Ok(Rotation { flush, next_file })
    }

    /// Records a completed rotation to `next_file`: nothing is pending and
    /// the fresh file is open and empty.
    pub fn rotated(&mut self, next_file: String)
        requires
            old(self).wf(),
        ensures
            final(self).wf(),
            final(self)@ == rotate_spec(old(self)@, next_file@).1,
            final(self).dir() == old(self).dir(),
    {
        self.current_batch.clear();
        self.current_file = Some(next_file);
        self.batches_in_file = 0;
        proof {
            assert(blocks_view(self.current_batch@) =~= Seq::<BlockView>::empty());
        }
    }
}

/// No file is opened for the flush.
pub open spec fn opened_none(flush: Option<WriteRequest>) -> bool {
    match flush {
        Some(req) => req.open_file is None,
        None => true,
    }
}

fn clone_path(o: &Option<String>) -> (r: Option<String>)
    ensures
        opt_path_view(r) == opt_path_view(*o),
{
    match o {
        Some(s) => Some(s.clone()),
        None => None,
    }
}

} // verus!
