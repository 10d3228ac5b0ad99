use vstd::prelude::*;

verus! {

/// Safety margin subtracted from the platform argument-area maximum, covering
/// the command word and separators of a spawned command line.
pub const ARG_MARGIN: usize = 12;

/// The byte ceiling for one batch of arguments, from the platform-reported
/// maximum argument area.
pub fn arg_ceiling(arg_max: usize) -> (r: usize)
    requires
        arg_max >= ARG_MARGIN,
    ensures
        r == arg_max - ARG_MARGIN,
{
    arg_max - ARG_MARGIN
}

/// The length in bytes of the UTF-8 encoding of a string.
pub open spec fn byte_len(s: Seq<char>) -> nat {
    vstd::utf8::encode_utf8(s).len()
}

/// The cumulative byte length of a batch of arguments.
pub open spec fn batch_len(b: Seq<Seq<char>>) -> nat
    decreases b.len(),
{
    if b.len() == 0 {
        0
    } else {
        byte_len(b[0]) + batch_len(b.drop_first())
    }
}

/// The arguments of a sequence of batches, flattened in order.
pub open spec fn concat_batches(bs: Seq<Seq<Seq<char>>>) -> Seq<Seq<char>>
    decreases bs.len(),
{
    if bs.len() == 0 {
        Seq::empty()
    } else {
        bs[0] + concat_batches(bs.drop_first())
    }
}

pub proof fn lemma_batch_len_snoc(b: Seq<Seq<char>>, x: Seq<char>)
    ensures
        batch_len(b.push(x)) == batch_len(b) + byte_len(x),
    decreases b.len(),
{
    if b.len() == 0 {
        assert(b.push(x).drop_first() =~= Seq::<Seq<char>>::empty());
        assert(b.push(x)[0] == x);
        assert(batch_len(Seq::<Seq<char>>::empty()) == 0);
    } else {
        lemma_batch_len_snoc(b.drop_first(), x);
        assert(b.push(x).drop_first() =~= b.drop_first().push(x));
        assert(b.push(x)[0] == b[0]);
    }
}

pub proof fn lemma_concat_batches_snoc(bs: Seq<Seq<Seq<char>>>, b: Seq<Seq<char>>)
    ensures
        concat_batches(bs.push(b)) == concat_batches(bs) + b,
    decreases bs.len(),
{
    if bs.len() == 0 {
        assert(bs.push(b).drop_first() =~= Seq::<Seq<Seq<char>>>::empty());
        assert(bs.push(b)[0] == b);
        assert(concat_batches(Seq::<Seq<Seq<char>>>::empty()) =~= Seq::<Seq<char>>::empty());
        assert(concat_batches(bs.push(b)) =~= concat_batches(bs) + b);
    } else {
        lemma_concat_batches_snoc(bs.drop_first(), b);
        assert(bs.push(b).drop_first() =~= bs.drop_first().push(b));
        assert(bs.push(b)[0] == bs[0]);
        assert(concat_batches(bs.push(b)) =~= concat_batches(bs) + b);
    }
}

/// Accumulates path-like arguments; a push that would drive the accumulated
/// byte length over the ceiling first hands the accumulated batch back to the
/// caller for flushing, then starts a new batch with the pushed argument.
pub struct ArgChunker {
    acc: Vec<String>,
    size: usize,
    limit: usize,
}

impl ArgChunker {
    /// The batch accumulated so far.
    pub closed spec fn view(&self) -> Seq<Seq<char>> {
        self.acc.deep_view()
    }

    /// The configured byte ceiling.
    pub closed spec fn ceiling(&self) -> nat {
        self.limit as nat
    }

    /// The tracked size matches the accumulated batch.
    pub closed spec fn wf(&self) -> bool {
        self.size as nat == batch_len(self@)
    }

    pub fn new(limit: usize) -> (r: ArgChunker)
        ensures
            r@ =~= Seq::<Seq<char>>::empty(),
            r.ceiling() == limit,
            r.wf(),
    {
        let r = ArgChunker { acc: Vec::new(), size: 0, limit };
        proof {
            assert(r.acc.deep_view() =~= Seq::<Seq<char>>::empty());
        }
        r
    }

    /// Accepts the next argument. When the batch accumulated before this call
    /// cannot also hold the new argument under the ceiling, that batch is
    /// returned for flushing and the new argument opens the next batch;
    /// otherwise the argument joins the accumulated batch.
    pub fn push(&mut self, path: String) -> (flushed: Option<Vec<String>>)
        requires
            old(self).wf(),
            byte_len(path@) <= usize::MAX,
        ensures
            final(self).wf(),
            final(self).ceiling() == old(self).ceiling(),
            batch_len(old(self)@) + byte_len(path@) > old(self).ceiling() ==> {
                &&& flushed matches Some(b) && b.deep_view() == old(self)@
                &&& final(self)@ =~= seq![path@]
            },
            batch_len(old(self)@) + byte_len(path@) <= old(self).ceiling() ==> {
                &&& flushed is None
                &&& final(self)@ =~= old(self)@.push(path@)
            },
            batch_len(old(self)@) <= old(self).ceiling() ==> (flushed matches Some(b)
                ==> batch_len(b.deep_view()) <= old(self).ceiling()),
            batch_len(old(self)@) <= old(self).ceiling() && byte_len(path@) <= old(self).ceiling()
                ==> batch_len(final(self)@) <= old(self).ceiling(),
    {
        let l = path.as_str().len();
        let ghost pv = path@;
        proof {
            lemma_batch_len_snoc(self@, pv);
        }
        if self.size > self.limit || l > self.limit - self.size {
            let mut full: Vec<String> = Vec::new();
            core::mem::swap(&mut full, &mut self.acc);
            self.acc.push(path);
            self.size = l;
            proof {
                assert(self.acc.deep_view() =~= Seq::<Seq<char>>::empty().push(pv));
                assert(batch_len(Seq::<Seq<char>>::empty()) == 0);
                lemma_batch_len_snoc(Seq::<Seq<char>>::empty(), pv);
                assert(self.acc.deep_view() =~= seq![pv]);
            }
            Some(full)
        } else {
            self.size = self.size + l;
            self.acc.push(path);
            proof {
                assert(self.acc.deep_view() =~= old(self).acc.deep_view().push(pv));
            }
            None
        }
    }

    /// Ends the accumulation and hands back the residual batch, if any, for
    /// one last flush.
    pub fn finish(self) -> (flushed: Option<Vec<String>>)
        ensures
            self@.len() > 0 ==> (flushed matches Some(b) && b.deep_view() == self@),
            self@.len() == 0 ==> flushed is None,
    {
        if self.acc.len() > 0 {
            Some(self.acc)
        } else {
            None
        }
    }
}

/// Splits `paths`, kept in order, into batches whose cumulative byte length
/// stays under `limit` wherever each single path fits under `limit` itself.
pub fn chunk_paths(paths: &Vec<String>, limit: usize) -> (batches: Vec<Vec<String>>)
    requires
        forall|i: int|
            0 <= i < paths@.len() ==> #[trigger] byte_len(paths.deep_view()[i]) <= usize::MAX,
    ensures
        concat_batches(batches.deep_view()) == paths.deep_view(),
        paths@.len() == 0 ==> batches@.len() == 0,
        (forall|i: int| 0 <= i < paths@.len() ==> #[trigger] byte_len(paths.deep_view()[i])
            <= limit) ==> forall|j: int|
            0 <= j < batches@.len() ==> #[trigger] batch_len(batches.deep_view()[j]) <= limit,
{
    let mut chunker = ArgChunker::new(limit);
    let mut batches: Vec<Vec<String>> = Vec::new();
    let mut i: usize = 0;
    proof {
        assert(batches.deep_view() =~= Seq::<Seq<Seq<char>>>::empty());
        assert(paths.deep_view().take(0) =~= Seq::<Seq<char>>::empty());
    }
    while i < paths.len()
        invariant
            i <= paths@.len(),
            paths@.len() == paths.deep_view().len(),
            forall|k: int|
                0 <= k < paths@.len() ==> #[trigger] byte_len(paths.deep_view()[k]) <= usize::MAX,
            chunker.wf(),
            chunker.ceiling() == limit,
            concat_batches(batches.deep_view()) + chunker@ =~= paths.deep_view().take(i as int),
            paths@.len() == 0 ==> batches@.len() == 0,
            (forall|k: int| 0 <= k < paths@.len() ==> #[trigger] byte_len(paths.deep_view()[k])
                <= limit) ==> batch_len(chunker@) <= limit && forall|j: int|
                0 <= j < batches@.len() ==> #[trigger] batch_len(batches.deep_view()[j]) <= limit,
        decreases paths@.len() - i,
    {
        let path = paths[i].clone();
        proof {
            assert(path@ == paths.deep_view()[i as int]);
            assert(byte_len(paths.deep_view()[i as int]) <= usize::MAX);
            assert(byte_len(path@) <= usize::MAX);
        }
        let ghost pre = chunker@;
        let ghost pre_batches = batches.deep_view();
        let ghost pv = path@;
        match chunker.push(path) {
            Some(b) => {
                batches.push(b);
                proof {
                    assert(batches.deep_view() =~= pre_batches.push(pre));
                    lemma_concat_batches_snoc(pre_batches, pre);
                    assert(seq![pv].drop_first() =~= Seq::<Seq<char>>::empty());
                    assert(batch_len(Seq::<Seq<char>>::empty()) == 0);
                    assert(batch_len(seq![pv]) == byte_len(pv));
                    assert(chunker@ =~= seq![pv]);
                    if forall|k: int|
                        0 <= k < paths@.len() ==> #[trigger] byte_len(paths.deep_view()[k])
                            <= limit {
                        assert(byte_len(paths.deep_view()[i as int]) <= limit);
                        assert(batch_len(chunker@) <= limit);
                        assert forall|j: int| 0 <= j < batches@.len() implies #[trigger] batch_len(
                            batches.deep_view()[j],
                        ) <= limit by {
                            if j < pre_batches.len() {
                                assert(batches.deep_view()[j] == pre_batches[j]);
                            } else {
                                assert(batches.deep_view()[j] == pre);
                            }
                        }
                    }
                }
            },
            None => {
                proof {
                    lemma_batch_len_snoc(pre, pv);
                    assert(chunker@ =~= pre.push(pv));
                }
            },
        }
        proof {
            assert(paths.deep_view().take(i + 1 as int) =~= paths.deep_view().take(i as int).push(
                paths.deep_view()[i as int],
            ));
            assert(concat_batches(batches.deep_view()) + chunker@ =~= paths.deep_view().take(
                i + 1 as int,
            ));
        }
        i = i + 1;
    }
    proof {
        assert(paths.deep_view().take(paths@.len() as int) =~= paths.deep_view());
    }
    let ghost pre = chunker@;
    let ghost pre_batches = batches.deep_view();
    match chunker.finish() {
        Some(b) => {
            batches.push(b);
            proof {
                assert(batches.deep_view() =~= pre_batches.push(pre));
                lemma_concat_batches_snoc(pre_batches, pre);
            }
        },
        None => {
            proof {
                assert(concat_batches(batches.deep_view()) + chunker@ =~= concat_batches(
                    batches.deep_view(),
                ));
            }
        },
    }
    batches
}

} // verus!
