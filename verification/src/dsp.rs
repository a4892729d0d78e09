//! The block streamer: wraps a decoded sample source, gathers samples into
//! fixed-size blocks, runs the transformation on each block (unless
//! bypassed), and hands the result back out one sample at a time, forwarding
//! the source's stream metadata unchanged.

use vstd::prelude::*;

use vstd::arithmetic::div_mod::{lemma_fundamental_div_mod, lemma_fundamental_div_mod_converse, lemma_mod_pos_bound};
use vstd::seq_lib::lemma_flatten_concat;

use crate::audio_app::{same_kind, ParamStore, ParamValue};
use crate::dsp_module::Transformation;

verus! {

/// The block sizes a session may be configured with.
pub open spec fn valid_block_size(n: int) -> bool {
    n == 1024 || n == 2048 || n == 4096 || n == 8192 || n == 16384
}

/// The block size a session starts with.
pub const DEFAULT_BLOCK_SIZE: usize = 4096;

/// The block sizes offered for selection, smallest first.
pub fn available_block_sizes() -> (r: Vec<usize>)
    ensures
        r@ == seq![1024usize, 2048usize, 4096usize, 8192usize, 16384usize],
        forall|i: int| 0 <= i < r@.len() ==> valid_block_size(r@[i] as int),
{
    let mut v: Vec<usize> = Vec::new();
    v.push(1024);
    v.push(2048);
    v.push(4096);
    v.push(8192);
    v.push(16384);
    proof {
        assert(v@ =~= seq![1024usize, 2048usize, 4096usize, 8192usize, 16384usize]);
    }
    v
}

/// Stream metadata forwarded unchanged from the upstream source: the
/// streamer never resamples or re-channels.
#[derive(Clone, Copy, Debug)]
pub struct SourceInfo {
    pub sample_rate: u32,
    pub channels: u16,
    pub current_frame_len: Option<usize>,
    pub total_duration_us: Option<u64>,
}

/// One block through the transformation: unchanged when bypassed, otherwise
/// rewritten under the given parameter snapshot.
pub open spec fn process_block<T: Transformation>(
    t: T,
    b: Seq<i16>,
    params: Seq<ParamValue>,
    bypass: bool,
) -> Seq<i16> {
    if bypass {
        b
    } else {
        t.spec_transform(b, params)
    }
}

/// What a whole source becomes when streamed in blocks of `bs` under fixed
/// parameter values and a fixed bypass setting: the source is cut into
/// blocks of `bs` samples (the last one shorter unless `bs` divides the
/// length), and each block goes through the transformation in source order.
pub open spec fn stream_spec<T: Transformation>(
    t: T,
    input: Seq<i16>,
    bs: int,
    params: Seq<ParamValue>,
    bypass: bool,
) -> Seq<i16>
    decreases input.len(),
{
    if input.len() == 0 || bs <= 0 {
        Seq::empty()
    } else if input.len() <= bs {
        process_block(t, input, params, bypass)
    } else {
        process_block(t, input.take(bs), params, bypass) + stream_spec(
            t,
            input.skip(bs),
            bs,
            params,
            bypass,
        )
    }
}

/// The blocks a source of this length is cut into: `ceil(len / bs)`, one
/// transformation invocation each.
pub open spec fn invocation_count(len: int, bs: int) -> int {
    if len <= 0 {
        0
    } else {
        (len + bs - 1) / bs
    }
}

/// The streamer. It pulls from an already-decoded source held as a plain
/// sample vector, and exposes the transformed stream through `next`.
pub struct BlockProcessor<T: Transformation> {
    /// The decoded upstream samples.
    pub input: Vec<i16>,
    /// How many upstream samples have been pulled into blocks so far.
    pub input_pos: usize,
    /// The current block, already transformed (or passed through).
    pub block: Vec<i16>,
    /// The next sample of `block` to yield.
    pub block_pos: usize,
    /// Transport flag: once a yield attempt observes it false, the
    /// streamer drains and never yields again.
    pub is_playing: bool,
    /// When true, freshly filled blocks skip the transformation.
    pub bypass: bool,
    /// The live parameters; a snapshot is taken per block.
    pub params: ParamStore,
    /// The pluggable transformation.
    pub transform: T,
    /// How many samples have been through the transformation.
    pub samples_processed: usize,
    /// The configured block capacity.
    pub block_size: usize,
    /// Pass-through stream metadata.
    pub meta: SourceInfo,
}

impl<T: Transformation> BlockProcessor<T> {
    pub open spec fn wf(self) -> bool {
        &&& valid_block_size(self.block_size as int)
        &&& self.block_pos <= self.block@.len()
        &&& self.block@.len() <= self.block_size
        &&& self.input_pos <= self.input@.len()
    }

    /// The upstream samples not yet pulled into a block.
    pub open spec fn remaining_input(self) -> Seq<i16> {
        self.input@.skip(self.input_pos as int)
    }

    /// The current block has been yielded in full (also true initially,
    /// when there is no block yet).
    pub open spec fn exhausted(self) -> bool {
        self.block_pos >= self.block@.len()
    }

    /// Terminal: the current block is spent and no upstream samples remain,
    /// so no call can ever yield again, whatever the transport flag says.
    /// `next` enters this state when the source runs out, and also as soon
    /// as it observes a cleared transport flag.
    pub open spec fn drained(self) -> bool {
        self.exhausted() && self.remaining_input().len() == 0
    }

    /// How many samples the next fill would pull: a full block, or whatever
    /// is left of the source.
    pub open spec fn pull_len(self) -> int {
        if self.remaining_input().len() >= self.block_size as int {
            self.block_size as int
        } else {
            self.remaining_input().len() as int
        }
    }

    /// The raw samples the next fill would pull.
    pub open spec fn spec_raw_block(self) -> Seq<i16> {
        self.input@.subrange(self.input_pos as int, self.input_pos as int + self.pull_len())
    }

    /// What the next fill would leave in `block`: the pulled samples, put
    /// through the transformation with the snapshot taken at fill time
    /// unless bypass is set at fill time.
    pub open spec fn spec_filled_block(self) -> Seq<i16> {
        process_block(self.transform, self.spec_raw_block(), self.params.values(), self.bypass)
    }

    /// The sample one call of `next` yields, by case: nothing once stopped,
    /// the next sample of the current block while one is open, nothing when
    /// source and block are both spent, and the first sample of a freshly
    /// filled block otherwise.
    pub open spec fn spec_next_sample(self) -> Option<i16> {
        if !self.is_playing {
            None
        } else if !self.exhausted() {
            Some(self.block@[self.block_pos as int])
        } else if self.pull_len() == 0 {
            None
        } else {
            Some(self.spec_filled_block()[0])
        }
    }

    pub fn new(
        input: Vec<i16>,
        meta: SourceInfo,
        is_playing: bool,
        bypass: bool,
        params: ParamStore,
        transform: T,
        block_size: usize,
    ) -> (r: BlockProcessor<T>)
        requires
            valid_block_size(block_size as int),
        ensures
            r.wf(),
            r.input == input,
            r.input_pos == 0,
            r.block@ == Seq::<i16>::empty(),
            r.block_pos == 0,
            r.is_playing == is_playing,
            r.bypass == bypass,
            r.params == params,
            r.transform == transform,
            r.samples_processed == 0,
            r.block_size == block_size,
            r.meta == meta,
    {
        let r = BlockProcessor {
            input,
            input_pos: 0,
            block: Vec::new(),
            block_pos: 0,
            is_playing,
            bypass,
            params,
            transform,
            samples_processed: 0,
            block_size,
            meta,
        };
        proof {
            assert(r.block@ =~= Seq::<i16>::empty());
        }
        r
    }

    /// Writes the transport flag, as the controller or driver does. A
    /// cleared flag takes effect at the next yield attempt, which drains
    /// the streamer for good: writing the flag back to true after that
    /// resumes nothing (see `lemma_drained_is_terminal`).
    pub fn set_playing(&mut self, playing: bool)
        ensures
            *final(self) == (BlockProcessor { is_playing: playing, ..*old(self) }),
    {
        self.is_playing = playing;
    }

    /// Writes the bypass flag. Only blocks filled from now on see it: a
    /// block already transformed is never undone.
    pub fn set_bypass(&mut self, bypass: bool)
        ensures
            *final(self) == (BlockProcessor { bypass: bypass, ..*old(self) }),
    {
        self.bypass = bypass;
    }

    /// Writes one parameter value, as the controller does between blocks.
    /// The value must keep the registered kind, as a store write does.
    pub fn set_param(&mut self, index: usize, value: ParamValue)
        requires
            index < old(self).params.values().len(),
            same_kind(old(self).params.values()[index as int], value),
        ensures
            final(self).params.values() == old(self).params.values().update(index as int, value),
            final(self).input == old(self).input,
            final(self).input_pos == old(self).input_pos,
            final(self).block == old(self).block,
            final(self).block_pos == old(self).block_pos,
            final(self).is_playing == old(self).is_playing,
            final(self).bypass == old(self).bypass,
            final(self).transform == old(self).transform,
            final(self).samples_processed == old(self).samples_processed,
            final(self).block_size == old(self).block_size,
            final(self).meta == old(self).meta,
    {
        self.params.set(index, value);
        proof {
            assert(final(self).params.values() =~= old(self).params.values().update(
                index as int,
                value,
            ));
        }
    }

    pub fn sample_rate(&self) -> (r: u32)
        ensures
            r == self.meta.sample_rate,
    {
        self.meta.sample_rate
    }

    pub fn channels(&self) -> (r: u16)
        ensures
            r == self.meta.channels,
    {
        self.meta.channels
    }

    pub fn current_frame_len(&self) -> (r: Option<usize>)
        ensures
            r == self.meta.current_frame_len,
    {
        self.meta.current_frame_len
    }

    pub fn total_duration_us(&self) -> (r: Option<u64>)
        ensures
            r == self.meta.total_duration_us,
    {
        self.meta.total_duration_us
    }

    /// Runs the transformation over the current block with a snapshot of
    /// the parameter values as they stand now; when bypass is set, in
    /// contrast, the block stays as it is and no processing time accrues.
    pub fn process_buffer(&mut self)
        requires
            old(self).wf(),
            old(self).samples_processed + old(self).block@.len() <= usize::MAX,
        ensures
            final(self).wf(),
            final(self).input == old(self).input,
            final(self).input_pos == old(self).input_pos,
            final(self).block_pos == old(self).block_pos,
            final(self).is_playing == old(self).is_playing,
            final(self).bypass == old(self).bypass,
            final(self).params == old(self).params,
            final(self).transform == old(self).transform,
            final(self).block_size == old(self).block_size,
            final(self).meta == old(self).meta,
            final(self).block@ == process_block(
                old(self).transform,
                old(self).block@,
                old(self).params.values(),
                old(self).bypass,
            ),
            final(self).samples_processed == old(self).samples_processed + (if old(self).bypass {
                0int
            } else {
                old(self).block@.len() as int
            }),
            old(self).bypass ==> final(self).block == old(self).block,
    {
        if self.bypass {
            return ;
        }
        let snap = self.params.get_snapshot();
        let len = self.block.len();
        self.transform.transform(&mut self.block, &snap);
        proof {
            self.transform.transform_len(old(self).block@, old(self).params.values());
        }
        self.samples_processed = self.samples_processed + len;
    }

    /// One step of the streaming state machine. While playing it yields the
    /// current block sample by sample; at a block boundary it pulls up to
    /// `block_size` fresh samples, transforms them under the parameter
    /// values as of this call (unless bypass is set now), and yields the
    /// first sample. It yields nothing once the source is spent; and on
    /// observing a cleared transport flag it drops whatever is left and is
    /// drained for good — writing the flag true again resumes nothing.
    pub fn next(&mut self) -> (r: Option<i16>)
        requires
            old(self).wf(),
            old(self).samples_processed + old(self).block_size <= usize::MAX,
        ensures
            final(self).wf(),
            r == old(self).spec_next_sample(),
            final(self).input == old(self).input,
            final(self).is_playing == old(self).is_playing,
            final(self).bypass == old(self).bypass,
            final(self).params == old(self).params,
            final(self).transform == old(self).transform,
            final(self).block_size == old(self).block_size,
            final(self).meta == old(self).meta,
            old(self).drained() ==> final(self).drained(),
            !old(self).is_playing ==> {
                &&& final(self).drained()
                &&& final(self).block == old(self).block
                &&& final(self).block_pos == old(self).block@.len()
                &&& final(self).input_pos == old(self).input@.len()
                &&& final(self).samples_processed == old(self).samples_processed
            },
            old(self).is_playing && !old(self).exhausted() ==> *final(self) == (BlockProcessor {
                block_pos: (old(self).block_pos + 1) as usize,
                ..*old(self)
            }),
            old(self).is_playing && old(self).exhausted() && old(self).pull_len() == 0
                ==> *final(self) == *old(self),
            old(self).is_playing && old(self).exhausted() && old(self).pull_len() > 0 ==> {
                &&& final(self).block@ == old(self).spec_filled_block()
                &&& final(self).block@.len() == old(self).pull_len()
                &&& final(self).block_pos == 1
                &&& final(self).input_pos == old(self).input_pos + old(self).pull_len()
                &&& final(self).samples_processed == old(self).samples_processed
                    + (if old(self).bypass { 0int } else { old(self).pull_len() })
            },
    {
        if !self.is_playing {
            // A stop takes priority over finishing the block: what is left
            // of block and source is dropped, and the streamer is drained.
            self.block_pos = self.block.len();
            self.input_pos = self.input.len();
            return None;
        }
        if self.block_pos >= self.block.len() {
            let ghost start = self.input_pos as int;
            let mut new_block: Vec<i16> = Vec::new();
            let mut pos = self.input_pos;
            let mut k: usize = 0;
            while k < self.block_size && pos < self.input.len()
                invariant
                    self.input_pos == start,
                    start <= pos <= self.input@.len(),
                    k == pos - start,
                    k <= self.block_size,
                    new_block@ == self.input@.subrange(start, pos as int),
                decreases self.block_size - k,
            {
                new_block.push(self.input[pos]);
                pos = pos + 1;
                k = k + 1;
                proof {
                    assert(new_block@ =~= self.input@.subrange(start, pos as int));
                }
            }
            if new_block.len() == 0 {
                return None;
            }
            proof {
                assert(pos as int == start + old(self).pull_len());
                assert(new_block@ == old(self).spec_raw_block());
            }
            self.input_pos = pos;
            self.block = new_block;
            self.block_pos = 0;
            self.process_buffer();
            proof {
                if !old(self).bypass {
                    old(self).transform.transform_len(
                        old(self).spec_raw_block(),
                        old(self).params.values(),
                    );
                }
            }
        }
        let s = self.block[self.block_pos];
        self.block_pos = self.block_pos + 1;
        Some(s)
    }

    /// Pulls, transforms and yields until the source is spent, collecting
    /// every yielded sample: the whole-stream behavior of `next`. Starting
    /// at a block boundary, a playing streamer emits exactly
    /// `stream_spec` of its remaining input; a stopped one emits nothing.
    pub fn collect_remaining(&mut self) -> (out: Vec<i16>)
        requires
            old(self).wf(),
            old(self).exhausted(),
            old(self).samples_processed + (old(self).input@.len() - old(self).input_pos) + old(
                self,
            ).block_size <= usize::MAX,
        ensures
            final(self).wf(),
            final(self).input == old(self).input,
            final(self).is_playing == old(self).is_playing,
            final(self).bypass == old(self).bypass,
            final(self).params == old(self).params,
            final(self).transform == old(self).transform,
            final(self).block_size == old(self).block_size,
            final(self).meta == old(self).meta,
            final(self).drained(),
            final(self).exhausted(),
            final(self).input_pos == old(self).input@.len(),
            !old(self).is_playing ==> out@ == Seq::<i16>::empty() && final(self).block == old(
                self,
            ).block && final(self).samples_processed == old(self).samples_processed,
            old(self).is_playing ==> out@ == stream_spec(
                old(self).transform,
                old(self).remaining_input(),
                old(self).block_size as int,
                old(self).params.values(),
                old(self).bypass,
            ),
            old(self).is_playing ==> final(self).samples_processed == old(self).samples_processed
                + (if old(self).bypass {
                0int
            } else {
                old(self).remaining_input().len() as int
            }),
    {
        let ghost o = *old(self);
        let ghost target = stream_spec(
            o.transform,
            o.remaining_input(),
            o.block_size as int,
            o.params.values(),
            o.bypass,
        );
        let mut out: Vec<i16> = Vec::new();
        if !self.is_playing {
            // As in `next`: a stop observed here drains the streamer.
            self.block_pos = self.block.len();
            self.input_pos = self.input.len();
            return out;
        }
        loop
            invariant
                self.wf(),
                self.is_playing,
                o.is_playing,
                self.bypass == o.bypass,
                self.params == o.params,
                self.transform == o.transform,
                self.block_size == o.block_size,
                self.input == o.input,
                self.meta == o.meta,
                o.input_pos <= self.input_pos,
                o.samples_processed <= self.samples_processed,
                o.samples_processed + (o.input@.len() - o.input_pos) + o.block_size
                    <= usize::MAX,
                self.samples_processed == o.samples_processed + (if o.bypass {
                    0int
                } else {
                    self.input_pos - o.input_pos
                }),
                out@ + self.block@.skip(self.block_pos as int) + stream_spec(
                    o.transform,
                    self.remaining_input(),
                    o.block_size as int,
                    o.params.values(),
                    o.bypass,
                ) == target,
            ensures
                out@ == target,
                self.input_pos == o.input@.len(),
                self.exhausted(),
            decreases
                    self.input@.len() - self.input_pos,
                    self.block@.len() - self.block_pos,
        {
            let ghost pre = *self;
            let ghost pre_out = out@;
            let r = self.next();
            match r {
                Some(s) => {
                    out.push(s);
                    proof {
                        let bs = o.block_size as int;
                        let params = o.params.values();
                        let stream_pre = stream_spec(
                            o.transform,
                            pre.remaining_input(),
                            bs,
                            params,
                            o.bypass,
                        );
                        let stream_now = stream_spec(
                            o.transform,
                            self.remaining_input(),
                            bs,
                            params,
                            o.bypass,
                        );
                        assert(out@ =~= pre_out + seq![s]);
                        if !pre.exhausted() {
                            assert(self.block@ == pre.block@);
                            assert(pre.block_pos < pre.block@.len());
                            assert(self.block_pos == pre.block_pos + 1);
                            assert(s == pre.block@[pre.block_pos as int]);
                            assert(self.remaining_input() == pre.remaining_input());
                            assert(pre.block@.skip(pre.block_pos as int) =~= seq![s]
                                + self.block@.skip(self.block_pos as int));
                            assert(out@ + self.block@.skip(self.block_pos as int) + stream_now
                                =~= pre_out + pre.block@.skip(pre.block_pos as int) + stream_pre);
                        } else {
                            let n = pre.pull_len();
                            let b = self.block@;
                            assert(n > 0);
                            assert(b.len() == n);
                            assert(self.block_pos == 1);
                            assert(s == b[0]);
                            lemma_stream_unfold(
                                o.transform,
                                pre.remaining_input(),
                                bs,
                                params,
                                o.bypass,
                            );
                            assert(pre.remaining_input().take(n) =~= pre.spec_raw_block());
                            assert(pre.remaining_input().skip(n) =~= self.remaining_input());
                            assert(stream_pre == b + stream_now);
                            assert(pre.block@.skip(pre.block_pos as int) =~= Seq::<i16>::empty());
                            assert(b =~= seq![s] + b.skip(1));
                            assert(out@ + self.block@.skip(self.block_pos as int) + stream_now
                                =~= pre_out + pre.block@.skip(pre.block_pos as int) + stream_pre);
                        }
                    }
                },
                None => {
                    proof {
                        assert(*self == pre);
                        assert(pre.exhausted() && pre.pull_len() == 0);
                        assert(pre.remaining_input().len() == 0);
                        assert(self.input_pos == o.input@.len());
                        assert(stream_spec(
                            o.transform,
                            pre.remaining_input(),
                            o.block_size as int,
                            o.params.values(),
                            o.bypass,
                        ) == Seq::<i16>::empty());
                        assert(pre.block@.skip(pre.block_pos as int) =~= Seq::<i16>::empty());
                        assert(out@ =~= out@ + pre.block@.skip(pre.block_pos as int) + stream_spec(
                            o.transform,
                            pre.remaining_input(),
                            o.block_size as int,
                            o.params.values(),
                            o.bypass,
                        ));
                    }
                    break ;
                },
            }
        }
        out
    }
}

/// One unfolding of `stream_spec`: the first block off the front, then the
/// rest of the stream.
pub proof fn lemma_stream_unfold<T: Transformation>(
    t: T,
    input: Seq<i16>,
    bs: int,
    params: Seq<ParamValue>,
    bypass: bool,
)
    requires
        bs > 0,
        input.len() > 0,
    ensures
        stream_spec(t, input, bs, params, bypass) == process_block(
            t,
            input.take(if input.len() <= bs {
                input.len() as int
            } else {
                bs
            }),
            params,
            bypass,
        ) + stream_spec(
            t,
            input.skip(if input.len() <= bs {
                input.len() as int
            } else {
                bs
            }),
            bs,
            params,
            bypass,
        ),
{
    if input.len() <= bs {
        let n = input.len() as int;
        assert(input.take(n) =~= input);
        assert(input.skip(n) =~= Seq::<i16>::empty());
        assert(stream_spec(t, input.skip(n), bs, params, bypass) == Seq::<i16>::empty());
        assert(process_block(t, input, params, bypass) + Seq::<i16>::empty() =~= process_block(
            t,
            input,
            params,
            bypass,
        ));
    }
}

/// The streamer yields every source sample: however the source length
/// relates to the block size, the stream is exactly as long as the source.
pub proof fn lemma_stream_total_length<T: Transformation>(
    t: T,
    input: Seq<i16>,
    bs: int,
    params: Seq<ParamValue>,
    bypass: bool,
)
    requires
        bs > 0,
    ensures
        stream_spec(t, input, bs, params, bypass).len() == input.len(),
    decreases input.len(),
{
    if input.len() == 0 {
    } else if input.len() <= bs {
        if !bypass {
            t.transform_len(input, params);
        }
    } else {
        if !bypass {
            t.transform_len(input.take(bs), params);
        }
        lemma_stream_total_length(t, input.skip(bs), bs, params, bypass);
    }
}

/// With bypass held for the whole stream the output is the input, sample
/// for sample: streaming continues unchanged, nothing is transformed.
pub proof fn lemma_stream_bypass_identity<T: Transformation>(
    t: T,
    input: Seq<i16>,
    bs: int,
    params: Seq<ParamValue>,
)
    requires
        bs > 0,
    ensures
        stream_spec(t, input, bs, params, true) == input,
    decreases input.len(),
{
    if input.len() == 0 {
        assert(stream_spec(t, input, bs, params, true) =~= input);
    } else if input.len() <= bs {
    } else {
        lemma_stream_bypass_identity(t, input.skip(bs), bs, params);
        assert(stream_spec(t, input, bs, params, true) =~= input);
    }
}

/// The blocks a source is cut into, in source order: full blocks of `bs`
/// samples, and a final shorter block unless `bs` divides the length.
pub open spec fn block_partition(input: Seq<i16>, bs: int) -> Seq<Seq<i16>>
    decreases input.len(),
{
    if input.len() == 0 || bs <= 0 {
        Seq::empty()
    } else if input.len() <= bs {
        seq![input]
    } else {
        seq![input.take(bs)] + block_partition(input.skip(bs), bs)
    }
}

/// A source of `L` samples makes `ceil(L / bs)` transformation invocations:
/// every block but the last is full, and the last covers `L % bs` samples
/// (or a full block when `bs` divides `L`).
pub proof fn lemma_partition_shape(input: Seq<i16>, bs: int)
    requires
        bs > 0,
    ensures
        block_partition(input, bs).len() == invocation_count(input.len() as int, bs),
        forall|i: int|
            0 <= i < block_partition(input, bs).len() - 1 ==> (#[trigger] block_partition(
                input,
                bs,
            )[i]).len() == bs,
        input.len() > 0 ==> block_partition(input, bs).last().len() == (
        if input.len() as int % bs == 0 {
            bs
        } else {
            input.len() as int % bs
        }),
    decreases input.len(),
{
    let len = input.len() as int;
    if input.len() == 0 {
    } else if input.len() <= bs {
        lemma_fundamental_div_mod_converse(len + bs - 1, bs, 1, len - 1);
        if len < bs {
            lemma_fundamental_div_mod_converse(len, bs, 0, len);
        } else {
            lemma_fundamental_div_mod_converse(len, bs, 1, 0);
        }
    } else {
        lemma_partition_shape(input.skip(bs), bs);
        let rest = block_partition(input.skip(bs), bs);
        let whole = block_partition(input, bs);
        assert(whole == seq![input.take(bs)] + rest);
        assert(rest.len() >= 1);
        assert(whole.last() == rest.last());
        let q = (len - 1) / bs;
        let r = (len - 1) % bs;
        lemma_fundamental_div_mod(len - 1, bs);
        lemma_mod_pos_bound(len - 1, bs);
        assert(len + bs - 1 == (q + 1) * bs + r) by (nonlinear_arith)
            requires
                len - 1 == bs * q + r;
        lemma_fundamental_div_mod_converse(len + bs - 1, bs, q + 1, r);
        let q2 = (len - bs) / bs;
        let r2 = (len - bs) % bs;
        lemma_fundamental_div_mod(len - bs, bs);
        lemma_mod_pos_bound(len - bs, bs);
        assert(len == (q2 + 1) * bs + r2) by (nonlinear_arith)
            requires
                len - bs == bs * q2 + r2;
        lemma_fundamental_div_mod_converse(len, bs, q2 + 1, r2);
        assert forall|i: int| 0 <= i < whole.len() - 1 implies (#[trigger] whole[i]).len()
            == bs by {
            if i == 0 {
                assert(whole[0] == input.take(bs));
            } else {
                assert(whole[i] == rest[i - 1]);
            }
        }
    }
}

/// The stream is the partition, block by block: what comes out is exactly
/// each partition block through the transformation, concatenated in source
/// order.
pub proof fn lemma_stream_is_processed_partition<T: Transformation>(
    t: T,
    input: Seq<i16>,
    bs: int,
    params: Seq<ParamValue>,
    bypass: bool,
)
    requires
        bs > 0,
    ensures
        stream_spec(t, input, bs, params, bypass) == block_partition(input, bs).map_values(
            |b: Seq<i16>| process_block(t, b, params, bypass),
        ).flatten(),
    decreases input.len(),
{
    let f = |b: Seq<i16>| process_block(t, b, params, bypass);
    if input.len() == 0 {
        assert(block_partition(input, bs).map_values(f) =~= Seq::<Seq<i16>>::empty());
        assert(Seq::<Seq<i16>>::empty().flatten() =~= Seq::<i16>::empty());
        assert(stream_spec(t, input, bs, params, bypass) =~= Seq::<i16>::empty());
    } else if input.len() <= bs {
        let mapped = block_partition(input, bs).map_values(f);
        assert(mapped =~= seq![f(input)]);
        seq![f(input)].lemma_flatten_one_element();
        assert(mapped.flatten() == f(input));
    } else {
        lemma_stream_is_processed_partition(t, input.skip(bs), bs, params, bypass);
        let head = seq![input.take(bs)];
        let rest = block_partition(input.skip(bs), bs);
        assert(block_partition(input, bs).map_values(f) =~= head.map_values(f) + rest.map_values(
            f,
        ));
        lemma_flatten_concat(head.map_values(f), rest.map_values(f));
        assert(head.map_values(f) =~= seq![f(input.take(bs))]);
        seq![f(input.take(bs))].lemma_flatten_one_element();
        assert(stream_spec(t, input, bs, params, bypass) =~= block_partition(input, bs).map_values(
            f,
        ).flatten());
    }
}

/// Flipping bypass while a block is open changes nothing about that block:
/// the next sample is the same either way. Only the decision taken at the
/// next fill can differ, so a toggle acts on subsequently processed blocks,
/// never retroactively.
pub proof fn lemma_bypass_toggle_mid_block<T: Transformation>(
    p: BlockProcessor<T>,
    b1: bool,
    b2: bool,
)
    requires
        p.is_playing,
        !p.exhausted(),
    ensures
        (BlockProcessor { bypass: b1, ..p }).spec_next_sample() == (BlockProcessor {
            bypass: b2,
            ..p
        }).spec_next_sample(),
{
}

/// Once the transport flag is off, a streamer yields nothing, whatever else
/// its state holds.
pub proof fn lemma_stopped_yields_nothing<T: Transformation>(p: BlockProcessor<T>)
    requires
        !p.is_playing,
    ensures
        p.spec_next_sample() is None,
{
}

/// A stop is permanent. Observing a cleared transport flag drains the
/// streamer (`next`'s contract), and a drained streamer yields nothing
/// further under any later flag writes: there is no resuming, only a new
/// session.
pub proof fn lemma_drained_is_terminal<T: Transformation>(
    p: BlockProcessor<T>,
    playing: bool,
    bypass: bool,
)
    requires
        p.drained(),
    ensures
        (BlockProcessor { is_playing: playing, bypass: bypass, ..p }).spec_next_sample() is None,
{
}

/// The sample rate the driver assumes for pacing. The reference behavior
/// pins this rate for the real-time budget irrespective of the rate the
/// decoded source reports.
pub const PACING_SAMPLE_RATE: u64 = 48000;

/// Addition that sticks at the top of the 64-bit range instead of wrapping.
pub open spec fn sat_add_u64(a: int, b: int) -> int {
    if a + b <= u64::MAX {
        a + b
    } else {
        u64::MAX as int
    }
}

/// The nominal wall-clock length of one block in microseconds, at the
/// pacing rate.
pub open spec fn block_duration_us(bs: int) -> int {
    bs * 1000000 / (PACING_SAMPLE_RATE as int)
}

/// The usage estimate, in hundredths of a percent: time attributable to the
/// transformation over the nominal real-time budget so far.
pub open spec fn cpu_centi_percent(processing: int, elapsed: int) -> int {
    let q = processing * 10000 / elapsed;
    if q <= u64::MAX {
        q
    } else {
        u64::MAX as int
    }
}

/// The driver-side session core: the transport and bypass flags, the block
/// size the pacing math uses, and the accumulators behind the usage
/// estimate. The driver loop itself runs outside on its own thread; every
/// decision it takes per iteration is computed here.
pub struct DspProcessor {
    /// Transport flag: the loop runs while it is set.
    pub is_playing: bool,
    /// When set, iterations contribute no processing time.
    pub bypass: bool,
    /// The configured block size, used for the real-time budget.
    pub block_size: usize,
    /// Total wall time attributed to the transformation, in microseconds.
    pub processing_time_us: u64,
    /// Total nominal block time elapsed, in microseconds.
    pub total_elapsed_us: u64,
    /// The last published estimate, in hundredths of a percent.
    pub cpu_usage: u64,
}

/// One driver iteration's bookkeeping: under bypass no processing time
/// accrues; either way one nominal block duration is added to the elapsed
/// budget and the estimate is recomputed.
pub open spec fn meter_step(d: DspProcessor, measured_us: u64) -> DspProcessor {
    let contribution: int = if d.bypass {
        0
    } else {
        measured_us as int
    };
    let processing = sat_add_u64(d.processing_time_us as int, contribution);
    let elapsed = sat_add_u64(d.total_elapsed_us as int, block_duration_us(d.block_size as int));
    DspProcessor {
        processing_time_us: processing as u64,
        total_elapsed_us: elapsed as u64,
        cpu_usage: (if elapsed > 0 {
            cpu_centi_percent(processing, elapsed)
        } else {
            d.cpu_usage as int
        }) as u64,
        ..d
    }
}

/// A whole run of driver iterations, first measurement first.
pub open spec fn meter_run(d: DspProcessor, measured: Seq<u64>) -> DspProcessor
    decreases measured.len(),
{
    if measured.len() == 0 {
        d
    } else {
        meter_run(meter_step(d, measured[0]), measured.drop_first())
    }
}

impl DspProcessor {
    pub open spec fn wf(self) -> bool {
        valid_block_size(self.block_size as int)
    }

    pub fn new(is_playing: bool, bypass: bool, block_size: usize) -> (r: DspProcessor)
        requires
            valid_block_size(block_size as int),
        ensures
            r.wf(),
            r.is_playing == is_playing,
            r.bypass == bypass,
            r.block_size == block_size,
            r.processing_time_us == 0,
            r.total_elapsed_us == 0,
            r.cpu_usage == 0,
    {
        DspProcessor {
            is_playing,
            bypass,
            block_size,
            processing_time_us: 0,
            total_elapsed_us: 0,
            cpu_usage: 0,
        }
    }

    /// Requests a stop: the driver loop observes the cleared flag and exits
    /// within one iteration.
    pub fn stop(&mut self)
        ensures
            *final(self) == (DspProcessor { is_playing: false, ..*old(self) }),
    {
        self.is_playing = false;
    }

    pub fn set_playing(&mut self, playing: bool)
        ensures
            *final(self) == (DspProcessor { is_playing: playing, ..*old(self) }),
    {
        self.is_playing = playing;
    }

    pub fn set_bypass(&mut self, bypass: bool)
        ensures
            *final(self) == (DspProcessor { bypass: bypass, ..*old(self) }),
    {
        self.bypass = bypass;
    }

    /// The last usage estimate, in hundredths of a percent.
    pub fn get_cpu_usage(&self) -> (r: u64)
        ensures
            r == self.cpu_usage,
    {
        self.cpu_usage
    }

    /// Whether the driver loop runs another iteration: only while the
    /// transport flag is set and the sink still holds pending audio.
    pub fn should_continue(&self, sink_empty: bool) -> (r: bool)
        ensures
            r == (self.is_playing && !sink_empty),
    {
        self.is_playing && !sink_empty
    }

    /// The nominal length of one block in microseconds, at the pacing rate.
    pub fn block_duration_micros(&self) -> (r: u64)
        requires
            self.wf(),
        ensures
            r == block_duration_us(self.block_size as int),
    {
        (self.block_size as u64) * 1000000 / PACING_SAMPLE_RATE
    }

    /// How long the loop should sleep to pace this iteration to real time:
    /// the rest of the block's nominal duration, if the iteration finished
    /// early.
    pub fn sleep_budget_ms(&self, iteration_elapsed_ms: u64) -> (r: u64)
        requires
            self.wf(),
        ensures
            r == (if iteration_elapsed_ms < block_duration_us(self.block_size as int) / 1000 {
                block_duration_us(self.block_size as int) / 1000 - iteration_elapsed_ms
            } else {
                0int
            }),
    {
        let block_ms = (self.block_size as u64) * 1000000 / PACING_SAMPLE_RATE / 1000;
        if iteration_elapsed_ms < block_ms {
            block_ms - iteration_elapsed_ms
        } else {
            0
        }
    }

    /// One iteration's accounting: attributes the measured wall time to the
    /// transformation unless bypass is set (then nothing accrues), adds one
    /// nominal block duration to the elapsed budget, and recomputes the
    /// usage estimate.
    pub fn record_iteration(&mut self, measured_us: u64)
        requires
            old(self).wf(),
        ensures
            final(self).wf(),
            *final(self) == meter_step(*old(self), measured_us),
    {
        let contribution: u64 = if self.bypass {
            0
        } else {
            measured_us
        };
        let p: u64 = if self.processing_time_us <= u64::MAX - contribution {
            self.processing_time_us + contribution
        } else {
            u64::MAX
        };
        let dur: u64 = (self.block_size as u64) * 1000000 / PACING_SAMPLE_RATE;
        let e: u64 = if self.total_elapsed_us <= u64::MAX - dur {
            self.total_elapsed_us + dur
        } else {
            u64::MAX
        };
        self.processing_time_us = p;
        self.total_elapsed_us = e;
        if e > 0 {
            let q: u128 = (p as u128) * 10000 / (e as u128);
            self.cpu_usage = if q > (u64::MAX as u128) {
                u64::MAX
            } else {
                q as u64
            };
        }
    }
}

/// While bypass is set throughout, no processing time accrues: after any
/// run of driver iterations the usage estimate reads zero, while the
/// elapsed real-time budget keeps growing past zero.
pub proof fn lemma_bypass_cpu_zero(d: DspProcessor, measured: Seq<u64>)
    requires
        d.wf(),
        d.bypass,
        d.processing_time_us == 0,
    ensures
        meter_run(d, measured).processing_time_us == 0,
        meter_run(d, measured).total_elapsed_us >= d.total_elapsed_us,
        measured.len() > 0 ==> meter_run(d, measured).total_elapsed_us > 0,
        measured.len() > 0 ==> meter_run(d, measured).cpu_usage == 0,
    decreases measured.len(),
{
    if measured.len() > 0 {
        let d1 = meter_step(d, measured[0]);
        assert(block_duration_us(d.block_size as int) > 0);
        assert(d1.processing_time_us == 0);
        assert(d1.total_elapsed_us > 0);
        assert(d1.cpu_usage == 0);
        lemma_bypass_cpu_zero(d1, measured.drop_first());
        if measured.drop_first().len() == 0 {
        } else {
            assert(meter_run(d, measured) == meter_run(d1, measured.drop_first()));
        }
    }
}

/// The elapsed budget grows by exactly one nominal block duration per
/// iteration (until it saturates), so it is positive from the first
/// iteration on: the estimate is always well defined after that.
pub proof fn lemma_elapsed_grows(d: DspProcessor, measured_us: u64)
    requires
        d.wf(),
    ensures
        meter_step(d, measured_us).total_elapsed_us == sat_add_u64(
            d.total_elapsed_us as int,
            block_duration_us(d.block_size as int),
        ),
        meter_step(d, measured_us).total_elapsed_us > 0,
{
    assert(block_duration_us(d.block_size as int) > 0);
}

/// The single active session per output device. Installing a new session
/// first requests termination of the prior one, so two drivers never race
/// on the same sink.
pub struct SessionSlot {
    active: Option<DspProcessor>,
}

impl SessionSlot {
    pub closed spec fn spec_active(self) -> Option<DspProcessor> {
        self.active
    }

    pub fn new() -> (r: SessionSlot)
        ensures
            r.spec_active() is None,
    {
        SessionSlot { active: None }
    }

    /// Installs a session, handing the prior one back with its transport
    /// flag already cleared: the old driver is told to exit before the new
    /// session owns the sink.
    pub fn install(&mut self, next: DspProcessor) -> (prior: Option<DspProcessor>)
        ensures
            final(self).spec_active() == Some(next),
            prior is Some <==> old(self).spec_active() is Some,
            old(self).spec_active() is Some ==> prior == Some(
                (DspProcessor { is_playing: false, ..old(self).spec_active().unwrap() }),
            ),
    {
        let prior = self.active.take();
        let stopped = match prior {
            Some(mut d) => {
                d.stop();
                Some(d)
            },
            None => None,
        };
        self.active = Some(next);
        stopped
    }

    /// Requests a stop of the active session, if one is installed.
    pub fn stop_current(&mut self)
        ensures
            old(self).spec_active() is None ==> final(self).spec_active() == old(
                self,
            ).spec_active(),
            old(self).spec_active() is Some ==> final(self).spec_active() == Some(
                (DspProcessor { is_playing: false, ..old(self).spec_active().unwrap() }),
            ),
    {
        match &mut self.active {
            Some(d) => {
                d.stop();
            },
            None => {},
        }
    }

    /// The active session, for observation.
    pub fn current(&self) -> (r: &Option<DspProcessor>)
        ensures
            r == self.spec_active(),
    {
        &self.active
    }
}

/// The last value the driver published, readable by any observer.
pub struct CpuUsagePublisher {
    value: u64,
}

impl CpuUsagePublisher {
    /// The published estimate, in hundredths of a percent.
    pub closed spec fn spec_value(self) -> u64 {
        self.value
    }

    pub fn new() -> (r: CpuUsagePublisher)
        ensures
            r.spec_value() == 0,
    {
        CpuUsagePublisher { value: 0 }
    }

    /// Overwrites the estimate; no history is kept.
    pub fn publish(&mut self, value: u64)
        ensures
            final(self).spec_value() == value,
    {
        self.value = value;
    }

    pub fn read(&self) -> (r: u64)
        ensures
            r == self.spec_value(),
    {
        self.value
    }
}

} // verus!
