//! A composable audio routing core: sources, effects and sinks of sample
//! blocks, and the effect chain, track and mixer that are built from them.
//!
//! Blocks flow downstream one processing step at a time: every track pulls a
//! block from its source, passes it through its chain of effects and applies
//! its volume; the mixer sums the tracks' blocks sample by sample and hands the
//! sum to its sink.
pub mod audiosample;
pub mod io;

use crate::audiosample::combine_centered;
use crate::audiosample::lemma_unity_scale_is_identity;
use crate::audiosample::scale_centered;
use crate::audiosample::AudioSample;
use crate::audiosample::Factor;
use crate::io::is_silent_block;
use crate::io::prepare_vec_for_slicing;
use crate::io::SoundEntity;
use crate::io::SoundPassthrough;
use crate::io::SoundSink;
use crate::io::SoundSource;
use vstd::prelude::*;

verus! {

/// Whether `output` may come out when `input` is passed through `effects`,
/// first to last, each effect in the state it has in `effects`. Every block
/// on the way has the length of `input`.
pub open spec fn chain_yields<T: AudioSample, E: SoundPassthrough<T>>(
    effects: Seq<E>,
    input: Seq<T>,
    output: Seq<T>,
) -> bool
    decreases effects.len(),
{
    if effects.len() == 0 {
        output == input
    } else {
        exists|mid: Seq<T>|
            {
                &&& chain_yields(effects.drop_last(), input, mid)
                &&& mid.len() == input.len()
                &&& #[trigger] effects.last().yields(mid, output)
            }
    }
}

/// Whether `output` is `input` with the gain `factor` applied to every sample.
pub open spec fn scaled_block<T: AudioSample>(
    input: Seq<T>,
    factor: Factor,
    output: Seq<T>,
) -> bool {
    &&& output.len() == input.len()
    &&& forall|i: int|
        0 <= i < input.len() ==> #[trigger] input[i].scales_to(factor, output[i])
}

/// Whether `sum` is `acc` with the sample of `block` at the same place mixed
/// into every sample.
pub open spec fn mixed_block<T: AudioSample>(acc: Seq<T>, block: Seq<T>, sum: Seq<T>) -> bool {
    &&& sum.len() == acc.len()
    &&& forall|i: int| 0 <= i < acc.len() ==> #[trigger] acc[i].combines_to(block[i], sum[i])
}

/// For centered 8-bit samples a gain pins the block that comes out: every
/// sample of it is the sample of `input` at the same place, scaled.
pub proof fn lemma_scaled_block_centered(input: Seq<u8>, factor: Factor, output: Seq<u8>)
    ensures
        scaled_block(input, factor, output) <==> output == Seq::new(
            input.len(),
            |i: int| scale_centered(input[i], factor),
        ),
{
    let exact = Seq::new(input.len(), |i: int| scale_centered(input[i], factor));
    if scaled_block(input, factor, output) {
        assert forall|i: int| 0 <= i < input.len() implies output[i] == exact[i] by {
            assert(input[i].scales_to(factor, output[i]));
        }
        assert(output =~= exact);
    }
}

/// For centered 8-bit samples mixing pins the sum: every sample of it is what
/// the samples of `acc` and of `block` at the same place mix to.
pub proof fn lemma_mixed_block_centered(acc: Seq<u8>, block: Seq<u8>, sum: Seq<u8>)
    ensures
        mixed_block(acc, block, sum) <==> sum == Seq::new(
            acc.len(),
            |i: int| combine_centered(acc[i], block[i]),
        ),
{
    let exact = Seq::new(acc.len(), |i: int| combine_centered(acc[i], block[i]));
    if mixed_block(acc, block, sum) {
        assert forall|i: int| 0 <= i < acc.len() implies sum[i] == exact[i] by {
            assert(acc[i].combines_to(block[i], sum[i]));
        }
        assert(sum =~= exact);
    }
}

/// A silent block of centered 8-bit samples holds 128 at every place.
pub proof fn lemma_silent_block_centered(block: Seq<u8>)
    ensures
        is_silent_block(block) <==> block == Seq::new(block.len(), |i: int| 128u8),
{
    let exact = Seq::new(block.len(), |i: int| 128u8);
    if is_silent_block(block) {
        assert forall|i: int| 0 <= i < block.len() implies block[i] == exact[i] by {
            assert(block[i].is_silence());
        }
        assert(block =~= exact);
    }
}

/// Copies `input` to `output`, which has the same length.
pub fn copy_block<T: AudioSample>(input: &[T], output: &mut [T])
    requires
        input@.len() == old(output)@.len(),
    ensures
        final(output)@ == input@,
{
    let len = input.len();
    let mut i: usize = 0;
    while i < len
        invariant
            i <= len,
            len == input@.len(),
            output@.len() == len,
            forall|j: int| 0 <= j < i ==> output@[j] == input@[j],
        decreases len - i,
    {
        output[i] = input[i];
        i += 1;
    }
    assert(output@ =~= input@);
}

/// Writes the first samples of `input`, each with the gain `factor` applied,
/// to `output` until it is full.
pub fn scale_into<T: AudioSample>(input: &[T], factor: Factor, output: &mut [T])
    requires
        input@.len() >= old(output)@.len(),
    ensures
        scaled_block(input@.take(old(output)@.len() as int), factor, final(output)@),
{
    let len = output.len();
    let mut i: usize = 0;
    while i < len
        invariant
            i <= len,
            len <= input@.len(),
            output@.len() == len,
            forall|j: int| 0 <= j < i ==> #[trigger] input@[j].scales_to(factor, output@[j]),
        decreases len - i,
    {
        output[i] = input[i].audio_scale(factor);
        i += 1;
    }
    assert forall|j: int| 0 <= j < len implies #[trigger] input@.take(len as int)[j].scales_to(
        factor,
        output@[j],
    ) by {
        assert(input@[j].scales_to(factor, output@[j]));
    }
}

/// Mixes the sample of `block` at the same place into every sample of `acc`.
pub fn mix_into<T: AudioSample>(acc: &mut [T], block: &[T])
    requires
        block@.len() >= old(acc)@.len(),
    ensures
        mixed_block(old(acc)@, block@, final(acc)@),
{
    let len = acc.len();
    let mut i: usize = 0;
    while i < len
        invariant
            i <= len,
            len <= block@.len(),
            acc@.len() == len,
            old(acc)@.len() == len,
            forall|j: int| 0 <= j < i ==> #[trigger] old(acc)@[j].combines_to(block@[j], acc@[j]),
            forall|j: int| i <= j < len ==> acc@[j] == old(acc)@[j],
        decreases len - i,
    {
        acc[i] = acc[i].audio_add(block[i]);
        i += 1;
    }
}

/// A cascade of effects, applied first to last, that is itself a pass-through
/// element.
///
/// `effects` holds the cascade in the order of application. The two buffers
/// hold the intermediate blocks of a pass and are used again from one pass to
/// the next.
pub struct EffectStack<T: AudioSample, E: SoundPassthrough<T> = Box<dyn SoundPassthrough<T>>> {
    pub effects: Vec<E>,
    pub buffer_flip: Vec<T>,
    pub buffer_flop: Vec<T>,
}

impl<T: AudioSample> EffectStack<T> {
    /// The stack of boxed effects of any kind, without effects yet, which
    /// passes every block on as it is.
    pub fn new() -> (stack: Self)
        ensures
            stack.effects@.len() == 0,
            stack.buffer_flip@.len() == 0,
            stack.buffer_flop@.len() == 0,
    {
        EffectStack { effects: Vec::new(), buffer_flip: Vec::new(), buffer_flop: Vec::new() }
    }
}

impl<T: AudioSample, E: SoundPassthrough<T>> EffectStack<T, E> {
    /// The stack of `effects`, which are applied first to last.
    pub fn with_effects(effects: Vec<E>) -> (stack: Self)
        ensures
            stack.effects == effects,
            stack.buffer_flip@.len() == 0,
            stack.buffer_flop@.len() == 0,
    {
        EffectStack { effects, buffer_flip: Vec::new(), buffer_flop: Vec::new() }
    }
}

impl<T: AudioSample, E: SoundPassthrough<T>> Default for EffectStack<T, E> {
    /// The stack without effects.
    fn default() -> (stack: Self)
        ensures
            stack.effects@.len() == 0,
            stack.buffer_flip@.len() == 0,
            stack.buffer_flop@.len() == 0,
    {
        EffectStack { effects: Vec::new(), buffer_flip: Vec::new(), buffer_flop: Vec::new() }
    }
}

impl<T: AudioSample, E: SoundPassthrough<T>> SoundPassthrough<T> for EffectStack<T, E> {
    open spec fn yields(&self, input: Seq<T>, output: Seq<T>) -> bool {
        chain_yields(self.effects@, input, output)
    }

    /// Passes `input` through every effect in turn, and leaves both buffers
    /// at the length of the block. Without effects the block comes out as it
    /// went in.
    fn pass(&mut self, input: &[T], output: &mut [T])
        ensures
            old(self).effects@.len() == 0 ==> final(output)@ == input@,
            final(self).effects@.len() == old(self).effects@.len(),
            final(self).buffer_flip@.len() == input@.len(),
            final(self).buffer_flop@.len() == input@.len(),
    {
        let len = self.effects.len();
        prepare_vec_for_slicing(&mut self.buffer_flip, input.len());
        prepare_vec_for_slicing(&mut self.buffer_flop, input.len());
        proof {
            assert(old(self).effects@.take(len as int) =~= old(self).effects@);
            assert(chain_yields(old(self).effects@.take(0), input@, input@));
        }
        if len == 0 {
            copy_block(input, output);
        } else if len == 1 {
            self.effects[0].pass(input, output);
            proof {
                lemma_chain_step(old(self).effects@, 0, input@, input@, output@);
            }
        } else {
            self.effects[0].pass(input, self.buffer_flip.as_mut_slice());
            proof {
                lemma_chain_step(old(self).effects@, 0, input@, input@, self.buffer_flip@);
            }
            let mut k: usize = 1;
            while k < len - 1
                invariant
                    1 <= k <= len - 1,
                    len == old(self).effects@.len(),
                    self.effects@.len() == len,
                    forall|j: int| k <= j < len ==> self.effects@[j] == old(self).effects@[j],
                    self.buffer_flip@.len() == input@.len(),
                    self.buffer_flop@.len() == input@.len(),
                    chain_yields(old(self).effects@.take(k as int), input@, self.buffer_flip@),
                decreases len - k,
            {
                let ghost mid = self.buffer_flip@;
                self.effects[k].pass(self.buffer_flip.as_slice(), self.buffer_flop.as_mut_slice());
                std::mem::swap(&mut self.buffer_flip, &mut self.buffer_flop);
                proof {
                    lemma_chain_step(old(self).effects@, k as int, input@, mid, self.buffer_flip@);
                }
                k += 1;
            }
            let ghost mid = self.buffer_flip@;
            self.effects[len - 1].pass(self.buffer_flip.as_slice(), output);
            proof {
                lemma_chain_step(old(self).effects@, len - 1, input@, mid, output@);
            }
        }
    }
}

/// A stack without effects is the identity: a block comes out of it exactly
/// as it went in.
pub proof fn lemma_empty_stack_is_identity<T: AudioSample, E: SoundPassthrough<T>>(
    stack: EffectStack<T, E>,
    input: Seq<T>,
    output: Seq<T>,
)
    requires
        stack.effects@.len() == 0,
    ensures
        stack.yields(input, output) <==> output == input,
{
}

/// A block that came through the first `k` effects and then through the next
/// one came through the first `k + 1`.
pub proof fn lemma_chain_step<T: AudioSample, E: SoundPassthrough<T>>(
    effects: Seq<E>,
    k: int,
    input: Seq<T>,
    mid: Seq<T>,
    output: Seq<T>,
)
    requires
        0 <= k < effects.len(),
        chain_yields(effects.take(k), input, mid),
        mid.len() == input.len(),
        effects[k].yields(mid, output),
    ensures
        chain_yields(effects.take(k + 1), input, output),
{
    let prefix = effects.take(k + 1);
    assert(prefix.drop_last() =~= effects.take(k));
    assert(prefix.last().yields(mid, output));
}

/// A source with a chain of effects and a volume, which is a source in turn.
///
/// The two buffers hold the block as it comes from the source and as it leaves
/// the effects, and are used again from one block to the next.
pub struct Track<
    T: AudioSample,
    Src: SoundSource<T> = Box<dyn SoundSource<T>>,
    E: SoundPassthrough<T> = Box<dyn SoundPassthrough<T>>,
> {
    pub source: Src,
    pub effects: EffectStack<T, E>,
    pub volume: Factor,
    pub buffer_flip: Vec<T>,
    pub buffer_flop: Vec<T>,
}

/// Whether `track` may turn out `block` by way of `raw` and `wet`: the source
/// delivers `raw`, the effects turn it into `wet`, and `block` is `wet` at the
/// track's volume. All three have the same length.
pub open spec fn track_renders<T: AudioSample, Src: SoundSource<T>, E: SoundPassthrough<T>>(
    track: Track<T, Src, E>,
    raw: Seq<T>,
    wet: Seq<T>,
    block: Seq<T>,
) -> bool {
    &&& raw.len() == block.len()
    &&& wet.len() == block.len()
    &&& track.source.delivers(raw)
    &&& track.effects.yields(raw, wet)
    &&& scaled_block(wet, track.volume, block)
}

impl<T: AudioSample> Track<T> {
    /// The track that plays the boxed `source` at `volume`, without effects
    /// yet; it takes boxed effects of any kind.
    pub fn new(source: Box<dyn SoundSource<T>>, volume: Factor) -> (track: Self)
        ensures
            track.source === source,
            track.volume == volume,
            track.effects.effects@.len() == 0,
            track.buffer_flip@.len() == 0,
            track.buffer_flop@.len() == 0,
    {
        Track {
            source,
            effects: EffectStack::new(),
            volume,
            buffer_flip: Vec::new(),
            buffer_flop: Vec::new(),
        }
    }
}

impl<T: AudioSample, Src: SoundSource<T>, E: SoundPassthrough<T>> Track<T, Src, E> {
    /// The track that plays `source` through `effects` at `volume`.
    pub fn with_effects(source: Src, effects: EffectStack<T, E>, volume: Factor) -> (track: Self)
        ensures
            track.source == source,
            track.effects == effects,
            track.volume == volume,
            track.buffer_flip@.len() == 0,
            track.buffer_flop@.len() == 0,
    {
        Track { source, effects, volume, buffer_flip: Vec::new(), buffer_flop: Vec::new() }
    }
}

impl<T: AudioSample, Src: SoundSource<T>, E: SoundPassthrough<T>> SoundSource<T> for Track<
    T,
    Src,
    E,
> {
    open spec fn reports_out_channels(&self, count: usize) -> bool {
        self.source.reports_out_channels(count)
    }

    open spec fn delivers(&self, block: Seq<T>) -> bool {
        exists|raw: Seq<T>, wet: Seq<T>| #[trigger] track_renders(*self, raw, wet, block)
    }

    fn get_out_channel_count(&self) -> (count: usize) {
        self.source.get_out_channel_count()
    }

    /// Pulls a block from the source, passes it through the effects and
    /// writes it to `result` at the track's volume, filling `result`
    /// completely: the effects cannot hand back less than a whole block. The
    /// block as the source delivered it stays in `buffer_flip`, the block as
    /// it left the effects in `buffer_flop`. The volume and the number of
    /// effects stay, and all buffers are left at the length of the block.
    fn load_into(&mut self, result: &mut [T])
        ensures
            track_renders(
                *old(self),
                final(self).buffer_flip@,
                final(self).buffer_flop@,
                final(result)@,
            ),
            final(self).volume == old(self).volume,
            final(self).effects.effects@.len() == old(self).effects.effects@.len(),
            final(self).effects.buffer_flip@.len() == old(result)@.len(),
            final(self).effects.buffer_flop@.len() == old(result)@.len(),
    {
        let len = result.len();
        prepare_vec_for_slicing(&mut self.buffer_flip, len);
        prepare_vec_for_slicing(&mut self.buffer_flop, len);
        self.source.load_into(self.buffer_flip.as_mut_slice());
        self.effects.pass(self.buffer_flip.as_slice(), self.buffer_flop.as_mut_slice());
        scale_into(self.buffer_flop.as_slice(), self.volume, result);
        proof {
            assert(self.buffer_flop@.take(len as int) =~= self.buffer_flop@);
            assert(track_renders(*old(self), self.buffer_flip@, self.buffer_flop@, result@));
        }
    }
}

/// A track shares the sample rate of its source: it reports what the source
/// reports, and hands a request on to the source.
impl<T: AudioSample, Src: SoundSource<T> + SoundEntity, E: SoundPassthrough<T>> SoundEntity for Track<
    T,
    Src,
    E,
> {
    open spec fn reports_rate(&self, rate: Option<u32>) -> bool {
        self.source.reports_rate(rate)
    }

    open spec fn takes_rate(&self, rate: u32, after: &Self, taken: bool) -> bool {
        &&& self.source.takes_rate(rate, &after.source, taken)
        &&& after.effects == self.effects
        &&& after.volume == self.volume
        &&& after.buffer_flip == self.buffer_flip
        &&& after.buffer_flop == self.buffer_flop
    }

    fn get_sample_rate(&self) -> (rate: Option<u32>) {
        self.source.get_sample_rate()
    }

    fn set_sample_rate(&mut self, rate: u32) -> (taken: bool) {
        self.source.set_sample_rate(rate)
    }
}

/// A track of centered 8-bit samples without effects and at a gain of one
/// delivers exactly what its source delivers.
pub proof fn lemma_plain_track_delivers_its_source<Src: SoundSource<u8>, E: SoundPassthrough<u8>>(
    track: Track<u8, Src, E>,
    block: Seq<u8>,
)
    requires
        track.effects.effects@.len() == 0,
        track.volume.denom() > 0,
        track.volume.numer() == track.volume.denom(),
    ensures
        track.delivers(block) <==> track.source.delivers(block),
{
    assert forall|i: int| 0 <= i < block.len() implies #[trigger] block[i].scales_to(
        track.volume,
        block[i],
    ) by {
        lemma_unity_scale_is_identity(block[i], track.volume);
    }
    if track.delivers(block) {
        let (raw, wet) = choose|raw: Seq<u8>, wet: Seq<u8>| #[trigger]
            track_renders(track, raw, wet, block);
        assert forall|i: int| 0 <= i < block.len() implies block[i] == raw[i] by {
            assert(wet[i].scales_to(track.volume, block[i]));
            lemma_unity_scale_is_identity(wet[i], track.volume);
        }
        assert(block =~= raw);
    }
    if track.source.delivers(block) {
        assert(track_renders(track, block, block, block));
    }
}

/// Whether `sum` may be the sum of the blocks that `tracks` deliver next:
/// silence with the block of every track mixed in, first track first. Every
/// block has the length of `sum`.
pub open spec fn tracks_mix_to<T: AudioSample, Src: SoundSource<T>, E: SoundPassthrough<T>>(
    tracks: Seq<Track<T, Src, E>>,
    sum: Seq<T>,
) -> bool
    decreases tracks.len(),
{
    if tracks.len() == 0 {
        is_silent_block(sum)
    } else {
        exists|acc: Seq<T>, block: Seq<T>|
            {
                &&& tracks_mix_to(tracks.drop_last(), acc)
                &&& block.len() == sum.len()
                &&& tracks.last().delivers(block)
                &&& #[trigger] mixed_block(acc, block, sum)
            }
    }
}

/// A collection of tracks that are mixed into one sink.
///
/// `tracks` holds the tracks in the order in which they are mixed. The two
/// buffers hold the sum and the block of the track at hand, and are used again
/// from one frame to the next.
pub struct Mixer<
    T: AudioSample,
    S: SoundSink<T>,
    Src: SoundSource<T> = Box<dyn SoundSource<T>>,
    E: SoundPassthrough<T> = Box<dyn SoundPassthrough<T>>,
> {
    pub tracks: Vec<Track<T, Src, E>>,
    pub sink: S,
    pub out_buffer: Vec<T>,
    pub track_buffer: Vec<T>,
}

impl<T: AudioSample, S: SoundSink<T>> Mixer<T, S> {
    /// The mixer into `sink`, without tracks yet; it takes tracks of boxed
    /// sources and effects of any kind.
    pub fn new(sink: S) -> (mixer: Self)
        ensures
            mixer.sink == sink,
            mixer.tracks@.len() == 0,
            mixer.out_buffer@.len() == 0,
            mixer.track_buffer@.len() == 0,
    {
        Mixer { tracks: Vec::new(), sink, out_buffer: Vec::new(), track_buffer: Vec::new() }
    }
}

impl<
    T: AudioSample,
    S: SoundSink<T>,
    Src: SoundSource<T>,
    E: SoundPassthrough<T>,
> Mixer<T, S, Src, E> {
    /// The mixer of `tracks`, in that order, into `sink`.
    pub fn with_tracks(tracks: Vec<Track<T, Src, E>>, sink: S) -> (mixer: Self)
        ensures
            mixer.tracks == tracks,
            mixer.sink == sink,
            mixer.out_buffer@.len() == 0,
            mixer.track_buffer@.len() == 0,
    {
        Mixer { tracks, sink, out_buffer: Vec::new(), track_buffer: Vec::new() }
    }

    /// Processes one frame: pulls a block of `size` samples from every track,
    /// first track first, sums the blocks and hands the sum to the sink.
    /// Without tracks the sink gets `size` silent samples. The sum stays in
    /// `out_buffer`. Every track keeps its volume and its number of effects,
    /// and both buffers are left at the length `size`.
    pub fn do_frame(&mut self, size: usize)
        ensures
            final(self).out_buffer@.len() == size,
            final(self).track_buffer@.len() == size,
            tracks_mix_to(old(self).tracks@, final(self).out_buffer@),
            old(self).tracks@.len() == 0 ==> is_silent_block(final(self).out_buffer@),
            old(self).sink.consumes(final(self).out_buffer@, &final(self).sink),
            final(self).tracks@.len() == old(self).tracks@.len(),
            forall|j: int|
                0 <= j < old(self).tracks@.len() ==> {
                    &&& (#[trigger] final(self).tracks@[j]).volume == old(self).tracks@[j].volume
                    &&& final(self).tracks@[j].effects.effects@.len() == old(
                        self,
                    ).tracks@[j].effects.effects@.len()
                },
    {
        prepare_vec_for_slicing(&mut self.track_buffer, size);
        prepare_vec_for_slicing(&mut self.out_buffer, size);
        let count = self.tracks.len();
        let mut k: usize = 0;
        while k < count
            invariant
                k <= count,
                count == old(self).tracks@.len(),
                self.tracks@.len() == count,
                forall|j: int| k <= j < count ==> self.tracks@[j] == old(self).tracks@[j],
                forall|j: int|
                    0 <= j < k ==> {
                        &&& (#[trigger] self.tracks@[j]).volume == old(self).tracks@[j].volume
                        &&& self.tracks@[j].effects.effects@.len() == old(
                            self,
                        ).tracks@[j].effects.effects@.len()
                    },
                self.sink == old(self).sink,
                self.track_buffer@.len() == size,
                self.out_buffer@.len() == size,
                tracks_mix_to(old(self).tracks@.take(k as int), self.out_buffer@),
            decreases count - k,
        {
            let ghost acc = self.out_buffer@;
            self.tracks[k].load_into(self.track_buffer.as_mut_slice());
            mix_into(self.out_buffer.as_mut_slice(), self.track_buffer.as_slice());
            proof {
                lemma_mix_step(
                    old(self).tracks@,
                    k as int,
                    acc,
                    self.track_buffer@,
                    self.out_buffer@,
                );
            }
            k += 1;
        }
        proof {
            assert(old(self).tracks@.take(count as int) =~= old(self).tracks@);
        }
        self.sink.put(self.out_buffer.as_slice());
    }
}

/// A sum of the first `k` tracks with a block of the next track mixed in is a
/// sum of the first `k + 1` tracks.
pub proof fn lemma_mix_step<T: AudioSample, Src: SoundSource<T>, E: SoundPassthrough<T>>(
    tracks: Seq<Track<T, Src, E>>,
    k: int,
    acc: Seq<T>,
    block: Seq<T>,
    sum: Seq<T>,
)
    requires
        0 <= k < tracks.len(),
        tracks_mix_to(tracks.take(k), acc),
        block.len() == sum.len(),
        tracks[k].delivers(block),
        mixed_block(acc, block, sum),
    ensures
        tracks_mix_to(tracks.take(k + 1), sum),
{
    let prefix = tracks.take(k + 1);
    assert(prefix.drop_last() =~= tracks.take(k));
    assert(prefix.last() == tracks[k]);
}

} // verus!
