//! The three capabilities that a processing graph is built from: sources that
//! deliver blocks of samples, sinks that consume them, and pass-through
//! elements that turn one block into another of the same length; and what
//! sources and sinks may share, a sample rate.
//!
//! Each capability describes what its implementations do by a relation with a
//! default that holds of everything. An implementation that says nothing of
//! itself promises the lengths of its blocks and no more; one that states its
//! relation is held to it.
use crate::audiosample::AudioSample;
use vstd::prelude::*;

verus! {

/// Whether every sample of `block` is silent.
pub open spec fn is_silent_block<T: AudioSample>(block: Seq<T>) -> bool {
    forall|i: int| 0 <= i < block.len() ==> (#[trigger] block[i]).is_silence()
}

/// Empties `vec` and fills it with `size` silent samples, so that it can be
/// handed out as a writable block of that length.
pub fn prepare_vec_for_slicing<T: AudioSample>(vec: &mut Vec<T>, size: usize)
    ensures
        final(vec)@.len() == size,
        is_silent_block(final(vec)@),
{
    vec.clear();
    let mut filled: usize = 0;
    while filled < size
        invariant
            filled <= size,
            vec@.len() == filled,
            is_silent_block(vec@),
        decreases size - filled,
    {
        vec.push(T::audio_default());
        filled += 1;
    }
}

/// What sources and sinks may share: a sample rate that can be asked for and
/// asked to change. A component takes part by implementing this beside its
/// own capability.
pub trait SoundEntity {
    /// Whether `rate` may be what this component, in its present state,
    /// reports as its sample rate in hertz; `None` stands for a component that
    /// reports none.
    open spec fn reports_rate(&self, rate: Option<u32>) -> bool {
        true
    }

    /// Whether this component, asked to run at `rate`, may answer `taken` and
    /// be left as `after`.
    open spec fn takes_rate(&self, rate: u32, after: &Self, taken: bool) -> bool {
        true
    }

    /// The sample rate in hertz, or `None` where this component reports
    /// none: the rate is information that a component need not have.
    fn get_sample_rate(&self) -> (rate: Option<u32>)
        ensures
            self.reports_rate(rate),
    ;

    /// Asks this component to run at `rate`, and says whether it does so
    /// now. A component whose rate cannot be set answers `false`.
    fn set_sample_rate(&mut self, rate: u32) -> (taken: bool)
        ensures
            old(self).takes_rate(rate, final(self), taken),
            taken ==> final(self).reports_rate(Some(rate)),
    ;
}

/// A boxed component shares what the component in the box shares.
impl<P: SoundEntity + ?Sized> SoundEntity for Box<P> {
    open spec fn reports_rate(&self, rate: Option<u32>) -> bool {
        (**self).reports_rate(rate)
    }

    open spec fn takes_rate(&self, rate: u32, after: &Self, taken: bool) -> bool {
        (**self).takes_rate(rate, &**after, taken)
    }

    fn get_sample_rate(&self) -> (rate: Option<u32>) {
        (**self).get_sample_rate()
    }

    fn set_sample_rate(&mut self, rate: u32) -> (taken: bool) {
        (**self).set_sample_rate(rate)
    }
}

/// A source of sound: inputs, synthesizers and the like.
pub trait SoundSource<T: AudioSample> {
    /// Whether `count` may be the number of channels that this source reports.
    open spec fn reports_out_channels(&self, count: usize) -> bool {
        true
    }

    /// Whether `block` may be the block that this source, in its present
    /// state, delivers next.
    open spec fn delivers(&self, block: Seq<T>) -> bool {
        true
    }

    /// The number of emitting channels. How the channels are laid out in a
    /// block is up to the source.
    fn get_out_channel_count(&self) -> (count: usize)
        ensures
            self.reports_out_channels(count),
    ;

    /// Fills `result` completely with the next block of samples.
    fn load_into(&mut self, result: &mut [T])
        ensures
            final(result)@.len() == old(result)@.len(),
            old(self).delivers(final(result)@),
    ;

    /// Allocates a block of `frame_size` samples and loads the next block
    /// into it.
    fn get(&mut self, frame_size: usize) -> (result: Vec<T>)
        ensures
            result@.len() == frame_size,
            old(self).delivers(result@),
    {
        let mut result: Vec<T> = Vec::new();
        prepare_vec_for_slicing(&mut result, frame_size);
        self.load_into(result.as_mut_slice());
        result
    }
}

/// A boxed source is the source in the box.
impl<T: AudioSample, P: SoundSource<T> + ?Sized> SoundSource<T> for Box<P> {
    open spec fn reports_out_channels(&self, count: usize) -> bool {
        (**self).reports_out_channels(count)
    }

    open spec fn delivers(&self, block: Seq<T>) -> bool {
        (**self).delivers(block)
    }

    fn get_out_channel_count(&self) -> (count: usize) {
        (**self).get_out_channel_count()
    }

    fn load_into(&mut self, result: &mut [T]) {
        (**self).load_into(result)
    }
}

/// A sink of sound: outputs, file writers and the like.
pub trait SoundSink<T: AudioSample> {
    /// Whether `count` may be the number of channels that this sink reports.
    open spec fn reports_in_channels(&self, count: usize) -> bool {
        true
    }

    /// Whether this sink may be left as `after` once it has consumed `data`.
    open spec fn consumes(&self, data: Seq<T>, after: &Self) -> bool {
        true
    }

    /// The number of consuming channels. How the channels are laid out in a
    /// block is up to the sink.
    fn get_in_channel_count(&self) -> (count: usize)
        ensures
            self.reports_in_channels(count),
    ;

    /// Hands the block `data` to the sink.
    fn put(&mut self, data: &[T])
        ensures
            old(self).consumes(data@, final(self)),
    ;
}

/// A pass-through element: an effect, a filter and the like. It turns a block
/// into a block of the same length, and may keep state from one block to the
/// next.
pub trait SoundPassthrough<T: AudioSample> {
    /// Whether `output` may be the block that this element, in its present
    /// state, turns `input` into.
    open spec fn yields(&self, input: Seq<T>, output: Seq<T>) -> bool {
        true
    }

    /// Passes `input` through the element and writes what comes out to
    /// `output`, which has the length of `input`.
    fn pass(&mut self, input: &[T], output: &mut [T])
        requires
            input@.len() == old(output)@.len(),
        ensures
            final(output)@.len() == input@.len(),
            old(self).yields(input@, final(output)@),
    ;

    /// Allocates a block of the length of `input` and passes `input` into it.
    fn get(&mut self, input: &[T]) -> (result: Vec<T>)
        ensures
            result@.len() == input@.len(),
            old(self).yields(input@, result@),
    {
        let mut result: Vec<T> = Vec::new();
        prepare_vec_for_slicing(&mut result, input.len());
        self.pass(input, result.as_mut_slice());
        result
    }
}

/// A boxed pass-through element is the element in the box.
impl<T: AudioSample, P: SoundPassthrough<T> + ?Sized> SoundPassthrough<T> for Box<P> {
    open spec fn yields(&self, input: Seq<T>, output: Seq<T>) -> bool {
        (**self).yields(input, output)
    }

    fn pass(&mut self, input: &[T], output: &mut [T]) {
        (**self).pass(input, output)
    }
}

} // verus!
