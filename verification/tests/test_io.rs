use mixer_rs::audiosample::AudioSample;
use mixer_rs::io::prepare_vec_for_slicing;
use mixer_rs::io::SoundEntity;
use mixer_rs::io::SoundPassthrough;
use mixer_rs::io::SoundSink;
use mixer_rs::io::SoundSource;

struct Copier {}

impl<T: AudioSample> SoundPassthrough<T> for Copier {
    fn pass(&mut self, input: &[T], output: &mut [T]) {
        output.copy_from_slice(input);
    }
}

struct Counter {
    next: u8,
}

impl SoundSource<u8> for Counter {
    fn get_out_channel_count(&self) -> usize {
        2
    }

    fn load_into(&mut self, result: &mut [u8]) {
        for slot in result.iter_mut() {
            *slot = self.next;
            self.next = self.next.wrapping_add(1);
        }
    }
}

struct Clocked {
    rate: u32,
    seen: usize,
}

impl SoundSink<u8> for Clocked {
    fn get_in_channel_count(&self) -> usize {
        1
    }

    fn put(&mut self, data: &[u8]) {
        self.seen += data.len();
    }
}

impl SoundEntity for Clocked {
    fn get_sample_rate(&self) -> Option<u32> {
        Some(self.rate)
    }

    fn set_sample_rate(&mut self, rate: u32) -> bool {
        self.rate = rate;
        true
    }
}

/// A component without a sample rate.
struct Timeless {}

impl SoundEntity for Timeless {
    fn get_sample_rate(&self) -> Option<u32> {
        None
    }

    fn set_sample_rate(&mut self, _rate: u32) -> bool {
        false
    }
}

#[test]
fn passtrough() {
    let mut dummy = Copier {};
    let vec1: Vec<u8> = vec![1, 2, 3];
    let vec2: Vec<u8> = dummy.get(&vec1);
    assert_eq!(vec1, vec2);
}

#[test]
fn passthrough_get_of_an_empty_block_is_empty() {
    let mut dummy = Copier {};
    let empty: Vec<u8> = Vec::new();
    assert_eq!(dummy.get(&empty), empty);
}

#[test]
fn boxed_passthrough_is_the_element_in_the_box() {
    let mut boxed: Box<dyn SoundPassthrough<u8>> = Box::new(Copier {});
    let mut out = [0u8; 3];
    boxed.pass(&[7, 8, 9], &mut out);
    assert_eq!(out, [7, 8, 9]);
    assert_eq!(boxed.get(&[4, 5]), vec![4u8, 5u8]);
}

#[test]
fn source_get_allocates_the_frame_and_loads_it() {
    let mut source = Counter { next: 10 };
    assert_eq!(source.get(3), vec![10u8, 11u8, 12u8]);
    assert_eq!(source.get(0), Vec::<u8>::new());
    assert_eq!(source.get(2), vec![13u8, 14u8]);
}

#[test]
fn boxed_source_is_the_source_in_the_box() {
    let mut boxed: Box<dyn SoundSource<u8>> = Box::new(Counter { next: 1 });
    assert_eq!(boxed.get_out_channel_count(), 2);
    let mut out = [0u8; 2];
    boxed.load_into(&mut out);
    assert_eq!(out, [1, 2]);
    assert_eq!(boxed.get(2), vec![3u8, 4u8]);
}

#[test]
fn sample_rate_can_be_asked_for_and_set() {
    let mut sink = Clocked { rate: 44100, seen: 0 };
    assert_eq!(sink.get_sample_rate(), Some(44100));
    assert!(sink.set_sample_rate(48000));
    assert_eq!(sink.get_sample_rate(), Some(48000));
    sink.put(&[1, 2, 3]);
    assert_eq!(sink.seen, 3);
    assert_eq!(sink.get_in_channel_count(), 1);
}

#[test]
fn absent_sample_rate_is_an_answer_of_its_own() {
    let mut none = Timeless {};
    assert_eq!(none.get_sample_rate(), None);
    assert!(!none.set_sample_rate(48000));
    assert_eq!(none.get_sample_rate(), None);
}

#[test]
fn boxed_component_shares_the_rate_of_the_one_in_the_box() {
    let mut boxed = Box::new(Clocked { rate: 8000, seen: 0 });
    assert_eq!(boxed.get_sample_rate(), Some(8000));
    assert!(boxed.set_sample_rate(16000));
    assert_eq!(boxed.get_sample_rate(), Some(16000));
    let mut empty = Box::new(Timeless {});
    assert_eq!(empty.get_sample_rate(), None);
    assert!(!empty.set_sample_rate(16000));
}

#[test]
fn prepare_vec_fills_with_silence() {
    let mut v: Vec<u8> = Vec::new();
    prepare_vec_for_slicing(&mut v, 4);
    assert_eq!(v, vec![128u8; 4]);
}

#[test]
fn prepare_vec_discards_what_was_there() {
    let mut v: Vec<u8> = vec![1, 2, 3, 4, 5, 6];
    prepare_vec_for_slicing(&mut v, 2);
    assert_eq!(v, vec![128u8, 128u8]);
    prepare_vec_for_slicing(&mut v, 0);
    assert!(v.is_empty());
}

#[test]
fn prepare_vec_keeps_its_allocation_at_a_steady_size() {
    let mut v: Vec<u8> = Vec::new();
    prepare_vec_for_slicing(&mut v, 64);
    let capacity = v.capacity();
    for _ in 0..10 {
        prepare_vec_for_slicing(&mut v, 64);
        assert_eq!(v.capacity(), capacity);
        assert_eq!(v.len(), 64);
    }
}
