use levels::amp::Decibel;
use levels::color::Color;
use levels::decibel::reading;
use levels::handler::{
    buffer_fits, frame_count, Handler, InnerHandler, SampleFormat, INTERVAL, LATENCY, READINGS,
};
use levels::sample::Binary32;

#[test]
fn policy_constants() {
    assert_eq!(INTERVAL, 100);
    assert_eq!(LATENCY, 50);
    assert_eq!(READINGS, 1000);
}

#[test]
fn frame_counts_of_common_streams() {
    assert_eq!(frame_count(48000, 1, 100), 4800);
    assert_eq!(frame_count(48000, 1, 50), 2400);
    assert_eq!(frame_count(48000, 2, 100), 9600);
    assert_eq!(frame_count(44100, 1, 100), 4410);
    assert_eq!(frame_count(44100, 2, 100), 8820);
    assert_eq!(frame_count(44100, 2, 50), 4410);
    assert_eq!(frame_count(44100, 1, 50), 2205);
    assert_eq!(frame_count(22050, 1, 50), 1103);
    assert_eq!(frame_count(8000, 1, 100), 800);
}

#[test]
fn frame_counts_round_up() {
    assert_eq!(frame_count(1, 1, 100), 1);
    assert_eq!(frame_count(9, 1, 100), 1);
    assert_eq!(frame_count(10, 1, 100), 1);
    assert_eq!(frame_count(11, 1, 100), 2);
    assert_eq!(frame_count(11025, 1, 50), 552);
    assert_eq!(frame_count(0, 2, 100), 0);
    assert_eq!(frame_count(48000, 0, 100), 0);
    assert_eq!(frame_count(48000, 2, 0), 0);
}

#[test]
fn frame_counts_of_the_largest_streams() {
    assert_eq!(frame_count(u32::MAX, u16::MAX, u16::MAX), 18_446_181_123_756_262);
    assert_eq!(frame_count(u32::MAX, 1, 100), 429_496_730);
    // channels * interval would not fit in sixteen bits: 700 * 100
    assert_eq!(frame_count(48000, 700, 100), 3_360_000);
}

#[test]
fn common_streams_fit() {
    assert!(buffer_fits(48000, 1));
    assert!(buffer_fits(44100, 2));
    assert!(buffer_fits(192000, 8));
    assert!(buffer_fits(0, 0));
}

#[test]
fn handler_reads_one_interval_at_a_time() {
    let handler = InnerHandler::<i16>::new(48000, 1);
    let (_feeder, poller) = handler.split();
    assert_eq!(poller.read_at_a_time(), 4800);
    let handler = InnerHandler::<u16>::new(44100, 2);
    let (_feeder, poller) = handler.split();
    assert_eq!(poller.read_at_a_time(), 8820);
}

#[test]
fn ring_holds_one_interval_and_the_headroom() {
    let handler = InnerHandler::<i16>::new(48000, 1);
    let (mut feeder, mut poller) = handler.split();
    let samples = vec![1i16; 8000];
    // 4800 + 2400 slots
    assert_eq!(feeder.feed(&samples), 800);
    let amp = poller.poll().unwrap();
    assert_eq!((amp.min(), amp.max()), (0, 1));
    // one window was read: 4800 slots are free again
    assert_eq!(feeder.feed(&samples), 3200);
}

#[test]
fn feeding_more_than_the_ring_holds_keeps_the_leading_samples() {
    let handler = InnerHandler::<i16>::new(1000, 1);
    let (mut feeder, mut poller) = handler.split();
    // 100 + 50 slots; the 151st sample is the only loud one and must be dropped
    let mut samples = vec![1i16; 150];
    samples.push(30000);
    samples.extend_from_slice(&[2i16; 200]);
    assert_eq!(feeder.feed(&samples), 201);
    let amp = poller.poll().unwrap();
    assert_eq!((amp.min(), amp.max()), (0, 1));
    let amp = poller.poll().unwrap();
    assert_eq!((amp.min(), amp.max()), (0, 1));
    let amp = poller.poll().unwrap();
    assert_eq!((amp.min(), amp.max()), (0, 0));
}

#[test]
fn polling_an_empty_ring_gives_silence() {
    let handler = InnerHandler::<i16>::new(48000, 1);
    let (_feeder, mut poller) = handler.split();
    let amp = poller.poll().unwrap();
    assert_eq!((amp.min(), amp.max()), (0, 0));
    assert_eq!(amp.rounded(), i32::MIN);
    assert_eq!(Color::from_decibel(amp.rounded()), Color::Blue);
}

#[test]
fn polling_takes_windows_in_order() {
    let handler = InnerHandler::<i16>::new(1000, 1);
    let (mut feeder, mut poller) = handler.split();
    let mut samples = vec![10i16; 100];
    samples.extend_from_slice(&[-20i16; 50]);
    assert_eq!(feeder.feed(&samples), 0);
    let amp = poller.poll().unwrap();
    assert_eq!((amp.min(), amp.max()), (0, 10));
    let amp = poller.poll().unwrap();
    assert_eq!((amp.min(), amp.max()), (-20, 0));
}

#[test]
fn polling_ends_when_the_capture_side_is_gone() {
    let handler = InnerHandler::<i16>::new(48000, 1);
    let (mut feeder, mut poller) = handler.split();
    assert_eq!(feeder.feed(&[5, -5]), 0);
    assert!(poller.poll().is_some());
    drop(feeder);
    assert!(poller.poll().is_none());
    assert!(poller.poll().is_none());
}

#[test]
fn a_cycle_yields_nothing_once_the_capture_side_is_gone() {
    let handler = InnerHandler::<i16>::new(1000, 1);
    let (mut feeder, mut poller) = handler.split();
    assert_eq!(feeder.feed(&[7, -3]), 0);
    assert!(poller.cycle(true).is_none());
    // the ring was left as it was: the samples are still there
    let amp = poller.cycle(false).unwrap();
    assert_eq!((amp.min(), amp.max()), (-3, 7));
}

#[test]
fn a_cycle_always_yields_a_summary_while_the_capture_side_lives() {
    let handler = InnerHandler::<u16>::new(1000, 1);
    let (mut feeder, mut poller) = handler.split();
    let amp = poller.cycle(false).unwrap();
    assert_eq!((amp.min(), amp.max()), (0, 0));
    assert_eq!(feeder.feed(&[5, 9, 2]), 0);
    let amp = poller.cycle(false).unwrap();
    assert_eq!((amp.min(), amp.max()), (0, 9));
    let amp = poller.cycle(false).unwrap();
    assert_eq!((amp.min(), amp.max()), (0, 0));
    assert_eq!(poller.read_at_a_time(), 100);
}

#[test]
fn polling_yields_a_summary_while_the_capture_side_lives() {
    let handler = InnerHandler::<i16>::new(1000, 1);
    let (mut feeder, mut poller) = handler.split();
    for round in 0..5i16 {
        assert_eq!(feeder.feed(&[round, -round]), 0);
        let amp = poller.poll().unwrap();
        assert_eq!((amp.min(), amp.max()), (-round, round));
    }
}

#[test]
fn handler_is_made_for_each_representation() {
    assert!(matches!(Handler::new(SampleFormat::F32, 48000, 1), Handler::F32(_)));
    assert!(matches!(Handler::new(SampleFormat::I16, 48000, 1), Handler::I16(_)));
    assert!(matches!(Handler::new(SampleFormat::U16, 48000, 1), Handler::U16(_)));
}

#[test]
fn signed_sine_burst_end_to_end() {
    let handler = match Handler::new(SampleFormat::I16, 48000, 1) {
        Handler::I16(inner) => inner,
        _ => unreachable!(),
    };
    let (mut feeder, mut poller) = handler.split();
    // one interval of a 1 kHz sine with a peak of 10000
    let samples: Vec<i16> = (0..4800)
        .map(|i| {
            let phase = 2.0 * std::f64::consts::PI * 1000.0 * (i as f64) / 48000.0;
            (10000.0 * phase.sin()).round() as i16
        })
        .collect();
    assert_eq!(feeder.feed(&samples), 0);
    let amp = poller.poll().unwrap();
    assert_eq!((amp.min(), amp.max()), (-10000, 10000));
    assert_eq!(amp.peak_to_trough(), 20000);
    // 20 * log10(10000) = 80
    assert_eq!(amp.rounded(), 80);
    assert_eq!(reading(amp.peak_to_trough()), (80, Color::Red));
}

#[test]
fn unsigned_burst_end_to_end() {
    let handler = InnerHandler::<u16>::new(8000, 2);
    let (mut feeder, mut poller) = handler.split();
    let samples: Vec<u16> = (0..1600).map(|i| (i % 7) as u16).collect();
    assert_eq!(feeder.feed(&samples), 0);
    let amp = poller.poll().unwrap();
    assert_eq!((amp.min(), amp.max()), (0, 6));
    // 20 * log10(3) = 9.54
    assert_eq!(amp.rounded(), 10);
}

#[test]
fn float_sine_burst_end_to_end() {
    let handler = match Handler::new(SampleFormat::F32, 48000, 1) {
        Handler::F32(inner) => inner,
        _ => unreachable!(),
    };
    let (mut feeder, mut poller) = handler.split();
    assert_eq!(poller.read_at_a_time(), 4800);
    // one interval of a 1 kHz sine with a peak of 0.25: 48 samples per period,
    // so the peaks themselves are among the samples
    let peak = 0.25f32;
    let samples: Vec<Binary32> = (0..4800)
        .map(|i| {
            let phase = 2.0 * std::f64::consts::PI * 1000.0 * (i as f64) / 48000.0;
            Binary32::from_bits(((peak as f64 * phase.sin()) as f32).to_bits())
        })
        .collect();
    assert_eq!(feeder.feed(&samples), 0);
    let amp = poller.poll().unwrap();
    let min = f32::from_bits(amp.min().to_bits());
    let max = f32::from_bits(amp.max().to_bits());
    assert_eq!((min, max), (-peak, peak));
    let amplitude = (max - min) / 2.0;
    let delivered = (amplitude.log10() * 20.0).round() as i32;
    // 20 * log10(0.25) = -12.04
    let direct = (20.0 * (peak as f64).log10()).round() as i32;
    assert_eq!(direct, -12);
    assert_eq!(delivered, direct);
    assert_eq!(Color::from_decibel(delivered), Color::Green);
    // the window was drained
    let amp = poller.poll().unwrap();
    assert_eq!((amp.min().to_bits(), amp.max().to_bits()), (0, 0));
}
