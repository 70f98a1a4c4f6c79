use bds_sim_tx::b1igen::{B1iSatelliteWrapper, B1iSimulation, SampleInstant};
use bds_sim_tx::satellite_loader::Bds2SatelliteInfo;
use num_complex::Complex32;

fn record(first_delay: u64) -> Bds2SatelliteInfo {
    Bds2SatelliteInfo {
        prn: vec![1, 0, 1, 1, 0],
        elevation: vec![10, 11, 12, 13],
        delay: vec![first_delay, first_delay + 1, first_delay + 2, first_delay + 3],
        ref_delay: first_delay - 1,
        data: vec![0, 1, 1],
    }
}

fn row(batch: usize, start: usize) -> Vec<SampleInstant> {
    (0..batch)
        .map(|k| SampleInstant {
            millisecond: start + k,
            chip: 3 * k + start,
            ramp: Complex32::new(0.125 * k as f32, 1.0 - 0.25 * k as f32),
        })
        .collect()
}

fn engine(satellites: usize, total: u64, interval: u64, batch: usize) -> B1iSimulation {
    let records = (0..satellites).map(|s| record(100 * (s as u64 + 1))).collect();
    let seeds = (0..satellites).map(|s| Complex32::new(s as f32, 0.5)).collect();
    B1iSimulation::new(records, seeds, total, interval, batch).unwrap()
}

fn fault(
    satellites: Vec<Bds2SatelliteInfo>,
    seeds: Vec<Complex32>,
    interval: u64,
    batch: usize,
) -> String {
    match B1iSimulation::new(satellites, seeds, 100, interval, batch) {
        Ok(_) => panic!(),
        Err(message) => message,
    }
}

#[test]
fn new_starts_every_generator() {
    let simulation = engine(3, 1000, 50, 10);
    assert_eq!(simulation.satellite_count(), 3);
    assert_eq!(simulation.batch(), 10);
    assert_eq!(simulation.batch_count(), 100);
    assert_eq!(simulation.batches_done(), 0);
    assert_eq!(simulation.emitted(), 0);
    assert_eq!(simulation.epochs_entered(), 0);
    assert!(!simulation.finished());
    for s in 0..3 {
        let generator = simulation.satellite(s);
        let first = 100 * (s as u64 + 1);
        assert_eq!(generator.delay_idx(), 1);
        assert_eq!(generator.delay(), first);
        assert_eq!(generator.ref_delay(), first - 1);
        assert_eq!(generator.elevation(), 10);
        assert_eq!(generator.cached_phase(), Complex32::new(s as f32, 0.5));
    }
}

#[test]
fn new_refuses_an_empty_epoch() {
    let message = fault(vec![record(5)], vec![Complex32::new(0.0, 0.0)], 0, 10);
    assert_eq!(message, "Update interval must be positive!");
    let message = fault(vec![], vec![Complex32::new(0.0, 0.0)], 0, 0);
    assert_eq!(message, "Update interval must be positive!");
}

#[test]
fn new_refuses_an_empty_batch() {
    let message = fault(vec![record(5)], vec![], 7, 0);
    assert_eq!(message, "Batch size must be positive!");
}

#[test]
fn new_wants_a_seed_for_each_satellite() {
    let message = fault(vec![record(5), record(9)], vec![Complex32::new(0.0, 0.0)], 7, 10);
    assert_eq!(message, "Each satellite needs one carrier seed!");
    let message = fault(vec![], vec![Complex32::new(0.0, 0.0)], 7, 10);
    assert_eq!(message, "Each satellite needs one carrier seed!");
}

#[test]
fn new_refuses_a_record_that_cannot_be_run() {
    let seeds = vec![Complex32::new(0.0, 0.0), Complex32::new(0.0, 0.0)];
    let mut empty_code = record(5);
    empty_code.prn.clear();
    assert!(!empty_code.is_ready());
    let message = fault(vec![record(5), empty_code], seeds.clone(), 7, 10);
    assert_eq!(message, "Satellite record is not usable!");
    let mut empty_message = record(5);
    empty_message.data.clear();
    assert!(!empty_message.is_ready());
    let message = fault(vec![empty_message, record(5)], seeds.clone(), 7, 10);
    assert_eq!(message, "Satellite record is not usable!");
    let mut no_epochs = record(5);
    no_epochs.delay.clear();
    no_epochs.elevation.clear();
    assert!(!no_epochs.is_ready());
    let message = fault(vec![record(5), no_epochs], seeds.clone(), 7, 10);
    assert_eq!(message, "Satellite record is not usable!");
    let mut uneven = record(5);
    uneven.elevation.pop();
    assert!(!uneven.is_ready());
    let message = fault(vec![record(5), uneven], seeds.clone(), 7, 10);
    assert_eq!(message, "Satellite record is not usable!");
    let mut no_bit = record(5);
    no_bit.data[1] = 2;
    assert!(!no_bit.is_ready());
    let message = fault(vec![record(5), no_bit], seeds.clone(), 7, 10);
    assert_eq!(message, "Satellite record is not usable!");
    let mut no_chip = record(5);
    no_chip.prn[4] = 9;
    assert!(!no_chip.is_ready());
    let message = fault(vec![no_chip], vec![Complex32::new(0.0, 0.0)], 7, 10);
    assert_eq!(message, "Satellite record is not usable!");
    assert!(record(5).is_ready());
}

#[test]
fn an_engine_without_satellites_emits_zeros() {
    let mut simulation = B1iSimulation::new(vec![], vec![], 5, 3, 2).unwrap();
    let signal = simulation.simulate(&vec![]).unwrap();
    assert_eq!(signal, vec![Complex32::new(0.0, 0.0), Complex32::new(0.0, 0.0)]);
    assert_eq!(simulation.batches_done(), 1);
}

#[test]
fn a_run_emits_whole_batches_only() {
    let mut simulation = engine(2, 25, 1000, 10);
    assert_eq!(simulation.batch_count(), 2);
    let mut samples = 0;
    let mut bytes = 0;
    let mut batches = 0;
    while !simulation.finished() {
        let inputs = vec![row(10, batches), row(10, batches + 7)];
        let signal = simulation.simulate(&inputs).unwrap();
        assert_eq!(signal.len(), 10);
        samples += signal.len();
        bytes += B1iSimulation::export(&signal).len();
        batches += 1;
        assert_eq!(simulation.batches_done(), batches as u64);
        assert_eq!(simulation.emitted(), samples as u64);
    }
    assert_eq!(batches, 2);
    assert_eq!(samples, 20);
    assert_eq!(bytes, 160);
    assert_eq!(simulation.emitted(), 20);
    assert!(simulation.finished());
    let inputs = vec![row(10, 0), row(10, 0)];
    assert_eq!(simulation.simulate(&inputs), None);
    assert_eq!(simulation.batches_done(), 2);
    assert_eq!(simulation.emitted(), 20);
}

#[test]
fn a_run_shorter_than_a_batch_emits_nothing() {
    let mut simulation = engine(1, 9, 1000, 10);
    assert_eq!(simulation.batch_count(), 0);
    assert!(simulation.finished());
    assert_eq!(simulation.simulate(&vec![row(10, 0)]), None);
    assert_eq!(simulation.emitted(), 0);
}

#[test]
fn inputs_of_another_shape_are_refused() {
    let mut simulation = engine(2, 100, 1000, 4);
    assert_eq!(simulation.simulate(&vec![row(4, 0)]), None);
    assert_eq!(simulation.simulate(&vec![row(4, 0), row(4, 0), row(4, 0)]), None);
    assert_eq!(simulation.simulate(&vec![row(4, 0), row(3, 0)]), None);
    assert_eq!(simulation.simulate(&vec![row(5, 0), row(4, 0)]), None);
    assert_eq!(simulation.simulate(&vec![]), None);
    assert_eq!(simulation.batches_done(), 0);
    assert_eq!(simulation.epochs_entered(), 0);
    for s in 0..2 {
        assert_eq!(simulation.satellite(s).cached_phase(), Complex32::new(s as f32, 0.5));
        assert_eq!(simulation.satellite(s).delay_idx(), 1);
    }
    assert!(simulation.simulate(&vec![row(4, 0), row(4, 0)]).is_some());
    assert_eq!(simulation.batches_done(), 1);
}

#[test]
fn the_composite_is_the_sum_of_the_generators() {
    let mut simulation = engine(3, 100, 1000, 6);
    let mut generators: Vec<B1iSatelliteWrapper> = (0..3)
        .map(|s| {
            let mut generator = B1iSatelliteWrapper::new(record(100 * (s as u64 + 1)));
            generator.init(Complex32::new(s as f32, 0.5));
            generator
        })
        .collect();
    for batch in 0..4 {
        let inputs = vec![row(6, batch), row(6, 2 * batch + 1), row(6, 40 + batch)];
        let signals: Vec<Vec<Complex32>> = generators
            .iter_mut()
            .zip(inputs.iter())
            .map(|(generator, instants)| generator.simulate(instants))
            .collect();
        let composite = simulation.simulate(&inputs).unwrap();
        assert_eq!(composite.len(), 6);
        for k in 0..6 {
            let expected: Complex32 = signals.iter().map(|signal| &signal[k]).sum();
            assert_eq!(composite[k], expected);
            assert_ne!(composite[k], signals[0][k]);
        }
        for s in 0..3 {
            assert_eq!(simulation.satellite(s).cached_phase(), generators[s].cached_phase());
        }
    }
}

#[test]
fn two_equal_satellites_give_twice_the_signal_of_one() {
    let one = vec![record(100)];
    let two = vec![record(100), record(100)];
    let seed = Complex32::new(0.75, -0.5);
    let mut single = B1iSimulation::new(one, vec![seed], 60, 20, 5).unwrap();
    let mut double = B1iSimulation::new(two, vec![seed, seed], 60, 20, 5).unwrap();
    for batch in 0..12 {
        let alone = single.simulate(&vec![row(5, 3 * batch)]).unwrap();
        let both = double.simulate(&vec![row(5, 3 * batch), row(5, 3 * batch)]).unwrap();
        assert_eq!(alone.len(), 5);
        assert_eq!(both.len(), 5);
        for k in 0..5 {
            assert_eq!(both[k], alone[k] * 2.0);
            assert_eq!(both[k].re, 2.0 * alone[k].re);
            assert_eq!(both[k].im, 2.0 * alone[k].im);
        }
    }
    assert!(single.finished());
    assert!(double.finished());
}

#[test]
fn the_generators_roll_over_at_the_epoch_boundary() {
    let interval = 500_000u64;
    let batch = 10_000usize;
    let mut simulation = engine(2, 3 * interval, interval, batch);
    assert_eq!(simulation.batch_count(), 150);
    let quiet: Vec<SampleInstant> = (0..batch)
        .map(|_| SampleInstant { millisecond: 0, chip: 0, ramp: Complex32::new(0.0, 0.0) })
        .collect();
    let inputs = vec![quiet, row(batch, 0)];
    for done in 1..50 {
        assert!(simulation.simulate(&inputs).is_some());
        assert_eq!(simulation.emitted(), done * batch as u64);
        assert_eq!(simulation.epochs_entered(), 0);
        assert_eq!(simulation.satellite(0).delay_idx(), 1);
        assert_eq!(simulation.satellite(0).delay(), 100);
        assert_eq!(simulation.satellite(0).ref_delay(), 99);
    }
    assert!(simulation.simulate(&inputs).is_some());
    assert_eq!(simulation.emitted(), interval);
    assert_eq!(simulation.epochs_entered(), 1);
    for s in 0..2 {
        let first = 100 * (s as u64 + 1);
        let generator = simulation.satellite(s);
        assert_eq!(generator.delay_idx(), 2);
        assert_eq!(generator.delay(), first + 1);
        assert_eq!(generator.ref_delay(), first);
        assert_eq!(generator.elevation(), 11);
    }
    for _ in 0..50 {
        assert_eq!(simulation.epochs_entered(), 1);
        assert!(simulation.simulate(&inputs).is_some());
    }
    assert_eq!(simulation.emitted(), 2 * interval);
    assert_eq!(simulation.epochs_entered(), 2);
    assert_eq!(simulation.satellite(1).delay_idx(), 3);
    assert_eq!(simulation.satellite(1).delay(), 202);
    assert_eq!(simulation.satellite(1).ref_delay(), 201);
}

#[test]
fn a_boundary_inside_a_batch_rolls_over_after_the_batch() {
    let mut simulation = engine(1, 100, 15, 10);
    let inputs = vec![row(10, 0)];
    let expected = [0, 1, 2, 2, 3, 4, 4, 5, 6, 6];
    for (done, rollovers) in expected.iter().enumerate() {
        assert!(simulation.simulate(&inputs).is_some());
        assert_eq!(simulation.emitted(), 10 * (done as u64 + 1));
        assert_eq!(simulation.epochs_entered(), *rollovers);
        assert_eq!(simulation.epochs_entered(), simulation.emitted() / 15);
        assert_eq!(simulation.satellite(0).delay_idx() as u64, (1 + rollovers) % 4);
    }
    assert!(simulation.finished());
}

#[test]
fn a_batch_longer_than_an_epoch_rolls_over_once() {
    let mut simulation = engine(1, 100, 3, 10);
    let inputs = vec![row(10, 0)];
    for done in 1..=10u64 {
        assert!(simulation.simulate(&inputs).is_some());
        assert_eq!(simulation.epochs_entered(), done);
        assert!(simulation.epochs_entered() <= simulation.emitted() / 3);
        assert_eq!(simulation.satellite(0).delay_idx() as u64, (1 + done) % 4);
    }
}

#[test]
fn the_batch_after_a_rollover_uses_the_carried_accumulator() {
    let mut simulation = engine(1, 40, 10, 10);
    let inputs = vec![row(10, 0)];
    let first = simulation.simulate(&inputs).unwrap();
    assert_eq!(simulation.epochs_entered(), 1);
    let carried = Complex32::new(0.0, 0.5) + inputs[0][9].ramp;
    assert_eq!(carried, Complex32::new(1.125, -0.75));
    assert_eq!(simulation.satellite(0).cached_phase(), carried);
    assert_ne!(simulation.satellite(0).cached_phase(), first[9]);
    let mut generator = B1iSatelliteWrapper::new(record(100));
    generator.init(carried);
    let expected: Vec<Complex32> = generator
        .simulate(&inputs[0])
        .iter()
        .map(|sample| Complex32::new(0.0, 0.0) + sample)
        .collect();
    let second = simulation.simulate(&inputs).unwrap();
    assert_eq!(second, expected);
}

#[test]
fn the_composite_adds_the_satellites_in_order_from_zero() {
    let records = vec![record(100), record(200), record(300)];
    let seeds = vec![Complex32::new(0.0, 0.0); 3];
    let mut simulation = B1iSimulation::new(records, seeds, 10, 10, 1).unwrap();
    let big = SampleInstant { millisecond: 0, chip: 0, ramp: Complex32::new(16_777_215.0, 0.0) };
    let none = SampleInstant { millisecond: 0, chip: 0, ramp: Complex32::new(0.0, 0.5) };
    let more = SampleInstant { millisecond: 0, chip: 0, ramp: Complex32::new(0.0, 0.0) };
    let composite = simulation.simulate(&vec![vec![big], vec![none], vec![more]]).unwrap();
    let samples = [
        Complex32::new(16_777_216.0, 0.0),
        Complex32::new(1.0, 0.5),
        Complex32::new(1.0, 0.0),
    ];
    let in_order = ((Complex32::new(0.0, 0.0) + samples[0]) + samples[1]) + samples[2];
    let reversed = ((Complex32::new(0.0, 0.0) + samples[2]) + samples[1]) + samples[0];
    assert_eq!(in_order, Complex32::new(16_777_216.0, 0.5));
    assert_eq!(reversed, Complex32::new(16_777_218.0, 0.5));
    assert_eq!(composite, vec![in_order]);
}

#[test]
fn is_numeric_finds_a_part_that_is_no_number() {
    assert!(B1iSimulation::is_numeric(&vec![]));
    assert!(B1iSimulation::is_numeric(&vec![Complex32::new(1.0, -2.0)]));
    assert!(B1iSimulation::is_numeric(&vec![Complex32::new(f32::INFINITY, f32::MIN)]));
    assert!(!B1iSimulation::is_numeric(&vec![Complex32::new(f32::NAN, 0.0)]));
    assert!(!B1iSimulation::is_numeric(&vec![Complex32::new(0.0, f32::NAN)]));
    assert!(!B1iSimulation::is_numeric(&vec![
        Complex32::new(1.0, 2.0),
        Complex32::new(3.0, f32::NAN),
        Complex32::new(5.0, 6.0),
    ]));
}

#[test]
fn export_keeps_eight_bytes_for_a_sample_that_is_no_number() {
    let signal =
        vec![Complex32::new(1.0, -2.0), Complex32::new(f32::NAN, 7.0), Complex32::new(0.5, 0.25)];
    let bytes = B1iSimulation::export(&signal);
    assert_eq!(bytes.len(), 24);
    assert_eq!(&bytes[0..8], &[0x00, 0x00, 0x80, 0x3f, 0x00, 0x00, 0x00, 0xc0]);
    assert_eq!(&bytes[16..24], &[0x00, 0x00, 0x00, 0x3f, 0x00, 0x00, 0x80, 0x3e]);
}

#[test]
fn export_writes_each_part_least_significant_byte_first() {
    let signal = vec![
        Complex32::new(1.0, -2.0),
        Complex32::new(0.0, 0.15625),
        Complex32::new(-0.0, f32::from_bits(0x0102_0304)),
    ];
    let bytes = B1iSimulation::export(&signal);
    assert_eq!(
        bytes,
        vec![
            0x00, 0x00, 0x80, 0x3f, 0x00, 0x00, 0x00, 0xc0, 0x00, 0x00, 0x00, 0x00, 0x00, 0x00,
            0x20, 0x3e, 0x00, 0x00, 0x00, 0x80, 0x04, 0x03, 0x02, 0x01,
        ]
    );
    let mut expected = Vec::new();
    for sample in &signal {
        expected.extend_from_slice(&sample.re.to_le_bytes());
        expected.extend_from_slice(&sample.im.to_le_bytes());
    }
    assert_eq!(bytes, expected);
}

#[test]
fn export_of_nothing_is_empty() {
    assert!(B1iSimulation::export(&Vec::new()).is_empty());
}

#[test]
fn export_has_eight_bytes_for_each_sample() {
    for n in [1usize, 2, 7, 100, 10_000] {
        let signal: Vec<Complex32> =
            (0..n).map(|k| Complex32::new(k as f32, -(k as f32))).collect();
        assert_eq!(B1iSimulation::export(&signal).len(), 8 * n);
    }
}
