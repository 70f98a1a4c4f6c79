//! The B1I signal generator of one satellite, and the engine that drives the
//! generators of a constellation batch by batch.
//!
//! The carrier's phase is computed outside this library. What it says of a
//! sample instant comes in as a `SampleInstant`; the seed of the carrier
//! accumulator comes in with `init`.

use crate::codec::{
    chip_index, message_index, modulation_at, modulation_value, overlay_bit, overlay_index,
};
use crate::sample::{
    add_samples, has_nan, real_sample, sample_is_nan, sample_of, sample_sum, sample_total,
    sample_words, sum_samples, words_of,
};
use crate::satellite_loader::{
    cyclic, lemma_position, Bds2SatelliteInfo, SatelliteLoader, SatelliteModel,
};
use num_complex::Complex32;
use vstd::prelude::*;

verus! {

/// What the carrier model says of one sample instant.
pub struct SampleInstant {
    /// Whole milliseconds elapsed since the satellite's time origin.
    pub millisecond: usize,
    /// Chips elapsed within the running period of the ranging code.
    pub chip: usize,
    /// The phasor of the phase ramp at this instant.
    pub ramp: Complex32,
}

/// The state of one satellite's generator.
pub struct GeneratorModel {
    /// The trajectory record that the generator runs on.
    pub satellite: SatelliteModel,
    /// The epoch that the next rollover loads.
    pub delay_idx: int,
    /// The delay of the current epoch.
    pub delay: u64,
    /// The delay of the epoch before.
    pub ref_delay: u64,
    /// The elevation of the current epoch.
    pub elevation: u64,
    /// The carrier accumulator, carried from batch to batch.
    pub cached_phase: Complex32,
}

impl GeneratorModel {
    /// The record can be run on and the epoch pointer lies inside the
    /// trajectory.
    pub open spec fn wf(self) -> bool {
        &&& self.satellite.ready()
        &&& 0 <= self.delay_idx < self.satellite.delay.len()
    }

    /// The epoch pointer after it has advanced by one, wrapping at the end of
    /// the trajectory.
    pub open spec fn next_idx(self) -> int {
        (self.delay_idx + 1) % (self.satellite.delay.len() as int)
    }

    /// The state after `init` with the carrier seed `seed`.
    pub open spec fn started(self, seed: Complex32) -> GeneratorModel {
        GeneratorModel {
            satellite: self.satellite,
            delay_idx: self.next_idx(),
            delay: cyclic(self.satellite.delay, self.delay_idx),
            ref_delay: self.satellite.ref_delay,
            elevation: cyclic(self.satellite.elevation, self.delay_idx),
            cached_phase: seed,
        }
    }

    /// The state after `update`: the current delay has become the previous
    /// one, and the epoch under the pointer the current one.
    pub open spec fn advanced(self) -> GeneratorModel {
        GeneratorModel {
            satellite: self.satellite,
            delay_idx: self.next_idx(),
            delay: cyclic(self.satellite.delay, self.delay_idx),
            ref_delay: self.delay,
            elevation: cyclic(self.satellite.elevation, self.delay_idx),
            cached_phase: self.cached_phase,
        }
    }

    /// The generator stands where `rollovers` rollovers after its start leave
    /// it: the current epoch is epoch `rollovers` of the trajectory, taken
    /// cyclically; the previous delay is that of the epoch before, or the
    /// reference delay where there is none; and the pointer is at the epoch
    /// after.
    pub open spec fn at_epoch(self, rollovers: nat) -> bool {
        &&& self.delay_idx == pointer_after(rollovers, self.satellite.delay.len())
        &&& self.delay == cyclic(self.satellite.delay, rollovers as int)
        &&& self.elevation == cyclic(self.satellite.elevation, rollovers as int)
        &&& self.ref_delay == if rollovers == 0 {
            self.satellite.ref_delay
        } else {
            cyclic(self.satellite.delay, rollovers - 1)
        }
    }

    /// The phase term at `instant`: the carrier accumulator plus the ramp's
    /// phasor.
    pub open spec fn phase_term(self, instant: SampleInstant) -> Complex32 {
        sample_sum(self.cached_phase, instant.ramp)
    }

    /// The sample at `instant`: the modulation value, as a real sample, added
    /// to the phase term.
    pub open spec fn sample(self, instant: SampleInstant) -> Complex32 {
        sample_sum(
            sample_of(
                modulation_at(self.satellite, instant.millisecond as int, instant.chip as int) as i8,
            ),
            self.phase_term(instant),
        )
    }

    /// The samples of a batch.
    pub open spec fn signal(self, instants: Seq<SampleInstant>) -> Seq<Complex32> {
        Seq::new(instants.len(), |k: int| self.sample(instants[k]))
    }

    /// The state after a batch: the carrier accumulator has taken the phase
    /// term of the batch's last sample, which does not hold that sample's
    /// modulation value. An empty batch changes nothing.
    pub open spec fn after_batch(self, instants: Seq<SampleInstant>) -> GeneratorModel {
        GeneratorModel {
            satellite: self.satellite,
            delay_idx: self.delay_idx,
            delay: self.delay,
            ref_delay: self.ref_delay,
            elevation: self.elevation,
            cached_phase: if instants.len() > 0 {
                self.phase_term(instants.last())
            } else {
                self.cached_phase
            },
        }
    }
}

/// The signal generator of one satellite.
pub struct B1iSatelliteWrapper {
    satellite: Bds2SatelliteInfo,
    delay_idx: usize,
    delay: u64,
    ref_delay: u64,
    elevation: u64,
    cached_phase: Complex32,
}

impl View for B1iSatelliteWrapper {
    type V = GeneratorModel;

    closed spec fn view(&self) -> GeneratorModel {
        GeneratorModel {
            satellite: self.satellite@,
            delay_idx: self.delay_idx as int,
            delay: self.delay,
            ref_delay: self.ref_delay,
            elevation: self.elevation,
            cached_phase: self.cached_phase,
        }
    }
}

impl B1iSatelliteWrapper {
    /// A generator for `satellite` that has not yet been started: the epoch
    /// pointer is at the first epoch, delays and elevation are zero, and so is
    /// the carrier accumulator. It can be started and run if the record is
    /// ready (`Bds2SatelliteInfo::is_ready`).
    pub fn new(satellite: Bds2SatelliteInfo) -> (generator: B1iSatelliteWrapper)
        ensures
            generator@ == (GeneratorModel {
                satellite: satellite@,
                delay_idx: 0,
                delay: 0,
                ref_delay: 0,
                elevation: 0,
                cached_phase: sample_of(0),
            }),
            generator@.wf() <==> satellite@.ready(),
    {
        B1iSatelliteWrapper {
            satellite,
            delay_idx: 0,
            delay: 0,
            ref_delay: 0,
            elevation: 0,
            cached_phase: real_sample(0),
        }
    }

    /// The trajectory record that the generator runs on.
    pub fn satellite(&self) -> (satellite: &Bds2SatelliteInfo)
        ensures
            satellite@ == self@.satellite,
    {
        &self.satellite
    }

    /// The epoch that the next rollover loads.
    pub fn delay_idx(&self) -> (idx: usize)
        ensures
            idx == self@.delay_idx,
    {
        self.delay_idx
    }

    /// The delay of the current epoch.
    pub fn delay(&self) -> (delay: u64)
        ensures
            delay == self@.delay,
    {
        self.delay
    }

    /// The delay of the epoch before the current one.
    pub fn ref_delay(&self) -> (delay: u64)
        ensures
            delay == self@.ref_delay,
    {
        self.ref_delay
    }

    /// The elevation of the current epoch.
    pub fn elevation(&self) -> (elevation: u64)
        ensures
            elevation == self@.elevation,
    {
        self.elevation
    }

    /// The carrier accumulator.
    pub fn cached_phase(&self) -> (phase: Complex32)
        ensures
            phase == self@.cached_phase,
    {
        self.cached_phase
    }

    /// The indices of the chip, of the secondary-code bit and of the message
    /// bit that are on air at an instant, each inside its sequence.
    pub fn get_idx_by_time(&self, millisecond: usize, chip: usize) -> (indices: (
        usize,
        usize,
        usize,
    ))
        requires
            self@.wf(),
        ensures
            indices.0 == chip_index(self@.satellite, chip as int),
            indices.1 == overlay_index(millisecond as int),
            indices.2 == message_index(self@.satellite, millisecond as int),
            indices.0 < self@.satellite.prn.len(),
            indices.1 < 20,
            indices.2 < self@.satellite.data.len(),
    {
        let prn_idx: usize = chip % self.satellite.prn.len();
        let nh_idx: usize = millisecond % 20;
        let msg_idx: usize = (millisecond / 20) % self.satellite.data.len();
        (prn_idx, nh_idx, msg_idx)
    }

    /// Moves the epoch pointer on by one, wrapping at the end of the
    /// trajectory.
    fn advance_idx(&mut self)
        requires
            old(self)@.wf(),
        ensures
            final(self)@ == (GeneratorModel { delay_idx: old(self)@.next_idx(), ..old(self)@ }),
    {
        let epochs = self.satellite.delay.len();
        if self.delay_idx + 1 == epochs {
            assert(epochs as int % epochs as int == 0) by (nonlinear_arith)
                requires
                    epochs > 0,
            ;
            self.delay_idx = 0;
        } else {
            proof {
                vstd::arithmetic::div_mod::lemma_small_mod(
                    (self.delay_idx + 1) as nat,
                    epochs as nat,
                );
            }
            self.delay_idx = self.delay_idx + 1;
        }
    }

    /// Starts the generator: the epoch under the pointer becomes the current
    /// one, the reference delay the previous one, the pointer moves on, and
    /// the carrier accumulator takes the value `seed`.
    pub fn init(&mut self, seed: Complex32)
        requires
            old(self)@.wf(),
        ensures
            final(self)@ == old(self)@.started(seed),
            final(self)@.wf(),
    {
        self.delay = self.satellite.get_delay(self.delay_idx);
        self.ref_delay = self.satellite.ref_delay();
        self.elevation = self.satellite.get_elevation(self.delay_idx);
        self.advance_idx();
        self.cached_phase = seed;
    }

    /// Rolls over to the next epoch: the current delay becomes the previous
    /// one, the epoch under the pointer the current one, and the pointer
    /// moves on.
    pub fn update(&mut self)
        requires
            old(self)@.wf(),
        ensures
            final(self)@ == old(self)@.advanced(),
            final(self)@.wf(),
    {
        self.ref_delay = self.delay;
        self.delay = self.satellite.get_delay(self.delay_idx);
        self.elevation = self.satellite.get_elevation(self.delay_idx);
        self.advance_idx();
    }

    /// Generates one batch: a sample for each instant, in order. The carrier
    /// accumulator is the same for every sample of the batch and takes the
    /// phase term of the last sample afterwards.
    pub fn simulate(&mut self, instants: &Vec<SampleInstant>) -> (signal: Vec<Complex32>)
        requires
            old(self)@.wf(),
        ensures
            signal@ == old(self)@.signal(instants@),
            final(self)@ == old(self)@.after_batch(instants@),
            final(self)@.wf(),
    {
        let mut signal: Vec<Complex32> = Vec::new();
        let mut carried = self.cached_phase;
        let mut k: usize = 0;
        while k < instants.len()
            invariant
                self@ == old(self)@,
                self@.wf(),
                k <= instants@.len(),
                signal@.len() == k,
                forall|j: int| 0 <= j < k ==> #[trigger] signal@[j] == self@.sample(instants@[j]),
                carried == if k > 0 {
                    self@.phase_term(instants@[k - 1])
                } else {
                    self@.cached_phase
                },
            decreases instants@.len() - k,
        {
            let instant = &instants[k];
            let (prn_idx, nh_idx, msg_idx) = self.get_idx_by_time(instant.millisecond, instant.chip);
            let chip = self.satellite.get_prn_bit(prn_idx);
            let overlay = overlay_bit(instant.millisecond);
            let message = self.satellite.get_data_bit(msg_idx);
            proof {
                vstd::arithmetic::div_mod::lemma_small_mod(
                    prn_idx as nat,
                    self@.satellite.prn.len(),
                );
                vstd::arithmetic::div_mod::lemma_small_mod(
                    msg_idx as nat,
                    self@.satellite.data.len(),
                );
            }
            let data_bit = modulation_value(chip, overlay, message);
            let phase = add_samples(self.cached_phase, instant.ramp);
            signal.push(add_samples(real_sample(data_bit), phase));
            carried = phase;
            k += 1;
        }
        assert(signal@ =~= self@.signal(instants@));
        self.cached_phase = carried;
        signal
    }
}

/// One row of instants for each satellite, as sequences.
pub open spec fn rows(inputs: Seq<Vec<SampleInstant>>) -> Seq<Seq<SampleInstant>> {
    Seq::new(inputs.len(), |s: int| inputs[s]@)
}

/// The records of a constellation, as models.
pub open spec fn records(satellites: Seq<Bds2SatelliteInfo>) -> Seq<SatelliteModel> {
    Seq::new(satellites.len(), |s: int| satellites[s]@)
}

/// Where the epoch pointer of a started generator stands after `rollovers`
/// rollovers on a trajectory of `epochs` epochs: one past the rollovers,
/// wrapped into the trajectory.
pub open spec fn pointer_after(rollovers: nat, epochs: nat) -> int {
    (1 + rollovers as int) % (epochs as int)
}

/// The state of the engine.
pub struct SimulationModel {
    /// The generators, one for each satellite.
    pub satellites: Seq<GeneratorModel>,
    /// The samples that the run may emit at most.
    pub total_samples: nat,
    /// The samples in one epoch.
    pub update_interval: nat,
    /// The samples in one batch.
    pub batch: nat,
    /// The batches emitted so far.
    pub batches_done: nat,
    /// The epoch rollovers so far.
    pub epochs_entered: nat,
}

impl SimulationModel {
    /// The number of whole batches in the run. Samples that fill no batch are
    /// not emitted.
    pub open spec fn batch_count(self) -> nat {
        self.total_samples / self.batch
    }

    /// The samples emitted so far.
    pub open spec fn emitted(self) -> nat {
        self.batches_done * self.batch
    }

    /// The run is over: every whole batch has been emitted.
    pub open spec fn finished(self) -> bool {
        self.batches_done >= self.batch_count()
    }

    /// The next batch takes the sample count across an epoch boundary.
    pub open spec fn crosses(self) -> bool {
        (self.emitted() + self.batch) / self.update_interval > self.emitted()
            / self.update_interval
    }

    /// `inputs` has a row for each satellite and an instant for each sample of
    /// a batch.
    pub open spec fn accepts(self, inputs: Seq<Seq<SampleInstant>>) -> bool {
        &&& inputs.len() == self.satellites.len()
        &&& forall|s: int| 0 <= s < inputs.len() ==> (#[trigger] inputs[s]).len() == self.batch
    }

    /// The samples that the satellites give at position `k` of the next
    /// batch, in the order of the satellites.
    pub open spec fn column(self, inputs: Seq<Seq<SampleInstant>>, k: int) -> Seq<Complex32> {
        Seq::new(self.satellites.len(), |s: int| self.satellites[s].sample(inputs[s][k]))
    }

    /// The composite signal of the next batch: at each position the sum of
    /// the satellites' samples.
    pub open spec fn composite(self, inputs: Seq<Seq<SampleInstant>>) -> Seq<Complex32> {
        Seq::new(self.batch, |k: int| sample_total(self.column(inputs, k)))
    }

    /// The state after the next batch: every generator has run the batch,
    /// and has rolled over to its next epoch if the batch crossed an epoch
    /// boundary.
    pub open spec fn after_batch(self, inputs: Seq<Seq<SampleInstant>>) -> SimulationModel {
        SimulationModel {
            satellites: Seq::new(
                self.satellites.len(),
                |s: int|
                    if self.crosses() {
                        self.satellites[s].after_batch(inputs[s]).advanced()
                    } else {
                        self.satellites[s].after_batch(inputs[s])
                    },
            ),
            total_samples: self.total_samples,
            update_interval: self.update_interval,
            batch: self.batch,
            batches_done: self.batches_done + 1,
            epochs_entered: if self.crosses() {
                self.epochs_entered + 1
            } else {
                self.epochs_entered
            },
        }
    }

    /// What holds of the engine in every state: batch and epoch have a
    /// length; no batch beyond the run's last has been emitted; there has been
    /// at most one rollover for each epoch boundary crossed, and exactly one
    /// where a batch is no longer than an epoch; and every generator is well
    /// formed and stands at the epoch that the rollovers have led to.
    pub open spec fn wf(self) -> bool {
        &&& self.batch > 0
        &&& self.update_interval > 0
        &&& self.batches_done <= self.batch_count()
        &&& self.epochs_entered <= self.emitted() / self.update_interval
        &&& self.batch <= self.update_interval ==> self.epochs_entered == self.emitted()
            / self.update_interval
        &&& forall|s: int|
            0 <= s < self.satellites.len() ==> {
                &&& (#[trigger] self.satellites[s]).wf()
                &&& self.satellites[s].at_epoch(self.epochs_entered)
            }
    }
}

/// Why an engine cannot be made of these parts, if it cannot: a batch or an
/// epoch without length, a number of seeds that is not the number of
/// satellites, or a record that no generator can run on.
pub open spec fn config_fault(
    satellites: Seq<SatelliteModel>,
    seeds: nat,
    update_interval: nat,
    batch: nat,
) -> Option<Seq<char>> {
    if update_interval == 0 {
        Some("Update interval must be positive!"@)
    } else if batch == 0 {
        Some("Batch size must be positive!"@)
    } else if seeds != satellites.len() {
        Some("Each satellite needs one carrier seed!"@)
    } else if exists|s: int| 0 <= s < satellites.len() && !(#[trigger] satellites[s]).ready() {
        Some("Satellite record is not usable!"@)
    } else {
        None
    }
}

/// The engine's state at the start of a run: every generator started on its
/// record with its seed, and nothing emitted.
pub open spec fn initial(
    satellites: Seq<SatelliteModel>,
    seeds: Seq<Complex32>,
    total_samples: nat,
    update_interval: nat,
    batch: nat,
) -> SimulationModel {
    SimulationModel {
        satellites: Seq::new(
            satellites.len(),
            |s: int|
                (GeneratorModel {
                    satellite: satellites[s],
                    delay_idx: 0,
                    delay: 0,
                    ref_delay: 0,
                    elevation: 0,
                    cached_phase: sample_of(0),
                }).started(seeds[s]),
        ),
        total_samples,
        update_interval,
        batch,
        batches_done: 0,
        epochs_entered: 0,
    }
}

/// The simulation engine: the generators of a constellation and the sample
/// axis that they are driven along, batch by batch.
pub struct B1iSimulation {
    satellites: Vec<B1iSatelliteWrapper>,
    total_samples: u64,
    update_interval: u64,
    batch: usize,
    batches_done: u64,
    epochs_entered: u64,
}

impl View for B1iSimulation {
    type V = SimulationModel;

    closed spec fn view(&self) -> SimulationModel {
        SimulationModel {
            satellites: Seq::new(self.satellites@.len(), |s: int| self.satellites@[s]@),
            total_samples: self.total_samples as nat,
            update_interval: self.update_interval as nat,
            batch: self.batch as nat,
            batches_done: self.batches_done as nat,
            epochs_entered: self.epochs_entered as nat,
        }
    }
}

impl B1iSimulation {
    /// Makes the engine of a run and starts a generator for each satellite.
    ///
    /// The run emits `total_samples` samples at most, in batches of `batch`
    /// samples; an epoch of the trajectories lasts `update_interval` samples;
    /// `seeds` holds the carrier seed of each satellite, in the order of
    /// `satellites`.
    pub fn new(
        satellites: Vec<Bds2SatelliteInfo>,
        seeds: Vec<Complex32>,
        total_samples: u64,
        update_interval: u64,
        batch: usize,
    ) -> (r: Result<B1iSimulation, String>)
        ensures
            match r {
                Ok(simulation) => {
                    &&& config_fault(
                        records(satellites@),
                        seeds@.len(),
                        update_interval as nat,
                        batch as nat,
                    ) is None
                    &&& simulation@ == initial(
                        records(satellites@),
                        seeds@,
                        total_samples as nat,
                        update_interval as nat,
                        batch as nat,
                    )
                    &&& simulation@.wf()
                },
                Err(message) => config_fault(
                    records(satellites@),
                    seeds@.len(),
                    update_interval as nat,
                    batch as nat,
                ) == Some(message@),
            },
    {
        if update_interval == 0 {
            return Err("Update interval must be positive!".to_owned());
        }
        if batch == 0 {
            return Err("Batch size must be positive!".to_owned());
        }
        if seeds.len() != satellites.len() {
            return Err("Each satellite needs one carrier seed!".to_owned());
        }
        let ghost given = satellites@;
        let count = satellites.len();
        let mut generators: Vec<B1iSatelliteWrapper> = Vec::new();
        for info in iter: satellites
            invariant
                iter.seq() == given,
                update_interval != 0,
                batch != 0,
                count == given.len(),
                seeds@.len() == count,
                generators@.len() == iter.index(),
                forall|j: int|
                    0 <= j < generators@.len() ==> {
                        &&& (#[trigger] given[j])@.ready()
                        &&& generators@[j]@ == initial(
                            records(given),
                            seeds@,
                            total_samples as nat,
                            update_interval as nat,
                            batch as nat,
                        ).satellites[j]
                    },
        {
            if !info.is_ready() {
                assert(!records(given)[iter.index()].ready());
                return Err("Satellite record is not usable!".to_owned());
            }
            let mut generator = B1iSatelliteWrapper::new(info);
            generator.init(seeds[generators.len()]);
            generators.push(generator);
        }
        let simulation = B1iSimulation {
            satellites: generators,
            total_samples,
            update_interval,
            batch,
            batches_done: 0,
            epochs_entered: 0,
        };
        proof {
            assert(simulation@.satellites =~= initial(
                records(given),
                seeds@,
                total_samples as nat,
                update_interval as nat,
                batch as nat,
            ).satellites);
            assert forall|s: int| 0 <= s < given.len() implies (#[trigger] records(given)[s]).ready() by {
                assert(given[s]@.ready());
            }
        }
        Ok(simulation)
    }

    /// The number of satellites.
    pub fn satellite_count(&self) -> (count: usize)
        ensures
            count == self@.satellites.len(),
    {
        self.satellites.len()
    }

    /// The generator of satellite `s`.
    pub fn satellite(&self, s: usize) -> (generator: &B1iSatelliteWrapper)
        requires
            s < self@.satellites.len(),
        ensures
            generator@ == self@.satellites[s as int],
    {
        &self.satellites[s]
    }

    /// The samples in one batch.
    pub fn batch(&self) -> (batch: usize)
        ensures
            batch == self@.batch,
    {
        self.batch
    }

    /// The number of whole batches in the run.
    pub fn batch_count(&self) -> (count: u64)
        requires
            self@.wf(),
        ensures
            count == self@.batch_count(),
    {
        self.total_samples / (self.batch as u64)
    }

    /// The batches emitted so far.
    pub fn batches_done(&self) -> (done: u64)
        ensures
            done == self@.batches_done,
    {
        self.batches_done
    }

    /// The samples emitted so far.
    pub fn emitted(&self) -> (samples: u64)
        requires
            self@.wf(),
        ensures
            samples == self@.emitted(),
            samples <= self@.total_samples,
    {
        proof {
            lemma_emitted_bound(self@);
        }
        self.batches_done * (self.batch as u64)
    }

    /// The epoch rollovers so far.
    pub fn epochs_entered(&self) -> (rollovers: u64)
        ensures
            rollovers == self@.epochs_entered,
    {
        self.epochs_entered
    }

    /// Whether the run is over.
    pub fn finished(&self) -> (over: bool)
        requires
            self@.wf(),
        ensures
            over == self@.finished(),
    {
        self.batches_done >= self.total_samples / (self.batch as u64)
    }

    /// Whether `inputs` has a row for each satellite and an instant for each
    /// sample of a batch.
    fn accepts(&self, inputs: &Vec<Vec<SampleInstant>>) -> (ok: bool)
        ensures
            ok == self@.accepts(rows(inputs@)),
    {
        if inputs.len() != self.satellites.len() {
            return false;
        }
        let mut s: usize = 0;
        while s < inputs.len()
            invariant
                s <= inputs@.len(),
                inputs@.len() == self@.satellites.len(),
                forall|j: int| 0 <= j < s ==> (#[trigger] rows(inputs@)[j]).len() == self@.batch,
            decreases inputs@.len() - s,
        {
            if inputs[s].len() != self.batch {
                assert(rows(inputs@)[s as int].len() != self@.batch);
                return false;
            }
            s += 1;
        }
        true
    }

    /// Runs every generator over its row of instants.
    fn fan_out(&mut self, inputs: &Vec<Vec<SampleInstant>>) -> (signals: Vec<Vec<Complex32>>)
        requires
            old(self)@.wf(),
            old(self)@.accepts(rows(inputs@)),
        ensures
            signals@.len() == old(self)@.satellites.len(),
            forall|s: int|
                0 <= s < signals@.len() ==> (#[trigger] signals@[s])@ == old(
                    self,
                )@.satellites[s].signal(inputs@[s]@),
            final(self)@ == (SimulationModel {
                satellites: Seq::new(
                    old(self)@.satellites.len(),
                    |s: int| old(self)@.satellites[s].after_batch(inputs@[s]@),
                ),
                ..old(self)@
            }),
    {
        let ghost before = self@;
        let count = self.satellites.len();
        let mut signals: Vec<Vec<Complex32>> = Vec::new();
        let mut s: usize = 0;
        while s < count
            invariant
                s <= count,
                count == before.satellites.len(),
                self.satellites@.len() == count,
                inputs@.len() == count,
                before.wf(),
                self.total_samples == before.total_samples,
                self.update_interval == before.update_interval,
                self.batch == before.batch,
                self.batches_done == before.batches_done,
                self.epochs_entered == before.epochs_entered,
                signals@.len() == s,
                forall|j: int|
                    0 <= j < s ==> (#[trigger] signals@[j])@ == before.satellites[j].signal(
                        inputs@[j]@,
                    ),
                forall|j: int|
                    0 <= j < s ==> (#[trigger] self.satellites@[j])@
                        == before.satellites[j].after_batch(inputs@[j]@),
                forall|j: int|
                    s <= j < count ==> (#[trigger] self.satellites@[j])@ == before.satellites[j],
            decreases count - s,
        {
            assert(before.satellites[s as int].wf());
            let signal = self.satellites[s].simulate(&inputs[s]);
            signals.push(signal);
            s += 1;
        }
        assert(self@.satellites =~= Seq::new(
            before.satellites.len(),
            |s: int| before.satellites[s].after_batch(inputs@[s]@),
        ));
        signals
    }

    /// Emits the next batch of the run.
    ///
    /// `inputs` holds, for each satellite in order, the instants of the
    /// batch's samples. Every generator produces its samples for them; the
    /// composite signal is their sum, position by position; and where the
    /// batch has taken the sample count across an epoch boundary, every
    /// generator rolls over to its next epoch afterwards. Gives `None`, and
    /// changes nothing, when the run is over or `inputs` has another shape.
    pub fn simulate(&mut self, inputs: &Vec<Vec<SampleInstant>>) -> (r: Option<Vec<Complex32>>)
        requires
            old(self)@.wf(),
        ensures
            final(self)@.wf(),
            r is Some <==> !old(self)@.finished() && old(self)@.accepts(rows(inputs@)),
            r matches Some(signal) ==> {
                &&& signal@ == old(self)@.composite(rows(inputs@))
                &&& final(self)@ == old(self)@.after_batch(rows(inputs@))
            },
            r is None ==> final(self)@ == old(self)@,
    {
        if self.finished() || !self.accepts(inputs) {
            return None;
        }
        let ghost before = self@;
        let ghost given = rows(inputs@);
        let signals = self.fan_out(inputs);
        assert forall|s: int| 0 <= s < signals@.len() implies (#[trigger] signals@[s])@.len()
            == self.batch by {
            assert(given[s].len() == before.batch);
        }
        let composite = sum_signals(&signals, self.batch);
        proof {
            lemma_emitted_bound(before);
            lemma_after_batch(before, given);
            assert forall|k: int| 0 <= k < before.batch implies #[trigger] composite@[k]
                == sample_total(before.column(given, k)) by {
                assert(before.column(given, k) =~= Seq::new(
                    signals@.len(),
                    |s: int| signals@[s]@[k],
                ));
            }
            assert(composite@ =~= before.composite(given));
        }
        let emitted_before = self.batches_done * (self.batch as u64);
        let emitted_after = emitted_before + (self.batch as u64);
        self.batches_done = self.batches_done + 1;
        if emitted_after / self.update_interval > emitted_before / self.update_interval {
            self.roll_over();
            self.epochs_entered = self.epochs_entered + 1;
        }
        assert(self@.satellites =~= before.after_batch(given).satellites);
        Some(composite)
    }

    /// Whether every sample of `signal` is a number in both its parts.
    pub fn is_numeric(signal: &Vec<Complex32>) -> (all: bool)
        ensures
            all == numeric(signal@),
    {
        let mut k: usize = 0;
        while k < signal.len()
            invariant
                k <= signal@.len(),
                forall|i: int| 0 <= i < k ==> !sample_is_nan(#[trigger] signal@[i]),
            decreases signal@.len() - k,
        {
            if has_nan(&signal[k]) {
                return false;
            }
            k += 1;
        }
        true
    }

    /// The bytes of a signal as they go to the output: for each sample its
    /// real and then its imaginary part, each as the four bytes of its
    /// binary32 bit pattern, least significant first. A sample with a part
    /// that is not a number has its eight bytes too; which they are is not
    /// fixed.
    pub fn export(signal: &Vec<Complex32>) -> (bytes: Vec<u8>)
        ensures
            bytes@.len() == 8 * signal@.len(),
            forall|i: int|
                0 <= i < bytes@.len() && !sample_is_nan(signal@[i / 8]) ==> #[trigger] bytes@[i]
                    == sample_bytes(signal@[i / 8])[i % 8],
            numeric(signal@) ==> bytes@ == stream(signal@),
    {
        let mut bytes: Vec<u8> = Vec::new();
        let mut k: usize = 0;
        while k < signal.len()
            invariant
                k <= signal@.len(),
                bytes@.len() == 8 * k,
                forall|i: int|
                    0 <= i < bytes@.len() && !sample_is_nan(signal@[i / 8]) ==> #[trigger] bytes@[i]
                        == sample_bytes(signal@[i / 8])[i % 8],
            decreases signal@.len() - k,
        {
            let ghost sofar = bytes@;
            let (re, im) = words_of(&signal[k]);
            push_word(&mut bytes, re);
            push_word(&mut bytes, im);
            proof {
                assert(bytes@ =~= sofar + (word_bytes(re) + word_bytes(im)));
                assert forall|i: int|
                    0 <= i < bytes@.len() && !sample_is_nan(
                        signal@[i / 8],
                    ) implies #[trigger] bytes@[i] == sample_bytes(signal@[i / 8])[i % 8] by {
                    if i >= sofar.len() {
                        lemma_position(8, k as int, i - 8 * k);
                    }
                }
            }
            k += 1;
        }
        proof {
            if numeric(signal@) {
                assert forall|i: int| 0 <= i < bytes@.len() implies bytes@[i] == stream(
                    signal@,
                )[i] by {
                    vstd::arithmetic::div_mod::lemma_fundamental_div_mod(i, 8);
                    assert(0 <= i / 8 < signal@.len());
                }
                assert(bytes@ =~= stream(signal@));
            }
        }
        bytes
    }

    /// Rolls every generator over to its next epoch.
    fn roll_over(&mut self)
        requires
            forall|s: int|
                0 <= s < old(self)@.satellites.len() ==> (#[trigger] old(self)@.satellites[s]).wf(),
        ensures
            final(self)@ == (SimulationModel {
                satellites: Seq::new(
                    old(self)@.satellites.len(),
                    |s: int| old(self)@.satellites[s].advanced(),
                ),
                ..old(self)@
            }),
    {
        let ghost before = self@;
        let count = self.satellites.len();
        let mut s: usize = 0;
        while s < count
            invariant
                s <= count,
                count == before.satellites.len(),
                self.satellites@.len() == count,
                self.total_samples == before.total_samples,
                self.update_interval == before.update_interval,
                self.batch == before.batch,
                self.batches_done == before.batches_done,
                self.epochs_entered == before.epochs_entered,
                forall|j: int| 0 <= j < count ==> (#[trigger] before.satellites[j]).wf(),
                forall|j: int|
                    0 <= j < s ==> (#[trigger] self.satellites@[j])@
                        == before.satellites[j].advanced(),
                forall|j: int|
                    s <= j < count ==> (#[trigger] self.satellites@[j])@ == before.satellites[j],
            decreases count - s,
        {
            assert(before.satellites[s as int].wf());
            self.satellites[s].update();
            s += 1;
        }
        assert(self@.satellites =~= Seq::new(
            before.satellites.len(),
            |s: int| before.satellites[s].advanced(),
        ));
    }
}

/// What has been emitted never exceeds what the run may emit.
pub proof fn lemma_emitted_bound(state: SimulationModel)
    requires
        state.wf(),
    ensures
        state.emitted() <= state.total_samples,
        state.batch_count() * state.batch <= state.total_samples,
        !state.finished() ==> state.emitted() + state.batch <= state.total_samples,
{
    let count = state.batch_count();
    vstd::arithmetic::div_mod::lemma_fundamental_div_mod(
        state.total_samples as int,
        state.batch as int,
    );
    vstd::arithmetic::div_mod::lemma_mod_bound(state.total_samples as int, state.batch as int);
    assert(state.batch * count == count * state.batch) by (nonlinear_arith);
    assert(state.batches_done * state.batch <= count * state.batch) by (nonlinear_arith)
        requires
            state.batches_done <= count,
    ;
    if !state.finished() {
        assert((state.batches_done + 1) * state.batch <= count * state.batch) by (nonlinear_arith)
            requires
                state.batches_done + 1 <= count,
        ;
        assert((state.batches_done + 1) * state.batch == state.batches_done * state.batch
            + state.batch) by (nonlinear_arith);
    }
}

/// The four bytes of a word, least significant first.
pub open spec fn word_bytes(word: u32) -> Seq<u8> {
    seq![
        (word % 256) as u8,
        ((word / 256) % 256) as u8,
        ((word / 65536) % 256) as u8,
        ((word / 16777216) % 256) as u8,
    ]
}

/// The eight bytes of a sample: its real part, then its imaginary part.
pub open spec fn sample_bytes(sample: Complex32) -> Seq<u8> {
    word_bytes(sample_words(sample).0) + word_bytes(sample_words(sample).1)
}

/// The bytes of a signal: those of its samples, in order.
pub open spec fn stream(signal: Seq<Complex32>) -> Seq<u8> {
    Seq::new((8 * signal.len()) as nat, |i: int| sample_bytes(signal[i / 8])[i % 8])
}

/// No sample of `signal` has a part that is not a number.
pub open spec fn numeric(signal: Seq<Complex32>) -> bool {
    forall|i: int| 0 <= i < signal.len() ==> !sample_is_nan(#[trigger] signal[i])
}

/// The bytes of a run: those of its batches, in order.
pub open spec fn run_stream(batches: Seq<Seq<Complex32>>) -> Seq<u8>
    decreases batches.len(),
{
    if batches.len() == 0 {
        Seq::empty()
    } else {
        run_stream(batches.drop_last()) + stream(batches.last())
    }
}

/// Appends the four bytes of `word`, least significant first.
fn push_word(bytes: &mut Vec<u8>, word: u32)
    ensures
        final(bytes)@ == old(bytes)@ + word_bytes(word),
{
    bytes.push((word % 256) as u8);
    bytes.push(((word / 256) % 256) as u8);
    bytes.push(((word / 65536) % 256) as u8);
    bytes.push(((word / 16777216) % 256) as u8);
    assert(bytes@ =~= old(bytes)@ + word_bytes(word));
}

/// Adds the satellites' signals position by position.
fn sum_signals(signals: &Vec<Vec<Complex32>>, batch: usize) -> (composite: Vec<Complex32>)
    requires
        forall|s: int| 0 <= s < signals@.len() ==> (#[trigger] signals@[s])@.len() == batch,
    ensures
        composite@.len() == batch,
        forall|k: int|
            0 <= k < batch ==> #[trigger] composite@[k] == sample_total(
                Seq::new(signals@.len(), |s: int| signals@[s]@[k]),
            ),
{
    let mut composite: Vec<Complex32> = Vec::new();
    let mut k: usize = 0;
    while k < batch
        invariant
            k <= batch,
            forall|s: int| 0 <= s < signals@.len() ==> (#[trigger] signals@[s])@.len() == batch,
            composite@.len() == k,
            forall|j: int|
                0 <= j < k ==> #[trigger] composite@[j] == sample_total(
                    Seq::new(signals@.len(), |s: int| signals@[s]@[j]),
                ),
        decreases batch - k,
    {
        let mut column: Vec<Complex32> = Vec::new();
        let mut s: usize = 0;
        while s < signals.len()
            invariant
                k < batch,
                s <= signals@.len(),
                forall|t: int| 0 <= t < signals@.len() ==> (#[trigger] signals@[t])@.len() == batch,
                column@.len() == s,
                forall|t: int| 0 <= t < s ==> #[trigger] column@[t] == signals@[t]@[k as int],
            decreases signals@.len() - s,
        {
            assert(signals@[s as int]@.len() == batch);
            column.push(signals[s][k]);
            s += 1;
        }
        assert(column@ =~= Seq::new(signals@.len(), |s: int| signals@[s]@[k as int]));
        composite.push(sum_samples(&column));
        k += 1;
    }
    composite
}

/// A batch that the engine accepts before the run is over leaves it well
/// formed, with one batch more emitted. The generators have rolled over
/// exactly if the sample count has crossed an epoch boundary; where a batch is
/// no longer than an epoch, the rollovers so far are the epoch boundaries
/// that the sample count has reached.
pub proof fn lemma_after_batch(state: SimulationModel, inputs: Seq<Seq<SampleInstant>>)
    requires
        state.wf(),
        !state.finished(),
        state.accepts(inputs),
    ensures
        state.after_batch(inputs).wf(),
        state.after_batch(inputs).emitted() == state.emitted() + state.batch,
        state.after_batch(inputs).emitted() <= state.total_samples,
        state.emitted() / state.update_interval <= state.after_batch(inputs).emitted()
            / state.update_interval,
        state.batch <= state.update_interval ==> state.after_batch(inputs).epochs_entered
            == state.after_batch(inputs).emitted() / state.update_interval,
{
    let after = state.after_batch(inputs);
    let before_count = state.emitted() as int;
    let after_count = before_count + state.batch;
    let interval = state.update_interval as int;
    lemma_emitted_bound(state);
    assert((state.batches_done + 1) * state.batch == state.batches_done * state.batch
        + state.batch) by (nonlinear_arith);
    vstd::arithmetic::div_mod::lemma_div_is_ordered(before_count, after_count, interval);
    if state.batch <= state.update_interval {
        vstd::arithmetic::div_mod::lemma_div_is_ordered(
            after_count,
            before_count + interval,
            interval,
        );
        vstd::arithmetic::div_mod::lemma_div_plus_one(before_count, interval);
    }
    assert forall|s: int| 0 <= s < after.satellites.len() implies {
        &&& (#[trigger] after.satellites[s]).wf()
        &&& after.satellites[s].at_epoch(after.epochs_entered)
    } by {
        let old_state = state.satellites[s];
        assert(old_state.wf());
        let epochs = old_state.satellite.delay.len() as int;
        vstd::arithmetic::div_mod::lemma_add_mod_noop_right(
            1,
            1 + state.epochs_entered as int,
            epochs,
        );
        vstd::arithmetic::div_mod::lemma_mod_bound(old_state.delay_idx + 1, epochs);
        vstd::arithmetic::div_mod::lemma_mod_twice(1 + state.epochs_entered as int, epochs);
    }
}

/// Where a batch is no longer than an epoch, every generator stands at the
/// epoch that the sample count has reached. So once exactly one epoch's
/// worth of samples has been emitted, the epoch pointer has advanced by one,
/// the current delay is that of the second epoch and the previous delay that
/// of the first.
pub proof fn lemma_epoch_of_sample_count(state: SimulationModel, s: int)
    requires
        state.wf(),
        state.batch <= state.update_interval,
        0 <= s < state.satellites.len(),
    ensures
        state.satellites[s].at_epoch(state.emitted() / state.update_interval),
        state.emitted() == state.update_interval ==> {
            &&& state.satellites[s].delay_idx == pointer_after(
                1,
                state.satellites[s].satellite.delay.len(),
            )
            &&& state.satellites[s].delay == cyclic(state.satellites[s].satellite.delay, 1)
            &&& state.satellites[s].ref_delay == cyclic(state.satellites[s].satellite.delay, 0)
        },
{
    assert(state.satellites[s].at_epoch(state.epochs_entered));
    if state.emitted() == state.update_interval {
        vstd::arithmetic::div_mod::lemma_div_basics(state.update_interval as int);
    }
}

/// A run that is no longer than a trajectory without its last epoch never
/// wraps round that trajectory: the generator's current epoch lies inside it
/// and is read as it stands.
pub proof fn lemma_run_within_trajectory(state: SimulationModel, s: int)
    requires
        state.wf(),
        0 <= s < state.satellites.len(),
        state.total_samples <= (state.satellites[s].satellite.delay.len() - 1)
            * state.update_interval,
    ensures
        state.epochs_entered < state.satellites[s].satellite.delay.len(),
        state.satellites[s].delay == state.satellites[s].satellite.delay[state.epochs_entered as int],
        state.satellites[s].elevation
            == state.satellites[s].satellite.elevation[state.epochs_entered as int],
{
    let generator = state.satellites[s];
    let epochs = generator.satellite.delay.len() as int;
    let interval = state.update_interval as int;
    assert(generator.wf());
    assert(generator.at_epoch(state.epochs_entered));
    lemma_emitted_bound(state);
    vstd::arithmetic::div_mod::lemma_div_is_ordered(
        state.emitted() as int,
        (epochs - 1) * interval,
        interval,
    );
    vstd::arithmetic::div_mod::lemma_div_multiples_vanish(epochs - 1, interval);
    vstd::arithmetic::div_mod::lemma_small_mod(state.epochs_entered, epochs as nat);
}

/// Two generators in the same state that are given the same instants give
/// the same samples: the composite of an engine that holds just these two is,
/// at each position, one generator's sample added to zero and then added
/// once more.
pub proof fn lemma_twin_composite(state: SimulationModel, inputs: Seq<Seq<SampleInstant>>, k: int)
    requires
        state.satellites.len() == 2,
        state.satellites[0] == state.satellites[1],
        inputs.len() == 2,
        inputs[0] == inputs[1],
        0 <= k < state.batch,
    ensures
        state.composite(inputs)[k] == sample_sum(
            sample_sum(sample_of(0), state.satellites[0].sample(inputs[0][k])),
            state.satellites[0].sample(inputs[0][k]),
        ),
{
    let sample = state.satellites[0].sample(inputs[0][k]);
    let column = state.column(inputs, k);
    assert(column =~= seq![sample, sample]);
    assert(column.drop_last() =~= seq![sample]);
    assert(column.drop_last().drop_last() =~= Seq::<Complex32>::empty());
    assert(sample_total(column.drop_last().drop_last()) == sample_of(0));
    assert(sample_total(column.drop_last()) == sample_sum(sample_of(0), sample));
}

/// The composite of an engine with a single generator is, at each position,
/// that generator's sample added to zero.
pub proof fn lemma_lone_composite(state: SimulationModel, inputs: Seq<Seq<SampleInstant>>, k: int)
    requires
        state.satellites.len() == 1,
        inputs.len() == 1,
        0 <= k < state.batch,
    ensures
        state.composite(inputs)[k] == sample_sum(
            sample_of(0),
            state.satellites[0].sample(inputs[0][k]),
        ),
{
    let sample = state.satellites[0].sample(inputs[0][k]);
    let column = state.column(inputs, k);
    assert(column =~= seq![sample]);
    assert(column.drop_last() =~= Seq::<Complex32>::empty());
    assert(sample_total(column.drop_last()) == sample_of(0));
}

/// A finished run has emitted as many samples as its whole batches hold, and
/// fewer than a batch's worth are left over.
pub proof fn lemma_finished_run(state: SimulationModel)
    requires
        state.wf(),
        state.finished(),
    ensures
        state.emitted() == state.batch_count() * state.batch,
        state.total_samples - state.emitted() < state.batch,
{
    vstd::arithmetic::div_mod::lemma_fundamental_div_mod(
        state.total_samples as int,
        state.batch as int,
    );
    vstd::arithmetic::div_mod::lemma_mod_bound(state.total_samples as int, state.batch as int);
    assert(state.batch * state.batch_count() == state.batch_count() * state.batch)
        by (nonlinear_arith);
}

/// The stream of a run of batches of `batch` samples each has eight bytes for
/// every sample.
pub proof fn lemma_run_stream_len(batches: Seq<Seq<Complex32>>, batch: nat)
    requires
        forall|i: int| 0 <= i < batches.len() ==> (#[trigger] batches[i]).len() == batch,
    ensures
        run_stream(batches).len() == 8 * (batches.len() * batch),
    decreases batches.len(),
{
    if batches.len() > 0 {
        lemma_run_stream_len(batches.drop_last(), batch);
        assert(batches.last().len() == batch);
        assert(batches.len() * batch == (batches.len() - 1) * batch + batch) by (nonlinear_arith);
    } else {
        assert(batches.len() * batch == 0) by (nonlinear_arith)
            requires
                batches.len() == 0,
        ;
    }
}

} // verus!
