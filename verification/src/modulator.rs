//! The bit-to-sample modulation engine.
//!
//! One call produces one output sample: when the current symbol is finished
//! the engine pulls the next bit of the loaded buffer (or reports clean
//! exhaustion), scales the carrier-table entry under the phase cursor by the
//! gain selected by that bit, then advances the symbol counter modulo
//! `repeats` and the phase cursor by `stride` modulo `samples`. The phase
//! cursor is never reset on a bit transition or a reload, so the emitted
//! waveform stays continuous across symbol and buffer boundaries.
//!
//! The whole production is pinned down by one spec function,
//! [`sample_value`]: sample number `k` of a drain is the table entry at
//! `phase_at(start, stride, samples, k)` scaled by the gain of bit
//! `k / repeats`, and a drain of an `N`-bit buffer emits exactly
//! `N * repeats` samples.

use vstd::prelude::*;
use vstd::arithmetic::div_mod::{
    lemma_add_mod_noop, lemma_add_mod_noop_right, lemma_fundamental_div_mod,
    lemma_fundamental_div_mod_converse, lemma_mod_bound, lemma_mod_multiples_basic,
    lemma_mod_self_0, lemma_small_mod,
};

use crate::bits::{bit_at, bit_of, num_bits};
use crate::carrier::{carrier_value, CarrierTable, DEFAULT_AMPLITUDE};
use crate::config::{Config, GAIN_UNIT};
use crate::error::ModemResult;
use crate::math::phase_at;

verus! {

/// Fixed-point scaling of a table amplitude by `gain / GAIN_UNIT`,
/// quantized toward zero.
pub open spec fn scale_amplitude(v: int, gain: int) -> int
    recommends
        0 <= gain <= GAIN_UNIT,
{
    if v >= 0 {
        (v * gain) / (GAIN_UNIT as int)
    } else {
        -(((-v) * gain) / (GAIN_UNIT as int))
    }
}

/// Total samples a drain of `data` emits: `repeats` per bit.
pub open spec fn total_samples(cfg: Config, data: Seq<u8>) -> int {
    num_bits(data) * cfg.repeats as int
}

/// Output sample number `k` (counted from the start of a drain) of buffer
/// `data`, for a drain begun at phase `start`.
pub open spec fn sample_value(cfg: Config, table: Seq<i16>, start: int, data: Seq<u8>, k: int) -> int
    recommends
        cfg.valid(),
        table.len() == cfg.samples,
        0 <= start < cfg.samples,
        0 <= k < total_samples(cfg, data),
{
    let gain = if bit_of(data, k / cfg.repeats as int) {
        cfg.hi_gain as int
    } else {
        cfg.lo_gain as int
    };
    scale_amplitude(table[phase_at(start, cfg.stride as int, cfg.samples as int, k)] as int, gain)
}

/// How many bits have been pulled once `k` samples are out: one per started
/// symbol of `repeats` samples.
pub open spec fn pulled_of(k: int, repeats: int) -> int
    recommends
        1 <= repeats,
        0 <= k,
{
    k / repeats + if k % repeats == 0 {
        0int
    } else {
        1int
    }
}

/// Scales one table amplitude by a fixed-point gain.
fn scale_sample(v: i16, gain: u32) -> (r: i16)
    requires
        gain <= GAIN_UNIT,
    ensures
        r as int == scale_amplitude(v as int, gain as int),
{
    let mag: u32 = if v < 0 {
        (-(v as i32)) as u32
    } else {
        v as u32
    };
    proof {
        assert(mag * gain <= 32768 * 1000) by (nonlinear_arith)
            requires
                mag <= 32768,
                gain <= 1000,
        ;
    }
    let q: u32 = (mag * gain) / GAIN_UNIT;
    proof {
        assert(mag * gain <= mag * 1000) by (nonlinear_arith)
            requires
                gain <= 1000,
                0 <= mag,
        ;
        vstd::arithmetic::div_mod::lemma_div_is_ordered(
            (mag * gain) as int,
            (mag * 1000) as int,
            1000,
        );
        vstd::arithmetic::div_mod::lemma_div_by_multiple(mag as int, 1000);
        assert(mag * 1000 == 1000 * mag) by (nonlinear_arith);
        assert(q <= mag);
    }
    if v < 0 {
        (-(q as i32)) as i16
    } else {
        q as i16
    }
}

/// Mutable state of one in-progress modulation. The exec fields mirror the
/// engine registers; the ghost fields record how many samples are out and
/// where the phase cursor stood when the buffer was loaded, which is all the
/// contracts need to pin every register down.
pub struct ModulatorState {
    /// Index into the carrier table.
    pub phase: usize,
    /// Samples already emitted for the current bit, counted modulo `repeats`.
    pub countdown: usize,
    /// The last bit pulled from the stream.
    pub hold: bool,
    /// Bits pulled from the stream so far.
    pub bits_pulled: usize,
    /// Samples emitted since the buffer was loaded.
    pub produced: Ghost<int>,
    /// The phase cursor at load time.
    pub start_phase: Ghost<int>,
}

impl ModulatorState {
    /// Every register is the value the production algorithm reaches after
    /// `produced` samples: the phase cursor has advanced `produced` strides
    /// from `start_phase`, the symbol counter is `produced` modulo
    /// `repeats`, one bit has been pulled per started symbol, and mid-symbol
    /// the held bit is the one governing the next sample.
    pub open spec fn wf(self, cfg: Config, data: Seq<u8>) -> bool {
        let k = self.produced@;
        let r = cfg.repeats as int;
        let n = cfg.samples as int;
        &&& cfg.valid()
        &&& data.len() * 8 <= usize::MAX
        &&& 0 <= self.start_phase@ < n
        &&& 0 <= k <= total_samples(cfg, data)
        &&& self.phase < cfg.samples
        &&& self.phase == phase_at(self.start_phase@, cfg.stride as int, n, k)
        &&& self.countdown < cfg.repeats
        &&& self.countdown == k % r
        &&& self.bits_pulled <= data.len() * 8
        &&& self.bits_pulled == pulled_of(k, r)
        &&& (k % r != 0 ==> self.hold == bit_of(data, k / r))
    }

    /// The state of a freshly loaded buffer: nothing produced, nothing
    /// pulled, phase cursor wherever it already stood.
    pub fn reset_for_load(&mut self)
        ensures
            final(self).phase == old(self).phase,
            final(self).countdown == 0,
            final(self).hold == false,
            final(self).bits_pulled == 0,
            final(self).produced@ == 0,
            final(self).start_phase@ == old(self).phase as int,
    {
        self.countdown = 0;
        self.hold = false;
        self.bits_pulled = 0;
        proof {
            self.produced@ = 0;
            self.start_phase@ = self.phase as int;
        }
    }
}

/// How division and remainder by `r` move when the dividend grows by one.
proof fn lemma_div_mod_succ(k: int, r: int)
    requires
        0 <= k,
        1 <= r,
    ensures
        k % r + 1 == r ==> ((k + 1) % r == 0 && (k + 1) / r == k / r + 1),
        k % r + 1 < r ==> ((k + 1) % r == k % r + 1 && (k + 1) / r == k / r),
{
    lemma_mod_bound(k, r);
    lemma_fundamental_div_mod(k, r);
    if k % r + 1 == r {
        assert(k + 1 == (k / r + 1) * r) by (nonlinear_arith)
            requires
                k == r * (k / r) + k % r,
                k % r + 1 == r,
        ;
        lemma_fundamental_div_mod_converse(k + 1, r, k / r + 1, 0);
    } else {
        assert(k + 1 == (k / r) * r + (k % r + 1)) by (nonlinear_arith)
            requires
                k == r * (k / r) + k % r,
        ;
        lemma_fundamental_div_mod_converse(k + 1, r, k / r, k % r + 1);
    }
}

/// A multiple of `r` relates to the bit count it stands for.
proof fn lemma_symbol_boundary(k: int, r: int, nbits: int)
    requires
        1 <= r,
        0 <= k,
        k % r == 0,
        0 <= nbits,
    ensures
        k / r == nbits ==> k == nbits * r,
        k / r < nbits ==> k < nbits * r,
        k == nbits * r ==> k / r == nbits,
{
    lemma_fundamental_div_mod(k, r);
    assert(k == r * (k / r));
    if k / r == nbits {
        assert(r * (k / r) == nbits * r) by (nonlinear_arith)
            requires
                k / r == nbits,
        ;
    }
    if k / r < nbits {
        assert(r * (k / r) < nbits * r) by (nonlinear_arith)
            requires
                k / r < nbits,
                1 <= r,
        ;
    }
    if k == nbits * r {
        lemma_fundamental_div_mod_converse(k, r, nbits, 0);
    }
}

/// Produces the next output sample of `data`, or reports exhaustion.
///
/// Exhaustion (`None`) happens exactly when all `total_samples` are out;
/// otherwise the emitted sample is `sample_value` at the current count, and
/// only the registers the algorithm touches move.
pub fn produce(st: &mut ModulatorState, cfg: &Config, table: &CarrierTable, data: &[u8]) -> (out:
    Option<i16>)
    requires
        old(st).wf(*cfg, data@),
        table.wf(),
        table@.len() == cfg.samples,
    ensures
        final(st).wf(*cfg, data@),
        final(st).start_phase@ == old(st).start_phase@,
        out is None <==> old(st).produced@ == total_samples(*cfg, data@),
        out is None ==> *final(st) == *old(st),
        out is Some ==> final(st).produced@ == old(st).produced@ + 1,
        out is Some ==> out->0 as int == sample_value(
            *cfg,
            table@,
            old(st).start_phase@,
            data@,
            old(st).produced@,
        ),
{
    let ghost k = st.produced@;
    let ghost r = cfg.repeats as int;
    let ghost n = cfg.samples as int;
    let ghost s = cfg.stride as int;
    let ghost nbits = num_bits(data@);
    proof {
        lemma_mod_bound(k, r);
        lemma_mod_multiples_basic(nbits, r);
        lemma_symbol_boundary(nbits * r, r, nbits);
    }
    if st.countdown == 0 {
        proof {
            lemma_symbol_boundary(k, r, nbits);
        }
        if st.bits_pulled == data.len() * 8 {
            // bits_pulled == pulled_of(k, r) == k / r == nbits, so k == total
            return None;
        }
        // k / r < nbits, so sample k exists and needs bit k / r
        let b = bit_at(data, st.bits_pulled);
        st.hold = b;
        st.bits_pulled = st.bits_pulled + 1;
    } else {
        proof {
            // k % r != 0 while total % r == 0, so k != total
            assert(k != nbits * r);
        }
    }
    let gain = if st.hold {
        cfg.hi_gain
    } else {
        cfg.lo_gain
    };
    let v = table.get(st.phase);
    let sample = scale_sample(v, gain);
    st.countdown = (st.countdown + 1) % cfg.repeats;
    st.phase = (st.phase + cfg.stride) % cfg.samples;
    proof {
        st.produced@ = k + 1;
        lemma_div_mod_succ(k, r);
        if k % r + 1 == r {
            lemma_mod_self_0(r);
        } else {
            lemma_small_mod((k % r + 1) as nat, r as nat);
        }
        // the phase cursor advanced one stride
        let x = old(st).start_phase@ + k * s;
        lemma_add_mod_noop_right(x % n, s, n);
        lemma_add_mod_noop(x, s, n);
        assert((k + 1) * s == k * s + s) by (nonlinear_arith);
        lemma_mod_bound(x + s, n);
    }
    Some(sample)
}

/// Zero-copy modulation engine over a borrowed byte buffer.
///
/// A finite, non-restartable generator: each call of [`WaveGenerator::next`]
/// emits one sample until every bit of the buffer has run for `repeats`
/// samples, after which it reports exhaustion forever.
pub struct WaveGenerator<'a> {
    data: &'a [u8],
    config: Config,
    table: CarrierTable,
    state: ModulatorState,
}

impl<'a> WaveGenerator<'a> {
    /// The configuration the engine was built with.
    pub closed spec fn spec_config(self) -> Config {
        self.config
    }

    /// The carrier table the engine reads.
    pub closed spec fn spec_table(self) -> Seq<i16> {
        self.table@
    }

    /// The borrowed bytes being modulated.
    pub closed spec fn spec_data(self) -> Seq<u8> {
        self.data@
    }

    /// Samples emitted so far.
    pub closed spec fn produced(self) -> int {
        self.state.produced@
    }

    /// The phase cursor at construction time.
    pub closed spec fn start_phase(self) -> int {
        self.state.start_phase@
    }

    /// The current phase cursor.
    pub closed spec fn phase(self) -> int {
        self.state.phase as int
    }

    /// A healthy engine: valid configuration, matching carrier table, and
    /// registers consistent with the number of samples emitted.
    pub closed spec fn wf(self) -> bool {
        &&& self.config.valid()
        &&& self.table.wf()
        &&& self.table@.len() == self.config.samples
        &&& self.state.wf(self.config, self.data@)
    }

    /// Samples this engine emits in total when drained.
    pub open spec fn total(self) -> int {
        total_samples(self.spec_config(), self.spec_data())
    }

    /// The value of output sample number `k` of the drain.
    pub open spec fn spec_sample(self, k: int) -> int {
        sample_value(self.spec_config(), self.spec_table(), self.start_phase(), self.spec_data(), k)
    }

    /// An engine over `data` with an explicit configuration; rejects
    /// exactly the invalid configurations. The carrier table is built at
    /// full signed 16-bit amplitude.
    pub fn with_config(data: &'a [u8], config: Config) -> (r: ModemResult<WaveGenerator<'a>>)
        requires
            data@.len() * 8 <= usize::MAX,
        ensures
            r is Ok <==> config.valid(),
            r is Err ==> r->Err_0 is InvalidParameter,
            r is Ok ==> {
                let g = r->Ok_0;
                &&& g.wf()
                &&& g.spec_config() == config
                &&& g.spec_data() == data@
                &&& g.produced() == 0
                &&& g.start_phase() == 0
                &&& g.phase() == 0
                &&& forall|i: int|
                    0 <= i < config.samples ==> g.spec_table()[i] == carrier_value(
                        i,
                        config.samples as int,
                        DEFAULT_AMPLITUDE as int,
                    )
            },
    {
        match config.validate() {
            Ok(_) => {
                let table = CarrierTable::build_unchecked(config.samples, DEFAULT_AMPLITUDE);
                let state = ModulatorState {
                    phase: 0,
                    countdown: 0,
                    hold: false,
                    bits_pulled: 0,
                    produced: Ghost(0),
                    start_phase: Ghost(0),
                };
                proof {
                    lemma_small_mod(0, config.samples as nat);
                    assert(state.wf(config, data@));
                }
                Ok(WaveGenerator { data, config, table, state })
            },
            Err(e) => Err(e),
        }
    }

    /// An engine over `data` with the stock configuration.
    pub fn new(data: &'a [u8]) -> (g: WaveGenerator<'a>)
        requires
            data@.len() * 8 <= usize::MAX,
        ensures
            g.wf(),
            g.spec_config() == Config::default_spec(),
            g.spec_data() == data@,
            g.produced() == 0,
            g.start_phase() == 0,
            g.phase() == 0,
            forall|i: int|
                0 <= i < g.spec_config().samples ==> g.spec_table()[i] == carrier_value(
                    i,
                    g.spec_config().samples as int,
                    DEFAULT_AMPLITUDE as int,
                ),
    {
        let config = Config::default();
        match Self::with_config(data, config) {
            Ok(g) => g,
            Err(_) => vstd::pervasive::unreached(),
        }
    }

    /// The next output sample, or `None` once the drain is complete.
    pub fn next(&mut self) -> (out: Option<i16>)
        requires
            old(self).wf(),
        ensures
            final(self).wf(),
            final(self).spec_config() == old(self).spec_config(),
            final(self).spec_table() == old(self).spec_table(),
            final(self).spec_data() == old(self).spec_data(),
            final(self).start_phase() == old(self).start_phase(),
            out is None <==> old(self).produced() == old(self).total(),
            out is None ==> final(self).produced() == old(self).produced() && final(self).phase()
                == old(self).phase(),
            out is Some ==> final(self).produced() == old(self).produced() + 1,
            out is Some ==> out->0 as int == old(self).spec_sample(old(self).produced()),
    {
        produce(&mut self.state, &self.config, &self.table, self.data)
    }
}

/// A single-byte modulation engine that fills caller-supplied buffers.
///
/// [`ByteModulator::load`] stages one byte and resets the symbol state but —
/// by design — leaves the phase cursor wherever the previous byte left it,
/// so consecutive bytes produce one continuous waveform.
pub struct ByteModulator {
    config: Config,
    table: CarrierTable,
    data: Vec<u8>,
    state: ModulatorState,
}

impl ByteModulator {
    /// The configuration the engine was built with.
    pub closed spec fn spec_config(self) -> Config {
        self.config
    }

    /// The carrier table the engine reads.
    pub closed spec fn spec_table(self) -> Seq<i16> {
        self.table@
    }

    /// The byte currently loaded.
    pub closed spec fn spec_byte(self) -> u8 {
        self.data@[0]
    }

    /// Samples emitted since the byte was loaded.
    pub closed spec fn produced(self) -> int {
        self.state.produced@
    }

    /// The phase cursor when the byte was loaded.
    pub closed spec fn start_phase(self) -> int {
        self.state.start_phase@
    }

    /// The current phase cursor.
    pub closed spec fn phase(self) -> int {
        self.state.phase as int
    }

    /// A healthy engine: valid configuration, matching carrier table, one
    /// staged byte, registers consistent with the sample count.
    pub closed spec fn wf(self) -> bool {
        &&& self.config.valid()
        &&& self.table.wf()
        &&& self.table@.len() == self.config.samples
        &&& self.data@.len() == 1
        &&& self.state.wf(self.config, self.data@)
    }

    /// Samples one loaded byte yields when drained: `repeats` per bit.
    pub open spec fn total(self) -> int {
        8 * self.spec_config().repeats as int
    }

    /// The value of output sample number `k` of the loaded byte's drain.
    pub open spec fn spec_sample(self, k: int) -> int {
        sample_value(
            self.spec_config(),
            self.spec_table(),
            self.start_phase(),
            seq![self.spec_byte()],
            k,
        )
    }

    /// Stages a new byte and resets the symbol state; the phase cursor
    /// picks up where the previous drain left it.
    pub fn load(&mut self, byte: u8)
        requires
            old(self).wf(),
        ensures
            final(self).wf(),
            final(self).spec_config() == old(self).spec_config(),
            final(self).spec_table() == old(self).spec_table(),
            final(self).spec_byte() == byte,
            final(self).produced() == 0,
            final(self).phase() == old(self).phase(),
            final(self).start_phase() == old(self).phase(),
    {
        self.data.set(0, byte);
        self.state.reset_for_load();
        proof {
            lemma_small_mod(self.state.phase as nat, self.config.samples as nat);
            assert(self.state.wf(self.config, self.data@));
        }
    }

    /// Fills `buffer` from the front with the next samples of the loaded
    /// byte: as many as the buffer holds or the drain still owes, whichever
    /// is smaller. Returns how many buffer slots stayed untouched; `0`
    /// means the buffer was filled completely.
    pub fn fill(&mut self, buffer: &mut Vec<i16>) -> (unfilled: usize)
        requires
            old(self).wf(),
        ensures
            final(self).wf(),
            final(self).spec_config() == old(self).spec_config(),
            final(self).spec_table() == old(self).spec_table(),
            final(self).spec_byte() == old(self).spec_byte(),
            final(self).start_phase() == old(self).start_phase(),
            final(buffer)@.len() == old(buffer)@.len(),
            ({
                let filled = if old(buffer)@.len() as int <= old(self).total() - old(
                    self,
                ).produced() {
                    old(buffer)@.len() as int
                } else {
                    old(self).total() - old(self).produced()
                };
                &&& unfilled == old(buffer)@.len() - filled
                &&& final(self).produced() == old(self).produced() + filled
                &&& forall|t: int|
                    0 <= t < filled ==> #[trigger] final(buffer)@[t] as int == old(
                        self,
                    ).spec_sample(old(self).produced() + t)
                &&& forall|t: int|
                    filled <= t < old(buffer)@.len() ==> final(buffer)@[t] == old(buffer)@[t]
            }),
    {
        proof {
            assert(self.data@ =~= seq![self.spec_byte()]);
        }
        let mut i: usize = 0;
        while i < buffer.len()
            invariant_except_break
                i <= buffer@.len(),
                buffer@.len() == old(buffer)@.len(),
                self.config == old(self).config,
                self.table == old(self).table,
                self.data == old(self).data,
                self.data@.len() == 1,
                self.table.wf(),
                self.table@.len() == self.config.samples,
                self.state.wf(self.config, self.data@),
                self.state.start_phase@ == old(self).state.start_phase@,
                self.state.produced@ == old(self).state.produced@ + i,
                forall|t: int|
                    0 <= t < i ==> #[trigger] buffer@[t] as int == sample_value(
                        self.config,
                        self.table@,
                        self.state.start_phase@,
                        self.data@,
                        old(self).state.produced@ + t,
                    ),
                forall|t: int| i <= t < buffer@.len() ==> buffer@[t] == old(buffer)@[t],
            ensures
                i <= buffer@.len(),
                buffer@.len() == old(buffer)@.len(),
                self.config == old(self).config,
                self.table == old(self).table,
                self.data == old(self).data,
                self.state.wf(self.config, self.data@),
                self.state.start_phase@ == old(self).state.start_phase@,
                self.state.produced@ == old(self).state.produced@ + i,
                i == buffer@.len() || self.state.produced@ == total_samples(
                    self.config,
                    self.data@,
                ),
                forall|t: int|
                    0 <= t < i ==> #[trigger] buffer@[t] as int == sample_value(
                        self.config,
                        self.table@,
                        self.state.start_phase@,
                        self.data@,
                        old(self).state.produced@ + t,
                    ),
                forall|t: int| i <= t < buffer@.len() ==> buffer@[t] == old(buffer)@[t],
            decreases buffer@.len() - i,
        {
            match produce(&mut self.state, &self.config, &self.table, self.data.as_slice()) {
                Some(v) => {
                    buffer.set(i, v);
                    i = i + 1;
                },
                None => {
                    break ;
                },
            }
        }
        proof {
            assert(self.data@ =~= seq![self.spec_byte()]);
        }
        buffer.len() - i
    }
}

impl Default for ByteModulator {
    /// An engine with the stock configuration, byte `0` staged, and the
    /// phase cursor at the table's first entry.
    fn default() -> (m: ByteModulator)
        ensures
            m.wf(),
            m.spec_config() == Config::default_spec(),
            m.spec_byte() == 0,
            m.produced() == 0,
            m.phase() == 0,
            m.start_phase() == 0,
            forall|i: int|
                0 <= i < m.spec_config().samples ==> m.spec_table()[i] == carrier_value(
                    i,
                    m.spec_config().samples as int,
                    DEFAULT_AMPLITUDE as int,
                ),
    {
        let config = Config::default();
        let table = CarrierTable::build_unchecked(config.samples, DEFAULT_AMPLITUDE);
        let mut data: Vec<u8> = Vec::new();
        data.push(0);
        let state = ModulatorState {
            phase: 0,
            countdown: 0,
            hold: false,
            bits_pulled: 0,
            produced: Ghost(0),
            start_phase: Ghost(0),
        };
        proof {
            lemma_small_mod(0, config.samples as nat);
            assert(state.wf(config, data@));
        }
        ByteModulator { config, table, data, state }
    }
}

/// A pair of pre-scaled carrier frames, one per bit value.
///
/// Where the streaming engines scale each sample as it is produced, this
/// engine precomputes one full carrier period at the high gain and one at
/// the low gain, and hands out the frame matching a bit.
pub struct BitModulator {
    config: Config,
    amplitude: i16,
    hi: Vec<i16>,
    lo: Vec<i16>,
}

impl BitModulator {
    /// The configuration the frames were built with.
    pub closed spec fn spec_config(self) -> Config {
        self.config
    }

    /// The peak amplitude the frames were built for.
    pub closed spec fn spec_amplitude(self) -> i16 {
        self.amplitude
    }

    /// The high-gain frame.
    pub closed spec fn spec_hi(self) -> Seq<i16> {
        self.hi@
    }

    /// The low-gain frame.
    pub closed spec fn spec_lo(self) -> Seq<i16> {
        self.lo@
    }

    /// Both frames hold one full carrier period scaled by their gain.
    pub closed spec fn wf(self) -> bool {
        &&& self.config.valid()
        &&& 0 <= self.amplitude
        &&& self.hi@.len() == self.config.samples
        &&& self.lo@.len() == self.config.samples
        &&& forall|i: int|
            0 <= i < self.config.samples ==> #[trigger] self.hi@[i] as int == scale_amplitude(
                carrier_value(i, self.config.samples as int, self.amplitude as int),
                self.config.hi_gain as int,
            )
        &&& forall|i: int|
            0 <= i < self.config.samples ==> #[trigger] self.lo@[i] as int == scale_amplitude(
                carrier_value(i, self.config.samples as int, self.amplitude as int),
                self.config.lo_gain as int,
            )
    }

    /// Builds the two frames; rejects exactly the invalid configurations
    /// and a negative peak amplitude.
    pub fn new(config: Config, amplitude: i16) -> (r: ModemResult<BitModulator>)
        ensures
            r is Ok <==> (config.valid() && amplitude >= 0),
            r is Err ==> r->Err_0 is InvalidParameter,
            r is Ok ==> {
                let m = r->Ok_0;
                &&& m.wf()
                &&& m.spec_config() == config
                &&& m.spec_amplitude() == amplitude
            },
    {
        match config.validate() {
            Ok(_) => {
                if amplitude < 0 {
                    return Err(
                        crate::error::ModemError::InvalidParameter(
                            "amplitude must be non-negative".to_owned(),
                        ),
                    );
                }
                let table = CarrierTable::build_unchecked(config.samples, amplitude);
                let mut hi: Vec<i16> = Vec::new();
                let mut lo: Vec<i16> = Vec::new();
                let mut i: usize = 0;
                while i < config.samples
                    invariant
                        i <= config.samples,
                        config.valid(),
                        0 <= amplitude,
                        table.wf(),
                        table@.len() == config.samples,
                        table.spec_amplitude() == amplitude,
                        hi@.len() == i,
                        lo@.len() == i,
                        forall|t: int|
                            0 <= t < i ==> #[trigger] hi@[t] as int == scale_amplitude(
                                carrier_value(t, config.samples as int, amplitude as int),
                                config.hi_gain as int,
                            ),
                        forall|t: int|
                            0 <= t < i ==> #[trigger] lo@[t] as int == scale_amplitude(
                                carrier_value(t, config.samples as int, amplitude as int),
                                config.lo_gain as int,
                            ),
                    decreases config.samples - i,
                {
                    let v = table.get(i);
                    hi.push(scale_sample(v, config.hi_gain));
                    lo.push(scale_sample(v, config.lo_gain));
                    i = i + 1;
                }
                Ok(BitModulator { config, amplitude, hi, lo })
            },
            Err(e) => Err(e),
        }
    }

    /// The carrier frame encoding one bit: the high-gain frame for a one,
    /// the low-gain frame for a zero.
    pub fn signal(&self, bit: bool) -> (wave: &Vec<i16>)
        requires
            self.wf(),
        ensures
            wave@ == (if bit {
                self.spec_hi()
            } else {
                self.spec_lo()
            }),
    {
        if bit {
            &self.hi
        } else {
            &self.lo
        }
    }
}

impl Default for BitModulator {
    /// Frames for the stock configuration at full signed 16-bit amplitude.
    fn default() -> (m: BitModulator)
        ensures
            m.wf(),
            m.spec_config() == Config::default_spec(),
            m.spec_amplitude() == DEFAULT_AMPLITUDE,
    {
        let config = Config::default();
        match BitModulator::new(config, DEFAULT_AMPLITUDE) {
            Ok(m) => m,
            Err(_) => vstd::pervasive::unreached(),
        }
    }
}

/// Phase continuity across symbol boundaries: after equally many samples,
/// two engines that share a configuration and starting phase stand at the
/// same phase cursor, whatever bytes each one drains — a bit transition
/// never resets or perturbs the cursor.
pub proof fn lemma_phase_continuity<'a, 'b>(g1: WaveGenerator<'a>, g2: WaveGenerator<'b>)
    requires
        g1.wf(),
        g2.wf(),
        g1.spec_config() == g2.spec_config(),
        g1.start_phase() == g2.start_phase(),
        g1.produced() == g2.produced(),
    ensures
        g1.phase() == g2.phase(),
{
}

} // verus!
