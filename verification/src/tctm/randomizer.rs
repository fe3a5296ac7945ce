//! Link randomization sequences: three fixed pseudorandom byte sequences,
//! each generated by a linear feedback shift register run for its full
//! period, one output bit per step packed MSB-first into bytes.
use vstd::prelude::*;

verus! {

/// Selects one of the three standard randomization sequences.
#[derive(Clone, Copy, Debug, PartialEq, Eq, Structural)]
pub enum Randomization {
    /// TeleCommand randomizer: 8-bit register, taps for
    /// h(x) = x^8 + x^6 + x^4 + x^3 + x^2 + x + 1, period 255 bytes.
    TC,
    /// Legacy telemetry randomizer: 8-bit register, taps for
    /// h(x) = x^8 + x^7 + x^5 + x^3 + 1, period 255 bytes.
    Tm255,
    /// Recommended telemetry randomizer: 17-bit register, taps for
    /// h(x) = x^17 + x^14 + 1, period 131071 bytes.
    Tm131071,
}

impl Randomization {
    /// The register's initial value.
    pub open spec fn spec_init(self) -> u32 {
        match self {
            Randomization::TC => 0xFF,
            Randomization::Tm255 => 0xFF,
            Randomization::Tm131071 => 0x18E38,
        }
    }

    /// The length of the generated sequence in bytes.
    pub open spec fn spec_period(self) -> nat {
        match self {
            Randomization::TC => 255,
            Randomization::Tm255 => 255,
            Randomization::Tm131071 => 131071,
        }
    }

    /// One register step: shift right by one and insert the XOR of the
    /// tapped bits at the top (bit width minus one).
    pub open spec fn spec_step(self, r: u32) -> u32 {
        match self {
            Randomization::TC => (r >> 1) | (((r ^ (r >> 1) ^ (r >> 2) ^ (r >> 3) ^ (r >> 4) ^ (r
                >> 6)) & 1) << 7),
            Randomization::Tm255 => (r >> 1) | (((r ^ (r >> 3) ^ (r >> 5) ^ (r >> 7)) & 1) << 7),
            Randomization::Tm131071 => (r >> 1) | (((r ^ (r >> 14)) & 1) << 16),
        }
    }

    /// The register's value after `n` bit steps.
    pub open spec fn spec_state(self, n: nat) -> u32
        decreases n,
    {
        if n == 0 {
            self.spec_init()
        } else {
            self.spec_step(self.spec_state((n - 1) as nat))
        }
    }

    /// The first `k` output bits of byte `j`, packed MSB-first: each step
    /// appends the register's bit 0.
    pub open spec fn spec_partial_byte(self, j: nat, k: nat) -> u8
        decreases k,
    {
        if k == 0 {
            0
        } else {
            (self.spec_partial_byte(j, (k - 1) as nat) << 1) | ((self.spec_state(
                8 * j + (k - 1) as nat,
            ) & 1) as u8)
        }
    }

    /// Byte `j` of the generated sequence.
    pub open spec fn spec_byte(self, j: nat) -> u8 {
        self.spec_partial_byte(j, 8)
    }

    /// The full generated sequence, one period long.
    pub open spec fn spec_sequence(self) -> Seq<u8> {
        Seq::new(self.spec_period(), |j: int| self.spec_byte(j as nat))
    }
}

/// The bytes of `data` XORed against the chosen randomization sequence,
/// cycled when `data` is longer than one period.
pub open spec fn spec_randomize(data: Seq<u8>, kind: Randomization) -> Seq<u8> {
    Seq::new(
        data.len(),
        |i: int| data[i] ^ kind.spec_byte((i % (kind.spec_period() as int)) as nat),
    )
}

/// Generates the full randomization sequence for `kind` by running its
/// linear feedback shift register for one period.
pub fn generate_sequence(kind: Randomization) -> (r: Vec<u8>)
    ensures
        r@ == kind.spec_sequence(),
{
    let period: usize = match kind {
        Randomization::TC => 255,
        Randomization::Tm255 => 255,
        Randomization::Tm131071 => 131071,
    };
    let mut lfsr: u32 = match kind {
        Randomization::TC => 0xFF,
        Randomization::Tm255 => 0xFF,
        Randomization::Tm131071 => 0x18E38,
    };
    let mut out: Vec<u8> = Vec::new();
    let mut j: usize = 0;
    while j < period
        invariant
            j <= period,
            period == kind.spec_period(),
            out@.len() == j,
            lfsr == kind.spec_state(8 * j as nat),
            forall|t: int| 0 <= t < j ==> out@[t] == kind.spec_byte(t as nat),
        decreases period - j,
    {
        let mut val: u8 = 0;
        let mut k: usize = 0;
        while k < 8
            invariant
                k <= 8,
                val == kind.spec_partial_byte(j as nat, k as nat),
                lfsr == kind.spec_state(8 * j as nat + k as nat),
            decreases 8 - k,
        {
            val = (val << 1) | ((lfsr & 1) as u8);
            let feedback: u32 = match kind {
                Randomization::TC => (lfsr ^ (lfsr >> 1) ^ (lfsr >> 2) ^ (lfsr >> 3) ^ (lfsr >> 4)
                    ^ (lfsr >> 6)) & 1,
                Randomization::Tm255 => (lfsr ^ (lfsr >> 3) ^ (lfsr >> 5) ^ (lfsr >> 7)) & 1,
                Randomization::Tm131071 => (lfsr ^ (lfsr >> 14)) & 1,
            };
            lfsr = match kind {
                Randomization::TC => (lfsr >> 1) | (feedback << 7),
                Randomization::Tm255 => (lfsr >> 1) | (feedback << 7),
                Randomization::Tm131071 => (lfsr >> 1) | (feedback << 16),
            };
            k += 1;
        }
        out.push(val);
        j += 1;
    }
    assert(out@ =~= kind.spec_sequence());
    out
}

/// XORs `bytes` with the chosen randomization sequence, cycling the
/// sequence when the input is longer than one period.
pub fn apply_randomization(bytes: &[u8], randomizer: Randomization) -> (r: Vec<u8>)
    ensures
        r@ == spec_randomize(bytes@, randomizer),
{
    let sequence = generate_sequence(randomizer);
    let mut out: Vec<u8> = Vec::new();
    let mut i: usize = 0;
    while i < bytes.len()
        invariant
            i <= bytes@.len(),
            out@.len() == i,
            sequence@ == randomizer.spec_sequence(),
            forall|t: int|
                0 <= t < i ==> out@[t] == bytes@[t] ^ randomizer.spec_byte(
                    (t % (randomizer.spec_period() as int)) as nat,
                ),
        decreases bytes@.len() - i,
    {
        out.push(bytes[i] ^ sequence[i % sequence.len()]);
        i += 1;
    }
    assert(out@ =~= spec_randomize(bytes@, randomizer));
    out
}

} // verus!
