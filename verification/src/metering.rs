use vstd::prelude::*;

verus! {

/// The magnitude of a sample (`i32::MIN` has magnitude 2^31).
pub open spec fn magnitude(s: i32) -> nat {
    if s < 0 { (-s) as nat } else { s as nat }
}

/// The largest magnitude among `samples`, 0 for none.
pub open spec fn peak_of(samples: Seq<i32>) -> nat
    decreases samples.len(),
{
    if samples.len() == 0 {
        0
    } else {
        let rest = peak_of(samples.drop_last());
        let m = magnitude(samples.last());
        if m > rest { m } else { rest }
    }
}

/// The largest magnitude among `samples`, 0 for none.
pub fn peak_magnitude(samples: &[i32]) -> (r: u32)
    ensures
        r == peak_of(samples@),
{
    let n = samples.len();
    let mut peak: u32 = 0;
    let mut i: usize = 0;
    while i < n
        invariant
            n == samples@.len(),
            i <= n,
            peak == peak_of(samples@.take(i as int)),
        decreases n - i,
    {
        let s = samples[i];
        let m: u32 = if s < 0 { (-(s as i64)) as u32 } else { s as u32 };
        if m > peak {
            peak = m;
        }
        assert(samples@.take(i + 1).drop_last() =~= samples@.take(i as int));
        i = i + 1;
    }
    assert(samples@.take(n as int) =~= samples@);
    peak
}

/// Peak levels of the channels (0..255 on a logarithmic scale), with peak hold.
pub struct ChannelMeter {
    peaks: Vec<u8>,
}

impl ChannelMeter {
    /// The current peak level of each channel.
    pub closed spec fn levels(&self) -> Seq<u8> {
        self.peaks@
    }

    /// A meter for `channels` channels, all at level 0.
    pub fn new(channels: usize) -> (m: ChannelMeter)
        ensures
            m.levels() == Seq::new(channels as nat, |i: int| 0u8),
    {
        let mut peaks: Vec<u8> = Vec::new();
        let mut i: usize = 0;
        while i < channels
            invariant
                i <= channels,
                peaks@ == Seq::new(i as nat, |j: int| 0u8),
            decreases channels - i,
        {
            peaks.push(0);
            i = i + 1;
            assert(peaks@ =~= Seq::new(i as nat, |j: int| 0u8));
        }
        ChannelMeter { peaks }
    }

    /// Record level `level` on `channel`: the held peak rises to it, never falls.
    /// Channels beyond the meter are ignored.
    pub fn update_level(&mut self, channel: usize, level: u8)
        ensures
            channel >= old(self).levels().len() ==> final(self).levels() == old(self).levels(),
            channel < old(self).levels().len() ==> final(self).levels() == old(self).levels().update(
                channel as int,
                if level > old(self).levels()[channel as int] { level } else { old(self).levels()[channel as int] },
            ),
    {
        if channel >= self.peaks.len() {
            return;
        }
        let current = self.peaks[channel];
        if level > current {
            self.peaks.set(channel, level);
        }
        assert(self.levels() =~= old(self).levels().update(
            channel as int,
            if level > current { level } else { current },
        ));
    }

    /// Lower every non-zero peak by one.
    pub fn decay(&mut self)
        ensures
            final(self).levels().len() == old(self).levels().len(),
            forall|i: int| 0 <= i < old(self).levels().len() ==> #[trigger] final(self).levels()[i]
                == if old(self).levels()[i] > 0 { (old(self).levels()[i] - 1) as u8 } else { 0u8 },
    {
        let n = self.peaks.len();
        let mut i: usize = 0;
        while i < n
            invariant
                n == self.peaks@.len(),
                n == old(self).levels().len(),
                i <= n,
                forall|j: int| 0 <= j < i ==> #[trigger] self.peaks@[j]
                    == if old(self).levels()[j] > 0 { (old(self).levels()[j] - 1) as u8 } else { 0u8 },
                forall|j: int| i <= j < n ==> #[trigger] self.peaks@[j] == old(self).levels()[j],
            decreases n - i,
        {
            let v = self.peaks[i];
            if v > 0 {
                self.peaks.set(i, v - 1);
            }
            i = i + 1;
        }
    }

    /// The current peak levels.
    pub fn get_peaks(&self) -> (r: Vec<u8>)
        ensures
            r@ == self.levels(),
    {
        self.peaks.clone()
    }
}

/// A held peak never falls below what was recorded: updating never lowers a
/// level, and decaying lowers each level by at most one.
pub proof fn lemma_meter_levels_monotone(before: Seq<u8>, after_update: Seq<u8>, channel: int, level: u8)
    requires
        0 <= channel < before.len(),
        after_update == before.update(channel, if level > before[channel] { level } else { before[channel] }),
    ensures
        forall|i: int| 0 <= i < before.len() ==> #[trigger] after_update[i] >= before[i],
        after_update[channel] >= level,
{
}

} // verus!
