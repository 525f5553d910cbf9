//! Network throughput from raw interface counters: the last sample of each
//! interface is kept, and a rate is the difference to it over the time that
//! has passed.

use vstd::prelude::*;
use vstd::string::StringExecFns;
use crate::table::Table;

verus! {

/// The shortest time between two samples for which a rate is computed, in
/// microseconds: half a second.
pub const MIN_ELAPSED_MICROS: u64 = 500_000;

/// The raw counters of one interface at one moment. `at` is a reading of a
/// monotonic clock, in microseconds.
#[derive(Debug, Clone, Copy, PartialEq, Eq, Structural)]
pub struct Sample {
    pub rx_bytes: u64,
    pub tx_bytes: u64,
    pub at: u64,
}

/// Receive and transmit throughput in bytes per second, rounded down.
#[derive(Debug, Clone, Copy, PartialEq, Eq, Structural)]
pub struct Rates {
    pub rx: u64,
    pub tx: u64,
}

/// How far a counter has advanced; a counter that went back counts as not
/// advanced.
pub open spec fn advanced(now: u64, before: u64) -> nat {
    if now >= before {
        (now - before) as nat
    } else {
        0
    }
}

/// `delta` bytes in `elapsed` microseconds as whole bytes per second, held at
/// the largest 64-bit number.
pub open spec fn per_second(delta: nat, elapsed: nat) -> u64 {
    if elapsed == 0 {
        0
    } else if delta * 1_000_000 / elapsed > u64::MAX {
        u64::MAX
    } else {
        (delta * 1_000_000 / elapsed) as u64
    }
}

/// True where a rate is computed for a new sample taken at `now`: there is
/// an earlier sample and at least half a second has passed since.
pub open spec fn measurable(previous: Option<Sample>, now: u64) -> bool {
    match previous {
        Some(before) => now >= before.at && now - before.at >= MIN_ELAPSED_MICROS,
        None => false,
    }
}

/// The rates reported for a new sample, given the one kept for the same
/// interface: the advance of each counter over the time passed, or zero
/// where no rate is computed.
pub open spec fn rates_for(previous: Option<Sample>, current: Sample) -> Rates {
    match previous {
        Some(before) => if measurable(previous, current.at) {
            Rates {
                rx: per_second(
                    advanced(current.rx_bytes, before.rx_bytes),
                    (current.at - before.at) as nat,
                ),
                tx: per_second(
                    advanced(current.tx_bytes, before.tx_bytes),
                    (current.at - before.at) as nat,
                ),
            }
        } else {
            Rates { rx: 0, tx: 0 }
        },
        None => Rates { rx: 0, tx: 0 },
    }
}

/// The sample kept for `name`, if any.
pub open spec fn kept(cache: Map<Seq<char>, Sample>, name: Seq<char>) -> Option<Sample> {
    if cache.dom().contains(name) {
        Some(cache[name])
    } else {
        None
    }
}

/// The last sample of each interface, by interface name.
pub struct NetworkSampleCache {
    table: Table<Sample>,
}

impl View for NetworkSampleCache {
    type V = Map<Seq<char>, Sample>;

    closed spec fn view(&self) -> Map<Seq<char>, Sample> {
        self.table@
    }
}

fn rate(delta: u64, elapsed: u64) -> (r: u64)
    requires
        elapsed > 0,
    ensures
        r == per_second(delta as nat, elapsed as nat),
{
    let scaled: u128 = delta as u128 * 1_000_000;
    let whole: u128 = scaled / (elapsed as u128);
    if whole > u64::MAX as u128 {
        u64::MAX
    } else {
        whole as u64
    }
}

impl NetworkSampleCache {
    /// The representation is sound.
    pub closed spec fn wf(&self) -> bool {
        self.table.wf()
    }

    /// A cache that has seen no interface.
    pub fn new() -> (c: NetworkSampleCache)
        ensures
            c.wf(),
            c@ == Map::<Seq<char>, Sample>::empty(),
    {
        NetworkSampleCache { table: Table::new() }
    }

    /// The sample kept for `name`, if any.
    pub fn last(&self, name: &str) -> (r: Option<Sample>)
        requires
            self.wf(),
        ensures
            r == kept(self@, name@),
    {
        match self.table.get(name) {
            Some(sample) => Some(*sample),
            None => None,
        }
    }

    /// Takes a new sample of the interface `name` and returns its rates.
    ///
    /// Where a sample of the interface is kept and at least half a second
    /// has passed since, each rate is the advance of the counter divided by
    /// the seconds passed. Otherwise both rates are zero. Either way the new
    /// sample replaces the one kept, and no other interface is touched.
    pub fn sample(&mut self, name: &str, current: Sample) -> (rates: Rates)
        requires
            old(self).wf(),
        ensures
            final(self).wf(),
            rates == rates_for(kept(old(self)@, name@), current),
            final(self)@ == old(self)@.insert(name@, current),
    {
        let previous = self.last(name);
        let rates = match previous {
            Some(before) => {
                if current.at >= before.at && current.at - before.at >= MIN_ELAPSED_MICROS {
                    let elapsed = current.at - before.at;
                    Rates {
                        rx: rate(current.rx_bytes.saturating_sub(before.rx_bytes), elapsed),
                        tx: rate(current.tx_bytes.saturating_sub(before.tx_bytes), elapsed),
                    }
                } else {
                    Rates { rx: 0, tx: 0 }
                }
            },
            None => Rates { rx: 0, tx: 0 },
        };
        let _ = self.table.insert(String::from_str(name), current);
        rates
    }
}

/// Two samples of one interface less than half a second apart: the second
/// one reports zero rates and still becomes the sample kept. A third sample,
/// at least half a second after the second, reports the advance of each
/// counter since the second, divided by the seconds passed since the second.
pub proof fn law_rate_after_fast_repeat(
    cache: Map<Seq<char>, Sample>,
    name: Seq<char>,
    first: Sample,
    second: Sample,
    third: Sample,
)
    requires
        first.at <= second.at,
        second.at - first.at < MIN_ELAPSED_MICROS,
        third.at >= second.at,
        third.at - second.at >= MIN_ELAPSED_MICROS,
        second.rx_bytes <= third.rx_bytes,
        second.tx_bytes <= third.tx_bytes,
    ensures
        ({
            let after_first = cache.insert(name, first);
            let after_second = after_first.insert(name, second);
            let elapsed = (third.at - second.at) as nat;
            &&& rates_for(kept(after_first, name), second) == (Rates { rx: 0, tx: 0 })
            &&& kept(after_second, name) == Some(second)
            &&& rates_for(kept(after_second, name), third) == (Rates {
                rx: per_second((third.rx_bytes - second.rx_bytes) as nat, elapsed),
                tx: per_second((third.tx_bytes - second.tx_bytes) as nat, elapsed),
            })
            &&& (third.rx_bytes - second.rx_bytes) * 1_000_000 / (elapsed as int) <= u64::MAX
                ==> rates_for(kept(after_second, name), third).rx == (third.rx_bytes
                - second.rx_bytes) * 1_000_000 / (elapsed as int)
        }),
{
}

/// The first sample of an interface reports zero rates.
pub proof fn law_first_sample_has_no_rate(
    cache: Map<Seq<char>, Sample>,
    name: Seq<char>,
    current: Sample,
)
    requires
        !cache.dom().contains(name),
    ensures
        rates_for(kept(cache, name), current) == (Rates { rx: 0, tx: 0 }),
{
}

} // verus!
