//! Counters of the real-time loop service: cycles run, intents processed, the
//! last cycle's duration, and what its probe port and heartbeat report.
use vstd::prelude::*;
use crate::health::{decimal, decimal_text};

verus! {

/// State of the closed loop.
#[derive(Debug, Clone, Copy, PartialEq, Eq, Structural)]
pub struct LoopState {
    pub cycles: u64,
    pub intents_processed: u64,
    pub last_period_us: u64,
}

impl LoopState {
    pub fn new() -> (s: LoopState)
        ensures
            s == (LoopState { cycles: 0, intents_processed: 0, last_period_us: 0 }),
    {
        LoopState { cycles: 0, intents_processed: 0, last_period_us: 0 }
    }

    /// One cycle ran, taking `period_us` microseconds.
    pub fn record_cycle(&mut self, period_us: u64)
        requires
            old(self).cycles < u64::MAX,
        ensures
            *final(self) == (LoopState {
                cycles: (old(self).cycles + 1) as u64,
                last_period_us: period_us,
                ..*old(self)
            }),
    {
        self.cycles = self.cycles + 1;
        self.last_period_us = period_us;
    }

    /// One intent was handed to the MCU.
    pub fn record_intent(&mut self)
        requires
            old(self).intents_processed < u64::MAX,
        ensures
            *final(self) == (LoopState {
                intents_processed: (old(self).intents_processed + 1) as u64,
                ..*old(self)
            }),
    {
        self.intents_processed = self.intents_processed + 1;
    }

    /// The health probe's JSON body: cycles, intents and the loop frequency.
    pub fn health_body(&self, freq_hz: u32) -> (r: String)
        ensures
            r@ == "{\"cycles\":"@ + decimal(self.cycles as nat) + ",\"intents\":"@ + decimal(
                self.intents_processed as nat,
            ) + ",\"hz\":"@ + decimal(freq_hz as nat) + "}\n"@,
    {
        String::from_str("{\"cycles\":").concat(decimal_text(self.cycles).as_str()).concat(
            ",\"intents\":",
        ).concat(decimal_text(self.intents_processed).as_str()).concat(",\"hz\":").concat(
            decimal_text(freq_hz as u64).as_str(),
        ).concat("}\n")
    }
}

/// The loop period in microseconds for a frequency in hertz.
pub fn period_us(freq_hz: u32) -> (r: u64)
    requires
        freq_hz > 0,
    ensures
        r == 1_000_000int / (freq_hz as int),
{
    1_000_000u64 / (freq_hz as u64)
}

/// A heartbeat is logged every five seconds' worth of cycles.
pub fn heartbeat_due(cycles: u64, freq_hz: u32) -> (r: bool)
    requires
        freq_hz > 0,
    ensures
        r == ((cycles as int) % (5 * freq_hz as int) == 0),
{
    cycles % ((freq_hz as u64) * 5) == 0
}

} // verus!
