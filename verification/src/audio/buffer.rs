use vstd::prelude::*;

verus! {

use crate::audio::wave::silence_seq;

/// Errors a buffer operation can report.
#[derive(Debug, Clone, Copy, PartialEq, Eq, Structural)]
pub enum BufferError {
    /// Pushing would exceed capacity; carries the size of the refused batch.
    Overflow(usize),
    /// Reading more samples than available; carries how many were missing.
    Underflow(usize),
    /// The buffer's lock could not be acquired.
    Locked,
}

/// What a full buffer does with an incoming batch.
#[derive(Debug, Clone, Copy)]
pub enum OverflowStrategy {
    /// Discard the incoming batch entirely.
    Drop,
    /// Evict the oldest stored samples to make room, preserving recency.
    DropOldest,
    /// Refuse the push and leave the buffer unchanged.
    Error,
}

/// What a short buffer does with an oversized read.
#[derive(Debug, Clone, Copy)]
pub enum UnderflowStrategy {
    /// Return what is stored, padded with trailing zeros.
    Zero,
    /// Wait for more samples. The unsynchronized buffer has no producer to
    /// wait on, so here the read is refused; the thread-safe wrapper is the
    /// place where a real blocking wait can live.
    Wait,
    /// Refuse the read and leave the buffer unchanged.
    Error,
}

/// A buffer's fixed configuration.
#[derive(Debug, Clone)]
pub struct BufferConfig {
    pub capacity: usize,
    pub overflow_strategy: OverflowStrategy,
    pub underflow_strategy: UnderflowStrategy,
}

impl Default for BufferConfig {
    /// One second at 48 kHz, evicting the oldest on overflow and
    /// zero-padding on underflow.
    fn default() -> (c: Self)
        ensures
            c.capacity == 48000,
            c.overflow_strategy is DropOldest,
            c.underflow_strategy is Zero,
    {
        Self {
            capacity: 48000,
            overflow_strategy: OverflowStrategy::DropOldest,
            underflow_strategy: UnderflowStrategy::Zero,
        }
    }
}

/// A bounded sample queue: pushes append at the back, reads consume from the
/// front, and the configured policies decide what happens past the limits.
pub struct RingBuffer {
    pub buffer: Vec<i32>,
    pub config: BufferConfig,
}

impl RingBuffer {
    /// The buffer never holds more than its capacity.
    pub open spec fn wf(&self) -> bool {
        self.buffer@.len() <= self.config.capacity
    }

    pub fn new(config: BufferConfig) -> (b: Self)
        ensures
            b.config == config,
            b.buffer@.len() == 0,
            b.wf(),
    {
        Self { buffer: Vec::new(), config }
    }

    /// Append a batch of samples. When the batch does not fit, the overflow
    /// strategy decides: `Drop` discards the batch, `DropOldest` keeps the
    /// most recent `capacity` samples of the stored-then-incoming sequence,
    /// and `Error` refuses the push and reports the batch size.
    pub fn push_samples(&mut self, samples: &[i32]) -> (r: Result<(), BufferError>)
        requires
            old(self).wf(),
        ensures
            final(self).config == old(self).config,
            final(self).wf(),
            old(self).buffer@.len() + samples@.len() <= old(self).config.capacity ==> (r == Ok::<
                (),
                BufferError,
            >(()) && final(self).buffer@ == old(self).buffer@ + samples@),
            old(self).buffer@.len() + samples@.len() > old(self).config.capacity ==> match old(self).config.overflow_strategy {
                OverflowStrategy::Drop => r == Ok::<(), BufferError>(()) && final(self).buffer@
                    == old(self).buffer@,
                OverflowStrategy::DropOldest => r == Ok::<(), BufferError>(()) && final(self).buffer@ == (old(self).buffer@ + samples@).skip(
                    old(self).buffer@.len() + samples@.len() - old(self).config.capacity,
                ),
                OverflowStrategy::Error => r == Err::<(), BufferError>(
                    BufferError::Overflow(samples@.len() as usize),
                ) && final(self).buffer@ == old(self).buffer@,
            },
    {
        let cap = self.config.capacity;
        let fits = samples.len() <= cap && self.buffer.len() <= cap - samples.len();
        if !fits {
            match self.config.overflow_strategy {
                OverflowStrategy::Drop => {
                    return Ok(());
                },
                OverflowStrategy::DropOldest => {
                    if samples.len() >= cap {
                        // The batch alone fills the buffer: keep its newest part.
                        self.buffer.clear();
                        let from = samples.len() - cap;
                        let mut i: usize = from;
                        while i < samples.len()
                            invariant
                                from <= i <= samples@.len(),
                                from == samples@.len() - cap,
                                cap == self.config.capacity,
                                self.config == old(self).config,
                                self.buffer@ == samples@.subrange(from as int, i as int),
                            decreases samples@.len() - i,
                        {
                            let v = samples[i];
                            self.buffer.push(v);
                            proof {
                                assert(self.buffer@ =~= samples@.subrange(from as int, i + 1));
                            }
                            i = i + 1;
                        }
                        proof {
                            assert(self.buffer@ =~= (old(self).buffer@ + samples@).skip(
                                old(self).buffer@.len() + samples@.len() - cap,
                            ));
                        }
                        return Ok(());
                    } else {
                        // Evict just enough of the oldest stored samples.
                        let drop_n = self.buffer.len() - (cap - samples.len());
                        let tail = self.buffer.split_off(drop_n);
                        self.buffer = tail;
                        proof {
                            assert(self.buffer@ =~= old(self).buffer@.skip(
                                old(self).buffer@.len() + samples@.len() - cap,
                            ));
                        }
                    }
                },
                OverflowStrategy::Error => {
                    return Err(BufferError::Overflow(samples.len()));
                },
            }
        }
        let ghost kept = self.buffer@;
        let mut i: usize = 0;
        while i < samples.len()
            invariant
                i <= samples@.len(),
                cap == self.config.capacity,
                self.config == old(self).config,
                kept.len() + samples@.len() <= cap,
                old(self).buffer@.len() + samples@.len() <= cap ==> kept == old(self).buffer@,
                old(self).buffer@.len() + samples@.len() > cap ==> kept == old(
                    self,
                ).buffer@.skip(old(self).buffer@.len() + samples@.len() - cap),
                self.buffer@ == kept + samples@.take(i as int),
            decreases samples@.len() - i,
        {
            let v = samples[i];
            self.buffer.push(v);
            proof {
                assert(self.buffer@ =~= kept + samples@.take(i + 1));
            }
            i = i + 1;
        }
        proof {
            assert(kept + samples@.take(samples@.len() as int) =~= kept + samples@);
            if old(self).buffer@.len() + samples@.len() > old(self).config.capacity {
                assert(self.buffer@ =~= (old(self).buffer@ + samples@).skip(
                    old(self).buffer@.len() + samples@.len() - old(self).config.capacity,
                ));
            } else {
                assert(self.buffer@ =~= old(self).buffer@ + samples@);
            }
        }
        Ok(())
    }

    /// Read `count` samples from the front. With fewer stored, the underflow
    /// strategy decides: `Zero` hands out everything padded with trailing
    /// zeros and empties the buffer, while `Error` and `Wait` refuse the
    /// read and report how many samples were missing.
    pub fn get_samples(&mut self, count: usize) -> (r: Result<Vec<i32>, BufferError>)
        requires
            old(self).wf(),
        ensures
            final(self).config == old(self).config,
            final(self).wf(),
            count <= old(self).buffer@.len() ==> (r matches Ok(v) && v@ == old(self).buffer@.take(count as int) && final(self).buffer@ == old(self).buffer@.skip(
                count as int,
            )),
            count > old(self).buffer@.len() ==> match old(self).config.underflow_strategy {
                UnderflowStrategy::Zero => (r matches Ok(v) && v@ == old(self).buffer@
                    + silence_seq((count - old(self).buffer@.len()) as nat) && final(self).buffer@.len() == 0),
                UnderflowStrategy::Wait => r == Err::<Vec<i32>, BufferError>(
                    BufferError::Underflow((count - old(self).buffer@.len()) as usize),
                ) && final(self).buffer@ == old(self).buffer@,
                UnderflowStrategy::Error => r == Err::<Vec<i32>, BufferError>(
                    BufferError::Underflow((count - old(self).buffer@.len()) as usize),
                ) && final(self).buffer@ == old(self).buffer@,
            },
    {
        if count > self.buffer.len() {
            match self.config.underflow_strategy {
                UnderflowStrategy::Zero => {
                    let mut result = self.buffer.split_off(0);
                    proof {
                        assert(result@ =~= old(self).buffer@);
                        assert(result@ =~= old(self).buffer@ + silence_seq(0));
                    }
                    while result.len() < count
                        invariant
                            result@.len() >= old(self).buffer@.len(),
                            result@.len() <= count,
                            self.config == old(self).config,
                            self.buffer@.len() == 0,
                            result@ == old(self).buffer@ + silence_seq(
                                (result@.len() - old(self).buffer@.len()) as nat,
                            ),
                        decreases count - result@.len(),
                    {
                        result.push(0);
                        proof {
                            assert(result@ =~= old(self).buffer@ + silence_seq(
                                (result@.len() - old(self).buffer@.len()) as nat,
                            ));
                        }
                    }
                    proof {
                        assert(result@ =~= old(self).buffer@ + silence_seq(
                            (count - old(self).buffer@.len()) as nat,
                        ));
                    }
                    Ok(result)
                },
                UnderflowStrategy::Error => Err(BufferError::Underflow(count - self.buffer.len())),
                UnderflowStrategy::Wait => Err(BufferError::Underflow(count - self.buffer.len())),
            }
        } else {
            let mut out: Vec<i32> = Vec::new();
            let mut i: usize = 0;
            while i < count
                invariant
                    i <= count,
                    count <= self.buffer@.len(),
                    self == old(self),
                    out@ == self.buffer@.take(i as int),
                decreases count - i,
            {
                let v = self.buffer[i];
                out.push(v);
                proof {
                    assert(out@ =~= self.buffer@.take(i + 1));
                }
                i = i + 1;
            }
            let tail = self.buffer.split_off(count);
            self.buffer = tail;
            Ok(out)
        }
    }

    /// Discard every stored sample.
    pub fn clear(&mut self)
        ensures
            final(self).config == old(self).config,
            final(self).buffer@.len() == 0,
            final(self).wf(),
    {
        self.buffer.clear();
    }

    /// How many samples are stored.
    pub fn available(&self) -> (n: usize)
        ensures
            n == self.buffer@.len(),
    {
        self.buffer.len()
    }

    /// The fixed capacity.
    pub fn capacity(&self) -> (n: usize)
        ensures
            n == self.config.capacity,
    {
        self.config.capacity
    }

    /// Buffer usage in thousandths of capacity.
    pub fn usage(&self) -> (u: u32)
        requires
            self.config.capacity > 0,
            self.wf(),
        ensures
            u as int == (self.buffer@.len() * 1000) as int / (self.config.capacity as int),
    {
        proof {
            assert(self.buffer@.len() * 1000 <= self.config.capacity * 1000) by (nonlinear_arith)
                requires
                    self.buffer@.len() <= self.config.capacity,
            ;
            assert((self.buffer@.len() * 1000) as int / (self.config.capacity as int) <= 1000)
                by (nonlinear_arith)
                requires
                    self.buffer@.len() * 1000 <= self.config.capacity * 1000,
                    self.config.capacity > 0,
            ;
        }
        ((self.buffer.len() as u128) * 1000 / (self.config.capacity as u128)) as u32
    }
}

} // verus!
