//! Writing everything to a terminal that may be busy, and waiting in small steps.
use vstd::prelude::*;

verus! {

/// How long to pause before a busy terminal is tried again, in milliseconds.
pub const RETRY_PAUSE_MS: u64 = 1;

/// The longest single wait, in nanoseconds.
pub const SLEEP_CHUNK_NS: u64 = 10_000_000;

/// The system error code for a busy terminal on macOS.
pub const BUSY_OS_CODE: i32 = 35;

/// What came of an attempt to write or to flush: for a write the number of
/// bytes that were taken, for an error whether it would have blocked, and the
/// system's code for it.
#[derive(Debug, Clone, Copy, PartialEq, Eq, Structural)]
pub enum Attempt {
    Done(usize),
    Failed { would_block: bool, os_code: Option<i32> },
}

/// What to do next.
#[derive(Debug, Clone, Copy, PartialEq, Eq, Structural)]
pub enum OutputStep {
    /// Try (again), with what is left.
    Attempt,
    /// Pause, then try again.
    Pause,
    /// Everything is done.
    Finished,
    /// The terminal takes no more bytes: an error of its own.
    TakesNothing,
    /// Hand on the error of the last attempt.
    Fail,
}

/// Whether an error only says that the terminal is busy.
pub open spec fn is_transient(would_block: bool, os_code: Option<i32>) -> bool {
    would_block || os_code == Some(BUSY_OS_CODE)
}

fn transient(would_block: bool, os_code: Option<i32>) -> (yes: bool)
    ensures
        yes == is_transient(would_block, os_code),
{
    would_block || match os_code {
        Some(code) => code == BUSY_OS_CODE,
        None => false,
    }
}

/// How far a buffer of `len` bytes has been written.
#[derive(Debug, Clone, Copy, PartialEq, Eq, Structural)]
pub struct WriteProgress {
    pub len: usize,
    pub written: usize,
}

impl WriteProgress {
    pub open spec fn wf(self) -> bool {
        self.written <= self.len
    }

    /// What to do as long as no attempt has failed.
    pub open spec fn pending(self) -> OutputStep {
        if self.written < self.len {
            OutputStep::Attempt
        } else {
            OutputStep::Finished
        }
    }

    /// The progress after an attempt to write the rest of the buffer.
    pub open spec fn after(self, attempt: Attempt) -> WriteProgress {
        match attempt {
            Attempt::Done(n) => WriteProgress {
                len: self.len,
                written: (self.written + n) as usize,
            },
            Attempt::Failed { .. } => self,
        }
    }

    /// What to do after an attempt to write the rest of the buffer.
    pub open spec fn step_after(self, attempt: Attempt) -> OutputStep {
        match attempt {
            Attempt::Done(n) => if n == 0 {
                OutputStep::TakesNothing
            } else {
                self.after(attempt).pending()
            },
            Attempt::Failed { would_block, os_code } => if is_transient(would_block, os_code) {
                OutputStep::Pause
            } else {
                OutputStep::Fail
            },
        }
    }

    /// An attempt cannot take more than there is.
    pub open spec fn admits(self, attempt: Attempt) -> bool {
        attempt matches Attempt::Done(n) ==> n <= self.len - self.written
    }

    /// Starts on a buffer.
    pub fn start(len: usize) -> (progress: Self)
        ensures
            progress == (WriteProgress { len, written: 0 }),
    {
        WriteProgress { len, written: 0 }
    }

    /// What to do before any attempt: an empty buffer is written already.
    pub fn first_step(&self) -> (step: OutputStep)
        ensures
            step == self.pending(),
    {
        if self.written < self.len {
            OutputStep::Attempt
        } else {
            OutputStep::Finished
        }
    }

    /// Takes note of an attempt to write the rest of the buffer, and tells what
    /// to do next.
    pub fn record(&mut self, attempt: Attempt) -> (step: OutputStep)
        requires
            old(self).wf(),
            old(self).written < old(self).len,
            old(self).admits(attempt),
        ensures
            *final(self) == old(self).after(attempt),
            final(self).wf(),
            step == old(self).step_after(attempt),
    {
        match attempt {
            Attempt::Done(n) => {
                self.written = self.written + n;
                if n == 0 {
                    OutputStep::TakesNothing
                } else {
                    self.first_step()
                }
            },
            Attempt::Failed { would_block, os_code } => {
                if transient(would_block, os_code) {
                    OutputStep::Pause
                } else {
                    OutputStep::Fail
                }
            },
        }
    }
}

/// What to do after an attempt to flush.
pub open spec fn flush_after(attempt: Attempt) -> OutputStep {
    match attempt {
        Attempt::Done(_) => OutputStep::Finished,
        Attempt::Failed { would_block, os_code } => if is_transient(would_block, os_code) {
            OutputStep::Pause
        } else {
            OutputStep::Fail
        },
    }
}

/// What to do after an attempt to flush. How many bytes were taken does not
/// matter.
pub fn flush_step(attempt: Attempt) -> (step: OutputStep)
    ensures
        step == (match attempt {
            Attempt::Done(_) => OutputStep::Finished,
            Attempt::Failed { would_block, os_code } => if is_transient(would_block, os_code) {
                OutputStep::Pause
            } else {
                OutputStep::Fail
            },
        }),
        step == flush_after(attempt),
{
    match attempt {
        Attempt::Done(_) => OutputStep::Finished,
        Attempt::Failed { would_block, os_code } => {
            if transient(would_block, os_code) {
                OutputStep::Pause
            } else {
                OutputStep::Fail
            }
        },
    }
}

/// The progress after a row of attempts.
pub open spec fn progress_after(progress: WriteProgress, attempts: Seq<Attempt>) -> WriteProgress
    decreases attempts.len(),
{
    if attempts.len() == 0 {
        progress
    } else {
        progress_after(progress, attempts.drop_last()).after(attempts.last())
    }
}

/// Whether every attempt of a row could have happened: the buffer was not
/// finished before it, and it took no more than there was.
pub open spec fn attempts_possible(progress: WriteProgress, attempts: Seq<Attempt>) -> bool
    decreases attempts.len(),
{
    attempts.len() > 0 ==> {
        let before = progress_after(progress, attempts.drop_last());
        &&& attempts_possible(progress, attempts.drop_last())
        &&& before.written < before.len
        &&& before.admits(attempts.last())
    }
}

/// The bytes that a row of attempts took from a buffer, each attempt from where
/// the one before it had stopped.
pub open spec fn bytes_taken(
    buf: Seq<u8>,
    progress: WriteProgress,
    attempts: Seq<Attempt>,
) -> Seq<u8>
    decreases attempts.len(),
{
    if attempts.len() == 0 {
        seq![]
    } else {
        let before = progress_after(progress, attempts.drop_last());
        bytes_taken(buf, progress, attempts.drop_last()) + (match attempts.last() {
            Attempt::Done(n) => buf.subrange(before.written as int, before.written + n),
            Attempt::Failed { .. } => seq![],
        })
    }
}

/// However the attempts went, the bytes that were taken are the beginning of the
/// buffer, each byte once and in order; and once the buffer is finished they are
/// the whole of it.
pub proof fn bytes_arrive_once_and_in_order(buf: Seq<u8>, attempts: Seq<Attempt>)
    requires
        buf.len() <= usize::MAX,
        attempts_possible(WriteProgress { len: buf.len() as usize, written: 0 }, attempts),
    ensures
        ({
            let start = WriteProgress { len: buf.len() as usize, written: 0 };
            let end = progress_after(start, attempts);
            &&& end.wf()
            &&& end.len == start.len
            &&& bytes_taken(buf, start, attempts) == buf.take(end.written as int)
            &&& end.pending() == OutputStep::Finished ==> bytes_taken(buf, start, attempts) == buf
        }),
    decreases attempts.len(),
{
    let start = WriteProgress { len: buf.len() as usize, written: 0 };
    let end = progress_after(start, attempts);
    if attempts.len() == 0 {
        assert(bytes_taken(buf, start, attempts) =~= buf.take(0));
    } else {
        bytes_arrive_once_and_in_order(buf, attempts.drop_last());
        assert(bytes_taken(buf, start, attempts) =~= buf.take(end.written as int));
    }
    assert(buf.take(buf.len() as int) =~= buf);
}

/// The next wait of a longer one; `None` once it is over or cut short.
pub open spec fn next_wait(slept_ns: nat, duration_ns: nat, running: bool, current: bool) -> Option<
    nat,
> {
    if slept_ns < duration_ns && running && current {
        Some(
            if duration_ns - slept_ns < SLEEP_CHUNK_NS {
                (duration_ns - slept_ns) as nat
            } else {
                SLEEP_CHUNK_NS as nat
            },
        )
    } else {
        None
    }
}

/// The next wait of a longer one, in nanoseconds; `None` once it is over. It is
/// cut short where playback has stopped or has moved on.
pub fn next_sleep_ns(slept_ns: u128, duration_ns: u128, running: bool, current: bool) -> (wait:
    Option<u64>)
    ensures
        wait is Some <==> slept_ns < duration_ns && running && current,
        wait matches Some(ns) ==> ns == (if duration_ns - slept_ns < SLEEP_CHUNK_NS {
            duration_ns - slept_ns
        } else {
            SLEEP_CHUNK_NS as int
        }),
        match next_wait(slept_ns as nat, duration_ns as nat, running, current) {
            Some(ns) => wait == Some(ns as u64),
            None => wait is None,
        },
{
    if slept_ns < duration_ns && running && current {
        let remaining: u128 = duration_ns - slept_ns;
        if remaining < SLEEP_CHUNK_NS as u128 {
            Some(remaining as u64)
        } else {
            Some(SLEEP_CHUNK_NS)
        }
    } else {
        None
    }
}

/// The time slept after `n` uninterrupted waits.
pub open spec fn slept_after(duration_ns: nat, n: nat) -> nat
    decreases n,
{
    if n == 0 {
        0
    } else {
        let slept = slept_after(duration_ns, (n - 1) as nat);
        match next_wait(slept, duration_ns, true, true) {
            Some(ns) => slept + ns,
            None => slept,
        }
    }
}

/// Uninterrupted, the waits add up to the whole time and never exceed it.
pub proof fn waits_add_up(duration_ns: nat, n: nat)
    ensures
        slept_after(duration_ns, n) <= duration_ns,
        n * SLEEP_CHUNK_NS >= duration_ns ==> slept_after(duration_ns, n) == duration_ns,
        n * SLEEP_CHUNK_NS <= duration_ns ==> slept_after(duration_ns, n) == n * SLEEP_CHUNK_NS,
    decreases n,
{
    if n > 0 {
        waits_add_up(duration_ns, (n - 1) as nat);
    }
}

/// Writing goes on with the rest of the buffer as long as some of it is left, and is
/// finished exactly when the terminal has taken all of it. A terminal that is busy is
/// tried again after a pause, with nothing lost; one that takes nothing, and every other
/// error, ends the writing.
pub proof fn writing_goes_on_until_all_is_taken(progress: WriteProgress, attempt: Attempt)
    requires
        progress.written < progress.len,
        progress.admits(attempt),
    ensures
        ({
            let after = progress.after(attempt);
            let step = progress.step_after(attempt);
            &&& after.len == progress.len
            &&& attempt matches Attempt::Done(n) ==> {
                &&& after.written == progress.written + n
                &&& step is Finished <==> progress.written + n == progress.len
                &&& step is Attempt <==> 0 < n < progress.len - progress.written
                &&& step is TakesNothing <==> n == 0
            }
            &&& attempt matches Attempt::Failed { would_block, os_code } ==> {
                &&& after == progress
                &&& step is Pause <==> would_block || os_code == Some(35i32)
                &&& step is Fail <==> !would_block && os_code != Some(35i32)
            }
        }),
{
}

/// Flushing is finished by the first attempt that succeeds. A terminal that is busy is
/// tried again after a pause, and every other error ends it.
pub proof fn flushing_goes_on_until_it_succeeds(attempt: Attempt)
    ensures
        flush_after(attempt) is Finished <==> attempt is Done,
        attempt matches Attempt::Failed { would_block, os_code } ==> {
            &&& flush_after(attempt) is Pause <==> would_block || os_code == Some(35i32)
            &&& flush_after(attempt) is Fail <==> !would_block && os_code != Some(35i32)
        },
{
}

/// A wait takes ten milliseconds, or what is left where that is less. There is one
/// exactly as long as time is left, playback runs, and it has not moved on.
pub proof fn waits_are_short(slept_ns: nat, duration_ns: nat, running: bool, current: bool)
    ensures
        next_wait(slept_ns, duration_ns, running, current) is Some <==> slept_ns < duration_ns
            && running && current,
        next_wait(slept_ns, duration_ns, running, current) matches Some(ns) ==> {
            &&& 0 < ns <= 10_000_000
            &&& slept_ns + ns <= duration_ns
            &&& ns < 10_000_000 ==> slept_ns + ns == duration_ns
        },
{
}

} // verus!
