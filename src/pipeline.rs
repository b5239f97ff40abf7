//! Processor pipeline stages: what each stage does with an event. The
//! workers and channels linking the stages run outside the library.

use vstd::prelude::*;

use crate::error::RetisError;
use crate::events::Event;

verus! {

/// A stage of the pipeline.
pub trait ProcessorAction {
    /// Processes an event into zero or more events.
    fn process_one(&mut self, e: Event) -> Result<Vec<Event>, RetisError>;

    /// Stops processing; remaining events can be returned.
    fn stop(&mut self) -> Result<Vec<Event>, RetisError>;
}

/// A sink for events.
pub trait Output {
    /// Takes one event.
    fn output_one(&mut self, e: &Event) -> Result<(), RetisError>;

    /// Flushes what is buffered.
    fn flush(&mut self) -> Result<(), RetisError>;
}

/// The terminal stage: every event goes to every output.
pub struct OutputStage<O: Output> {
    pub outputs: Vec<O>,
}

impl<O: Output> OutputStage<O> {
    /// Takes the outputs out of `out`.
    pub fn from(out: &mut Vec<O>) -> (r: OutputStage<O>)
        ensures
            r.outputs@ == old(out)@,
            final(out)@.len() == 0,
    {
        let mut outputs: Vec<O> = Vec::new();
        outputs.append(out);
        OutputStage { outputs }
    }
}

impl<O: Output> ProcessorAction for OutputStage<O> {
    fn process_one(&mut self, e: Event) -> (r: Result<Vec<Event>, RetisError>) {
        let mut i: usize = 0;
        while i < self.outputs.len()
            invariant
                i <= self.outputs@.len(),
            decreases self.outputs.len() - i,
        {
            let mut o = self.outputs.remove(i);
            let res = o.output_one(&e);
            self.outputs.insert(i, o);
            res?;
            i += 1;
        }
        Ok(Vec::new())
    }

    fn stop(&mut self) -> (r: Result<Vec<Event>, RetisError>) {
        let mut i: usize = 0;
        while i < self.outputs.len()
            invariant
                i <= self.outputs@.len(),
            decreases self.outputs.len() - i,
        {
            let mut o = self.outputs.remove(i);
            let res = o.flush();
            self.outputs.insert(i, o);
            res?;
            i += 1;
        }
        Ok(Vec::new())
    }
}

} // verus!
