//! The order in which a prompt is written, flushed and answered.
//!
//! A prompt is of use only if it is on the screen before the program waits
//! for the answer. So the message, if there is one, is written first, the
//! output is flushed next, and only then is a line read. A step that fails
//! ends the sequence: nothing is read after a failed write or flush.

use vstd::prelude::*;

verus! {

/// One action on the console.
#[derive(Clone, Copy, Debug, PartialEq, Eq, Structural)]
pub enum Step {
    /// Write the message to the output.
    Write,
    /// Flush the output.
    Flush,
    /// Read a line from the input.
    Read,
}

/// What is asked of the console in one go.
#[derive(Clone, Copy, Debug, PartialEq, Eq, Structural)]
pub struct Prompt {
    /// Whether there is a message to show.
    pub has_message: bool,
    /// Whether a line is read once the output is flushed.
    pub reads_line: bool,
}

impl Prompt {
    /// The steps of the prompt in the order in which they are taken: the
    /// write if there is a message, the flush, the read if a line is wanted.
    pub open spec fn plan(self) -> Seq<Step> {
        let write = if self.has_message {
            seq![Step::Write]
        } else {
            seq![]
        };
        let read = if self.reads_line {
            seq![Step::Read]
        } else {
            seq![]
        };
        write + seq![Step::Flush] + read
    }

    /// The step at place `k` of the plan, if the plan is that long.
    pub open spec fn step_at(self, k: int) -> Option<Step> {
        if 0 <= k < self.plan().len() {
            Some(self.plan()[k])
        } else {
            None
        }
    }

    /// A prompt that only flushes, or writes a message and flushes.
    pub fn show(has_message: bool) -> (prompt: Prompt)
        ensures
            prompt == (Prompt { has_message, reads_line: false }),
    {
        Prompt { has_message, reads_line: false }
    }

    /// A prompt that reads a line after the flush.
    pub fn ask(has_message: bool) -> (prompt: Prompt)
        ensures
            prompt == (Prompt { has_message, reads_line: true }),
    {
        Prompt { has_message, reads_line: true }
    }

    /// The step to begin with.
    pub fn first(&self) -> (step: Step)
        ensures
            step == self.plan()[0],
    {
        if self.has_message {
            Step::Write
        } else {
            Step::Flush
        }
    }

    /// The step to take once `done` has been taken and has succeeded or
    /// failed: the one that follows `done` in the plan, or none where `done`
    /// failed, was the last step, or is no step of this prompt.
    pub fn next(&self, done: Step, succeeded: bool) -> (step: Option<Step>)
        ensures
            !succeeded ==> step is None,
            !self.plan().contains(done) ==> step is None,
            forall|i: int|
                succeeded && 0 <= i < self.plan().len() && #[trigger] self.plan()[i] == done
                    ==> step == self.step_at(i + 1),
    {
        proof {
            lemma_plans(*self);
            let plan = self.plan();
            let flush: int = if self.has_message {
                1
            } else {
                0
            };
            assert(plan[flush] == Step::Flush);
            if self.has_message {
                assert(plan[0] == Step::Write);
            }
            if self.reads_line {
                assert(plan[flush + 1] == Step::Read);
            }
        }
        if !succeeded {
            return None;
        }
        match done {
            Step::Write => if self.has_message {
                Some(Step::Flush)
            } else {
                None
            },
            Step::Flush => if self.reads_line {
                Some(Step::Read)
            } else {
                None
            },
            Step::Read => None,
        }
    }
}

/// The plan of each of the four kinds of prompt, written out.
pub proof fn lemma_plans(prompt: Prompt)
    ensures
        prompt.has_message && prompt.reads_line ==> prompt.plan() == seq![
            Step::Write,
            Step::Flush,
            Step::Read,
        ],
        prompt.has_message && !prompt.reads_line ==> prompt.plan() == seq![
            Step::Write,
            Step::Flush,
        ],
        !prompt.has_message && prompt.reads_line ==> prompt.plan() == seq![
            Step::Flush,
            Step::Read,
        ],
        !prompt.has_message && !prompt.reads_line ==> prompt.plan() == seq![Step::Flush],
{
    let plan = prompt.plan();
    if prompt.has_message && prompt.reads_line {
        assert(plan =~= seq![Step::Write, Step::Flush, Step::Read]);
    } else if prompt.has_message {
        assert(plan =~= seq![Step::Write, Step::Flush]);
    } else if prompt.reads_line {
        assert(plan =~= seq![Step::Flush, Step::Read]);
    } else {
        assert(plan =~= seq![Step::Flush]);
    }
}

/// A prompt without a message that wants no line only flushes: nothing is
/// written and nothing is read.
pub proof fn lemma_bare_prompt_only_flushes(prompt: Prompt)
    requires
        !prompt.has_message,
        !prompt.reads_line,
    ensures
        prompt.plan() == seq![Step::Flush],
        !prompt.plan().contains(Step::Write),
        !prompt.plan().contains(Step::Read),
{
    lemma_plans(prompt);
}

/// In every plan the output is flushed exactly once, whatever is written is
/// written before the flush and whatever is read is read after it.
pub proof fn lemma_flush_between_write_and_read(prompt: Prompt, i: int, j: int)
    requires
        0 <= i < prompt.plan().len(),
        0 <= j < prompt.plan().len(),
    ensures
        prompt.plan().contains(Step::Flush),
        prompt.plan()[i] == prompt.plan()[j] ==> i == j,
        prompt.plan()[i] == Step::Write && prompt.plan()[j] != Step::Write ==> i < j,
        prompt.plan()[i] != Step::Read && prompt.plan()[j] == Step::Read ==> i < j,
{
    lemma_plans(prompt);
    let plan = prompt.plan();
    let k: int = if prompt.has_message {
        1
    } else {
        0
    };
    assert(plan[k] == Step::Flush);
}

/// A message is written exactly when there is one, and a line is read
/// exactly when one is wanted.
pub proof fn lemma_plan_holds_what_is_asked(prompt: Prompt)
    ensures
        prompt.plan().contains(Step::Write) <==> prompt.has_message,
        prompt.plan().contains(Step::Read) <==> prompt.reads_line,
{
    lemma_plans(prompt);
    let plan = prompt.plan();
    if prompt.has_message {
        assert(plan[0] == Step::Write);
    }
    if prompt.reads_line {
        assert(plan[plan.len() - 1] == Step::Read);
    }
}

} // verus!
