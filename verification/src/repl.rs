//! The state of a read-evaluate-print loop. Reading lines and printing
//! replies is left to the program around it.

use crate::token::same_text;
use vstd::prelude::*;

verus! {

/// What a line of input asks of the loop.
#[derive(Debug, Clone, Copy, PartialEq, Eq, Structural)]
pub enum Command {
    /// Leave the loop.
    Exit,
    /// Clear the screen.
    Clear,
    /// Hand the line to the evaluator.
    Evaluate,
}

/// The command that `input` stands for: `exit` and `quit` leave the loop,
/// `clear` clears the screen, and every other line is evaluated.
pub open spec fn command_of(input: Seq<char>) -> Command {
    if input == "exit"@ || input == "quit"@ {
        Command::Exit
    } else if input == "clear"@ {
        Command::Clear
    } else {
        Command::Evaluate
    }
}

/// A prompt, a state, and the evaluator that answers a line of input from
/// the state.
pub struct Repl<S, F> where F: Fn(&mut S, String) -> String {
    state: S,
    print: &'static str,
    evaluate: F,
}

impl<S, F> Repl<S, F> where F: Fn(&mut S, String) -> String {
    /// The state that the evaluator works on.
    pub closed spec fn state(&self) -> S {
        self.state
    }

    /// The text of the prompt.
    pub closed spec fn prompt_text(&self) -> Seq<char> {
        self.print@
    }

    /// The evaluator.
    pub closed spec fn evaluator(&self) -> F {
        self.evaluate
    }

    /// A loop that prompts with `print`, starts from `state` and answers
    /// with `evaluate`.
    pub fn new(print: &'static str, state: S, evaluate: F) -> (repl: Self)
        ensures
            repl.prompt_text() == print@,
            repl.state() == state,
            repl.evaluator() == evaluate,
    {
        Self { state, evaluate, print }
    }

    /// The prompt.
    pub fn prompt(&self) -> (print: &'static str)
        ensures
            print@ == self.prompt_text(),
    {
        self.print
    }

    /// The command that a line of input stands for.
    pub fn command(input: &str) -> (command: Command)
        ensures
            command == command_of(input@),
    {
        if same_text(input, "exit") || same_text(input, "quit") {
            Command::Exit
        } else if same_text(input, "clear") {
            Command::Clear
        } else {
            Command::Evaluate
        }
    }

    /// Hands `input` to the evaluator, which may change the state, and
    /// returns its answer.
    pub fn respond(&mut self, input: String) -> (reply: String)
        requires
            forall|state: &mut S, line: String| call_requires(old(self).evaluator(), (state, line)),
        ensures
            final(self).prompt_text() == old(self).prompt_text(),
            final(self).evaluator() == old(self).evaluator(),
            exists|state: &mut S|
                *state == old(self).state() && *final(state) == final(self).state()
                    && #[trigger] call_ensures(old(self).evaluator(), (state, input), reply),
    {
        let evaluate = &self.evaluate;
        assert(*evaluate == old(self).evaluator());
        evaluate(&mut self.state, input)
    }
}

} // verus!
