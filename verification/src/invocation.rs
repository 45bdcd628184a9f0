//! The command under test: the program to run and its arguments.

use vstd::prelude::*;
use vstd::slice::slice_subrange;
use vstd::string::*;
use crate::failure::Failure;

verus! {

/// The texts of `words`, in order.
pub open spec fn texts(words: Seq<String>) -> Seq<Seq<char>> {
    Seq::new(words.len(), |i: int| words[i]@)
}

/// `words` written one after the other with a single space between
/// neighbours: no space before the first word or after the last.
pub open spec fn joined(words: Seq<Seq<char>>) -> Seq<char>
    decreases words.len(),
{
    if words.len() == 0 {
        Seq::empty()
    } else if words.len() == 1 {
        words[0]
    } else {
        joined(words.drop_last()) + seq![' '] + words.last()
    }
}

/// A program name followed by the arguments it is to be run with.
///
/// An invocation always names a program: it holds at least one word.
pub struct InvocationSpec {
    words: Vec<String>,
}

impl View for InvocationSpec {
    type V = Seq<Seq<char>>;

    closed spec fn view(&self) -> Seq<Seq<char>> {
        texts(self.words@)
    }
}

impl InvocationSpec {
    #[verifier::type_invariant]
    spec fn inv(&self) -> bool {
        self.words@.len() > 0
    }

    /// The invocation that the command-line words `args` spell out: the
    /// first word is the program, the others are passed to it verbatim.
    ///
    /// Fails with [`Failure::NoCommand`] exactly when `args` is empty.
    pub fn from_args(args: Vec<String>) -> (made: Result<InvocationSpec, Failure>)
        ensures
            match made {
                Ok(invocation) => args@.len() > 0 && invocation@ == texts(args@),
                Err(failure) => args@.len() == 0 && failure == Failure::NoCommand,
            },
    {
        if args.len() == 0 {
            Err(Failure::NoCommand)
        } else {
            Ok(InvocationSpec { words: args })
        }
    }

    /// The program to run.
    pub fn program(&self) -> (name: &str)
        ensures
            self@.len() > 0,
            name@ == self@[0],
    {
        proof {
            use_type_invariant(self);
        }
        self.words[0].as_str()
    }

    /// The arguments to pass to the program, in order.
    pub fn arguments(&self) -> (rest: &[String])
        ensures
            self@.len() > 0,
            texts(rest@) == self@.drop_first(),
    {
        proof {
            use_type_invariant(self);
        }
        let rest = slice_subrange(self.words.as_slice(), 1, self.words.len());
        assert(texts(rest@) =~= self@.drop_first());
        rest
    }

    /// The command as one line: its words joined by single spaces.
    pub fn command_line(&self) -> (line: String)
        ensures
            line@ == joined(self@),
    {
        proof {
            use_type_invariant(self);
            reveal_strlit(" ");
        }
        let mut line = String::from_str(self.words[0].as_str());
        assert(self@.take(1) =~= seq![self@[0]]);
        let mut i: usize = 1;
        while i < self.words.len()
            invariant
                1 <= i <= self.words@.len(),
                " "@ == seq![' '],
                line@ == joined(self@.take(i as int)),
            decreases self.words@.len() - i,
        {
            line.append(" ");
            line.append(self.words[i].as_str());
            assert(self@.take(i + 1).drop_last() =~= self@.take(i as int));
            i = i + 1;
        }
        assert(self@.take(i as int) =~= self@);
        line
    }
}

} // verus!
