//! The library's error: a chain of causes, the outermost first.

use vstd::prelude::*;

verus! {

/// Marks a failure that came about because an interruption was asked for.
#[derive(Debug)]
pub struct Interrupted;

/// Marks a failure that came about because the deadline had passed.
#[derive(Debug)]
pub struct TimedOut;

/// One link of an error's chain.
#[derive(Debug)]
pub enum Cause {
    Message(String),
    Interrupted(Interrupted),
    TimedOut(TimedOut),
}

/// What a [`Cause`] says.
pub enum Reason {
    Message(Seq<char>),
    Interrupted,
    TimedOut,
}

/// A failure, with the context it was given on its way up.
#[derive(Debug)]
pub struct Error {
    /// The outermost cause comes first, the root cause last.
    pub causes: Vec<Cause>,
}

impl View for Cause {
    type V = Reason;

    open spec fn view(&self) -> Reason {
        match self {
            Cause::Message(text) => Reason::Message(text@),
            Cause::Interrupted(_) => Reason::Interrupted,
            Cause::TimedOut(_) => Reason::TimedOut,
        }
    }
}

impl View for Error {
    type V = Seq<Reason>;

    open spec fn view(&self) -> Seq<Reason> {
        Seq::new(self.causes@.len(), |i: int| self.causes@[i]@)
    }
}

impl Reason {
    /// The text that stands for this link of the chain.
    pub open spec fn text(self) -> Seq<char> {
        match self {
            Reason::Message(text) => text,
            Reason::Interrupted => "the worker was interrupted"@,
            Reason::TimedOut => "the worker ran into its deadline"@,
        }
    }
}

/// The whole chain on one line, the causes set apart by a colon and a space.
pub open spec fn chain_text(reasons: Seq<Reason>) -> Seq<char>
    decreases reasons.len(),
{
    if reasons.len() == 0 {
        Seq::empty()
    } else if reasons.len() == 1 {
        reasons[0].text()
    } else {
        chain_text(reasons.drop_last()) + ": "@ + reasons.last().text()
    }
}

/// The chain of an error that has one message and no context.
pub open spec fn just(text: Seq<char>) -> Seq<Reason> {
    seq![Reason::Message(text)]
}

/// The chain with one more link on the outside.
pub open spec fn wrapped(reason: Reason, inner: Seq<Reason>) -> Seq<Reason> {
    seq![reason] + inner
}

/// An outcome, with its error seen as a chain.
pub open spec fn causes_of<T>(outcome: Result<T, Error>) -> Result<T, Seq<Reason>> {
    match outcome {
        Ok(value) => Ok(value),
        Err(error) => Err(error@),
    }
}

impl Cause {
    /// The text of this link alone.
    pub fn text(&self) -> (text: String)
        ensures
            text@ == self@.text(),
    {
        match self {
            Cause::Message(text) => text.clone(),
            Cause::Interrupted(_) => "the worker was interrupted".to_owned(),
            Cause::TimedOut(_) => "the worker ran into its deadline".to_owned(),
        }
    }
}

impl Error {
    /// An error with this message as its only cause.
    pub fn message(text: String) -> (error: Error)
        ensures
            error@ == just(text@),
    {
        let mut causes: Vec<Cause> = Vec::new();
        causes.push(Cause::Message(text));
        Error { causes }
    }

    /// The same failure, seen from one level further up.
    pub fn context(self, cause: Cause) -> (error: Error)
        ensures
            error@ == wrapped(cause@, self@),
    {
        let mut error: Error = self;
        error.causes.insert(0, cause);
        assert(error@ =~= wrapped(cause@, self@));
        error
    }

    /// Whether an interruption is among the causes.
    pub fn is_interrupted(&self) -> (found: bool)
        ensures
            found == self@.contains(Reason::Interrupted),
    {
        let mut i: usize = 0;
        while i < self.causes.len()
            invariant
                i <= self.causes@.len(),
                forall|j: int| 0 <= j < i ==> self@[j] != Reason::Interrupted,
            decreases self.causes@.len() - i,
        {
            if let Cause::Interrupted(_) = &self.causes[i] {
                assert(self@[i as int] == Reason::Interrupted);
                return true;
            }
            i = i + 1;
        }
        false
    }

    /// Whether a missed deadline is among the causes.
    pub fn is_timed_out(&self) -> (found: bool)
        ensures
            found == self@.contains(Reason::TimedOut),
    {
        let mut i: usize = 0;
        while i < self.causes.len()
            invariant
                i <= self.causes@.len(),
                forall|j: int| 0 <= j < i ==> self@[j] != Reason::TimedOut,
            decreases self.causes@.len() - i,
        {
            if let Cause::TimedOut(_) = &self.causes[i] {
                assert(self@[i as int] == Reason::TimedOut);
                return true;
            }
            i = i + 1;
        }
        false
    }

    /// The whole chain on one line.
    pub fn describe(&self) -> (text: String)
        ensures
            text@ == chain_text(self@),
    {
        let mut text: String = String::new();
        let mut i: usize = 0;
        while i < self.causes.len()
            invariant
                i <= self.causes@.len(),
                text@ == chain_text(self@.take(i as int)),
            decreases self.causes@.len() - i,
        {
            let cause: String = self.causes[i].text();
            proof {
                assert(self@.take(i as int + 1).drop_last() =~= self@.take(i as int));
            }
            if i > 0 {
                text.append(": ");
            }
            text.append(cause.as_str());
            i = i + 1;
        }
        assert(self@.take(i as int) =~= self@);
        text
    }
}

/// Context neither hides an interruption nor invents one.
pub proof fn context_keeps_interruption(reason: Reason, inner: Seq<Reason>)
    ensures
        wrapped(reason, inner).contains(Reason::Interrupted) <==> (reason == Reason::Interrupted
            || inner.contains(Reason::Interrupted)),
{
    lemma_wrapped_contains(reason, inner, Reason::Interrupted);
}

/// Context neither hides a missed deadline nor invents one.
pub proof fn context_keeps_deadline(reason: Reason, inner: Seq<Reason>)
    ensures
        wrapped(reason, inner).contains(Reason::TimedOut) <==> (reason == Reason::TimedOut
            || inner.contains(Reason::TimedOut)),
{
    lemma_wrapped_contains(reason, inner, Reason::TimedOut);
}

/// Context comes first in what is told of a failure, set apart from the rest by a
/// colon and a space.
pub proof fn context_is_told_first(reason: Reason, inner: Seq<Reason>)
    requires
        inner.len() > 0,
    ensures
        chain_text(wrapped(reason, inner)) == reason.text() + ": "@ + chain_text(inner),
    decreases inner.len(),
{
    let chain = wrapped(reason, inner);
    assert(chain.drop_last() =~= wrapped(reason, inner.drop_last()));
    assert(chain.last() == inner.last());
    if inner.len() == 1 {
        assert(chain.drop_last() =~= seq![reason]);
        assert(chain_text(seq![reason]) == reason.text());
    } else {
        context_is_told_first(reason, inner.drop_last());
        assert(chain_text(chain) =~= reason.text() + ": "@ + chain_text(inner));
    }
}

proof fn lemma_wrapped_contains(reason: Reason, inner: Seq<Reason>, sought: Reason)
    ensures
        wrapped(reason, inner).contains(sought) <==> (reason == sought || inner.contains(sought)),
{
    let chain = wrapped(reason, inner);
    if reason == sought {
        assert(chain[0] == sought);
    }
    if inner.contains(sought) {
        let i = choose|i: int| 0 <= i < inner.len() && inner[i] == sought;
        assert(chain[i + 1] == sought);
    }
    if chain.contains(sought) {
        let i = choose|i: int| 0 <= i < chain.len() && chain[i] == sought;
        if i > 0 {
            assert(inner[i - 1] == sought);
        }
    }
}

/// An error is its causes, one for one. A message makes an error with itself as the only
/// cause, and context puts one more in front of the others.
pub proof fn errors_are_their_causes(
    text: String,
    plain: Error,
    inner: Error,
    cause: Cause,
    outer: Error,
    i: int,
)
    requires
        call_ensures(Error::message, (text,), plain),
        call_ensures(Error::context, (inner, cause), outer),
    ensures
        plain@.len() == 1,
        plain@[0] == Reason::Message(text@),
        outer@.len() == inner@.len() + 1,
        outer@[0] == (match cause {
            Cause::Message(text) => Reason::Message(text@),
            Cause::Interrupted(_) => Reason::Interrupted,
            Cause::TimedOut(_) => Reason::TimedOut,
        }),
        outer@.drop_first() == inner@,
        inner@.len() == inner.causes@.len(),
        0 <= i < inner@.len() ==> inner@[i] == (match inner.causes@[i] {
            Cause::Message(text) => Reason::Message(text@),
            Cause::Interrupted(_) => Reason::Interrupted,
            Cause::TimedOut(_) => Reason::TimedOut,
        }),
{
    assert(outer@.drop_first() =~= inner@);
}

/// A mark is found exactly if one of the causes is that mark, wherever it stands.
pub proof fn marks_are_found_wherever_they_stand(error: Error, interrupted: bool, timed_out: bool)
    requires
        call_ensures(Error::is_interrupted, (&error,), interrupted),
        call_ensures(Error::is_timed_out, (&error,), timed_out),
    ensures
        interrupted <==> exists|i: int|
            0 <= i < error.causes@.len() && (#[trigger] error.causes@[i]) is Interrupted,
        timed_out <==> exists|i: int|
            0 <= i < error.causes@.len() && (#[trigger] error.causes@[i]) is TimedOut,
{
    assert forall|i: int| 0 <= i < error.causes@.len() implies error@[i] == (
    #[trigger] error.causes@[i])@ by {}
    if interrupted {
        let i = choose|i: int| 0 <= i < error@.len() && error@[i] == Reason::Interrupted;
        assert(error.causes@[i] is Interrupted);
    }
    if timed_out {
        let i = choose|i: int| 0 <= i < error@.len() && error@[i] == Reason::TimedOut;
        assert(error.causes@[i] is TimedOut);
    }
    if exists|i: int|
        0 <= i < error.causes@.len() && (#[trigger] error.causes@[i]) is Interrupted {
        let i = choose|i: int|
            0 <= i < error.causes@.len() && (#[trigger] error.causes@[i]) is Interrupted;
        assert(error@[i] == Reason::Interrupted);
    }
    if exists|i: int| 0 <= i < error.causes@.len() && (#[trigger] error.causes@[i]) is TimedOut {
        let i = choose|i: int|
            0 <= i < error.causes@.len() && (#[trigger] error.causes@[i]) is TimedOut;
        assert(error@[i] == Reason::TimedOut);
    }
}

/// What is told of an error: the text of its only cause; and what is told of an error with
/// context is the text of the context, a colon and a space, and what was told without it.
pub proof fn errors_are_told_from_the_outside_in(
    inner: Error,
    cause: Cause,
    outer: Error,
    cause_text: String,
    inner_text: String,
    outer_text: String,
)
    requires
        inner.causes@.len() > 0,
        call_ensures(Error::context, (inner, cause), outer),
        call_ensures(Cause::text, (&cause,), cause_text),
        call_ensures(Error::describe, (&inner,), inner_text),
        call_ensures(Error::describe, (&outer,), outer_text),
    ensures
        cause_text@ == (match cause {
            Cause::Message(text) => text@,
            Cause::Interrupted(_) => "the worker was interrupted"@,
            Cause::TimedOut(_) => "the worker ran into its deadline"@,
        }),
        inner.causes@.len() == 1 ==> inner_text@ == (match inner.causes@[0] {
            Cause::Message(text) => text@,
            Cause::Interrupted(_) => "the worker was interrupted"@,
            Cause::TimedOut(_) => "the worker ran into its deadline"@,
        }),
        outer_text@ == cause_text@ + ": "@ + inner_text@,
{
    context_is_told_first(cause@, inner@);
}

} // verus!
