//! The crate's error: a message, and what caused it.

use vstd::prelude::*;

use crate::text;

verus! {

/// Why an operation failed. The view is the chain of messages, outermost
/// first: the first says what failed, each later one why.
#[derive(Debug)]
pub struct Error {
    chain: Vec<String>,
}

impl View for Error {
    type V = Seq<Seq<char>>;

    closed spec fn view(&self) -> Seq<Seq<char>> {
        text::texts(self.chain@)
    }
}

/// What a fallible operation came to: its value, or the messages of its error.
pub open spec fn outcome<T>(r: Result<T, Error>) -> Result<T, Seq<Seq<char>>> {
    match r {
        Ok(value) => Ok(value),
        Err(e) => Err(e@),
    }
}

/// The same for an operation that gives a text.
pub open spec fn text_outcome(r: Result<String, Error>) -> Result<Seq<char>, Seq<Seq<char>>> {
    match r {
        Ok(value) => Ok(value@),
        Err(e) => Err(e@),
    }
}

impl Error {
    /// The invariant of the chain: there is always a message.
    #[verifier::type_invariant]
    spec fn has_message(&self) -> bool {
        self.chain@.len() > 0
    }

    pub fn new(message: String) -> (e: Self)
        ensures
            e@ == seq![message@],
    {
        let mut chain: Vec<String> = Vec::new();
        chain.push(message);
        assert(text::texts(chain@) =~= seq![chain@[0]@]);
        Error { chain }
    }

    pub fn of(message: &str) -> (e: Self)
        ensures
            e@ == seq![message@],
    {
        Error::new(message.to_string())
    }

    /// A failure, and what caused it in the words of others.
    pub fn caused(message: String, cause: String) -> (e: Self)
        ensures
            e@ == seq![message@, cause@],
    {
        let mut chain: Vec<String> = Vec::new();
        chain.push(message);
        chain.push(cause);
        assert(text::texts(chain@) =~= seq![message@, cause@]);
        Error { chain }
    }

    /// The same failure, seen as the cause of another one.
    pub fn context(self, message: String) -> (e: Self)
        ensures
            e@ == seq![message@] + self@,
    {
        let mut chain: Vec<String> = Vec::new();
        chain.push(message);
        let mut i: usize = 0;
        while i < self.chain.len()
            invariant
                i <= self.chain@.len(),
                chain@.len() > 0,
                text::texts(chain@) == seq![message@] + text::texts(self.chain@).take(i as int),
            decreases self.chain@.len() - i,
        {
            let ghost shorter = text::texts(chain@);
            chain.push(self.chain[i].clone());
            assert(text::texts(chain@) =~= shorter.push(self.chain@[i as int]@));
            assert(text::texts(self.chain@).take(i + 1) =~= text::texts(self.chain@).take(
                i as int,
            ).push(self.chain@[i as int]@));
            assert(text::texts(chain@) =~= seq![message@] + text::texts(self.chain@).take(i + 1));
            i = i + 1;
        }
        assert(text::texts(self.chain@).take(i as int) =~= text::texts(self.chain@));
        Error { chain }
    }

    /// What failed.
    pub fn message(&self) -> (r: String)
        ensures
            r@ == self@[0],
            self@.len() > 0,
    {
        proof {
            use_type_invariant(self);
        }
        self.chain[0].clone()
    }

    /// The same error.
    pub fn clone_error(&self) -> (e: Self)
        ensures
            e@ == self@,
    {
        proof {
            use_type_invariant(self);
            assert(text::texts(self.chain@).len() == self.chain@.len());
        }
        let chain: Vec<String> = text::clone_strings(self.chain.as_slice());
        assert(text::texts(chain@).len() == chain@.len());
        Error { chain }
    }

    /// What failed and why, outermost first.
    pub fn messages(&self) -> (r: Vec<String>)
        ensures
            text::texts(r@) == self@,
    {
        text::clone_strings(self.chain.as_slice())
    }
}

} // verus!
