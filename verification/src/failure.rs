//! What went wrong, as a chain of messages from the outermost to the cause.

use vstd::prelude::*;

use crate::text::{join, joined, texts};

verus! {

/// A failure: the message of what failed, then what caused it, then the cause
/// of that, and so on. There is at least one message.
#[derive(Debug)]
pub struct Failure {
    chain: Vec<String>,
}

impl View for Failure {
    type V = Seq<Seq<char>>;

    closed spec fn view(&self) -> Seq<Seq<char>> {
        texts(self.chain@)
    }
}

impl Failure {
    /// There is at least one message.
    #[verifier::type_invariant]
    closed spec fn inv(self) -> bool {
        self.chain@.len() > 0
    }

    /// A failure with a message and no cause.
    pub fn new(message: String) -> (r: Failure)
        ensures
            r@ == seq![message@],
    {
        let mut chain: Vec<String> = Vec::new();
        chain.push(message);
        let r = Failure { chain };
        assert(r@ =~= seq![message@]);
        r
    }

    /// A failure with a message and one cause.
    pub fn caused(message: String, cause: String) -> (r: Failure)
        ensures
            r@ == seq![message@, cause@],
    {
        let mut chain: Vec<String> = Vec::new();
        chain.push(message);
        chain.push(cause);
        let r = Failure { chain };
        assert(r@ =~= seq![message@, cause@]);
        r
    }

    /// The same failure as the cause of a new message.
    pub fn context(self, message: String) -> (r: Failure)
        ensures
            r@ == seq![message@] + self@,
    {
        let mut chain: Vec<String> = self.chain;
        chain.insert(0, message);
        let r = Failure { chain };
        assert(r@ =~= seq![message@] + self@);
        r
    }

    /// The outermost message.
    pub fn message(&self) -> (r: String)
        ensures
            self@.len() > 0,
            r@ == self@[0],
    {
        proof {
            use_type_invariant(self);
        }
        self.chain[0].clone()
    }

    /// All messages from the outermost to the cause, with a colon between any two.
    pub fn report(&self) -> (r: String)
        ensures
            r@ == joined(self@, ": "@),
    {
        join(&self.chain, ": ")
    }

    /// The messages from the outermost to the cause.
    pub fn messages(&self) -> (r: Vec<String>)
        ensures
            texts(r@) == self@,
    {
        let mut out: Vec<String> = Vec::new();
        let mut i: usize = 0;
        while i < self.chain.len()
            invariant
                i <= self.chain@.len(),
                texts(out@) == self@.take(i as int),
            decreases self.chain@.len() - i,
        {
            let ghost before = out@;
            out.push(self.chain[i].clone());
            assert(texts(out@) =~= texts(before).push(self@[i as int]));
            assert(self@.take(i + 1) =~= self@.take(i as int).push(self@[i as int]));
            i = i + 1;
        }
        assert(self@.take(i as int) =~= self@);
        out
    }
}

} // verus!
