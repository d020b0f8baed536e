//! The line transport's computations: assembling newline-delimited lines from
//! the byte chunks a socket read hands over, decoding them to text, and
//! framing outgoing text as newline-terminated bytes.

use vstd::prelude::*;

verus! {

use crate::text::{bytes_to_utf8, trim_end_line, trimmed_end};
use vstd::slice::slice_index_get;
use vstd::string::StrSliceExecFns;
use vstd::utf8::{decode_utf8, encode_utf8, valid_utf8};

/// The newline byte that delimits lines in both directions.
pub open spec fn newline() -> u8 {
    10
}

/// Assembles incoming bytes into newline-delimited lines.  Reads from a
/// socket may split or coalesce lines arbitrarily, so the bytes are buffered
/// as they arrive and a line is taken off as soon as its newline has been
/// observed; whatever follows stays pending for the next line.
pub struct LineAssembler {
    pending: Vec<u8>,
}

impl View for LineAssembler {
    type V = Seq<u8>;

    closed spec fn view(&self) -> Seq<u8> {
        self.pending@
    }
}

impl LineAssembler {
    pub fn new() -> (r: LineAssembler)
        ensures
            r@ == Seq::<u8>::empty(),
    {
        LineAssembler { pending: Vec::new() }
    }

    /// Folds one freshly-read chunk into the pending bytes.
    pub fn feed(&mut self, chunk: &[u8])
        ensures
            final(self)@ == old(self)@ + chunk@,
    {
        let n = chunk.len();
        let mut k: usize = 0;
        while k < n
            invariant
                n == chunk@.len(),
                k <= n,
                self@ == old(self)@ + chunk@.take(k as int),
            decreases n - k,
        {
            self.pending.push(*slice_index_get(chunk, k));
            proof {
                assert(chunk@.take(k as int).push(chunk@[k as int]) =~= chunk@.take(k + 1));
            }
            k += 1;
        }
        proof {
            assert(chunk@.take(n as int) =~= chunk@);
        }
    }

    /// Takes the first complete line off the pending bytes: everything before
    /// the first newline, which is consumed along with it.  Without a newline
    /// among the pending bytes there is no line yet.
    pub fn next_line(&mut self) -> (r: Option<Vec<u8>>)
        ensures
            match r {
                Some(taken) => old(self)@.index_of_first(newline()) matches Some(i) && taken@
                    == old(self)@.subrange(0, i) && final(self)@ == old(self)@.subrange(
                    i + 1,
                    old(self)@.len() as int,
                ),
                None => old(self)@.index_of_first(newline()) is None && final(self)@ == old(
                    self,
                )@,
            },
    {
        let n = self.pending.len();
        let mut i: usize = 0;
        while i < n
            invariant
                n == self@.len(),
                i <= n,
                self@ == old(self)@,
                forall|j: int| 0 <= j < i ==> self@[j] != newline(),
            decreases n - i,
        {
            if self.pending[i] == 10u8 {
                proof {
                    old(self)@.index_of_first_ensures(newline());
                    assert(old(self)@.contains(newline())) by {
                        assert(old(self)@[i as int] == newline());
                    }
                }
                let mut taken: Vec<u8> = Vec::new();
                let mut k: usize = 0;
                while k < i
                    invariant
                        k <= i,
                        i < self@.len(),
                        self@ == old(self)@,
                        taken@ == self@.subrange(0, k as int),
                    decreases i - k,
                {
                    taken.push(self.pending[k]);
                    proof {
                        assert(self@.subrange(0, k as int).push(self@[k as int]) =~= self@.subrange(
                            0,
                            k + 1,
                        ));
                    }
                    k += 1;
                }
                let rest = self.pending.split_off(i + 1);
                self.pending = rest;
                return Some(taken);
            }
            i += 1;
        }
        proof {
            old(self)@.index_of_first_ensures(newline());
            if old(self)@.contains(newline()) {
                let w = choose|w: int|
                    0 <= w < old(self)@.len() && old(self)@[w] == newline();
                assert(old(self)@[w] != newline());
            }
        }
        None
    }
}

/// Turns the bytes of one assembled line into text: they must decode as
/// UTF-8, and trailing whitespace (a carriage return before the newline
/// included) is trimmed.  `None` is the malformed-bytes case; the caller
/// tears the session down on it.
pub fn decode_line(gathered: &Vec<u8>) -> (r: Option<String>)
    ensures
        match r {
            Some(s) => valid_utf8(gathered@) && s@ == trimmed_end(decode_utf8(gathered@)),
            None => !valid_utf8(gathered@),
        },
{
    match bytes_to_utf8(gathered.as_slice()) {
        Some(s) => Some(trim_end_line(s)),
        None => None,
    }
}

/// Frames one outgoing line: the text's UTF-8 bytes followed by the single
/// newline terminator.
pub fn encode_line(text: &str) -> (r: Vec<u8>)
    ensures
        r@ == encode_utf8(text@).push(newline()),
{
    let mut bytes = text.as_bytes_vec();
    bytes.push(10u8);
    bytes
}

} // verus!
