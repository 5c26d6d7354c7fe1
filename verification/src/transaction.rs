//! The record as the feed service stores and serves it, and the formatting
//! of a raw 32-byte transaction hash into its textual `0x`-prefixed form.

use vstd::prelude::*;
use crate::text::push_char;

verus! {

/// One record on the wire: the textual hash, the decoded message, the block
/// timestamp in seconds, and the optional source and destination addresses.
pub struct Transaction {
    pub hash: String,
    pub message: String,
    pub timestamp: u64,
    pub from: Option<String>,
    pub to: Option<String>,
}

/// Mathematical image of a wire [`Transaction`].
pub ghost struct TransactionDataView {
    pub hash: Seq<char>,
    pub message: Seq<char>,
    pub timestamp: u64,
    pub from: Option<Seq<char>>,
    pub to: Option<Seq<char>>,
}

impl View for Transaction {
    type V = TransactionDataView;

    open spec fn view(&self) -> TransactionDataView {
        TransactionDataView {
            hash: self.hash@,
            message: self.message@,
            timestamp: self.timestamp,
            from: match self.from {
                Some(s) => Some(s@),
                None => None,
            },
            to: match self.to {
                Some(s) => Some(s@),
                None => None,
            },
        }
    }
}

impl Clone for Transaction {
    fn clone(&self) -> (r: Self)
        ensures
            r@ == self@,
    {
        Transaction {
            hash: self.hash.clone(),
            message: self.message.clone(),
            timestamp: self.timestamp,
            from: match &self.from {
                Some(s) => Some(s.clone()),
                None => None,
            },
            to: match &self.to {
                Some(s) => Some(s.clone()),
                None => None,
            },
        }
    }
}

/// The lower-case hexadecimal digit of a value below 16.
pub open spec fn hex_digit(n: int) -> char {
    if n < 10 {
        ((48 + n) as u32) as char
    } else {
        ((87 + n) as u32) as char
    }
}

/// The lower-case hexadecimal spelling of a byte string, two digits per
/// byte, high digit first.
pub open spec fn hex_of(bytes: Seq<u8>) -> Seq<char> {
    Seq::new(
        bytes.len() * 2,
        |i: int|
            if i % 2 == 0 {
                hex_digit(bytes[i / 2] as int / 16)
            } else {
                hex_digit(bytes[i / 2] as int % 16)
            },
    )
}

/// The lower-case hexadecimal digit of a value below 16.
fn hex_char(n: u8) -> (c: char)
    requires
        n < 16,
    ensures
        c == hex_digit(n as int),
{
    if n < 10 {
        (48 + n) as char
    } else {
        (87 + n) as char
    }
}

impl Transaction {
    /// A record built from a raw 32-byte transaction hash, a decoded
    /// message, and a block timestamp: the hash is spelled `0x` followed by
    /// its lower-case hexadecimal digits.
    pub fn new(hash: Vec<u8>, message: String, timestamp: u64) -> (r: Self)
        ensures
            r.hash@ == seq!['0', 'x'] + hex_of(hash@),
            r.message == message,
            r.timestamp == timestamp,
            r.from is None,
            r.to is None,
    {
        let mut h = String::new();
        push_char(&mut h, '0');
        push_char(&mut h, 'x');
        proof {
            assert(h@ =~= seq!['0', 'x'] + hex_of(hash@.subrange(0, 0)));
        }
        let n = hash.len();
        let mut i: usize = 0;
        while i < n
            invariant
                n == hash@.len(),
                0 <= i <= n,
                h@ == seq!['0', 'x'] + hex_of(hash@.subrange(0, i as int)),
            decreases n - i,
        {
            let b = hash[i];
            push_char(&mut h, hex_char(b / 16));
            push_char(&mut h, hex_char(b % 16));
            proof {
                assert(hex_of(hash@.subrange(0, i + 1)) =~= hex_of(hash@.subrange(0, i as int))
                    + seq![
                    hex_digit(hash@[i as int] as int / 16),
                    hex_digit(hash@[i as int] as int % 16),
                ]);
                assert(h@ =~= seq!['0', 'x'] + hex_of(hash@.subrange(0, i + 1)));
            }
            i += 1;
        }
        proof {
            assert(hash@.subrange(0, n as int) =~= hash@);
        }
        Transaction { hash: h, message, timestamp, from: None, to: None }
    }
}

} // verus!
