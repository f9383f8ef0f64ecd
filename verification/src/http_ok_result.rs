//! A successful HTTP outcome: the status, body and content type the
//! core decides; the transport layer serializes them.

use vstd::prelude::*;
use crate::web_content_type::WebContentType;

verus! {

#[derive(Debug, Clone)]
pub enum HttpOkResult {
    Okay,
    Content { content_type: Option<WebContentType>, content: Vec<u8> },
    Text { text: String },
    Redirect { url: String },
}

/// The decimal digits of `n`, most significant first, as ASCII bytes.
pub open spec fn dec_digits(n: nat) -> Seq<u8>
    decreases n,
{
    if n < 10 {
        seq![(48 + n) as u8]
    } else {
        dec_digits(n / 10).push((48 + n % 10) as u8)
    }
}

/// The reverse of a byte sequence.
pub open spec fn rev_seq(s: Seq<u8>) -> Seq<u8> {
    Seq::new(s.len(), |i: int| s[s.len() - 1 - i])
}

/// The decimal text of `number`, as ASCII bytes.
pub fn usize_to_dec_bytes(number: usize) -> (r: Vec<u8>)
    ensures
        r@ == dec_digits(number as nat),
{
    let mut rev: Vec<u8> = Vec::new();
    let mut m: usize = number;
    let ghost prev_rev = rev@;
    let d0: u8 = 48 + (m % 10) as u8;
    rev.push(d0);
    proof {
        assert(rev_seq(rev@) =~= seq![d0]);
        if m >= 10 {
            assert(dec_digits(m as nat) == dec_digits((m as nat) / 10).push(d0));
            assert(dec_digits((m as nat) / 10) + rev_seq(rev@) =~= dec_digits(
                (m as nat) / 10,
            ).push(d0));
        }
    }
    m = m / 10;
    while m > 0
        invariant
            dec_digits(number as nat) == if m > 0 {
                dec_digits(m as nat) + rev_seq(rev@)
            } else {
                rev_seq(rev@)
            },
        decreases m,
    {
        let ghost old_rev = rev@;
        let d: u8 = 48 + (m % 10) as u8;
        rev.push(d);
        proof {
            assert(rev_seq(rev@) =~= seq![d] + rev_seq(old_rev));
            if m >= 10 {
                assert(dec_digits(m as nat) == dec_digits((m as nat) / 10).push(d));
                assert(dec_digits((m as nat) / 10) + rev_seq(rev@) =~= (dec_digits(
                    (m as nat) / 10,
                ).push(d)) + rev_seq(old_rev));
            } else {
                assert(dec_digits(m as nat) =~= seq![d]);
                assert(rev_seq(rev@) =~= dec_digits(m as nat) + rev_seq(old_rev));
            }
        }
        m = m / 10;
    }
    let mut r: Vec<u8> = Vec::new();
    let mut j: usize = rev.len();
    while j > 0
        invariant
            j <= rev.len(),
            r@.len() == rev@.len() - j,
            forall|t: int| 0 <= t < r@.len() ==> r@[t] == rev@[rev@.len() - 1 - t],
        decreases j,
    {
        j = j - 1;
        r.push(rev[j]);
    }
    proof {
        assert(r@ =~= rev_seq(rev@));
    }
    r
}

impl HttpOkResult {
    pub fn create_as_usize(number: usize) -> (r: HttpOkResult)
        ensures
            r matches HttpOkResult::Content { content_type, content } && content_type == Some(
                WebContentType::Text,
            ) && content@ == dec_digits(number as nat),
    {
        HttpOkResult::Content {
            content_type: Some(WebContentType::Text),
            content: usize_to_dec_bytes(number),
        }
    }

    pub fn redirect(src: &str) -> (r: HttpOkResult)
        ensures
            r matches HttpOkResult::Redirect { url } && url@ == src@,
    {
        HttpOkResult::Redirect { url: src.to_owned() }
    }
}

} // verus!
