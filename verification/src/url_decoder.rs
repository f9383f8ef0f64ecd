//! Percent-decoding of URL strings: a `%` followed by two characters
//! from a fixed escape table decodes to one reserved character; any
//! other use of `%` is an error.

use vstd::prelude::*;
use crate::strings::find_char;
use crate::strings::first_pos;
use crate::strings::push_char;

verus! {

/// Error raised when a string is not a well-formed percent-encoding.
#[derive(Debug)]
pub struct UrlDecodeError {
    pub msg: String,
}

/// The fixed escape table: the character encoded by `%` followed by the
/// two characters `a`, `b`, if they form a known escape.
pub open spec fn escape_value(a: char, b: char) -> Option<char> {
    if a == '2' {
        if b == '1' {
            Some('!')
        } else if b == '3' {
            Some('#')
        } else if b == '4' {
            Some('$')
        } else if b == '5' {
            Some('%')
        } else if b == '6' {
            Some('&')
        } else if b == '7' {
            Some('\'')
        } else if b == '8' {
            Some('(')
        } else if b == '9' {
            Some(')')
        } else if b == 'A' {
            Some('*')
        } else if b == 'B' {
            Some('+')
        } else if b == 'C' {
            Some(',')
        } else if b == 'F' {
            Some('/')
        } else {
            None
        }
    } else if a == '3' {
        if b == 'A' {
            Some(':')
        } else if b == 'B' {
            Some(';')
        } else if b == 'D' {
            Some('=')
        } else if b == 'F' {
            Some('?')
        } else {
            None
        }
    } else if a == '4' {
        if b == '0' {
            Some('@')
        } else {
            None
        }
    } else if a == '5' {
        if b == 'B' {
            Some('[')
        } else if b == 'D' {
            Some(']')
        } else {
            None
        }
    } else {
        None
    }
}

pub fn escape_value_ex(a: char, b: char) -> (r: Option<char>)
    ensures
        r == escape_value(a, b),
{
    if a == '2' {
        if b == '1' {
            Some('!')
        } else if b == '3' {
            Some('#')
        } else if b == '4' {
            Some('$')
        } else if b == '5' {
            Some('%')
        } else if b == '6' {
            Some('&')
        } else if b == '7' {
            Some('\'')
        } else if b == '8' {
            Some('(')
        } else if b == '9' {
            Some(')')
        } else if b == 'A' {
            Some('*')
        } else if b == 'B' {
            Some('+')
        } else if b == 'C' {
            Some(',')
        } else if b == 'F' {
            Some('/')
        } else {
            None
        }
    } else if a == '3' {
        if b == 'A' {
            Some(':')
        } else if b == 'B' {
            Some(';')
        } else if b == 'D' {
            Some('=')
        } else if b == 'F' {
            Some('?')
        } else {
            None
        }
    } else if a == '4' {
        if b == '0' {
            Some('@')
        } else {
            None
        }
    } else if a == '5' {
        if b == 'B' {
            Some('[')
        } else if b == 'D' {
            Some(']')
        } else {
            None
        }
    } else {
        None
    }
}

/// The decoded form of `s`, or `None` where some `%` is not followed by
/// two characters of the escape table.
pub open spec fn decode_seq(s: Seq<char>) -> Option<Seq<char>>
    decreases s.len(),
{
    if s.len() == 0 {
        Some(Seq::empty())
    } else if s[0] == '%' {
        if s.len() >= 3 {
            match escape_value(s[1], s[2]) {
                Some(c) => match decode_seq(s.skip(3)) {
                    Some(rest) => Some(seq![c] + rest),
                    None => None,
                },
                None => None,
            }
        } else {
            None
        }
    } else {
        match decode_seq(s.drop_first()) {
            Some(rest) => Some(seq![s[0]] + rest),
            None => None,
        }
    }
}

/// `s` is a well-formed percent-encoding: every `%` starts a known
/// three-character escape.
pub open spec fn well_encoded(s: Seq<char>) -> bool
    decreases s.len(),
{
    if s.len() == 0 {
        true
    } else if s[0] == '%' {
        s.len() >= 3 && escape_value(s[1], s[2]) is Some && well_encoded(s.skip(3))
    } else {
        well_encoded(s.drop_first())
    }
}

/// Decoding succeeds exactly on the well-formed percent-encodings; a
/// `%` not followed by a known two-character escape fails, it is never
/// passed through.
pub proof fn lemma_decode_iff_well_encoded(s: Seq<char>)
    ensures
        decode_seq(s) is Some <==> well_encoded(s),
    decreases s.len(),
{
    if s.len() == 0 {
    } else if s[0] == '%' {
        if s.len() >= 3 {
            lemma_decode_iff_well_encoded(s.skip(3));
        }
    } else {
        lemma_decode_iff_well_encoded(s.drop_first());
    }
}

/// A string without `%` decodes to itself.
pub proof fn lemma_decode_no_escape(s: Seq<char>)
    requires
        forall|j: int| 0 <= j < s.len() ==> s[j] != '%',
    ensures
        decode_seq(s) == Some(s),
    decreases s.len(),
{
    if s.len() > 0 {
        lemma_decode_no_escape(s.drop_first());
        assert(seq![s[0]] + s.drop_first() =~= s);
    }
}

/// The escape of `c` under the fixed table, if `c` is a character the
/// table covers.
pub open spec fn escape_code(c: char) -> Option<(char, char)> {
    if c == '!' {
        Some(('2', '1'))
    } else if c == '#' {
        Some(('2', '3'))
    } else if c == '$' {
        Some(('2', '4'))
    } else if c == '%' {
        Some(('2', '5'))
    } else if c == '&' {
        Some(('2', '6'))
    } else if c == '\'' {
        Some(('2', '7'))
    } else if c == '(' {
        Some(('2', '8'))
    } else if c == ')' {
        Some(('2', '9'))
    } else if c == '*' {
        Some(('2', 'A'))
    } else if c == '+' {
        Some(('2', 'B'))
    } else if c == ',' {
        Some(('2', 'C'))
    } else if c == '/' {
        Some(('2', 'F'))
    } else if c == ':' {
        Some(('3', 'A'))
    } else if c == ';' {
        Some(('3', 'B'))
    } else if c == '=' {
        Some(('3', 'D'))
    } else if c == '?' {
        Some(('3', 'F'))
    } else if c == '@' {
        Some(('4', '0'))
    } else if c == '[' {
        Some(('5', 'B'))
    } else if c == ']' {
        Some(('5', 'D'))
    } else {
        None
    }
}

/// A conforming percent-encoder for the fixed table: characters the
/// table covers become escapes, all others pass through.
pub open spec fn encode_seq(s: Seq<char>) -> Seq<char>
    decreases s.len(),
{
    if s.len() == 0 {
        Seq::empty()
    } else {
        (match escape_code(s[0]) {
            Some(ab) => seq!['%', ab.0, ab.1],
            None => seq![s[0]],
        }) + encode_seq(s.drop_first())
    }
}

/// Percent-decoding is a left inverse of a conforming percent-encoder
/// for the fixed escape table.
pub proof fn lemma_decode_encode(s: Seq<char>)
    ensures
        decode_seq(encode_seq(s)) == Some(s),
    decreases s.len(),
{
    if s.len() > 0 {
        lemma_decode_encode(s.drop_first());
        match escape_code(s[0]) {
            Some(ab) => {
                let e = seq!['%', ab.0, ab.1] + encode_seq(s.drop_first());
                assert(encode_seq(s) == e);
                assert(e.len() >= 3);
                assert(e[0] == '%' && e[1] == ab.0 && e[2] == ab.1);
                assert(escape_value(ab.0, ab.1) == Some(s[0]));
                assert(e.skip(3) =~= encode_seq(s.drop_first()));
                assert(seq![s[0]] + s.drop_first() =~= s);
            },
            None => {
                let e = seq![s[0]] + encode_seq(s.drop_first());
                assert(encode_seq(s) == e);
                assert(e[0] == s[0] && s[0] != '%');
                assert(e.drop_first() =~= encode_seq(s.drop_first()));
                assert(seq![s[0]] + s.drop_first() =~= s);
            },
        }
    }
}

/// Accumulates the two characters that follow a `%`, mirroring the
/// escaping state of the decoding scan: the first call stores the
/// character and asks for more; the second looks the pair up in the
/// escape table.
pub struct EscapedState {
    pub marker: char,
    pub pending: Option<char>,
}

impl EscapedState {
    pub fn new(marker: char) -> (r: Self)
        ensures
            r.marker == marker,
            r.pending is None,
    {
        Self { marker, pending: None }
    }

    pub fn get_next(&mut self, next_char: char) -> (r: Result<Option<char>, UrlDecodeError>)
        ensures
            old(self).pending is None ==> {
                &&& final(self).marker == old(self).marker
                &&& final(self).pending == Some(next_char)
                &&& r matches Ok(c) && c is None
            },
            old(self).pending matches Some(b) ==> {
                &&& *final(self) == *old(self)
                &&& if old(self).marker == '%' && escape_value(b, next_char) is Some {
                    r matches Ok(c) && c == escape_value(b, next_char)
                } else {
                    r is Err
                }
            },
    {
        match self.pending {
            None => {
                self.pending = Some(next_char);
                Ok(None)
            },
            Some(b) => {
                if self.marker == '%' {
                    match escape_value_ex(b, next_char) {
                        Some(c) => Ok(Some(c)),
                        None => Err(invalid_escape(self.marker, b, next_char)),
                    }
                } else {
                    Err(invalid_escape(self.marker, b, next_char))
                }
            },
        }
    }
}

fn invalid_escape(m: char, a: char, b: char) -> (r: UrlDecodeError)
    ensures
        r.msg@ == "Invalid escape string "@.push(m).push(a).push(b),
{
    let mut msg = String::from_str("Invalid escape string ");
    push_char(&mut msg, m);
    push_char(&mut msg, a);
    push_char(&mut msg, b);
    UrlDecodeError { msg }
}

/// Decodes every percent-escape of `src` against the fixed table; a
/// string without `%` comes back unchanged.
pub fn decode_from_url_string(src: &str) -> (r: Result<String, UrlDecodeError>)
    ensures
        match r {
            Ok(out) => decode_seq(src@) == Some(out@),
            Err(_) => decode_seq(src@) is None,
        },
{
    let quick = find_char(src, '%');
    if quick.is_none() {
        proof {
            lemma_first_pos_none(src@, '%');
            lemma_decode_no_escape(src@);
        }
        return Ok(src.to_owned());
    }
    let n: usize = src.unicode_len();
    let mut out = String::new();
    let mut i: usize = 0;
    proof {
        assert(src@.skip(0) =~= src@);
    }
    while i < n
        invariant
            n == src@.len(),
            i <= n,
            decode_seq(src@) == match decode_seq(src@.skip(i as int)) {
                Some(rest) => Some(out@ + rest),
                None => None::<Seq<char>>,
            },
        decreases n - i,
    {
        let ghost prev_out = out@;
        let ghost tail = src@.skip(i as int);
        let c = src.get_char(i);
        proof {
            assert(tail[0] == src@[i as int]);
        }
        if c == '%' {
            if n - i < 3 {
                return Err(invalid_escape(c, ' ', ' '));
            }
            let a = src.get_char(i + 1);
            let b = src.get_char(i + 2);
            proof {
                assert(tail[1] == src@[i as int + 1]);
                assert(tail[2] == src@[i as int + 2]);
            }
            match escape_value_ex(a, b) {
                Some(d) => {
                    push_char(&mut out, d);
                    proof {
                        assert(tail.skip(3) =~= src@.skip(i as int + 3));
                        if decode_seq(src@.skip(i as int + 3)) is Some {
                            let rest = decode_seq(src@.skip(i as int + 3))->Some_0;
                            assert(prev_out + (seq![d] + rest) =~= prev_out.push(d) + rest);
                        }
                    }
                    i = i + 3;
                },
                None => {
                    return Err(invalid_escape(c, a, b));
                },
            }
        } else {
            push_char(&mut out, c);
            proof {
                assert(tail.drop_first() =~= src@.skip(i as int + 1));
                if decode_seq(src@.skip(i as int + 1)) is Some {
                    let rest = decode_seq(src@.skip(i as int + 1))->Some_0;
                    assert(prev_out + (seq![c] + rest) =~= prev_out.push(c) + rest);
                }
            }
            i = i + 1;
        }
    }
    proof {
        assert(src@.skip(n as int) =~= Seq::<char>::empty());
        assert(out@ + Seq::<char>::empty() =~= out@);
    }
    Ok(out)
}

proof fn lemma_first_pos_none(s: Seq<char>, c: char)
    requires
        first_pos(s, c) is None,
    ensures
        forall|j: int| 0 <= j < s.len() ==> s[j] != c,
    decreases s.len(),
{
    if s.len() > 0 {
        lemma_first_pos_none(s.drop_first(), c);
        assert forall|j: int| 0 <= j < s.len() implies s[j] != c by {
            if j > 0 {
                assert(s.drop_first()[j - 1] == s[j]);
            }
        }
    }
}

} // verus!
