//! Character-level helpers shared by the URL decoder, the query-string
//! parser and the path matcher: ASCII lowercasing, splitting on a
//! separator, and locating a character.

use vstd::prelude::*;

verus! {

/// ASCII lowercasing of one character; characters outside `'A'..='Z'`
/// are left unchanged.
pub open spec fn lower_char(c: char) -> char {
    if 'A' <= c && c <= 'Z' {
        (((c as u8) + 32) as u8) as char
    } else {
        c
    }
}

/// ASCII lowercasing of a character sequence.
pub open spec fn lower_seq(s: Seq<char>) -> Seq<char> {
    Seq::new(s.len(), |i: int| lower_char(s[i]))
}

pub fn lower_char_ex(c: char) -> (r: char)
    ensures
        r == lower_char(c),
{
    if 'A' <= c && c <= 'Z' {
        (((c as u32) + 32) as u8) as char
    } else {
        c
    }
}

/// Relies on `String::push`: appends the given character to the end of
/// the string.
#[verifier::external_body]
pub fn push_char(s: &mut String, c: char)
    ensures
        final(s)@ == old(s)@.push(c),
{
    s.push(c);
}

/// Lowercases a string, character by character.
pub fn to_lower(s: &str) -> (r: String)
    ensures
        r@ == lower_seq(s@),
{
    let n: usize = s.unicode_len();
    let mut r = String::new();
    let mut i: usize = 0;
    while i < n
        invariant
            n == s@.len(),
            i <= n,
            r@.len() == i,
            forall|j: int| 0 <= j < i ==> r@[j] == lower_char(s@[j]),
        decreases n - i,
    {
        let c = s.get_char(i);
        push_char(&mut r, lower_char_ex(c));
        i = i + 1;
    }
    proof {
        assert(r@ =~= lower_seq(s@));
    }
    r
}

/// String equality over the character views.
pub fn str_eq(a: &str, b: &str) -> (r: bool)
    ensures
        r == (a@ == b@),
{
    let sa: String = a.to_owned();
    let sb: String = b.to_owned();
    sa == sb
}

/// The views of a sequence of strings.
pub open spec fn views_of(v: Seq<String>) -> Seq<Seq<char>> {
    Seq::new(v.len(), |i: int| v[i]@)
}

/// Splitting on a separator, keeping empty pieces, with `cur` the piece
/// read so far; this mirrors `str::split`.
pub open spec fn split_rec(s: Seq<char>, sep: char, cur: Seq<char>) -> Seq<Seq<char>>
    decreases s.len(),
{
    if s.len() == 0 {
        seq![cur]
    } else if s[0] == sep {
        seq![cur] + split_rec(s.drop_first(), sep, Seq::empty())
    } else {
        split_rec(s.drop_first(), sep, cur.push(s[0]))
    }
}

/// The pieces of `s` between occurrences of `sep`, empty pieces kept.
pub open spec fn split_seq(s: Seq<char>, sep: char) -> Seq<Seq<char>> {
    split_rec(s, sep, Seq::empty())
}

pub fn split_str(s: &str, sep: char) -> (r: Vec<String>)
    ensures
        views_of(r@) == split_seq(s@, sep),
{
    let n: usize = s.unicode_len();
    let mut done: Vec<String> = Vec::new();
    let mut cur = String::new();
    let mut i: usize = 0;
    proof {
        assert(s@.skip(0) =~= s@);
        assert(views_of(done@) =~= Seq::<Seq<char>>::empty());
        assert(views_of(done@) + split_rec(s@, sep, cur@) =~= split_rec(s@, sep, cur@));
    }
    while i < n
        invariant
            n == s@.len(),
            i <= n,
            split_seq(s@, sep) == views_of(done@) + split_rec(s@.skip(i as int), sep, cur@),
        decreases n - i,
    {
        let ghost prev_views = views_of(done@);
        let ghost prev_cur = cur@;
        let c = s.get_char(i);
        proof {
            assert(s@.skip(i as int).drop_first() =~= s@.skip(i as int + 1));
            assert(s@.skip(i as int)[0] == s@[i as int]);
        }
        if c == sep {
            done.push(cur);
            cur = String::new();
            proof {
                assert(views_of(done@) =~= prev_views.push(prev_cur));
                assert(views_of(done@) + split_rec(s@.skip(i as int + 1), sep, cur@)
                    =~= prev_views + (seq![prev_cur] + split_rec(s@.skip(i as int + 1), sep, Seq::empty())));
            }
        } else {
            push_char(&mut cur, c);
        }
        i = i + 1;
    }
    proof {
        assert(s@.skip(n as int) =~= Seq::<char>::empty());
    }
    let ghost prev_views = views_of(done@);
    let ghost prev_cur = cur@;
    done.push(cur);
    proof {
        assert(views_of(done@) =~= prev_views.push(prev_cur));
        assert(prev_views.push(prev_cur) =~= prev_views + seq![prev_cur]);
    }
    done
}

/// The non-empty `/`-delimited tokens of a path, with `cur` the token
/// read so far.
pub open spec fn tokens_rec(s: Seq<char>, cur: Seq<char>) -> Seq<Seq<char>>
    decreases s.len(),
{
    if s.len() == 0 {
        if cur.len() > 0 {
            seq![cur]
        } else {
            Seq::empty()
        }
    } else if s[0] == '/' {
        if cur.len() > 0 {
            seq![cur] + tokens_rec(s.drop_first(), Seq::empty())
        } else {
            tokens_rec(s.drop_first(), Seq::empty())
        }
    } else {
        tokens_rec(s.drop_first(), cur.push(s[0]))
    }
}

/// The non-empty `/`-delimited tokens of a path: duplicate slashes
/// collapse and leading or trailing slashes are ignored.
pub open spec fn path_tokens(s: Seq<char>) -> Seq<Seq<char>> {
    tokens_rec(s, Seq::empty())
}

pub fn split_path(s: &str) -> (r: Vec<String>)
    ensures
        views_of(r@) == path_tokens(s@),
{
    let n: usize = s.unicode_len();
    let mut done: Vec<String> = Vec::new();
    let mut cur = String::new();
    let mut i: usize = 0;
    proof {
        assert(s@.skip(0) =~= s@);
        assert(views_of(done@) =~= Seq::<Seq<char>>::empty());
        assert(views_of(done@) + tokens_rec(s@, cur@) =~= tokens_rec(s@, cur@));
    }
    while i < n
        invariant
            n == s@.len(),
            i <= n,
            path_tokens(s@) == views_of(done@) + tokens_rec(s@.skip(i as int), cur@),
        decreases n - i,
    {
        let ghost prev_views = views_of(done@);
        let ghost prev_cur = cur@;
        let c = s.get_char(i);
        proof {
            assert(s@.skip(i as int).drop_first() =~= s@.skip(i as int + 1));
            assert(s@.skip(i as int)[0] == s@[i as int]);
        }
        if c == '/' {
            if !cur.as_str().is_empty() {
                done.push(cur);
                cur = String::new();
                proof {
                    assert(prev_cur.len() > 0);
                    assert(views_of(done@) =~= prev_views.push(prev_cur));
                    assert(views_of(done@) + tokens_rec(s@.skip(i as int + 1), cur@)
                        =~= prev_views + (seq![prev_cur] + tokens_rec(s@.skip(i as int + 1), Seq::empty())));
                }
            } else {
                proof {
                    assert(cur@ =~= Seq::<char>::empty());
                }
            }
        } else {
            push_char(&mut cur, c);
        }
        i = i + 1;
    }
    proof {
        assert(s@.skip(n as int) =~= Seq::<char>::empty());
    }
    if !cur.as_str().is_empty() {
        let ghost prev_views = views_of(done@);
        let ghost prev_cur = cur@;
        done.push(cur);
        proof {
            assert(views_of(done@) =~= prev_views.push(prev_cur));
            assert(prev_views.push(prev_cur) =~= prev_views + seq![prev_cur]);
        }
    } else {
        proof {
            assert(views_of(done@) + Seq::<Seq<char>>::empty() =~= views_of(done@));
        }
    }
    done
}

/// ASCII whitespace, as trimmed around forwarded addresses.
pub open spec fn is_space(c: char) -> bool {
    c == ' ' || c == '\t' || c == '\r' || c == '\n'
}

fn is_space_ex(c: char) -> (r: bool)
    ensures
        r == is_space(c),
{
    c == ' ' || c == '\t' || c == '\r' || c == '\n'
}

pub open spec fn trim_start_spec(s: Seq<char>) -> Seq<char>
    decreases s.len(),
{
    if s.len() > 0 && is_space(s[0]) {
        trim_start_spec(s.drop_first())
    } else {
        s
    }
}

pub open spec fn trim_end_spec(s: Seq<char>) -> Seq<char>
    decreases s.len(),
{
    if s.len() > 0 && is_space(s.last()) {
        trim_end_spec(s.drop_last())
    } else {
        s
    }
}

/// `s` without its leading and trailing ASCII whitespace.
pub open spec fn trim_spec(s: Seq<char>) -> Seq<char> {
    trim_end_spec(trim_start_spec(s))
}

pub fn trim_str(s: &str) -> (r: String)
    ensures
        r@ == trim_spec(s@),
{
    let n: usize = s.unicode_len();
    let mut a: usize = 0;
    proof {
        assert(s@.skip(0) =~= s@);
    }
    while a < n && is_space_ex(s.get_char(a))
        invariant
            n == s@.len(),
            a <= n,
            trim_start_spec(s@) == trim_start_spec(s@.skip(a as int)),
        decreases n - a,
    {
        proof {
            assert(s@.skip(a as int)[0] == s@[a as int]);
            assert(s@.skip(a as int).drop_first() =~= s@.skip(a as int + 1));
        }
        a = a + 1;
    }
    let ghost t = s@.skip(a as int);
    proof {
        if a < n {
            assert(t[0] == s@[a as int]);
        } else {
            assert(t =~= Seq::<char>::empty());
        }
        assert(trim_start_spec(s@) == t);
    }
    let mut b: usize = n;
    proof {
        assert(t.take(n as int - a as int) =~= t);
    }
    while b > a && is_space_ex(s.get_char(b - 1))
        invariant
            n == s@.len(),
            a <= b <= n,
            t == s@.skip(a as int),
            trim_end_spec(t) == trim_end_spec(t.take(b as int - a as int)),
        decreases b,
    {
        proof {
            assert(t.take(b as int - a as int).last() == s@[b as int - 1]);
            assert(t.take(b as int - a as int).drop_last() =~= t.take(b as int - 1 - a as int));
        }
        b = b - 1;
    }
    proof {
        if b > a {
            assert(t.take(b as int - a as int).last() == s@[b as int - 1]);
        } else {
            assert(t.take(0) =~= Seq::<char>::empty());
        }
        assert(trim_end_spec(t) == t.take(b as int - a as int));
        assert(t.take(b as int - a as int) =~= s@.subrange(a as int, b as int));
    }
    let piece: &str = s.substring_char(a, b);
    piece.to_owned()
}

/// The position of the first occurrence of `c` in `s`, if any.
pub open spec fn first_pos(s: Seq<char>, c: char) -> Option<int>
    decreases s.len(),
{
    if s.len() == 0 {
        None
    } else if s[0] == c {
        Some(0int)
    } else {
        match first_pos(s.drop_first(), c) {
            None => None,
            Some(i) => Some(i + 1),
        }
    }
}

proof fn lemma_first_pos_prefix(s: Seq<char>, c: char, i: int)
    requires
        0 <= i <= s.len(),
        forall|j: int| 0 <= j < i ==> s[j] != c,
    ensures
        first_pos(s, c) == match first_pos(s.skip(i), c) {
            None => None::<int>,
            Some(k) => Some(k + i),
        },
    decreases i,
{
    if i == 0 {
        assert(s.skip(0) =~= s);
    } else {
        lemma_first_pos_prefix(s.drop_first(), c, i - 1);
        assert(s.drop_first().skip(i - 1) =~= s.skip(i));
    }
}

pub fn find_char(s: &str, c: char) -> (r: Option<usize>)
    ensures
        match r {
            Some(i) => first_pos(s@, c) == Some(i as int),
            None => first_pos(s@, c) is None,
        },
{
    let n: usize = s.unicode_len();
    let mut i: usize = 0;
    while i < n
        invariant
            n == s@.len(),
            i <= n,
            forall|j: int| 0 <= j < i ==> s@[j] != c,
        decreases n - i,
    {
        if s.get_char(i) == c {
            proof {
                lemma_first_pos_prefix(s@, c, i as int);
                assert(s@.skip(i as int)[0] == s@[i as int]);
            }
            return Some(i);
        }
        i = i + 1;
    }
    proof {
        lemma_first_pos_prefix(s@, c, n as int);
        assert(s@.skip(n as int) =~= Seq::<char>::empty());
    }
    None
}

} // verus!
