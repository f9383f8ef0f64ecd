//! Query-string parsing: split on `&`, split each element at its first
//! `=`, percent-decode key and value, later duplicates overwriting
//! earlier ones.

use vstd::prelude::*;
use crate::strings::find_char;
use crate::strings::first_pos;
use crate::strings::split_seq;
use crate::strings::split_str;
use crate::strings::str_eq;
use crate::strings::views_of;
use crate::url_decoder::UrlDecodeError;
use crate::url_decoder::decode_from_url_string;
use crate::url_decoder::decode_seq;

verus! {

/// The map accumulated from a sequence of key/value pairs, later pairs
/// overwriting earlier ones.
pub open spec fn pairs_map(ps: Seq<(Seq<char>, Seq<char>)>) -> Map<Seq<char>, Seq<char>>
    decreases ps.len(),
{
    if ps.len() == 0 {
        Map::empty()
    } else {
        pairs_map(ps.drop_last()).insert(ps.last().0, ps.last().1)
    }
}

/// The views of a vector of string pairs.
pub open spec fn pair_views(v: Seq<(String, String)>) -> Seq<(Seq<char>, Seq<char>)> {
    Seq::new(v.len(), |i: int| (v[i].0@, v[i].1@))
}

/// The map the query-string elements `els` denote: an element without
/// `=` contributes nothing, any other one has its key and value
/// percent-decoded; `None` where a decode fails.
pub open spec fn parse_elements(els: Seq<Seq<char>>) -> Option<Map<Seq<char>, Seq<char>>>
    decreases els.len(),
{
    if els.len() == 0 {
        Some(Map::empty())
    } else {
        match parse_elements(els.drop_last()) {
            None => None,
            Some(m) => {
                let el = els.last();
                match first_pos(el, '=') {
                    None => Some(m),
                    Some(k) => match (decode_seq(el.take(k)), decode_seq(el.skip(k + 1))) {
                        (Some(key), Some(val)) => Some(m.insert(key, val)),
                        _ => None,
                    },
                }
            },
        }
    }
}

/// The decoded parameter map of a raw query string, or `None` where a
/// key or value is not a well-formed percent-encoding.
pub open spec fn parse_qs(s: Seq<char>) -> Option<Map<Seq<char>, Seq<char>>> {
    parse_elements(split_seq(s, '&'))
}

proof fn lemma_first_pos_some(s: Seq<char>, c: char)
    requires
        first_pos(s, c) is Some,
    ensures
        0 <= first_pos(s, c)->Some_0 < s.len(),
        s[first_pos(s, c)->Some_0] == c,
    decreases s.len(),
{
    if s.len() > 0 && s[0] != c {
        lemma_first_pos_some(s.drop_first(), c);
    }
}

proof fn lemma_parse_none_extends(els: Seq<Seq<char>>, i: int, j: int)
    requires
        0 <= i <= j <= els.len(),
        parse_elements(els.take(i)) is None,
    ensures
        parse_elements(els.take(j)) is None,
    decreases j - i,
{
    if i < j {
        lemma_parse_none_extends(els, i, j - 1);
        assert(els.take(j).drop_last() =~= els.take(j - 1));
    }
}

pub fn parse_query_string(query_string: &str) -> (r: Result<
    Vec<(String, String)>,
    UrlDecodeError,
>)
    ensures
        match r {
            Ok(pairs) => parse_qs(query_string@) == Some(pairs_map(pair_views(pairs@))),
            Err(_) => parse_qs(query_string@) is None,
        },
{
    let ghost els = split_seq(query_string@, '&');
    let elements = split_str(query_string, '&');
    let mut result: Vec<(String, String)> = Vec::new();
    let mut i: usize = 0;
    proof {
        assert(els.take(0) =~= Seq::<Seq<char>>::empty());
        assert(pair_views(result@) =~= Seq::<(Seq<char>, Seq<char>)>::empty());
    }
    while i < elements.len()
        invariant
            els == split_seq(query_string@, '&'),
            views_of(elements@) == els,
            elements.len() == els.len(),
            i <= elements.len(),
            parse_elements(els.take(i as int)) == Some(pairs_map(pair_views(result@))),
        decreases elements.len() - i,
    {
        proof {
            assert(els[i as int] == elements@[i as int]@);
            assert(els.take(i as int + 1).drop_last() =~= els.take(i as int));
            assert(els.take(i as int + 1).last() == els[i as int]);
        }
        let eq_pos = find_char(elements[i].as_str(), '=');
        match eq_pos {
            Some(k) => {
                proof {
                    lemma_first_pos_some(els[i as int], '=');
                }
                let n: usize = elements[i].as_str().unicode_len();
                let key_str: &str = elements[i].as_str().substring_char(0, k);
                let val_str: &str = elements[i].as_str().substring_char(k + 1, n);
                proof {
                    assert(key_str@ =~= els[i as int].take(k as int));
                    assert(val_str@ =~= els[i as int].skip(k as int + 1));
                }
                match decode_from_url_string(key_str) {
                    Ok(key) => {
                        match decode_from_url_string(val_str) {
                            Ok(val) => {
                                let ghost prev = pair_views(result@);
                                let ghost kv = (key@, val@);
                                result.push((key, val));
                                proof {
                                    assert(pair_views(result@) =~= prev.push(kv));
                                    assert(pair_views(result@).drop_last() =~= prev);
                                }
                            },
                            Err(e) => {
                                proof {
                                    assert(decode_seq(els[i as int].skip(k as int + 1))
                                        is None);
                                    assert(parse_elements(els.take(i as int + 1)) is None);
                                    lemma_parse_none_extends(els, i as int + 1, els.len() as int);
                                    assert(els.take(els.len() as int) =~= els);
                                }
                                return Err(e);
                            },
                        }
                    },
                    Err(e) => {
                        proof {
                            assert(decode_seq(els[i as int].take(k as int)) is None);
                            assert(parse_elements(els.take(i as int + 1)) is None);
                            lemma_parse_none_extends(els, i as int + 1, els.len() as int);
                            assert(els.take(els.len() as int) =~= els);
                        }
                        return Err(e);
                    },
                }
            },
            None => {
            },
        }
        i = i + 1;
    }
    proof {
        assert(els.take(els.len() as int) =~= els);
    }
    Ok(result)
}

/// Looks `name` up among `pairs`, the pair inserted last winning, as
/// the accumulated map does.
pub fn lookup_pairs<'a>(pairs: &'a Vec<(String, String)>, name: &str) -> (r: Option<&'a String>)
    ensures
        match r {
            Some(v) => pairs_map(pair_views(pairs@)).contains_key(name@) && v@ == pairs_map(
                pair_views(pairs@),
            )[name@],
            None => !pairs_map(pair_views(pairs@)).contains_key(name@),
        },
{
    let ghost full = pairs_map(pair_views(pairs@));
    let mut i: usize = pairs.len();
    proof {
        assert(pair_views(pairs@).take(pairs@.len() as int) =~= pair_views(pairs@));
    }
    while i > 0
        invariant
            i <= pairs.len(),
            full == pairs_map(pair_views(pairs@)),
            full.contains_key(name@) <==> pairs_map(
                pair_views(pairs@).take(i as int),
            ).contains_key(name@),
            full.contains_key(name@) ==> full[name@] == pairs_map(
                pair_views(pairs@).take(i as int),
            )[name@],
        decreases i,
    {
        i = i - 1;
        proof {
            assert(pair_views(pairs@).take(i as int + 1).drop_last() =~= pair_views(
                pairs@,
            ).take(i as int));
            assert(pair_views(pairs@).take(i as int + 1).last() == (pairs@[i as int].0@,
            pairs@[i as int].1@));
        }
        if str_eq(pairs[i].0.as_str(), name) {
            return Some(&pairs[i].1);
        }
    }
    proof {
        assert(pair_views(pairs@).take(0) =~= Seq::<(Seq<char>, Seq<char>)>::empty());
    }
    None
}

} // verus!
