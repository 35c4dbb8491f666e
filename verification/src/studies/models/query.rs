//! Typed parsing of loosely-keyed search parameters: a filter name is
//! recognized either by its keyword or by its eight-digit hexadecimal tag
//! form; unrecognized keys are ignored.

use crate::studies::models::metadata::{
    first_match_idx, lemma_first_match_found, lemma_first_match_none,
};
use vstd::prelude::*;
use vstd::string::StrSliceExecFns;

verus! {

/// The hexadecimal digit character for `d & 0xF`, uppercase.
pub open spec fn hex_digit_char(d: u32) -> char {
    let d = d & 0xF;
    if d == 0 {
        '0'
    } else if d == 1 {
        '1'
    } else if d == 2 {
        '2'
    } else if d == 3 {
        '3'
    } else if d == 4 {
        '4'
    } else if d == 5 {
        '5'
    } else if d == 6 {
        '6'
    } else if d == 7 {
        '7'
    } else if d == 8 {
        '8'
    } else if d == 9 {
        '9'
    } else if d == 10 {
        'A'
    } else if d == 11 {
        'B'
    } else if d == 12 {
        'C'
    } else if d == 13 {
        'D'
    } else if d == 14 {
        'E'
    } else {
        'F'
    }
}

/// The eight-digit uppercase hexadecimal form of a tag, group first.
pub open spec fn hex8(t: u32) -> Seq<char> {
    seq![
        hex_digit_char(t >> 28),
        hex_digit_char(t >> 24),
        hex_digit_char(t >> 20),
        hex_digit_char(t >> 16),
        hex_digit_char(t >> 12),
        hex_digit_char(t >> 8),
        hex_digit_char(t >> 4),
        hex_digit_char(t),
    ]
}

fn hex_digit_str(d: u32) -> (r: &'static str)
    ensures
        r@ == seq![hex_digit_char(d)],
{
    proof {
        reveal_strlit("0");
        reveal_strlit("1");
        reveal_strlit("2");
        reveal_strlit("3");
        reveal_strlit("4");
        reveal_strlit("5");
        reveal_strlit("6");
        reveal_strlit("7");
        reveal_strlit("8");
        reveal_strlit("9");
        reveal_strlit("A");
        reveal_strlit("B");
        reveal_strlit("C");
        reveal_strlit("D");
        reveal_strlit("E");
        reveal_strlit("F");
    }
    let r = match d & 0xF {
        0 => "0",
        1 => "1",
        2 => "2",
        3 => "3",
        4 => "4",
        5 => "5",
        6 => "6",
        7 => "7",
        8 => "8",
        9 => "9",
        10 => "A",
        11 => "B",
        12 => "C",
        13 => "D",
        14 => "E",
        _ => "F",
    };
    proof {
        assert(r@ =~= seq![hex_digit_char(d)]);
    }
    r
}

/// Render a tag in its eight-digit hexadecimal key form.
pub fn hex8_string(t: u32) -> (r: String)
    ensures
        r@ == hex8(t),
{
    let mut s = String::new();
    s.append(hex_digit_str(t >> 28));
    s.append(hex_digit_str(t >> 24));
    s.append(hex_digit_str(t >> 20));
    s.append(hex_digit_str(t >> 16));
    s.append(hex_digit_str(t >> 12));
    s.append(hex_digit_str(t >> 8));
    s.append(hex_digit_str(t >> 4));
    s.append(hex_digit_str(t));
    proof {
        assert(s@ =~= hex8(t));
    }
    s
}

/// The predicate "this pair's key reads `key`".
pub open spec fn query_key_pred(key: Seq<char>) -> spec_fn((String, String)) -> bool {
    |p: (String, String)| p.0@ == key
}

/// The value stored under a key, if any: the first pair with that key
/// decides.
pub open spec fn query_lookup(pairs: Seq<(String, String)>, key: Seq<char>) -> Option<Seq<char>> {
    match first_match_idx(pairs, query_key_pred(key)) {
        Some(i) => Some(pairs[i].1@),
        None => None,
    }
}

/// The value of a filter, looked up first under its keyword and then under
/// its hexadecimal tag form.
pub open spec fn field_lookup(
    pairs: Seq<(String, String)>,
    name: Seq<char>,
    tag: u32,
) -> Option<Seq<char>> {
    match query_lookup(pairs, name) {
        Some(v) => Some(v),
        None => query_lookup(pairs, hex8(tag)),
    }
}

/// A search query: its key/value pairs, in order.
pub struct QueryParams {
    pub pairs: Vec<(String, String)>,
}

impl QueryParams {
    /// An empty query.
    pub fn new() -> (r: QueryParams)
        ensures
            r.pairs@.len() == 0,
    {
        QueryParams { pairs: Vec::new() }
    }

    /// Add a key/value pair.
    pub fn push(&mut self, key: String, value: String)
        ensures
            final(self).pairs@ == old(self).pairs@.push((key, value)),
    {
        self.pairs.push((key, value));
    }

    /// The value stored under a key, if any.
    pub fn get(&self, key: &str) -> (r: Option<&String>)
        ensures
            match r {
                Some(v) => query_lookup(self.pairs@, key@) == Some(v@),
                None => query_lookup(self.pairs@, key@) is None,
            },
    {
        let ghost p = query_key_pred(key@);
        let mut i: usize = 0;
        while i < self.pairs.len()
            invariant
                i <= self.pairs@.len(),
                p == query_key_pred(key@),
                forall|k: int| 0 <= k < i ==> !p(#[trigger] self.pairs@[k]),
            decreases self.pairs@.len() - i,
        {
            if crate::sql::str_eq_str(self.pairs[i].0.as_str(), key) {
                proof {
                    lemma_first_match_found(self.pairs@, p, i as int);
                }
                return Some(&self.pairs[i].1);
            }
            i += 1;
        }
        proof {
            lemma_first_match_none(self.pairs@, p);
        }
        None
    }
}

/// Look a filter up under its keyword, falling back to its hexadecimal
/// tag form, and copy the value out.
pub fn get_field(params: &QueryParams, name: &str, tag: u32) -> (r: Option<String>)
    ensures
        match r {
            Some(v) => field_lookup(params.pairs@, name@, tag) == Some(v@),
            None => field_lookup(params.pairs@, name@, tag) is None,
        },
{
    match params.get(name) {
        Some(v) => Some(String::from_str(v.as_str())),
        None => {
            let key = hex8_string(tag);
            match params.get(key.as_str()) {
                Some(v) => Some(String::from_str(v.as_str())),
                None => None,
            }
        },
    }
}

/// A comma-separated value split into its members; a value without commas
/// is a single member.
pub open spec fn split_commas_spec(s: Seq<char>) -> Seq<Seq<char>>
    decreases s.len(),
{
    match crate::utils::multipart::find_char(s, ',', 0) {
        None => seq![s],
        Some(k) => {
            if 0 <= k < s.len() {
                seq![s.take(k)] + split_commas_spec(s.skip(k + 1))
            } else {
                seq![s]
            }
        },
    }
}

/// Split a comma-separated value into its members.
pub fn split_commas(s: &str) -> (r: Vec<String>)
    ensures
        r.deep_view() == split_commas_spec(s@),
    decreases s@.len(),
{
    let n = s.unicode_len();
    let mut k: usize = 0;
    let mut found: Option<usize> = None;
    while k < n && found.is_none()
        invariant
            k <= n,
            n == s@.len(),
            match found {
                Some(j) => j < n && s@[j as int] == ',' && forall|i: int| 0 <= i < j ==> s@[i]
                    != ',',
                None => forall|j: int| 0 <= j < k ==> s@[j] != ',',
            },
        decreases n - k + (if found is Some {
            0int
        } else {
            1int
        }),
    {
        if s.get_char(k) == ',' {
            found = Some(k);
        } else {
            k += 1;
        }
    }
    proof {
        match found {
            Some(j) => {
                crate::utils::multipart::lemma_find_char_exact(s@, ',', 0, j as int);
            },
            None => {
                crate::utils::multipart::lemma_find_char_none(s@, ',', 0);
            },
        }
    }
    match found {
        None => {
            let mut out: Vec<String> = Vec::new();
            out.push(String::from_str(s));
            proof {
                assert(out.deep_view() =~~= seq![s@]);
            }
            out
        },
        Some(k) => {
            let head = String::from_str(s.substring_char(0, k));
            let rest = s.substring_char(k + 1, n);
            let mut out = split_commas(rest);
            out.insert(0, head);
            proof {
                assert(head@ =~= s@.take(k as int));
                assert(rest@ =~= s@.skip(k + 1 as int));
                assert(out.deep_view() =~~= seq![s@.take(k as int)] + split_commas_spec(
                    s@.skip(k + 1 as int),
                ));
            }
            out
        },
    }
}

} // verus!
