//! A small SQL builder that only ever emits numbered placeholders for
//! caller-supplied values; the values travel beside the text and are bound
//! by the database driver, never inlined into the query.

use vstd::prelude::*;

verus! {

/// The decimal digit character for `d`.
pub open spec fn digit_char(d: nat) -> char {
    if d == 0 {
        '0'
    } else if d == 1 {
        '1'
    } else if d == 2 {
        '2'
    } else if d == 3 {
        '3'
    } else if d == 4 {
        '4'
    } else if d == 5 {
        '5'
    } else if d == 6 {
        '6'
    } else if d == 7 {
        '7'
    } else if d == 8 {
        '8'
    } else {
        '9'
    }
}

/// The decimal rendering of `n`, without sign or leading zeros.
pub open spec fn dec_str(n: nat) -> Seq<char>
    decreases n,
{
    if n < 10 {
        seq![digit_char(n)]
    } else {
        dec_str(n / 10).push(digit_char(n % 10))
    }
}

/// The text of the `n`-th query placeholder: a dollar sign and the number.
pub open spec fn placeholder(n: nat) -> Seq<char> {
    seq!['$'] + dec_str(n)
}

fn digit_str(d: u64) -> (r: &'static str)
    requires
        d < 10,
    ensures
        r@ == seq![digit_char(d as nat)],
{
    proof {
        reveal_strlit("0");
        reveal_strlit("1");
        reveal_strlit("2");
        reveal_strlit("3");
        reveal_strlit("4");
        reveal_strlit("5");
        reveal_strlit("6");
        reveal_strlit("7");
        reveal_strlit("8");
        reveal_strlit("9");
    }
    let r = match d {
        0 => "0",
        1 => "1",
        2 => "2",
        3 => "3",
        4 => "4",
        5 => "5",
        6 => "6",
        7 => "7",
        8 => "8",
        _ => "9",
    };
    proof {
        assert(r@ =~= seq![digit_char(d as nat)]);
    }
    r
}

/// Render `n` in decimal.
pub fn u64_to_string(n: u64) -> (r: String)
    ensures
        r@ == dec_str(n as nat),
    decreases n,
{
    if n < 10 {
        let mut s = String::new();
        s.append(digit_str(n));
        proof {
            assert(s@ =~= dec_str(n as nat));
        }
        s
    } else {
        let mut s = u64_to_string(n / 10);
        s.append(digit_str(n % 10));
        proof {
            assert(s@ =~= dec_str(n as nat));
        }
        s
    }
}

/// A parameterized SQL query: the text holds `$1`, `$2`, ... markers and
/// `params[k]` carries the value bound to `$k+1`.
pub struct SqlQuery {
    pub text: String,
    pub params: Vec<String>,
}

proof fn lemma_params_deep_view(v: &Vec<String>)
    ensures
        v.deep_view().len() == v@.len(),
        forall|k: int| 0 <= k < v@.len() ==> #[trigger] v.deep_view()[k] == v@[k]@,
{
}

impl SqlQuery {
    /// Start a query from a fixed piece of SQL.
    pub fn new(base: &str) -> (r: SqlQuery)
        ensures
            r.text@ == base@,
            r.params.deep_view() == Seq::<Seq<char>>::empty(),
    {
        let q = SqlQuery { text: String::from_str(base), params: Vec::new() };
        proof {
            assert(q.params.deep_view() =~= Seq::<Seq<char>>::empty());
        }
        q
    }

    /// Append a fixed piece of SQL (never a caller-supplied value).
    pub fn push_sql(&mut self, sql: &str)
        ensures
            final(self).text@ == old(self).text@ + sql@,
            final(self).params == old(self).params,
    {
        self.text.append(sql);
    }

    /// Bind a caller-supplied value: appends the next `$n` marker to the
    /// text and records the value beside it.
    pub fn push_param(&mut self, value: &str)
        ensures
            final(self).text@ == old(self).text@ + placeholder(
                old(self).params.deep_view().len() + 1,
            ),
            final(self).params.deep_view() == old(self).params.deep_view().push(value@),
    {
        proof {
            reveal_strlit("$");
        }
        self.params.push(String::from_str(value));
        self.text.append("$");
        let n = u64_to_string(self.params.len() as u64);
        self.text.append(n.as_str());
        proof {
            lemma_params_deep_view(&self.params);
            lemma_params_deep_view(&old(self).params);
            assert(self.params.deep_view() =~= old(self).params.deep_view().push(value@));
            assert(self.text@ =~= old(self).text@ + placeholder(
                old(self).params.deep_view().len() + 1,
            ));
        }
    }

    /// Record a value for an already-written placeholder, without touching
    /// the text.
    pub fn bind(&mut self, value: &str)
        ensures
            final(self).text@ == old(self).text@,
            final(self).params.deep_view() == old(self).params.deep_view().push(value@),
    {
        self.params.push(String::from_str(value));
        proof {
            lemma_params_deep_view(&self.params);
            lemma_params_deep_view(&old(self).params);
            assert(self.params.deep_view() =~= old(self).params.deep_view().push(value@));
        }
    }
}

/// The SQL dialect a query is compiled for. Only the PostgreSQL backend is
/// recognized by name; every other backend identifier falls through to the
/// generic dialect, which expresses modality containment by substring
/// matching. That silent fallback mirrors long-standing behavior and is kept
/// for compatibility.
#[derive(Clone, Copy, Debug, PartialEq, Eq, Structural)]
pub enum Dialect {
    Postgres,
    Generic,
}

/// The dialect selected by a backend identifier.
pub open spec fn dialect_of(backend: Seq<char>) -> Dialect {
    if backend == "PostgreSQL"@ {
        Dialect::Postgres
    } else {
        Dialect::Generic
    }
}

/// Character-wise string equality.
pub fn str_eq_str(a: &str, b: &str) -> (r: bool)
    ensures
        r == (a@ == b@),
{
    let a_len = a.unicode_len();
    let b_len = b.unicode_len();
    if a_len != b_len {
        return false;
    }
    let mut i: usize = 0;
    while i < a_len
        invariant
            i <= a_len,
            a_len == a@.len(),
            a_len == b@.len(),
            forall|k: int| 0 <= k < i ==> a@[k] == b@[k],
        decreases a_len - i,
    {
        if a.get_char(i) != b.get_char(i) {
            return false;
        }
        i += 1;
    }
    proof {
        assert(a@ =~= b@);
    }
    true
}

/// Select the dialect for a backend identifier.
pub fn dialect_from_backend(backend: &str) -> (d: Dialect)
    ensures
        d == dialect_of(backend@),
{
    if str_eq_str(backend, "PostgreSQL") {
        Dialect::Postgres
    } else {
        Dialect::Generic
    }
}

/// The view of an optional string.
pub open spec fn view_opt(o: Option<String>) -> Option<Seq<char>> {
    match o {
        Some(s) => Some(s@),
        None => None,
    }
}

/// One step of condition building: if the filter value is present, append
/// `frag` (of the shape `" AND col = "`) followed by the next placeholder,
/// and record the value; `start` is how many parameters the query held
/// before this condition block began.
pub open spec fn and_eq(
    acc: (Seq<char>, Seq<Seq<char>>),
    start: nat,
    frag: Seq<char>,
    v: Option<Seq<char>>,
) -> (Seq<char>, Seq<Seq<char>>) {
    match v {
        Some(s) => (acc.0 + frag + placeholder(start + acc.1.len() + 1), acc.1.push(s)),
        None => acc,
    }
}

/// `parts` joined with `sep` between consecutive elements.
pub open spec fn join_sep(parts: Seq<Seq<char>>, sep: Seq<char>) -> Seq<char>
    decreases parts.len(),
{
    if parts.len() == 0 {
        Seq::empty()
    } else if parts.len() == 1 {
        parts[0]
    } else {
        join_sep(parts.drop_last(), sep) + sep + parts.last()
    }
}

/// Join strings with `", "`, as a SQL select-list is written.
pub fn join_comma(parts: &Vec<String>) -> (r: String)
    ensures
        r@ == join_sep(parts.deep_view(), ", "@),
{
    let ghost all = parts.deep_view();
    let mut s = String::new();
    let mut i: usize = 0;
    while i < parts.len()
        invariant
            i <= parts@.len(),
            all == parts.deep_view(),
            all.len() == parts@.len(),
            forall|k: int| 0 <= k < all.len() ==> all[k] == #[trigger] parts@[k]@,
            s@ == join_sep(all.take(i as int), ", "@),
        decreases parts@.len() - i,
    {
        if i > 0 {
            s.append(", ");
        }
        s.append(parts[i].as_str());
        proof {
            assert(all.take(i + 1 as int).drop_last() =~= all.take(i as int));
            assert(all.take(i + 1 as int).last() == all[i as int]);
            if i == 0 {
                assert(s@ =~= join_sep(all.take(1), ", "@));
            }
        }
        i += 1;
    }
    proof {
        assert(all.take(all.len() as int) == all);
    }
    s
}

} // verus!
