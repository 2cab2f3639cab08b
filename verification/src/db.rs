//! The queries of the job store that the library builds itself.

use vstd::prelude::*;
use crate::text::{chars_of, decimal, push_char, push_decimal, push_str, string_of};
use crate::types::JobFilter;

verus! {

broadcast use vstd::string::group_string_axioms;

/// The start of the query listing jobs, before any condition.
pub open spec fn list_query_base() -> Seq<char> {
    "SELECT id, source_path, display_name, size_bytes, content_hash, created_at, state, state_payload, settings_json\n                        FROM jobs WHERE 1=1"@
}

/// A character as it is written inside an SQL string literal: a quote is
/// doubled, anything else stands for itself.
pub open spec fn quoted_char(c: char) -> Seq<char> {
    if c == '\'' { seq!['\'', '\''] } else { seq![c] }
}

/// A text written as the inside of an SQL string literal.
pub open spec fn sql_escaped(s: Seq<char>) -> Seq<char>
    decreases s.len(),
{
    if s.len() == 0 {
        Seq::empty()
    } else {
        sql_escaped(s.drop_last()) + quoted_char(s.last())
    }
}

/// The value SQL reads from the inside of a string literal, left to right:
/// a doubled quote stands for one quote; a lone quote would end the
/// literal early, and then there is no value.
pub open spec fn sql_literal_value(t: Seq<char>) -> Option<Seq<char>>
    decreases t.len(),
{
    if t.len() == 0 {
        Some(Seq::empty())
    } else if t[0] == '\'' {
        if t.len() >= 2 && t[1] == '\'' {
            match sql_literal_value(t.skip(2)) {
                Some(v) => Some(seq!['\''] + v),
                None => None,
            }
        } else {
            None
        }
    } else {
        match sql_literal_value(t.skip(1)) {
            Some(v) => Some(seq![t[0]] + v),
            None => None,
        }
    }
}

proof fn lemma_literal_value_concat(a: Seq<char>, b: Seq<char>, x: Seq<char>)
    requires
        sql_literal_value(a) == Some(x),
    ensures
        sql_literal_value(a + b) == match sql_literal_value(b) {
            Some(v) => Some(x + v),
            None => None::<Seq<char>>,
        },
    decreases a.len(),
{
    if a.len() == 0 {
        assert(a + b =~= b);
        assert(x =~= Seq::<char>::empty());
        match sql_literal_value(b) {
            Some(v) => assert(x + v =~= v),
            None => {},
        }
    } else if a[0] == '\'' {
        let v = sql_literal_value(a.skip(2)).unwrap();
        lemma_literal_value_concat(a.skip(2), b, v);
        assert((a + b).skip(2) =~= a.skip(2) + b);
        assert((a + b)[0] == a[0] && (a + b)[1] == a[1]);
        match sql_literal_value(b) {
            Some(w) => assert(seq!['\''] + (v + w) =~= (seq!['\''] + v) + w),
            None => {},
        }
    } else {
        let v = sql_literal_value(a.skip(1)).unwrap();
        lemma_literal_value_concat(a.skip(1), b, v);
        assert((a + b).skip(1) =~= a.skip(1) + b);
        assert((a + b)[0] == a[0]);
        match sql_literal_value(b) {
            Some(w) => assert(seq![a[0]] + (v + w) =~= (seq![a[0]] + v) + w),
            None => {},
        }
    }
}

/// Escaping loses nothing and lets nothing out: SQL reads the escaped text
/// back as exactly the original text, as one literal, so a state filter
/// can only select by equality.
pub proof fn lemma_sql_escaped_reads_back(s: Seq<char>)
    ensures
        sql_literal_value(sql_escaped(s)) == Some(s),
    decreases s.len(),
{
    if s.len() > 0 {
        let c = s.last();
        lemma_sql_escaped_reads_back(s.drop_last());
        let q = quoted_char(c);
        if c == '\'' {
            assert(q.skip(2) =~= Seq::<char>::empty());
            assert(sql_literal_value(q.skip(2)) == Some(Seq::<char>::empty()));
            assert(seq!['\''] + Seq::<char>::empty() =~= seq![c]);
            assert(sql_literal_value(q) == Some(seq![c]));
        } else {
            assert(q.skip(1) =~= Seq::<char>::empty());
            assert(sql_literal_value(q.skip(1)) == Some(Seq::<char>::empty()));
            assert(seq![q[0]] + Seq::<char>::empty() =~= seq![c]);
            assert(sql_literal_value(q) == Some(seq![c]));
        }
        lemma_literal_value_concat(sql_escaped(s.drop_last()), q, s.drop_last());
        assert(s.drop_last() + seq![c] =~= s);
    }
}

/// Appends a text as the inside of an SQL string literal.
fn push_sql_escaped(q: &mut String, s: &str)
    ensures
        final(q)@ == old(q)@ + sql_escaped(s@),
{
    let v = chars_of(s);
    let ghost start = q@;
    let mut i: usize = 0;
    while i < v.len()
        invariant
            i <= v.len(),
            v@ == s@,
            q@ == start + sql_escaped(v@.take(i as int)),
        decreases v.len() - i,
    {
        let c = v[i];
        if c == '\'' {
            push_char(q, '\'');
        }
        push_char(q, c);
        assert(v@.take(i + 1).drop_last() =~= v@.take(i as int));
        assert(q@ =~= start + sql_escaped(v@.take(i + 1)));
        i += 1;
    }
    assert(v@.take(i as int) =~= v@);
}

/// The query listing jobs: those whose state equals the filter's state (if
/// any, written as an escaped SQL literal), newest first, with the filter's
/// limit and offset (if any).
pub open spec fn list_query_text(filter: Option<JobFilter>) -> Seq<char> {
    let state_part = match filter {
        Some(f) => match f.state {
            Some(s) => " AND state = '"@ + sql_escaped(s@) + "'"@,
            None => Seq::empty(),
        },
        None => Seq::empty(),
    };
    let limit_part = match filter {
        Some(f) => match f.limit {
            Some(l) => " LIMIT "@ + decimal(l as nat),
            None => Seq::empty(),
        },
        None => Seq::empty(),
    };
    let offset_part = match filter {
        Some(f) => match f.offset {
            Some(o) => " OFFSET "@ + decimal(o as nat),
            None => Seq::empty(),
        },
        None => Seq::empty(),
    };
    list_query_base() + state_part + " ORDER BY created_at DESC"@ + limit_part + offset_part
}

/// Builds the query listing jobs.
pub fn list_query(filter: Option<&JobFilter>) -> (q: String)
    ensures
        q@ == list_query_text(match filter { Some(f) => Some(*f), None => None }),
{
    let mut q = string_of("SELECT id, source_path, display_name, size_bytes, content_hash, created_at, state, state_payload, settings_json\n                        FROM jobs WHERE 1=1");
    if let Some(f) = filter {
        if let Some(state) = &f.state {
            push_str(&mut q, " AND state = '");
            push_sql_escaped(&mut q, state.as_str());
            push_str(&mut q, "'");
        }
    }
    push_str(&mut q, " ORDER BY created_at DESC");
    if let Some(f) = filter {
        if let Some(limit) = f.limit {
            push_str(&mut q, " LIMIT ");
            push_decimal(&mut q, limit as u64);
        }
        if let Some(offset) = f.offset {
            push_str(&mut q, " OFFSET ");
            push_decimal(&mut q, offset as u64);
        }
    }
    assert(q@ =~= list_query_text(match filter { Some(f) => Some(*f), None => None }));
    q
}

} // verus!
