//! The annotation payload grammar.
//!
//! Every recognized annotation carries a payload that is either empty (up to
//! whitespace) or a parenthesized, comma-separated list of identifiers, with
//! an optional trailing comma: `(A, B, C)`. The grammar is given by the spec
//! functions below; [`parse_ident_tuple`] is the verified parser, and
//! [`render_ident_tuple`] the canonical serialization, proved to round-trip.

use vstd::prelude::*;

use crate::text::{
    copy_chars, ident_cont_char, ident_start_char, is_ident_cont, is_ident_start, is_ws,
    valid_ident, views_of, ws_char,
};

verus! {

/// Length of the whitespace run in `s` starting at `i`.
pub open spec fn ws_run(s: Seq<char>, i: int) -> nat
    decreases s.len() - i,
{
    if 0 <= i && i < s.len() && is_ws(s[i]) {
        (1 + ws_run(s, i + 1)) as nat
    } else {
        0
    }
}

/// Length of the identifier-character run in `s` starting at `i`.
pub open spec fn ident_run(s: Seq<char>, i: int) -> nat
    decreases s.len() - i,
{
    if 0 <= i && i < s.len() && is_ident_cont(s[i]) {
        (1 + ident_run(s, i + 1)) as nat
    } else {
        0
    }
}

/// The item list after the opening parenthesis: `i` points just past `(` or
/// just past a separating comma. Yields the identifiers when the remainder is
/// a well-formed list closed by `)` followed only by whitespace.
pub open spec fn parse_items(s: Seq<char>, i: int) -> Option<Seq<Seq<char>>>
    decreases s.len() - i,
{
    let j = i + ws_run(s, i);
    if j < s.len() && s[j] == ')' {
        if j + 1 + ws_run(s, j + 1) == s.len() {
            Some(Seq::empty())
        } else {
            None
        }
    } else if j < s.len() && is_ident_start(s[j]) {
        let k = j + ident_run(s, j);
        let name = s.subrange(j, k);
        let m = k + ws_run(s, k);
        if m < s.len() && s[m] == ',' {
            match parse_items(s, m + 1) {
                Some(rest) => Some(seq![name] + rest),
                None => None,
            }
        } else if m < s.len() && s[m] == ')' {
            if m + 1 + ws_run(s, m + 1) == s.len() {
                Some(seq![name])
            } else {
                None
            }
        } else {
            None
        }
    } else {
        None
    }
}

/// The payload grammar: empty up to whitespace, or a parenthesized
/// identifier list.
pub open spec fn parse_ident_tuple_spec(s: Seq<char>) -> Option<Seq<Seq<char>>> {
    let j = ws_run(s, 0) as int;
    if j == s.len() {
        Some(Seq::empty())
    } else if j < s.len() && s[j] == '(' {
        parse_items(s, j + 1)
    } else {
        None
    }
}

/// A payload is well formed when it parses.
pub open spec fn payload_wf(s: Seq<char>) -> bool {
    parse_ident_tuple_spec(s) is Some
}

/// The identifiers a well-formed payload lists, in payload order.
pub open spec fn payload_names(s: Seq<char>) -> Seq<Seq<char>> {
    match parse_ident_tuple_spec(s) {
        Some(names) => names,
        None => Seq::empty(),
    }
}

/// The position a failing item list is rejected at: the first character that
/// neither continues the list nor closes it, or the first trailing character
/// after the closing parenthesis. Meaningful only when `parse_items` yields
/// nothing.
pub open spec fn items_fail_at(s: Seq<char>, i: int) -> int
    decreases s.len() - i,
{
    let j = i + ws_run(s, i);
    if j < s.len() && s[j] == ')' {
        j + 1 + ws_run(s, j + 1)
    } else if j < s.len() && is_ident_start(s[j]) {
        let k = j + ident_run(s, j);
        let m = k + ws_run(s, k);
        if m < s.len() && s[m] == ',' {
            items_fail_at(s, m + 1)
        } else if m < s.len() && s[m] == ')' {
            m + 1 + ws_run(s, m + 1)
        } else {
            m
        }
    } else {
        j
    }
}

/// The position a malformed payload is rejected at. Meaningful only when the
/// payload is not well formed.
pub open spec fn payload_fail_at(s: Seq<char>) -> int {
    let j = ws_run(s, 0) as int;
    if j < s.len() && s[j] == '(' {
        items_fail_at(s, j + 1)
    } else {
        j
    }
}

/// A syntax failure inside an annotation payload: `offset` is a character
/// position within the payload, for the diagnostic to point at.
#[derive(Debug)]
pub struct ParseError {
    pub offset: usize,
}

fn skip_ws(s: &Vec<char>, i: usize) -> (j: usize)
    requires
        i <= s.len(),
    ensures
        j == i + ws_run(s@, i as int),
        i <= j <= s@.len(),
    decreases s.len() - i,
{
    if i < s.len() && ws_char(s[i]) {
        skip_ws(s, i + 1)
    } else {
        i
    }
}

fn scan_ident(s: &Vec<char>, i: usize) -> (k: usize)
    requires
        i <= s.len(),
    ensures
        k == i + ident_run(s@, i as int),
        i <= k <= s@.len(),
    decreases s.len() - i,
{
    if i < s.len() && ident_cont_char(s[i]) {
        scan_ident(s, i + 1)
    } else {
        i
    }
}

fn copy_range(s: &Vec<char>, from: usize, to: usize) -> (r: Vec<char>)
    requires
        from <= to <= s.len(),
    ensures
        r@ == s@.subrange(from as int, to as int),
{
    let mut r: Vec<char> = Vec::new();
    let mut i: usize = from;
    while i < to
        invariant
            from <= i <= to <= s.len(),
            r@ == s@.subrange(from as int, i as int),
        decreases to - i,
    {
        r.push(s[i]);
        assert(r@ =~= s@.subrange(from as int, i as int + 1));
        i += 1;
    }
    r
}

fn parse_items_exec(s: &Vec<char>, i: usize) -> (r: Result<Vec<Vec<char>>, usize>)
    requires
        i <= s.len(),
    ensures
        r is Ok <==> parse_items(s@, i as int) is Some,
        r matches Ok(v) ==> views_of(v@) == parse_items(s@, i as int)->Some_0,
        r matches Err(off) ==> off == items_fail_at(s@, i as int) && off <= s@.len(),
    decreases s.len() - i,
{
    let j = skip_ws(s, i);
    if j < s.len() && s[j] == ')' {
        let e = skip_ws(s, j + 1);
        if e == s.len() {
            let v: Vec<Vec<char>> = Vec::new();
            proof {
                assert(views_of(v@) =~= Seq::<Seq<char>>::empty());
            }
            Ok(v)
        } else {
            Err(e)
        }
    } else if j < s.len() && ident_start_char(s[j]) {
        let k = scan_ident(s, j);
        let name = copy_range(s, j, k);
        let m = skip_ws(s, k);
        if m < s.len() && s[m] == ',' {
            match parse_items_exec(s, m + 1) {
                Ok(mut rest) => {
                    rest.insert(0, name);
                    proof {
                        let ghost sp = parse_items(s@, i as int)->Some_0;
                        assert(views_of(rest@) =~= sp);
                    }
                    Ok(rest)
                },
                Err(off) => Err(off),
            }
        } else if m < s.len() && s[m] == ')' {
            let e = skip_ws(s, m + 1);
            if e == s.len() {
                let mut v: Vec<Vec<char>> = Vec::new();
                v.push(name);
                proof {
                    let ghost sp = parse_items(s@, i as int)->Some_0;
                    assert(views_of(v@) =~= sp);
                }
                Ok(v)
            } else {
                Err(e)
            }
        } else {
            Err(m)
        }
    } else {
        Err(j)
    }
}

/// Canonical serialization of the items of a name list: the names separated
/// by commas and closed by the parenthesis.
pub open spec fn render_items(names: Seq<Seq<char>>) -> Seq<char>
    decreases names.len(),
{
    if names.len() == 0 {
        seq![')']
    } else if names.len() == 1 {
        names[0] + seq![')']
    } else {
        names[0] + seq![','] + render_items(names.drop_first())
    }
}

/// Canonical serialization of a name list: `(A,B,C)`, `()` when empty.
pub open spec fn render_ident_tuple(names: Seq<Seq<char>>) -> Seq<char> {
    seq!['('] + render_items(names)
}

proof fn lemma_ident_run_exact(s: Seq<char>, j: int, n: int)
    requires
        0 <= j,
        0 <= n,
        j + n <= s.len(),
        forall|t: int| 0 <= t < n ==> is_ident_cont(#[trigger] s[j + t]),
        j + n == s.len() || !is_ident_cont(s[j + n]),
    ensures
        ident_run(s, j) == n,
    decreases n,
{
    if n == 0 {
    } else {
        assert(is_ident_cont(s[j + 0]));
        assert forall|t: int| 0 <= t < n - 1 implies is_ident_cont(#[trigger] s[j + 1 + t]) by {
            assert(is_ident_cont(s[j + (t + 1)]));
        }
        lemma_ident_run_exact(s, j + 1, n - 1);
    }
}

proof fn lemma_parse_render_items(s: Seq<char>, i: int, names: Seq<Seq<char>>)
    requires
        0 <= i <= s.len(),
        s.subrange(i, s.len() as int) == render_items(names),
        forall|k: int| 0 <= k < names.len() ==> valid_ident(#[trigger] names[k]),
    ensures
        parse_items(s, i) == Some(names),
    decreases names.len(),
{
    let tail = s.subrange(i, s.len() as int);
    if names.len() == 0 {
        assert(s[i] == tail[0]);
        assert(s[i] == ')');
        assert(ws_run(s, i) == 0);
        assert(i + 1 == s.len());
        assert(ws_run(s, i + 1) == 0);
        assert(parse_items(s, i) == Some(Seq::<Seq<char>>::empty()));
    } else {
        let n0 = names[0];
        assert(valid_ident(n0));
        let rest = names.drop_first();
        if names.len() == 1 {
            assert(render_items(names) == n0 + seq![')']);
        } else {
            assert(render_items(names) == n0 + seq![','] + render_items(rest));
        }
        assert(tail.len() == s.len() - i);
        assert(tail.len() >= n0.len() + 1);
        assert forall|t: int| i <= t < s.len() implies #[trigger] s[t] == tail[t - i] by {
            assert(tail[t - i] == s[i + (t - i)]);
        }
        assert forall|t: int| 0 <= t < n0.len() implies is_ident_cont(#[trigger] s[i + t]) by {
            assert(s[i + t] == tail[t]);
            assert(tail[t] == n0[t]);
            assert(is_ident_cont(n0[t]));
        }
        assert(s[i] == tail[0]);
        assert(tail[0] == n0[0]);
        assert(is_ident_start(s[i]));
        assert(!is_ws(s[i]));
        assert(ws_run(s, i) == 0);
        let k = i + n0.len();
        if names.len() == 1 {
            assert(s[k] == tail[n0.len() as int]);
            assert(s[k] == ')');
            assert(!is_ident_cont(s[k]));
            lemma_ident_run_exact(s, i, n0.len() as int);
            assert(s.subrange(i, k) =~= n0);
            assert(ws_run(s, k) == 0);
            assert(k + 1 == s.len());
            assert(ws_run(s, k + 1) == 0);
            assert(parse_items(s, i) == Some(seq![n0]));
            assert(seq![n0] =~= names);
        } else {
            assert(s[k] == tail[n0.len() as int]);
            assert(s[k] == ',');
            assert(!is_ident_cont(s[k]));
            lemma_ident_run_exact(s, i, n0.len() as int);
            assert(s.subrange(i, k) =~= n0);
            assert(ws_run(s, k) == 0);
            assert(k + 1 <= s.len());
            assert forall|t: int|
                0 <= t < s.len() - (k + 1) implies #[trigger] s.subrange(k + 1, s.len() as int)[t]
                == render_items(rest)[t] by {
                assert(s[k + 1 + t] == tail[n0.len() + 1 + t]);
            }
            assert(s.subrange(k + 1, s.len() as int) =~= render_items(rest));
            assert forall|t: int| 0 <= t < rest.len() implies valid_ident(#[trigger] rest[t]) by {
                assert(valid_ident(names[t + 1]));
            }
            lemma_parse_render_items(s, k + 1, rest);
            assert(parse_items(s, i) == Some(seq![n0] + rest));
            assert(seq![n0] + rest =~= names);
        }
    }
}

/// Law: parsing the canonical serialization of a list of valid identifiers
/// yields that list back.
pub proof fn lemma_parse_render_roundtrip(names: Seq<Seq<char>>)
    requires
        forall|k: int| 0 <= k < names.len() ==> valid_ident(#[trigger] names[k]),
    ensures
        parse_ident_tuple_spec(render_ident_tuple(names)) == Some(names),
{
    let s = render_ident_tuple(names);
    assert(s[0] == '(');
    assert(!is_ws(s[0]));
    assert(ws_run(s, 0) == 0);
    assert(s.subrange(1, s.len() as int) =~= render_items(names));
    lemma_parse_render_items(s, 1, names);
}

/// Law: a parsed name list is a set — serializing two orderings of the same
/// names and parsing them back yields the same set of names.
pub proof fn lemma_name_list_set_roundtrip(p1: Seq<Seq<char>>, p2: Seq<Seq<char>>)
    requires
        forall|k: int| 0 <= k < p1.len() ==> valid_ident(#[trigger] p1[k]),
        forall|k: int| 0 <= k < p2.len() ==> valid_ident(#[trigger] p2[k]),
        p1.to_set() == p2.to_set(),
    ensures
        parse_ident_tuple_spec(render_ident_tuple(p1)) is Some,
        parse_ident_tuple_spec(render_ident_tuple(p2)) is Some,
        parse_ident_tuple_spec(render_ident_tuple(p1))->Some_0.to_set()
            == parse_ident_tuple_spec(render_ident_tuple(p2))->Some_0.to_set(),
{
    lemma_parse_render_roundtrip(p1);
    lemma_parse_render_roundtrip(p2);
}

fn append_chars(out: &mut Vec<char>, a: &Vec<char>)
    ensures
        final(out)@ == old(out)@ + a@,
{
    let mut i: usize = 0;
    while i < a.len()
        invariant
            i <= a.len(),
            out@ == old(out)@ + a@.subrange(0, i as int),
        decreases a.len() - i,
    {
        out.push(a[i]);
        assert(out@ =~= old(out)@ + a@.subrange(0, i as int + 1));
        i += 1;
    }
    proof {
        assert(old(out)@ + a@.subrange(0, a@.len() as int) =~= old(out)@ + a@);
    }
}

fn render_items_onto(names: &Vec<Vec<char>>, from: usize, out: &mut Vec<char>)
    requires
        from <= names.len(),
    ensures
        final(out)@ == old(out)@ + render_items(
            views_of(names@).subrange(from as int, names@.len() as int),
        ),
    decreases names.len() - from,
{
    let ghost sub = views_of(names@).subrange(from as int, names@.len() as int);
    if from == names.len() {
        out.push(')');
        proof {
            assert(out@ =~= old(out)@ + seq![')']);
        }
    } else if from + 1 == names.len() {
        proof {
            assert(sub[0] == names@[from as int]@);
        }
        append_chars(out, &names[from]);
        out.push(')');
        proof {
            assert(out@ =~= old(out)@ + (names@[from as int]@ + seq![')']));
        }
    } else {
        proof {
            assert(sub[0] == names@[from as int]@);
            assert(sub.drop_first() =~= views_of(names@).subrange(
                from as int + 1,
                names@.len() as int,
            ));
        }
        append_chars(out, &names[from]);
        out.push(',');
        render_items_onto(names, from + 1, out);
        proof {
            assert(out@ =~= old(out)@ + (sub[0] + seq![','] + render_items(sub.drop_first())));
        }
    }
}

/// Serialize a name list back to payload text, in canonical form.
pub fn render_name_list(names: &Vec<Vec<char>>) -> (r: Vec<char>)
    ensures
        r@ == render_ident_tuple(views_of(names@)),
{
    let mut out: Vec<char> = Vec::new();
    out.push('(');
    proof {
        assert(out@ =~= seq!['(']);
        assert(views_of(names@).subrange(0, names@.len() as int) =~= views_of(names@));
    }
    render_items_onto(names, 0, &mut out);
    out
}

/// Parse an annotation payload into its list of view-name identifiers.
///
/// Returns the identifiers in payload order exactly when the payload matches
/// the grammar; otherwise the error points at the offending character.
pub fn parse_ident_tuple(s: &Vec<char>) -> (r: Result<Vec<Vec<char>>, ParseError>)
    ensures
        r is Ok <==> payload_wf(s@),
        r matches Ok(v) ==> views_of(v@) == payload_names(s@),
        r matches Err(e) ==> e.offset == payload_fail_at(s@) && e.offset <= s@.len(),
{
    let j = skip_ws(s, 0);
    if j == s.len() {
        let v: Vec<Vec<char>> = Vec::new();
        proof {
            assert(views_of(v@) =~= Seq::<Seq<char>>::empty());
        }
        Ok(v)
    } else if s[j] == '(' {
        match parse_items_exec(s, j + 1) {
            Ok(v) => Ok(v),
            Err(off) => Err(ParseError { offset: off }),
        }
    } else {
        Err(ParseError { offset: j })
    }
}

} // verus!
