//! Inline expression spans: `λ#(` body `)#`. Spans are found left to right;
//! each takes the leftmost opening token that has a closing token after it,
//! and the shortest body, so it ends at the first closing token.
use vstd::prelude::*;
use crate::text::{push_chars};

verus! {

/// An opening token `λ#(` starts at `i`.
pub open spec fn opens_at(c: Seq<char>, i: int) -> bool {
    0 <= i && i + 3 <= c.len() && c[i] == 'λ' && c[i + 1] == '#' && c[i + 2] == '('
}

/// A closing token `)#` starts at `j`.
pub open spec fn closes_at(c: Seq<char>, j: int) -> bool {
    0 <= j && j + 2 <= c.len() && c[j] == ')' && c[j + 1] == '#'
}

/// The first index from `p` on where an opening token starts.
pub open spec fn first_open(c: Seq<char>, p: int) -> Option<int>
    decreases c.len() - p,
{
    if p + 3 > c.len() {
        None
    } else if opens_at(c, p) {
        Some(p)
    } else {
        first_open(c, p + 1)
    }
}

/// The first index from `p` on where a closing token starts.
pub open spec fn first_close(c: Seq<char>, p: int) -> Option<int>
    decreases c.len() - p,
{
    if p + 2 > c.len() {
        None
    } else if closes_at(c, p) {
        Some(p)
    } else {
        first_close(c, p + 1)
    }
}

/// The next span from `p` on: where its opening token and its closing token
/// start.
pub open spec fn next_span(c: Seq<char>, p: int) -> Option<(int, int)> {
    match first_open(c, p) {
        Some(i) => match first_close(c, i + 3) {
            Some(j) => Some((i, j)),
            None => None,
        },
        None => None,
    }
}

pub proof fn lemma_first_open(c: Seq<char>, p: int)
    ensures
        first_open(c, p) matches Some(i) ==> p <= i && opens_at(c, i),
    decreases c.len() - p,
{
    if p + 3 <= c.len() && !opens_at(c, p) {
        lemma_first_open(c, p + 1);
    }
}

pub proof fn lemma_first_close(c: Seq<char>, p: int)
    ensures
        first_close(c, p) matches Some(j) ==> p <= j && closes_at(c, j),
    decreases c.len() - p,
{
    if p + 2 <= c.len() && !closes_at(c, p) {
        lemma_first_close(c, p + 1);
    }
}

pub proof fn lemma_next_span(c: Seq<char>, p: int)
    ensures
        next_span(c, p) matches Some((i, j)) ==> p <= i && i + 3 <= j && j + 2 <= c.len()
            && opens_at(c, i) && closes_at(c, j),
{
    lemma_first_open(c, p);
    if let Some(i) = first_open(c, p) {
        lemma_first_close(c, i + 3);
    }
}

/// The bodies of the spans of `c` from `p` on, in order.
pub open spec fn expr_bodies(c: Seq<char>, p: int) -> Seq<Seq<char>>
    decreases c.len() - p,
{
    match next_span(c, p) {
        Some((i, j)) => {
            proof {
                lemma_next_span(c, p);
            }
            seq![c.subrange(i + 3, j)] + expr_bodies(c, j + 2)
        },
        None => Seq::empty(),
    }
}

/// `c` from `p` on, each span replaced by the next of `results`.
pub open spec fn spliced(c: Seq<char>, p: int, results: Seq<Seq<char>>) -> Seq<char>
    decreases c.len() - p,
{
    match next_span(c, p) {
        Some((i, j)) => {
            proof {
                lemma_next_span(c, p);
            }
            c.subrange(p, i) + results[0] + spliced(c, j + 2, results.drop_first())
        },
        None => c.subrange(p, c.len() as int),
    }
}

/// The bodies of the spans of a line.
pub open spec fn line_bodies(c: Seq<char>) -> Seq<Seq<char>> {
    expr_bodies(c, 0)
}

/// A line with its spans replaced, in order, by `results`.
pub open spec fn line_spliced(c: Seq<char>, results: Seq<Seq<char>>) -> Seq<char> {
    spliced(c, 0, results)
}

fn find_open(c: &Vec<char>, p: usize) -> (r: Option<usize>)
    ensures
        r matches Some(i) ==> first_open(c@, p as int) == Some(i as int),
        r is None ==> first_open(c@, p as int) is None,
{
    let mut k: usize = p;
    while k < c.len() && c.len() - k >= 3
        invariant
            p <= k,
            first_open(c@, p as int) == first_open(c@, k as int),
        decreases c.len() - k,
    {
        if c[k] == 'λ' && c[k + 1] == '#' && c[k + 2] == '(' {
            return Some(k);
        }
        k = k + 1;
    }
    None
}

fn find_close(c: &Vec<char>, p: usize) -> (r: Option<usize>)
    ensures
        r matches Some(j) ==> first_close(c@, p as int) == Some(j as int),
        r is None ==> first_close(c@, p as int) is None,
{
    let mut k: usize = p;
    while k < c.len() && c.len() - k >= 2
        invariant
            p <= k,
            first_close(c@, p as int) == first_close(c@, k as int),
        decreases c.len() - k,
    {
        if c[k] == ')' && c[k + 1] == '#' {
            return Some(k);
        }
        k = k + 1;
    }
    None
}

/// The next span from `p` on.
fn find_span(c: &Vec<char>, p: usize) -> (r: Option<(usize, usize)>)
    requires
        p <= c.len(),
    ensures
        r matches Some((i, j)) ==> next_span(c@, p as int) == Some((i as int, j as int)),
        r is None ==> next_span(c@, p as int) is None,
{
    match find_open(c, p) {
        Some(i) => {
            proof {
                lemma_first_open(c@, p as int);
            }
            match find_close(c, i + 3) {
                Some(j) => Some((i, j)),
                None => None,
            }
        },
        None => None,
    }
}

fn slice_of(c: &Vec<char>, from: usize, to: usize) -> (r: Vec<char>)
    requires
        from <= to <= c.len(),
    ensures
        r@ == c@.subrange(from as int, to as int),
{
    let mut r: Vec<char> = Vec::new();
    let mut i: usize = from;
    while i < to
        invariant
            from <= i <= to <= c.len(),
            r@ == c@.subrange(from as int, i as int),
        decreases to - i,
    {
        r.push(c[i]);
        i = i + 1;
        assert(r@ =~= c@.subrange(from as int, i as int));
    }
    r
}

/// The bodies of the expression spans of `line`, in order.
pub fn span_bodies(line: &Vec<char>) -> (r: Vec<Vec<char>>)
    ensures
        r.deep_view() == line_bodies(line@),
{
    let mut r: Vec<Vec<char>> = Vec::new();
    let mut p: usize = 0;
    while p <= line.len()
        invariant
            p <= line.len() + 2,
            p <= line.len() ==> expr_bodies(line@, 0) == r.deep_view() + expr_bodies(line@, p as int),
            p > line.len() ==> expr_bodies(line@, 0) == r.deep_view(),
        decreases line.len() + 2 - p,
    {
        match find_span(line, p) {
            Some((i, j)) => {
                proof {
                    lemma_next_span(line@, p as int);
                }
                let body = slice_of(line, i + 3, j);
                let ghost before = r.deep_view();
                assert(body.deep_view() =~= body@);
                r.push(body);
                assert(r.deep_view() =~= before.push(line@.subrange(i + 3, j as int)));
                p = j + 2;
                if p > line.len() {
                    return r;
                }
            },
            None => {
                assert(r.deep_view() + Seq::<Seq<char>>::empty() =~= r.deep_view());
                return r;
            },
        }
    }
    r
}

/// `line` with its expression spans replaced, in order, by `results`.
pub fn splice(line: &Vec<char>, results: &Vec<Vec<char>>) -> (r: Vec<char>)
    requires
        results.len() == line_bodies(line@).len(),
    ensures
        r@ == line_spliced(line@, results.deep_view()),
{
    let mut r: Vec<char> = Vec::new();
    let mut p: usize = 0;
    let mut k: usize = 0;
    assert(results.deep_view().skip(0) =~= results.deep_view());
    assert(r@ + spliced(line@, 0, results.deep_view()) =~= spliced(line@, 0, results.deep_view()));
    loop
        invariant
            p <= line.len(),
            k <= results.len(),
            expr_bodies(line@, p as int).len() == results.len() - k,
            spliced(line@, 0, results.deep_view()) == r@ + spliced(
                line@,
                p as int,
                results.deep_view().skip(k as int),
            ),
        decreases line.len() - p,
    {
        match find_span(line, p) {
            Some((i, j)) => {
                proof {
                    lemma_next_span(line@, p as int);
                    assert(results.deep_view().skip(k as int).drop_first() =~= results.deep_view().skip(k + 1));
                }
                let head = slice_of(line, p, i);
                push_chars(&mut r, &head);
                push_chars(&mut r, &results[k]);
                k = k + 1;
                p = j + 2;
            },
            None => {
                let rest = slice_of(line, p, line.len());
                push_chars(&mut r, &rest);
                return r;
            },
        }
    }
}

} // verus!
