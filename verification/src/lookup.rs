//! `lookup` and `reverse_lookup`
//!
//! A lookup walks the rows of one frame and, for each, searches a second
//! frame for the first row that a predicate pairs with it. The pair is
//! combined into a row of the result; a row without a partner is replaced
//! by a default row, or dropped where no default was given.
//!
//! The contracts are stated over three relations, so that they read the same
//! whichever way round the frames are taken: which answers the predicate may
//! give on a pair, which rows the combining function may make of a pair, and
//! which rows the default constructor may make.

use vstd::prelude::*;
use crate::dataframe::DataFrame;
use crate::parallel::{first_hit, mapped, no_hit, par_filter_map, par_find_first};
use crate::picks::{lemma_somes_all_some, lemma_somes_full_len, lemma_somes_len, somes};
use crate::traits::{Constructor, Predicate, Record, Transform};

verus! {

/// The answers that `p` may give on a pair of rows.
pub open spec fn pair_relation<'a, 'b, R: Record + 'a, O: Record + 'b, P: Predicate<(&'a R, &'b O)>>(
    p: P,
) -> spec_fn(R, O, bool) -> bool {
    |s: R, o: O, b: bool| call_ensures(p, (&(&s, &o),), b)
}

/// The rows that `f` may make of duplicates of a pair of rows.
pub open spec fn combine_relation<R: Record, O: Record, N: Record, T: Transform<(R, O), N>>(
    f: T,
) -> spec_fn(R, O, N) -> bool {
    |s: R, o: O, n: N|
        exists|cs: R, co: O|
            cloned(s, cs) && cloned(o, co) && #[trigger] call_ensures(f, ((cs, co),), n)
}

/// The rows that the default constructor may make, where there is one.
pub open spec fn default_relation<N: Record, C: Constructor<N>>(ctor: Option<C>) -> Option<
    spec_fn(N) -> bool,
> {
    match ctor {
        Some(c) => Some(|n: N| call_ensures(c, (), n)),
        None => None,
    }
}

/// A relation on pairs with the two sides exchanged.
pub open spec fn flip<A, B, V>(rel: spec_fn(A, B, V) -> bool) -> spec_fn(B, A, V) -> bool {
    |b: B, a: A, v: V| rel(a, b, v)
}

/// The first row of `others` that may match `s` is the one at `i`: it may be
/// accepted, and every row before it may be rejected.
pub open spec fn first_match<R, O>(
    matches: spec_fn(R, O, bool) -> bool,
    s: R,
    others: Seq<O>,
    i: int,
) -> bool {
    &&& 0 <= i < others.len()
    &&& matches(s, others[i], true)
    &&& forall|j: int| 0 <= j < i ==> matches(s, #[trigger] others[j], false)
}

/// Every row of `others` may be rejected as a partner of `s`.
pub open spec fn no_match<R, O>(matches: spec_fn(R, O, bool) -> bool, s: R, others: Seq<O>) -> bool {
    forall|j: int| 0 <= j < others.len() ==> matches(s, #[trigger] others[j], false)
}

/// `pick` is what a lookup may make of the row `s`: the combination of `s`
/// with its first match; without a match a default row, or nothing where
/// there is no default.
pub open spec fn row_looked_up<R, O, N>(
    matches: spec_fn(R, O, bool) -> bool,
    combines: spec_fn(R, O, N) -> bool,
    fallback: Option<spec_fn(N) -> bool>,
    s: R,
    others: Seq<O>,
    pick: Option<N>,
) -> bool {
    ||| exists|i: int| #[trigger]
        first_match(matches, s, others, i) && pick is Some && combines(s, others[i], pick->0)
    ||| no_match(matches, s, others) && match fallback {
        Some(makes) => pick is Some && makes(pick->0),
        None => pick is None,
    }
}

/// `picks` holds, row by row, what a lookup may make of that row.
pub open spec fn lookup_picks<R, O, N>(
    matches: spec_fn(R, O, bool) -> bool,
    combines: spec_fn(R, O, N) -> bool,
    fallback: Option<spec_fn(N) -> bool>,
    rows: Seq<R>,
    others: Seq<O>,
    picks: Seq<Option<N>>,
) -> bool {
    &&& picks.len() == rows.len()
    &&& forall|i: int|
        0 <= i < rows.len() ==> row_looked_up(
            matches,
            combines,
            fallback,
            rows[i],
            others,
            #[trigger] picks[i],
        )
}

/// `out` is a possible result of looking the rows of `rows` up in `others`:
/// what the lookup made of each row, in the order of `rows`, without the
/// rows that were dropped.
pub open spec fn looked_up<R, O, N>(
    matches: spec_fn(R, O, bool) -> bool,
    combines: spec_fn(R, O, N) -> bool,
    fallback: Option<spec_fn(N) -> bool>,
    rows: Seq<R>,
    others: Seq<O>,
    out: Seq<N>,
) -> bool {
    exists|picks: Seq<Option<N>>| #[trigger]
        lookup_picks(matches, combines, fallback, rows, others, picks) && out == somes(picks)
}

/// The three functions accept what a lookup of `rows` in `others` hands
/// them: the predicate every pair of rows, the combining function every pair
/// of duplicates, the constructor a call.
pub open spec fn lookup_accepts<
    'a,
    'b,
    R: Record + 'a,
    O: Record + 'b,
    N: Record,
    P: Predicate<(&'a R, &'b O)>,
    T: Transform<(R, O), N>,
    C: Constructor<N>,
>(p: P, f: T, ctor: Option<C>, rows: Seq<R>, others: Seq<O>) -> bool {
    &&& forall|i: int, j: int|
        0 <= i < rows.len() && 0 <= j < others.len() ==> call_requires(
            p,
            (&(&#[trigger] rows[i], &#[trigger] others[j]),),
        )
    &&& forall|i: int, j: int, cs: R, co: O|
        0 <= i < rows.len() && 0 <= j < others.len() && #[trigger] cloned(rows[i], cs)
            && #[trigger] cloned(others[j], co) ==> call_requires(f, ((cs, co),))
    &&& ctor matches Some(c) ==> call_requires(c, ())
}

/// What `lookup` makes of one row of `self`.
fn match_row<'a, 'b, R, O, N, P, T, C>(
    s: &'a R,
    other: &'b DataFrame<O>,
    predicate: &P,
    transform: &T,
    constructor: &Option<C>,
) -> (pick: Option<N>) where
    R: Record,
    O: Record,
    N: Record,
    P: Predicate<(&'a R, &'b O)>,
    T: Transform<(R, O), N>,
    C: Constructor<N>,

    requires
        lookup_accepts(*predicate, *transform, *constructor, seq![*s], other@),
    ensures
        row_looked_up(
            pair_relation(*predicate),
            combine_relation(*transform),
            default_relation(*constructor),
            *s,
            other@,
            pick,
        ),
{
    let ghost matches = pair_relation(*predicate);
    let ghost combines = combine_relation(*transform);
    let pairs = Ghost(*predicate);
    assert(seq![*s][0] == *s);
    let is_partner = |o: &&'b O| -> (b: bool)
        requires
            call_requires(pairs@, (&(s, *o),)),
        ensures
            call_ensures(pairs@, (&(s, *o),), b)
        {
            predicate(&(s, *o))
        };
    match par_find_first(other.rows(), is_partner) {
        Some(item) => {
            let ghost i = choose|i: int| #[trigger]
                first_hit(is_partner, other@, i) && *item == other@[i];
            let cs = s.clone();
            let co = item.clone();
            assert(cloned(seq![*s][0], cs) && cloned(other@[i], co));
            let n = transform((cs, co));
            proof {
                assert(first_match(matches, *s, other@, i));
                assert(cloned(*s, cs) && cloned(other@[i], co) && call_ensures(
                    *transform,
                    ((cs, co),),
                    n,
                ));
                assert(combines(*s, other@[i], n));
            }
            Some(n)
        },
        None => {
            assert(no_hit(is_partner, other@));
            assert(no_match(matches, *s, other@));
            match constructor {
                Some(ctor) => Some(ctor()),
                None => None,
            }
        },
    }
}

impl<R: Record> DataFrame<R> {
    /// Match each row of `self` with the first row of `other` that
    /// `predicate` pairs with it, and make a row of the pair with
    /// `transform`.
    ///
    /// "First" is by the order of the rows of `other`: where `predicate`
    /// accepts several of them, the one of lowest index is taken. A row of
    /// `self` without a match gives the row that `constructor` makes, in its
    /// place; where no constructor is given, it gives nothing. The result
    /// keeps the order of `self`.
    pub fn lookup<'a, 'b, Other, New, P, T, C>(
        &'a self,
        other: &'b DataFrame<Other>,
        predicate: P,
        transform: T,
        constructor: Option<C>,
    ) -> (out: DataFrame<New>) where
        Other: Record,
        New: Record,
        P: Predicate<(&'a R, &'b Other)>,
        T: Transform<(R, Other), New>,
        C: Constructor<New>,

        requires
            lookup_accepts(predicate, transform, constructor, self@, other@),
        ensures
            looked_up(
                pair_relation(predicate),
                combine_relation(transform),
                default_relation(constructor),
                self@,
                other@,
                out@,
            ),
            out@.len() <= self@.len(),
            constructor is Some ==> out@.len() == self@.len(),
    {
        let ghost matches = pair_relation(predicate);
        let ghost combines = combine_relation(transform);
        let ghost fallback = default_relation(constructor);
        let pairs = Ghost(predicate);
        let joins = Ghost(transform);
        let makes = Ghost(constructor);
        let looks_up = |s: &'a R| -> (pick: Option<New>)
            requires
                lookup_accepts(pairs@, joins@, makes@, seq![*s], other@),
            ensures
                row_looked_up(
                    pair_relation(pairs@),
                    combine_relation(joins@),
                    default_relation(makes@),
                    *s,
                    other@,
                    pick,
                )
            {
                match_row(s, other, &predicate, &transform, &constructor)
            };
        proof {
            assert forall|i: int| 0 <= i < self@.len() implies call_requires(
                looks_up,
                (&#[trigger] self@[i],),
            ) by {
                let one = seq![self@[i]];
                assert(one[0] == self@[i]);
                assert(lookup_accepts(predicate, transform, constructor, one, other@));
            }
        }
        let found = par_filter_map(self.rows(), looks_up);
        proof {
            let picks = choose|picks: Seq<Option<New>>| #[trigger]
                mapped(looks_up, self@, picks) && found@ == somes(picks);
            assert(lookup_picks(matches, combines, fallback, self@, other@, picks));
            lemma_lookup_picks_len(matches, combines, fallback, self@, other@, picks);
        }
        DataFrame::from_rows(found)
    }

    /// `lookup` the other way round: match each row of `other` with the
    /// first row of `self` that `predicate` pairs with it, and make a row of
    /// the pair with `transform`.
    ///
    /// `predicate` and `transform` still take the row of `self` first. The
    /// result follows the order of `other`, and ties are broken by the order
    /// of `self`.
    pub fn reverse_lookup<'a, 'b, Other, New, P, T, C>(
        &'a self,
        other: &'b DataFrame<Other>,
        predicate: P,
        transform: T,
        constructor: Option<C>,
    ) -> (out: DataFrame<New>) where
        Other: Record,
        New: Record,
        P: Predicate<(&'a R, &'b Other)>,
        T: Transform<(R, Other), New>,
        C: Constructor<New>,

        requires
            lookup_accepts(predicate, transform, constructor, self@, other@),
        ensures
            looked_up(
                flip(pair_relation(predicate)),
                flip(combine_relation(transform)),
                default_relation(constructor),
                other@,
                self@,
                out@,
            ),
            out@.len() <= other@.len(),
            constructor is Some ==> out@.len() == other@.len(),
    {
        let pairs = Ghost(predicate);
        let joins = Ghost(transform);
        let ghost fallback = default_relation(constructor);
        let swapped_predicate = |pair: &(&'b Other, &'a R)| -> (b: bool)
            requires
                call_requires(pairs@, (&(pair.1, pair.0),)),
            ensures
                call_ensures(pairs@, (&(pair.1, pair.0),), b)
            {
                predicate(&(pair.1, pair.0))
            };
        let swapped_transform = |pair: (Other, R)| -> (n: New)
            requires
                call_requires(joins@, ((pair.1, pair.0),)),
            ensures
                call_ensures(joins@, ((pair.1, pair.0),), n)
            {
                transform((pair.1, pair.0))
            };
        let out = other.lookup(self, swapped_predicate, swapped_transform, constructor);
        proof {
            lemma_swapped_lookup_is_reverse_lookup(
                predicate,
                transform,
                swapped_predicate,
                swapped_transform,
                fallback,
                self@,
                other@,
                out@,
            );
        }
        out
    }
}

/// The lengths that a lookup can have, over the picks behind it.
proof fn lemma_lookup_picks_len<R, O, N>(
    matches: spec_fn(R, O, bool) -> bool,
    combines: spec_fn(R, O, N) -> bool,
    fallback: Option<spec_fn(N) -> bool>,
    rows: Seq<R>,
    others: Seq<O>,
    picks: Seq<Option<N>>,
)
    requires
        lookup_picks(matches, combines, fallback, rows, others, picks),
    ensures
        somes(picks).len() <= rows.len(),
        fallback is Some ==> somes(picks).len() == rows.len(),
{
    lemma_somes_len(picks);
    if fallback is Some {
        assert forall|i: int| 0 <= i < picks.len() implies (#[trigger] picks[i]) is Some by {
            assert(row_looked_up(matches, combines, fallback, rows[i], others, picks[i]));
        }
        lemma_somes_all_some(picks);
    }
}

/// `narrow` relates no more than `wide` does.
pub open spec fn within<A, B, V>(
    narrow: spec_fn(A, B, V) -> bool,
    wide: spec_fn(A, B, V) -> bool,
) -> bool {
    forall|a: A, b: B, v: V| #[trigger] narrow(a, b, v) ==> wide(a, b, v)
}

/// What a lookup may return under some relations, it may return under
/// wider ones.
pub proof fn lemma_looked_up_widens<R, O, N>(
    matches: spec_fn(R, O, bool) -> bool,
    combines: spec_fn(R, O, N) -> bool,
    wider_matches: spec_fn(R, O, bool) -> bool,
    wider_combines: spec_fn(R, O, N) -> bool,
    fallback: Option<spec_fn(N) -> bool>,
    rows: Seq<R>,
    others: Seq<O>,
    out: Seq<N>,
)
    requires
        looked_up(matches, combines, fallback, rows, others, out),
        within(matches, wider_matches),
        within(combines, wider_combines),
    ensures
        looked_up(wider_matches, wider_combines, fallback, rows, others, out),
{
    let picks = choose|picks: Seq<Option<N>>| #[trigger]
        lookup_picks(matches, combines, fallback, rows, others, picks) && out == somes(picks);
    assert forall|i: int| 0 <= i < rows.len() implies row_looked_up(
        wider_matches,
        wider_combines,
        fallback,
        rows[i],
        others,
        #[trigger] picks[i],
    ) by {
        let s = rows[i];
        assert(row_looked_up(matches, combines, fallback, s, others, picks[i]));
        if exists|j: int| #[trigger]
            first_match(matches, s, others, j) && picks[i] is Some && combines(
                s,
                others[j],
                picks[i]->0,
            ) {
            let j = choose|j: int| #[trigger]
                first_match(matches, s, others, j) && picks[i] is Some && combines(
                    s,
                    others[j],
                    picks[i]->0,
                );
            assert(first_match(wider_matches, s, others, j));
            assert(wider_combines(s, others[j], picks[i]->0));
        } else {
            assert(no_match(wider_matches, s, others));
        }
    }
    assert(lookup_picks(wider_matches, wider_combines, fallback, rows, others, picks));
}

/// `swapped_p` and `swapped_f` hand their two arguments on to `p` and `f`
/// the other way round: what they may return on (`o`, `s`), `p` and `f` may
/// return on (`s`, `o`).
pub open spec fn swaps<
    'a,
    'b,
    R: Record + 'a,
    O: Record + 'b,
    N: Record,
    P: Predicate<(&'a R, &'b O)>,
    T: Transform<(R, O), N>,
    SP: Predicate<(&'b O, &'a R)>,
    ST: Transform<(O, R), N>,
>(p: P, f: T, swapped_p: SP, swapped_f: ST) -> bool {
    &&& forall|s: R, o: O, b: bool| #[trigger]
        call_ensures(swapped_p, (&(&o, &s),), b) ==> call_ensures(p, (&(&s, &o),), b)
    &&& forall|s: R, o: O, n: N| #[trigger]
        call_ensures(swapped_f, ((o, s),), n) ==> call_ensures(f, ((s, o),), n)
}

/// What a lookup of `others` in `rows` with the swapped functions may
/// return, a reverse lookup of `rows` in `others` with `p` and `f` may
/// return.
pub proof fn lemma_swapped_lookup_is_reverse_lookup<
    'a,
    'b,
    R: Record + 'a,
    O: Record + 'b,
    N: Record,
    P: Predicate<(&'a R, &'b O)>,
    T: Transform<(R, O), N>,
    SP: Predicate<(&'b O, &'a R)>,
    ST: Transform<(O, R), N>,
>(
    p: P,
    f: T,
    swapped_p: SP,
    swapped_f: ST,
    fallback: Option<spec_fn(N) -> bool>,
    rows: Seq<R>,
    others: Seq<O>,
    out: Seq<N>,
)
    requires
        swaps(p, f, swapped_p, swapped_f),
        looked_up(
            pair_relation(swapped_p),
            combine_relation(swapped_f),
            fallback,
            others,
            rows,
            out,
        ),
    ensures
        looked_up(
            flip(pair_relation(p)),
            flip(combine_relation(f)),
            fallback,
            others,
            rows,
            out,
        ),
{
    let narrow_matches = pair_relation(swapped_p);
    let narrow_combines = combine_relation(swapped_f);
    let wide_matches = flip(pair_relation(p));
    let wide_combines = flip(combine_relation(f));
    assert forall|o: O, s: R, b: bool| #[trigger] narrow_matches(o, s, b) implies wide_matches(
        o,
        s,
        b,
    ) by {
        assert(call_ensures(swapped_p, (&(&o, &s),), b));
    }
    assert forall|o: O, s: R, n: N| #[trigger] narrow_combines(o, s, n) implies wide_combines(
        o,
        s,
        n,
    ) by {
        let (co, cs) = choose|co: O, cs: R|
            cloned(o, co) && cloned(s, cs) && #[trigger] call_ensures(swapped_f, ((co, cs),), n);
        assert(call_ensures(f, ((cs, co),), n));
    }
    lemma_looked_up_widens(
        narrow_matches,
        narrow_combines,
        wide_matches,
        wide_combines,
        fallback,
        others,
        rows,
        out,
    );
}

/// Some row of `others` is the first match of `s`.
pub open spec fn has_match<R, O>(matches: spec_fn(R, O, bool) -> bool, s: R, others: Seq<O>) -> bool {
    exists|j: int| #[trigger] first_match(matches, s, others, j)
}

/// No row of `others` can be accepted as a partner of `s`.
pub open spec fn unmatched<R, O>(matches: spec_fn(R, O, bool) -> bool, s: R, others: Seq<O>) -> bool {
    forall|j: int| 0 <= j < others.len() ==> !matches(s, #[trigger] others[j], true)
}

/// A lookup returns at most as many rows as it was given, and exactly as
/// many where it has a default. Without a default it returns as many only
/// where every row found a match, and fewer where some row cannot match.
pub proof fn lemma_lookup_len<R, O, N>(
    matches: spec_fn(R, O, bool) -> bool,
    combines: spec_fn(R, O, N) -> bool,
    fallback: Option<spec_fn(N) -> bool>,
    rows: Seq<R>,
    others: Seq<O>,
    out: Seq<N>,
)
    requires
        looked_up(matches, combines, fallback, rows, others, out),
    ensures
        out.len() <= rows.len(),
        fallback is Some ==> out.len() == rows.len(),
        fallback is None && out.len() == rows.len() ==> forall|i: int|
            0 <= i < rows.len() ==> has_match(matches, #[trigger] rows[i], others),
        fallback is None && (exists|i: int|
            0 <= i < rows.len() && unmatched(matches, #[trigger] rows[i], others)) ==> out.len()
            < rows.len(),
{
    let picks = choose|picks: Seq<Option<N>>| #[trigger]
        lookup_picks(matches, combines, fallback, rows, others, picks) && out == somes(picks);
    lemma_lookup_picks_len(matches, combines, fallback, rows, others, picks);
    lemma_somes_full_len(picks);
    if fallback is None {
        if out.len() == rows.len() {
            assert forall|i: int| 0 <= i < rows.len() implies has_match(
                matches,
                #[trigger] rows[i],
                others,
            ) by {
                assert(picks[i] is Some);
                assert(row_looked_up(matches, combines, fallback, rows[i], others, picks[i]));
            }
        }
        if exists|i: int| 0 <= i < rows.len() && unmatched(matches, #[trigger] rows[i], others) {
            let i = choose|i: int|
                0 <= i < rows.len() && unmatched(matches, #[trigger] rows[i], others);
            assert(row_looked_up(matches, combines, fallback, rows[i], others, picks[i]));
            if picks[i] is Some {
                let j = choose|j: int| #[trigger]
                    first_match(matches, rows[i], others, j) && picks[i] is Some && combines(
                        rows[i],
                        others[j],
                        picks[i]->0,
                    );
                assert(matches(rows[i], others[j], true));
            }
            assert(picks[i] is None);
        }
    }
}

/// `rel` relates each pair of a row of `rows` and a row of `others` to at
/// most one value.
pub open spec fn single_valued<A, B, V>(
    rel: spec_fn(A, B, V) -> bool,
    rows: Seq<A>,
    others: Seq<B>,
) -> bool {
    forall|i: int, j: int, v: V, w: V|
        0 <= i < rows.len() && 0 <= j < others.len() && #[trigger] rel(rows[i], others[j], v)
            && #[trigger] rel(rows[i], others[j], w) ==> v == w
}

/// `makes` holds of at most one value.
pub open spec fn makes_one<N>(makes: spec_fn(N) -> bool) -> bool {
    forall|n: N, m: N| #[trigger] makes(n) && #[trigger] makes(m) ==> n == m
}

/// A lookup is determined by its inputs: where the predicate, the combining
/// function and the constructor each give one answer on what they are
/// handed, two runs over the same frames return the same rows, with the same
/// choice among several matches.
pub proof fn lemma_lookup_deterministic<R, O, N>(
    matches: spec_fn(R, O, bool) -> bool,
    combines: spec_fn(R, O, N) -> bool,
    fallback: Option<spec_fn(N) -> bool>,
    rows: Seq<R>,
    others: Seq<O>,
    out: Seq<N>,
    again: Seq<N>,
)
    requires
        looked_up(matches, combines, fallback, rows, others, out),
        looked_up(matches, combines, fallback, rows, others, again),
        single_valued(matches, rows, others),
        single_valued(combines, rows, others),
        fallback matches Some(makes) ==> makes_one(makes),
    ensures
        out == again,
{
    let picks = choose|picks: Seq<Option<N>>| #[trigger]
        lookup_picks(matches, combines, fallback, rows, others, picks) && out == somes(picks);
    let repicks = choose|picks: Seq<Option<N>>| #[trigger]
        lookup_picks(matches, combines, fallback, rows, others, picks) && again == somes(picks);
    assert forall|i: int| 0 <= i < rows.len() implies picks[i] == repicks[i] by {
        lemma_row_deterministic(
            matches,
            combines,
            fallback,
            rows,
            others,
            i,
            picks[i],
            repicks[i],
        );
    }
    assert(picks =~= repicks);
}

/// The step of `lemma_lookup_deterministic` for the row at `i`.
proof fn lemma_row_deterministic<R, O, N>(
    matches: spec_fn(R, O, bool) -> bool,
    combines: spec_fn(R, O, N) -> bool,
    fallback: Option<spec_fn(N) -> bool>,
    rows: Seq<R>,
    others: Seq<O>,
    i: int,
    pick: Option<N>,
    repick: Option<N>,
)
    requires
        0 <= i < rows.len(),
        row_looked_up(matches, combines, fallback, rows[i], others, pick),
        row_looked_up(matches, combines, fallback, rows[i], others, repick),
        single_valued(matches, rows, others),
        single_valued(combines, rows, others),
        fallback matches Some(makes) ==> makes_one(makes),
    ensures
        pick == repick,
{
    let s = rows[i];
    let found = exists|j: int| #[trigger]
        first_match(matches, s, others, j) && pick is Some && combines(s, others[j], pick->0);
    let refound = exists|j: int| #[trigger]
        first_match(matches, s, others, j) && repick is Some && combines(s, others[j], repick->0);
    if found {
        let j = choose|j: int| #[trigger]
            first_match(matches, s, others, j) && pick is Some && combines(s, others[j], pick->0);
        assert(matches(s, others[j], true));
        if refound {
            let k = choose|k: int| #[trigger]
                first_match(matches, s, others, k) && repick is Some && combines(
                    s,
                    others[k],
                    repick->0,
                );
            assert(matches(s, others[k], true));
            if j < k {
                assert(matches(s, others[j], false));
            }
            if k < j {
                assert(matches(s, others[k], false));
            }
            assert(j == k);
            assert(combines(s, others[j], pick->0) && combines(s, others[j], repick->0));
        } else {
            assert(matches(s, others[j], false));
        }
    } else {
        if refound {
            let k = choose|k: int| #[trigger]
                first_match(matches, s, others, k) && repick is Some && combines(
                    s,
                    others[k],
                    repick->0,
                );
            assert(matches(s, others[k], true));
            assert(matches(s, others[k], false));
        } else {
            match fallback {
                Some(makes) => {
                    assert(makes(pick->0) && makes(repick->0));
                },
                None => {},
            }
        }
    }
}

/// A reverse lookup of `rows` in `others` returns the same rows, in the
/// same order, as a lookup of `others` in `rows` whose predicate and
/// combining function hand their two arguments on the other way round,
/// where the predicate, the combining function and the constructor each
/// give one answer on what they are handed.
pub proof fn lemma_reverse_lookup_is_swapped_lookup<
    'a,
    'b,
    R: Record + 'a,
    O: Record + 'b,
    N: Record,
    P: Predicate<(&'a R, &'b O)>,
    T: Transform<(R, O), N>,
    SP: Predicate<(&'b O, &'a R)>,
    ST: Transform<(O, R), N>,
    C: Constructor<N>,
>(
    p: P,
    f: T,
    swapped_p: SP,
    swapped_f: ST,
    ctor: Option<C>,
    rows: Seq<R>,
    others: Seq<O>,
    reversed: Seq<N>,
    swapped: Seq<N>,
)
    requires
        swaps(p, f, swapped_p, swapped_f),
        looked_up(
            flip(pair_relation(p)),
            flip(combine_relation(f)),
            default_relation(ctor),
            others,
            rows,
            reversed,
        ),
        looked_up(
            pair_relation(swapped_p),
            combine_relation(swapped_f),
            default_relation(ctor),
            others,
            rows,
            swapped,
        ),
        single_valued(flip(pair_relation(p)), others, rows),
        single_valued(flip(combine_relation(f)), others, rows),
        default_relation(ctor) matches Some(makes) ==> makes_one(makes),
    ensures
        reversed == swapped,
{
    let fallback = default_relation(ctor);
    lemma_swapped_lookup_is_reverse_lookup(
        p,
        f,
        swapped_p,
        swapped_f,
        fallback,
        rows,
        others,
        swapped,
    );
    lemma_lookup_deterministic(
        flip(pair_relation(p)),
        flip(combine_relation(f)),
        fallback,
        others,
        rows,
        reversed,
        swapped,
    );
}

} // verus!
