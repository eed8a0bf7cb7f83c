//! What the spacing rules leave: the laws of runs replaced by one character,
//! of line breaks without padding, and of capped blank lines.

use vstd::prelude::*;
use crate::pattern::{blank_lines_capped, line_breaks_unpadded, runs_replaced_from};
use crate::text::drop_while;

verus! {

/// Every character of `s` satisfies `q`.
pub open spec fn all_chars(s: Seq<char>, q: spec_fn(char) -> bool) -> bool {
    forall|i: int| 0 <= i < s.len() ==> q(#[trigger] s[i])
}

/// `a` is never directly followed by `b` in `s`.
pub open spec fn no_pair(s: Seq<char>, a: char, b: char) -> bool {
    forall|i: int| 0 <= i < s.len() - 1 ==> !(#[trigger] s[i] == a && s[i + 1] == b)
}

/// No two neighbours in `s` both satisfy `p`.
pub open spec fn no_adjacent(s: Seq<char>, p: spec_fn(char) -> bool) -> bool {
    forall|i: int| 0 <= i < s.len() - 1 ==> !(p(#[trigger] s[i]) && p(s[i + 1]))
}

/// `s` holds no three line feeds in a row.
pub open spec fn no_triple_break(s: Seq<char>) -> bool {
    forall|i: int|
        0 <= i < s.len() - 2 ==> !(#[trigger] s[i] == '\n' && s[i + 1] == '\n' && s[i + 2] == '\n')
}

/// `c` occurs in `s`.
pub open spec fn occurs(s: Seq<char>, c: char) -> bool {
    exists|i: int| 0 <= i < s.len() && #[trigger] s[i] == c
}

proof fn lemma_occurs_cons(x: char, o: Seq<char>, c: char)
    requires
        occurs(o, c) || x == c,
    ensures
        occurs(seq![x] + o, c),
{
    let t = seq![x] + o;
    if x == c {
        assert(t[0] == c);
    } else {
        let i = choose|i: int| 0 <= i < o.len() && #[trigger] o[i] == c;
        assert(t[i + 1] == c);
    }
}

/// Replacing runs: every character of the result comes from the replacement
/// or is a character of `s` outside the runs.
pub proof fn lemma_runs_chars(
    s: Seq<char>,
    p: spec_fn(char) -> bool,
    rep: Seq<char>,
    in_run: bool,
    q: spec_fn(char) -> bool,
)
    requires
        all_chars(rep, q),
        forall|i: int| 0 <= i < s.len() && !p(#[trigger] s[i]) ==> q(s[i]),
    ensures
        all_chars(runs_replaced_from(s, p, rep, in_run), q),
    decreases s.len(),
{
    if s.len() > 0 {
        assert forall|i: int| 0 <= i < s.drop_first().len() && !p(#[trigger] s.drop_first()[i]) implies q(
            s.drop_first()[i],
        ) by {
            assert(s.drop_first()[i] == s[i + 1]);
        }
        lemma_runs_chars(s.drop_first(), p, rep, true, q);
        lemma_runs_chars(s.drop_first(), p, rep, false, q);
        let o = runs_replaced_from(s, p, rep, in_run);
        if p(s[0]) {
            let head: Seq<char> = if in_run {
                seq![]
            } else {
                rep
            };
            let tail = runs_replaced_from(s.drop_first(), p, rep, true);
            assert forall|i: int| 0 <= i < o.len() implies q(#[trigger] o[i]) by {
                if i < head.len() {
                    assert(o[i] == head[i]);
                } else {
                    assert(o[i] == tail[i - head.len()]);
                }
            }
        } else {
            let tail = runs_replaced_from(s.drop_first(), p, rep, false);
            assert forall|i: int| 0 <= i < o.len() implies q(#[trigger] o[i]) by {
                if i > 0 {
                    assert(o[i] == tail[i - 1]);
                }
            }
        }
    }
}

/// Replacing runs keeps every character of `s` outside the runs.
pub proof fn lemma_runs_keep(s: Seq<char>, p: spec_fn(char) -> bool, rep: Seq<char>, in_run: bool)
    ensures
        forall|i: int|
            0 <= i < s.len() && !p(#[trigger] s[i]) ==> occurs(
                runs_replaced_from(s, p, rep, in_run),
                s[i],
            ),
    decreases s.len(),
{
    if s.len() > 0 {
        let rest = s.drop_first();
        lemma_runs_keep(rest, p, rep, true);
        lemma_runs_keep(rest, p, rep, false);
        let o = runs_replaced_from(s, p, rep, in_run);
        assert forall|i: int| 0 <= i < s.len() && !p(#[trigger] s[i]) implies occurs(o, s[i]) by {
            if p(s[0]) {
                let head: Seq<char> = if in_run {
                    seq![]
                } else {
                    rep
                };
                let tail = runs_replaced_from(rest, p, rep, true);
                assert(i > 0);
                assert(rest[i - 1] == s[i]);
                let j = choose|j: int| 0 <= j < tail.len() && #[trigger] tail[j] == s[i];
                assert(o[head.len() + j] == s[i]);
            } else {
                let tail = runs_replaced_from(rest, p, rep, false);
                if i == 0 {
                    lemma_occurs_cons(s[0], tail, s[i]);
                } else {
                    assert(rest[i - 1] == s[i]);
                    lemma_occurs_cons(s[0], tail, s[i]);
                }
            }
        }
    }
}

/// Replacing runs by one character of the class leaves no two neighbours
/// of the class; inside a run, the result starts outside the class.
pub proof fn lemma_runs_single(s: Seq<char>, p: spec_fn(char) -> bool, r: char, in_run: bool)
    requires
        p(r),
    ensures
        no_adjacent(runs_replaced_from(s, p, seq![r], in_run), p),
        in_run && runs_replaced_from(s, p, seq![r], in_run).len() > 0 ==> !p(
            runs_replaced_from(s, p, seq![r], in_run)[0],
        ),
    decreases s.len(),
{
    if s.len() > 0 {
        let rest = s.drop_first();
        lemma_runs_single(rest, p, r, true);
        lemma_runs_single(rest, p, r, false);
        let o = runs_replaced_from(s, p, seq![r], in_run);
        if p(s[0]) {
            let tail = runs_replaced_from(rest, p, seq![r], true);
            if !in_run {
                assert(o == seq![r] + tail);
                assert forall|i: int| 0 <= i < o.len() - 1 implies !(p(#[trigger] o[i]) && p(o[i + 1])) by {
                    if i > 0 {
                        assert(o[i] == tail[i - 1] && o[i + 1] == tail[i]);
                    } else {
                        assert(o[1] == tail[0]);
                    }
                }
            } else {
                assert(o =~= tail);
            }
        } else {
            let tail = runs_replaced_from(rest, p, seq![r], false);
            assert(o == seq![s[0]] + tail);
            assert forall|i: int| 0 <= i < o.len() - 1 implies !(p(#[trigger] o[i]) && p(o[i + 1])) by {
                if i > 0 {
                    assert(o[i] == tail[i - 1] && o[i + 1] == tail[i]);
                }
            }
        }
    }
}

/// Removing padding keeps every character of `s` that is not a space, and
/// adds none.
pub proof fn lemma_unpadded_chars(s: Seq<char>, f: bool, q: spec_fn(char) -> bool)
    requires
        all_chars(s, q),
    ensures
        all_chars(line_breaks_unpadded(s, f), q),
        forall|i: int|
            0 <= i < s.len() && #[trigger] s[i] != ' ' ==> occurs(line_breaks_unpadded(s, f), s[i]),
    decreases s.len(),
{
    if s.len() > 0 {
        let rest = s.drop_first();
        assert forall|i: int| 0 <= i < rest.len() implies q(#[trigger] rest[i]) by {
            assert(rest[i] == s[i + 1]);
        }
        lemma_unpadded_chars(rest, true, q);
        lemma_unpadded_chars(rest, false, q);
        lemma_unpadded_chars(rest, f, q);
        let o = line_breaks_unpadded(s, f);
        let tail = if s[0] == '\n' {
            line_breaks_unpadded(rest, true)
        } else if o == line_breaks_unpadded(rest, f) && s[0] == ' ' {
            line_breaks_unpadded(rest, f)
        } else {
            line_breaks_unpadded(rest, false)
        };
        assert(o == tail || o == seq![s[0]] + tail);
        assert forall|i: int| 0 <= i < o.len() implies q(#[trigger] o[i]) by {
            if o == seq![s[0]] + tail && i > 0 {
                assert(o[i] == tail[i - 1]);
            } else if o != seq![s[0]] + tail {
                assert(o[i] == tail[i]);
            }
        }
        assert forall|i: int| 0 <= i < s.len() && #[trigger] s[i] != ' ' implies occurs(o, s[i]) by {
            if i == 0 {
                lemma_occurs_cons(s[0], tail, s[0]);
            } else {
                assert(rest[i - 1] == s[i]);
                if o == seq![s[0]] + tail {
                    lemma_occurs_cons(s[0], tail, s[i]);
                }
            }
        }
    }
}

/// Where no two spaces stand together, removing padding leaves no space
/// next to a line feed and no two spaces together; after a line feed the
/// result does not start with a space, and it starts with the first
/// character of `s` where that is no space.
pub proof fn lemma_unpadded_pairs(s: Seq<char>, f: bool)
    requires
        no_pair(s, ' ', ' '),
    ensures
        ({
            let o = line_breaks_unpadded(s, f);
            &&& no_pair(o, ' ', ' ')
            &&& no_pair(o, ' ', '\n')
            &&& no_pair(o, '\n', ' ')
            &&& f && o.len() > 0 ==> o[0] != ' '
            &&& s.len() > 0 && s[0] != ' ' ==> o.len() > 0 && o[0] == s[0]
        }),
    decreases s.len(),
{
    if s.len() > 0 {
        let rest = s.drop_first();
        assert forall|i: int| 0 <= i < rest.len() - 1 implies !(#[trigger] rest[i] == ' ' && rest[i + 1] == ' ') by {
            assert(rest[i] == s[i + 1] && rest[i + 1] == s[i + 2]);
        }
        lemma_unpadded_pairs(rest, true);
        lemma_unpadded_pairs(rest, false);
        let o = line_breaks_unpadded(s, f);
        if s[0] == '\n' {
            let tail = line_breaks_unpadded(rest, true);
            assert(o == seq!['\n'] + tail);
            assert forall|i: int| 0 <= i < o.len() - 1 implies !(#[trigger] o[i] == ' ' && o[i + 1] == ' ')
                && !(o[i] == ' ' && o[i + 1] == '\n') && !(o[i] == '\n' && o[i + 1] == ' ') by {
                assert(o[i + 1] == tail[i]);
                if i > 0 {
                    assert(o[i] == tail[i - 1]);
                }
            }
        } else if s[0] == ' ' && (f || drop_while(s, |c: char| c == ' ').len() > 0 && drop_while(
            s,
            |c: char| c == ' ',
        )[0] == '\n') {
            assert(o == line_breaks_unpadded(rest, f));
        } else {
            let tail = line_breaks_unpadded(rest, false);
            assert(o == seq![s[0]] + tail);
            if s[0] == ' ' && rest.len() > 0 {
                assert(rest[0] == s[1]);
                assert(rest[0] != ' ');
                assert(drop_while(s, |c: char| c == ' ') == drop_while(rest, |c: char| c == ' '));
                assert(drop_while(rest, |c: char| c == ' ') == rest);
                assert(rest[0] != '\n');
            }
            assert forall|i: int| 0 <= i < o.len() - 1 implies !(#[trigger] o[i] == ' ' && o[i + 1] == ' ')
                && !(o[i] == ' ' && o[i + 1] == '\n') && !(o[i] == '\n' && o[i + 1] == ' ') by {
                assert(o[i + 1] == tail[i]);
                if i > 0 {
                    assert(o[i] == tail[i - 1]);
                }
            }
        }
    }
}

/// Capping blank lines keeps every character of `s` that is no line feed,
/// and adds none.
pub proof fn lemma_capped_chars(s: Seq<char>, n: nat, q: spec_fn(char) -> bool)
    requires
        all_chars(s, q),
    ensures
        all_chars(blank_lines_capped(s, n), q),
        forall|i: int|
            0 <= i < s.len() && #[trigger] s[i] != '\n' ==> occurs(blank_lines_capped(s, n), s[i]),
    decreases s.len(),
{
    if s.len() > 0 {
        let rest = s.drop_first();
        assert forall|i: int| 0 <= i < rest.len() implies q(#[trigger] rest[i]) by {
            assert(rest[i] == s[i + 1]);
        }
        let n2: nat = if s[0] == '\n' {
            if n < 2 {
                n + 1
            } else {
                n
            }
        } else {
            0
        };
        lemma_capped_chars(rest, n2, q);
        let o = blank_lines_capped(s, n);
        let tail = blank_lines_capped(rest, n2);
        assert(o == tail || o == seq![s[0]] + tail);
        assert forall|i: int| 0 <= i < o.len() implies q(#[trigger] o[i]) by {
            if o == seq![s[0]] + tail && i > 0 {
                assert(o[i] == tail[i - 1]);
            } else if o != seq![s[0]] + tail {
                assert(o[i] == tail[i]);
            }
        }
        assert forall|i: int| 0 <= i < s.len() && #[trigger] s[i] != '\n' implies occurs(o, s[i]) by {
            if i == 0 {
                assert(o == seq![s[0]] + tail);
                lemma_occurs_cons(s[0], tail, s[0]);
            } else {
                assert(rest[i - 1] == s[i]);
                if o == seq![s[0]] + tail {
                    lemma_occurs_cons(s[0], tail, s[i]);
                }
            }
        }
    }
}

/// Where no space stands next to a line feed or to another space, capping
/// blank lines keeps that so and leaves no three line feeds in a row.
pub proof fn lemma_capped_pairs(s: Seq<char>, n: nat)
    requires
        n <= 2,
        no_pair(s, ' ', ' '),
        no_pair(s, ' ', '\n'),
        no_pair(s, '\n', ' '),
    ensures
        ({
            let o = blank_lines_capped(s, n);
            &&& no_pair(o, ' ', ' ')
            &&& no_pair(o, ' ', '\n')
            &&& no_pair(o, '\n', ' ')
            &&& no_triple_break(o)
            &&& n == 2 && o.len() > 0 ==> o[0] != '\n'
            &&& n == 1 && o.len() > 1 ==> !(o[0] == '\n' && o[1] == '\n')
            &&& s.len() > 0 && s[0] != '\n' ==> o.len() > 0 && o[0] == s[0]
            &&& s.len() > 0 && s[0] == '\n' && o.len() > 0 ==> o[0] != ' '
        }),
    decreases s.len(),
{
    if s.len() > 0 {
        let rest = s.drop_first();
        assert forall|i: int| 0 <= i < rest.len() - 1 implies !(#[trigger] rest[i] == ' ' && rest[i + 1] == ' ')
            && !(rest[i] == ' ' && rest[i + 1] == '\n') && !(rest[i] == '\n' && rest[i + 1] == ' ') by {
            assert(rest[i] == s[i + 1] && rest[i + 1] == s[i + 2]);
        }
        if rest.len() > 0 {
            assert(rest[0] == s[1]);
        }
        let o = blank_lines_capped(s, n);
        if s[0] == '\n' {
            if n < 2 {
                lemma_capped_pairs(rest, n + 1);
                let tail = blank_lines_capped(rest, n + 1);
                assert(o == seq!['\n'] + tail);
                if rest.len() > 0 && rest[0] != '\n' {
                    assert(rest[0] != ' ');
                }
                assert forall|i: int| 0 <= i < o.len() - 1 implies !(#[trigger] o[i] == ' ' && o[i + 1] == ' ')
                    && !(o[i] == ' ' && o[i + 1] == '\n') && !(o[i] == '\n' && o[i + 1] == ' ') by {
                    assert(o[i + 1] == tail[i]);
                    if i > 0 {
                        assert(o[i] == tail[i - 1]);
                    }
                }
                assert forall|i: int| 0 <= i < o.len() - 2 implies !(#[trigger] o[i] == '\n' && o[i + 1] == '\n'
                    && o[i + 2] == '\n') by {
                    assert(o[i + 1] == tail[i] && o[i + 2] == tail[i + 1]);
                    if i > 0 {
                        assert(o[i] == tail[i - 1]);
                    }
                }
            } else {
                lemma_capped_pairs(rest, n);
                if rest.len() > 0 && rest[0] != '\n' {
                    assert(rest[0] != ' ');
                }
            }
        } else {
            lemma_capped_pairs(rest, 0);
            let tail = blank_lines_capped(rest, 0);
            assert(o == seq![s[0]] + tail);
            if s[0] == ' ' && rest.len() > 0 {
                assert(rest[0] != ' ' && rest[0] != '\n');
            }
            assert forall|i: int| 0 <= i < o.len() - 1 implies !(#[trigger] o[i] == ' ' && o[i + 1] == ' ')
                && !(o[i] == ' ' && o[i + 1] == '\n') && !(o[i] == '\n' && o[i + 1] == ' ') by {
                assert(o[i + 1] == tail[i]);
                if i > 0 {
                    assert(o[i] == tail[i - 1]);
                }
            }
            assert forall|i: int| 0 <= i < o.len() - 2 implies !(#[trigger] o[i] == '\n' && o[i + 1] == '\n'
                && o[i + 2] == '\n') by {
                assert(o[i + 1] == tail[i] && o[i + 2] == tail[i + 1]);
                if i > 0 {
                    assert(o[i] == tail[i - 1]);
                }
            }
        }
    }
}

/// A run of `s` keeps what `s` keeps: the characters' class, the missing
/// pairs and the missing triple line feeds.
pub proof fn lemma_subrange_keeps(s: Seq<char>, a: int, b: int, q: spec_fn(char) -> bool)
    requires
        0 <= a <= b <= s.len(),
    ensures
        all_chars(s, q) ==> all_chars(s.subrange(a, b), q),
        no_pair(s, ' ', ' ') ==> no_pair(s.subrange(a, b), ' ', ' '),
        no_pair(s, ' ', '\n') ==> no_pair(s.subrange(a, b), ' ', '\n'),
        no_pair(s, '\n', ' ') ==> no_pair(s.subrange(a, b), '\n', ' '),
        no_triple_break(s) ==> no_triple_break(s.subrange(a, b)),
{
    let r = s.subrange(a, b);
    assert forall|i: int| 0 <= i < r.len() implies #[trigger] r[i] == s[a + i] by {}
    if no_pair(s, ' ', ' ') {
        assert forall|i: int| 0 <= i < r.len() - 1 implies !(#[trigger] r[i] == ' ' && r[i + 1] == ' ') by {
            assert(r[i] == s[a + i] && r[i + 1] == s[a + i + 1]);
        }
    }
    if no_pair(s, ' ', '\n') {
        assert forall|i: int| 0 <= i < r.len() - 1 implies !(#[trigger] r[i] == ' ' && r[i + 1] == '\n') by {
            assert(r[i] == s[a + i] && r[i + 1] == s[a + i + 1]);
        }
    }
    if no_pair(s, '\n', ' ') {
        assert forall|i: int| 0 <= i < r.len() - 1 implies !(#[trigger] r[i] == '\n' && r[i + 1] == ' ') by {
            assert(r[i] == s[a + i] && r[i + 1] == s[a + i + 1]);
        }
    }
    if no_triple_break(s) {
        assert forall|i: int| 0 <= i < r.len() - 2 implies !(#[trigger] r[i] == '\n' && r[i + 1] == '\n'
            && r[i + 2] == '\n') by {
            assert(r[i] == s[a + i] && r[i + 1] == s[a + i + 1] && r[i + 2] == s[a + i + 2]);
        }
    }
    if all_chars(s, q) {
        assert forall|i: int| 0 <= i < r.len() implies q(#[trigger] r[i]) by {
            assert(r[i] == s[a + i]);
        }
    }
}

/// Replacing runs by `c` leaves `s` as it is where every character of the
/// class is `c`, no two of them are neighbours, and, inside a run, `s` does
/// not start with one.
pub proof fn lemma_runs_fixed(s: Seq<char>, p: spec_fn(char) -> bool, c: char, in_run: bool)
    requires
        forall|i: int| 0 <= i < s.len() && p(#[trigger] s[i]) ==> s[i] == c,
        no_adjacent(s, p),
        in_run ==> s.len() == 0 || !p(s[0]),
    ensures
        runs_replaced_from(s, p, seq![c], in_run) == s,
    decreases s.len(),
{
    if s.len() > 0 {
        let t = s.drop_first();
        assert forall|i: int| 0 <= i < t.len() && p(#[trigger] t[i]) implies t[i] == c by {
            assert(t[i] == s[i + 1]);
        }
        assert forall|i: int| 0 <= i < t.len() - 1 implies !(p(#[trigger] t[i]) && p(t[i + 1])) by {
            assert(t[i] == s[i + 1] && t[i + 1] == s[i + 2]);
        }
        if p(s[0]) {
            if t.len() > 0 {
                assert(!(p(s[0]) && p(s[1])));
            }
            lemma_runs_fixed(t, p, c, true);
            assert(seq![c] + t =~= s);
        } else {
            lemma_runs_fixed(t, p, c, false);
            assert(seq![s[0]] + t =~= s);
        }
    }
}

/// Replacing runs leaves `s` as it is where no character is of the class.
pub proof fn lemma_runs_none(s: Seq<char>, p: spec_fn(char) -> bool, rep: Seq<char>, in_run: bool)
    requires
        all_chars(s, |x: char| !p(x)),
    ensures
        runs_replaced_from(s, p, rep, in_run) == s,
    decreases s.len(),
{
    if s.len() > 0 {
        let t = s.drop_first();
        assert(!p(s[0]));
        assert forall|i: int| 0 <= i < t.len() implies !p(#[trigger] t[i]) by {
            assert(t[i] == s[i + 1]);
        }
        lemma_runs_none(t, p, rep, false);
        assert(seq![s[0]] + t =~= s);
    }
}

/// Removing runs (replacing them by nothing) does not depend on whether a
/// run was just removed.
pub proof fn lemma_runs_removed(s: Seq<char>, p: spec_fn(char) -> bool)
    ensures
        runs_replaced_from(s, p, seq![], true) == runs_replaced_from(s, p, seq![], false),
    decreases s.len(),
{
    if s.len() > 0 {
        lemma_runs_removed(s.drop_first(), p);
    }
}

/// Removing runs gives the same text once leading characters of a narrower
/// class are dropped.
pub proof fn lemma_runs_removed_drop(s: Seq<char>, p: spec_fn(char) -> bool, q: spec_fn(char) -> bool)
    requires
        forall|c: char| #[trigger] q(c) ==> p(c),
    ensures
        runs_replaced_from(drop_while(s, q), p, seq![], false) == runs_replaced_from(
            s,
            p,
            seq![],
            false,
        ),
    decreases s.len(),
{
    if s.len() > 0 && q(s[0]) {
        let t = s.drop_first();
        lemma_runs_removed_drop(t, p, q);
        lemma_runs_removed(t, p);
        assert(p(s[0]));
        assert(runs_replaced_from(s, p, seq![], false) =~= runs_replaced_from(t, p, seq![], true));
    }
}

/// Removing padding leaves `s` as it is where no space is next to another
/// space or to a line break, and, after a line break, `s` does not start
/// with a space.
pub proof fn lemma_unpadded_fixed(s: Seq<char>, f: bool)
    requires
        no_pair(s, ' ', ' '),
        no_pair(s, ' ', '\n'),
        no_pair(s, '\n', ' '),
        f ==> s.len() == 0 || s[0] != ' ',
    ensures
        line_breaks_unpadded(s, f) == s,
    decreases s.len(),
{
    if s.len() > 0 {
        let t = s.drop_first();
        lemma_subrange_keeps(s, 1, s.len() as int, |x: char| true);
        assert(t =~= s.subrange(1, s.len() as int));
        if s[0] == '\n' {
            if t.len() > 0 {
                assert(!(s[0] == '\n' && s[1] == ' '));
            }
            lemma_unpadded_fixed(t, true);
            assert(seq!['\n'] + t =~= s);
        } else {
            if s[0] == ' ' {
                if t.len() > 0 {
                    assert(!(s[0] == ' ' && s[1] == ' '));
                    assert(!(s[0] == ' ' && s[1] == '\n'));
                }
                assert(drop_while(t, |c: char| c == ' ') == t);
                assert(drop_while(s, |c: char| c == ' ') == t);
            }
            lemma_unpadded_fixed(t, false);
            assert(seq![s[0]] + t =~= s);
        }
    }
}

/// Capping blank lines leaves `s` as it is where it holds no three line
/// feeds in a row, counting the `n` kept right before it.
pub proof fn lemma_capped_fixed(s: Seq<char>, n: nat)
    requires
        no_triple_break(s),
        n <= 2,
        n >= 1 ==> !(s.len() >= 2 && s[0] == '\n' && s[1] == '\n'),
        n == 2 ==> !(s.len() >= 1 && s[0] == '\n'),
    ensures
        blank_lines_capped(s, n) == s,
    decreases s.len(),
{
    if s.len() > 0 {
        let t = s.drop_first();
        lemma_subrange_keeps(s, 1, s.len() as int, |x: char| true);
        assert(t =~= s.subrange(1, s.len() as int));
        if s[0] == '\n' {
            if s.len() >= 3 {
                assert(!(s[0] == '\n' && s[1] == '\n' && s[2] == '\n'));
            }
            lemma_capped_fixed(t, n + 1);
            assert(seq!['\n'] + t =~= s);
        } else {
            lemma_capped_fixed(t, 0);
            assert(seq![s[0]] + t =~= s);
        }
    }
}

} // verus!
