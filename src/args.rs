use vstd::prelude::*;

use crate::error::CalcError;
use crate::math::{outcome_of, views_of, Math};
use crate::text::{chars_of, copy_range, string_of};

verus! {

/// The pieces of `s` between single spaces, as `str::split(' ')` gives them,
/// empty pieces included.
pub open spec fn split_on_space(s: Seq<char>) -> Seq<Seq<char>>
    decreases s.len(),
{
    if s.len() == 0 {
        seq![Seq::empty()]
    } else {
        let p = split_on_space(s.drop_last());
        if s.last() == ' ' {
            p.push(Seq::empty())
        } else {
            p.update(p.len() - 1, p.last().push(s.last()))
        }
    }
}

/// The non-empty pieces among `p`.
pub open spec fn nonempty_pieces(p: Seq<Seq<char>>) -> Seq<Seq<char>> {
    p.filter(|w: Seq<char>| w.len() > 0)
}

/// The words of `s`: its pieces between single spaces, empty ones dropped.
pub open spec fn words(s: Seq<char>) -> Seq<Seq<char>> {
    nonempty_pieces(split_on_space(s))
}

/// `s` with one leading and one trailing double quote taken off, where present.
pub open spec fn unquote(s: Seq<char>) -> Seq<char> {
    let a = if s.len() > 0 && s[0] == '"' {
        s.skip(1)
    } else {
        s
    };
    if a.len() > 0 && a.last() == '"' {
        a.drop_last()
    } else {
        a
    }
}

/// Exactly three words, or a `UsageError`.
pub open spec fn three_words(s: Seq<char>) -> Result<Seq<Seq<char>>, CalcError> {
    let w = words(s);
    if w.len() == 3 {
        Ok(w)
    } else {
        Err(CalcError::UsageError)
    }
}

/// The tokens `LHS OP RHS` that the program's arguments (after its name) stand
/// for. No argument is a `UsageError`. One argument without a space is an
/// operand, read as `arg + 0`; one with a space is split into words. Three
/// arguments are the tokens themselves. Any other count reads the first
/// argument, unquoted, as the words of the expression. Splitting must give
/// exactly three words.
pub open spec fn assembled(args: Seq<Seq<char>>) -> Result<Seq<Seq<char>>, CalcError> {
    if args.len() == 0 {
        Err(CalcError::UsageError)
    } else if args.len() == 1 {
        if !args[0].contains(' ') {
            Ok(seq![args[0], seq!['+'], seq!['0']])
        } else {
            three_words(args[0])
        }
    } else if args.len() == 3 {
        Ok(args)
    } else {
        three_words(unquote(args[0]))
    }
}

/// What evaluating the program's arguments gives.
pub open spec fn outcome_of_args(args: Seq<Seq<char>>) -> Result<usize, CalcError> {
    match assembled(args) {
        Err(e) => Err(e),
        Ok(tokens) => outcome_of(tokens),
    }
}

proof fn lemma_split_nonempty(s: Seq<char>)
    ensures
        split_on_space(s).len() >= 1,
    decreases s.len(),
{
    if s.len() > 0 {
        lemma_split_nonempty(s.drop_last());
    }
}

proof fn lemma_views_push(v: Seq<String>, x: String)
    ensures
        views_of(v.push(x)) == views_of(v).push(x@),
{
    assert(views_of(v.push(x)) =~= views_of(v).push(x@));
}

/// Whether `arg` is a single piece when split on spaces, that is, holds no space.
pub fn is_single_digit(arg: &str) -> (r: bool)
    ensures
        r == !arg@.contains(' '),
{
    let cs = chars_of(arg);
    let mut i: usize = 0;
    while i < cs.len()
        invariant
            cs@ == arg@,
            i <= cs@.len(),
            forall|j: int| 0 <= j < i ==> cs@[j] != ' ',
        decreases cs@.len() - i,
    {
        if cs[i] == ' ' {
            return false;
        }
        i = i + 1;
    }
    true
}

/// The words of `cs`: split on single spaces, empty pieces dropped.
pub fn split_words(cs: &[char]) -> (r: Vec<String>)
    ensures
        views_of(r@) == words(cs@),
{
    let ghost s = cs@;
    let mut out: Vec<String> = Vec::new();
    let mut cur: Vec<char> = Vec::new();
    let ghost mut done: Seq<Seq<char>> = Seq::empty();
    let mut i: usize = 0;
    assert(s.take(0) =~= Seq::<char>::empty());
    assert(nonempty_pieces(done) =~= Seq::<Seq<char>>::empty()) by {
        reveal(Seq::filter);
    }
    while i < cs.len()
        invariant
            s == cs@,
            i <= s.len(),
            split_on_space(s.take(i as int)) == done.push(cur@),
            views_of(out@) == nonempty_pieces(done),
        decreases s.len() - i,
    {
        let c = cs[i];
        assert(s.take(i + 1).drop_last() =~= s.take(i as int));
        assert(s.take(i + 1).last() == c);
        if c == ' ' {
            proof {
                reveal(Seq::filter);
                assert(done.push(cur@).drop_last() =~= done);
            }
            if cur.len() > 0 {
                let w = string_of(cur.as_slice());
                proof {
                    lemma_views_push(out@, w);
                }
                out.push(w);
            }
            proof {
                done = done.push(cur@);
            }
            cur = Vec::new();
            assert(split_on_space(s.take(i + 1)) =~= done.push(cur@));
        } else {
            let ghost old_cur = cur@;
            cur.push(c);
            assert(split_on_space(s.take(i + 1)) =~= done.push(cur@)) by {
                assert(done.push(old_cur).update(done.len() as int, cur@) =~= done.push(cur@));
            }
        }
        i = i + 1;
    }
    assert(s.take(i as int) =~= s);
    proof {
        reveal(Seq::filter);
        assert(done.push(cur@).drop_last() =~= done);
    }
    if cur.len() > 0 {
        let w = string_of(cur.as_slice());
        proof {
            lemma_views_push(out@, w);
        }
        out.push(w);
    }
    out
}

/// `cs` with one leading and one trailing double quote taken off, where present.
pub fn unquote_chars(cs: &[char]) -> (r: Vec<char>)
    ensures
        r@ == unquote(cs@),
{
    let n = cs.len();
    let lo: usize = if n > 0 && cs[0] == '"' {
        1
    } else {
        0
    };
    let hi: usize = if n > lo && cs[n - 1] == '"' {
        n - 1
    } else {
        n
    };
    let r = copy_range(cs, lo, hi);
    proof {
        let a = if lo == 1 {
            cs@.skip(1)
        } else {
            cs@
        };
        assert(a =~= cs@.subrange(lo as int, n as int));
        assert(a.len() > 0 && a.last() == '"' ==> a.drop_last() =~= cs@.subrange(
            lo as int,
            n - 1,
        ));
    }
    r
}

/// The three words of `cs`, or a `UsageError` when it has another count.
fn three_words_of(cs: &[char]) -> (r: Result<Vec<String>, CalcError>)
    ensures
        match three_words(cs@) {
            Ok(t) => r matches Ok(v) && views_of(v@) == t,
            Err(e) => r == Err::<Vec<String>, CalcError>(e),
        },
{
    let w = split_words(cs);
    if w.len() == 3 {
        Ok(w)
    } else {
        Err(CalcError::UsageError)
    }
}

/// Turns the program's arguments (after its name) into the tokens `LHS OP RHS`.
pub fn assemble(args: &[String]) -> (r: Result<Vec<String>, CalcError>)
    ensures
        match assembled(views_of(args@)) {
            Ok(t) => r matches Ok(v) && views_of(v@) == t,
            Err(e) => r == Err::<Vec<String>, CalcError>(e),
        },
{
    let ghost a = views_of(args@);
    let n = args.len();
    if n == 0 {
        return Err(CalcError::UsageError);
    }
    assert(a[0] == args@[0]@);
    if n == 1 {
        if is_single_digit(args[0].as_str()) {
            let plus = "+".to_owned();
            let zero = "0".to_owned();
            proof {
                reveal_strlit("+");
                reveal_strlit("0");
            }
            assert(plus@ =~= seq!['+']);
            assert(zero@ =~= seq!['0']);
            let first = args[0].clone();
            let v = vec![first, plus, zero];
            assert(v@[0]@ == a[0] && v@[1]@ == seq!['+'] && v@[2]@ == seq!['0']);
            assert(views_of(v@) =~= seq![a[0], seq!['+'], seq!['0']]);
            Ok(v)
        } else {
            let cs = chars_of(args[0].as_str());
            three_words_of(cs.as_slice())
        }
    } else if n == 3 {
        let v = vec![args[0].clone(), args[1].clone(), args[2].clone()];
        assert(views_of(v@) =~= a);
        Ok(v)
    } else {
        let cs = chars_of(args[0].as_str());
        let u = unquote_chars(cs.as_slice());
        three_words_of(u.as_slice())
    }
}

/// Evaluates the program's arguments (after its name): assembles the tokens,
/// reads the expression and computes its value.
pub fn evaluate_args(args: &[String]) -> (r: Result<usize, CalcError>)
    ensures
        r == outcome_of_args(views_of(args@)),
{
    let tokens = match assemble(args) {
        Ok(t) => t,
        Err(e) => {
            return Err(e);
        },
    };
    let mut m = match Math::new(tokens.as_slice()) {
        Ok(m) => m,
        Err(e) => {
            return Err(e);
        },
    };
    m.math()
}

} // verus!
