use vstd::prelude::*;
use super::{views, Token, TokenStream, TokenT, TokenTView, TokenView};

verus! {

pub fn space_token_checker(token: Token) -> (b: bool)
    ensures
        b == (token@.t is Space),
{
    if let TokenT::Space(_) = token.t {
        true
    } else {
        false
    }
}

/// A stream without the whitespace tokens that it starts with.
pub open spec fn trim_start(tokens: Seq<TokenView>) -> Seq<TokenView>
    decreases tokens.len(),
{
    if tokens.len() > 0 && tokens[0].t is Space {
        trim_start(tokens.drop_first())
    } else {
        tokens
    }
}

/// A stream without the whitespace tokens that it ends with.
pub open spec fn trim_end(tokens: Seq<TokenView>) -> Seq<TokenView>
    decreases tokens.len(),
{
    if tokens.len() > 0 && tokens.last().t is Space {
        trim_end(tokens.drop_last())
    } else {
        tokens
    }
}

/// A stream without the whitespace tokens at either end.
pub open spec fn trimmed(tokens: Seq<TokenView>) -> Seq<TokenView> {
    trim_end(trim_start(tokens))
}

/// Trimming never makes a stream longer.
pub proof fn lemma_trimmed_len(tokens: Seq<TokenView>)
    ensures
        trim_start(tokens).len() <= tokens.len(),
        trim_end(tokens).len() <= tokens.len(),
        trimmed(tokens).len() <= tokens.len(),
    decreases tokens.len(),
{
    if tokens.len() > 0 {
        lemma_trimmed_len(tokens.drop_first());
        lemma_trimmed_len(tokens.drop_last());
    }
    lemma_trim_end_len(trim_start(tokens));
}

proof fn lemma_trim_end_len(tokens: Seq<TokenView>)
    ensures
        trim_end(tokens).len() <= tokens.len(),
    decreases tokens.len(),
{
    if tokens.len() > 0 {
        lemma_trim_end_len(tokens.drop_last());
    }
}

/// Removes the whitespace tokens at both ends of a stream.
pub fn skip_spaces(token_stream: TokenStream) -> (r: TokenStream)
    ensures
        views(r@) == trimmed(views(token_stream@)),
{
    let ghost whole = views(token_stream@);
    let mut token_stream = token_stream;
    loop
        invariant
            trim_start(views(token_stream@)) == trim_start(whole),
        ensures
            views(token_stream@) == trim_start(whole),
        decreases token_stream.len(),
    {
        if token_stream.len() == 0 {
            break ;
        }
        if let TokenT::Space(_) = token_stream[0].t {
        } else {
            break ;
        }
        let ghost before = views(token_stream@);
        token_stream.remove(0);
        assert(views(token_stream@) =~= before.drop_first());
    }
    loop
        invariant
            trim_end(views(token_stream@)) == trimmed(whole),
        ensures
            views(token_stream@) == trimmed(whole),
        decreases token_stream.len(),
    {
        let n = token_stream.len();
        if n == 0 {
            break ;
        }
        if let TokenT::Space(_) = token_stream[n - 1].t {
        } else {
            break ;
        }
        let ghost before = views(token_stream@);
        token_stream.pop();
        assert(views(token_stream@) =~= before.drop_last());
    }
    token_stream
}

/// The first index from `from` on of a token of kind `t`, or the length of the stream if
/// there is none from there on.
pub open spec fn first_of(tokens: Seq<TokenView>, from: int, t: TokenTView) -> int
    decreases tokens.len() - from,
{
    if from < 0 || from >= tokens.len() {
        tokens.len() as int
    } else if tokens[from].t == t {
        from
    } else {
        first_of(tokens, from + 1, t)
    }
}

/// The first token of kind `t` from `from` on stands at or behind `from`.
pub proof fn lemma_first_of_bounds(tokens: Seq<TokenView>, from: int, t: TokenTView)
    requires
        0 <= from <= tokens.len(),
    ensures
        from <= first_of(tokens, from, t) <= tokens.len(),
    decreases tokens.len() - from,
{
    if from < tokens.len() && tokens[from].t != t {
        lemma_first_of_bounds(tokens, from + 1, t);
    }
}

/// A stream that starts with a token of kind `start`, split at the first token of kind
/// `end` behind it: what stands between the two, and what follows the second. Where no
/// token of kind `end` follows, all that follows the first token stands between, and
/// nothing follows. A stream that does not start with a token of kind `start` is not
/// split.
pub open spec fn delimited(tokens: Seq<TokenView>, start: TokenTView, end: TokenTView) -> Option<
    (Seq<TokenView>, Seq<TokenView>),
> {
    if tokens.len() > 0 && tokens[0].t == start {
        let close = first_of(tokens, 1, end);
        Some(
            (
                tokens.subrange(1, close),
                if close < tokens.len() {
                    tokens.subrange(close + 1, tokens.len() as int)
                } else {
                    Seq::empty()
                },
            ),
        )
    } else {
        None
    }
}

pub fn deliminated(token_stream: TokenStream, start: TokenT, end: TokenT) -> (r: Option<
    (TokenStream, TokenStream),
>)
    ensures
        match delimited(views(token_stream@), start@, end@) {
            Some((between, behind)) => r matches Some(pair) && views(pair.0@) == between && views(
                pair.1@,
            ) == behind,
            None => r is None,
        },
{
    let ghost whole = views(token_stream@);
    if token_stream.len() > 0 && token_stream[0].t.same(&start) {
        let mut deliminated: Vec<Token> = Vec::new();
        let mut rest: Vec<Token> = Vec::new();
        let mut ended = false;
        let mut i: usize = 1;
        assert(views(deliminated@) =~= whole.subrange(1, 1));
        assert(views(rest@) =~= Seq::<TokenView>::empty());
        while i < token_stream.len()
            invariant
                1 <= i <= token_stream.len(),
                whole == views(token_stream@),
                !ended ==> first_of(whole, 1, end@) == first_of(whole, i as int, end@),
                !ended ==> views(deliminated@) == whole.subrange(1, i as int),
                !ended ==> views(rest@) == Seq::<TokenView>::empty(),
                ended ==> 1 <= first_of(whole, 1, end@) < i,
                ended ==> views(deliminated@) == whole.subrange(1, first_of(whole, 1, end@)),
                ended ==> views(rest@) == whole.subrange(first_of(whole, 1, end@) + 1, i as int),
            decreases token_stream.len() - i,
        {
            let token = &token_stream[i];
            let ghost between = views(deliminated@);
            let ghost behind = views(rest@);
            if ended {
                rest.push(token.clone());
                assert(views(rest@) =~= behind.push(whole[i as int]));
                assert(views(rest@) =~= whole.subrange(first_of(whole, 1, end@) + 1, i + 1));
            } else if token.t.same(&end) {
                ended = true;
                assert(views(rest@) =~= whole.subrange(i + 1, i + 1));
            } else {
                deliminated.push(token.clone());
                assert(views(deliminated@) =~= between.push(whole[i as int]));
                assert(views(deliminated@) =~= whole.subrange(1, i + 1));
            }
            i += 1;
        }
        Some((deliminated, rest))
    } else {
        None
    }
}

/// An executable predicate computes `hit` when whatever it returns for a token is what
/// `hit` says of that token's value.
pub open spec fn decides<F: Fn(Token) -> bool>(checker: F, hit: spec_fn(TokenView) -> bool) -> bool {
    forall|token: Token, b: bool| #[trigger] checker.ensures((token,), b) ==> b == hit(token@)
}

/// The first index from `from` on of a token that is a `hit`, or the length of the stream
/// if there is none from there on.
pub open spec fn first_hit(tokens: Seq<TokenView>, from: int, hit: spec_fn(TokenView) -> bool) -> int
    decreases tokens.len() - from,
{
    if from < 0 || from >= tokens.len() {
        tokens.len() as int
    } else if hit(tokens[from]) {
        from
    } else {
        first_hit(tokens, from + 1, hit)
    }
}

/// The first hit from `from` on stands at or behind `from`.
pub proof fn lemma_first_hit_bounds(
    tokens: Seq<TokenView>,
    from: int,
    hit: spec_fn(TokenView) -> bool,
)
    requires
        0 <= from <= tokens.len(),
    ensures
        from <= first_hit(tokens, from, hit) <= tokens.len(),
    decreases tokens.len() - from,
{
    if from < tokens.len() && !hit(tokens[from]) {
        lemma_first_hit_bounds(tokens, from + 1, hit);
    }
}

/// A stream split at its first `hit`: what stands before it, and what follows it without
/// the further hits. Where nothing is a hit, the whole stream stands before.
pub open spec fn split_at_hits(tokens: Seq<TokenView>, hit: spec_fn(TokenView) -> bool) -> (
    Seq<TokenView>,
    Seq<TokenView>,
) {
    let first = first_hit(tokens, 0, hit);
    (
        tokens.subrange(0, first),
        if first < tokens.len() {
            tokens.subrange(first + 1, tokens.len() as int).filter(|t: TokenView| !hit(t))
        } else {
            Seq::empty()
        },
    )
}

/// Where a split stands that has read the first `i` tokens.
spec fn splitting(
    tokens: Seq<TokenView>,
    i: int,
    found: bool,
    left: Seq<TokenView>,
    right: Seq<TokenView>,
    hit: spec_fn(TokenView) -> bool,
) -> bool {
    let first = first_hit(tokens, 0, hit);
    if found {
        &&& first < i
        &&& left == tokens.subrange(0, first)
        &&& right == tokens.subrange(first + 1, i).filter(|t: TokenView| !hit(t))
    } else {
        &&& first == first_hit(tokens, i, hit)
        &&& left == tokens.subrange(0, i)
        &&& right == Seq::<TokenView>::empty()
    }
}

pub fn split_stream<F: Fn(Token) -> bool>(token_stream: TokenStream, checker: F) -> (r: (
    TokenStream,
    TokenStream,
))
    requires
        forall|token: Token| checker.requires((token,)),
    ensures
        forall|hit: spec_fn(TokenView) -> bool|
            decides(checker, hit) ==> (views(r.0@), views(r.1@)) == #[trigger] split_at_hits(
                views(token_stream@),
                hit,
            ),
{
    let ghost whole = views(token_stream@);
    let mut left: Vec<Token> = Vec::new();
    let mut right: Vec<Token> = Vec::new();
    let mut found = false;
    let mut i: usize = 0;
    assert(views(left@) =~= whole.subrange(0, 0));
    assert(views(right@) =~= Seq::<TokenView>::empty());
    while i < token_stream.len()
        invariant
            i <= token_stream.len(),
            whole == views(token_stream@),
            forall|token: Token| checker.requires((token,)),
            forall|hit: spec_fn(TokenView) -> bool|
                decides(checker, hit) ==> #[trigger] splitting(
                    whole,
                    i as int,
                    found,
                    views(left@),
                    views(right@),
                    hit,
                ),
        decreases token_stream.len() - i,
    {
        let ghost before_left = views(left@);
        let ghost before_right = views(right@);
        let ghost was_found = found;
        let token = token_stream[i].clone();
        let is_hit = checker(token_stream[i].clone());
        if is_hit {
            found = true;
        } else if found {
            right.push(token);
        } else {
            left.push(token);
        }
        assert forall|hit: spec_fn(TokenView) -> bool| decides(checker, hit) implies #[trigger] splitting(
            whole,
            i + 1,
            found,
            views(left@),
            views(right@),
            hit,
        ) by {
            assert(splitting(whole, i as int, was_found, before_left, before_right, hit));
            let first = first_hit(whole, 0, hit);
            let keep = |t: TokenView| !hit(t);
            lemma_first_hit_bounds(whole, 0, hit);
            assert(hit(whole[i as int]) == is_hit);
            if was_found {
                let seen = whole.subrange(first + 1, i as int);
                let more = whole.subrange(first + 1, i + 1);
                assert(more.drop_last() =~= seen);
                assert(more.last() == whole[i as int]);
                reveal(Seq::filter);
                assert(more.filter(keep) == if keep(more.last()) {
                    more.drop_last().filter(keep).push(more.last())
                } else {
                    more.drop_last().filter(keep)
                });
                if !is_hit {
                    assert(views(right@) =~= before_right.push(whole[i as int]));
                }
            } else if is_hit {
                let none = whole.subrange(i + 1, i + 1);
                reveal(Seq::filter);
                assert(none.filter(keep) =~= Seq::<TokenView>::empty());
                assert(views(left@) =~= whole.subrange(0, first));
            } else {
                assert(views(left@) =~= before_left.push(whole[i as int]));
                assert(views(left@) =~= whole.subrange(0, i + 1));
            }
        }
        i += 1;
    }
    assert forall|hit: spec_fn(TokenView) -> bool| decides(checker, hit) implies (
        views(left@),
        views(right@),
    ) == #[trigger] split_at_hits(whole, hit) by {
        assert(splitting(whole, i as int, found, views(left@), views(right@), hit));
    }
    (left, right)
}

} // verus!
