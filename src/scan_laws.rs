//! Facts about every scan, proved from the scanner's model.
use vstd::prelude::*;
use crate::lox::ReportView;
use crate::scanner::{
    error_at, errors_from, eof_token, kind_at, is_alpha_char, keyword_kind, lexeme_end,
    lemma_lexeme_end_advances, lemma_run_end_bounds, line_at, newlines_before, opt_seq, run_end,
    scan, token_at, tokens_from, Run,
};
use crate::token::{LiteralView, TokenType, TokenView};

verus! {

/// Where each token of `src` from position `s` on begins; the end marker
/// begins at the end of the text.
pub open spec fn starts_from(src: Seq<char>, s: int) -> Seq<int>
    decreases src.len() - s,
    via starts_from_decreases
{
    if s < 0 || s >= src.len() {
        seq![src.len() as int]
    } else if token_at(src, s) is Some {
        seq![s] + starts_from(src, lexeme_end(src, s))
    } else {
        starts_from(src, lexeme_end(src, s))
    }
}

#[via_fn]
proof fn starts_from_decreases(src: Seq<char>, s: int) {
    lemma_lexeme_end_advances(src, s);
}

/// Where each token of the whole text begins.
pub open spec fn token_starts(src: Seq<char>) -> Seq<int> {
    starts_from(src, 0)
}

/// The text skipped before each token of `src` from position `s` on:
/// whitespace, comments, and lexemes that only reported an error.
pub open spec fn gaps_from(src: Seq<char>, s: int) -> Seq<Seq<char>>
    decreases src.len() - s,
    via gaps_from_decreases
{
    if s < 0 || s >= src.len() {
        seq![Seq::empty()]
    } else {
        let e = lexeme_end(src, s);
        let rest = gaps_from(src, e);
        if token_at(src, s) is Some {
            seq![Seq::<char>::empty()] + rest
        } else {
            rest.update(0, src.subrange(s, e) + rest[0])
        }
    }
}

#[via_fn]
proof fn gaps_from_decreases(src: Seq<char>, s: int) {
    lemma_lexeme_end_advances(src, s);
}

/// The text skipped before each token of the whole text.
pub open spec fn gaps(src: Seq<char>) -> Seq<Seq<char>> {
    gaps_from(src, 0)
}

/// Each gap followed by the lexeme of the token after it, all in order.
pub open spec fn woven(gs: Seq<Seq<char>>, ts: Seq<TokenView>) -> Seq<char>
    decreases gs.len(),
{
    if gs.len() == 0 || ts.len() == 0 {
        Seq::empty()
    } else {
        gs[0] + ts[0].lexeme + woven(gs.drop_first(), ts.drop_first())
    }
}

proof fn lemma_eof_from(src: Seq<char>, s: int)
    requires
        0 <= s,
    ensures
        tokens_from(src, s).len() > 0,
        tokens_from(src, s).last() == eof_token(src),
        forall|i: int|
            0 <= i < tokens_from(src, s).len() - 1 ==> (#[trigger] tokens_from(src, s)[i]).token_type
                != TokenType::Eof,
    decreases src.len() - s,
{
    if s < src.len() {
        let e = lexeme_end(src, s);
        lemma_lexeme_end_advances(src, s);
        lemma_eof_from(src, e);
        let head = opt_seq(token_at(src, s));
        let rest = tokens_from(src, e);
        assert(tokens_from(src, s) == head + rest);
        assert forall|i: int| 0 <= i < tokens_from(src, s).len() - 1 implies (#[trigger] tokens_from(
            src,
            s,
        )[i]).token_type != TokenType::Eof by {
            if i < head.len() {
                assert(tokens_from(src, s)[i] == token_at(src, s)->0);
            } else {
                assert(tokens_from(src, s)[i] == rest[i - head.len()]);
            }
        }
    }
}

/// A scan always yields at least one token; the last one is the end-of-input
/// marker, with an empty lexeme on the line the text ends on, and no other
/// token is an end-of-input marker.
pub proof fn lemma_scan_ends_with_eof(src: Seq<char>)
    ensures
        scan(src).len() > 0,
        scan(src).last() == eof_token(src),
        scan(src).last().lexeme.len() == 0,
        scan(src).last().line == 1 + newlines_before(src, src.len() as int),
        forall|i: int|
            0 <= i < scan(src).len() - 1 ==> (#[trigger] scan(src)[i]).token_type
                != TokenType::Eof,
{
    lemma_eof_from(src, 0);
}

proof fn lemma_starts_from(src: Seq<char>, s: int)
    requires
        0 <= s <= src.len(),
    ensures
        starts_from(src, s).len() == tokens_from(src, s).len(),
        forall|i: int|
            0 <= i < starts_from(src, s).len() ==> s <= #[trigger] starts_from(src, s)[i]
                <= src.len(),
        forall|i: int, j: int|
            0 <= i < j < starts_from(src, s).len() ==> #[trigger] starts_from(src, s)[i]
                < #[trigger] starts_from(src, s)[j],
        forall|i: int|
            0 <= i < tokens_from(src, s).len() ==> (#[trigger] tokens_from(src, s)[i]).line
                == line_at(src, starts_from(src, s)[i]),
        forall|i: int|
            0 <= i < tokens_from(src, s).len() ==> (#[trigger] tokens_from(src, s)[i]).lexeme
                == src.subrange(
                starts_from(src, s)[i],
                starts_from(src, s)[i] + tokens_from(src, s)[i].lexeme.len(),
            ),
    decreases src.len() - s,
{
    if s < src.len() {
        let e = lexeme_end(src, s);
        lemma_lexeme_end_advances(src, s);
        lemma_starts_from(src, e);
        let rest_s = starts_from(src, e);
        let rest_t = tokens_from(src, e);
        if token_at(src, s) is Some {
            assert(starts_from(src, s) == seq![s] + rest_s);
            assert(tokens_from(src, s) == seq![token_at(src, s)->0] + rest_t);
            assert forall|i: int|
                0 <= i < tokens_from(src, s).len() implies (#[trigger] tokens_from(
                src,
                s,
            )[i]).lexeme == src.subrange(
                starts_from(src, s)[i],
                starts_from(src, s)[i] + tokens_from(src, s)[i].lexeme.len(),
            ) by {
                if i > 0 {
                    assert(tokens_from(src, s)[i] == rest_t[i - 1]);
                    assert(starts_from(src, s)[i] == rest_s[i - 1]);
                }
            }
            assert forall|i: int|
                0 <= i < tokens_from(src, s).len() implies (#[trigger] tokens_from(
                src,
                s,
            )[i]).line == line_at(src, starts_from(src, s)[i]) by {
                if i > 0 {
                    assert(tokens_from(src, s)[i] == rest_t[i - 1]);
                    assert(starts_from(src, s)[i] == rest_s[i - 1]);
                }
            }
            assert forall|i: int, j: int|
                0 <= i < j < starts_from(src, s).len() implies #[trigger] starts_from(src, s)[i]
                < #[trigger] starts_from(src, s)[j] by {
                assert(starts_from(src, s)[j] == rest_s[j - 1]);
                if i > 0 {
                    assert(starts_from(src, s)[i] == rest_s[i - 1]);
                }
            }
        } else {
            assert(tokens_from(src, s) =~= rest_t);
        }
    } else {
        assert(tokens_from(src, s) == seq![eof_token(src)]);
        assert(src.subrange(src.len() as int, src.len() as int) =~= Seq::<char>::empty());
    }
}

/// Each token begins at a position of the text, in strictly increasing
/// order, and the end marker at the end of the text; each lexeme is exactly
/// the text at its start, and each token's line is one plus the number of
/// newlines before its start.
pub proof fn lemma_token_lines(src: Seq<char>)
    ensures
        token_starts(src).len() == scan(src).len(),
        token_starts(src).last() == src.len(),
        forall|i: int|
            0 <= i < token_starts(src).len() ==> 0 <= #[trigger] token_starts(src)[i] <= src.len(),
        forall|i: int, j: int|
            0 <= i < j < token_starts(src).len() ==> #[trigger] token_starts(src)[i]
                < #[trigger] token_starts(src)[j],
        forall|i: int|
            0 <= i < scan(src).len() ==> (#[trigger] scan(src)[i]).line == 1 + newlines_before(
                src,
                token_starts(src)[i],
            ),
        forall|i: int|
            0 <= i < scan(src).len() ==> (#[trigger] scan(src)[i]).lexeme == src.subrange(
                token_starts(src)[i],
                token_starts(src)[i] + scan(src)[i].lexeme.len(),
            ),
{
    lemma_starts_from(src, 0);
    lemma_starts_last(src, 0);
}

proof fn lemma_starts_last(src: Seq<char>, s: int)
    requires
        0 <= s <= src.len(),
    ensures
        starts_from(src, s).len() > 0,
        starts_from(src, s).last() == src.len(),
    decreases src.len() - s,
{
    if s < src.len() {
        lemma_lexeme_end_advances(src, s);
        lemma_starts_last(src, lexeme_end(src, s));
    }
}

proof fn lemma_woven_from(src: Seq<char>, s: int)
    requires
        0 <= s <= src.len(),
    ensures
        gaps_from(src, s).len() == tokens_from(src, s).len(),
        gaps_from(src, s).len() > 0,
        woven(gaps_from(src, s), tokens_from(src, s)) == src.subrange(s, src.len() as int),
    decreases src.len() - s,
{
    if s < src.len() {
        let e = lexeme_end(src, s);
        lemma_lexeme_end_advances(src, s);
        lemma_woven_from(src, e);
        lemma_eof_from(src, e);
        let rest_g = gaps_from(src, e);
        let rest_t = tokens_from(src, e);
        let g = gaps_from(src, s);
        let t = tokens_from(src, s);
        if token_at(src, s) is Some {
            assert(t == seq![token_at(src, s)->0] + rest_t);
            assert(g.drop_first() =~= rest_g);
            assert(t.drop_first() =~= rest_t);
            assert(woven(g, t) == g[0] + t[0].lexeme + woven(rest_g, rest_t));
            assert(woven(g, t) =~= src.subrange(s, src.len() as int));
        } else {
            assert(t =~= rest_t);
            assert(g.drop_first() =~= rest_g.drop_first());
            assert(g[0] == src.subrange(s, e) + rest_g[0]);
            let w = woven(rest_g.drop_first(), rest_t.drop_first());
            assert(woven(g, t) == g[0] + t[0].lexeme + woven(g.drop_first(), t.drop_first()));
            assert(woven(g, t) == (src.subrange(s, e) + rest_g[0]) + rest_t[0].lexeme + w);
            assert(woven(rest_g, rest_t) == rest_g[0] + rest_t[0].lexeme + w);
            assert((src.subrange(s, e) + rest_g[0]) + rest_t[0].lexeme + w =~= src.subrange(s, e)
                + (rest_g[0] + rest_t[0].lexeme + w));
            assert(src.subrange(s, e) + src.subrange(e, src.len() as int) =~= src.subrange(
                s,
                src.len() as int,
            ));
        }
    } else {
        let g = gaps_from(src, s);
        let t = tokens_from(src, s);
        assert(woven(g.drop_first(), t.drop_first()) == Seq::<char>::empty());
        assert(woven(g, t) =~= src.subrange(s, src.len() as int));
    }
}

/// Putting each skipped gap before the lexeme of the token after it, in
/// order, gives back the source text exactly.
pub proof fn lemma_lexemes_rebuild_source(src: Seq<char>)
    ensures
        gaps(src).len() == scan(src).len(),
        woven(gaps(src), scan(src)) == src,
{
    lemma_woven_from(src, 0);
    assert(src.subrange(0, src.len() as int) =~= src);
}

/// Scanning from an opening quote that no closing quote follows yields no
/// token but the end marker, and exactly one error: an unterminated string,
/// reported on the line the text ends on.
pub proof fn lemma_unterminated_string(src: Seq<char>, s: int)
    requires
        0 <= s < src.len(),
        src[s] == '"',
        forall|j: int| s < j < src.len() ==> src[j] != '"',
    ensures
        tokens_from(src, s) == seq![eof_token(src)],
        errors_from(src, s) == seq![
            ReportView {
                line: line_at(src, src.len() as int),
                location: Seq::empty(),
                message: "Unterminated string."@,
            },
        ],
{
    lemma_run_end_bounds(src, s + 1, Run::ToQuote);
    let q = run_end(src, s + 1, Run::ToQuote);
    if q < src.len() {
        assert(src[q] != '"');
    }
    assert(q == src.len());
    assert(lexeme_end(src, s) == src.len());
    assert(token_at(src, s) is None);
    assert(tokens_from(src, src.len() as int) == seq![eof_token(src)]);
    assert(errors_from(src, src.len() as int) == Seq::<ReportView>::empty());
    assert(tokens_from(src, s) =~= seq![eof_token(src)]);
    assert(errors_from(src, s) =~= opt_seq(error_at(src, s)));
}

proof fn lemma_words_from(src: Seq<char>, s: int)
    requires
        0 <= s,
    ensures
        forall|i: int|
            0 <= i < tokens_from(src, s).len() && (#[trigger] tokens_from(src, s)[i]).literal
                is Name ==> tokens_from(src, s)[i].token_type == keyword_kind(
                tokens_from(src, s)[i].lexeme,
            ),
    decreases src.len() - s,
{
    if s < src.len() {
        let e = lexeme_end(src, s);
        lemma_lexeme_end_advances(src, s);
        lemma_words_from(src, e);
        let head = opt_seq(token_at(src, s));
        let rest = tokens_from(src, e);
        assert(tokens_from(src, s) == head + rest);
        assert forall|i: int|
            0 <= i < tokens_from(src, s).len() && (#[trigger] tokens_from(src, s)[i]).literal
                is Name implies tokens_from(src, s)[i].token_type == keyword_kind(
            tokens_from(src, s)[i].lexeme,
        ) by {
            if i >= head.len() {
                assert(tokens_from(src, s)[i] == rest[i - head.len()]);
            }
        }
    }
}

/// Every identifier-shaped token is a keyword exactly when its whole lexeme
/// is one of the reserved words, and an identifier otherwise.
pub proof fn lemma_keywords_match_whole_lexeme(src: Seq<char>)
    ensures
        forall|i: int|
            0 <= i < scan(src).len() && (#[trigger] scan(src)[i]).literal is Name
                ==> scan(src)[i].token_type == keyword_kind(scan(src)[i].lexeme),
{
    lemma_words_from(src, 0);
}

} // verus!
