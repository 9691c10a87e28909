//! Laws of the tokenizer and of texts without module blocks.

use crate::ast::{ModuleView, SectionView};
use crate::compile::{modules_of, outputs, outputs_from, registry, registry_from, sections_text};
use crate::error::{CompileErrorView, MmgxErrorView, ParseErrorView};
use crate::lexer::Input;
use crate::parse::module::{parse_sections, read_sections, with_source};
use crate::token::{
    in_class, lemma_token_at_bounds, run_end, token_at, token_stream, tokens_from, CharClass,
    CodeToken, Token,
};
use vstd::prelude::*;

verus! {

/// The tokens lie one after the other from the start of the text to its end:
/// the first starts at 0, every other one where the one before it ends, and
/// the last one is the end mark at the end of the text.  No token before the
/// end mark is empty.
pub open spec fn contiguous(tokens: Seq<Token>, len: nat) -> bool {
    &&& tokens.len() > 0
    &&& tokens[0].start == 0
    &&& forall|i: int, j: int|
        0 <= i && j == i + 1 && j < tokens.len() ==> (#[trigger] tokens[j]).start
            == (#[trigger] tokens[i]).end
    &&& tokens.last().kind is None
    &&& tokens.last().start == len
    &&& tokens.last().end == len
    &&& forall|i: int|
        0 <= i < tokens.len() - 1 ==> (#[trigger] tokens[i]).kind is Some && tokens[i].start
            < tokens[i].end <= len
}

/// Every token before the end mark is the token that `token_at` finds where
/// it starts.
pub open spec fn faithful(tokens: Seq<Token>, src: Seq<char>) -> bool {
    forall|i: int|
        0 <= i < tokens.len() - 1 ==> {
            &&& (#[trigger] tokens[i]).kind == Some(token_at(src, tokens[i].start as int).0)
            &&& tokens[i].end == token_at(src, tokens[i].start as int).1
        }
}

/// The tokens in `acc` lie one after the other from the start of the text,
/// each is the token found where it starts, and `last` is the last of them,
/// or the origin where there is none.
pub open spec fn chained_so_far(acc: Seq<Token>, last: Token, src: Seq<char>) -> bool {
    &&& last.end <= src.len()
    &&& if acc.len() == 0 {
        last.end == 0
    } else {
        acc.last() == last && acc[0].start == 0
    }
    &&& forall|i: int, j: int|
        0 <= i && j == i + 1 && j < acc.len() ==> (#[trigger] acc[j]).start
            == (#[trigger] acc[i]).end
    &&& forall|i: int|
        0 <= i < acc.len() ==> (#[trigger] acc[i]).kind is Some && acc[i].start < acc[i].end
            <= src.len()
    &&& forall|i: int|
        0 <= i < acc.len() ==> {
            &&& (#[trigger] acc[i]).kind == Some(token_at(src, acc[i].start as int).0)
            &&& acc[i].end == token_at(src, acc[i].start as int).1
        }
}

/// Tokenizing goes on from a chain of tokens to a chain over the whole text.
proof fn lemma_tokens_from_chained(src: Seq<char>, last: Token, acc: Seq<Token>)
    requires
        src.len() <= usize::MAX,
        chained_so_far(acc, last, src),
    ensures
        contiguous(tokens_from(src, last, acc), src.len()),
        faithful(tokens_from(src, last, acc), src),
    decreases src.len() - last.end,
{
    if last.end >= src.len() {
        let mark = last.follow(None, last.end as int);
        let all = acc.push(mark);
        assert(all.last() == mark);
        assert forall|i: int, j: int| 0 <= i && j == i + 1 && j < all.len() implies (
        #[trigger] all[j]).start == (#[trigger] all[i]).end by {
            assert(all[i] == acc[i]);
            if j < acc.len() {
                assert(all[j] == acc[j]);
            }
        }
        assert forall|i: int| 0 <= i < all.len() - 1 implies (#[trigger] all[i]).kind is Some
            && all[i].start < all[i].end <= src.len() by {
            assert(all[i] == acc[i]);
        }
        assert forall|i: int| 0 <= i < all.len() - 1 implies {
            &&& (#[trigger] all[i]).kind == Some(token_at(src, all[i].start as int).0)
            &&& all[i].end == token_at(src, all[i].start as int).1
        } by {
            assert(all[i] == acc[i]);
        }
        if acc.len() > 0 {
            assert(all[0] == acc[0]);
        }
    } else {
        lemma_token_at_bounds(src, last.end as int);
        let pair = token_at(src, last.end as int);
        let token = last.follow(Some(pair.0), pair.1);
        let next = acc.push(token);
        assert(next.last() == token);
        assert forall|i: int, j: int| 0 <= i && j == i + 1 && j < next.len() implies (
        #[trigger] next[j]).start == (#[trigger] next[i]).end by {
            assert(next[i] == acc[i]);
            if j < acc.len() {
                assert(next[j] == acc[j]);
            }
        }
        assert forall|i: int| 0 <= i < next.len() implies (#[trigger] next[i]).kind is Some
            && next[i].start < next[i].end <= src.len() by {
            if i < acc.len() {
                assert(next[i] == acc[i]);
            }
        }
        assert forall|i: int| 0 <= i < next.len() implies {
            &&& (#[trigger] next[i]).kind == Some(token_at(src, next[i].start as int).0)
            &&& next[i].end == token_at(src, next[i].start as int).1
        } by {
            if i < acc.len() {
                assert(next[i] == acc[i]);
            }
        }
        if acc.len() > 0 {
            assert(next[0] == acc[0]);
        }
        lemma_tokens_from_chained(src, token, next);
    }
}

/// Tokenizing loses nothing and adds nothing: the tokens of a text lie one
/// after the other, cover it from its start to its end, and each is the
/// longest token at its place.
pub proof fn law_tokens_cover_the_text(src: Seq<char>)
    requires
        src.len() <= usize::MAX,
    ensures
        contiguous(token_stream(src), src.len()),
        faithful(token_stream(src), src),
{
    lemma_tokens_from_chained(src, Token::origin(), Seq::empty());
}

/// The tokens of a text lie one after the other and cover it.
proof fn lemma_tokens_contiguous(src: Seq<char>)
    requires
        src.len() <= usize::MAX,
    ensures
        contiguous(token_stream(src), src.len()),
{
    law_tokens_cover_the_text(src);
}

/// The sections of a text up to the place `end`: none for no text, else
/// one section of source text.
pub open spec fn source_up_to(src: Seq<char>, end: int) -> Seq<SectionView> {
    if end <= 0 {
        Seq::empty()
    } else {
        seq![SectionView::CSource(src.take(end))]
    }
}

/// Reading sections where no token is `@` gathers the text read so far.
proof fn lemma_read_plain_sections(src: Seq<char>, pos: int)
    requires
        src.len() <= usize::MAX,
        0 <= pos,
        forall|i: int|
            0 <= i < token_stream(src).len() ==> (#[trigger] token_stream(src)[i]).kind != Some(
                CodeToken::Modifier,
            ),
        pos < token_stream(src).len(),
    ensures
        read_sections(
            Input::of(src),
            pos,
            source_up_to(src, Input::of(src).current(pos).end as int),
        ) == Ok::<Seq<SectionView>, ParseErrorView>(source_up_to(src, src.len() as int)),
    decreases token_stream(src).len() - pos,
{
    lemma_tokens_contiguous(src);
    let inp = Input::of(src);
    let tokens = token_stream(src);
    let read = inp.current(pos).end as int;
    let acc = source_up_to(src, read);
    let at = pos + 1;
    assert(inp.advance(pos) == at);
    let token = tokens[pos];
    assert(inp.current(at) == token);
    assert(token.start == read) by {
        if pos > 0 {
            assert(tokens[pos].start == tokens[pos - 1].end);
        }
    }
    if token.kind is None {
        assert(pos == tokens.len() - 1);
        assert(read == src.len());
    } else {
        assert(pos < tokens.len() - 1);
        assert(token.start < token.end <= src.len());
        let text = inp.slice(at);
        assert(text == src.subrange(read, token.end as int));
        assert(with_source(acc, text) =~= source_up_to(src, token.end as int)) by {
            assert(src.take(read) + text =~= src.take(token.end as int));
            if read > 0 {
                assert(acc.last() == SectionView::CSource(src.take(read)));
                assert(acc.drop_last() =~= Seq::<SectionView>::empty());
            }
        }
        lemma_read_plain_sections(src, at);
    }
}

/// A text in which no token is `@` is one section of source text, and
/// compiling it gives the text back unchanged.
pub proof fn law_plain_text_is_kept(path: Seq<char>, src: Seq<char>)
    requires
        0 < src.len() <= usize::MAX,
        forall|i: int|
            0 <= i < token_stream(src).len() ==> (#[trigger] token_stream(src)[i]).kind != Some(
                CodeToken::Modifier,
            ),
    ensures
        parse_sections(src) == Ok::<Seq<SectionView>, ParseErrorView>(
            seq![SectionView::CSource(src)],
        ),
        outputs(seq![(path, seq![SectionView::CSource(src)])]) == Ok::<
            Seq<Seq<char>>,
            MmgxErrorView,
        >(seq![src]),
{
    lemma_tokens_contiguous(src);
    lemma_read_plain_sections(src, 0);
    assert(src.take(src.len() as int) =~= src);
    assert(source_up_to(src, 0) =~= Seq::<SectionView>::empty());
    let sections = seq![SectionView::CSource(src)];
    let files = seq![(path, sections)];
    assert(modules_of(sections, 1, Seq::empty()) == Seq::<ModuleView>::empty());
    assert(modules_of(sections, 0, Seq::empty()) == Seq::<ModuleView>::empty());
    assert(registry_from(files, 1, Seq::empty()) == Seq::<ModuleView>::empty());
    assert(registry(files) == Seq::<ModuleView>::empty());
    let modules = registry(files);
    assert(sections_text(sections, modules, 1, Seq::empty() + src) == Ok::<
        Seq<char>,
        CompileErrorView,
    >(Seq::empty() + src));
    assert(Seq::<char>::empty() + src =~= src);
    assert(sections_text(sections, modules, 0, Seq::empty()) == Ok::<
        Seq<char>,
        CompileErrorView,
    >(src));
    assert(outputs_from(files, modules, 1, Seq::<Seq<char>>::empty().push(src)) == Ok::<
        Seq<Seq<char>>,
        MmgxErrorView,
    >(Seq::<Seq<char>>::empty().push(src)));
    assert(Seq::<Seq<char>>::empty().push(src) =~= seq![src]);
}

/// A run is as long as it can be: every character of it is of the class,
/// and the character after it, if there is one, is not.
pub proof fn law_run_is_maximal(src: Seq<char>, class: CharClass, from: int)
    requires
        0 <= from <= src.len(),
    ensures
        from <= run_end(src, class, from) <= src.len(),
        forall|k: int| from <= k < run_end(src, class, from) ==> in_class(class, #[trigger] src[k]),
        run_end(src, class, from) < src.len() ==> !in_class(
            class,
            src[run_end(src, class, from)],
        ),
    decreases src.len() - from,
{
    if from < src.len() && in_class(class, src[from]) {
        law_run_is_maximal(src, class, from + 1);
    }
}

} // verus!
