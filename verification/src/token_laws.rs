//! What holds of source that is put together from pieces.
use proc_macro2::{LexError, TokenStream};
use vstd::prelude::*;
use vstd::utf8::is_ascii_chars;

use crate::tokens::{
    can_be_identifier, is_ascii_identifier, is_blank, is_lifetime, is_mark, is_marks, is_raw_word,
    is_read, is_word, is_word_char, marks, piece_ends_at_a_blank, piece_len, tokens_of, Bracket,
    DraftState, Token,
};

verus! {

/// Letters, digits and underscores, and no digit in front.
pub open spec fn is_named_like_a_variable(text: Seq<char>) -> bool {
    &&& text.len() > 0
    &&& !('0' <= text[0] <= '9')
    &&& forall|i: int|
        0 <= i < text.len() ==> ('a' <= #[trigger] text[i] <= 'z' || 'A' <= text[i] <= 'Z' || '0'
            <= text[i] <= '9' || text[i] == '_')
}

/// The characters that Rust's operators and separators are made of.
pub open spec fn is_operator_char(c: char) -> bool {
    "!#$%&'*+,-./:;<=>?@^|~"@.contains(c)
}

/// What operators are made of is punctuation, and nothing else is.
proof fn operator_chars_are_marks(c: char)
    ensures
        is_operator_char(c) <==> is_mark(c),
{
    reveal_strlit("!#$%&'*+,-./:;<=>?@^|~");
    let all = "!#$%&'*+,-./:;<=>?@^|~"@;
    assert(all[0] == '!' && all[1] == '#' && all[2] == '$' && all[3] == '%' && all[4] == '&'
        && all[5] == '\'' && all[6] == '*' && all[7] == '+' && all[8] == ',' && all[9] == '-'
        && all[10] == '.' && all[11] == '/' && all[12] == ':' && all[13] == ';' && all[14] == '<'
        && all[15] == '=' && all[16] == '>' && all[17] == '?' && all[18] == '@' && all[19] == '^'
        && all[20] == '|' && all[21] == '~');
    if is_operator_char(c) {
        let i = choose|i: int| 0 <= i < all.len() && all[i] == c;
        assert(0 <= i < 22);
    }
}

/// A text without blanks is one piece.
proof fn no_blank_is_one_piece(draft: DraftState, text: Seq<char>)
    requires
        text.len() > 0,
        forall|i: int| 0 <= i < text.len() ==> !is_blank(#[trigger] text[i]),
    ensures
        draft.source(text) == draft.piece(text),
{
    piece_ends_at_a_blank(text);
    let n = piece_len(text) as int;
    assert(n == text.len());
    assert(text.take(n) =~= text);
    assert(text.skip(n) =~= Seq::empty());
    reveal_with_fuel(DraftState::source, 2);
}

/// Source without characters adds nothing.
pub proof fn no_source_adds_nothing(draft: DraftState)
    ensures
        draft.source(Seq::empty()) == draft,
{
}

/// A word in source is a token: it stands behind all others, and no group is opened or closed.
pub proof fn a_word_is_a_token(draft: DraftState, word: Seq<char>)
    requires
        is_named_like_a_variable(word),
    ensures
        draft.source(word).out == draft.out.push(Token::Word(word)),
        draft.source(word).groups == draft.groups,
{
    assert forall|i: int| 0 <= i < word.len() implies is_word_char(#[trigger] word[i]) by {}
    assert(is_word(word));
    no_blank_is_one_piece(draft, word);
    assert(draft.piece(word).out =~= draft.out.push(Token::Word(word)));
}

/// A quote and a word in source are a lifetime.
pub proof fn a_quote_and_a_word_are_a_lifetime(draft: DraftState, word: Seq<char>)
    requires
        is_named_like_a_variable(word),
    ensures
        draft.source(seq!['\''] + word).out == draft.out.push(Token::Mark('\'', true)).push(
            Token::Word(word),
        ),
        draft.source(seq!['\''] + word).groups == draft.groups,
{
    let text = seq!['\''] + word;
    assert(text.skip(1) =~= word);
    assert forall|i: int| 0 <= i < word.len() implies is_word_char(#[trigger] word[i]) by {}
    assert(is_word(word));
    assert forall|i: int| 0 <= i < text.len() implies !is_blank(#[trigger] text[i]) by {
        if i > 0 {
            assert(text[i] == word[i - 1]);
        }
    }
    no_blank_is_one_piece(draft, text);
    assert(!is_word(text)) by {
        assert(!is_word_char(text[0]));
    }
    assert(is_lifetime(text));
    assert(draft.piece(text).out =~= draft.out.push(Token::Mark('\'', true)).push(
        Token::Word(word),
    ));
}

/// The tokens of an operator are its first character and the rest.
proof fn marks_start_with_a_character(text: Seq<char>, first: char)
    requires
        text.len() > 0,
        first == text[0],
    ensures
        marks(text).len() == 1 + marks(text.skip(1)).len(),
        marks(text)[0] == Token::Mark(first, text.len() > 1),
        forall|i: int|
            0 < i < marks(text).len() ==> #[trigger] marks(text)[i] == marks(text.skip(1))[i - 1],
{
    assert(marks(text) == seq![Token::Mark(first, text.len() > 1)] + marks(text.skip(1)));
}

/// ASCII ends at 127.
proof fn ascii_ends_at_127(c: char)
    requires
        c as int <= 127,
    ensures
        '\0' <= c <= '\u{7f}',
{
}

/// The tokens of an operator are its characters, in order.
proof fn marks_are_characters(text: Seq<char>)
    ensures
        marks(text).len() == text.len(),
        forall|i: int|
            0 <= i < text.len() ==> #[trigger] marks(text)[i] == Token::Mark(
                text[i],
                i + 1 < text.len(),
            ),
    decreases text.len(),
{
    if text.len() > 0 {
        let rest = text.skip(1);
        marks_are_characters(rest);
        marks_start_with_a_character(text, text[0]);
        assert forall|i: int| 0 <= i < text.len() implies #[trigger] marks(text)[i] == Token::Mark(
            text[i],
            i + 1 < text.len(),
        ) by {
            if i > 0 {
                assert(marks(text)[i] == marks(rest)[i - 1]);
                assert(rest[i - 1] == text[i]);
            }
        }
    }
}

/// An operator in source is its characters, in order, of which all but the last hold on to the next.
pub proof fn an_operator_is_its_characters(draft: DraftState, operator: Seq<char>)
    requires
        operator.len() > 0,
        forall|i: int| 0 <= i < operator.len() ==> is_operator_char(#[trigger] operator[i]),
    ensures
        draft.source(operator).groups == draft.groups,
        draft.source(operator).out.len() == draft.out.len() + operator.len(),
        draft.source(operator).out.take(draft.out.len() as int) == draft.out,
        forall|i: int|
            0 <= i < operator.len() ==> #[trigger] draft.source(operator).out[draft.out.len() + i]
                == Token::Mark(operator[i], i + 1 < operator.len()),
{
    assert forall|i: int| 0 <= i < operator.len() implies is_mark(#[trigger] operator[i]) by {
        operator_chars_are_marks(operator[i]);
    }
    assert(is_marks(operator));
    assert(!is_blank(operator[0]));
    assert forall|i: int| 0 <= i < operator.len() implies !is_blank(#[trigger] operator[i]) by {
        assert(is_mark(operator[i]));
    }
    no_blank_is_one_piece(draft, operator);
    assert(!is_word(operator)) by {
        assert(!is_word_char(operator[0]));
    }
    assert(!is_lifetime(operator)) by {
        if operator.len() > 1 {
            assert(operator.skip(1)[0] == operator[1]);
            assert(!is_word_char(operator.skip(1)[0]));
        }
    }
    marks_are_characters(operator);
    assert(draft.source(operator) == draft.given(marks(operator)));
    assert(draft.source(operator).out.take(draft.out.len() as int) =~= draft.out);
}

/// A bracket that opens in source opens a group, and one that closes closes the innermost group. One
/// that closes nothing adds nothing.
pub proof fn brackets_open_and_close_groups(draft: DraftState)
    ensures
        draft.source(seq!['(']).out == draft.out.push(Token::Open(Bracket::Round)),
        draft.source(seq!['(']).groups == draft.groups.push(Bracket::Round),
        draft.source(seq!['[']).out == draft.out.push(Token::Open(Bracket::Square)),
        draft.source(seq!['[']).groups == draft.groups.push(Bracket::Square),
        draft.source(seq!['{']).out == draft.out.push(Token::Open(Bracket::Curly)),
        draft.source(seq!['{']).groups == draft.groups.push(Bracket::Curly),
        draft.groups.len() > 0 ==> {
            let closed = draft.out.push(Token::Close(draft.groups.last()));
            &&& draft.source(seq![')']).out == closed
            &&& draft.source(seq![']']).out == closed
            &&& draft.source(seq!['}']).out == closed
            &&& draft.source(seq![')']).groups == draft.groups.drop_last()
            &&& draft.source(seq![']']).groups == draft.groups.drop_last()
            &&& draft.source(seq!['}']).groups == draft.groups.drop_last()
        },
        draft.groups.len() == 0 ==> {
            &&& draft.source(seq![')']) == draft
            &&& draft.source(seq![']']) == draft
            &&& draft.source(seq!['}']) == draft
        },
{
    no_blank_is_one_piece(draft, seq!['(']);
    no_blank_is_one_piece(draft, seq!['[']);
    no_blank_is_one_piece(draft, seq!['{']);
    no_blank_is_one_piece(draft, seq![')']);
    no_blank_is_one_piece(draft, seq![']']);
    no_blank_is_one_piece(draft, seq!['}']);
}

/// The first piece of a text stays its first piece, whatever is put behind a blank.
proof fn first_piece_stays(a: Seq<char>, blank: char, b: Seq<char>)
    requires
        is_blank(blank),
    ensures
        piece_len(a + seq![blank] + b) == piece_len(a),
    decreases a.len(),
{
    let all = a + seq![blank] + b;
    if a.len() == 0 {
        assert(all[0] == blank);
    } else {
        assert(all[0] == a[0]);
        if !is_blank(a[0]) {
            first_piece_stays(a.skip(1), blank, b);
            assert(all.skip(1) =~= a.skip(1) + seq![blank] + b);
        }
    }
}

/// Source with a blank in it is what stands in front of the blank, and then what stands behind it: no
/// piece is lost, and none depends on another.
pub proof fn source_is_read_piece_by_piece(
    draft: DraftState,
    a: Seq<char>,
    blank: char,
    b: Seq<char>,
)
    requires
        blank == ' ' || blank == '\n',
    ensures
        draft.source(a + seq![blank] + b) == draft.source(a).source(b),
    decreases a.len(),
{
    let all = a + seq![blank] + b;
    if a.len() == 0 {
        assert(all[0] == blank);
        assert(all.skip(1) =~= b);
    } else if is_blank(a[0]) {
        assert(all[0] == a[0]);
        source_is_read_piece_by_piece(draft, a.skip(1), blank, b);
        assert(all.skip(1) =~= a.skip(1) + seq![blank] + b);
    } else {
        assert(all[0] == a[0]);
        first_piece_stays(a, blank, b);
        piece_ends_at_a_blank(a);
        let n = piece_len(a) as int;
        assert(all.take(n) =~= a.take(n));
        assert(all.skip(n) =~= a.skip(n) + seq![blank] + b);
        source_is_read_piece_by_piece(draft.piece(a.take(n)), a.skip(n), blank, b);
    }
}

/// Nothing stands in a draft at first; tokens are added as they are, and a string as its literal, behind
/// all others, and neither opens or closes a group.
pub proof fn what_is_added_stands_last(draft: DraftState, tokens: Seq<Token>, value: Seq<char>)
    ensures
        DraftState::start().out.len() == 0,
        DraftState::start().groups.len() == 0,
        draft.given(tokens).out == draft.out + tokens,
        draft.given(tokens).groups == draft.groups,
        draft.text(value).out == draft.out.push(Token::Text(value)),
        draft.text(value).groups == draft.groups,
{
}

/// Finishing a draft closes the groups that are open, the innermost first, and adds nothing else.
pub proof fn finishing_closes_what_is_open(draft: DraftState)
    ensures
        draft.finish().len() == draft.out.len() + draft.groups.len(),
        draft.finish().take(draft.out.len() as int) == draft.out,
        forall|i: int|
            0 <= i < draft.groups.len() ==> #[trigger] draft.finish()[draft.out.len() + i]
                == Token::Close(draft.groups[draft.groups.len() - 1 - i]),
    decreases draft.groups.len(),
{
    if draft.groups.len() == 0 {
        assert(draft.finish().take(draft.out.len() as int) =~= draft.out);
    } else {
        let next = draft.leave();
        finishing_closes_what_is_open(next);
        let all = draft.finish();
        assert(all == next.finish());
        assert(all.take(draft.out.len() as int) =~= draft.out) by {
            assert forall|i: int| 0 <= i < draft.out.len() implies all[i] == draft.out[i] by {
                assert(all[i] == all.take(next.out.len() as int)[i]);
            }
        }
        assert forall|i: int| 0 <= i < draft.groups.len() implies #[trigger] all[draft.out.len() + i]
            == Token::Close(draft.groups[draft.groups.len() - 1 - i]) by {
            if i == 0 {
                assert(all[draft.out.len() as int] == all.take(next.out.len() as int)[
                    draft.out.len() as int]);
            } else {
                assert(all[next.out.len() + (i - 1)] == Token::Close(
                    next.groups[next.groups.len() - 1 - (i - 1)],
                ));
            }
        }
    }
}

/// The tokens that fixed source adds to a draft with these open groups.
pub open spec fn added(groups: Seq<Bracket>, source: Seq<char>) -> Seq<Token> {
    DraftState { groups, out: Seq::empty() }.source(source).out
}

/// The groups that are open behind fixed source, in a draft where these were open.
pub open spec fn groups_after(groups: Seq<Bracket>, source: Seq<char>) -> Seq<Bracket> {
    DraftState { groups, out: Seq::empty() }.source(source).groups
}

/// What fixed source adds depends on the groups that are open, and on nothing that stands in the draft.
pub proof fn source_adds_the_same(draft: DraftState, source: Seq<char>)
    ensures
        draft.source(source).out == draft.out + added(draft.groups, source),
        draft.source(source).groups == groups_after(draft.groups, source),
{
    let bare = DraftState { groups: draft.groups, out: Seq::empty() };
    source_adds_the_same_behind(bare, draft.out, source);
    assert(draft =~= (DraftState { groups: bare.groups, out: draft.out + bare.out }));
}

/// What stands in front of a draft stays there, and changes nothing else.
proof fn source_adds_the_same_behind(draft: DraftState, before: Seq<Token>, source: Seq<char>)
    ensures
        (DraftState { groups: draft.groups, out: before + draft.out }).source(source) == (
        DraftState {
            groups: draft.source(source).groups,
            out: before + draft.source(source).out,
        }),
    decreases source.len(),
{
    let moved = DraftState { groups: draft.groups, out: before + draft.out };
    if source.len() == 0 {
    } else if is_blank(source[0]) {
        source_adds_the_same_behind(draft, before, source.skip(1));
    } else {
        piece_ends_at_a_blank(source);
        let n = piece_len(source) as int;
        let piece = source.take(n);
        let next = draft.piece(piece);
        assert(moved.piece(piece) =~= (DraftState { groups: next.groups, out: before + next.out }));
        source_adds_the_same_behind(next, before, source.skip(n));
    }
}

/// What finishing adds depends on the groups that are open only.
pub proof fn finishing_adds_the_same(draft: DraftState)
    ensures
        draft.finish() == draft.out + (DraftState {
            groups: draft.groups,
            out: Seq::empty(),
        }).finish(),
{
    let bare = DraftState { groups: draft.groups, out: Seq::empty() };
    finishing_closes_what_is_open(draft);
    finishing_closes_what_is_open(bare);
    let (all, end) = (draft.finish(), bare.finish());
    let n = draft.out.len() as int;
    assert forall|i: int| 0 <= i < all.len() implies all[i] == (draft.out + end)[i] by {
        if i < n {
            assert(all[i] == all.take(n)[i]);
        } else {
            assert(all[n + (i - n)] == Token::Close(draft.groups[draft.groups.len() - 1 - (i - n)]));
            assert(end[0 + (i - n)] == Token::Close(draft.groups[draft.groups.len() - 1 - (i - n)]));
        }
    }
    assert(all =~= draft.out + end);
}

/// Every ASCII name that a variable can have is an identifier, as it is and, but for five words, made
/// raw; and no other ASCII text is.
pub proof fn names_of_variables_are_identifiers(word: Seq<char>, text: Seq<char>)
    ensures
        is_named_like_a_variable(word) ==> is_ascii_identifier(word),
        is_named_like_a_variable(word) && word != "_"@ && word != "super"@ && word != "self"@
            && word != "Self"@ && word != "crate"@ ==> is_ascii_identifier(seq!['r', '#'] + word),
        is_ascii_identifier(text) ==> is_named_like_a_variable(text) || {
            &&& text.len() > 2
            &&& text[0] == 'r'
            &&& text[1] == '#'
            &&& is_named_like_a_variable(text.skip(2))
            &&& text.skip(2) != "_"@
            &&& text.skip(2) != "super"@
            &&& text.skip(2) != "self"@
            &&& text.skip(2) != "Self"@
            &&& text.skip(2) != "crate"@
        },
        can_be_identifier(text) && (forall|i: int|
            0 <= i < text.len() ==> (#[trigger] text[i]) as int <= 127) ==> is_ascii_identifier(
            text,
        ),
{
    if is_named_like_a_variable(word) {
        assert forall|i: int| 0 <= i < word.len() implies is_word_char(#[trigger] word[i]) by {}
        let raw = seq!['r', '#'] + word;
        assert(raw.skip(2) =~= word);
    }
    if is_word(text) {
        assert forall|i: int|
            0 <= i < text.len() implies ('a' <= #[trigger] text[i] <= 'z' || 'A' <= text[i] <= 'Z'
            || '0' <= text[i] <= '9' || text[i] == '_') by {
            assert(is_word_char(text[i]));
        }
    }
    if is_raw_word(text) {
        let rest = text.skip(2);
        assert forall|i: int|
            0 <= i < rest.len() implies ('a' <= #[trigger] rest[i] <= 'z' || 'A' <= rest[i] <= 'Z'
            || '0' <= rest[i] <= '9' || rest[i] == '_') by {
            assert(is_word_char(rest[i]));
        }
    }
    if forall|i: int| 0 <= i < text.len() ==> (#[trigger] text[i]) as int <= 127 {
        assert forall|i: int| 0 <= i < text.len() implies '\0' <= #[trigger] text[i] <= '\u{7f}' by {
            ascii_ends_at_127(text[i]);
        }
        assert(is_ascii_chars(text));
    }
}

/// A name that a lexer was asked about is taken exactly where the lexer made one identifier of it that
/// is that name.
pub proof fn names_are_taken_as_they_are_read(
    name: Seq<char>,
    read: Result<TokenStream, LexError>,
    r: Option<TokenStream>,
)
    requires
        is_read(name, read, r),
    ensures
        r is Some <==> (read matches Ok(stream) && tokens_of(stream) == seq![Token::Word(name)]),
        r matches Some(stream) ==> read == Ok::<TokenStream, LexError>(stream),
{
}

} // verus!
