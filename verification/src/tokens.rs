//! Rust source as tokens.
//!
//! A [`Draft`] puts the tokens of a piece of Rust source together: from fixed source, from tokens
//! that are given, and from strings that become literals. The tokens themselves are those of the
//! `proc_macro2` crate.
//!
//! Each function here that is not proved makes one token of that crate, or does one thing to a stream
//! of it. Its contract says, over the tokens of a stream, what the sources of that crate show.
use std::str::FromStr;

use proc_macro2::token_stream::IntoIter;
use proc_macro2::{
    Delimiter, Group, Ident, LexError, Literal, Punct, Spacing, Span, TokenStream, TokenTree,
};
use vstd::prelude::*;
use vstd::utf8::is_ascii_chars;

verus! {

/// The type `proc_macro2::TokenStream`: the tokens of Rust source.
#[verifier::external_type_specification]
#[verifier::external_body]
pub struct ExTokenStream(proc_macro2::TokenStream);

/// The type `proc_macro2::LexError`: says that a text is not made of Rust tokens.
#[verifier::external_type_specification]
#[verifier::external_body]
pub struct ExLexError(proc_macro2::LexError);

/// The type `proc_macro2::token_stream::IntoIter`: hands out the token trees of a stream.
#[verifier::external_type_specification]
#[verifier::external_body]
pub struct ExIntoIter(proc_macro2::token_stream::IntoIter);

/// The brackets that a group of tokens stands in.
#[derive(Clone, Copy, Debug, PartialEq, Eq, Structural)]
pub enum Bracket {
    Round,
    Square,
    Curly,
}

/// A token. A bracket counts as a token of its own.
pub enum Token {
    /// An identifier or a keyword.
    Word(Seq<char>),
    /// A punctuation character, and whether the next one belongs to the same operator.
    Mark(char, bool),
    /// A string literal with the value given.
    Text(Seq<char>),
    /// Any other token, as it is written. A group without brackets counts as one.
    Other(Seq<char>),
    /// The bracket that opens a group.
    Open(Bracket),
    /// The bracket that closes a group.
    Close(Bracket),
}

/// The tokens that a stream holds, in order. A negative number counts as its sign and the number
/// behind it.
pub uninterp spec fn tokens_of(stream: TokenStream) -> Seq<Token>;

/// The tokens of the token trees that were not yet handed out, in order.
pub uninterp spec fn left_in(trees: IntoIter) -> Seq<Token>;

/// Whether a character can stand in a word.
pub open spec fn is_word_char(c: char) -> bool {
    'a' <= c <= 'z' || 'A' <= c <= 'Z' || '0' <= c <= '9' || c == '_'
}

/// Whether a text is a word: an identifier or a keyword, in ASCII.
pub open spec fn is_word(text: Seq<char>) -> bool {
    &&& text.len() > 0
    &&& !('0' <= text[0] <= '9')
    &&& forall|i: int| 0 <= i < text.len() ==> is_word_char(#[trigger] text[i])
}

/// Whether a word cannot be made raw.
pub open spec fn is_reserved(word: Seq<char>) -> bool {
    word == "_"@ || word == "super"@ || word == "self"@ || word == "Self"@ || word == "crate"@
}

/// Whether a text is a raw word: `r#`, and a word that can be made raw.
pub open spec fn is_raw_word(text: Seq<char>) -> bool {
    &&& text.len() > 2
    &&& text[0] == 'r'
    &&& text[1] == '#'
    &&& is_word(text.skip(2))
    &&& !is_reserved(text.skip(2))
}

/// Whether a text is an identifier or a keyword, and in ASCII.
pub open spec fn is_ascii_identifier(text: Seq<char>) -> bool {
    is_word(text) || is_raw_word(text)
}

/// Whether a text can be an identifier or a keyword. In ASCII it has to be a word or a raw word.
/// Beyond ASCII that depends on tables of Unicode, and on the lexer that is asked.
pub open spec fn can_be_identifier(text: Seq<char>) -> bool {
    is_ascii_chars(text) ==> is_ascii_identifier(text)
}

/// A token tree, as far as names are told from others by it.
#[derive(Debug)]
pub enum Tree {
    /// An identifier or a keyword, as it is written.
    Word(String),
    /// A punctuation character, and whether the next one belongs to the same operator.
    Mark(char, bool),
    /// A literal.
    Literal,
    /// A group.
    Group,
}

impl Tree {
    /// Whether this is the token tree made of `tokens`.
    pub open spec fn is_made_of(self, tokens: Seq<Token>) -> bool {
        match self {
            Tree::Word(word) => tokens == seq![Token::Word(word@)],
            Tree::Mark(mark, joint) => tokens == seq![Token::Mark(mark, joint)],
            Tree::Literal => tokens[0] is Text || tokens[0] is Other || tokens[0] is Mark,
            Tree::Group => tokens[0] is Open || tokens[0] is Other,
        }
    }
}

/// Whether a character is punctuation. Brackets and quotes are not, but for the quote of a
/// lifetime.
pub open spec fn is_mark(c: char) -> bool {
    ||| c == '!' || c == '#' || c == '$' || c == '%' || c == '&' || c == '\'' || c == '*'
    ||| c == '+' || c == ',' || c == '-' || c == '.' || c == '/' || c == ':' || c == ';'
    ||| c == '<' || c == '=' || c == '>' || c == '?' || c == '@' || c == '^' || c == '|'
    ||| c == '~'
}

/// `TokenStream::new`: a stream without tokens.
#[verifier::external_body]
pub(crate) fn stream_new() -> (r: TokenStream)
    ensures
        tokens_of(r) == Seq::<Token>::empty(),
{
    TokenStream::new()
}

/// `TokenStream::clone`: a stream of the same tokens.
#[verifier::external_body]
pub(crate) fn stream_clone(stream: &TokenStream) -> (r: TokenStream)
    ensures
        tokens_of(r) == tokens_of(*stream),
{
    stream.clone()
}

/// `TokenStream::extend` by the tokens of another stream: appends them. It takes a negative number
/// apart into its sign and the number.
#[verifier::external_body]
pub(crate) fn stream_extend(stream: &mut TokenStream, more: TokenStream)
    ensures
        tokens_of(*final(stream)) == tokens_of(*old(stream)) + tokens_of(more),
{
    stream.extend::<TokenStream>(more)
}

/// `Ident::new`, appended: a word. It panics on a text that is not an identifier or a keyword.
#[verifier::external_body]
pub(crate) fn stream_push_word(stream: &mut TokenStream, word: &str)
    requires
        is_word(word@),
    ensures
        tokens_of(*final(stream)) == tokens_of(*old(stream)).push(Token::Word(word@)),
{
    stream.extend(Some(TokenTree::Ident(Ident::new(word, Span::call_site()))))
}

/// `Ident::new_raw`, appended: a raw word. It panics on a text that is not an identifier or a keyword,
/// and on the words that cannot be made raw.
#[verifier::external_body]
pub(crate) fn stream_push_raw_word(stream: &mut TokenStream, word: &str)
    requires
        is_word(word@),
        !is_reserved(word@),
    ensures
        tokens_of(*final(stream)) == tokens_of(*old(stream)).push(
            Token::Word(seq!['r', '#'] + word@),
        ),
{
    stream.extend(Some(TokenTree::Ident(Ident::new_raw(word, Span::call_site()))))
}

/// `Punct::new`, appended: a punctuation character. It panics on any other character.
#[verifier::external_body]
pub(crate) fn stream_push_mark(stream: &mut TokenStream, mark: char, joint: bool)
    requires
        is_mark(mark),
    ensures
        tokens_of(*final(stream)) == tokens_of(*old(stream)).push(Token::Mark(mark, joint)),
{
    let spacing = match joint {
        true => Spacing::Joint,
        false => Spacing::Alone,
    };
    stream.extend(Some(TokenTree::Punct(Punct::new(mark, spacing))))
}

/// `Literal::string`, appended: the literal of a string.
#[verifier::external_body]
pub(crate) fn stream_push_text(stream: &mut TokenStream, value: &str)
    ensures
        tokens_of(*final(stream)) == tokens_of(*old(stream)).push(Token::Text(value@)),
{
    stream.extend(Some(TokenTree::Literal(Literal::string(value))))
}

/// `Group::new`, appended: tokens in brackets.
#[verifier::external_body]
pub(crate) fn stream_push_group(stream: &mut TokenStream, bracket: Bracket, inner: TokenStream)
    ensures
        tokens_of(*final(stream)) == tokens_of(*old(stream)).push(Token::Open(bracket)) + tokens_of(
            inner,
        ).push(Token::Close(bracket)),
{
    let delimiter = match bracket {
        Bracket::Round => Delimiter::Parenthesis,
        Bracket::Square => Delimiter::Bracket,
        Bracket::Curly => Delimiter::Brace,
    };
    stream.extend(Some(TokenTree::Group(Group::new(delimiter, inner))))
}

/// `TokenStream::from_str`: makes tokens of a text, or fails where it is not made of tokens. Inside a
/// procedural macro the compiler does that, elsewhere `proc_macro2` itself, so that nothing is said of
/// the tokens.
#[verifier::external_body]
pub fn lex(text: &str) -> (r: Result<TokenStream, LexError>) {
    TokenStream::from_str(text)
}

/// `TokenStream::into_iter`: hands out the token trees of a stream.
#[verifier::external_body]
fn stream_into_trees(stream: TokenStream) -> (r: IntoIter)
    ensures
        left_in(r) == tokens_of(stream),
{
    stream.into_iter()
}

/// `Iterator::next` of `IntoIter`: hands out the next token tree, if there is one. A word comes with
/// its text, as `Ident::to_string` writes it, and a punctuation character with its spacing.
#[verifier::external_body]
fn next_tree(trees: &mut IntoIter) -> (r: Option<Tree>)
    ensures
        match r {
            Some(tree) => exists|n: int|
                0 < n <= left_in(*old(trees)).len() && tree.is_made_of(
                    #[trigger] left_in(*old(trees)).take(n),
                ) && left_in(*final(trees)) == left_in(*old(trees)).skip(n),
            None => left_in(*old(trees)).len() == 0 && left_in(*final(trees)).len() == 0,
        },
{
    match trees.next() {
        Some(TokenTree::Ident(word)) => Some(Tree::Word(word.to_string())),
        Some(TokenTree::Punct(mark)) => Some(
            Tree::Mark(mark.as_char(), matches!(mark.spacing(), Spacing::Joint)),
        ),
        Some(TokenTree::Literal(_)) => Some(Tree::Literal),
        Some(TokenTree::Group(_)) => Some(Tree::Group),
        None => None,
    }
}

/// The text of the identifier that is all that a stream holds, if it holds one identifier and nothing
/// else.
fn sole_word(stream: &TokenStream) -> (r: Option<String>)
    ensures
        match r {
            Some(word) => tokens_of(*stream) == seq![Token::Word(word@)],
            None => forall|word: Seq<char>| tokens_of(*stream) != #[trigger] seq![Token::Word(word)],
        },
{
    let ghost all = tokens_of(*stream);
    let mut trees = stream_into_trees(stream_clone(stream));
    match next_tree(&mut trees) {
        Some(Tree::Word(word)) => {
            let ghost rest = left_in(trees);
            assert(all.len() == 1 + rest.len() && all[0] == Token::Word(word@)) by {
                let n = choose|n: int|
                    0 < n <= all.len() && Tree::Word(word).is_made_of(#[trigger] all.take(n))
                        && rest == all.skip(n);
                assert(all.take(n).len() == 1);
                assert(all.take(n)[0] == all[0]);
            }
            match next_tree(&mut trees) {
                None => {
                    assert(all =~= seq![Token::Word(word@)]);
                    Some(word)
                },
                Some(_) => {
                    assert(all.len() > 1);
                    None
                },
            }
        },
        Some(other) => {
            proof {
                let n = choose|n: int|
                    0 < n <= all.len() && other.is_made_of(#[trigger] all.take(n)) && left_in(trees)
                        == all.skip(n);
                assert(all.take(n)[0] == all[0]);
                assert(all[0] !is Word);
                assert forall|word: Seq<char>| all != #[trigger] seq![Token::Word(word)] by {
                    assert(seq![Token::Word(word)][0] is Word);
                }
            }
            None
        },
        None => None,
    }
}

/// The bracket that a character opens.
pub open spec fn opening(c: char) -> Option<Bracket> {
    if c == '(' {
        Some(Bracket::Round)
    } else if c == '[' {
        Some(Bracket::Square)
    } else if c == '{' {
        Some(Bracket::Curly)
    } else {
        None
    }
}

/// Whether a character closes a bracket.
pub open spec fn is_closing(c: char) -> bool {
    c == ')' || c == ']' || c == '}'
}

/// Whether a character separates the pieces of fixed source.
pub open spec fn is_blank(c: char) -> bool {
    c == ' ' || c == '\n'
}

/// Whether a text is a lifetime: a quote and a word.
pub open spec fn is_lifetime(text: Seq<char>) -> bool {
    text.len() > 0 && text[0] == '\'' && is_word(text.skip(1))
}

/// Whether a text is made of punctuation.
pub open spec fn is_marks(text: Seq<char>) -> bool {
    forall|i: int| 0 <= i < text.len() ==> is_mark(#[trigger] text[i])
}

/// The tokens of an operator.
pub open spec fn marks(text: Seq<char>) -> Seq<Token>
    decreases text.len(),
{
    if text.len() == 0 {
        Seq::empty()
    } else {
        seq![Token::Mark(text[0], text.len() > 1)] + marks(text.skip(1))
    }
}

/// How many characters stand in front of the first blank.
pub open spec fn piece_len(text: Seq<char>) -> nat
    decreases text.len(),
{
    if text.len() == 0 || is_blank(text[0]) {
        0
    } else {
        1 + piece_len(text.skip(1))
    }
}

/// There are no more characters in front of the first blank than in the text, all that stand there
/// are none, and what stands behind them is one.
pub proof fn piece_ends_at_a_blank(text: Seq<char>)
    ensures
        piece_len(text) <= text.len(),
        forall|i: int| 0 <= i < piece_len(text) ==> !is_blank(#[trigger] text[i]),
        piece_len(text) < text.len() ==> is_blank(text[piece_len(text) as int]),
    decreases text.len(),
{
    if text.len() > 0 && !is_blank(text[0]) {
        let rest = text.skip(1);
        piece_ends_at_a_blank(rest);
        assert forall|i: int| 0 <= i < piece_len(text) implies !is_blank(#[trigger] text[i]) by {
            if i > 0 {
                assert(rest[i - 1] == text[i]);
            }
        }
    }
}

/// The first blank is where it is found.
proof fn first_blank(text: Seq<char>, n: nat)
    requires
        n <= text.len(),
        forall|i: int| 0 <= i < n ==> !is_blank(#[trigger] text[i]),
        n < text.len() ==> is_blank(text[n as int]),
    ensures
        piece_len(text) == n,
{
    piece_ends_at_a_blank(text);
    if piece_len(text) < n {
        assert(is_blank(text[piece_len(text) as int]));
    }
    if n < piece_len(text) {
        assert(!is_blank(text[n as int]));
    }
}

/// What has been put together so far: the groups that are still open, the outermost first, and the
/// tokens.
#[verifier::ext_equal]
pub struct DraftState {
    pub groups: Seq<Bracket>,
    pub out: Seq<Token>,
}

impl DraftState {
    /// Nothing yet.
    pub open spec fn start() -> DraftState {
        DraftState { groups: Seq::empty(), out: Seq::empty() }
    }

    /// A group is opened.
    pub open spec fn enter(self, bracket: Bracket) -> DraftState {
        DraftState {
            groups: self.groups.push(bracket),
            out: self.out.push(Token::Open(bracket)),
        }
    }

    /// The innermost group is closed, if there is one.
    pub open spec fn leave(self) -> DraftState {
        if self.groups.len() == 0 {
            self
        } else {
            DraftState {
                groups: self.groups.drop_last(),
                out: self.out.push(Token::Close(self.groups.last())),
            }
        }
    }

    /// Tokens are added as they are.
    pub open spec fn given(self, tokens: Seq<Token>) -> DraftState {
        DraftState { out: self.out + tokens, ..self }
    }

    /// The literal of a string is added.
    pub open spec fn text(self, value: Seq<char>) -> DraftState {
        DraftState { out: self.out.push(Token::Text(value)), ..self }
    }

    /// A piece of fixed source is added: a bracket, a word, a lifetime or an operator. What is none
    /// of these adds nothing.
    pub open spec fn piece(self, piece: Seq<char>) -> DraftState {
        if piece.len() == 1 && opening(piece[0]) is Some {
            self.enter(opening(piece[0])->0)
        } else if piece.len() == 1 && is_closing(piece[0]) {
            self.leave()
        } else if is_word(piece) {
            self.given(seq![Token::Word(piece)])
        } else if is_lifetime(piece) {
            self.given(seq![Token::Mark('\'', true), Token::Word(piece.skip(1))])
        } else if is_marks(piece) {
            self.given(marks(piece))
        } else {
            self
        }
    }

    /// Fixed source is added, whose pieces stand apart from each other.
    pub open spec fn source(self, source: Seq<char>) -> DraftState
        decreases source.len(),
    {
        if source.len() == 0 {
            self
        } else if is_blank(source[0]) {
            self.source(source.skip(1))
        } else {
            let n = piece_len(source) as int;
            proof {
                piece_ends_at_a_blank(source);
            }
            self.piece(source.take(n)).source(source.skip(n))
        }
    }

    /// The tokens, once every group is closed.
    pub open spec fn finish(self) -> Seq<Token>
        decreases self.groups.len(),
    {
        if self.groups.len() == 0 {
            self.out
        } else {
            self.leave().finish()
        }
    }
}

/// The tokens outside of the innermost group, up to the bracket that opens it.
spec fn outside(groups: Seq<(Bracket, TokenStream)>) -> Seq<Token>
    decreases groups.len(),
{
    if groups.len() == 0 {
        Seq::empty()
    } else {
        outside(groups.drop_last()) + tokens_of(groups.last().1).push(Token::Open(groups.last().0))
    }
}

/// Rust source that is being put together.
#[derive(Debug)]
pub struct Draft {
    /// Of each group that is still open, its bracket and what stands in front of it. The outermost
    /// group comes first.
    groups: Vec<(Bracket, TokenStream)>,
    /// What stands in the innermost group.
    current: TokenStream,
}

impl View for Draft {
    type V = DraftState;

    closed spec fn view(&self) -> DraftState {
        DraftState {
            groups: self.groups@.map_values(|group: (Bracket, TokenStream)| group.0),
            out: outside(self.groups@) + tokens_of(self.current),
        }
    }
}

/// Whether a character can stand in a word.
fn word_char(c: char) -> (r: bool)
    ensures
        r == is_word_char(c),
{
    ('a' <= c && c <= 'z') || ('A' <= c && c <= 'Z') || ('0' <= c && c <= '9') || c == '_'
}

/// Whether a text is a word.
fn check_word(text: &str) -> (r: bool)
    ensures
        r == is_word(text@),
{
    let n: usize = text.unicode_len();
    if n == 0 {
        return false;
    }
    let first = text.get_char(0);
    if '0' <= first && first <= '9' {
        return false;
    }
    for i in 0..n
        invariant
            n == text@.len(),
            forall|j: int| 0 <= j < i ==> is_word_char(#[trigger] text@[j]),
    {
        if !word_char(text.get_char(i)) {
            return false;
        }
    }
    true
}

/// Whether a character is punctuation.
fn check_mark(c: char) -> (r: bool)
    ensures
        r == is_mark(c),
{
    c == '!' || c == '#' || c == '$' || c == '%' || c == '&' || c == '\'' || c == '*' || c == '+'
        || c == ',' || c == '-' || c == '.' || c == '/' || c == ':' || c == ';' || c == '<' || c
        == '=' || c == '>' || c == '?' || c == '@' || c == '^' || c == '|' || c == '~'
}

/// Whether a text is made of punctuation.
fn check_marks(text: &str) -> (r: bool)
    ensures
        r == is_marks(text@),
{
    let n: usize = text.unicode_len();
    for i in 0..n
        invariant
            n == text@.len(),
            forall|j: int| 0 <= j < i ==> is_mark(#[trigger] text@[j]),
    {
        if !check_mark(text.get_char(i)) {
            return false;
        }
    }
    true
}

/// The bracket that a character opens.
fn check_opening(c: char) -> (r: Option<Bracket>)
    ensures
        r == opening(c),
{
    if c == '(' {
        Some(Bracket::Round)
    } else if c == '[' {
        Some(Bracket::Square)
    } else if c == '{' {
        Some(Bracket::Curly)
    } else {
        None
    }
}

/// Whether a character separates the pieces of fixed source.
fn check_blank(c: char) -> (r: bool)
    ensures
        r == is_blank(c),
{
    c == ' ' || c == '\n'
}

/// Whether a word cannot be made raw.
fn check_reserved(word: &str) -> (r: bool)
    ensures
        r == is_reserved(word@),
{
    let word = word.to_owned();
    word == "_".to_owned() || word == "super".to_owned() || word == "self".to_owned() || word
        == "Self".to_owned() || word == "crate".to_owned()
}

/// Whether a text is a raw word.
fn check_raw_word(text: &str) -> (r: bool)
    ensures
        r == is_raw_word(text@),
{
    let n: usize = text.unicode_len();
    if n <= 2 || text.get_char(0) != 'r' || text.get_char(1) != '#' {
        return false;
    }
    let word = text.substring_char(2, n);
    assert(word@ =~= text@.skip(2));
    check_word(word) && !check_reserved(word)
}

/// Whether `r` is the token of a name of which a lexer made `read`: it is there exactly where `read` is
/// that name, as a single identifier or keyword.
pub open spec fn is_read(
    name: Seq<char>,
    read: Result<TokenStream, LexError>,
    r: Option<TokenStream>,
) -> bool {
    match r {
        Some(stream) => read == Ok::<TokenStream, LexError>(stream) && tokens_of(stream) == seq![
            Token::Word(name),
        ],
        None => read matches Ok(stream) ==> tokens_of(stream) != seq![Token::Word(name)],
    }
}

/// The token of a name, given what a lexer made of that name.
pub fn read_identifier(name: &str, read: Result<TokenStream, LexError>) -> (r: Option<TokenStream>)
    ensures
        is_read(name@, read, r),
{
    match read {
        Ok(stream) => match sole_word(&stream) {
            Some(word) => {
                assert(seq![Token::Word(word@)][0] == Token::Word(word@));
                assert(seq![Token::Word(name@)][0] == Token::Word(name@));
                if word == name.to_owned() {
                    Some(stream)
                } else {
                    None
                }
            },
            None => {
                assert(tokens_of(stream) != seq![Token::Word(name@)]);
                None
            },
        },
        Err(_) => None,
    }
}

/// Identifiers in ASCII are ASCII.
proof fn ascii_identifiers_are_ascii(text: Seq<char>)
    ensures
        is_ascii_identifier(text) ==> is_ascii_chars(text),
{
    if is_raw_word(text) {
        let word = text.skip(2);
        assert forall|i: int| 2 <= i < text.len() implies is_word_char(#[trigger] text[i]) by {
            assert(word[i - 2] == text[i]);
        }
    }
}

/// Makes an identifier, or a keyword, of a name that is one. Beyond ASCII a lexer decides whether it
/// is.
pub fn identifier(name: &str) -> (r: Option<TokenStream>)
    ensures
        match r {
            Some(stream) => can_be_identifier(name@) && tokens_of(stream) == seq![
                Token::Word(name@),
            ],
            None => !is_ascii_identifier(name@),
        },
        !is_ascii_chars(name@) ==> exists|read: Result<TokenStream, LexError>| #[trigger]
            call_ensures(lex, (name,), read) && is_read(name@, read, r),
{
    proof {
        ascii_identifiers_are_ascii(name@);
    }
    if check_word(name) {
        let mut stream = stream_new();
        stream_push_word(&mut stream, name);
        assert(tokens_of(stream) =~= seq![Token::Word(name@)]);
        return Some(stream);
    }
    if check_raw_word(name) {
        let mut stream = stream_new();
        let word = name.substring_char(2, name.unicode_len());
        assert(word@ =~= name@.skip(2));
        stream_push_raw_word(&mut stream, word);
        assert(seq!['r', '#'] + word@ =~= name@);
        assert(tokens_of(stream) =~= seq![Token::Word(name@)]);
        return Some(stream);
    }
    if name.is_ascii() {
        return None;
    }
    let ask = lex;
    let read = ask(name);
    read_identifier(name, read)
}

impl Draft {
    /// Nothing yet.
    pub fn new() -> (r: Draft)
        ensures
            r@ == DraftState::start(),
    {
        let r = Draft { groups: Vec::new(), current: stream_new() };
        assert(r@ =~= DraftState::start());
        r
    }

    /// Opens a group.
    fn enter(&mut self, bracket: Bracket)
        ensures
            final(self)@ == old(self)@.enter(bracket),
    {
        let mut before = stream_new();
        std::mem::swap(&mut before, &mut self.current);
        self.groups.push((bracket, before));
        assert(self.groups@.drop_last() =~= old(self).groups@);
        assert(self@ =~= old(self)@.enter(bracket));
    }

    /// Closes the innermost group, if there is one.
    fn leave(&mut self)
        ensures
            final(self)@ == old(self)@.leave(),
    {
        match self.groups.pop() {
            Some((bracket, before)) => {
                let mut inner = before;
                std::mem::swap(&mut inner, &mut self.current);
                stream_push_group(&mut self.current, bracket, inner);
                assert(self.groups@ =~= old(self).groups@.drop_last());
                assert(self@ =~= old(self)@.leave());
            },
            None => {},
        }
    }

    /// Adds tokens as they are.
    pub fn given(&mut self, tokens: &TokenStream)
        ensures
            final(self)@ == old(self)@.given(tokens_of(*tokens)),
    {
        stream_extend(&mut self.current, stream_clone(tokens));
        assert(self@ =~= old(self)@.given(tokens_of(*tokens)));
    }

    /// Adds the literal of a string.
    pub fn text(&mut self, value: &str)
        ensures
            final(self)@ == old(self)@.text(value@),
    {
        stream_push_text(&mut self.current, value);
        assert(self@ =~= old(self)@.text(value@));
    }

    /// Adds a word.
    fn word(&mut self, word: &str)
        requires
            is_word(word@),
        ensures
            final(self)@ == old(self)@.given(seq![Token::Word(word@)]),
    {
        stream_push_word(&mut self.current, word);
        assert(self@ =~= old(self)@.given(seq![Token::Word(word@)]));
    }

    /// Adds a punctuation character.
    fn mark(&mut self, mark: char, joint: bool)
        requires
            is_mark(mark),
        ensures
            final(self)@ == old(self)@.given(seq![Token::Mark(mark, joint)]),
    {
        stream_push_mark(&mut self.current, mark, joint);
        assert(self@ =~= old(self)@.given(seq![Token::Mark(mark, joint)]));
    }

    /// Adds an operator.
    fn operator(&mut self, operator: &str)
        requires
            is_marks(operator@),
        ensures
            final(self)@ == old(self)@.given(marks(operator@)),
    {
        let n: usize = operator.unicode_len();
        assert(operator@.skip(0) =~= operator@);
        for i in 0..n
            invariant
                n == operator@.len(),
                is_marks(operator@),
                self@.given(marks(operator@.skip(i as int))) == old(self)@.given(marks(operator@)),
        {
            let ghost rest = operator@.skip(i as int);
            let ghost before = self@;
            self.mark(operator.get_char(i), i + 1 < n);
            assert(rest.skip(1) =~= operator@.skip(i + 1));
            assert(self@.given(marks(rest.skip(1))) =~= before.given(marks(rest)));
        }
        assert(self@.given(marks(operator@.skip(n as int))) =~= self@);
    }

    /// Adds a piece of fixed source.
    fn piece(&mut self, piece: &str)
        ensures
            final(self)@ == old(self)@.piece(piece@),
    {
        let n: usize = piece.unicode_len();
        if n == 1 {
            let c = piece.get_char(0);
            if let Some(bracket) = check_opening(c) {
                self.enter(bracket);
                return;
            }
            if c == ')' || c == ']' || c == '}' {
                self.leave();
                return;
            }
        }
        if check_word(piece) {
            self.word(piece);
            return;
        }
        if n > 0 && piece.get_char(0) == '\'' {
            let rest = piece.substring_char(1, n);
            assert(rest@ =~= piece@.skip(1));
            if check_word(rest) {
                self.mark('\'', true);
                self.word(rest);
                assert(self@ =~= old(self)@.piece(piece@));
                return;
            }
        }
        if check_marks(piece) {
            self.operator(piece);
        }
    }

    /// Adds fixed source. Its pieces (brackets, words, lifetimes and operators) stand apart from each
    /// other.
    pub fn source(&mut self, source: &str)
        ensures
            final(self)@ == old(self)@.source(source@),
    {
        let n: usize = source.unicode_len();
        let mut i: usize = 0;
        assert(source@.skip(0) =~= source@);
        while i < n
            invariant
                i <= n,
                n == source@.len(),
                self@.source(source@.skip(i as int)) == old(self)@.source(source@),
            decreases n - i,
        {
            let ghost rest = source@.skip(i as int);
            assert(rest[0] == source@[i as int]);
            if check_blank(source.get_char(i)) {
                assert(rest.skip(1) =~= source@.skip(i + 1));
                i = i + 1;
            } else {
                let mut j: usize = i + 1;
                while j < n && !check_blank(source.get_char(j))
                    invariant
                        i < j <= n,
                        n == source@.len(),
                        forall|k: int| i <= k < j ==> !is_blank(#[trigger] source@[k]),
                    decreases n - j,
                {
                    j = j + 1;
                }
                let piece = source.substring_char(i, j);
                proof {
                    first_blank(rest, (j - i) as nat);
                    assert(piece@ =~= rest.take(j - i));
                    assert(source@.skip(j as int) =~= rest.skip(j - i));
                }
                self.piece(piece);
                i = j;
            }
        }
    }

    /// The tokens, once every group is closed.
    pub fn finish(self) -> (r: TokenStream)
        ensures
            tokens_of(r) == self@.finish(),
    {
        let mut draft = self;
        while draft.groups.len() > 0
            invariant
                draft@.finish() == self@.finish(),
            decreases draft@.groups.len(),
        {
            draft.leave();
        }
        assert(draft@.out =~= tokens_of(draft.current));
        draft.current
    }
}

/// Whether `part` stands somewhere in `tokens`, without gaps.
pub open spec fn holds(tokens: Seq<Token>, part: Seq<Token>) -> bool {
    exists|before: Seq<Token>, after: Seq<Token>| #[trigger] (before + part + after) == tokens
}

/// What stands in a draft stays in front, whatever fixed source is added.
pub proof fn source_goes_behind(draft: DraftState, source: Seq<char>)
    ensures
        draft.out.is_prefix_of(draft.source(source).out),
    decreases source.len(),
{
    if source.len() == 0 {
    } else if is_blank(source[0]) {
        source_goes_behind(draft, source.skip(1));
    } else {
        piece_ends_at_a_blank(source);
        let n = piece_len(source) as int;
        source_goes_behind(draft.piece(source.take(n)), source.skip(n));
    }
}

/// What stands in a draft stays in front when the draft is finished.
pub proof fn finish_goes_behind(draft: DraftState)
    ensures
        draft.out.is_prefix_of(draft.finish()),
    decreases draft.groups.len(),
{
    if draft.groups.len() > 0 {
        finish_goes_behind(draft.leave());
    }
}

} // verus!
