//! Command lines: a program and its arguments in one string.

use vstd::prelude::*;
use vstd::string::*;

use crate::error::{Fault, McpError};
use crate::text::is_white_space;

verus! {

/// The word that has been gathered, unless it is empty.
pub open spec fn gathered(word: Seq<char>) -> Seq<Seq<char>> {
    if word.len() == 0 {
        seq![]
    } else {
        seq![word]
    }
}

/// The words before those that are still to come.
pub open spec fn before_rest(
    words: Seq<Seq<char>>,
    rest: Result<Seq<Seq<char>>, Fault<Seq<char>>>,
) -> Result<Seq<Seq<char>>, Fault<Seq<char>>> {
    match rest {
        Ok(more) => Ok(words + more),
        Err(fault) => Err(fault),
    }
}

/// The words of a command line.
///
/// `word` is what has been gathered of the word that the line continues, `quote` the quote that
/// is open. White space outside quotes ends a word. Quotes of either kind keep what they enclose
/// together and do not belong to it. A backslash takes the character behind it as it is, within
/// quotes too. Words without characters do not count.
pub open spec fn words(
    line: Seq<char>,
    word: Seq<char>,
    quote: Option<char>,
) -> Result<Seq<Seq<char>>, Fault<Seq<char>>>
    decreases line.len(),
{
    if line.len() == 0 {
        match quote {
            Some(open) => Err(Fault::OpenQuote(open)),
            None => Ok(gathered(word)),
        }
    } else {
        let c = line[0];
        if quote is None && crate::text::white_space(c) {
            before_rest(gathered(word), words(line.skip(1), seq![], None))
        } else if quote is None && (c == '\'' || c == '"') {
            words(line.skip(1), word, Some(c))
        } else if quote == Some(c) {
            words(line.skip(1), word, None)
        } else if c != '\\' {
            words(line.skip(1), word.push(c), quote)
        } else if line.len() > 1 {
            words(line.skip(2), word.push(line[1]), quote)
        } else {
            words(line.skip(1), word, quote)
        }
    }
}

/// The failure of a command line that leaves a quote open.
fn unterminated(quote: char) -> (error: McpError)
    ensures
        error@ == Fault::<Seq<char>>::OpenQuote(quote),
{
    Fault::OpenQuote(quote)
}

/// Splits a command line into words.
pub fn split_command(input: &str) -> (r: Result<Vec<String>, McpError>)
    ensures
        match r {
            Ok(parts) => words(input@, seq![], None) == Ok::<Seq<Seq<char>>, Fault<Seq<char>>>(
                crate::text::texts(parts@),
            ),
            Err(error) => words(input@, seq![], None) == Err::<Seq<Seq<char>>, Fault<Seq<char>>>(
                error@,
            ),
        },
{
    let mut chars: Vec<char> = Vec::new();
    for c in it: input.chars()
        invariant
            it.seq() == input@,
            chars@ == input@.take(it.index() as int),
    {
        chars.push(c);
        assert(input@.take(it.index() + 1) =~= input@.take(it.index() as int).push(c));
    }
    assert(chars@ =~= input@);

    let mut parts: Vec<String> = Vec::new();
    let mut current: String = String::new();
    let mut quote: Option<char> = None;
    let mut i: usize = 0;
    assert(chars@.skip(0) =~= chars@);
    assert(before_rest(crate::text::texts(parts@), words(input@, seq![], None)) == words(
        input@,
        seq![],
        None,
    )) by {
        if let Ok(all) = words(input@, seq![], None) {
            assert(crate::text::texts(parts@) + all =~= all);
        }
    }
    while i < chars.len()
        invariant
            i <= chars@.len(),
            chars@ == input@,
            words(input@, seq![], None) == before_rest(
                crate::text::texts(parts@),
                words(chars@.skip(i as int), current@, quote),
            ),
        decreases chars.len() - i,
    {
        let c: char = chars[i];
        let ghost line = chars@.skip(i as int);
        assert(line[0] == c);
        assert(line.skip(1) =~= chars@.skip(i + 1));
        i = i + 1;
        match quote {
            None => {
                if is_white_space(c) {
                    let ghost done = crate::text::texts(parts@);
                    let ghost ended = gathered(current@);
                    if !current.as_str().is_empty() {
                        let mut word: String = String::new();
                        std::mem::swap(&mut word, &mut current);
                        parts.push(word);
                    }
                    proof {
                        assert(current@ =~= seq![]);
                        assert(crate::text::texts(parts@) =~= done + ended);
                        if let Ok(more) = words(chars@.skip(i as int), seq![], None) {
                            assert(done + (ended + more) =~= (done + ended) + more);
                        }
                    }
                    continue;
                }
                if c == '\'' || c == '"' {
                    quote = Some(c);
                    continue;
                }
            },
            Some(open) => {
                if c == open {
                    quote = None;
                    continue;
                }
            },
        }
        if c == '\\' {
            if i < chars.len() {
                assert(line[1] == chars@[i as int]);
                assert(line.skip(2) =~= chars@.skip(i + 1));
                current.push(chars[i]);
                i = i + 1;
            }
        } else {
            current.push(c);
        }
    }
    assert(chars@.skip(i as int).len() == 0);
    if let Some(open) = quote {
        return Err(unterminated(open));
    }
    let ghost done = crate::text::texts(parts@);
    let ghost ended = gathered(current@);
    if !current.as_str().is_empty() {
        parts.push(current);
    }
    assert(crate::text::texts(parts@) =~= done + ended);
    Ok(parts)
}

/// A program and its arguments.
#[derive(Debug)]
pub struct CommandLine {
    pub program: String,
    pub args: Vec<String>,
}

/// Reads a command line: the first word is the program, the others are its arguments.
pub fn command_from_string(cmd: &str) -> (r: Result<CommandLine, McpError>)
    ensures
        match words(cmd@, seq![], None) {
            Err(fault) => r matches Err(error) && error@ == fault,
            Ok(parts) => if parts.len() == 0 {
                r matches Err(error) && error@ == Fault::<Seq<char>>::NoExecutable
            } else {
                r matches Ok(command) && command.program@ == parts[0] && crate::text::texts(
                    command.args@,
                ) == parts.skip(1)
            },
        },
{
    let mut parts: Vec<String> = match split_command(cmd) {
        Ok(parts) => parts,
        Err(error) => {
            return Err(error);
        },
    };
    if parts.len() == 0 {
        return Err(Fault::NoExecutable);
    }
    let ghost all = parts@;
    let program: String = parts.remove(0);
    assert(crate::text::texts(parts@) =~= crate::text::texts(all).skip(1));
    Ok(CommandLine { program, args: parts })
}

/// A character that stands for itself outside quotes.
pub open spec fn ordinary(c: char) -> bool {
    !crate::text::white_space(c) && c != '\'' && c != '"' && c != '\\'
}

/// The word with a backslash before each character.
pub open spec fn escaped(word: Seq<char>) -> Seq<char>
    decreases word.len(),
{
    if word.len() == 0 {
        seq![]
    } else {
        escaped(word.drop_last()) + seq!['\\', word.last()]
    }
}

/// The texts with a space between each and the next.
pub open spec fn spaced(texts: Seq<Seq<char>>) -> Seq<char>
    decreases texts.len(),
{
    if texts.len() == 0 {
        seq![]
    } else if texts.len() == 1 {
        texts[0]
    } else {
        texts[0] + seq![' '] + spaced(texts.skip(1))
    }
}

/// No word of a command line is empty.
pub proof fn law_no_word_is_empty(line: Seq<char>, word: Seq<char>, quote: Option<char>)
    ensures
        words(line, word, quote) matches Ok(parts) ==> forall|i: int|
            0 <= i < parts.len() ==> (#[trigger] parts[i]).len() > 0,
    decreases line.len(),
{
    if line.len() > 0 {
        let c = line[0];
        if quote is None && crate::text::white_space(c) {
            law_no_word_is_empty(line.skip(1), seq![], None);
        } else if quote is None && (c == '\'' || c == '"') {
            law_no_word_is_empty(line.skip(1), word, Some(c));
        } else if quote == Some(c) {
            law_no_word_is_empty(line.skip(1), word, None);
        } else if c != '\\' {
            law_no_word_is_empty(line.skip(1), word.push(c), quote);
        } else if line.len() > 1 {
            law_no_word_is_empty(line.skip(2), word.push(line[1]), quote);
        } else {
            law_no_word_is_empty(line.skip(1), word, quote);
        }
    }
}

/// Any program and arguments can be given on a command line, so long as none of them is empty:
/// with a backslash before each of their characters and a space between them, they come back.
pub proof fn law_escaped_words_come_back(parts: Seq<Seq<char>>)
    requires
        forall|i: int| 0 <= i < parts.len() ==> (#[trigger] parts[i]).len() > 0,
    ensures
        words(spaced(parts.map_values(|part: Seq<char>| escaped(part))), seq![], None) == Ok::<
            Seq<Seq<char>>,
            Fault<Seq<char>>,
        >(parts),
    decreases parts.len(),
{
    let spelled = parts.map_values(|part: Seq<char>| escaped(part));
    if parts.len() == 1 {
        lemma_escaped_is_gathered(parts[0], seq![], seq![]);
        assert(escaped(parts[0]) + seq![] =~= escaped(parts[0]));
        assert(seq![] + parts[0] =~= parts[0]);
        assert(seq![parts[0]] =~= parts);
    } else if parts.len() > 1 {
        let rest = parts.skip(1);
        assert(rest.map_values(|part: Seq<char>| escaped(part)) =~= spelled.skip(1));
        law_escaped_words_come_back(rest);
        let line = spaced(spelled.skip(1));
        lemma_escaped_is_gathered(parts[0], seq![' '] + line, seq![]);
        lemma_gathered_and_rest(escaped(parts[0]), parts[0], line, rest);
        assert(seq![parts[0]] + rest =~= parts);
    } else {
        assert(parts =~= seq![]);
    }
}

/// Words of ordinary characters need no quoting: with a space between them, they come back.
pub proof fn law_ordinary_words_come_back(parts: Seq<Seq<char>>)
    requires
        forall|i: int| 0 <= i < parts.len() ==> (#[trigger] parts[i]).len() > 0,
        forall|i: int, j: int|
            0 <= i < parts.len() && 0 <= j < parts[i].len() ==> ordinary(#[trigger] parts[i][j]),
    ensures
        words(spaced(parts), seq![], None) == Ok::<Seq<Seq<char>>, Fault<Seq<char>>>(parts),
    decreases parts.len(),
{
    if parts.len() == 1 {
        lemma_ordinary_is_gathered(parts[0], seq![], seq![]);
        assert(parts[0] + seq![] =~= parts[0]);
        assert(seq![] + parts[0] =~= parts[0]);
        assert(seq![parts[0]] =~= parts);
    } else if parts.len() > 1 {
        let rest = parts.skip(1);
        assert forall|i: int, j: int|
            0 <= i < rest.len() && 0 <= j < rest[i].len() implies ordinary(
            #[trigger] rest[i][j],
        ) by {
            assert(rest[i] == parts[i + 1]);
            assert(ordinary(parts[i + 1][j]));
        }
        law_ordinary_words_come_back(rest);
        lemma_ordinary_is_gathered(parts[0], seq![' '] + spaced(rest), seq![]);
        lemma_gathered_and_rest(parts[0], parts[0], spaced(rest), rest);
        assert(seq![parts[0]] + rest =~= parts);
    } else {
        assert(parts =~= seq![]);
    }
}

/// Text in quotes is one word, white space and all, so long as it holds neither that quote nor a
/// backslash.
pub proof fn law_quoted_text_is_one_word(quote: char, text: Seq<char>)
    requires
        quote == '\'' || quote == '"',
        text.len() > 0,
        forall|i: int| 0 <= i < text.len() ==> #[trigger] text[i] != quote && text[i] != '\\',
    ensures
        words(seq![quote] + text + seq![quote], seq![], None) == Ok::<
            Seq<Seq<char>>,
            Fault<Seq<char>>,
        >(seq![text]),
{
    let line = seq![quote] + text + seq![quote];
    assert(line.skip(1) =~= text + seq![quote]);
    assert(!crate::text::white_space(quote));
    assert(words(line, seq![], None) == words(text + seq![quote], seq![], Some(quote)));
    lemma_quoted_is_gathered(quote, text, seq![quote], seq![]);
    assert(seq![] + text =~= text);
    assert(seq![quote].skip(1) =~= seq![]);
    assert(words(seq![], text, None) == Ok::<Seq<Seq<char>>, Fault<Seq<char>>>(seq![text]));
}

/// What an escaped word spells is added to the word at hand.
proof fn lemma_escaped_is_gathered(part: Seq<char>, rest: Seq<char>, word: Seq<char>)
    ensures
        words(escaped(part) + rest, word, None) == words(rest, word + part, None),
    decreases part.len(),
{
    if part.len() == 0 {
        assert(escaped(part) + rest =~= rest);
        assert(word + part =~= word);
    } else {
        let front = part.drop_last();
        let pair = seq!['\\', part.last()];
        assert(escaped(part) + rest =~= escaped(front) + (pair + rest));
        lemma_escaped_is_gathered(front, pair + rest, word);
        assert((pair + rest).skip(2) =~= rest);
        assert((word + front).push(part.last()) =~= word + part);
    }
}

/// Ordinary characters are added to the word at hand.
proof fn lemma_ordinary_is_gathered(part: Seq<char>, rest: Seq<char>, word: Seq<char>)
    requires
        forall|j: int| 0 <= j < part.len() ==> ordinary(#[trigger] part[j]),
    ensures
        words(part + rest, word, None) == words(rest, word + part, None),
    decreases part.len(),
{
    if part.len() == 0 {
        assert(part + rest =~= rest);
        assert(word + part =~= word);
    } else {
        let front = part.drop_last();
        let last = seq![part.last()];
        assert forall|j: int| 0 <= j < front.len() implies ordinary(#[trigger] front[j]) by {
            assert(front[j] == part[j]);
        }
        assert(part + rest =~= front + (last + rest));
        lemma_ordinary_is_gathered(front, last + rest, word);
        assert(ordinary(part[part.len() - 1]));
        assert((last + rest).skip(1) =~= rest);
        assert((word + front).push(part.last()) =~= word + part);
    }
}

/// Within quotes, what is neither the quote nor a backslash is added to the word at hand.
proof fn lemma_quoted_is_gathered(
    quote: char,
    part: Seq<char>,
    rest: Seq<char>,
    word: Seq<char>,
)
    requires
        forall|i: int| 0 <= i < part.len() ==> #[trigger] part[i] != quote && part[i] != '\\',
    ensures
        words(part + rest, word, Some(quote)) == words(rest, word + part, Some(quote)),
    decreases part.len(),
{
    if part.len() == 0 {
        assert(part + rest =~= rest);
        assert(word + part =~= word);
    } else {
        let front = part.drop_last();
        let last = seq![part.last()];
        assert forall|i: int| 0 <= i < front.len() implies #[trigger] front[i] != quote && front[i]
            != '\\' by {
            assert(front[i] == part[i]);
        }
        assert(part + rest =~= front + (last + rest));
        lemma_quoted_is_gathered(quote, front, last + rest, word);
        assert(part[part.len() - 1] != quote);
        assert((last + rest).skip(1) =~= rest);
        assert((word + front).push(part.last()) =~= word + part);
    }
}

/// A word that has been gathered ends at the space behind it.
proof fn lemma_gathered_and_rest(
    spelled: Seq<char>,
    part: Seq<char>,
    line: Seq<char>,
    rest: Seq<Seq<char>>,
)
    requires
        words(spelled + (seq![' '] + line), seq![], None) == words(
            seq![' '] + line,
            seq![] + part,
            None,
        ),
        part.len() > 0,
        words(line, seq![], None) == Ok::<Seq<Seq<char>>, Fault<Seq<char>>>(rest),
    ensures
        words(spelled + seq![' '] + line, seq![], None) == Ok::<
            Seq<Seq<char>>,
            Fault<Seq<char>>,
        >(seq![part] + rest),
{
    assert(seq![] + part =~= part);
    assert(spelled + (seq![' '] + line) =~= spelled + seq![' '] + line);
    assert((seq![' '] + line).skip(1) =~= line);
    assert((seq![' '] + line)[0] == ' ');
}

/// Quoted text within a word is joined to it: what stands in quotes is added to the ordinary
/// characters before it, and those behind it are added to both.
pub proof fn law_quoted_text_joins_its_word(
    before: Seq<char>,
    quote: char,
    text: Seq<char>,
    after: Seq<char>,
)
    requires
        quote == '\'' || quote == '"',
        forall|i: int| 0 <= i < before.len() ==> ordinary(#[trigger] before[i]),
        forall|i: int| 0 <= i < text.len() ==> #[trigger] text[i] != quote && text[i] != '\\',
        forall|i: int| 0 <= i < after.len() ==> ordinary(#[trigger] after[i]),
        before.len() + text.len() + after.len() > 0,
    ensures
        words(before + seq![quote] + text + seq![quote] + after, seq![], None) == Ok::<
            Seq<Seq<char>>,
            Fault<Seq<char>>,
        >(seq![before + text + after]),
{
    let closing = seq![quote] + after;
    let opening = seq![quote] + (text + closing);
    assert(before + seq![quote] + text + seq![quote] + after =~= before + opening);
    lemma_ordinary_is_gathered(before, opening, seq![]);
    assert(!crate::text::white_space(quote));
    assert(opening[0] == quote);
    assert(opening.skip(1) =~= text + closing);
    lemma_quoted_is_gathered(quote, text, closing, seq![] + before);
    assert(closing[0] == quote);
    assert(closing.skip(1) =~= after);
    lemma_ordinary_is_gathered(after, seq![], seq![] + before + text);
    assert(after + seq![] =~= after);
    assert(seq![] + before + text + after =~= before + text + after);
}

/// A piece of a word as it is written on a command line.
pub enum Piece {
    /// An ordinary character.
    Plain(char),
    /// A character behind a backslash.
    Escaped(char),
    /// Characters in quotes; those that are marked stand behind a backslash.
    Quoted { quote: char, text: Seq<(char, bool)> },
}

/// The piece can be written: it does not hold what would be taken for something else.
pub open spec fn writable(piece: Piece) -> bool {
    match piece {
        Piece::Plain(c) => ordinary(c),
        Piece::Escaped(_) => true,
        Piece::Quoted { quote, text } => quotable(quote, text),
    }
}

/// The characters can stand in such quotes: each is marked, or is neither the quote nor a
/// backslash.
pub open spec fn quotable(quote: char, text: Seq<(char, bool)>) -> bool {
    &&& quote == '\'' || quote == '"'
    &&& forall|i: int|
        0 <= i < text.len() ==> (#[trigger] text[i]).1 || (text[i].0 != quote && text[i].0 != '\\')
}

/// How marked characters are written.
pub open spec fn marked_spelling(text: Seq<(char, bool)>) -> Seq<char>
    decreases text.len(),
{
    if text.len() == 0 {
        seq![]
    } else {
        (if text[0].1 {
            seq!['\\', text[0].0]
        } else {
            seq![text[0].0]
        }) + marked_spelling(text.skip(1))
    }
}

/// How a piece is written.
pub open spec fn piece_spelling(piece: Piece) -> Seq<char> {
    match piece {
        Piece::Plain(c) => seq![c],
        Piece::Escaped(c) => seq!['\\', c],
        Piece::Quoted { quote, text } => seq![quote] + marked_spelling(text) + seq![quote],
    }
}

/// What a piece adds to its word.
pub open spec fn piece_text(piece: Piece) -> Seq<char> {
    match piece {
        Piece::Plain(c) => seq![c],
        Piece::Escaped(c) => seq![c],
        Piece::Quoted { text, .. } => text.map_values(|mark: (char, bool)| mark.0),
    }
}

/// How a word is written.
pub open spec fn word_spelling(pieces: Seq<Piece>) -> Seq<char>
    decreases pieces.len(),
{
    if pieces.len() == 0 {
        seq![]
    } else {
        piece_spelling(pieces[0]) + word_spelling(pieces.skip(1))
    }
}

/// The word that the pieces make.
pub open spec fn word_text(pieces: Seq<Piece>) -> Seq<char>
    decreases pieces.len(),
{
    if pieces.len() == 0 {
        seq![]
    } else {
        piece_text(pieces[0]) + word_text(pieces.skip(1))
    }
}

/// How a line is written: words, each with the gap behind it.
pub open spec fn line_spelling(parts: Seq<(Seq<Piece>, Seq<char>)>) -> Seq<char>
    decreases parts.len(),
{
    if parts.len() == 0 {
        seq![]
    } else {
        word_spelling(parts[0].0) + parts[0].1 + line_spelling(parts.skip(1))
    }
}

/// The words of a line that are not empty.
pub open spec fn line_words(parts: Seq<(Seq<Piece>, Seq<char>)>) -> Seq<Seq<char>> {
    parts.map_values(|part: (Seq<Piece>, Seq<char>)| word_text(part.0)).filter(
        |word: Seq<char>| word.len() > 0,
    )
}

/// The line can be written: its pieces can, its gaps are white space, and there is a gap between
/// each word and the next.
pub open spec fn writable_line(parts: Seq<(Seq<Piece>, Seq<char>)>) -> bool {
    &&& forall|i: int, k: int|
        0 <= i < parts.len() && 0 <= k < parts[i].0.len() ==> writable(#[trigger] parts[i].0[k])
    &&& forall|i: int, k: int|
        0 <= i < parts.len() && 0 <= k < parts[i].1.len() ==> crate::text::white_space(
            #[trigger] parts[i].1[k],
        )
    &&& forall|i: int| 0 <= i < parts.len() - 1 ==> (#[trigger] parts[i]).1.len() > 0
}

/// A backslash with nothing behind it, or nothing.
pub open spec fn loose_end(dangling: bool) -> Seq<char> {
    if dangling {
        seq!['\\']
    } else {
        seq![]
    }
}

/// However a line is written, it is split into the words that it was written for: words of
/// ordinary, escaped and quoted characters in any mixture, with any white space before, between
/// and behind them. Empty words are left out, and so is a backslash at the very end.
pub proof fn law_written_line_is_split_into_its_words(
    input: &str,
    r: Result<Vec<String>, McpError>,
    lead: Seq<char>,
    parts: Seq<(Seq<Piece>, Seq<char>)>,
    dangling: bool,
)
    requires
        call_ensures(split_command, (input,), r),
        input@ == lead + line_spelling(parts) + loose_end(dangling),
        forall|i: int| 0 <= i < lead.len() ==> crate::text::white_space(#[trigger] lead[i]),
        writable_line(parts),
    ensures
        r matches Ok(split) && split@.map_values(|word: String| word@) == line_words(parts),
{
    let tail = loose_end(dangling);
    lemma_loose_end(dangling, seq![]);
    lemma_line(parts, dangling);
    let line = line_spelling(parts) + tail;
    assert(input@ =~= lead + line);
    if lead.len() > 0 {
        lemma_gap(lead, line, seq![]);
        assert(seq![] + line_words(parts) =~= line_words(parts));
    } else {
        assert(input@ =~= line);
    }
}

/// A quote that is not closed is reported, wherever it opens and whatever it encloses.
pub proof fn law_open_quote_is_reported(
    input: &str,
    r: Result<Vec<String>, McpError>,
    lead: Seq<char>,
    parts: Seq<(Seq<Piece>, Seq<char>)>,
    quote: char,
    text: Seq<(char, bool)>,
    dangling: bool,
)
    requires
        call_ensures(split_command, (input,), r),
        input@ == lead + line_spelling(parts) + (seq![quote] + marked_spelling(text) + loose_end(
            dangling,
        )),
        forall|i: int| 0 <= i < lead.len() ==> crate::text::white_space(#[trigger] lead[i]),
        writable_line(parts),
        quotable(quote, text),
    ensures
        r matches Err(Fault::OpenQuote(open)) && open == quote,
{
    let rest = seq![quote] + marked_spelling(text) + loose_end(dangling);
    let fault = Fault::<Seq<char>>::OpenQuote(quote);
    assert(!crate::text::white_space(quote));
    assert forall|word: Seq<char>| #[trigger] words(rest, word, None) == Err::<
        Seq<Seq<char>>,
        Fault<Seq<char>>,
    >(fault) by {
        let inner = marked_spelling(text) + loose_end(dangling);
        assert(rest.skip(1) =~= inner);
        assert(rest[0] == quote);
        lemma_marked_is_gathered(quote, text, loose_end(dangling), word);
        let gathered_text = word + text.map_values(|mark: (char, bool)| mark.0);
        if dangling {
            assert(seq!['\\'].skip(1) =~= seq![]);
            assert(seq!['\\'][0] == '\\');
            assert(words(seq!['\\'], gathered_text, Some(quote)) == words(
                seq![],
                gathered_text,
                Some(quote),
            ));
        }
    }
    lemma_fault_behind_line(parts, rest, fault);
    let line = line_spelling(parts) + rest;
    assert(input@ =~= lead + line);
    if lead.len() > 0 {
        lemma_gap(lead, line, seq![]);
    } else {
        assert(input@ =~= line);
    }
    assert(r is Err);
    assert(r->Err_0@ == fault);
}

/// The program is the first word of the line and the arguments are the others; without a word
/// there is no program, and a line that cannot be split is refused for the same reason.
pub proof fn law_command_is_the_split_line(
    cmd: &str,
    split: Result<Vec<String>, McpError>,
    r: Result<CommandLine, McpError>,
)
    requires
        call_ensures(split_command, (cmd,), split),
        call_ensures(command_from_string, (cmd,), r),
    ensures
        match split {
            Ok(parts) => if parts@.len() == 0 {
                r matches Err(Fault::NoExecutable)
            } else {
                r matches Ok(command) && command.program@ == parts@[0]@ && command.args@.len()
                    == parts@.len() - 1 && forall|i: int|
                    0 <= i < command.args@.len() ==> (#[trigger] command.args@[i])@ == parts@[i
                        + 1]@
            },
            Err(fault) => r matches Err(error) && error@ == fault@ && (fault matches Fault::OpenQuote(
                quote,
            ) ==> error == Fault::<String>::OpenQuote(quote)),
        },
{
    if let Ok(parts) = split {
        let all = crate::text::texts(parts@);
        assert(all.len() == parts@.len());
        if parts@.len() > 0 {
            let command = r->Ok_0;
            let args = crate::text::texts(command.args@);
            assert(args.len() == command.args@.len());
            assert(all[0] == parts@[0]@);
            assert forall|i: int| 0 <= i < command.args@.len() implies (
            #[trigger] command.args@[i])@ == parts@[i + 1]@ by {
                assert(args[i] == command.args@[i]@);
                assert(all.skip(1)[i] == all[i + 1]);
            }
        } else {
            assert(r is Err);
            assert(r->Err_0@ is NoExecutable);
        }
    } else {
        let fault = split->Err_0;
        assert(r->Err_0@ == fault@);
    }
}

/// A loose end adds nothing.
proof fn lemma_loose_end(dangling: bool, word: Seq<char>)
    ensures
        words(loose_end(dangling), word, None) == Ok::<Seq<Seq<char>>, Fault<Seq<char>>>(
            gathered(word),
        ),
{
    if dangling {
        assert(seq!['\\'].skip(1) =~= seq![]);
        assert(seq!['\\'][0] == '\\');
        assert(words(seq!['\\'], word, None) == words(seq![], word, None));
    }
}

/// Marked characters within quotes are added to the word at hand.
proof fn lemma_marked_is_gathered(
    quote: char,
    text: Seq<(char, bool)>,
    rest: Seq<char>,
    word: Seq<char>,
)
    requires
        quotable(quote, text),
    ensures
        words(marked_spelling(text) + rest, word, Some(quote)) == words(
            rest,
            word + text.map_values(|mark: (char, bool)| mark.0),
            Some(quote),
        ),
    decreases text.len(),
{
    let said = text.map_values(|mark: (char, bool)| mark.0);
    if text.len() == 0 {
        assert(marked_spelling(text) + rest =~= rest);
        assert(word + said =~= word);
    } else {
        let c = text[0].0;
        let more = text.skip(1);
        let line = marked_spelling(text) + rest;
        let next = marked_spelling(more) + rest;
        assert forall|i: int| 0 <= i < more.len() implies (#[trigger] more[i]).1 || (more[i].0
            != quote && more[i].0 != '\\') by {
            assert(more[i] == text[i + 1]);
        }
        lemma_marked_is_gathered(quote, more, rest, word.push(c));
        assert(word.push(c) + more.map_values(|mark: (char, bool)| mark.0) =~= word + said);
        if text[0].1 {
            assert(line =~= seq!['\\', c] + next);
            assert(line.skip(2) =~= next);
            assert(line[0] == '\\' && line[1] == c);
        } else {
            assert(line =~= seq![c] + next);
            assert(line.skip(1) =~= next);
            assert(line[0] == c);
        }
    }
}

/// A piece is added to the word at hand.
proof fn lemma_piece_is_gathered(piece: Piece, rest: Seq<char>, word: Seq<char>)
    requires
        writable(piece),
    ensures
        words(piece_spelling(piece) + rest, word, None) == words(
            rest,
            word + piece_text(piece),
            None,
        ),
{
    let line = piece_spelling(piece) + rest;
    match piece {
        Piece::Plain(c) => {
            assert(line.skip(1) =~= rest);
            assert(line[0] == c);
            assert(word.push(c) =~= word + seq![c]);
        },
        Piece::Escaped(c) => {
            assert(line.skip(2) =~= rest);
            assert(line[0] == '\\' && line[1] == c);
            assert(word.push(c) =~= word + seq![c]);
        },
        Piece::Quoted { quote, text } => {
            let closing = seq![quote] + rest;
            assert(line.skip(1) =~= marked_spelling(text) + closing);
            assert(line[0] == quote);
            assert(!crate::text::white_space(quote));
            lemma_marked_is_gathered(quote, text, closing, word);
            assert(closing[0] == quote);
            assert(closing.skip(1) =~= rest);
        },
    }
}

/// The pieces of a word are added to the word at hand.
proof fn lemma_word_is_gathered(pieces: Seq<Piece>, rest: Seq<char>, word: Seq<char>)
    requires
        forall|k: int| 0 <= k < pieces.len() ==> writable(#[trigger] pieces[k]),
    ensures
        words(word_spelling(pieces) + rest, word, None) == words(
            rest,
            word + word_text(pieces),
            None,
        ),
    decreases pieces.len(),
{
    if pieces.len() == 0 {
        assert(word_spelling(pieces) + rest =~= rest);
        assert(word + word_text(pieces) =~= word);
    } else {
        let more = pieces.skip(1);
        assert forall|k: int| 0 <= k < more.len() implies writable(#[trigger] more[k]) by {
            assert(more[k] == pieces[k + 1]);
        }
        assert(word_spelling(pieces) + rest =~= piece_spelling(pieces[0]) + (word_spelling(more)
            + rest));
        lemma_piece_is_gathered(pieces[0], word_spelling(more) + rest, word);
        lemma_word_is_gathered(more, rest, word + piece_text(pieces[0]));
        assert(word + piece_text(pieces[0]) + word_text(more) =~= word + word_text(pieces));
    }
}

/// A gap ends the word at hand.
proof fn lemma_gap(gap: Seq<char>, rest: Seq<char>, word: Seq<char>)
    requires
        gap.len() > 0,
        forall|k: int| 0 <= k < gap.len() ==> crate::text::white_space(#[trigger] gap[k]),
    ensures
        words(gap + rest, word, None) == before_rest(gathered(word), words(rest, seq![], None)),
    decreases gap.len(),
{
    let line = gap + rest;
    let more = gap.skip(1);
    assert(line[0] == gap[0]);
    assert(line.skip(1) =~= more + rest);
    if more.len() > 0 {
        assert forall|k: int| 0 <= k < more.len() implies crate::text::white_space(
            #[trigger] more[k],
        ) by {
            assert(more[k] == gap[k + 1]);
        }
        lemma_gap(more, rest, seq![]);
        if let Ok(parts) = words(rest, seq![], None) {
            assert(seq![] + parts =~= parts);
        }
    } else {
        assert(more + rest =~= rest);
    }
}

/// A line without its first word can still be written.
proof fn lemma_rest_is_writable(parts: Seq<(Seq<Piece>, Seq<char>)>)
    requires
        writable_line(parts),
        parts.len() > 0,
    ensures
        writable_line(parts.skip(1)),
        forall|k: int| 0 <= k < parts[0].0.len() ==> writable(#[trigger] parts[0].0[k]),
        forall|k: int|
            0 <= k < parts[0].1.len() ==> crate::text::white_space(#[trigger] parts[0].1[k]),
{
    let more = parts.skip(1);
    assert forall|i: int, k: int| 0 <= i < more.len() && 0 <= k < more[i].0.len() implies writable(
        #[trigger] more[i].0[k],
    ) by {
        assert(more[i] == parts[i + 1]);
        assert(writable(parts[i + 1].0[k]));
    }
    assert forall|i: int, k: int|
        0 <= i < more.len() && 0 <= k < more[i].1.len() implies crate::text::white_space(
        #[trigger] more[i].1[k],
    ) by {
        assert(more[i] == parts[i + 1]);
        assert(crate::text::white_space(parts[i + 1].1[k]));
    }
    assert forall|i: int| 0 <= i < more.len() - 1 implies (#[trigger] more[i]).1.len() > 0 by {
        assert(more[i] == parts[i + 1]);
    }
}

/// The words of a line are that of its first word, unless it is empty, and those of the others.
proof fn lemma_line_words(parts: Seq<(Seq<Piece>, Seq<char>)>)
    requires
        parts.len() > 0,
    ensures
        line_words(parts) == gathered(word_text(parts[0].0)) + line_words(parts.skip(1)),
{
    let texts = |some: Seq<(Seq<Piece>, Seq<char>)>|
        some.map_values(|part: (Seq<Piece>, Seq<char>)| word_text(part.0));
    let kept = |word: Seq<char>| word.len() > 0;
    let first = word_text(parts[0].0);
    let one = seq![first];
    assert(texts(parts) =~= one + texts(parts.skip(1)));
    Seq::filter_distributes_over_add(one, texts(parts.skip(1)), kept);
    reveal(Seq::filter);
    assert(one.drop_last() =~= seq![]);
    assert(one.drop_last().filter(kept) =~= seq![]);
    assert(one.filter(kept) =~= gathered(first));
}

/// A line is split into its words.
proof fn lemma_line(parts: Seq<(Seq<Piece>, Seq<char>)>, dangling: bool)
    requires
        writable_line(parts),
    ensures
        words(line_spelling(parts) + loose_end(dangling), seq![], None) == Ok::<
            Seq<Seq<char>>,
            Fault<Seq<char>>,
        >(line_words(parts)),
    decreases parts.len(),
{
    let tail = loose_end(dangling);
    if parts.len() == 0 {
        assert(line_spelling(parts) + tail =~= tail);
        lemma_loose_end(dangling, seq![]);
        reveal(Seq::filter);
        assert(line_words(parts) =~= seq![]);
    } else {
        let more = parts.skip(1);
        let first = word_text(parts[0].0);
        let gap = parts[0].1;
        let rest = line_spelling(more) + tail;
        lemma_rest_is_writable(parts);
        lemma_line(more, dangling);
        lemma_line_words(parts);
        assert(line_spelling(parts) + tail =~= word_spelling(parts[0].0) + (gap + rest));
        lemma_word_is_gathered(parts[0].0, gap + rest, seq![]);
        assert(seq![] + first =~= first);
        if gap.len() > 0 {
            lemma_gap(gap, rest, first);
        } else {
            assert(more.len() == 0);
            assert(gap + rest =~= tail);
            lemma_loose_end(dangling, first);
            reveal(Seq::filter);
            assert(line_words(more) =~= seq![]);
            assert(gathered(first) + line_words(more) =~= gathered(first));
        }
    }
}

/// What is wrong behind a line is wrong with the whole.
proof fn lemma_fault_behind_line(
    parts: Seq<(Seq<Piece>, Seq<char>)>,
    rest: Seq<char>,
    fault: Fault<Seq<char>>,
)
    requires
        writable_line(parts),
        forall|word: Seq<char>| #[trigger] words(rest, word, None) == Err::<
            Seq<Seq<char>>,
            Fault<Seq<char>>,
        >(fault),
    ensures
        words(line_spelling(parts) + rest, seq![], None) == Err::<Seq<Seq<char>>, Fault<Seq<char>>>(
            fault,
        ),
    decreases parts.len(),
{
    if parts.len() == 0 {
        assert(line_spelling(parts) + rest =~= rest);
    } else {
        let more = parts.skip(1);
        let gap = parts[0].1;
        let behind = line_spelling(more) + rest;
        lemma_rest_is_writable(parts);
        lemma_fault_behind_line(more, rest, fault);
        assert(line_spelling(parts) + rest =~= word_spelling(parts[0].0) + (gap + behind));
        lemma_word_is_gathered(parts[0].0, gap + behind, seq![]);
        if gap.len() > 0 {
            lemma_gap(gap, behind, seq![] + word_text(parts[0].0));
        } else {
            assert(more.len() == 0);
            assert(gap + behind =~= rest);
        }
    }
}

/// The line is written as white space and words, with at most a loose end behind them.
pub open spec fn written_closed(
    line: Seq<char>,
    lead: Seq<char>,
    parts: Seq<(Seq<Piece>, Seq<char>)>,
    dangling: bool,
) -> bool {
    &&& line == lead + line_spelling(parts) + loose_end(dangling)
    &&& forall|i: int| 0 <= i < lead.len() ==> crate::text::white_space(#[trigger] lead[i])
    &&& writable_line(parts)
}

/// The line is written as white space and words with an open quote behind them.
pub open spec fn written_open(
    line: Seq<char>,
    lead: Seq<char>,
    parts: Seq<(Seq<Piece>, Seq<char>)>,
    quote: char,
    text: Seq<(char, bool)>,
    dangling: bool,
) -> bool {
    &&& line == lead + line_spelling(parts) + (seq![quote] + marked_spelling(text) + loose_end(
        dangling,
    ))
    &&& forall|i: int| 0 <= i < lead.len() ==> crate::text::white_space(#[trigger] lead[i])
    &&& writable_line(parts)
    &&& quotable(quote, text)
}

/// Every command line is written in words: either it is white space and words of ordinary, escaped
/// and quoted characters, or there is an open quote behind these.
pub proof fn law_every_line_is_written_in_words(line: Seq<char>)
    ensures
        (exists|lead: Seq<char>, parts: Seq<(Seq<Piece>, Seq<char>)>, dangling: bool| #[trigger]
            written_closed(line, lead, parts, dangling)) || (exists|
            lead: Seq<char>,
            parts: Seq<(Seq<Piece>, Seq<char>)>,
            quote: char,
            text: Seq<(char, bool)>,
            dangling: bool,
        | #[trigger]
            written_open(line, lead, parts, quote, text, dangling)),
{
    let (lead, parts, end) = lemma_written(line);
    match end.quote {
        None => {
            assert(written_closed(line, lead, parts, end.dangling));
        },
        Some(quote) => {
            assert(written_open(line, lead, parts, quote, end.text, end.dangling));
        },
    }
}

/// What stands behind the words of a line.
pub struct LineEnd {
    pub quote: Option<char>,
    pub text: Seq<(char, bool)>,
    pub dangling: bool,
}

/// How the end of a line is written.
spec fn end_spelling(end: LineEnd) -> Seq<char> {
    match end.quote {
        None => loose_end(end.dangling),
        Some(quote) => seq![quote] + marked_spelling(end.text) + loose_end(end.dangling),
    }
}

/// Finds how a line is written.
proof fn lemma_written(line: Seq<char>) -> (form: (
    Seq<char>,
    Seq<(Seq<Piece>, Seq<char>)>,
    LineEnd,
))
    ensures
        line == form.0 + line_spelling(form.1) + end_spelling(form.2),
        forall|i: int| 0 <= i < form.0.len() ==> crate::text::white_space(#[trigger] form.0[i]),
        writable_line(form.1),
        form.2.quote matches Some(quote) ==> quotable(quote, form.2.text),
    decreases line.len(),
{
    let none: Seq<(Seq<Piece>, Seq<char>)> = seq![];
    assert(line_spelling(none) =~= seq![]);
    if line.len() == 0 {
        let end = LineEnd { quote: None, text: seq![], dangling: false };
        assert(line =~= seq![] + line_spelling(none) + end_spelling(end));
        (seq![], none, end)
    } else {
        let c = line[0];
        if crate::text::white_space(c) {
            let (lead, parts, end) = lemma_written(line.skip(1));
            let longer = seq![c] + lead;
            assert(line =~= seq![c] + line.skip(1));
            assert(line =~= longer + line_spelling(parts) + end_spelling(end));
            (longer, parts, end)
        } else if c == '\\' {
            if line.len() == 1 {
                let end = LineEnd { quote: None, text: seq![], dangling: true };
                assert(line =~= seq![] + line_spelling(none) + end_spelling(end));
                (seq![], none, end)
            } else {
                let (lead, parts, end) = lemma_written(line.skip(2));
                assert(line =~= seq!['\\', line[1]] + line.skip(2));
                lemma_with_piece(Piece::Escaped(line[1]), line.skip(2), line, lead, parts, end)
            }
        } else if c == '"' || c == '\'' {
            let (text, tail) = lemma_quoted_part(c, line.skip(1));
            assert(line =~= seq![c] + line.skip(1));
            if tail.len() > 0 && tail[0] == c {
                let (lead, parts, end) = lemma_written(tail.skip(1));
                assert(tail =~= seq![c] + tail.skip(1));
                assert(line =~= piece_spelling(Piece::Quoted { quote: c, text }) + tail.skip(1));
                lemma_with_piece(
                    Piece::Quoted { quote: c, text },
                    tail.skip(1),
                    line,
                    lead,
                    parts,
                    end,
                )
            } else {
                let end = LineEnd { quote: Some(c), text, dangling: tail.len() > 0 };
                assert(line =~= seq![] + line_spelling(none) + end_spelling(end));
                (seq![], none, end)
            }
        } else {
            let (lead, parts, end) = lemma_written(line.skip(1));
            assert(line =~= seq![c] + line.skip(1));
            lemma_with_piece(Piece::Plain(c), line.skip(1), line, lead, parts, end)
        }
    }
}

/// Finds how a line is written that has one more piece in front.
proof fn lemma_with_piece(
    piece: Piece,
    rest: Seq<char>,
    line: Seq<char>,
    lead: Seq<char>,
    parts: Seq<(Seq<Piece>, Seq<char>)>,
    end: LineEnd,
) -> (form: (Seq<char>, Seq<(Seq<Piece>, Seq<char>)>, LineEnd))
    requires
        writable(piece),
        rest == lead + line_spelling(parts) + end_spelling(end),
        line == piece_spelling(piece) + rest,
        forall|i: int| 0 <= i < lead.len() ==> crate::text::white_space(#[trigger] lead[i]),
        writable_line(parts),
    ensures
        line == form.0 + line_spelling(form.1) + end_spelling(form.2),
        form.0.len() == 0,
        writable_line(form.1),
        form.2 == end,
{
    let one = seq![piece];
    if lead.len() > 0 || parts.len() == 0 {
        let more = seq![(one, lead)] + parts;
        assert(more.skip(1) =~= parts);
        assert(one.skip(1) =~= seq![]);
        assert(word_spelling(one.skip(1)) =~= seq![]);
        assert(word_spelling(one) =~= piece_spelling(piece));
        assert forall|i: int, k: int|
            0 <= i < more.len() && 0 <= k < more[i].0.len() implies writable(
            #[trigger] more[i].0[k],
        ) by {
            if i > 0 {
                assert(more[i] == parts[i - 1]);
                assert(writable(parts[i - 1].0[k]));
            }
        }
        assert forall|i: int, k: int|
            0 <= i < more.len() && 0 <= k < more[i].1.len() implies crate::text::white_space(
            #[trigger] more[i].1[k],
        ) by {
            if i > 0 {
                assert(more[i] == parts[i - 1]);
                assert(crate::text::white_space(parts[i - 1].1[k]));
            } else {
                assert(crate::text::white_space(lead[k]));
            }
        }
        assert forall|i: int| 0 <= i < more.len() - 1 implies (#[trigger] more[i]).1.len() > 0 by {
            if i > 0 {
                assert(more[i] == parts[i - 1]);
            }
        }
        assert(line =~= seq![] + line_spelling(more) + end_spelling(end));
        (seq![], more, end)
    } else {
        let first = (one + parts[0].0, parts[0].1);
        let more = seq![first] + parts.skip(1);
        assert(more.skip(1) =~= parts.skip(1));
        assert(first.0.skip(1) =~= parts[0].0);
        assert(first.0[0] == piece);
        assert forall|i: int, k: int|
            0 <= i < more.len() && 0 <= k < more[i].0.len() implies writable(
            #[trigger] more[i].0[k],
        ) by {
            if i > 0 {
                assert(more[i] == parts[i]);
                assert(writable(parts[i].0[k]));
            } else if k > 0 {
                assert(writable(parts[0].0[k - 1]));
            }
        }
        assert forall|i: int, k: int|
            0 <= i < more.len() && 0 <= k < more[i].1.len() implies crate::text::white_space(
            #[trigger] more[i].1[k],
        ) by {
            assert(more[i].1 == parts[i].1);
            assert(crate::text::white_space(parts[i].1[k]));
        }
        assert forall|i: int| 0 <= i < more.len() - 1 implies (#[trigger] more[i]).1.len() > 0 by {
            assert(more[i].1 == parts[i].1);
            assert(parts[i].1.len() > 0);
        }
        assert(line =~= seq![] + line_spelling(more) + end_spelling(end));
        (seq![], more, end)
    }
}

/// Finds the characters in front that stand in quotes, up to the closing quote or a loose end.
proof fn lemma_quoted_part(quote: char, line: Seq<char>) -> (part: (Seq<(char, bool)>, Seq<char>))
    requires
        quote == '\'' || quote == '"',
    ensures
        line == marked_spelling(part.0) + part.1,
        quotable(quote, part.0),
        part.1.len() <= line.len(),
        (part.1.len() > 0 && part.1[0] == quote) || part.1 == loose_end(false) || part.1
            == loose_end(true),
    decreases line.len(),
{
    let none: Seq<(char, bool)> = seq![];
    assert(marked_spelling(none) =~= seq![]);
    assert(marked_spelling(none) + line =~= line);
    if line.len() == 0 {
        assert(line =~= loose_end(false));
        (none, line)
    } else if line[0] == quote {
        (none, line)
    } else if line[0] == '\\' && line.len() == 1 {
        assert(line =~= loose_end(true));
        (none, line)
    } else {
        let escaped = line[0] == '\\';
        let (mark, rest) = if escaped {
            ((line[1], true), line.skip(2))
        } else {
            ((line[0], false), line.skip(1))
        };
        let (text, tail) = lemma_quoted_part(quote, rest);
        let longer = seq![mark] + text;
        assert(longer.skip(1) =~= text);
        assert(longer[0] == mark);
        assert forall|i: int| 0 <= i < longer.len() implies (#[trigger] longer[i]).1 || (
        longer[i].0 != quote && longer[i].0 != '\\') by {
            if i > 0 {
                assert(longer[i] == text[i - 1]);
            }
        }
        if escaped {
            assert(line =~= seq!['\\', line[1]] + rest);
            assert(marked_spelling(longer) == seq!['\\', line[1]] + marked_spelling(text));
        } else {
            assert(line =~= seq![line[0]] + rest);
            assert(marked_spelling(longer) == seq![line[0]] + marked_spelling(text));
        }
        assert(line =~= marked_spelling(longer) + tail);
        (longer, tail)
    }
}

} // verus!
