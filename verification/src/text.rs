use crate::types::Token;
use vstd::prelude::*;
use vstd::slice::slice_subrange;

verus! {

/// Whether `c` is white space as Unicode defines it.
pub open spec fn is_whitespace(c: char) -> bool {
    let code = c as u32;
    ||| 0x09 <= code <= 0x0D
    ||| code == 0x20
    ||| code == 0x85
    ||| code == 0xA0
    ||| code == 0x1680
    ||| 0x2000 <= code <= 0x200A
    ||| code == 0x2028
    ||| code == 0x2029
    ||| code == 0x202F
    ||| code == 0x205F
    ||| code == 0x3000
}

/// The texts of a row of tokens.
pub open spec fn texts(tokens: Seq<Token>) -> Seq<Seq<char>> {
    tokens.map_values(|token: Token| token@)
}

/// The place of the first `mark` at or behind `from`, or the end of `s`
/// where none follows.
pub open spec fn mark_at(s: Seq<char>, mark: char, from: int) -> int
    decreases s.len() - from,
{
    if 0 <= from < s.len() && s[from] != mark {
        mark_at(s, mark, from + 1)
    } else {
        from
    }
}

/// The pieces of `s` behind `from` that lie between two `mark`s, or between
/// one and an end of the text. A text without `mark` is one piece.
pub open spec fn split_from(s: Seq<char>, mark: char, from: int) -> Seq<Seq<char>>
    decreases s.len() - from,
{
    let end = mark_at(s, mark, from);
    if 0 <= from <= end < s.len() {
        seq![s.subrange(from, end)] + split_from(s, mark, end + 1)
    } else {
        seq![s.subrange(from, s.len() as int)]
    }
}

/// The pieces of `s` between its `mark`s.
pub open spec fn split(s: Seq<char>, mark: char) -> Seq<Seq<char>> {
    split_from(s, mark, 0)
}

/// The end of the run of white space that begins at `from`.
pub open spec fn blank_end(s: Seq<char>, from: int) -> int
    decreases s.len() - from,
{
    if 0 <= from < s.len() && is_whitespace(s[from]) {
        blank_end(s, from + 1)
    } else {
        from
    }
}

/// The end of the run of other characters that begins at `from`.
pub open spec fn word_end(s: Seq<char>, from: int) -> int
    decreases s.len() - from,
{
    if 0 <= from < s.len() && !is_whitespace(s[from]) {
        word_end(s, from + 1)
    } else {
        from
    }
}

/// The words of `s` behind `from`: its longest runs without white space.
pub open spec fn words_from(s: Seq<char>, from: int) -> Seq<Seq<char>>
    decreases s.len() - from,
{
    let start = blank_end(s, from);
    let end = word_end(s, start);
    if 0 <= from <= start < end <= s.len() {
        seq![s.subrange(start, end)] + words_from(s, end)
    } else {
        Seq::empty()
    }
}

/// The words of `s`.
pub open spec fn words(s: Seq<char>) -> Seq<Seq<char>> {
    words_from(s, 0)
}

/// Whether `word` is a word: not empty, and without white space.
pub open spec fn is_word(word: Seq<char>) -> bool {
    word.len() > 0 && forall|k: int| 0 <= k < word.len() ==> !is_whitespace(#[trigger] word[k])
}

/// A run of other characters holds no white space, and ends at white space
/// or at the end of the text.
pub proof fn lemma_word_end(s: Seq<char>, from: int)
    requires
        0 <= from <= s.len(),
    ensures
        from <= word_end(s, from) <= s.len(),
        forall|k: int| from <= k < word_end(s, from) ==> !is_whitespace(#[trigger] s[k]),
        word_end(s, from) < s.len() ==> is_whitespace(s[word_end(s, from)]),
    decreases s.len() - from,
{
    if from < s.len() && !is_whitespace(s[from]) {
        lemma_word_end(s, from + 1);
    }
}

/// A run of white space holds nothing else, and ends at another character
/// or at the end of the text.
pub proof fn lemma_blank_end(s: Seq<char>, from: int)
    requires
        0 <= from <= s.len(),
    ensures
        from <= blank_end(s, from) <= s.len(),
        forall|k: int| from <= k < blank_end(s, from) ==> is_whitespace(#[trigger] s[k]),
        blank_end(s, from) < s.len() ==> !is_whitespace(s[blank_end(s, from)]),
    decreases s.len() - from,
{
    if from < s.len() && is_whitespace(s[from]) {
        lemma_blank_end(s, from + 1);
    }
}

/// Each of the words of a text is a word, and a text of white space has none.
pub proof fn lemma_words_are_words(s: Seq<char>, from: int)
    requires
        0 <= from <= s.len(),
    ensures
        forall|i: int| 0 <= i < words_from(s, from).len() ==> is_word(#[trigger] words_from(s, from)[i]),
        (forall|k: int| from <= k < s.len() ==> is_whitespace(#[trigger] s[k])) <==> words_from(
            s,
            from,
        ).len() == 0,
    decreases s.len() - from,
{
    let start = blank_end(s, from);
    let end = word_end(s, start);
    lemma_blank_end(s, from);
    lemma_word_end(s, start);
    if start < end {
        lemma_words_are_words(s, end);
        let word = s.subrange(start, end);
        assert(is_word(word)) by {
            assert forall|k: int| 0 <= k < word.len() implies !is_whitespace(#[trigger] word[k]) by {
                assert(word[k] == s[start + k]);
            }
        }
        assert forall|i: int| 0 <= i < words_from(s, from).len() implies is_word(
            #[trigger] words_from(s, from)[i],
        ) by {
            if i > 0 {
                assert(words_from(s, from)[i] == words_from(s, end)[i - 1]);
            }
        }
        assert(!is_whitespace(s[start]));
    }
}

/// No piece of a split text holds the mark, and there is always a piece.
pub proof fn lemma_pieces_hold_no_mark(s: Seq<char>, mark: char, from: int)
    requires
        0 <= from <= s.len(),
    ensures
        split_from(s, mark, from).len() > 0,
        forall|i: int, k: int|
            0 <= i < split_from(s, mark, from).len() && 0 <= k < split_from(s, mark, from)[i].len()
                ==> (#[trigger] split_from(s, mark, from)[i][k]) != mark,
    decreases s.len() - from,
{
    let end = mark_at(s, mark, from);
    lemma_mark_at(s, mark, from);
    let piece = s.subrange(from, end);
    assert forall|k: int| 0 <= k < piece.len() implies piece[k] != mark by {
        assert(piece[k] == s[from + k]);
    }
    if end < s.len() {
        lemma_pieces_hold_no_mark(s, mark, end + 1);
        assert forall|i: int, k: int|
            0 <= i < split_from(s, mark, from).len() && 0 <= k < split_from(
                s,
                mark,
                from,
            )[i].len() implies (#[trigger] split_from(s, mark, from)[i][k]) != mark by {
            if i > 0 {
                assert(split_from(s, mark, from)[i] == split_from(s, mark, end + 1)[i - 1]);
            }
        }
    }
}

/// The mark that `mark_at` finds is the first behind `from`.
pub proof fn lemma_mark_at(s: Seq<char>, mark: char, from: int)
    requires
        0 <= from <= s.len(),
    ensures
        from <= mark_at(s, mark, from) <= s.len(),
        forall|k: int| from <= k < mark_at(s, mark, from) ==> (#[trigger] s[k]) != mark,
        mark_at(s, mark, from) < s.len() ==> s[mark_at(s, mark, from)] == mark,
    decreases s.len() - from,
{
    if from < s.len() && s[from] != mark {
        lemma_mark_at(s, mark, from + 1);
    }
}

/// Whether `c` is white space.
pub fn whitespace(c: char) -> (r: bool)
    ensures
        r == is_whitespace(c),
{
    let code: u32 = c as u32;
    (0x09 <= code && code <= 0x0D) || code == 0x20 || code == 0x85 || code == 0xA0 || code
        == 0x1680 || (0x2000 <= code && code <= 0x200A) || code == 0x2028 || code == 0x2029
        || code == 0x202F || code == 0x205F || code == 0x3000
}

/// Cuts `text` at every `mark`. The marks themselves belong to no piece.
pub fn split_at_mark<'a>(text: &'a [char], mark: char) -> (pieces: Vec<Token<'a>>)
    ensures
        texts(pieces@) == split(text@, mark),
{
    let mut pieces: Vec<Token<'a>> = Vec::new();
    let mut from: usize = 0;
    loop
        invariant_except_break
            from <= text@.len(),
            texts(pieces@) + split_from(text@, mark, from as int) == split(text@, mark),
        ensures
            texts(pieces@) == split(text@, mark),
        decreases text@.len() - from,
    {
        let mut end: usize = from;
        while end < text.len() && text[end] != mark
            invariant
                from <= end <= text@.len(),
                mark_at(text@, mark, end as int) == mark_at(text@, mark, from as int),
            decreases text@.len() - end,
        {
            end += 1;
        }
        let piece = slice_subrange(text, from, end);
        let ghost before = pieces@;
        pieces.push(piece);
        proof {
            assert(texts(pieces@) =~= texts(before) + seq![piece@]);
        }
        if end == text.len() {
            proof {
                assert(texts(before) + seq![piece@] =~= texts(before) + split_from(
                    text@,
                    mark,
                    from as int,
                ));
            }
            break;
        }
        proof {
            assert(texts(before) + (seq![piece@] + split_from(text@, mark, end + 1)) =~= texts(
                pieces@,
            ) + split_from(text@, mark, end + 1));
        }
        from = end + 1;
    }
    pieces
}

/// Cuts `line` into its words, which white space of any length separates.
pub fn split_words<'a>(line: &'a [char]) -> (tokens: Vec<Token<'a>>)
    ensures
        texts(tokens@) == words(line@),
{
    let mut tokens: Vec<Token<'a>> = Vec::new();
    let mut from: usize = 0;
    loop
        invariant_except_break
            from <= line@.len(),
            texts(tokens@) + words_from(line@, from as int) == words(line@),
        ensures
            texts(tokens@) == words(line@),
        decreases line@.len() - from,
    {
        let mut start: usize = from;
        while start < line.len() && whitespace(line[start])
            invariant
                from <= start <= line@.len(),
                blank_end(line@, start as int) == blank_end(line@, from as int),
            decreases line@.len() - start,
        {
            start += 1;
        }
        let mut end: usize = start;
        while end < line.len() && !whitespace(line[end])
            invariant
                start <= end <= line@.len(),
                word_end(line@, end as int) == word_end(line@, start as int),
            decreases line@.len() - end,
        {
            end += 1;
        }
        if start == end {
            proof {
                assert(texts(tokens@) + Seq::<Seq<char>>::empty() =~= texts(tokens@));
            }
            break;
        }
        let token = slice_subrange(line, start, end);
        let ghost before = tokens@;
        tokens.push(token);
        proof {
            assert(texts(tokens@) =~= texts(before) + seq![token@]);
            assert(texts(before) + (seq![token@] + words_from(line@, end as int)) =~= texts(
                tokens@,
            ) + words_from(line@, end as int));
        }
        from = end;
    }
    tokens
}

/// The text that `str::to_lowercase` makes of `text`.
pub uninterp spec fn lowercased(text: Seq<char>) -> Seq<char>;

/// `str::to_lowercase` of the standard library: the text with every
/// character in lower case, as Unicode maps it. The contract gives the
/// result its name and claims nothing else of it.
#[verifier::external_body]
fn to_lowercase(input: &str) -> (lowered: String)
    ensures
        lowered@ == lowercased(input@),
{
    input.to_lowercase()
}

/// The characters of `s`, one by one.
pub fn chars_of(s: &str) -> (chars: Vec<char>)
    ensures
        chars@ == s@,
{
    let mut chars: Vec<char> = Vec::new();
    for c in it: s.chars()
        invariant
            it.seq() == s@,
            chars@ == it.seq().take(it.index() as int),
    {
        chars.push(c);
    }
    chars
}

/// The characters of `input` in lower case.
pub fn lowercase(input: &str) -> (text: Vec<char>)
    ensures
        text@ == lowercased(input@),
{
    let lowered = to_lowercase(input);
    chars_of(lowered.as_str())
}

} // verus!
