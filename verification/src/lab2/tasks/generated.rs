use super::html::{available_tags, document_spec, doc_counts, first_bad_choice, count_pieces, split_on, tag_of_piece, str_to_lowercase};
use super::tag_counts::add_one_spec;
use crate::text::{
    first_satisfying, first_satisfying_or_len, first_word, is_char, is_white_space,
    lemma_first_satisfying, lemma_first_satisfying_bounds, trim_start_spec, without_char,
};
use vstd::prelude::*;

verus! {

/// `s` holds no `c`.
pub open spec fn lacks(s: Seq<char>, c: char) -> bool {
    forall|i: int| 0 <= i < s.len() ==> s[i] != c
}

/// Splitting text joined by a separator splits each side.
pub proof fn lemma_split_concat(x: Seq<char>, y: Seq<char>, sep: char)
    ensures
        split_on(x + seq![sep] + y, sep) == split_on(x, sep) + split_on(y, sep),
    decreases x.len(),
{
    let s = x + seq![sep] + y;
    lemma_first_satisfying_bounds(x, is_char(sep));
    let k = first_satisfying_or_len(x, is_char(sep));
    assert forall|i: int| 0 <= i < k implies !is_char(sep)(#[trigger] s[i]) by {
        assert(s[i] == x[i]);
    }
    if k == x.len() {
        assert(s[k] == sep);
        lemma_first_satisfying(s, is_char(sep), k);
        lemma_first_satisfying(x, is_char(sep), k);
        assert(s.take(k) =~= x);
        assert(s.skip(k + 1) =~= y);
    } else {
        assert(s[k] == x[k]);
        lemma_first_satisfying(s, is_char(sep), k);
        lemma_first_satisfying(x, is_char(sep), k);
        assert(s.take(k) =~= x.take(k));
        assert(s.skip(k + 1) =~= x.skip(k + 1) + seq![sep] + y);
        lemma_split_concat(x.skip(k + 1), y, sep);
    }
}

/// Text without the separator is one piece.
pub proof fn lemma_split_single(x: Seq<char>, sep: char)
    requires
        lacks(x, sep),
    ensures
        split_on(x, sep) == seq![x],
{
    assert forall|i: int| 0 <= i < x.len() implies !is_char(sep)(#[trigger] x[i]) by {}
    lemma_first_satisfying(x, is_char(sep), x.len() as int);
}

/// A character of a tag name: a lower-case ASCII letter or a digit.
pub open spec fn is_plain_char(c: char) -> bool {
    ('a' <= c <= 'z') || ('0' <= c <= '9')
}

/// A non-empty tag name of plain characters.
pub open spec fn plain(t: Seq<char>) -> bool {
    t.len() > 0 && forall|i: int| 0 <= i < t.len() ==> is_plain_char(#[trigger] t[i])
}

/// The tags of generated documents are plain.
proof fn lemma_available_tags_plain(i: int)
    requires
        0 <= i < available_tags().len(),
    ensures
        plain(available_tags()[i]),
{
    reveal_strlit("html");
    reveal_strlit("head");
    reveal_strlit("body");
    reveal_strlit("div");
    reveal_strlit("span");
    reveal_strlit("p");
    reveal_strlit("a");
    reveal_strlit("h1");
    reveal_strlit("img");
}

/// Text without white space, that starts with no white space, is its own first word.
proof fn lemma_first_word_whole(s: Seq<char>)
    requires
        s.len() > 0,
        forall|i: int| 0 <= i < s.len() ==> !is_white_space(#[trigger] s[i]),
    ensures
        first_word(s) == s,
{
    lemma_first_satisfying(s, |c: char| !is_white_space(c), 0);
    assert(trim_start_spec(s) =~= s);
    lemma_first_satisfying(s, |c: char| is_white_space(c), s.len() as int);
    assert(s.take(s.len() as int) =~= s);
}

/// Removing a character from joined text removes it from each side.
proof fn lemma_without_concat(a: Seq<char>, b: Seq<char>, c: char)
    ensures
        without_char(a + b, c) == without_char(a, c) + without_char(b, c),
    decreases b.len(),
{
    if b.len() == 0 {
        assert(a + b =~= a);
        assert(without_char(a, c) + without_char(b, c) =~= without_char(a, c));
    } else {
        lemma_without_concat(a, b.drop_last(), c);
        assert((a + b).drop_last() =~= a + b.drop_last());
        if b.last() != c {
            assert(without_char(a, c) + without_char(b.drop_last(), c).push(b.last()) =~= (
            without_char(a, c) + without_char(b.drop_last(), c)).push(b.last()));
        }
    }
}

/// Text without the character stays as it is.
proof fn lemma_without_absent(s: Seq<char>, c: char)
    requires
        lacks(s, c),
    ensures
        without_char(s, c) == s,
    decreases s.len(),
{
    if s.len() > 0 {
        lemma_without_absent(s.drop_last(), c);
        assert(s.drop_last().push(s.last()) =~= s);
    }
}

/// What follows the `<` that opens a tag: the name, `>` and the text.
pub open spec fn opening_piece(t: Seq<char>) -> Seq<char> {
    t + ">random text"@
}

/// What follows the `<` that closes a tag: `/`, the name, `>` and a space.
pub open spec fn closing_piece(t: Seq<char>) -> Seq<char> {
    "/"@ + t + "> "@
}

/// Both pieces of a plain tag read back as its name, in lower case.
proof fn lemma_piece_tags(t: Seq<char>)
    requires
        plain(t),
    ensures
        tag_of_piece(opening_piece(t)) == str_to_lowercase(t),
        tag_of_piece(closing_piece(t)) == str_to_lowercase(t),
        lacks(opening_piece(t), '<'),
        lacks(closing_piece(t), '<'),
{
    reveal_strlit(">random text");
    reveal_strlit("random text");
    reveal_strlit("/");
    reveal_strlit("> ");
    let a = opening_piece(t);
    assert(a =~= t + seq!['>'] + "random text"@);
    lemma_split_concat(t, "random text"@, '>');
    lemma_split_single(t, '>');
    assert(split_on(a, '>')[0] == t);
    lemma_first_word_whole(t);
    lemma_without_absent(t, '/');
    let slash_t = seq!['/'] + t;
    let b = closing_piece(t);
    assert(b =~= slash_t + seq!['>'] + seq![' ']);
    lemma_split_concat(slash_t, seq![' '], '>');
    lemma_split_single(slash_t, '>');
    assert(split_on(b, '>')[0] == slash_t);
    lemma_first_word_whole(slash_t);
    lemma_without_concat(seq!['/'], t, '/');
    assert(without_char(seq!['/'], '/') =~= Seq::<char>::empty()) by {
        assert(seq!['/'].drop_last() =~= Seq::<char>::empty());
        assert(without_char(Seq::<char>::empty(), '/') == Seq::<char>::empty());
    }
    assert(Seq::<char>::empty() + t =~= t);
}

/// The pieces after each `<` of a generated document: for each choice, the opening and the
/// closing piece of its tag.
pub open spec fn document_pieces(choices: Seq<usize>) -> Seq<Seq<char>>
    decreases choices.len(),
{
    if choices.len() == 0 {
        Seq::empty()
    } else {
        let t = available_tags()[choices.last() as int];
        document_pieces(choices.drop_last()) + seq![opening_piece(t), closing_piece(t)]
    }
}

/// The tally of a generated document: each chosen tag twice, under its lower-case name.
pub open spec fn generated_tally(choices: Seq<usize>) -> Map<Seq<char>, nat>
    decreases choices.len(),
{
    if choices.len() == 0 {
        Map::empty()
    } else {
        let m = generated_tally(choices.drop_last());
        let name = str_to_lowercase(available_tags()[choices.last() as int]);
        if name.len() == 0 {
            m
        } else {
            add_one_spec(add_one_spec(m, name), name)
        }
    }
}

/// A generated document splits at each `<` into an empty first piece and its tag pieces.
proof fn lemma_document_split(choices: Seq<usize>)
    requires
        first_bad_choice(choices) is None,
    ensures
        split_on(document_spec(choices), '<') == seq![Seq::<char>::empty()] + document_pieces(choices),
    decreases choices.len(),
{
    if choices.len() == 0 {
        assert(first_satisfying(Seq::<char>::empty(), is_char('<')) is None);
        assert(seq![Seq::<char>::empty()] + document_pieces(choices) =~= seq![Seq::<char>::empty()]);
    } else {
        let rest = choices.drop_last();
        assert(first_bad_choice(rest) is None);
        lemma_document_split(rest);
        let index = choices.last() as int;
        let t = available_tags()[index];
        lemma_available_tags_plain(index);
        lemma_piece_tags(t);
        reveal_strlit("<");
        reveal_strlit(">random text</");
        reveal_strlit(">random text");
        reveal_strlit("/");
        reveal_strlit("> ");
        let opening = opening_piece(t);
        let closing = closing_piece(t);
        let before = document_spec(rest);
        assert(document_spec(choices) =~= before + seq!['<'] + (opening + seq!['<'] + closing));
        lemma_split_concat(before, opening + seq!['<'] + closing, '<');
        lemma_split_concat(opening, closing, '<');
        lemma_split_single(opening, '<');
        lemma_split_single(closing, '<');
        assert(seq![Seq::<char>::empty()] + document_pieces(choices) =~= seq![Seq::<char>::empty()]
            + document_pieces(rest) + seq![opening] + seq![closing]);
    }
}

/// Counting the tag pieces of a generated document gives its tally.
proof fn lemma_count_document_pieces(choices: Seq<usize>)
    requires
        first_bad_choice(choices) is None,
    ensures
        count_pieces(document_pieces(choices)) == generated_tally(choices),
    decreases choices.len(),
{
    if choices.len() > 0 {
        let rest = choices.drop_last();
        assert(first_bad_choice(rest) is None);
        lemma_count_document_pieces(rest);
        let index = choices.last() as int;
        let t = available_tags()[index];
        lemma_available_tags_plain(index);
        lemma_piece_tags(t);
        let pieces = document_pieces(choices);
        let with_opening = document_pieces(rest).push(opening_piece(t));
        assert(pieces.drop_last() =~= with_opening);
        assert(with_opening.drop_last() =~= document_pieces(rest));
        assert(pieces.last() == closing_piece(t));
        assert(with_opening.last() == opening_piece(t));
        let name = str_to_lowercase(t);
        let base = count_pieces(document_pieces(rest));
        assert(count_pieces(with_opening) == (if name.len() == 0 {
            base
        } else {
            add_one_spec(base, name)
        }));
        assert(count_pieces(pieces) == (if name.len() == 0 {
            count_pieces(with_opening)
        } else {
            add_one_spec(count_pieces(with_opening), name)
        }));
    }
}

/// Counting the tags of a generated document gives each chosen tag twice, under its lower-case
/// name: the tally that the generation promises.
pub proof fn lemma_generated_document_tags(choices: Seq<usize>)
    requires
        first_bad_choice(choices) is None,
    ensures
        doc_counts(document_spec(choices)) == generated_tally(choices),
{
    lemma_document_split(choices);
    lemma_count_document_pieces(choices);
    assert((seq![Seq::<char>::empty()] + document_pieces(choices)).drop_first() =~= document_pieces(
        choices,
    ));
}

} // verus!
