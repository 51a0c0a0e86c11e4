use super::tag_counts::{
    add_one_spec, count_of, lemma_merge_associative, lemma_merge_identity, merge_spec, TagCounts,
};
use crate::text::{
    chars_of, find_char, is_char, lemma_first_satisfying_bounds, find_space, first_satisfying, first_satisfying_or_len, first_word,
    lemma_first_satisfying, push_char, trim_start_spec, without_char,
};
use crate::lab2::task::benchmark::BenchmarkKind;
use crate::lab2::task::executable::RunMode;
use crate::lab2::tasks::TaskLogicError;
use crate::parallel::join;
use rayon::iter::{IntoParallelRefIterator, ParallelIterator};
use vstd::prelude::*;

verus! {

/// What `str::to_lowercase` returns for a string (Unicode lower case, context included).
pub uninterp spec fn str_to_lowercase(s: Seq<char>) -> Seq<char>;

/// `str::to_lowercase`.
#[verifier::external_body]
fn to_lowercase(s: &str) -> (r: String)
    ensures
        r@ == str_to_lowercase(s@),
{
    s.to_lowercase()
}

/// The pieces of `s` between the occurrences of `sep`, as `str::split` yields them: one more
/// piece than there are separators.
pub open spec fn split_on(s: Seq<char>, sep: char) -> Seq<Seq<char>>
    decreases s.len(),
{
    match first_satisfying(s, is_char(sep)) {
        None => seq![s],
        Some(k) => {
            if 0 <= k < s.len() {
                seq![s.take(k)] + split_on(s.skip(k + 1), sep)
            } else {
                seq![s]
            }
        },
    }
}

/// The tag name that the text after a `<` stands for: its part before the first `>`, first
/// white-space-separated word, without `/`, in lower case.
pub open spec fn tag_of_piece(p: Seq<char>) -> Seq<char> {
    str_to_lowercase(without_char(first_word(split_on(p, '>')[0]), '/'))
}

/// The tally of the non-empty tag names of `pieces`.
pub open spec fn count_pieces(pieces: Seq<Seq<char>>) -> Map<Seq<char>, nat>
    decreases pieces.len(),
{
    if pieces.len() == 0 {
        Map::empty()
    } else {
        let m = count_pieces(pieces.drop_last());
        let t = tag_of_piece(pieces.last());
        if t.len() == 0 {
            m
        } else {
            add_one_spec(m, t)
        }
    }
}

/// The tally of the tags of one document: the pieces after each `<`.
pub open spec fn doc_counts(doc: Seq<char>) -> Map<Seq<char>, nat> {
    count_pieces(split_on(doc, '<').drop_first())
}

/// The tally of the tags of all documents.
pub open spec fn total_counts(docs: Seq<Seq<char>>) -> Map<Seq<char>, nat>
    decreases docs.len(),
{
    if docs.len() == 0 {
        Map::empty()
    } else {
        merge_spec(total_counts(docs.drop_last()), doc_counts(docs.last()))
    }
}

/// The number of characters of all documents.
pub open spec fn total_chars(docs: Seq<Seq<char>>) -> int
    decreases docs.len(),
{
    if docs.len() == 0 {
        0
    } else {
        total_chars(docs.drop_last()) + docs.last().len()
    }
}

/// The views of a sequence of strings.
pub open spec fn views(docs: Seq<String>) -> Seq<Seq<char>> {
    docs.map_values(|d: String| d@)
}

proof fn lemma_split_step(s: Seq<char>, sep: char, k: int)
    requires
        0 <= k <= s.len(),
        forall|i: int| 0 <= i < k ==> s[i] != sep,
        k < s.len() ==> s[k] == sep,
    ensures
        k == s.len() ==> split_on(s, sep) == seq![s],
        k < s.len() ==> split_on(s, sep) == seq![s.take(k)] + split_on(s.skip(k + 1), sep),
{
    lemma_first_satisfying(s, is_char(sep), k);
}

proof fn lemma_split_len(s: Seq<char>, sep: char)
    ensures
        1 <= split_on(s, sep).len() <= s.len() + 1,
    decreases s.len(),
{
    let k = first_satisfying_or_len(s, is_char(sep));
    lemma_first_satisfying_bounds(s, is_char(sep));
    if k < s.len() {
        lemma_split_len(s.skip(k + 1), sep);
    }
}

proof fn lemma_count_pieces_bound(pieces: Seq<Seq<char>>, k: Seq<char>)
    ensures
        count_of(count_pieces(pieces), k) <= pieces.len(),
    decreases pieces.len(),
{
    if pieces.len() > 0 {
        lemma_count_pieces_bound(pieces.drop_last(), k);
    }
}

/// A tag occurs in a document at most as often as the document has characters.
pub proof fn lemma_doc_count_bound(doc: Seq<char>, k: Seq<char>)
    ensures
        count_of(doc_counts(doc), k) <= doc.len(),
{
    lemma_split_len(doc, '<');
    lemma_count_pieces_bound(split_on(doc, '<').drop_first(), k);
}

/// A tag occurs in all documents at most as often as they have characters.
pub proof fn lemma_total_count_bound(docs: Seq<Seq<char>>, k: Seq<char>)
    ensures
        count_of(total_counts(docs), k) <= total_chars(docs),
    decreases docs.len(),
{
    if docs.len() > 0 {
        lemma_total_count_bound(docs.drop_last(), k);
        lemma_doc_count_bound(docs.last(), k);
    }
}

/// Counting two groups of documents apart and merging the tallies gives the tally of all of
/// them (and their characters add up).
pub proof fn lemma_counts_of_two_groups(a: Seq<Seq<char>>, b: Seq<Seq<char>>)
    ensures
        total_chars(a + b) == total_chars(a) + total_chars(b),
        total_counts(a + b) == merge_spec(total_counts(a), total_counts(b)),
    decreases b.len(),
{
    if b.len() == 0 {
        assert(a + b =~= a);
        lemma_merge_identity(total_counts(a));
    } else {
        lemma_counts_of_two_groups(a, b.drop_last());
        assert((a + b).drop_last() =~= a + b.drop_last());
        lemma_merge_associative(total_counts(a), total_counts(b.drop_last()), doc_counts(b.last()));
    }
}

/// The documents of the groups, one group after another.
pub open spec fn grouped_docs(groups: Seq<Seq<Seq<char>>>) -> Seq<Seq<char>>
    decreases groups.len(),
{
    if groups.len() == 0 {
        Seq::empty()
    } else {
        grouped_docs(groups.drop_last()) + groups.last()
    }
}

/// The tallies of the groups, each counted apart, merged one after another from the empty tally.
pub open spec fn merged_group_counts(groups: Seq<Seq<Seq<char>>>) -> Map<Seq<char>, nat>
    decreases groups.len(),
{
    if groups.len() == 0 {
        total_counts(Seq::empty())
    } else {
        merge_spec(merged_group_counts(groups.drop_last()), total_counts(groups.last()))
    }
}

/// However the documents are split into groups that are counted apart, as map-reduce and
/// fork-join do, merging the groups' tallies gives the tally of counting all of them in order,
/// as the sequential mode does.
pub proof fn lemma_any_grouping_counts_the_same(groups: Seq<Seq<Seq<char>>>)
    ensures
        merged_group_counts(groups) == total_counts(grouped_docs(groups)),
    decreases groups.len(),
{
    if groups.len() > 0 {
        lemma_any_grouping_counts_the_same(groups.drop_last());
        lemma_counts_of_two_groups(grouped_docs(groups.drop_last()), groups.last());
    }
}

proof fn lemma_total_chars_nonneg(a: Seq<Seq<char>>)
    ensures
        total_chars(a) >= 0,
    decreases a.len(),
{
    if a.len() > 0 {
        lemma_total_chars_nonneg(a.drop_last());
    }
}

proof fn lemma_views_split(docs: Seq<String>, mid: int)
    requires
        0 <= mid <= docs.len(),
    ensures
        views(docs) == views(docs.take(mid)) + views(docs.skip(mid)),
{
    assert(views(docs) =~= views(docs.take(mid)) + views(docs.skip(mid)));
}

/// `docs.par_iter().map(count_tags_in_doc).reduce(TagCounts::new, TagCounts::merge)`: rayon
/// combines the tallies of the documents with `merge`, starting from empty tallies, in some
/// grouping. The contract claims the tally of all documents, which every such grouping gives
/// since `merge_spec` is associative and commutative with the empty tally as identity
/// (`lemma_merge_associative`, `lemma_merge_commutative`, `lemma_merge_identity`).
#[verifier::external_body]
fn par_count_tags(docs: &[String]) -> (r: TagCounts)
    requires
        total_chars(views(docs@)) <= usize::MAX,
    ensures
        r@ == total_counts(views(docs@)),
{
    docs.par_iter().map(|d| HtmlTags::count_tags_in_doc(d)).reduce(TagCounts::new, TagCounts::merge)
}

/// Counts the HTML tags of generated documents.
pub struct HtmlTags {
    pub documents_amount: usize,
    html_documents: Vec<String>,
}

impl HtmlTags {
    /// A task that will generate `amount` documents.
    pub fn with_documents_amount(amount: usize) -> (r: Self)
        ensures
            r.amount() == amount,
            r.documents() == Seq::<Seq<char>>::empty(),
    {
        Self { documents_amount: amount, html_documents: Vec::new() }
    }

    /// The number of documents that `setup` generates.
    pub closed spec fn amount(&self) -> usize {
        self.documents_amount
    }

    /// The documents.
    pub closed spec fn documents(&self) -> Seq<Seq<char>> {
        views(self.html_documents@)
    }

    /// Adds a document.
    pub fn push_document(&mut self, document: String)
        ensures
            final(self).amount() == old(self).amount(),
            final(self).documents() == old(self).documents().push(document@),
    {
        self.html_documents.push(document);
        assert(views(self.html_documents@) =~= views(old(self).html_documents@).push(document@));
    }

    /// Removes all documents.
    pub fn clear_documents(&mut self)
        ensures
            final(self).amount() == old(self).amount(),
            final(self).documents() == Seq::<Seq<char>>::empty(),
    {
        self.html_documents.clear();
        assert(views(self.html_documents@) =~= Seq::<Seq<char>>::empty());
    }

    /// The tag name of the text `chars[from..to]` that follows a `<`.
    fn tag_name(chars: &Vec<char>, from: usize, to: usize) -> (r: String)
        requires
            from <= to <= chars@.len(),
        ensures
            r@ == tag_of_piece(chars@.subrange(from as int, to as int)),
    {
        let ghost piece = chars@.subrange(from as int, to as int);
        let content_end = find_char(chars, from, to, '>');
        proof {
            lemma_first_satisfying_bounds(piece, is_char('>'));
            lemma_split_step(piece, '>', content_end - from);
            assert(split_on(piece, '>')[0] =~= chars@.subrange(from as int, content_end as int));
        }
        let ghost content = chars@.subrange(from as int, content_end as int);
        let word_start = find_space(chars, from, content_end, false);
        let word_end = find_space(chars, word_start, content_end, true);
        proof {
            assert(trim_start_spec(content) =~= chars@.subrange(word_start as int, content_end as int));
            assert(first_word(content) =~= chars@.subrange(word_start as int, word_end as int));
        }
        let mut bare = String::new();
        let mut i = word_start;
        while i < word_end
            invariant
                word_start <= i <= word_end <= chars@.len(),
                bare@ == without_char(chars@.subrange(word_start as int, i as int), '/'),
            decreases word_end - i,
        {
            let ghost before = chars@.subrange(word_start as int, i as int);
            if chars[i] != '/' {
                push_char(&mut bare, chars[i]);
            }
            i = i + 1;
            assert(chars@.subrange(word_start as int, i as int).drop_last() =~= before);
        }
        to_lowercase(bare.as_str())
    }

    /// The tally of the tags of `docs`, one document after the other.
    fn count_sequentially(docs: &[String]) -> (r: TagCounts)
        requires
            total_chars(views(docs@)) <= usize::MAX,
        ensures
            r@ == total_counts(views(docs@)),
    {
        let mut acc = TagCounts::new();
        let mut i: usize = 0;
        while i < docs.len()
            invariant
                i <= docs@.len(),
                total_chars(views(docs@)) <= usize::MAX,
                acc@ == total_counts(views(docs@.take(i as int))),
            decreases docs@.len() - i,
        {
            let counts = Self::count_tags_in_doc(docs[i].as_str());
            proof {
                let before = views(docs@.take(i as int));
                let after = views(docs@.take(i + 1));
                assert(after =~= before.push(docs@[i as int]@));
                assert(after.drop_last() =~= before);
                lemma_views_split(docs@, i + 1);
                lemma_counts_of_two_groups(after, views(docs@.skip(i + 1)));
                assert(docs@.take(i + 1) + docs@.skip(i + 1) =~= docs@);
                lemma_total_chars_nonneg(views(docs@.skip(i + 1)));
                assert forall|k: Seq<char>| count_of(acc@, k) + count_of(counts@, k) <= usize::MAX by {
                    lemma_total_count_bound(after, k);
                }
            }
            acc = acc.merge(counts);
            i = i + 1;
        }
        assert(docs@.take(docs@.len() as int) =~= docs@);
        acc
    }

    /// The tally of the tags of `docs`: sequentially up to `threshold` documents, otherwise
    /// by splitting the documents in halves that rayon counts in parallel.
    pub fn fork_join_recursive(docs: &[String], threshold: usize) -> (r: TagCounts)
        requires
            threshold >= 1,
            total_chars(views(docs@)) <= usize::MAX,
        ensures
            r@ == total_counts(views(docs@)),
        decreases docs@.len(),
    {
        if docs.len() <= threshold {
            return Self::count_sequentially(docs);
        }
        let mid = docs.len() / 2;
        let (left_docs, right_docs) = docs.split_at(mid);
        proof {
            assert(left_docs@ =~= docs@.take(mid as int));
            assert(right_docs@ =~= docs@.skip(mid as int));
            lemma_views_split(docs@, mid as int);
            lemma_counts_of_two_groups(views(left_docs@), views(right_docs@));
            lemma_total_chars_nonneg(views(left_docs@));
            lemma_total_chars_nonneg(views(right_docs@));
        }
        let left = move || -> (r: TagCounts)
            requires
                threshold >= 1,
                total_chars(views(left_docs@)) <= usize::MAX,
            ensures
                r@ == total_counts(views(left_docs@)),
        {
            Self::fork_join_recursive(left_docs, threshold)
        };
        let right = move || -> (r: TagCounts)
            requires
                threshold >= 1,
                total_chars(views(right_docs@)) <= usize::MAX,
            ensures
                r@ == total_counts(views(right_docs@)),
        {
            Self::fork_join_recursive(right_docs, threshold)
        };
        let (left_result, right_result) = join(left, right);
        proof {
            assert forall|k: Seq<char>| count_of(left_result@, k) + count_of(right_result@, k) <= usize::MAX by {
                lemma_total_count_bound(views(docs@), k);
            }
        }
        left_result.merge(right_result)
    }

    /// The number of distinct tags of all documents, counted one document after the other.
    pub fn sequential(&self) -> (r: usize)
        requires
            total_chars(self.documents()) <= usize::MAX,
        ensures
            r == total_counts(self.documents()).dom().len(),
    {
        let counts = Self::count_sequentially(self.html_documents.as_slice());
        counts.len()
    }

    /// The number of distinct tags of all documents, the tallies of the documents combined by
    /// a rayon reduction.
    pub fn map_reduce(&self) -> (r: usize)
        requires
            total_chars(self.documents()) <= usize::MAX,
        ensures
            r == total_counts(self.documents()).dom().len(),
    {
        let counts = par_count_tags(self.html_documents.as_slice());
        counts.len()
    }

    /// The number of distinct tags of all documents, counted by `fork_join_recursive`.
    pub fn fork_join(&self, threshold: usize) -> (r: usize)
        requires
            threshold >= 1,
            total_chars(self.documents()) <= usize::MAX,
        ensures
            r == total_counts(self.documents()).dom().len(),
    {
        let counts = Self::fork_join_recursive(self.html_documents.as_slice(), threshold);
        counts.len()
    }

    /// The tally of the tags of one document: for each `<`, the name that follows it.
    pub fn count_tags_in_doc(document: &str) -> (r: TagCounts)
        ensures
            r@ == doc_counts(document@),
    {
        let chars = chars_of(document);
        let len = chars.len();
        let mut counts = TagCounts::new();
        let mut i = find_char(&chars, 0, len, '<');
        let ghost all = split_on(chars@, '<').drop_first();
        let ghost mut done: Seq<Seq<char>> = Seq::empty();
        proof {
            assert(chars@.subrange(0, len as int) =~= chars@);
            lemma_first_satisfying_bounds(chars@, is_char('<'));
            lemma_split_step(chars@, '<', i as int);
            if i < len {
                assert(all =~= split_on(chars@.skip(i + 1), '<'));
            } else {
                assert(all =~= Seq::<Seq<char>>::empty());
            }
        }
        while i < len
            invariant
                len == chars@.len(),
                chars@ == document@,
                i <= len,
                i < len ==> chars@[i as int] == '<',
                i < len ==> all == done + split_on(chars@.skip(i + 1), '<'),
                i == len ==> all == done,
                done.len() <= i,
                counts@ == count_pieces(done),
                all == split_on(chars@, '<').drop_first(),
            decreases len - i,
        {
            let j = find_char(&chars, i + 1, len, '<');
            let ghost rest = chars@.skip(i + 1);
            let ghost piece = chars@.subrange(i + 1, j as int);
            proof {
                assert(chars@.subrange(i + 1, len as int) =~= rest);
                lemma_first_satisfying_bounds(rest, is_char('<'));
                lemma_split_step(rest, '<', j - i - 1);
                assert(rest.take(j - i - 1) =~= piece);
                if j < len {
                    assert(rest.skip(j - i) =~= chars@.skip(j + 1));
                    assert(split_on(rest, '<') =~= seq![piece] + split_on(chars@.skip(j + 1), '<'));
                } else {
                    assert(rest =~= piece);
                }
            }
            let tag = Self::tag_name(&chars, i + 1, j);
            let ghost next_done = done.push(piece);
            proof {
                assert(next_done.drop_last() =~= done);
                lemma_count_pieces_bound(done, tag@);
            }
            if !tag.as_str().is_empty() {
                counts.add(tag, 1);
            }
            proof {
                done = next_done;
                if j < len {
                    assert(all =~= done + split_on(chars@.skip(j + 1), '<'));
                } else {
                    assert(all =~= done);
                }
            }
            i = j;
        }
        counts
    }
}

/// The tags that generated documents are made of.
pub open spec fn available_tags() -> Seq<Seq<char>> {
    seq!["html"@, "head"@, "body"@, "div"@, "span"@, "p"@, "a"@, "h1"@, "img"@]
}

/// The piece of a generated document for one tag: `<tag>random text</tag> `.
pub open spec fn tag_piece(tag: Seq<char>) -> Seq<char> {
    "<"@ + tag + ">random text</"@ + tag + "> "@
}

/// The document whose pieces are those of the tags chosen by `choices`, in order.
pub open spec fn document_spec(choices: Seq<usize>) -> Seq<char>
    decreases choices.len(),
{
    if choices.len() == 0 {
        Seq::empty()
    } else {
        document_spec(choices.drop_last()) + tag_piece(available_tags()[choices.last() as int])
    }
}

/// The position of the first choice that names no tag, if any.
pub open spec fn first_bad_choice(choices: Seq<usize>) -> Option<int>
    decreases choices.len(),
{
    if choices.len() == 0 {
        None
    } else {
        match first_bad_choice(choices.drop_last()) {
            Some(i) => Some(i),
            None => if choices.last() < available_tags().len() {
                None
            } else {
                Some(choices.len() - 1)
            },
        }
    }
}

/// The tag at `index` of the tags that generated documents are made of.
fn available_tag(index: usize) -> (r: &'static str)
    requires
        index < available_tags().len(),
    ensures
        r@ == available_tags()[index as int],
{
    match index {
        0 => "html",
        1 => "head",
        2 => "body",
        3 => "div",
        4 => "span",
        5 => "p",
        6 => "a",
        7 => "h1",
        _ => "img",
    }
}

/// Once a choice of the first `k` names no tag, the first such choice stays.
proof fn lemma_first_bad_choice_stays(choices: Seq<usize>, k: int)
    requires
        0 <= k <= choices.len(),
        first_bad_choice(choices.take(k)) is Some,
    ensures
        first_bad_choice(choices) == first_bad_choice(choices.take(k)),
    decreases choices.len() - k,
{
    if k < choices.len() {
        assert(choices.take(k + 1).drop_last() =~= choices.take(k));
        lemma_first_bad_choice_stays(choices, k + 1);
    } else {
        assert(choices.take(k) =~= choices);
    }
}

impl HtmlTags {
    /// The ways the task is benchmarked, in order.
    pub fn benchmarks(&self) -> (r: Vec<BenchmarkKind>)
        ensures
            r@ == seq![
                BenchmarkKind::Sequential,
                BenchmarkKind::MapReduce { partitions: 8 },
                BenchmarkKind::ForkJoin { threshold: 100 },
                BenchmarkKind::ForkJoin { threshold: 10 },
                BenchmarkKind::WorkerPool { workers: 2 },
                BenchmarkKind::WorkerPool { workers: 4 },
                BenchmarkKind::WorkerPool { workers: 8 },
            ],
    {
        let r = vec![
            BenchmarkKind::Sequential,
            BenchmarkKind::MapReduce { partitions: 8 },
            BenchmarkKind::ForkJoin { threshold: 100 },
            BenchmarkKind::ForkJoin { threshold: 10 },
            BenchmarkKind::WorkerPool { workers: 2 },
            BenchmarkKind::WorkerPool { workers: 4 },
            BenchmarkKind::WorkerPool { workers: 8 },
        ];
        assert(r@ =~= seq![
            BenchmarkKind::Sequential,
            BenchmarkKind::MapReduce { partitions: 8 },
            BenchmarkKind::ForkJoin { threshold: 100 },
            BenchmarkKind::ForkJoin { threshold: 10 },
            BenchmarkKind::WorkerPool { workers: 2 },
            BenchmarkKind::WorkerPool { workers: 4 },
            BenchmarkKind::WorkerPool { workers: 8 },
        ]);
        r
    }

    /// The ways the task can be run: sequentially, map-reduce, fork-join and a worker pool.
    pub fn supported_modes(&self) -> (r: Vec<RunMode>)
        ensures
            r@ == seq![RunMode::Sequential, RunMode::MapReduce, RunMode::ForkJoin, RunMode::WorkerPool],
    {
        let r = vec![RunMode::Sequential, RunMode::MapReduce, RunMode::ForkJoin, RunMode::WorkerPool];
        assert(r@ =~= seq![RunMode::Sequential, RunMode::MapReduce, RunMode::ForkJoin, RunMode::WorkerPool]);
        r
    }

    /// A generated document: for each choice, in order, the piece `<tag>random text</tag> ` of
    /// the tag it chooses among `available_tags`; the first choice that names no tag is an error.
    pub fn generated_document(choices: &[usize]) -> (r: Result<String, TaskLogicError>)
        ensures
            r is Ok <==> first_bad_choice(choices@) is None,
            r matches Ok(document) ==> document@ == document_spec(choices@),
            r matches Err(e) ==> (first_bad_choice(choices@) matches Some(i) && e
                == TaskLogicError::IndexOutOfBounds(choices@[i])),
    {
        let mut document = String::new();
        let mut i: usize = 0;
        while i < choices.len()
            invariant
                i <= choices@.len(),
                first_bad_choice(choices@.take(i as int)) is None,
                document@ == document_spec(choices@.take(i as int)),
            decreases choices@.len() - i,
        {
            assert(choices@.take(i + 1).drop_last() =~= choices@.take(i as int));
            let index = choices[i];
            if index >= 9 {
                proof {
                    lemma_first_bad_choice_stays(choices@, i + 1);
                }
                return Err(TaskLogicError::IndexOutOfBounds(index));
            }
            let tag = available_tag(index);
            document.append("<");
            document.append(tag);
            document.append(">random text</");
            document.append(tag);
            document.append("> ");
            i = i + 1;
            assert(document@ =~= document_spec(choices@.take(i as int)));
        }
        assert(choices@.take(choices@.len() as int) =~= choices@);
        Ok(document)
    }
}

} // verus!
